//! The order invariant: for a widget with properties declared in order
//! P1..Pn, both construction-time application and the update routine
//! apply that widget's properties in exactly that order — construction
//! applies every assignment property, update the refreshing subset, each
//! in left-to-right declaration order.

use vstd::prelude::*;

use crate::assign_gen::{
    spec_arm_branches_assign, spec_cond_assign, spec_if_branches_assign, spec_prop_assign,
    spec_props_assign, spec_widget_assign, ApplyOp,
};
use crate::ast::{
    arm_names, cond_names, if_branch_names, prop_names, props_names, widget_names, AssignAttr,
    ConditionalBranches, ConditionalWidget, IfBranch, MatchArm, Property, PropertyType, Widget,
};
use crate::init_laws::lemma_not_contains_add;
use crate::update_gen::{
    spec_arm_branches_update, spec_cond_update, spec_prop_update, spec_props_update,
    spec_if_branches_update, spec_widget_update, UpdateStep,
};

verus! {

/// The targets applied on widget `n` by an application stream, in order.
pub open spec fn assign_targets_for(ops: Seq<ApplyOp>, n: u32) -> Seq<u32>
    decreases ops.len(),
{
    if ops.len() == 0 {
        Seq::empty()
    } else {
        (if ops[0].widget == n {
            seq![ops[0].target]
        } else {
            Seq::empty()
        }) + assign_targets_for(ops.drop_first(), n)
    }
}

/// The targets re-applied on widget `n` by an update stream, in order.
pub open spec fn update_targets_for(steps: Seq<UpdateStep>, n: u32) -> Seq<u32>
    decreases steps.len(),
{
    if steps.len() == 0 {
        Seq::empty()
    } else {
        (match steps[0] {
            UpdateStep::ApplyAlways { op } => {
                if op.widget == n {
                    seq![op.target]
                } else {
                    Seq::empty()
                }
            },
            UpdateStep::ApplyTracked { op, .. } => {
                if op.widget == n {
                    seq![op.target]
                } else {
                    Seq::empty()
                }
            },
            UpdateStep::SwitchVisible { .. } => Seq::empty(),
        }) + update_targets_for(steps.drop_first(), n)
    }
}

/// A widget's own assignment targets, in declaration order.
pub open spec fn own_assign_targets(s: Seq<Property>) -> Seq<u32>
    decreases s.len(),
{
    if s.len() == 0 {
        Seq::empty()
    } else {
        (match s[0].ty {
            PropertyType::Assign(a) => seq![a.target],
            _ => Seq::empty(),
        }) + own_assign_targets(s.drop_first())
    }
}

/// A widget's own refreshing targets — those with an unconditional- or
/// conditional-refresh modifier — in declaration order.
pub open spec fn own_refresh_targets(s: Seq<Property>) -> Seq<u32>
    decreases s.len(),
{
    if s.len() == 0 {
        Seq::empty()
    } else {
        (match s[0].ty {
            PropertyType::Assign(a) => {
                if a.attr is Once {
                    Seq::empty()
                } else {
                    seq![a.target]
                }
            },
            _ => Seq::empty(),
        }) + own_refresh_targets(s.drop_first())
    }
}

pub proof fn lemma_assign_targets_add(a: Seq<ApplyOp>, b: Seq<ApplyOp>, n: u32)
    ensures
        assign_targets_for(a + b, n) == assign_targets_for(a, n) + assign_targets_for(b, n),
    decreases a.len(),
{
    if a.len() == 0 {
        assert(a + b =~= b);
        assert(assign_targets_for(a, n) + assign_targets_for(b, n) =~= assign_targets_for(b, n));
    } else {
        assert((a + b)[0] == a[0]);
        assert((a + b).drop_first() =~= a.drop_first() + b);
        lemma_assign_targets_add(a.drop_first(), b, n);
        assert(assign_targets_for(a + b, n) =~= assign_targets_for(a, n) + assign_targets_for(
            b,
            n,
        ));
    }
}

pub proof fn lemma_update_targets_add(a: Seq<UpdateStep>, b: Seq<UpdateStep>, n: u32)
    ensures
        update_targets_for(a + b, n) == update_targets_for(a, n) + update_targets_for(b, n),
    decreases a.len(),
{
    if a.len() == 0 {
        assert(a + b =~= b);
        assert(update_targets_for(a, n) + update_targets_for(b, n) =~= update_targets_for(b, n));
    } else {
        assert((a + b)[0] == a[0]);
        assert((a + b).drop_first() =~= a.drop_first() + b);
        lemma_update_targets_add(a.drop_first(), b, n);
        assert(update_targets_for(a + b, n) =~= update_targets_for(a, n) + update_targets_for(
            b,
            n,
        ));
    }
}

pub proof fn lemma_singleton_assign_target(op: ApplyOp, n: u32)
    ensures
        assign_targets_for(seq![op], n) == (if op.widget == n {
            seq![op.target]
        } else {
            Seq::<u32>::empty()
        }),
{
    assert(assign_targets_for(Seq::<ApplyOp>::empty(), n) =~= Seq::<u32>::empty());
    assert(seq![op].drop_first() =~= Seq::<ApplyOp>::empty());
    assert(seq![op][0] == op);
    assert(assign_targets_for(seq![op], n) =~= (if op.widget == n {
        seq![op.target]
    } else {
        Seq::<u32>::empty()
    }));
}

pub proof fn lemma_singleton_update_target(st: UpdateStep, n: u32)
    ensures
        update_targets_for(seq![st], n) == (match st {
            UpdateStep::ApplyAlways { op } => {
                if op.widget == n {
                    seq![op.target]
                } else {
                    Seq::<u32>::empty()
                }
            },
            UpdateStep::ApplyTracked { op, .. } => {
                if op.widget == n {
                    seq![op.target]
                } else {
                    Seq::<u32>::empty()
                }
            },
            UpdateStep::SwitchVisible { .. } => Seq::<u32>::empty(),
        }),
{
    assert(update_targets_for(Seq::<UpdateStep>::empty(), n) =~= Seq::<u32>::empty());
    assert(seq![st].drop_first() =~= Seq::<UpdateStep>::empty());
    assert(seq![st][0] == st);
    assert(update_targets_for(seq![st], n) =~= (match st {
        UpdateStep::ApplyAlways { op } => {
            if op.widget == n {
                seq![op.target]
            } else {
                Seq::<u32>::empty()
            }
        },
        UpdateStep::ApplyTracked { op, .. } => {
            if op.widget == n {
                seq![op.target]
            } else {
                Seq::<u32>::empty()
            }
        },
        UpdateStep::SwitchVisible { .. } => Seq::<u32>::empty(),
    }));
}

/// A subtree applies nothing on a widget whose name it does not declare.
pub proof fn lemma_widget_foreign(u: Widget, x: u32)
    requires
        !widget_names(u).contains(x),
    ensures
        assign_targets_for(spec_widget_assign(u), x) == Seq::<u32>::empty(),
        update_targets_for(spec_widget_update(u), x) == Seq::<u32>::empty(),
    decreases u, 1int,
{
    lemma_not_contains_add(seq![u.name], props_names(u.properties.properties@), x);
    assert(seq![u.name][0] == u.name);
    assert(x != u.name);
    lemma_props_foreign(u.name, u.properties.properties@, x);
}

pub proof fn lemma_props_foreign(owner: u32, s: Seq<Property>, x: u32)
    requires
        x != owner,
        !props_names(s).contains(x),
    ensures
        assign_targets_for(spec_props_assign(owner, s), x) == Seq::<u32>::empty(),
        update_targets_for(spec_props_update(owner, s), x) == Seq::<u32>::empty(),
    decreases s,
{
    if s.len() == 0 {
        assert(assign_targets_for(spec_props_assign(owner, s), x) =~= Seq::<u32>::empty());
        assert(update_targets_for(spec_props_update(owner, s), x) =~= Seq::<u32>::empty());
    } else {
        lemma_not_contains_add(prop_names(s[0]), props_names(s.drop_first()), x);
        lemma_assign_targets_add(
            spec_prop_assign(owner, s[0]),
            spec_props_assign(owner, s.drop_first()),
            x,
        );
        lemma_update_targets_add(
            spec_prop_update(owner, s[0]),
            spec_props_update(owner, s.drop_first()),
            x,
        );
        lemma_prop_foreign(owner, s[0], x);
        lemma_props_foreign(owner, s.drop_first(), x);
        assert(assign_targets_for(spec_props_assign(owner, s), x) =~= Seq::<u32>::empty());
        assert(update_targets_for(spec_props_update(owner, s), x) =~= Seq::<u32>::empty());
    }
}

pub proof fn lemma_prop_foreign(owner: u32, p: Property, x: u32)
    requires
        x != owner,
        !prop_names(p).contains(x),
    ensures
        assign_targets_for(spec_prop_assign(owner, p), x) == Seq::<u32>::empty(),
        update_targets_for(spec_prop_update(owner, p), x) == Seq::<u32>::empty(),
    decreases p,
{
    match p.ty {
        PropertyType::Assign(a) => {
            lemma_singleton_assign_target(crate::assign_gen::spec_op(owner, a), x);
            match a.attr {
                AssignAttr::Once => {
                    assert(update_targets_for(spec_prop_update(owner, p), x) =~= Seq::<
                        u32,
                    >::empty());
                },
                AssignAttr::Watch => {
                    lemma_singleton_update_target(
                        UpdateStep::ApplyAlways { op: crate::assign_gen::spec_op(owner, a) },
                        x,
                    );
                },
                AssignAttr::Track(pred) => {
                    lemma_singleton_update_target(
                        UpdateStep::ApplyTracked {
                            pred,
                            op: crate::assign_gen::spec_op(owner, a),
                        },
                        x,
                    );
                },
            }
        },
        PropertyType::Widget(u) => {
            lemma_widget_foreign(u, x);
        },
        PropertyType::ConditionalWidget(c) => {
            lemma_cond_foreign(c, x);
        },
        _ => {
            assert(assign_targets_for(spec_prop_assign(owner, p), x) =~= Seq::<u32>::empty());
            assert(update_targets_for(spec_prop_update(owner, p), x) =~= Seq::<u32>::empty());
        },
    }
}

pub proof fn lemma_cond_foreign(c: ConditionalWidget, x: u32)
    requires
        !cond_names(c).contains(x),
    ensures
        assign_targets_for(spec_cond_assign(c), x) == Seq::<u32>::empty(),
        update_targets_for(spec_cond_update(c), x) == Seq::<u32>::empty(),
    decreases c,
{
    let sw = UpdateStep::SwitchVisible {
        container: c.name,
        selector: crate::update_gen::spec_selector(c),
        transition: c.transition,
    };
    lemma_singleton_update_target(sw, x);
    match c.branches {
        ConditionalBranches::If(bs) => {
            assert(cond_names(c) == seq![c.name] + if_branch_names(bs@));
            lemma_not_contains_add(seq![c.name], if_branch_names(bs@), x);
            lemma_if_foreign(bs@, x);
            lemma_update_targets_add(seq![sw], spec_if_branches_update(bs@), x);
            assert(update_targets_for(spec_cond_update(c), x) =~= Seq::<u32>::empty());
        },
        ConditionalBranches::Match(_, arms) => {
            assert(cond_names(c) == seq![c.name] + arm_names(arms@));
            lemma_not_contains_add(seq![c.name], arm_names(arms@), x);
            lemma_arm_foreign(arms@, x);
            lemma_update_targets_add(seq![sw], spec_arm_branches_update(arms@), x);
            assert(update_targets_for(spec_cond_update(c), x) =~= Seq::<u32>::empty());
        },
    }
}

pub proof fn lemma_if_foreign(bs: Seq<IfBranch>, x: u32)
    requires
        !if_branch_names(bs).contains(x),
    ensures
        assign_targets_for(spec_if_branches_assign(bs), x) == Seq::<u32>::empty(),
        update_targets_for(spec_if_branches_update(bs), x) == Seq::<u32>::empty(),
    decreases bs,
{
    if bs.len() == 0 {
        assert(assign_targets_for(spec_if_branches_assign(bs), x) =~= Seq::<u32>::empty());
        assert(update_targets_for(spec_if_branches_update(bs), x) =~= Seq::<u32>::empty());
    } else {
        lemma_not_contains_add(widget_names(bs[0].widget), if_branch_names(bs.drop_first()), x);
        lemma_assign_targets_add(
            spec_widget_assign(bs[0].widget),
            spec_if_branches_assign(bs.drop_first()),
            x,
        );
        lemma_update_targets_add(
            spec_widget_update(bs[0].widget),
            spec_if_branches_update(bs.drop_first()),
            x,
        );
        lemma_widget_foreign(bs[0].widget, x);
        lemma_if_foreign(bs.drop_first(), x);
        assert(assign_targets_for(spec_if_branches_assign(bs), x) =~= Seq::<u32>::empty());
        assert(update_targets_for(spec_if_branches_update(bs), x) =~= Seq::<u32>::empty());
    }
}

pub proof fn lemma_arm_foreign(arms: Seq<MatchArm>, x: u32)
    requires
        !arm_names(arms).contains(x),
    ensures
        assign_targets_for(spec_arm_branches_assign(arms), x) == Seq::<u32>::empty(),
        update_targets_for(spec_arm_branches_update(arms), x) == Seq::<u32>::empty(),
    decreases arms,
{
    if arms.len() == 0 {
        assert(assign_targets_for(spec_arm_branches_assign(arms), x) =~= Seq::<u32>::empty());
        assert(update_targets_for(spec_arm_branches_update(arms), x) =~= Seq::<u32>::empty());
    } else {
        lemma_not_contains_add(widget_names(arms[0].widget), arm_names(arms.drop_first()), x);
        lemma_assign_targets_add(
            spec_widget_assign(arms[0].widget),
            spec_arm_branches_assign(arms.drop_first()),
            x,
        );
        lemma_update_targets_add(
            spec_widget_update(arms[0].widget),
            spec_arm_branches_update(arms.drop_first()),
            x,
        );
        lemma_widget_foreign(arms[0].widget, x);
        lemma_arm_foreign(arms.drop_first(), x);
        assert(assign_targets_for(spec_arm_branches_assign(arms), x) =~= Seq::<u32>::empty());
        assert(update_targets_for(spec_arm_branches_update(arms), x) =~= Seq::<u32>::empty());
    }
}

/// A property scope applies its owner's properties in declaration order.
pub proof fn lemma_props_own_order(owner: u32, s: Seq<Property>)
    requires
        !props_names(s).contains(owner),
    ensures
        assign_targets_for(spec_props_assign(owner, s), owner) == own_assign_targets(s),
        update_targets_for(spec_props_update(owner, s), owner) == own_refresh_targets(s),
    decreases s,
{
    if s.len() == 0 {
        assert(assign_targets_for(spec_props_assign(owner, s), owner) =~= own_assign_targets(s));
        assert(update_targets_for(spec_props_update(owner, s), owner) =~= own_refresh_targets(s));
    } else {
        lemma_not_contains_add(prop_names(s[0]), props_names(s.drop_first()), owner);
        lemma_assign_targets_add(
            spec_prop_assign(owner, s[0]),
            spec_props_assign(owner, s.drop_first()),
            owner,
        );
        lemma_update_targets_add(
            spec_prop_update(owner, s[0]),
            spec_props_update(owner, s.drop_first()),
            owner,
        );
        match s[0].ty {
            PropertyType::Assign(a) => {
                lemma_singleton_assign_target(crate::assign_gen::spec_op(owner, a), owner);
                match a.attr {
                    AssignAttr::Once => {},
                    AssignAttr::Watch => {
                        lemma_singleton_update_target(
                            UpdateStep::ApplyAlways {
                                op: crate::assign_gen::spec_op(owner, a),
                            },
                            owner,
                        );
                    },
                    AssignAttr::Track(pred) => {
                        lemma_singleton_update_target(
                            UpdateStep::ApplyTracked {
                                pred,
                                op: crate::assign_gen::spec_op(owner, a),
                            },
                            owner,
                        );
                    },
                }
            },
            PropertyType::Widget(u) => {
                lemma_widget_foreign(u, owner);
            },
            PropertyType::ConditionalWidget(c) => {
                lemma_cond_foreign(c, owner);
            },
            _ => {},
        }
        lemma_props_own_order(owner, s.drop_first());
        assert(assign_targets_for(spec_props_assign(owner, s), owner) =~= own_assign_targets(s));
        assert(update_targets_for(spec_props_update(owner, s), owner) =~= own_refresh_targets(s));
    }
}

/// The order invariant.  In a tree with distinct declared names, the
/// construction-time application stream applies the widget's assignment
/// properties in exactly declaration order, and the update stream
/// re-applies the refreshing ones in exactly that order.
pub proof fn lemma_widget_order(w: Widget)
    requires
        widget_names(w).no_duplicates(),
    ensures
        assign_targets_for(spec_widget_assign(w), w.name) == own_assign_targets(
            w.properties.properties@,
        ),
        update_targets_for(spec_widget_update(w), w.name) == own_refresh_targets(
            w.properties.properties@,
        ),
{
    let tail = props_names(w.properties.properties@);
    assert(widget_names(w) == seq![w.name] + tail);
    assert(!tail.contains(w.name)) by {
        if tail.contains(w.name) {
            let i = choose|i: int| 0 <= i < tail.len() && tail[i] == w.name;
            assert(widget_names(w)[0] == w.name);
            assert(widget_names(w)[1 + i] == w.name);
        }
    }
    lemma_props_own_order(w.name, w.properties.properties@);
}

} // verus!
