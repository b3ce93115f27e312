//! Laws of the construction pass.
//!
//! For every well-formed tree, the construction stream creates exactly
//! one instance of the root widget and of every descendant widget,
//! conditional branches included, whatever any predicate's initial truth
//! value: the sequence of constructed names equals, in declaration order,
//! the sequence of declared constructible names.  A pre-bound widget
//! receives zero construction statements.  A conditional widget with N
//! branches yields a switch-container with exactly N labeled children,
//! indexed 0..N-1 in declaration order.

use vstd::prelude::*;

use crate::ast::{
    arm_names, cond_names, if_branch_names, prop_names, props_names, widget_names,
    ConditionalBranches, ConditionalWidget, IfBranch, MatchArm, Property, PropertyType, Widget,
    WidgetAttr,
};
use crate::init_gen::{
    spec_arm_branches_init, spec_cond_init, spec_if_branches_init, spec_prop_init,
    spec_props_init, spec_self_init, spec_widget_init, InitStatement,
};
use crate::runtime::{spec_run_init, spec_step_init, StoreView};

verus! {

/// The name a construction statement brings into existence.
pub open spec fn constructed_name(s: InitStatement) -> Option<u32> {
    match s {
        InitStatement::Construct { name, .. } => Some(name),
        InitStatement::CreateSwitch { name } => Some(name),
        _ => None,
    }
}

/// The names a stream constructs, in order.
pub open spec fn constructed_names(stmts: Seq<InitStatement>) -> Seq<u32>
    decreases stmts.len(),
{
    if stmts.len() == 0 {
        Seq::empty()
    } else {
        (match constructed_name(stmts[0]) {
            Some(n) => seq![n],
            None => Seq::empty(),
        }) + constructed_names(stmts.drop_first())
    }
}

/// The declared names that construction owes an instance: every widget
/// that is not pre-bound, every switch-container, and every conditional
/// branch's subtree, in declaration order.
pub open spec fn built_widget_names(w: Widget) -> Seq<u32>
    decreases w,
{
    (if w.attr == WidgetAttr::Constructed {
        seq![w.name]
    } else {
        Seq::empty()
    }) + built_props_names(w.properties.properties@)
}

pub open spec fn built_props_names(s: Seq<Property>) -> Seq<u32>
    decreases s,
{
    if s.len() == 0 {
        Seq::empty()
    } else {
        built_prop_names(s[0]) + built_props_names(s.drop_first())
    }
}

pub open spec fn built_prop_names(p: Property) -> Seq<u32>
    decreases p,
{
    match p.ty {
        PropertyType::Widget(w) => built_widget_names(w),
        PropertyType::ConditionalWidget(c) => built_cond_names(c),
        _ => Seq::empty(),
    }
}

pub open spec fn built_cond_names(c: ConditionalWidget) -> Seq<u32>
    decreases c,
{
    seq![c.name] + match c.branches {
        ConditionalBranches::If(bs) => built_if_names(bs@),
        ConditionalBranches::Match(_, arms) => built_arm_names(arms@),
    }
}

pub open spec fn built_if_names(bs: Seq<IfBranch>) -> Seq<u32>
    decreases bs,
{
    if bs.len() == 0 {
        Seq::empty()
    } else {
        built_widget_names(bs[0].widget) + built_if_names(bs.drop_first())
    }
}

pub open spec fn built_arm_names(arms: Seq<MatchArm>) -> Seq<u32>
    decreases arms,
{
    if arms.len() == 0 {
        Seq::empty()
    } else {
        built_widget_names(arms[0].widget) + built_arm_names(arms.drop_first())
    }
}

/// The declared names of pre-bound widgets, which construction must not
/// touch, in declaration order.
pub open spec fn prebound_widget_names(w: Widget) -> Seq<u32>
    decreases w,
{
    (if w.attr == WidgetAttr::Constructed {
        Seq::empty()
    } else {
        seq![w.name]
    }) + prebound_props_names(w.properties.properties@)
}

pub open spec fn prebound_props_names(s: Seq<Property>) -> Seq<u32>
    decreases s,
{
    if s.len() == 0 {
        Seq::empty()
    } else {
        prebound_prop_names(s[0]) + prebound_props_names(s.drop_first())
    }
}

pub open spec fn prebound_prop_names(p: Property) -> Seq<u32>
    decreases p,
{
    match p.ty {
        PropertyType::Widget(w) => prebound_widget_names(w),
        PropertyType::ConditionalWidget(c) => prebound_cond_names(c),
        _ => Seq::empty(),
    }
}

pub open spec fn prebound_cond_names(c: ConditionalWidget) -> Seq<u32>
    decreases c,
{
    match c.branches {
        ConditionalBranches::If(bs) => prebound_if_names(bs@),
        ConditionalBranches::Match(_, arms) => prebound_arm_names(arms@),
    }
}

pub open spec fn prebound_if_names(bs: Seq<IfBranch>) -> Seq<u32>
    decreases bs,
{
    if bs.len() == 0 {
        Seq::empty()
    } else {
        prebound_widget_names(bs[0].widget) + prebound_if_names(bs.drop_first())
    }
}

pub open spec fn prebound_arm_names(arms: Seq<MatchArm>) -> Seq<u32>
    decreases arms,
{
    if arms.len() == 0 {
        Seq::empty()
    } else {
        prebound_widget_names(arms[0].widget) + prebound_arm_names(arms.drop_first())
    }
}

pub proof fn lemma_constructed_names_empty()
    ensures
        constructed_names(Seq::<InitStatement>::empty()) == Seq::<u32>::empty(),
{
}

pub proof fn lemma_constructed_singleton(s: InitStatement)
    ensures
        constructed_names(seq![s]) == (match constructed_name(s) {
            Some(n) => seq![n],
            None => Seq::<u32>::empty(),
        }),
{
    lemma_constructed_names_empty();
    assert(seq![s].drop_first() =~= Seq::<InitStatement>::empty());
    assert(seq![s][0] == s);
    assert(constructed_names(seq![s]) =~= (match constructed_name(s) {
        Some(n) => seq![n],
        None => Seq::<u32>::empty(),
    }));
}

/// Projection onto constructed names distributes over concatenation.
pub proof fn lemma_constructed_names_add(a: Seq<InitStatement>, b: Seq<InitStatement>)
    ensures
        constructed_names(a + b) == constructed_names(a) + constructed_names(b),
    decreases a.len(),
{
    if a.len() == 0 {
        assert(a + b =~= b);
        assert(constructed_names(a) + constructed_names(b) =~= constructed_names(b));
    } else {
        assert((a + b)[0] == a[0]);
        assert((a + b).drop_first() =~= a.drop_first() + b);
        lemma_constructed_names_add(a.drop_first(), b);
        assert(constructed_names(a + b) =~= constructed_names(a) + constructed_names(b));
    }
}

/// The multiset view of declared names splits into the constructible and
/// the pre-bound ones.
pub proof fn lemma_names_split(a1: Seq<u32>, a2: Seq<u32>, b1: Seq<u32>, b2: Seq<u32>)
    ensures
        ((a1 + a2) + (b1 + b2)).to_multiset() == ((a1 + b1) + (a2 + b2)).to_multiset(),
{
    broadcast use vstd::seq_lib::lemma_multiset_commutative;

    assert(((a1 + a2) + (b1 + b2)).to_multiset() =~= ((a1 + b1) + (a2 + b2)).to_multiset());
}

/// Construction yields exactly one instance per constructible declared
/// name, in declaration order, and the declared names split into the
/// constructed and the pre-bound ones.
pub proof fn lemma_widget_init_names(w: Widget)
    ensures
        constructed_names(spec_widget_init(w)) == built_widget_names(w),
        widget_names(w).to_multiset() == (built_widget_names(w) + prebound_widget_names(
            w,
        )).to_multiset(),
    decreases w, 1int,
{
    broadcast use vstd::seq_lib::lemma_multiset_commutative;

    lemma_constructed_names_add(spec_self_init(w), spec_props_init(w.properties.properties@));
    lemma_props_init_names(w.properties.properties@);
    if w.attr == WidgetAttr::Constructed {
        let stmt = spec_self_init(w)[0];
        assert(spec_self_init(w) =~= seq![stmt]);
        lemma_constructed_singleton(stmt);
        assert(constructed_names(spec_self_init(w)) =~= seq![w.name]);
    } else {
        lemma_constructed_names_empty();
    }
    assert(constructed_names(spec_widget_init(w)) =~= built_widget_names(w));
    lemma_names_split(
        if w.attr == WidgetAttr::Constructed {
            seq![w.name]
        } else {
            Seq::empty()
        },
        built_props_names(w.properties.properties@),
        if w.attr == WidgetAttr::Constructed {
            Seq::empty()
        } else {
            seq![w.name]
        },
        prebound_props_names(w.properties.properties@),
    );
    assert(widget_names(w).to_multiset() =~= (built_widget_names(w) + prebound_widget_names(
        w,
    )).to_multiset());
}

pub proof fn lemma_props_init_names(s: Seq<Property>)
    ensures
        constructed_names(spec_props_init(s)) == built_props_names(s),
        props_names(s).to_multiset() == (built_props_names(s) + prebound_props_names(
            s,
        )).to_multiset(),
    decreases s,
{
    broadcast use vstd::seq_lib::lemma_multiset_commutative;

    if s.len() == 0 {
        assert(constructed_names(spec_props_init(s)) =~= built_props_names(s));
        assert(props_names(s).to_multiset() =~= (built_props_names(s) + prebound_props_names(
            s,
        )).to_multiset());
    } else {
        lemma_constructed_names_add(spec_prop_init(s[0]), spec_props_init(s.drop_first()));
        lemma_prop_init_names(s[0]);
        lemma_props_init_names(s.drop_first());
        assert(constructed_names(spec_props_init(s)) =~= built_props_names(s));
        lemma_names_split(
            built_prop_names(s[0]),
            built_props_names(s.drop_first()),
            prebound_prop_names(s[0]),
            prebound_props_names(s.drop_first()),
        );
        assert(props_names(s).to_multiset() =~= (built_props_names(s) + prebound_props_names(
            s,
        )).to_multiset());
    }
}

pub proof fn lemma_prop_init_names(p: Property)
    ensures
        constructed_names(spec_prop_init(p)) == built_prop_names(p),
        prop_names(p).to_multiset() == (built_prop_names(p) + prebound_prop_names(
            p,
        )).to_multiset(),
    decreases p,
{
    match p.ty {
        PropertyType::Widget(w) => {
            lemma_widget_init_names(w);
        },
        PropertyType::ConditionalWidget(c) => {
            lemma_cond_init_names(c);
        },
        _ => {
            assert(prop_names(p).to_multiset() =~= (built_prop_names(p) + prebound_prop_names(
                p,
            )).to_multiset());
        },
    }
}

pub proof fn lemma_cond_init_names(c: ConditionalWidget)
    ensures
        constructed_names(spec_cond_init(c)) == built_cond_names(c),
        cond_names(c).to_multiset() == (built_cond_names(c) + prebound_cond_names(
            c,
        )).to_multiset(),
    decreases c,
{
    broadcast use vstd::seq_lib::lemma_multiset_commutative;

    let head = seq![InitStatement::CreateSwitch { name: c.name }];
    let trans = match c.transition {
        Some(t) => seq![InitStatement::SetTransition { name: c.name, transition: t }],
        None => Seq::<InitStatement>::empty(),
    };
    let branches = match c.branches {
        ConditionalBranches::If(bs) => spec_if_branches_init(bs@, c.name, 0),
        ConditionalBranches::Match(_, arms) => spec_arm_branches_init(arms@, c.name, 0),
    };
    lemma_constructed_names_add(head + trans, branches);
    lemma_constructed_names_add(head, trans);
    lemma_constructed_singleton(head[0]);
    assert(head =~= seq![head[0]]);
    assert(constructed_names(head) =~= seq![c.name]);
    if c.transition is Some {
        lemma_constructed_singleton(trans[0]);
        assert(trans =~= seq![trans[0]]);
        assert(constructed_names(trans) =~= Seq::<u32>::empty());
    } else {
        lemma_constructed_names_empty();
    }
    match c.branches {
        ConditionalBranches::If(bs) => {
            lemma_if_branches_init_names(bs@, c.name, 0);
        },
        ConditionalBranches::Match(_, arms) => {
            lemma_arm_branches_init_names(arms@, c.name, 0);
        },
    }
    assert(constructed_names(spec_cond_init(c)) =~= built_cond_names(c));
    assert(cond_names(c).to_multiset() =~= (built_cond_names(c) + prebound_cond_names(
        c,
    )).to_multiset());
}

pub proof fn lemma_if_branches_init_names(bs: Seq<IfBranch>, container: u32, label: nat)
    ensures
        constructed_names(spec_if_branches_init(bs, container, label)) == built_if_names(bs),
        if_branch_names(bs).to_multiset() == (built_if_names(bs) + prebound_if_names(
            bs,
        )).to_multiset(),
    decreases bs,
{
    broadcast use vstd::seq_lib::lemma_multiset_commutative;

    if bs.len() == 0 {
        assert(constructed_names(spec_if_branches_init(bs, container, label)) =~= built_if_names(
            bs,
        ));
        assert(if_branch_names(bs).to_multiset() =~= (built_if_names(bs) + prebound_if_names(
            bs,
        )).to_multiset());
    } else {
        let reg = seq![
            InitStatement::AddSwitchChild {
                container,
                child: bs[0].widget.name,
                label: label as usize,
            },
        ];
        lemma_constructed_names_add(
            spec_widget_init(bs[0].widget) + reg,
            spec_if_branches_init(bs.drop_first(), container, label + 1),
        );
        lemma_constructed_names_add(spec_widget_init(bs[0].widget), reg);
        lemma_constructed_singleton(reg[0]);
        assert(reg =~= seq![reg[0]]);
        assert(constructed_names(reg) =~= Seq::<u32>::empty());
        lemma_widget_init_names(bs[0].widget);
        lemma_if_branches_init_names(bs.drop_first(), container, label + 1);
        assert(constructed_names(spec_if_branches_init(bs, container, label)) =~= built_if_names(
            bs,
        ));
        lemma_names_split(
            built_widget_names(bs[0].widget),
            built_if_names(bs.drop_first()),
            prebound_widget_names(bs[0].widget),
            prebound_if_names(bs.drop_first()),
        );
        assert(if_branch_names(bs).to_multiset() =~= (built_if_names(bs) + prebound_if_names(
            bs,
        )).to_multiset());
    }
}

pub proof fn lemma_arm_branches_init_names(arms: Seq<MatchArm>, container: u32, label: nat)
    ensures
        constructed_names(spec_arm_branches_init(arms, container, label)) == built_arm_names(arms),
        arm_names(arms).to_multiset() == (built_arm_names(arms) + prebound_arm_names(
            arms,
        )).to_multiset(),
    decreases arms,
{
    broadcast use vstd::seq_lib::lemma_multiset_commutative;

    if arms.len() == 0 {
        assert(constructed_names(spec_arm_branches_init(arms, container, label))
            =~= built_arm_names(arms));
        assert(arm_names(arms).to_multiset() =~= (built_arm_names(arms) + prebound_arm_names(
            arms,
        )).to_multiset());
    } else {
        let reg = seq![
            InitStatement::AddSwitchChild {
                container,
                child: arms[0].widget.name,
                label: label as usize,
            },
        ];
        lemma_constructed_names_add(
            spec_widget_init(arms[0].widget) + reg,
            spec_arm_branches_init(arms.drop_first(), container, label + 1),
        );
        lemma_constructed_names_add(spec_widget_init(arms[0].widget), reg);
        lemma_constructed_singleton(reg[0]);
        assert(reg =~= seq![reg[0]]);
        assert(constructed_names(reg) =~= Seq::<u32>::empty());
        lemma_widget_init_names(arms[0].widget);
        lemma_arm_branches_init_names(arms.drop_first(), container, label + 1);
        assert(constructed_names(spec_arm_branches_init(arms, container, label))
            =~= built_arm_names(arms));
        lemma_names_split(
            built_widget_names(arms[0].widget),
            built_arm_names(arms.drop_first()),
            prebound_widget_names(arms[0].widget),
            prebound_arm_names(arms.drop_first()),
        );
        assert(arm_names(arms).to_multiset() =~= (built_arm_names(arms) + prebound_arm_names(
            arms,
        )).to_multiset());
    }
}

/// A pre-bound widget receives zero construction statements: in a tree
/// with distinct declared names, no construction statement of the emitted
/// init code constructs a pre-bound widget's name.
pub proof fn lemma_prebound_never_constructed(w: Widget, n: u32)
    requires
        widget_names(w).no_duplicates(),
        prebound_widget_names(w).contains(n),
    ensures
        !constructed_names(spec_widget_init(w)).contains(n),
{
    broadcast use vstd::seq_lib::lemma_multiset_commutative;

    lemma_widget_init_names(w);
    widget_names(w).lemma_multiset_has_no_duplicates();
    widget_names(w).to_multiset_ensures();
    built_widget_names(w).to_multiset_ensures();
    prebound_widget_names(w).to_multiset_ensures();
    let built = built_widget_names(w);
    let pre = prebound_widget_names(w);
    assert(widget_names(w).to_multiset().count(n) == built.to_multiset().count(n)
        + pre.to_multiset().count(n));
    if built.contains(n) {
        assert(built.to_multiset().count(n) > 0);
        assert(pre.to_multiset().count(n) > 0);
        assert(widget_names(w).to_multiset().count(n) >= 2);
    }
}

/// The labeled-child registration a statement makes on `container`.
pub open spec fn child_entry_of(s: InitStatement, container: u32) -> Option<(u32, usize)> {
    match s {
        InitStatement::AddSwitchChild { container: c2, child, label, .. } => {
            if c2 == container {
                Some((child, label))
            } else {
                None
            }
        },
        _ => None,
    }
}

/// The labeled children a stream registers on `container`, in order.
pub open spec fn switch_children_of(stmts: Seq<InitStatement>, container: u32) -> Seq<(u32, usize)>
    decreases stmts.len(),
{
    if stmts.len() == 0 {
        Seq::empty()
    } else {
        (match child_entry_of(stmts[0], container) {
            Some(e) => seq![e],
            None => Seq::empty(),
        }) + switch_children_of(stmts.drop_first(), container)
    }
}

pub proof fn lemma_children_empty(container: u32)
    ensures
        switch_children_of(Seq::<InitStatement>::empty(), container) == Seq::<(u32, usize)>::empty(),
{
}

pub proof fn lemma_children_singleton(s: InitStatement, container: u32)
    ensures
        switch_children_of(seq![s], container) == (match child_entry_of(s, container) {
            Some(e) => seq![e],
            None => Seq::<(u32, usize)>::empty(),
        }),
{
    lemma_children_empty(container);
    assert(seq![s].drop_first() =~= Seq::<InitStatement>::empty());
    assert(seq![s][0] == s);
    assert(switch_children_of(seq![s], container) =~= (match child_entry_of(s, container) {
        Some(e) => seq![e],
        None => Seq::<(u32, usize)>::empty(),
    }));
}

/// Projection onto labeled children distributes over concatenation.
pub proof fn lemma_children_add(a: Seq<InitStatement>, b: Seq<InitStatement>, container: u32)
    ensures
        switch_children_of(a + b, container) == switch_children_of(a, container)
            + switch_children_of(b, container),
    decreases a.len(),
{
    if a.len() == 0 {
        assert(a + b =~= b);
        assert(switch_children_of(a, container) + switch_children_of(b, container)
            =~= switch_children_of(b, container));
    } else {
        assert((a + b)[0] == a[0]);
        assert((a + b).drop_first() =~= a.drop_first() + b);
        lemma_children_add(a.drop_first(), b, container);
        assert(switch_children_of(a + b, container) =~= switch_children_of(a, container)
            + switch_children_of(b, container));
    }
}

/// A name absent from a concatenation is absent from both parts.
pub proof fn lemma_not_contains_add(a: Seq<u32>, b: Seq<u32>, x: u32)
    requires
        !(a + b).contains(x),
    ensures
        !a.contains(x),
        !b.contains(x),
{
    if a.contains(x) {
        let i = choose|i: int| 0 <= i < a.len() && a[i] == x;
        assert((a + b)[i] == x);
    }
    if b.contains(x) {
        let i = choose|i: int| 0 <= i < b.len() && b[i] == x;
        assert((a + b)[a.len() + i] == x);
    }
}

/// A subtree registers no child on a container whose name it does not
/// declare.
pub proof fn lemma_widget_init_foreign(w: Widget, x: u32)
    requires
        !widget_names(w).contains(x),
    ensures
        switch_children_of(spec_widget_init(w), x) == Seq::<(u32, usize)>::empty(),
    decreases w, 1int,
{
    lemma_children_add(spec_self_init(w), spec_props_init(w.properties.properties@), x);
    lemma_not_contains_add(seq![w.name], props_names(w.properties.properties@), x);
    if w.attr == WidgetAttr::Constructed {
        let stmt = spec_self_init(w)[0];
        assert(spec_self_init(w) =~= seq![stmt]);
        lemma_children_singleton(stmt, x);
    } else {
        lemma_children_empty(x);
    }
    lemma_props_init_foreign(w.properties.properties@, x);
    assert(switch_children_of(spec_widget_init(w), x) =~= Seq::<(u32, usize)>::empty());
}

pub proof fn lemma_props_init_foreign(s: Seq<Property>, x: u32)
    requires
        !props_names(s).contains(x),
    ensures
        switch_children_of(spec_props_init(s), x) == Seq::<(u32, usize)>::empty(),
    decreases s,
{
    if s.len() == 0 {
        lemma_children_empty(x);
        assert(switch_children_of(spec_props_init(s), x) =~= Seq::<(u32, usize)>::empty());
    } else {
        lemma_not_contains_add(prop_names(s[0]), props_names(s.drop_first()), x);
        lemma_children_add(spec_prop_init(s[0]), spec_props_init(s.drop_first()), x);
        lemma_prop_init_foreign(s[0], x);
        lemma_props_init_foreign(s.drop_first(), x);
        assert(switch_children_of(spec_props_init(s), x) =~= Seq::<(u32, usize)>::empty());
    }
}

pub proof fn lemma_prop_init_foreign(p: Property, x: u32)
    requires
        !prop_names(p).contains(x),
    ensures
        switch_children_of(spec_prop_init(p), x) == Seq::<(u32, usize)>::empty(),
    decreases p,
{
    match p.ty {
        PropertyType::Widget(w) => {
            lemma_widget_init_foreign(w, x);
        },
        PropertyType::ConditionalWidget(c) => {
            lemma_cond_init_foreign(c, x);
        },
        _ => {
            lemma_children_empty(x);
            assert(switch_children_of(spec_prop_init(p), x) =~= Seq::<(u32, usize)>::empty());
        },
    }
}

pub proof fn lemma_cond_init_foreign(c: ConditionalWidget, x: u32)
    requires
        !cond_names(c).contains(x),
    ensures
        switch_children_of(spec_cond_init(c), x) == Seq::<(u32, usize)>::empty(),
    decreases c,
{
    let head = seq![InitStatement::CreateSwitch { name: c.name }];
    let trans = match c.transition {
        Some(t) => seq![InitStatement::SetTransition { name: c.name, transition: t }],
        None => Seq::<InitStatement>::empty(),
    };
    let branches = match c.branches {
        ConditionalBranches::If(bs) => spec_if_branches_init(bs@, c.name, 0),
        ConditionalBranches::Match(_, arms) => spec_arm_branches_init(arms@, c.name, 0),
    };
    lemma_children_add(head + trans, branches, x);
    lemma_children_add(head, trans, x);
    lemma_children_singleton(head[0], x);
    assert(head =~= seq![head[0]]);
    if c.transition is Some {
        lemma_children_singleton(trans[0], x);
        assert(trans =~= seq![trans[0]]);
    } else {
        lemma_children_empty(x);
    }
    match c.branches {
        ConditionalBranches::If(bs) => {
            assert(cond_names(c) == seq![c.name] + if_branch_names(bs@));
            assert((seq![c.name] + if_branch_names(bs@))[0] == c.name);
            assert(x != c.name);
            lemma_not_contains_add(seq![c.name], if_branch_names(bs@), x);
            lemma_if_branches_foreign(bs@, c.name, 0, x);
        },
        ConditionalBranches::Match(_, arms) => {
            assert(cond_names(c) == seq![c.name] + arm_names(arms@));
            assert((seq![c.name] + arm_names(arms@))[0] == c.name);
            assert(x != c.name);
            lemma_not_contains_add(seq![c.name], arm_names(arms@), x);
            lemma_arm_branches_foreign(arms@, c.name, 0, x);
        },
    }
    assert(switch_children_of(spec_cond_init(c), x) =~= Seq::<(u32, usize)>::empty());
}

pub proof fn lemma_if_branches_foreign(bs: Seq<IfBranch>, container: u32, label: nat, x: u32)
    requires
        x != container,
        !if_branch_names(bs).contains(x),
    ensures
        switch_children_of(spec_if_branches_init(bs, container, label), x) == Seq::<
            (u32, usize),
        >::empty(),
    decreases bs,
{
    if bs.len() == 0 {
        lemma_children_empty(x);
        assert(switch_children_of(spec_if_branches_init(bs, container, label), x) =~= Seq::<
            (u32, usize),
        >::empty());
    } else {
        lemma_not_contains_add(widget_names(bs[0].widget), if_branch_names(bs.drop_first()), x);
        let reg = seq![
            InitStatement::AddSwitchChild {
                container,
                child: bs[0].widget.name,
                label: label as usize,
            },
        ];
        lemma_children_add(
            spec_widget_init(bs[0].widget) + reg,
            spec_if_branches_init(bs.drop_first(), container, label + 1),
            x,
        );
        lemma_children_add(spec_widget_init(bs[0].widget), reg, x);
        lemma_children_singleton(reg[0], x);
        assert(reg =~= seq![reg[0]]);
        lemma_widget_init_foreign(bs[0].widget, x);
        lemma_if_branches_foreign(bs.drop_first(), container, label + 1, x);
        assert(switch_children_of(spec_if_branches_init(bs, container, label), x) =~= Seq::<
            (u32, usize),
        >::empty());
    }
}

pub proof fn lemma_arm_branches_foreign(arms: Seq<MatchArm>, container: u32, label: nat, x: u32)
    requires
        x != container,
        !arm_names(arms).contains(x),
    ensures
        switch_children_of(spec_arm_branches_init(arms, container, label), x) == Seq::<
            (u32, usize),
        >::empty(),
    decreases arms,
{
    if arms.len() == 0 {
        lemma_children_empty(x);
        assert(switch_children_of(spec_arm_branches_init(arms, container, label), x) =~= Seq::<
            (u32, usize),
        >::empty());
    } else {
        lemma_not_contains_add(widget_names(arms[0].widget), arm_names(arms.drop_first()), x);
        let reg = seq![
            InitStatement::AddSwitchChild {
                container,
                child: arms[0].widget.name,
                label: label as usize,
            },
        ];
        lemma_children_add(
            spec_widget_init(arms[0].widget) + reg,
            spec_arm_branches_init(arms.drop_first(), container, label + 1),
            x,
        );
        lemma_children_add(spec_widget_init(arms[0].widget), reg, x);
        lemma_children_singleton(reg[0], x);
        assert(reg =~= seq![reg[0]]);
        lemma_widget_init_foreign(arms[0].widget, x);
        lemma_arm_branches_foreign(arms.drop_first(), container, label + 1, x);
        assert(switch_children_of(spec_arm_branches_init(arms, container, label), x) =~= Seq::<
            (u32, usize),
        >::empty());
    }
}

/// A name absent from a branch list's declarations is absent from every
/// branch subtree.
pub proof fn lemma_if_names_cover(bs: Seq<IfBranch>, x: u32)
    requires
        !if_branch_names(bs).contains(x),
    ensures
        forall|j: int| 0 <= j < bs.len() ==> !widget_names(#[trigger] bs[j].widget).contains(x),
    decreases bs,
{
    if bs.len() > 0 {
        lemma_not_contains_add(widget_names(bs[0].widget), if_branch_names(bs.drop_first()), x);
        lemma_if_names_cover(bs.drop_first(), x);
        assert forall|j: int| 0 <= j < bs.len() implies !widget_names(
            #[trigger] bs[j].widget,
        ).contains(x) by {
            if j > 0 {
                assert(bs.drop_first()[j - 1] == bs[j]);
            }
        }
    }
}

pub proof fn lemma_arm_names_cover(arms: Seq<MatchArm>, x: u32)
    requires
        !arm_names(arms).contains(x),
    ensures
        forall|j: int| 0 <= j < arms.len() ==> !widget_names(#[trigger] arms[j].widget).contains(x),
    decreases arms,
{
    if arms.len() > 0 {
        lemma_not_contains_add(widget_names(arms[0].widget), arm_names(arms.drop_first()), x);
        lemma_arm_names_cover(arms.drop_first(), x);
        assert forall|j: int| 0 <= j < arms.len() implies !widget_names(
            #[trigger] arms[j].widget,
        ).contains(x) by {
            if j > 0 {
                assert(arms.drop_first()[j - 1] == arms[j]);
            }
        }
    }
}

/// Each branch registers exactly its own widget as the next labeled child.
pub proof fn lemma_if_branches_children(bs: Seq<IfBranch>, container: u32, label: nat)
    requires
        forall|j: int| 0 <= j < bs.len() ==> !widget_names(#[trigger] bs[j].widget).contains(
            container,
        ),
    ensures
        switch_children_of(spec_if_branches_init(bs, container, label), container) == Seq::new(
            bs.len(),
            |i: int| (bs[i].widget.name, (label + i) as usize),
        ),
    decreases bs,
{
    if bs.len() == 0 {
        lemma_children_empty(container);
        assert(switch_children_of(spec_if_branches_init(bs, container, label), container)
            =~= Seq::new(bs.len(), |i: int| (bs[i].widget.name, (label + i) as usize)));
    } else {
        let reg = seq![
            InitStatement::AddSwitchChild {
                container,
                child: bs[0].widget.name,
                label: label as usize,
            },
        ];
        lemma_children_add(
            spec_widget_init(bs[0].widget) + reg,
            spec_if_branches_init(bs.drop_first(), container, label + 1),
            container,
        );
        lemma_children_add(spec_widget_init(bs[0].widget), reg, container);
        lemma_children_singleton(reg[0], container);
        assert(reg =~= seq![reg[0]]);
        lemma_widget_init_foreign(bs[0].widget, container);
        lemma_if_branches_children(bs.drop_first(), container, label + 1);
        assert(switch_children_of(spec_if_branches_init(bs, container, label), container)
            =~= Seq::new(bs.len(), |i: int| (bs[i].widget.name, (label + i) as usize)));
    }
}

pub proof fn lemma_arm_branches_children(arms: Seq<MatchArm>, container: u32, label: nat)
    requires
        forall|j: int| 0 <= j < arms.len() ==> !widget_names(#[trigger] arms[j].widget).contains(
            container,
        ),
    ensures
        switch_children_of(spec_arm_branches_init(arms, container, label), container) == Seq::new(
            arms.len(),
            |i: int| (arms[i].widget.name, (label + i) as usize),
        ),
    decreases arms,
{
    if arms.len() == 0 {
        lemma_children_empty(container);
        assert(switch_children_of(spec_arm_branches_init(arms, container, label), container)
            =~= Seq::new(arms.len(), |i: int| (arms[i].widget.name, (label + i) as usize)));
    } else {
        let reg = seq![
            InitStatement::AddSwitchChild {
                container,
                child: arms[0].widget.name,
                label: label as usize,
            },
        ];
        lemma_children_add(
            spec_widget_init(arms[0].widget) + reg,
            spec_arm_branches_init(arms.drop_first(), container, label + 1),
            container,
        );
        lemma_children_add(spec_widget_init(arms[0].widget), reg, container);
        lemma_children_singleton(reg[0], container);
        assert(reg =~= seq![reg[0]]);
        lemma_widget_init_foreign(arms[0].widget, container);
        lemma_arm_branches_children(arms.drop_first(), container, label + 1);
        assert(switch_children_of(spec_arm_branches_init(arms, container, label), container)
            =~= Seq::new(arms.len(), |i: int| (arms[i].widget.name, (label + i) as usize)));
    }
}

/// A conditional widget with N branches produces a switch-container with
/// exactly N labeled children, indexed 0..N-1 by declaration order, each
/// holding the matching branch's widget.
pub proof fn lemma_cond_labeled_children(c: ConditionalWidget)
    requires
        cond_names(c).no_duplicates(),
    ensures
        ({
            let ch = switch_children_of(spec_cond_init(c), c.name);
            &&& ch.len() == c.branches.len()
            &&& forall|i: int|
                0 <= i < ch.len() ==> ch[i] == (c.branches.widgets()[i].name, i as usize)
        }),
{
    let head = seq![InitStatement::CreateSwitch { name: c.name }];
    let trans = match c.transition {
        Some(t) => seq![InitStatement::SetTransition { name: c.name, transition: t }],
        None => Seq::<InitStatement>::empty(),
    };
    let branches = match c.branches {
        ConditionalBranches::If(bs) => spec_if_branches_init(bs@, c.name, 0),
        ConditionalBranches::Match(_, arms) => spec_arm_branches_init(arms@, c.name, 0),
    };
    lemma_children_add(head + trans, branches, c.name);
    lemma_children_add(head, trans, c.name);
    lemma_children_singleton(head[0], c.name);
    assert(head =~= seq![head[0]]);
    if c.transition is Some {
        lemma_children_singleton(trans[0], c.name);
        assert(trans =~= seq![trans[0]]);
    } else {
        lemma_children_empty(c.name);
    }
    let tail = match c.branches {
        ConditionalBranches::If(bs) => if_branch_names(bs@),
        ConditionalBranches::Match(_, arms) => arm_names(arms@),
    };
    assert(cond_names(c) == seq![c.name] + tail);
    assert(!tail.contains(c.name)) by {
        if tail.contains(c.name) {
            let i = choose|i: int| 0 <= i < tail.len() && tail[i] == c.name;
            assert(cond_names(c)[0] == c.name);
            assert(cond_names(c)[1 + i] == c.name);
        }
    }
    match c.branches {
        ConditionalBranches::If(bs) => {
            lemma_if_names_cover(bs@, c.name);
            lemma_if_branches_children(bs@, c.name, 0);
            assert(switch_children_of(spec_cond_init(c), c.name) =~= Seq::new(
                bs@.len(),
                |i: int| (bs@[i].widget.name, i as usize),
            ));
        },
        ConditionalBranches::Match(_, arms) => {
            lemma_arm_names_cover(arms@, c.name);
            lemma_arm_branches_children(arms@, c.name, 0);
            assert(switch_children_of(spec_cond_init(c), c.name) =~= Seq::new(
                arms@.len(),
                |i: int| (arms@[i].widget.name, i as usize),
            ));
        },
    }
}


/// Running a construction stream appends exactly the names it constructs,
/// in order.
pub proof fn lemma_run_init_constructed(sv: StoreView, stmts: Seq<InitStatement>)
    ensures
        spec_run_init(sv, stmts).constructed == sv.constructed + constructed_names(stmts),
    decreases stmts.len(),
{
    if stmts.len() == 0 {
        assert(sv.constructed + constructed_names(stmts) =~= sv.constructed);
    } else {
        let sv1 = spec_step_init(sv, stmts[0]);
        let head = match constructed_name(stmts[0]) {
            Some(n) => seq![n],
            None => Seq::<u32>::empty(),
        };
        assert(sv1.constructed =~= sv.constructed + head);
        lemma_run_init_constructed(sv1, stmts.drop_first());
        assert(sv.constructed + head + constructed_names(stmts.drop_first()) =~= sv.constructed
            + constructed_names(stmts));
    }
}

/// Running a tree's construction stream instantiates exactly the declared
/// constructible widgets — the root, every descendant, every conditional
/// branch's subtree, pre-bound widgets excepted — once each, in
/// declaration order, whatever any predicate's value.
pub proof fn lemma_init_instantiates_tree(sv: StoreView, w: Widget)
    ensures
        spec_run_init(sv, spec_widget_init(w)).constructed == sv.constructed + built_widget_names(
            w,
        ),
{
    lemma_run_init_constructed(sv, spec_widget_init(w));
    lemma_widget_init_names(w);
}


} // verus!
