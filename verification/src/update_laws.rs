//! Laws of the update routine's semantics.
//!
//! An update invocation appends to the application log exactly the
//! records its refresh modifiers call for — every unconditional-refresh
//! step on every invocation, every conditional-refresh step if and only
//! if its predicate holds — and it never constructs anything and never
//! re-parents a child: of every switch-container only the visible index
//! moves, to the branch the discriminant selects.

use vstd::prelude::*;

use crate::assign_gen::ApplyOp;
use crate::ast::{IfBranch, MatchArm};
use crate::runtime::{
    chain_ends_in_else, chain_first_match, chain_len, pattern_first_match, pattern_len,
    spec_find_switch, spec_run_update, spec_selected, spec_step_update, ApplyRecord, Env,
    StoreView, SwitchView,
};
use crate::update_gen::{spec_conds, spec_patterns, CondChain, PatternChain, Selector, UpdateStep};

verus! {

/// The record one application appends: nothing when the argument is
/// optional and absent.
pub open spec fn applied_record(op: ApplyOp, env: Env) -> Seq<ApplyRecord> {
    if op.optional && !env.is_present(op.expr) {
        Seq::empty()
    } else {
        seq![ApplyRecord { widget: op.widget, target: op.target, value: env.val(op.expr) }]
    }
}

/// What one update invocation appends to the application log: an
/// unconditional-refresh step always applies, with no dependence on
/// tracker state; a conditional-refresh step applies if and only if its
/// predicate evaluates true; a visibility switch logs nothing.
pub open spec fn spec_update_log(steps: Seq<UpdateStep>, env: Env) -> Seq<ApplyRecord>
    decreases steps.len(),
{
    if steps.len() == 0 {
        Seq::empty()
    } else {
        (match steps[0] {
            UpdateStep::ApplyAlways { op } => applied_record(op, env),
            UpdateStep::ApplyTracked { pred, op } => {
                if env.truthy(pred) {
                    applied_record(op, env)
                } else {
                    Seq::empty()
                }
            },
            UpdateStep::SwitchVisible { .. } => Seq::empty(),
        }) + spec_update_log(steps.drop_first(), env)
    }
}

/// Running an update appends exactly the log its refresh modifiers call
/// for, in step order.
pub proof fn lemma_update_log(sv: StoreView, steps: Seq<UpdateStep>, env: Env)
    ensures
        spec_run_update(sv, steps, env).log == sv.log + spec_update_log(steps, env),
    decreases steps.len(),
{
    if steps.len() == 0 {
        assert(sv.log + spec_update_log(steps, env) =~= sv.log);
    } else {
        let sv1 = spec_step_update(sv, steps[0], env);
        lemma_update_log(sv1, steps.drop_first(), env);
        let head = match steps[0] {
            UpdateStep::ApplyAlways { op } => applied_record(op, env),
            UpdateStep::ApplyTracked { pred, op } => {
                if env.truthy(pred) {
                    applied_record(op, env)
                } else {
                    Seq::<ApplyRecord>::empty()
                }
            },
            UpdateStep::SwitchVisible { .. } => Seq::<ApplyRecord>::empty(),
        };
        assert(sv1.log =~= sv.log + head);
        assert(sv.log + head + spec_update_log(steps.drop_first(), env) =~= sv.log
            + spec_update_log(steps, env));
    }
}

/// Update constructs nothing and re-parents nothing: the construction
/// log, the switch count, and every switch's name, children and
/// transition survive unchanged; only visibility moves.
pub proof fn lemma_update_preserves_structure(sv: StoreView, steps: Seq<UpdateStep>, env: Env)
    ensures
        ({
            let sv2 = spec_run_update(sv, steps, env);
            &&& sv2.constructed == sv.constructed
            &&& sv2.switches.len() == sv.switches.len()
            &&& forall|j: int|
                0 <= j < sv.switches.len() ==> {
                    &&& (#[trigger] sv2.switches[j]).name == sv.switches[j].name
                    &&& sv2.switches[j].children == sv.switches[j].children
                    &&& sv2.switches[j].transition == sv.switches[j].transition
                }
        }),
    decreases steps.len(),
{
    if steps.len() > 0 {
        let sv1 = spec_step_update(sv, steps[0], env);
        match steps[0] {
            UpdateStep::SwitchVisible { container, .. } => {
                lemma_find_switch_valid(sv.switches, container);
            },
            _ => {},
        }
        assert(sv1.constructed == sv.constructed);
        assert(sv1.switches.len() == sv.switches.len());
        assert forall|j: int| 0 <= j < sv.switches.len() implies {
            &&& (#[trigger] sv1.switches[j]).name == sv.switches[j].name
            &&& sv1.switches[j].children == sv.switches[j].children
            &&& sv1.switches[j].transition == sv.switches[j].transition
        } by {
            match steps[0] {
                UpdateStep::SwitchVisible { container, .. } => {
                    match spec_find_switch(sv.switches, container) {
                        Some(k) => {
                            if j != k {
                                assert(sv1.switches[j] == sv.switches[j]);
                            }
                        },
                        None => {},
                    }
                },
                _ => {},
            }
        }
        lemma_update_preserves_structure(sv1, steps.drop_first(), env);
    }
}

/// The switch a name resolves to is a real switch with that name.
pub proof fn lemma_find_switch_valid(ss: Seq<SwitchView>, name: u32)
    ensures
        match spec_find_switch(ss, name) {
            Some(j) => 0 <= j < ss.len() && ss[j].name == name,
            None => true,
        },
    decreases ss.len(),
{
    if ss.len() > 0 && ss.last().name != name {
        lemma_find_switch_valid(ss.drop_last(), name);
    }
}

/// Where an if-chain's first match lands: within the chain; a chain
/// ending in an `else` branch always selects some branch.
pub proof fn lemma_chain_first_match_bounds(ch: CondChain, env: Env)
    ensures
        match chain_first_match(ch, env) {
            Some(i) => 0 <= i < chain_len(ch),
            None => !chain_ends_in_else(ch),
        },
    decreases ch,
{
    match ch {
        CondChain::Last => {},
        CondChain::Link(c, rest) => {
            let hit = match c {
                Some(e) => env.truthy(e),
                None => true,
            };
            if !hit {
                lemma_chain_first_match_bounds(*rest, env);
            }
        },
    }
}

/// Where a match's first covering arm lands: within the arms.
pub proof fn lemma_pattern_first_match_bounds(pc: PatternChain, env: Env, v: u64)
    ensures
        match pattern_first_match(pc, env, v) {
            Some(i) => 0 <= i < pattern_len(pc),
            None => true,
        },
    decreases pc,
{
    match pc {
        PatternChain::Last => {},
        PatternChain::Link(p, rest) => {
            if !env.pattern_matches(p, v) {
                lemma_pattern_first_match_bounds(*rest, env, v);
            }
        },
    }
}

/// After a visibility switch on a well-shaped container — it has at least
/// one child, and an if-chain ends in an `else` child — exactly one
/// branch is visible: the one the discriminant selects under the current
/// environment.  Nothing is constructed, logged, or re-parented by the
/// switch, and no other switch moves.
pub proof fn lemma_switch_step(
    sv: StoreView,
    container: u32,
    selector: Selector,
    transition: Option<u32>,
    env: Env,
)
    requires
        spec_find_switch(sv.switches, container) is Some,
        ({
            let j = spec_find_switch(sv.switches, container)->0;
            &&& sv.switches[j].children.len() > 0
            &&& (selector matches Selector::IfChain { conds } ==> chain_ends_in_else(conds)
                && chain_len(conds) == sv.switches[j].children.len())
        }),
    ensures
        ({
            let step = UpdateStep::SwitchVisible { container, selector, transition };
            let sv2 = spec_step_update(sv, step, env);
            let j = spec_find_switch(sv.switches, container)->0;
            &&& sv2.constructed == sv.constructed
            &&& sv2.log == sv.log
            &&& sv2.switches.len() == sv.switches.len()
            &&& forall|k: int|
                0 <= k < sv.switches.len() && k != j ==> #[trigger] sv2.switches[k]
                    == sv.switches[k]
            &&& sv2.switches[j].children == sv.switches[j].children
            &&& sv2.switches[j].name == sv.switches[j].name
            &&& sv2.switches[j].visible == spec_selected(
                selector,
                sv.switches[j].children,
                env,
                sv.switches[j].visible,
            )
            &&& 0 <= sv2.switches[j].visible < sv.switches[j].children.len()
        }),
{
    let j = spec_find_switch(sv.switches, container)->0;
    lemma_find_switch_valid(sv.switches, container);
    match selector {
        Selector::IfChain { conds } => {
            lemma_chain_first_match_bounds(conds, env);
            assert(chain_ends_in_else(conds));
            assert(chain_first_match(conds, env) is Some);
            let i = chain_first_match(conds, env)->0;
            assert(i < chain_len(conds));
            assert(chain_len(conds) == sv.switches[j].children.len());
            assert(spec_selected(selector, sv.switches[j].children, env, sv.switches[j].visible)
                == i);
        },
        Selector::MatchArms { scrutinee, patterns } => {
            crate::runtime::lemma_pattern_first_match_nonneg(patterns, env, env.val(scrutinee));
        },
    }
}

/// The chain the update pass generates covers exactly the declared
/// branches and, when the declaration ends in an `else` branch, ends in
/// the `else` entry: the premises of the visibility laws hold of every
/// well-shaped generated conditional.
pub proof fn lemma_spec_conds_shape(bs: Seq<IfBranch>)
    ensures
        chain_len(spec_conds(bs)) == bs.len(),
        bs.len() > 0 && bs[bs.len() - 1].cond is None ==> chain_ends_in_else(spec_conds(bs)),
    decreases bs.len(),
{
    if bs.len() > 0 {
        lemma_spec_conds_shape(bs.drop_first());
        if bs.len() > 1 {
            assert(bs.drop_first()[bs.len() - 2] == bs[bs.len() - 1]);
        }
    }
}

/// The generated pattern chain covers exactly the declared arms.
pub proof fn lemma_spec_patterns_shape(arms: Seq<MatchArm>)
    ensures
        pattern_len(spec_patterns(arms)) == arms.len(),
    decreases arms.len(),
{
    if arms.len() > 0 {
        lemma_spec_patterns_shape(arms.drop_first());
    }
}

/// Two switch lists with the same names resolve every container alike.
pub proof fn lemma_find_switch_names(a: Seq<SwitchView>, b: Seq<SwitchView>, name: u32)
    requires
        a.len() == b.len(),
        forall|j: int| 0 <= j < a.len() ==> (#[trigger] a[j]).name == b[j].name,
    ensures
        spec_find_switch(a, name) == spec_find_switch(b, name),
    decreases a.len(),
{
    if a.len() > 0 {
        assert(a.last().name == b.last().name);
        if a.last().name != name {
            assert(forall|j: int|
                0 <= j < a.drop_last().len() ==> (#[trigger] a.drop_last()[j]).name
                    == b.drop_last()[j].name);
            lemma_find_switch_names(a.drop_last(), b.drop_last(), name);
        }
    }
}

/// An update whose steps never address a switch leaves it untouched.
pub proof fn lemma_no_switch_step_preserves(sv: StoreView, steps: Seq<UpdateStep>, env: Env, j: int)
    requires
        0 <= j < sv.switches.len(),
        forall|i: int|
            0 <= i < steps.len() ==> !(#[trigger] steps[i] matches UpdateStep::SwitchVisible {
                container,
                ..
            } && container == sv.switches[j].name),
    ensures
        spec_run_update(sv, steps, env).switches.len() == sv.switches.len(),
        spec_run_update(sv, steps, env).switches[j] == sv.switches[j],
    decreases steps.len(),
{
    lemma_update_preserves_structure(sv, steps, env);
    if steps.len() > 0 {
        let sv1 = spec_step_update(sv, steps[0], env);
        assert(steps[0] == steps[0]);
        match steps[0] {
            UpdateStep::SwitchVisible { container, .. } => {
                lemma_find_switch_valid(sv.switches, container);
                match spec_find_switch(sv.switches, container) {
                    Some(k) => {
                        assert(sv.switches[k].name == container);
                        assert(container != sv.switches[j].name);
                        assert(k != j);
                        assert(sv1.switches[j] == sv.switches[j]);
                    },
                    None => {},
                }
            },
            _ => {},
        }
        assert(sv1.switches[j] == sv.switches[j]);
        assert(forall|i: int|
            0 <= i < steps.drop_first().len() ==> steps.drop_first()[i] == steps[i + 1]);
        lemma_no_switch_step_preserves(sv1, steps.drop_first(), env, j);
    }
}

/// After one whole update invocation, a switch whose last visibility step
/// stands at position `k` shows exactly the branch that step's
/// discriminant selects under the current environment — the matching
/// branch and no other.
pub proof fn lemma_update_final_visibility(
    sv: StoreView,
    steps: Seq<UpdateStep>,
    env: Env,
    k: int,
    container: u32,
    selector: Selector,
    transition: Option<u32>,
)
    requires
        0 <= k < steps.len(),
        steps[k] == (UpdateStep::SwitchVisible { container, selector, transition }),
        forall|i: int|
            k < i < steps.len() ==> !(#[trigger] steps[i] matches UpdateStep::SwitchVisible {
                container: c2,
                ..
            } && c2 == container),
        spec_find_switch(sv.switches, container) is Some,
        ({
            let j = spec_find_switch(sv.switches, container)->0;
            &&& sv.switches[j].children.len() > 0
            &&& (selector matches Selector::IfChain { conds } ==> chain_ends_in_else(conds)
                && chain_len(conds) == sv.switches[j].children.len())
        }),
    ensures
        ({
            let j = spec_find_switch(sv.switches, container)->0;
            let after = spec_run_update(sv, steps, env);
            &&& after.switches.len() == sv.switches.len()
            &&& after.switches[j].children == sv.switches[j].children
            &&& 0 <= after.switches[j].visible < sv.switches[j].children.len()
            &&& after.switches[j].visible == spec_selected(
                selector,
                sv.switches[j].children,
                env,
                after.switches[j].visible,
            )
        }),
    decreases k,
{
    let j = spec_find_switch(sv.switches, container)->0;
    lemma_find_switch_valid(sv.switches, container);
    let sv1 = spec_step_update(sv, steps[0], env);
    lemma_update_preserves_structure(sv, seq![steps[0]], env);
    assert(spec_run_update(sv1, seq![steps[0]].drop_first(), env) == sv1) by {
        assert(seq![steps[0]].drop_first() =~= Seq::<UpdateStep>::empty());
    }
    assert(sv1.switches.len() == sv.switches.len());
    assert(forall|m: int|
        0 <= m < sv.switches.len() ==> (#[trigger] sv1.switches[m]).name == sv.switches[m].name
            && sv1.switches[m].children == sv.switches[m].children);
    assert(forall|i: int|
        0 <= i < steps.drop_first().len() ==> steps.drop_first()[i] == steps[i + 1]);
    if k == 0 {
        lemma_switch_step(sv, container, selector, transition, env);
        lemma_no_switch_step_preserves(sv1, steps.drop_first(), env, j);
        assert(spec_run_update(sv, steps, env).switches[j] == sv1.switches[j]);
        match selector {
            Selector::IfChain { conds } => {
                lemma_chain_first_match_bounds(conds, env);
            },
            Selector::MatchArms { .. } => {},
        }
    } else {
        lemma_find_switch_names(sv1.switches, sv.switches, container);
        lemma_update_final_visibility(
            sv1,
            steps.drop_first(),
            env,
            k - 1,
            container,
            selector,
            transition,
        );
        match selector {
            Selector::IfChain { conds } => {
                lemma_chain_first_match_bounds(conds, env);
            },
            Selector::MatchArms { .. } => {},
        }
    }
}


} // verus!
