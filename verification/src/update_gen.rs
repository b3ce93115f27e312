//! The update pass: emits the routine invoked after the owning model
//! mutates.  An unconditional-refresh property is re-applied on every
//! invocation, with no dependence on tracker state; a conditional-refresh
//! property is re-applied exactly when its predicate evaluates true
//! against the model's change-state.  A conditional widget re-evaluates
//! its discriminant on every invocation and, when the selected branch
//! differs from the visible one, switches the container's visible child.
//! Per widget, re-application follows the same left-to-right declaration
//! order used at construction time.

use vstd::prelude::*;

use crate::assign_gen::{spec_op, ApplyOp};
use crate::ast::{
    AssignAttr, ConditionalBranches, ConditionalWidget, IfBranch, MatchArm, Properties, Property,
    PropertyType, Widget,
};

verus! {

/// The ordered branch conditions of an if/else-if chain; `None` is the
/// final `else` branch.
pub enum CondChain {
    Last,
    Link(Option<u32>, Box<CondChain>),
}

/// The ordered patterns of a match's arms.
pub enum PatternChain {
    Last,
    Link(u32, Box<PatternChain>),
}

/// How a conditional widget's discriminant selects the visible branch.
/// Construction never reads the discriminant; it travels here, in the
/// update routine, which re-evaluates it on every invocation.
pub enum Selector {
    /// Select the first branch whose condition is absent (the final
    /// `else`) or evaluates true.
    IfChain { conds: CondChain },
    /// Evaluate the scrutinee and select the first arm whose pattern
    /// matches it; the final arm is the catch-all.
    MatchArms { scrutinee: u32, patterns: PatternChain },
}

/// One step of the emitted update routine.
pub enum UpdateStep {
    /// Re-apply unconditionally, on every invocation.
    ApplyAlways { op: ApplyOp },
    /// Re-apply exactly when `pred` evaluates true.
    ApplyTracked { pred: u32, op: ApplyOp },
    /// Re-evaluate the discriminant and make the selected branch the
    /// container's visible child, re-triggering the transition effect.
    SwitchVisible { container: u32, selector: Selector, transition: Option<u32> },
}

/// The condition chain of an if/else-if branch list, in declaration order.
pub open spec fn spec_conds(bs: Seq<IfBranch>) -> CondChain
    decreases bs.len(),
{
    if bs.len() == 0 {
        CondChain::Last
    } else {
        CondChain::Link(bs[0].cond, Box::new(spec_conds(bs.drop_first())))
    }
}

/// The pattern chain of a match's arms, in declaration order.
pub open spec fn spec_patterns(arms: Seq<MatchArm>) -> PatternChain
    decreases arms.len(),
{
    if arms.len() == 0 {
        PatternChain::Last
    } else {
        PatternChain::Link(arms[0].pattern, Box::new(spec_patterns(arms.drop_first())))
    }
}

/// The selector a conditional widget's branch set lowers to.
pub open spec fn spec_selector(c: ConditionalWidget) -> Selector {
    match c.branches {
        ConditionalBranches::If(bs) => Selector::IfChain { conds: spec_conds(bs@) },
        ConditionalBranches::Match(scrutinee, arms) => Selector::MatchArms {
            scrutinee,
            patterns: spec_patterns(arms@),
        },
    }
}

/// The update steps of one assignment property.
pub open spec fn spec_assign_update(owner: u32, a: crate::ast::AssignProperty) -> Seq<UpdateStep> {
    match a.attr {
        AssignAttr::Once => Seq::empty(),
        AssignAttr::Watch => seq![UpdateStep::ApplyAlways { op: spec_op(owner, a) }],
        AssignAttr::Track(pred) => seq![
            UpdateStep::ApplyTracked { pred, op: spec_op(owner, a) },
        ],
    }
}

/// The full update stream of a widget subtree.
pub open spec fn spec_widget_update(w: Widget) -> Seq<UpdateStep>
    decreases w,
{
    spec_props_update(w.name, w.properties.properties@)
}

pub open spec fn spec_props_update(owner: u32, s: Seq<Property>) -> Seq<UpdateStep>
    decreases s,
{
    if s.len() == 0 {
        Seq::empty()
    } else {
        spec_prop_update(owner, s[0]) + spec_props_update(owner, s.drop_first())
    }
}

pub open spec fn spec_prop_update(owner: u32, p: Property) -> Seq<UpdateStep>
    decreases p,
{
    match p.ty {
        PropertyType::Assign(a) => spec_assign_update(owner, a),
        PropertyType::Widget(w) => spec_widget_update(w),
        PropertyType::ConditionalWidget(c) => spec_cond_update(c),
        _ => Seq::empty(),
    }
}

/// The discriminant switch itself is unconditional-refresh (it may depend
/// on model state the tracker does not cover); the branches' own
/// refreshing properties follow in declaration order.
pub open spec fn spec_cond_update(c: ConditionalWidget) -> Seq<UpdateStep>
    decreases c,
{
    seq![
        UpdateStep::SwitchVisible {
            container: c.name,
            selector: spec_selector(c),
            transition: c.transition,
        },
    ] + match c.branches {
        ConditionalBranches::If(bs) => spec_if_branches_update(bs@),
        ConditionalBranches::Match(_, arms) => spec_arm_branches_update(arms@),
    }
}

pub open spec fn spec_if_branches_update(bs: Seq<IfBranch>) -> Seq<UpdateStep>
    decreases bs,
{
    if bs.len() == 0 {
        Seq::empty()
    } else {
        spec_widget_update(bs[0].widget) + spec_if_branches_update(bs.drop_first())
    }
}

pub open spec fn spec_arm_branches_update(arms: Seq<MatchArm>) -> Seq<UpdateStep>
    decreases arms,
{
    if arms.len() == 0 {
        Seq::empty()
    } else {
        spec_widget_update(arms[0].widget) + spec_arm_branches_update(arms.drop_first())
    }
}

impl Property {
    /// Emits this property's update steps, or its subtree's.
    pub fn update_stream(&self, owner: u32, stream: &mut Vec<UpdateStep>)
        ensures
            final(stream)@ == old(stream)@ + spec_prop_update(owner, *self),
        decreases *self,
    {
        match &self.ty {
            PropertyType::Assign(a) => {
                let op = ApplyOp {
                    widget: owner,
                    target: a.target,
                    expr: a.expr,
                    optional: a.optional,
                    guard: a.block_signal,
                    chain: a.chain,
                };
                match a.attr {
                    AssignAttr::Once => {
                        assert(stream@ =~= stream@ + Seq::<UpdateStep>::empty());
                    },
                    AssignAttr::Watch => {
                        stream.push(UpdateStep::ApplyAlways { op });
                        assert(stream@ =~= old(stream)@ + spec_prop_update(owner, *self));
                    },
                    AssignAttr::Track(pred) => {
                        stream.push(UpdateStep::ApplyTracked { pred, op });
                        assert(stream@ =~= old(stream)@ + spec_prop_update(owner, *self));
                    },
                }
            },
            PropertyType::Widget(widget) => {
                widget.update_stream(stream);
            },
            PropertyType::ConditionalWidget(cond_widget) => {
                cond_widget.update_stream(stream);
            },
            _ => {
                assert(stream@ =~= stream@ + Seq::<UpdateStep>::empty());
            },
        }
    }
}

impl Properties {
    /// Emits every property's update steps in declaration order.
    pub fn update_stream(&self, owner: u32, stream: &mut Vec<UpdateStep>)
        ensures
            final(stream)@ == old(stream)@ + spec_props_update(owner, self.properties@),
        decreases *self,
    {
        let n = self.properties.len();
        let mut i: usize = 0;
        proof {
            assert(self.properties@.skip(0) =~= self.properties@);
        }
        while i < n
            invariant
                n == self.properties@.len(),
                i <= n,
                stream@ + spec_props_update(owner, self.properties@.skip(i as int)) == old(
                    stream,
                )@ + spec_props_update(owner, self.properties@),
            decreases n - i,
        {
            proof {
                assert(self.properties@.skip(i as int)[0] == self.properties@[i as int]);
                assert(self.properties@.skip(i as int).drop_first() =~= self.properties@.skip(
                    i as int + 1,
                ));
            }
            self.properties[i].update_stream(owner, stream);
            i = i + 1;
        }
        proof {
            assert(self.properties@.skip(n as int) =~= Seq::<Property>::empty());
            assert(stream@ + Seq::<UpdateStep>::empty() =~= stream@);
        }
    }
}

impl Widget {
    /// Emits the update steps of this widget's subtree.
    pub fn update_stream(&self, stream: &mut Vec<UpdateStep>)
        ensures
            final(stream)@ == old(stream)@ + spec_widget_update(*self),
        decreases *self, 2int,
    {
        self.properties.update_stream(self.name, stream);
    }
}

impl ConditionalWidget {
    /// Emits this conditional's visibility switch, then the update steps
    /// of every branch's subtree in declaration order.
    #[verifier::loop_isolation(false)]
    #[verifier::rlimit(60)]
    pub fn update_stream(&self, stream: &mut Vec<UpdateStep>)
        ensures
            final(stream)@ == old(stream)@ + spec_cond_update(*self),
        decreases *self,
    {
        match &self.branches {
            ConditionalBranches::If(if_branches) => {
                let n = if_branches.len();
                let mut conds = CondChain::Last;
                let mut j: usize = n;
                proof {
                    assert(if_branches@.skip(n as int) =~= Seq::<IfBranch>::empty());
                }
                while j > 0
                    invariant
                        j <= n,
                        conds == spec_conds(if_branches@.skip(j as int)),
                    decreases j,
                {
                    j = j - 1;
                    conds = CondChain::Link(if_branches[j].cond, Box::new(conds));
                    proof {
                        assert(if_branches@.skip(j as int)[0] == if_branches@[j as int]);
                        assert(if_branches@.skip(j as int).drop_first() =~= if_branches@.skip(
                            j as int + 1,
                        ));
                    }
                }
                proof {
                    assert(if_branches@.skip(0) =~= if_branches@);
                }
                stream.push(
                    UpdateStep::SwitchVisible {
                        container: self.name,
                        selector: Selector::IfChain { conds },
                        transition: self.transition,
                    },
                );

                let mut i: usize = 0;
                proof {
                    assert(if_branches@.skip(0) =~= if_branches@);
                    assert(stream@ + spec_if_branches_update(if_branches@) =~= old(stream)@
                        + spec_cond_update(*self));
                }
                while i < n
                    invariant
                        i <= n,
                        stream@ + spec_if_branches_update(if_branches@.skip(i as int)) == old(
                            stream,
                        )@ + spec_cond_update(*self),
                    decreases n - i,
                {
                    proof {
                        assert(decreases_to!(*self => self.branches));
                        assert(decreases_to!(self.branches => *if_branches));
                        assert(decreases_to!(*if_branches => if_branches@[i as int]));
                        assert(decreases_to!(if_branches@[i as int] => if_branches@[
                            i as int
                        ].widget));
                        assert(if_branches@.skip(i as int)[0] == if_branches@[i as int]);
                        assert(if_branches@.skip(i as int).drop_first() =~= if_branches@.skip(
                            i as int + 1,
                        ));
                    }
                    if_branches[i].widget.update_stream(stream);
                    i = i + 1;
                }
                proof {
                    assert(if_branches@.skip(n as int) =~= Seq::<IfBranch>::empty());
                    assert(stream@ + Seq::<UpdateStep>::empty() =~= stream@);
                }
            },
            ConditionalBranches::Match(scrutinee, match_arms) => {
                let n = match_arms.len();
                let mut patterns = PatternChain::Last;
                let mut j: usize = n;
                proof {
                    assert(match_arms@.skip(n as int) =~= Seq::<MatchArm>::empty());
                }
                while j > 0
                    invariant
                        j <= n,
                        patterns == spec_patterns(match_arms@.skip(j as int)),
                    decreases j,
                {
                    j = j - 1;
                    patterns = PatternChain::Link(match_arms[j].pattern, Box::new(patterns));
                    proof {
                        assert(match_arms@.skip(j as int)[0] == match_arms@[j as int]);
                        assert(match_arms@.skip(j as int).drop_first() =~= match_arms@.skip(
                            j as int + 1,
                        ));
                    }
                }
                proof {
                    assert(match_arms@.skip(0) =~= match_arms@);
                }
                stream.push(
                    UpdateStep::SwitchVisible {
                        container: self.name,
                        selector: Selector::MatchArms { scrutinee: *scrutinee, patterns },
                        transition: self.transition,
                    },
                );

                let mut i: usize = 0;
                proof {
                    assert(match_arms@.skip(0) =~= match_arms@);
                    assert(stream@ + spec_arm_branches_update(match_arms@) =~= old(stream)@
                        + spec_cond_update(*self));
                }
                while i < n
                    invariant
                        i <= n,
                        stream@ + spec_arm_branches_update(match_arms@.skip(i as int)) == old(
                            stream,
                        )@ + spec_cond_update(*self),
                    decreases n - i,
                {
                    proof {
                        assert(decreases_to!(*self => self.branches));
                        assert(decreases_to!(self.branches => *match_arms));
                        assert(decreases_to!(*match_arms => match_arms@[i as int]));
                        assert(decreases_to!(match_arms@[i as int] => match_arms@[
                            i as int
                        ].widget));
                        assert(match_arms@.skip(i as int)[0] == match_arms@[i as int]);
                        assert(match_arms@.skip(i as int).drop_first() =~= match_arms@.skip(
                            i as int + 1,
                        ));
                    }
                    match_arms[i].widget.update_stream(stream);
                    i = i + 1;
                }
                proof {
                    assert(match_arms@.skip(n as int) =~= Seq::<MatchArm>::empty());
                    assert(stream@ + Seq::<UpdateStep>::empty() =~= stream@);
                }
            },
        }
    }
}

} // verus!
