//! The static-application pass: emits, for every widget in the tree, one
//! application per assignment property, in strict left-to-right
//! declaration order, recursing into widget-valued and conditional-
//! widget-valued properties in place.  The emission driver runs this
//! stream after the construction stream, so every name an application
//! references already exists.

use vstd::prelude::*;

use crate::ast::{
    ConditionalBranches, ConditionalWidget, IfBranch, MatchArm, Properties, Property, PropertyType,
    Widget,
};

verus! {

/// One emitted property application:
/// `widget.target(expr)`, with its modifiers.
#[derive(Clone, Copy, Debug, PartialEq, Eq, Structural)]
pub struct ApplyOp {
    /// Name of the receiving widget.
    pub widget: u32,
    /// Method or field path applied.
    pub target: u32,
    /// Argument expression.
    pub expr: u32,
    /// Apply only if the argument evaluates to a present value.
    pub optional: bool,
    /// Signal handler suppressed while the application runs.
    pub guard: Option<u32>,
    /// Extra chained call.
    pub chain: Option<u32>,
}

/// The application a single assignment property emits for its owner.
pub open spec fn spec_op(owner: u32, p: crate::ast::AssignProperty) -> ApplyOp {
    ApplyOp {
        widget: owner,
        target: p.target,
        expr: p.expr,
        optional: p.optional,
        guard: p.block_signal,
        chain: p.chain,
    }
}

/// The full static-application stream of a widget subtree.
pub open spec fn spec_widget_assign(w: Widget) -> Seq<ApplyOp>
    decreases w,
{
    spec_props_assign(w.name, w.properties.properties@)
}

pub open spec fn spec_props_assign(owner: u32, s: Seq<Property>) -> Seq<ApplyOp>
    decreases s,
{
    if s.len() == 0 {
        Seq::empty()
    } else {
        spec_prop_assign(owner, s[0]) + spec_props_assign(owner, s.drop_first())
    }
}

pub open spec fn spec_prop_assign(owner: u32, p: Property) -> Seq<ApplyOp>
    decreases p,
{
    match p.ty {
        PropertyType::Assign(a) => seq![spec_op(owner, a)],
        PropertyType::Widget(w) => spec_widget_assign(w),
        PropertyType::ConditionalWidget(c) => spec_cond_assign(c),
        _ => Seq::empty(),
    }
}

/// A conditional widget contributes the applications of every branch's
/// subtree, in declaration order; the container itself has none.
pub open spec fn spec_cond_assign(c: ConditionalWidget) -> Seq<ApplyOp>
    decreases c,
{
    match c.branches {
        ConditionalBranches::If(bs) => spec_if_branches_assign(bs@),
        ConditionalBranches::Match(_, arms) => spec_arm_branches_assign(arms@),
    }
}

pub open spec fn spec_if_branches_assign(bs: Seq<IfBranch>) -> Seq<ApplyOp>
    decreases bs,
{
    if bs.len() == 0 {
        Seq::empty()
    } else {
        spec_widget_assign(bs[0].widget) + spec_if_branches_assign(bs.drop_first())
    }
}

pub open spec fn spec_arm_branches_assign(arms: Seq<MatchArm>) -> Seq<ApplyOp>
    decreases arms,
{
    if arms.len() == 0 {
        Seq::empty()
    } else {
        spec_widget_assign(arms[0].widget) + spec_arm_branches_assign(arms.drop_first())
    }
}

impl Property {
    /// Emits this property's own application, or its subtree's.
    pub fn assign_stream(&self, owner: u32, stream: &mut Vec<ApplyOp>)
        ensures
            final(stream)@ == old(stream)@ + spec_prop_assign(owner, *self),
        decreases *self,
    {
        match &self.ty {
            PropertyType::Assign(a) => {
                stream.push(
                    ApplyOp {
                        widget: owner,
                        target: a.target,
                        expr: a.expr,
                        optional: a.optional,
                        guard: a.block_signal,
                        chain: a.chain,
                    },
                );
                assert(stream@ =~= old(stream)@ + spec_prop_assign(owner, *self));
            },
            PropertyType::Widget(widget) => {
                widget.assign_stream(stream);
            },
            PropertyType::ConditionalWidget(cond_widget) => {
                cond_widget.assign_stream(stream);
            },
            _ => {
                assert(stream@ =~= stream@ + Seq::<ApplyOp>::empty());
            },
        }
    }
}

impl Properties {
    /// Emits every property's application in declaration order.
    pub fn assign_stream(&self, owner: u32, stream: &mut Vec<ApplyOp>)
        ensures
            final(stream)@ == old(stream)@ + spec_props_assign(owner, self.properties@),
        decreases *self,
    {
        let n = self.properties.len();
        let mut i: usize = 0;
        proof {
            assert(self.properties@.skip(0) =~= self.properties@);
        }
        while i < n
            invariant
                n == self.properties@.len(),
                i <= n,
                stream@ + spec_props_assign(owner, self.properties@.skip(i as int)) == old(
                    stream,
                )@ + spec_props_assign(owner, self.properties@),
            decreases n - i,
        {
            proof {
                assert(self.properties@.skip(i as int)[0] == self.properties@[i as int]);
                assert(self.properties@.skip(i as int).drop_first() =~= self.properties@.skip(
                    i as int + 1,
                ));
            }
            self.properties[i].assign_stream(owner, stream);
            i = i + 1;
        }
        proof {
            assert(self.properties@.skip(n as int) =~= Seq::<Property>::empty());
            assert(stream@ + Seq::<ApplyOp>::empty() =~= stream@);
        }
    }
}

impl Widget {
    /// Emits the applications of this widget's subtree, owner first.
    pub fn assign_stream(&self, stream: &mut Vec<ApplyOp>)
        ensures
            final(stream)@ == old(stream)@ + spec_widget_assign(*self),
        decreases *self, 2int,
    {
        self.properties.assign_stream(self.name, stream);
    }
}

impl ConditionalWidget {
    /// Emits the applications of every branch's subtree in order.
    #[verifier::loop_isolation(false)]
    #[verifier::rlimit(60)]
    pub fn assign_stream(&self, stream: &mut Vec<ApplyOp>)
        ensures
            final(stream)@ == old(stream)@ + spec_cond_assign(*self),
        decreases *self,
    {
        match &self.branches {
            ConditionalBranches::If(if_branches) => {
                let n = if_branches.len();
                let mut i: usize = 0;
                proof {
                    assert(if_branches@.skip(0) =~= if_branches@);
                    assert(stream@ + spec_if_branches_assign(if_branches@) =~= old(stream)@
                        + spec_cond_assign(*self));
                }
                while i < n
                    invariant
                        i <= n,
                        stream@ + spec_if_branches_assign(if_branches@.skip(i as int)) == old(
                            stream,
                        )@ + spec_cond_assign(*self),
                    decreases n - i,
                {
                    proof {
                        assert(decreases_to!(*self => self.branches));
                        assert(decreases_to!(self.branches => *if_branches));
                        assert(decreases_to!(*if_branches => if_branches@[i as int]));
                        assert(decreases_to!(if_branches@[i as int] => if_branches@[
                            i as int
                        ].widget));
                        assert(if_branches@.skip(i as int)[0] == if_branches@[i as int]);
                        assert(if_branches@.skip(i as int).drop_first() =~= if_branches@.skip(
                            i as int + 1,
                        ));
                    }
                    if_branches[i].widget.assign_stream(stream);
                    i = i + 1;
                }
                proof {
                    assert(if_branches@.skip(n as int) =~= Seq::<IfBranch>::empty());
                    assert(stream@ + Seq::<ApplyOp>::empty() =~= stream@);
                }
            },
            ConditionalBranches::Match(_scrutinee, match_arms) => {
                let n = match_arms.len();
                let mut i: usize = 0;
                proof {
                    assert(match_arms@.skip(0) =~= match_arms@);
                    assert(stream@ + spec_arm_branches_assign(match_arms@) =~= old(stream)@
                        + spec_cond_assign(*self));
                }
                while i < n
                    invariant
                        i <= n,
                        stream@ + spec_arm_branches_assign(match_arms@.skip(i as int)) == old(
                            stream,
                        )@ + spec_cond_assign(*self),
                    decreases n - i,
                {
                    proof {
                        assert(decreases_to!(*self => self.branches));
                        assert(decreases_to!(self.branches => *match_arms));
                        assert(decreases_to!(*match_arms => match_arms@[i as int]));
                        assert(decreases_to!(match_arms@[i as int] => match_arms@[
                            i as int
                        ].widget));
                        assert(match_arms@.skip(i as int)[0] == match_arms@[i as int]);
                        assert(match_arms@.skip(i as int).drop_first() =~= match_arms@.skip(
                            i as int + 1,
                        ));
                    }
                    match_arms[i].widget.assign_stream(stream);
                    i = i + 1;
                }
                proof {
                    assert(match_arms@.skip(n as int) =~= Seq::<MatchArm>::empty());
                    assert(stream@ + Seq::<ApplyOp>::empty() =~= stream@);
                }
            },
        }
    }
}

} // verus!
