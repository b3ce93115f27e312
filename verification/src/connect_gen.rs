//! The connect/binding pass: emits, for every widget in the tree in
//! declaration order, the registration of each signal-connection
//! callback (storing its handler id under the declared suppression-guard
//! name, so the update routine can block the callback while it
//! programmatically re-applies a property), and the one-time, init-phase
//! directional property-mirroring link of each binding property, with its
//! chained configuration call applied before the link is finalized.

use vstd::prelude::*;

use crate::ast::{
    ConditionalBranches, ConditionalWidget, IfBranch, MatchArm, Properties, Property, PropertyType,
    Widget,
};

verus! {

/// One statement of the emitted registration code.
#[derive(Clone, Copy, Debug, PartialEq, Eq, Structural)]
pub enum ConnectStatement {
    /// Register a callback on `widget.signal` that runs `closure`; when a
    /// suppression-guard name is declared, the connection's handler id is
    /// stored under `handler` for the update routine's use.
    ConnectSignal { widget: u32, signal: u32, closure: u32, handler: Option<u32> },
    /// Establish the one-time directional mirroring link `widget.target`
    /// described by `expr`, after applying the chained configuration call.
    BindLink { widget: u32, target: u32, expr: u32, chain: Option<u32> },
}

/// The full registration stream of a widget subtree.
pub open spec fn spec_widget_connect(w: Widget) -> Seq<ConnectStatement>
    decreases w,
{
    spec_props_connect(w.name, w.properties.properties@)
}

pub open spec fn spec_props_connect(owner: u32, s: Seq<Property>) -> Seq<ConnectStatement>
    decreases s,
{
    if s.len() == 0 {
        Seq::empty()
    } else {
        spec_prop_connect(owner, s[0]) + spec_props_connect(owner, s.drop_first())
    }
}

pub open spec fn spec_prop_connect(owner: u32, p: Property) -> Seq<ConnectStatement>
    decreases p,
{
    match p.ty {
        PropertyType::Signal(sg) => seq![
            ConnectStatement::ConnectSignal {
                widget: owner,
                signal: sg.signal,
                closure: sg.closure,
                handler: sg.handler_name,
            },
        ],
        PropertyType::Bind(b) => seq![
            ConnectStatement::BindLink {
                widget: owner,
                target: b.target,
                expr: b.expr,
                chain: b.chain,
            },
        ],
        PropertyType::Widget(w) => spec_widget_connect(w),
        PropertyType::ConditionalWidget(c) => spec_cond_connect(c),
        _ => Seq::empty(),
    }
}

/// A conditional widget contributes the registrations of every branch's
/// subtree, in declaration order; the container itself has none.
pub open spec fn spec_cond_connect(c: ConditionalWidget) -> Seq<ConnectStatement>
    decreases c,
{
    match c.branches {
        ConditionalBranches::If(bs) => spec_if_branches_connect(bs@),
        ConditionalBranches::Match(_, arms) => spec_arm_branches_connect(arms@),
    }
}

pub open spec fn spec_if_branches_connect(bs: Seq<IfBranch>) -> Seq<ConnectStatement>
    decreases bs,
{
    if bs.len() == 0 {
        Seq::empty()
    } else {
        spec_widget_connect(bs[0].widget) + spec_if_branches_connect(bs.drop_first())
    }
}

pub open spec fn spec_arm_branches_connect(arms: Seq<MatchArm>) -> Seq<ConnectStatement>
    decreases arms,
{
    if arms.len() == 0 {
        Seq::empty()
    } else {
        spec_widget_connect(arms[0].widget) + spec_arm_branches_connect(arms.drop_first())
    }
}

impl Property {
    /// Emits this property's own registration, or its subtree's.
    pub fn connect_stream(&self, owner: u32, stream: &mut Vec<ConnectStatement>)
        ensures
            final(stream)@ == old(stream)@ + spec_prop_connect(owner, *self),
        decreases *self,
    {
        match &self.ty {
            PropertyType::Signal(sg) => {
                stream.push(
                    ConnectStatement::ConnectSignal {
                        widget: owner,
                        signal: sg.signal,
                        closure: sg.closure,
                        handler: sg.handler_name,
                    },
                );
                assert(stream@ =~= old(stream)@ + spec_prop_connect(owner, *self));
            },
            PropertyType::Bind(b) => {
                stream.push(
                    ConnectStatement::BindLink {
                        widget: owner,
                        target: b.target,
                        expr: b.expr,
                        chain: b.chain,
                    },
                );
                assert(stream@ =~= old(stream)@ + spec_prop_connect(owner, *self));
            },
            PropertyType::Widget(widget) => {
                widget.connect_stream(stream);
            },
            PropertyType::ConditionalWidget(cond_widget) => {
                cond_widget.connect_stream(stream);
            },
            _ => {
                assert(stream@ =~= stream@ + Seq::<ConnectStatement>::empty());
            },
        }
    }
}

impl Properties {
    /// Emits every property's registration in declaration order.
    pub fn connect_stream(&self, owner: u32, stream: &mut Vec<ConnectStatement>)
        ensures
            final(stream)@ == old(stream)@ + spec_props_connect(owner, self.properties@),
        decreases *self,
    {
        let n = self.properties.len();
        let mut i: usize = 0;
        proof {
            assert(self.properties@.skip(0) =~= self.properties@);
        }
        while i < n
            invariant
                n == self.properties@.len(),
                i <= n,
                stream@ + spec_props_connect(owner, self.properties@.skip(i as int)) == old(
                    stream,
                )@ + spec_props_connect(owner, self.properties@),
            decreases n - i,
        {
            proof {
                assert(self.properties@.skip(i as int)[0] == self.properties@[i as int]);
                assert(self.properties@.skip(i as int).drop_first() =~= self.properties@.skip(
                    i as int + 1,
                ));
            }
            self.properties[i].connect_stream(owner, stream);
            i = i + 1;
        }
        proof {
            assert(self.properties@.skip(n as int) =~= Seq::<Property>::empty());
            assert(stream@ + Seq::<ConnectStatement>::empty() =~= stream@);
        }
    }
}

impl Widget {
    /// Emits the registrations of this widget's subtree, owner first.
    pub fn connect_stream(&self, stream: &mut Vec<ConnectStatement>)
        ensures
            final(stream)@ == old(stream)@ + spec_widget_connect(*self),
        decreases *self, 2int,
    {
        self.properties.connect_stream(self.name, stream);
    }
}

impl ConditionalWidget {
    /// Emits the registrations of every branch's subtree in order.
    #[verifier::loop_isolation(false)]
    #[verifier::rlimit(60)]
    pub fn connect_stream(&self, stream: &mut Vec<ConnectStatement>)
        ensures
            final(stream)@ == old(stream)@ + spec_cond_connect(*self),
        decreases *self,
    {
        match &self.branches {
            ConditionalBranches::If(if_branches) => {
                let n = if_branches.len();
                let mut i: usize = 0;
                proof {
                    assert(if_branches@.skip(0) =~= if_branches@);
                    assert(stream@ + spec_if_branches_connect(if_branches@) =~= old(stream)@
                        + spec_cond_connect(*self));
                }
                while i < n
                    invariant
                        i <= n,
                        stream@ + spec_if_branches_connect(if_branches@.skip(i as int)) == old(
                            stream,
                        )@ + spec_cond_connect(*self),
                    decreases n - i,
                {
                    proof {
                        assert(decreases_to!(*self => self.branches));
                        assert(decreases_to!(self.branches => *if_branches));
                        assert(decreases_to!(*if_branches => if_branches@[i as int]));
                        assert(decreases_to!(if_branches@[i as int] => if_branches@[
                            i as int
                        ].widget));
                        assert(if_branches@.skip(i as int)[0] == if_branches@[i as int]);
                        assert(if_branches@.skip(i as int).drop_first() =~= if_branches@.skip(
                            i as int + 1,
                        ));
                    }
                    if_branches[i].widget.connect_stream(stream);
                    i = i + 1;
                }
                proof {
                    assert(if_branches@.skip(n as int) =~= Seq::<IfBranch>::empty());
                    assert(stream@ + Seq::<ConnectStatement>::empty() =~= stream@);
                }
            },
            ConditionalBranches::Match(_scrutinee, match_arms) => {
                let n = match_arms.len();
                let mut i: usize = 0;
                proof {
                    assert(match_arms@.skip(0) =~= match_arms@);
                    assert(stream@ + spec_arm_branches_connect(match_arms@) =~= old(stream)@
                        + spec_cond_connect(*self));
                }
                while i < n
                    invariant
                        i <= n,
                        stream@ + spec_arm_branches_connect(match_arms@.skip(i as int)) == old(
                            stream,
                        )@ + spec_cond_connect(*self),
                    decreases n - i,
                {
                    proof {
                        assert(decreases_to!(*self => self.branches));
                        assert(decreases_to!(self.branches => *match_arms));
                        assert(decreases_to!(*match_arms => match_arms@[i as int]));
                        assert(decreases_to!(match_arms@[i as int] => match_arms@[
                            i as int
                        ].widget));
                        assert(match_arms@.skip(i as int)[0] == match_arms@[i as int]);
                        assert(match_arms@.skip(i as int).drop_first() =~= match_arms@.skip(
                            i as int + 1,
                        ));
                    }
                    match_arms[i].widget.connect_stream(stream);
                    i = i + 1;
                }
                proof {
                    assert(match_arms@.skip(n as int) =~= Seq::<MatchArm>::empty());
                    assert(stream@ + Seq::<ConnectStatement>::empty() =~= stream@);
                }
            },
        }
    }
}

} // verus!
