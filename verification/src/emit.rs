//! The emission driver.  It validates the component and, only when every
//! tree passes, orders the generator passes and assembles their output
//! into the three coordinated artifacts the enclosing framework consumes:
//! the record of named widget handles, the construction routine (the
//! distinguished root stream returning the root handle, the remaining
//! construction, the static applications and the signal/binding
//! registrations, in that order), and the update routine.  A fatal
//! diagnostic suppresses all artifacts for the component.

use vstd::prelude::*;

use crate::assign_gen::{spec_widget_assign, ApplyOp};
use crate::ast::{Component, ConditionalBranches, ConditionalWidget, IfBranch, MatchArm,
    Properties, Property, PropertyType, Widget};
use crate::connect_gen::{spec_widget_connect, ConnectStatement};
use crate::diag::{DiagKind, Diagnostic};
use crate::init_gen::{spec_props_init, spec_self_init, spec_widget_init, InitStatement};
use crate::update_gen::{spec_widget_update, UpdateStep};
use crate::validate::spec_validate_widget;

verus! {

/// The record of handles the construction routine populates: every
/// explicitly named widget, and every stored signal-handler id, each in
/// declaration order.
pub struct WidgetsRecord {
    pub widgets: Vec<u32>,
    pub handlers: Vec<u32>,
}

/// The three coordinated artifacts of one successful compilation.
pub struct Artifacts {
    /// Handles kept after construction.
    pub record: WidgetsRecord,
    /// Construction of the first tree's root widget; evaluates to the
    /// externally returned root handle.
    pub root_stream: Vec<InitStatement>,
    /// Construction of everything else, executed after the root stream.
    pub init_stream: Vec<InitStatement>,
    /// Init-phase property applications, in declaration order.
    pub assign_stream: Vec<ApplyOp>,
    /// Signal registrations and one-time binding links.
    pub connect_stream: Vec<ConnectStatement>,
    /// The update routine.
    pub update_stream: Vec<UpdateStep>,
}

/// The explicitly named handles of a widget subtree, in declaration order.
pub open spec fn spec_widget_record(w: Widget) -> Seq<u32>
    decreases w,
{
    (if w.name_explicit {
        seq![w.name]
    } else {
        Seq::empty()
    }) + spec_props_record(w.properties.properties@)
}

pub open spec fn spec_props_record(s: Seq<Property>) -> Seq<u32>
    decreases s,
{
    if s.len() == 0 {
        Seq::empty()
    } else {
        spec_prop_record(s[0]) + spec_props_record(s.drop_first())
    }
}

pub open spec fn spec_prop_record(p: Property) -> Seq<u32>
    decreases p,
{
    match p.ty {
        PropertyType::Widget(w) => spec_widget_record(w),
        PropertyType::ConditionalWidget(c) => spec_cond_record(c),
        _ => Seq::empty(),
    }
}

pub open spec fn spec_cond_record(c: ConditionalWidget) -> Seq<u32>
    decreases c,
{
    (if c.name_explicit {
        seq![c.name]
    } else {
        Seq::empty()
    }) + match c.branches {
        ConditionalBranches::If(bs) => spec_if_branches_record(bs@),
        ConditionalBranches::Match(_, arms) => spec_arm_branches_record(arms@),
    }
}

pub open spec fn spec_if_branches_record(bs: Seq<IfBranch>) -> Seq<u32>
    decreases bs,
{
    if bs.len() == 0 {
        Seq::empty()
    } else {
        spec_widget_record(bs[0].widget) + spec_if_branches_record(bs.drop_first())
    }
}

pub open spec fn spec_arm_branches_record(arms: Seq<MatchArm>) -> Seq<u32>
    decreases arms,
{
    if arms.len() == 0 {
        Seq::empty()
    } else {
        spec_widget_record(arms[0].widget) + spec_arm_branches_record(arms.drop_first())
    }
}

impl Property {
    /// Collects the explicitly named handles this property declares.
    pub fn record_stream(&self, out: &mut Vec<u32>)
        ensures
            final(out)@ == old(out)@ + spec_prop_record(*self),
        decreases *self,
    {
        match &self.ty {
            PropertyType::Widget(widget) => {
                widget.record_stream(out);
            },
            PropertyType::ConditionalWidget(cond_widget) => {
                cond_widget.record_stream(out);
            },
            _ => {
                assert(out@ =~= out@ + Seq::<u32>::empty());
            },
        }
    }
}

impl Properties {
    /// Collects the handles of every property in declaration order.
    pub fn record_stream(&self, out: &mut Vec<u32>)
        ensures
            final(out)@ == old(out)@ + spec_props_record(self.properties@),
        decreases *self,
    {
        let n = self.properties.len();
        let mut i: usize = 0;
        proof {
            assert(self.properties@.skip(0) =~= self.properties@);
        }
        while i < n
            invariant
                i <= n,
                n == self.properties@.len(),
                out@ + spec_props_record(self.properties@.skip(i as int)) == old(out)@
                    + spec_props_record(self.properties@),
            decreases n - i,
        {
            proof {
                assert(self.properties@.skip(i as int)[0] == self.properties@[i as int]);
                assert(self.properties@.skip(i as int).drop_first() =~= self.properties@.skip(
                    i as int + 1,
                ));
            }
            self.properties[i].record_stream(out);
            i = i + 1;
        }
        proof {
            assert(self.properties@.skip(n as int) =~= Seq::<Property>::empty());
            assert(out@ + Seq::<u32>::empty() =~= out@);
        }
    }
}

impl Widget {
    /// Collects this subtree's explicitly named handles, owner first.
    pub fn record_stream(&self, out: &mut Vec<u32>)
        ensures
            final(out)@ == old(out)@ + spec_widget_record(*self),
        decreases *self, 2int,
    {
        if self.name_explicit {
            out.push(self.name);
        }
        proof {
            assert(out@ =~= old(out)@ + (if self.name_explicit {
                seq![self.name]
            } else {
                Seq::<u32>::empty()
            }));
        }
        self.properties.record_stream(out);
    }
}

impl ConditionalWidget {
    /// Collects the container's handle, then every branch subtree's.
    #[verifier::loop_isolation(false)]
    #[verifier::rlimit(60)]
    pub fn record_stream(&self, out: &mut Vec<u32>)
        ensures
            final(out)@ == old(out)@ + spec_cond_record(*self),
        decreases *self,
    {
        if self.name_explicit {
            out.push(self.name);
        }
        match &self.branches {
            ConditionalBranches::If(if_branches) => {
                let n = if_branches.len();
                let mut i: usize = 0;
                proof {
                    assert(if_branches@.skip(0) =~= if_branches@);
                    assert(out@ + spec_if_branches_record(if_branches@) =~= old(out)@
                        + spec_cond_record(*self));
                }
                while i < n
                    invariant
                        i <= n,
                        out@ + spec_if_branches_record(if_branches@.skip(i as int)) == old(out)@
                            + spec_cond_record(*self),
                    decreases n - i,
                {
                    proof {
                        assert(decreases_to!(*self => self.branches));
                        assert(decreases_to!(self.branches => *if_branches));
                        assert(decreases_to!(*if_branches => if_branches@[i as int]));
                        assert(decreases_to!(if_branches@[i as int] => if_branches@[
                            i as int
                        ].widget));
                        assert(if_branches@.skip(i as int)[0] == if_branches@[i as int]);
                        assert(if_branches@.skip(i as int).drop_first() =~= if_branches@.skip(
                            i as int + 1,
                        ));
                    }
                    if_branches[i].widget.record_stream(out);
                    i = i + 1;
                }
                proof {
                    assert(if_branches@.skip(n as int) =~= Seq::<IfBranch>::empty());
                    assert(out@ + Seq::<u32>::empty() =~= out@);
                }
            },
            ConditionalBranches::Match(_scrutinee, match_arms) => {
                let n = match_arms.len();
                let mut i: usize = 0;
                proof {
                    assert(match_arms@.skip(0) =~= match_arms@);
                    assert(out@ + spec_arm_branches_record(match_arms@) =~= old(out)@
                        + spec_cond_record(*self));
                }
                while i < n
                    invariant
                        i <= n,
                        out@ + spec_arm_branches_record(match_arms@.skip(i as int)) == old(out)@
                            + spec_cond_record(*self),
                    decreases n - i,
                {
                    proof {
                        assert(decreases_to!(*self => self.branches));
                        assert(decreases_to!(self.branches => *match_arms));
                        assert(decreases_to!(*match_arms => match_arms@[i as int]));
                        assert(decreases_to!(match_arms@[i as int] => match_arms@[
                            i as int
                        ].widget));
                        assert(match_arms@.skip(i as int)[0] == match_arms@[i as int]);
                        assert(match_arms@.skip(i as int).drop_first() =~= match_arms@.skip(
                            i as int + 1,
                        ));
                    }
                    match_arms[i].widget.record_stream(out);
                    i = i + 1;
                }
                proof {
                    assert(match_arms@.skip(n as int) =~= Seq::<MatchArm>::empty());
                    assert(out@ + Seq::<u32>::empty() =~= out@);
                }
            },
        }
    }
}

/// The first violation over the component's trees, each validated with a
/// fresh handler scope.
pub open spec fn spec_trees_diag(ts: Seq<Widget>, tracker: bool) -> Option<Diagnostic>
    decreases ts,
{
    if ts.len() == 0 {
        None
    } else {
        let o = spec_validate_widget(ts[0], tracker, Seq::empty());
        if o.diag is Some {
            o.diag
        } else {
            spec_trees_diag(ts.drop_first(), tracker)
        }
    }
}

/// The component's diagnostic, if any: a component must have at least one
/// top-level tree, and every tree must validate.
pub open spec fn spec_compile_diag(c: Component) -> Option<Diagnostic> {
    if c.trees@.len() == 0 {
        Some(Diagnostic { kind: DiagKind::EmptyComponent, at: 0 })
    } else {
        spec_trees_diag(c.trees@, c.tracker_support)
    }
}

/// The stored handler ids of all trees, in declaration order.
pub open spec fn spec_trees_handlers(ts: Seq<Widget>, tracker: bool) -> Seq<u32>
    decreases ts,
{
    if ts.len() == 0 {
        Seq::empty()
    } else {
        spec_validate_widget(ts[0], tracker, Seq::empty()).handlers + spec_trees_handlers(
            ts.drop_first(),
            tracker,
        )
    }
}

pub open spec fn spec_trees_record(ts: Seq<Widget>) -> Seq<u32>
    decreases ts,
{
    if ts.len() == 0 {
        Seq::empty()
    } else {
        spec_widget_record(ts[0]) + spec_trees_record(ts.drop_first())
    }
}

/// Construction of every tree after the first, in order.
pub open spec fn spec_trees_init(ts: Seq<Widget>) -> Seq<InitStatement>
    decreases ts,
{
    if ts.len() == 0 {
        Seq::empty()
    } else {
        spec_widget_init(ts[0]) + spec_trees_init(ts.drop_first())
    }
}

pub open spec fn spec_trees_assign(ts: Seq<Widget>) -> Seq<ApplyOp>
    decreases ts,
{
    if ts.len() == 0 {
        Seq::empty()
    } else {
        spec_widget_assign(ts[0]) + spec_trees_assign(ts.drop_first())
    }
}

pub open spec fn spec_trees_connect(ts: Seq<Widget>) -> Seq<ConnectStatement>
    decreases ts,
{
    if ts.len() == 0 {
        Seq::empty()
    } else {
        spec_widget_connect(ts[0]) + spec_trees_connect(ts.drop_first())
    }
}

pub open spec fn spec_trees_update(ts: Seq<Widget>) -> Seq<UpdateStep>
    decreases ts,
{
    if ts.len() == 0 {
        Seq::empty()
    } else {
        spec_widget_update(ts[0]) + spec_trees_update(ts.drop_first())
    }
}

/// Compile one component: validate, then emit the three artifacts, or a
/// single fatal diagnostic and nothing else.
pub fn compile(c: &Component) -> (r: Result<Artifacts, Diagnostic>)
    ensures
        match r {
            Ok(a) => {
                &&& spec_compile_diag(*c) is None
                &&& a.record.widgets@ == spec_trees_record(c.trees@)
                &&& a.record.handlers@ == spec_trees_handlers(c.trees@, c.tracker_support)
                &&& a.root_stream@ == spec_self_init(c.trees@[0]) + seq![
                    InitStatement::Yield { name: c.trees@[0].name },
                ]
                &&& a.init_stream@ == spec_props_init(c.trees@[0].properties.properties@)
                    + spec_trees_init(c.trees@.drop_first())
                &&& a.assign_stream@ == spec_trees_assign(c.trees@)
                &&& a.connect_stream@ == spec_trees_connect(c.trees@)
                &&& a.update_stream@ == spec_trees_update(c.trees@)
            },
            Err(d) => spec_compile_diag(*c) == Some(d),
        },
{
    let nt = c.trees.len();
    if nt == 0 {
        return Err(Diagnostic { kind: DiagKind::EmptyComponent, at: 0 });
    }

    // Validation first: a violation anywhere suppresses every artifact.
    let mut handlers: Vec<u32> = Vec::new();
    let mut k: usize = 0;
    proof {
        assert(c.trees@.skip(0) =~= c.trees@);
    }
    while k < nt
        invariant
            k <= nt,
            nt == c.trees@.len(),
            spec_trees_diag(c.trees@.skip(k as int), c.tracker_support) == spec_trees_diag(
                c.trees@,
                c.tracker_support,
            ),
            handlers@ + spec_trees_handlers(c.trees@.skip(k as int), c.tracker_support)
                == spec_trees_handlers(c.trees@, c.tracker_support),
        decreases nt - k,
    {
        proof {
            assert(c.trees@.skip(k as int)[0] == c.trees@[k as int]);
            assert(c.trees@.skip(k as int).drop_first() =~= c.trees@.skip(k as int + 1));
        }
        let mut tree_handlers: Vec<u32> = Vec::new();
        if let Err(d) = c.trees[k].validate(c.tracker_support, &mut tree_handlers) {
            return Err(d);
        }
        let mut moved = tree_handlers;
        handlers.append(&mut moved);
        k = k + 1;
    }
    proof {
        assert(c.trees@.skip(nt as int) =~= Seq::<Widget>::empty());
        assert(handlers@ + Seq::<u32>::empty() =~= handlers@);
    }

    // The record of named handles.
    let mut widgets: Vec<u32> = Vec::new();
    let mut k: usize = 0;
    proof {
        assert(c.trees@.skip(0) =~= c.trees@);
    }
    while k < nt
        invariant
            k <= nt,
            nt == c.trees@.len(),
            widgets@ + spec_trees_record(c.trees@.skip(k as int)) == spec_trees_record(c.trees@),
        decreases nt - k,
    {
        proof {
            assert(c.trees@.skip(k as int)[0] == c.trees@[k as int]);
            assert(c.trees@.skip(k as int).drop_first() =~= c.trees@.skip(k as int + 1));
        }
        c.trees[k].record_stream(&mut widgets);
        k = k + 1;
    }
    proof {
        assert(c.trees@.skip(nt as int) =~= Seq::<Widget>::empty());
        assert(widgets@ + Seq::<u32>::empty() =~= widgets@);
    }

    // Construction: the first tree's root into the distinguished root
    // stream, everything else into the ordinary one.
    let mut root_stream: Vec<InitStatement> = Vec::new();
    let mut init_stream: Vec<InitStatement> = Vec::new();
    c.trees[0].init_root_init_streams(&mut root_stream, &mut init_stream);
    let mut k: usize = 1;
    proof {
        assert(c.trees@.drop_first() =~= c.trees@.skip(1));
    }
    while k < nt
        invariant
            1 <= k <= nt,
            nt == c.trees@.len(),
            init_stream@ + spec_trees_init(c.trees@.skip(k as int)) == spec_props_init(
                c.trees@[0].properties.properties@,
            ) + spec_trees_init(c.trees@.drop_first()),
        decreases nt - k,
    {
        proof {
            assert(c.trees@.skip(k as int)[0] == c.trees@[k as int]);
            assert(c.trees@.skip(k as int).drop_first() =~= c.trees@.skip(k as int + 1));
        }
        c.trees[k].init_stream(&mut init_stream);
        k = k + 1;
    }
    proof {
        assert(c.trees@.skip(nt as int) =~= Seq::<Widget>::empty());
        assert(init_stream@ + Seq::<InitStatement>::empty() =~= init_stream@);
    }

    // The three remaining passes over every tree, in order.
    let mut assign_stream: Vec<ApplyOp> = Vec::new();
    let mut connect_stream: Vec<ConnectStatement> = Vec::new();
    let mut update_stream: Vec<UpdateStep> = Vec::new();
    let mut k: usize = 0;
    proof {
        assert(c.trees@.skip(0) =~= c.trees@);
    }
    while k < nt
        invariant
            k <= nt,
            nt == c.trees@.len(),
            assign_stream@ + spec_trees_assign(c.trees@.skip(k as int)) == spec_trees_assign(
                c.trees@,
            ),
            connect_stream@ + spec_trees_connect(c.trees@.skip(k as int)) == spec_trees_connect(
                c.trees@,
            ),
            update_stream@ + spec_trees_update(c.trees@.skip(k as int)) == spec_trees_update(
                c.trees@,
            ),
        decreases nt - k,
    {
        proof {
            assert(c.trees@.skip(k as int)[0] == c.trees@[k as int]);
            assert(c.trees@.skip(k as int).drop_first() =~= c.trees@.skip(k as int + 1));
        }
        c.trees[k].assign_stream(&mut assign_stream);
        c.trees[k].connect_stream(&mut connect_stream);
        c.trees[k].update_stream(&mut update_stream);
        k = k + 1;
    }
    proof {
        assert(c.trees@.skip(nt as int) =~= Seq::<Widget>::empty());
        assert(assign_stream@ + Seq::<ApplyOp>::empty() =~= assign_stream@);
        assert(connect_stream@ + Seq::<ConnectStatement>::empty() =~= connect_stream@);
        assert(update_stream@ + Seq::<UpdateStep>::empty() =~= update_stream@);
    }

    Ok(
        Artifacts {
            record: WidgetsRecord { widgets, handlers },
            root_stream,
            init_stream,
            assign_stream,
            connect_stream,
            update_stream,
        },
    )
}

} // verus!
