//! The construction pass: emits, in strict declaration order, one
//! construction statement per widget, recursing into widget-valued and
//! conditional-widget-valued properties immediately after their owner so
//! that children exist before anything references them by name.
//!
//! A conditional widget lowers to: construct the switch-container; for
//! each branch, in declaration order, construct its widget unconditionally
//! and register it as a labeled child (label = zero-based branch index);
//! apply the transition effect to the container if one is configured.
//!
//! A pre-bound widget receives no construction statement: its binding is
//! supplied by the surrounding initializer and only referenced by name.

use vstd::prelude::*;

use crate::ast::{
    ConditionalBranches, ConditionalWidget, FuncKind, IfBranch, MatchArm, Properties, Property,
    PropertyType, Widget, WidgetAttr,
};

verus! {

/// The construction expression of one emitted `let` statement.
#[derive(Clone, Copy, PartialEq, Eq, Structural, Debug)]
pub enum ConstructKind {
    /// Construction through the reusable-template capability of `path`.
    Template { path: u32 },
    /// A block, builder or direct-constructor call of `path`.
    Call { path: u32, args: Option<u32>, form: FuncKind },
}

/// One statement of the emitted construction code.
#[derive(Clone, Copy, PartialEq, Eq, Structural, Debug)]
pub enum InitStatement {
    /// `let <mut> name <: ty> = <construction expr>;`
    Construct { mutable: bool, name: u32, ty: Option<u32>, kind: ConstructKind },
    /// `let name = SwitchContainer::default();`
    CreateSwitch { name: u32 },
    /// `name.set_transition(transition);`
    SetTransition { name: u32, transition: u32 },
    /// Register `child` as the labeled child `label` of `container`.
    /// Construction reads only the branch widgets, never the
    /// discriminant: the branch conditions travel in the update routine.
    AddSwitchChild { container: u32, child: u32, label: usize },
    /// The bare `name`, appended as the stream's trailing result
    /// expression: the root stream evaluates to the root handle.
    Yield { name: u32 },
}

/// The single construction statement of a widget, or nothing for a
/// pre-bound widget.
pub open spec fn spec_self_init(w: Widget) -> Seq<InitStatement> {
    if w.attr == WidgetAttr::Constructed {
        seq![
            InitStatement::Construct {
                mutable: w.mutable,
                name: w.name,
                ty: w.func.ty,
                kind: if w.uses_template {
                    ConstructKind::Template { path: w.func.path }
                } else {
                    ConstructKind::Call { path: w.func.path, args: w.func.args, form: w.func.kind }
                },
            },
        ]
    } else {
        Seq::empty()
    }
}

/// The full construction stream of a widget subtree.
pub open spec fn spec_widget_init(w: Widget) -> Seq<InitStatement>
    decreases w, 1int,
{
    spec_self_init(w) + spec_props_init(w.properties.properties@)
}

pub open spec fn spec_props_init(s: Seq<Property>) -> Seq<InitStatement>
    decreases s,
{
    if s.len() == 0 {
        Seq::empty()
    } else {
        spec_prop_init(s[0]) + spec_props_init(s.drop_first())
    }
}

pub open spec fn spec_prop_init(p: Property) -> Seq<InitStatement>
    decreases p,
{
    match p.ty {
        PropertyType::Widget(w) => spec_widget_init(w),
        PropertyType::ConditionalWidget(c) => spec_cond_init(c),
        _ => Seq::empty(),
    }
}

/// Switch-container construction, then the transition effect if present,
/// then every branch in declaration order.
pub open spec fn spec_cond_init(c: ConditionalWidget) -> Seq<InitStatement>
    decreases c,
{
    seq![InitStatement::CreateSwitch { name: c.name }] + match c.transition {
        Some(t) => seq![InitStatement::SetTransition { name: c.name, transition: t }],
        None => Seq::empty(),
    } + match c.branches {
        ConditionalBranches::If(bs) => spec_if_branches_init(bs@, c.name, 0),
        ConditionalBranches::Match(_, arms) => spec_arm_branches_init(arms@, c.name, 0),
    }
}

/// Each if-branch widget's construction followed by its registration as
/// the labeled child `label` of the container.
pub open spec fn spec_if_branches_init(bs: Seq<IfBranch>, container: u32, label: nat) -> Seq<
    InitStatement,
>
    decreases bs,
{
    if bs.len() == 0 {
        Seq::empty()
    } else {
        spec_widget_init(bs[0].widget) + seq![
            InitStatement::AddSwitchChild {
                container,
                child: bs[0].widget.name,
                label: label as usize,
            },
        ] + spec_if_branches_init(bs.drop_first(), container, label + 1)
    }
}

/// Each match-arm widget's construction followed by its registration as
/// the labeled child `label` of the container.
pub open spec fn spec_arm_branches_init(arms: Seq<MatchArm>, container: u32, label: nat) -> Seq<
    InitStatement,
>
    decreases arms,
{
    if arms.len() == 0 {
        Seq::empty()
    } else {
        spec_widget_init(arms[0].widget) + seq![
            InitStatement::AddSwitchChild {
                container,
                child: arms[0].widget.name,
                label: label as usize,
            },
        ] + spec_arm_branches_init(arms.drop_first(), container, label + 1)
    }
}

impl Property {
    /// Emits construction code for a widget-valued or conditional-widget-
    /// valued property; any other property contributes nothing here.
    pub fn init_stream(&self, stream: &mut Vec<InitStatement>)
        ensures
            final(stream)@ == old(stream)@ + spec_prop_init(*self),
        decreases *self,
    {
        match &self.ty {
            PropertyType::Widget(widget) => {
                widget.init_stream(stream);
            },
            PropertyType::ConditionalWidget(cond_widget) => {
                cond_widget.init_stream(stream);
            },
            _ => {
                assert(stream@ =~= stream@ + Seq::<InitStatement>::empty());
            },
        }
    }
}

impl Properties {
    /// Emits construction code for every widget-valued property, in
    /// declaration order.
    pub fn init_stream(&self, stream: &mut Vec<InitStatement>)
        ensures
            final(stream)@ == old(stream)@ + spec_props_init(self.properties@),
        decreases *self,
    {
        let n = self.properties.len();
        let mut i: usize = 0;
        proof {
            assert(self.properties@.skip(0) =~= self.properties@);
        }
        while i < n
            invariant
                n == self.properties@.len(),
                i <= n,
                stream@ + spec_props_init(self.properties@.skip(i as int)) == old(stream)@
                    + spec_props_init(self.properties@),
            decreases n - i,
        {
            proof {
                assert(self.properties@.skip(i as int).len() > 0);
                assert(self.properties@.skip(i as int)[0] == self.properties@[i as int]);
                assert(self.properties@.skip(i as int).drop_first() =~= self.properties@.skip(
                    i as int + 1,
                ));
            }
            self.properties[i].init_stream(stream);
            i = i + 1;
        }
        proof {
            assert(self.properties@.skip(n as int) =~= Seq::<Property>::empty());
            assert(stream@ + Seq::<InitStatement>::empty() =~= stream@);
        }
    }
}

impl Widget {
    /// Emits this widget's own construction, then its descendants'.
    pub fn init_stream(&self, stream: &mut Vec<InitStatement>)
        ensures
            final(stream)@ == old(stream)@ + spec_widget_init(*self),
        decreases *self, 3int,
    {
        self.self_init_stream(stream);
        self.other_init_stream(stream);
    }

    /// Emits the root widget's construction into the distinguished root
    /// stream, appending its name as the stream's result so the stream
    /// evaluates to the externally returned handle; the rest of the tree
    /// goes into the ordinary construction stream, executed afterwards.
    pub fn init_root_init_streams(
        &self,
        init_root_stream: &mut Vec<InitStatement>,
        init_stream: &mut Vec<InitStatement>,
    )
        ensures
            final(init_root_stream)@ == old(init_root_stream)@ + spec_self_init(*self) + seq![
                InitStatement::Yield { name: self.name },
            ],
            final(init_stream)@ == old(init_stream)@ + spec_props_init(self.properties.properties@),
        decreases *self, 3int,
    {
        // Init and name as return value
        self.self_init_stream(init_root_stream);
        init_root_stream.push(InitStatement::Yield { name: self.name });

        self.other_init_stream(init_stream);
    }

    /// The single construction statement of this widget, according to its
    /// construction strategy; nothing for a pre-bound widget.
    fn self_init_stream(&self, stream: &mut Vec<InitStatement>)
        ensures
            final(stream)@ == old(stream)@ + spec_self_init(*self),
    {
        if self.attr == WidgetAttr::Constructed {
            let kind = if self.uses_template {
                ConstructKind::Template { path: self.func.path }
            } else {
                ConstructKind::Call {
                    path: self.func.path,
                    args: self.func.args,
                    form: self.func.kind,
                }
            };
            stream.push(
                InitStatement::Construct {
                    mutable: self.mutable,
                    name: self.name,
                    ty: self.func.ty,
                    kind,
                },
            );
        } else {
            assert(stream@ =~= stream@ + Seq::<InitStatement>::empty());
        }
    }

    /// Emits construction code for this widget's descendants.
    fn other_init_stream(&self, stream: &mut Vec<InitStatement>)
        ensures
            final(stream)@ == old(stream)@ + spec_props_init(self.properties.properties@),
        decreases *self, 2int,
    {
        self.properties.init_stream(stream);
    }
}

impl ConditionalWidget {
    /// Lowers the conditional to its switch-container, the optional
    /// transition effect, and every branch's unconditional construction
    /// and labeled registration, in declaration order.
    #[verifier::loop_isolation(false)]
    #[verifier::rlimit(60)]
    pub fn init_stream(&self, stream: &mut Vec<InitStatement>)
        ensures
            final(stream)@ == old(stream)@ + spec_cond_init(*self),
        decreases *self,
    {
        let name = self.name;

        stream.push(InitStatement::CreateSwitch { name });

        if let Some(transition) = self.transition {
            stream.push(InitStatement::SetTransition { name, transition });
        }

        match &self.branches {
            ConditionalBranches::If(if_branches) => {
                let n = if_branches.len();
                let mut i: usize = 0;
                proof {
                    assert(if_branches@.skip(0) =~= if_branches@);
                    assert(stream@ + spec_if_branches_init(if_branches@, name, 0) =~= old(stream)@
                        + spec_cond_init(*self));
                }
                while i < n
                    invariant
                        i <= n,
                        stream@ + spec_if_branches_init(if_branches@.skip(i as int), name, i as nat)
                            == old(stream)@ + spec_cond_init(*self),
                    decreases n - i,
                {
                    proof {
                        assert(decreases_to!(*self => self.branches));
                        assert(decreases_to!(self.branches => *if_branches));
                        assert(decreases_to!(*if_branches => if_branches@[i as int]));
                        assert(decreases_to!(if_branches@[i as int] => if_branches@[
                            i as int
                        ].widget));
                        assert(if_branches@.skip(i as int)[0] == if_branches@[i as int]);
                        assert(if_branches@.skip(i as int).drop_first() =~= if_branches@.skip(
                            i as int + 1,
                        ));
                    }
                    if_branches[i].widget.init_stream(stream);
                    stream.push(
                        InitStatement::AddSwitchChild {
                            container: name,
                            child: if_branches[i].widget.name,
                            label: i,
                        },
                    );
                    i = i + 1;
                }
                proof {
                    assert(if_branches@.skip(n as int) =~= Seq::<IfBranch>::empty());
                    assert(stream@ + Seq::<InitStatement>::empty() =~= stream@);
                }
            },
            ConditionalBranches::Match(_scrutinee, match_arms) => {
                let n = match_arms.len();
                let mut i: usize = 0;
                proof {
                    assert(match_arms@.skip(0) =~= match_arms@);
                    assert(stream@ + spec_arm_branches_init(match_arms@, name, 0) =~= old(stream)@
                        + spec_cond_init(*self));
                }
                while i < n
                    invariant
                        i <= n,
                        stream@ + spec_arm_branches_init(
                            match_arms@.skip(i as int),
                            name,
                            i as nat,
                        ) == old(stream)@ + spec_cond_init(*self),
                    decreases n - i,
                {
                    proof {
                        assert(decreases_to!(*self => self.branches));
                        assert(decreases_to!(self.branches => *match_arms));
                        assert(decreases_to!(*match_arms => match_arms@[i as int]));
                        assert(decreases_to!(match_arms@[i as int] => match_arms@[
                            i as int
                        ].widget));
                        assert(match_arms@.skip(i as int)[0] == match_arms@[i as int]);
                        assert(match_arms@.skip(i as int).drop_first() =~= match_arms@.skip(
                            i as int + 1,
                        ));
                    }
                    match_arms[i].widget.init_stream(stream);
                    stream.push(
                        InitStatement::AddSwitchChild {
                            container: name,
                            child: match_arms[i].widget.name,
                            label: i,
                        },
                    );
                    i = i + 1;
                }
                proof {
                    assert(match_arms@.skip(n as int) =~= Seq::<MatchArm>::empty());
                    assert(stream@ + Seq::<InitStatement>::empty() =~= stream@);
                }
            },
        }
    }
}

} // verus!
