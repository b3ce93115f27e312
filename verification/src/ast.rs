//! The tree model shared by the parser, the validator and every generator
//! pass.
//!
//! Identifiers, type paths and argument expressions are carried as opaque
//! interned ids (`u32`): the compiler places them in the emitted code but
//! never evaluates them itself.  One component holds a list of top-level
//! trees; the first tree's root widget is the handle the construction
//! routine returns.

use vstd::prelude::*;

verus! {

/// How a widget without a pre-bound value is constructed.
#[derive(Clone, Copy, PartialEq, Eq, Structural, Debug)]
pub enum FuncKind {
    /// `Type { .. }` block form: construct with the type's default constructor.
    Block,
    /// `Type::builder()....build()` chain given as one expression.
    Builder,
    /// `Type::new(args)` direct constructor call.
    Constructor,
}

/// Pre-binding of a widget to a value supplied by the surrounding
/// initializer rather than constructed here.
#[derive(Clone, Copy, PartialEq, Eq, Structural, Debug)]
pub enum WidgetAttr {
    /// No pre-binding: the widget is constructed by the init routine.
    Constructed,
    /// Pre-bound by value: the name refers to a local of the initializer.
    Local,
    /// Pre-bound by reference.
    LocalRef,
}

/// The construction expression of a widget.
#[derive(Clone, Copy, PartialEq, Eq, Structural, Debug)]
pub struct WidgetFunc {
    /// Path of the widget type, or of the constructor function.
    pub path: u32,
    /// Explicit type ascription, if the declaration carried one.
    pub ty: Option<u32>,
    /// Constructor arguments, absent for the zero-argument shorthand.
    pub args: Option<u32>,
    /// Which construction form the declaration used.
    pub kind: FuncKind,
}

/// Refresh modifier of an assignment property.
///
/// When a declaration carries both the unconditional-refresh and the
/// conditional-refresh modifier, the unconditional one wins: the property
/// is re-applied on every update.
#[derive(Clone, Copy, PartialEq, Eq, Structural, Debug)]
pub enum AssignAttr {
    /// Applied once, at construction time only.
    Once,
    /// Unconditional refresh: re-applied on every update invocation.
    Watch,
    /// Conditional refresh: re-applied when the predicate expression
    /// evaluates true against the model's change-state.
    Track(u32),
}

/// A plain property assignment: `target: expr` with its modifiers.
pub struct AssignProperty {
    /// Method or field path applied on the owning widget.
    pub target: u32,
    /// Argument expression.
    pub expr: u32,
    /// Trailing `?`: apply only if the argument evaluates to a present value.
    pub optional: bool,
    /// Refresh modifier.
    pub attr: AssignAttr,
    /// Signal-handler name suppressed while this property is re-applied.
    pub block_signal: Option<u32>,
    /// Extra chained call appended to the application.
    pub chain: Option<u32>,
}

/// A signal connection: `connect_x[captures] => body @handler_name`.
pub struct SignalProperty {
    /// The connect method on the owning widget.
    pub signal: u32,
    /// The callback body (a message, or a closure dispatching messages).
    pub closure: u32,
    /// Name under which the connection's handler id is stored, so that
    /// update code can suppress the callback while re-applying a property.
    pub handler_name: Option<u32>,
}

/// A one-time directional property-mirroring link between two widgets.
pub struct BindProperty {
    /// The binding method on the owning widget.
    pub target: u32,
    /// Source property, target widget and target property, as one expression.
    pub expr: u32,
    /// Chained configuration call applied before the link is finalized.
    pub chain: Option<u32>,
}

/// The alternatives a property can be.
pub enum PropertyType {
    Assign(AssignProperty),
    Signal(SignalProperty),
    Bind(BindProperty),
    Widget(Widget),
    ConditionalWidget(ConditionalWidget),
}

/// One property of a widget.
pub struct Property {
    pub ty: PropertyType,
}

/// The ordered property list of one widget.  Order is semantically
/// significant: construction and update both walk it left to right.
pub struct Properties {
    pub properties: Vec<Property>,
}

/// One node of the widget tree.
pub struct Widget {
    /// Unique name, explicit or synthesized.
    pub name: u32,
    /// Whether the name was written by the user (pre-bound widgets must be
    /// explicitly named, since the name refers to an outside binding).
    pub name_explicit: bool,
    /// Whether the binding is declared mutable.
    pub mutable: bool,
    /// Pre-binding, if any.
    pub attr: WidgetAttr,
    /// Whether construction goes through the reusable-template capability.
    pub uses_template: bool,
    /// The construction expression.
    pub func: WidgetFunc,
    /// The widget's properties, in declaration order.
    pub properties: Properties,
}

/// One branch of an if/else-if chain.  `cond` is `None` for the final
/// `else` branch only.
pub struct IfBranch {
    pub cond: Option<u32>,
    pub widget: Widget,
}

/// One arm of a match over the discriminant.
pub struct MatchArm {
    pub pattern: u32,
    pub widget: Widget,
}

/// The branch set of a conditional widget.
pub enum ConditionalBranches {
    If(Vec<IfBranch>),
    /// Scrutinee expression and the ordered arms.
    Match(u32, Vec<MatchArm>),
}

/// An exclusive-choice subtree: every branch's widget is constructed at
/// init time; exactly one is visible, selected by the discriminant.
pub struct ConditionalWidget {
    /// Name of the switch-container holding the branches.
    pub name: u32,
    /// Whether the container's name was written by the user; only
    /// explicitly named widgets get a handle in the emitted record.
    pub name_explicit: bool,
    /// Transition effect applied when the visible child changes.
    pub transition: Option<u32>,
    pub branches: ConditionalBranches,
}

/// One compiled component: its top-level trees (at least one; the first
/// tree's root widget is the externally exposed root) and whether the
/// model declares change-tracking support.
pub struct Component {
    pub trees: Vec<Widget>,
    pub tracker_support: bool,
}

impl ConditionalBranches {
    /// The branch widgets, in declaration order.
    pub open spec fn widgets(self) -> Seq<Widget> {
        match self {
            ConditionalBranches::If(bs) => bs@.map_values(|b: IfBranch| b.widget),
            ConditionalBranches::Match(_, arms) => arms@.map_values(|a: MatchArm| a.widget),
        }
    }

    /// Number of branches.
    pub open spec fn len(self) -> nat {
        self.widgets().len()
    }
}

/// An if/else-if chain is shaped correctly when it is non-empty, every
/// branch but the last carries a condition, and the last is the `else`
/// branch; a match is shaped correctly when it has at least one arm.
pub open spec fn wf_branches(b: ConditionalBranches) -> bool {
    match b {
        ConditionalBranches::If(bs) => {
            &&& bs@.len() > 0
            &&& forall|i: int| 0 <= i < bs@.len() - 1 ==> (#[trigger] bs@[i].cond) is Some
            &&& bs@[bs@.len() - 1].cond is None
        },
        ConditionalBranches::Match(_, arms) => arms@.len() > 0,
    }
}

/// Structural well-formedness of a widget subtree.
pub open spec fn wf_widget(w: Widget) -> bool
    decreases w,
{
    wf_props(w.properties.properties@)
}

pub open spec fn wf_props(s: Seq<Property>) -> bool
    decreases s,
{
    if s.len() == 0 {
        true
    } else {
        wf_prop(s[0]) && wf_props(s.drop_first())
    }
}

pub open spec fn wf_prop(p: Property) -> bool
    decreases p,
{
    match p.ty {
        PropertyType::Widget(w) => wf_widget(w),
        PropertyType::ConditionalWidget(c) => wf_cond(c),
        _ => true,
    }
}

pub open spec fn wf_cond(c: ConditionalWidget) -> bool
    decreases c,
{
    &&& wf_branches(c.branches)
    &&& match c.branches {
        ConditionalBranches::If(bs) => wf_if_branches(bs@),
        ConditionalBranches::Match(_, arms) => wf_arms(arms@),
    }
}

pub open spec fn wf_if_branches(bs: Seq<IfBranch>) -> bool
    decreases bs,
{
    if bs.len() == 0 {
        true
    } else {
        wf_widget(bs[0].widget) && wf_if_branches(bs.drop_first())
    }
}

pub open spec fn wf_arms(arms: Seq<MatchArm>) -> bool
    decreases arms,
{
    if arms.len() == 0 {
        true
    } else {
        wf_widget(arms[0].widget) && wf_arms(arms.drop_first())
    }
}

/// Every widget and switch-container name declared in the subtree, in
/// declaration order, pre-bound widgets included.
pub open spec fn widget_names(w: Widget) -> Seq<u32>
    decreases w,
{
    seq![w.name] + props_names(w.properties.properties@)
}

pub open spec fn props_names(s: Seq<Property>) -> Seq<u32>
    decreases s,
{
    if s.len() == 0 {
        Seq::empty()
    } else {
        prop_names(s[0]) + props_names(s.drop_first())
    }
}

pub open spec fn prop_names(p: Property) -> Seq<u32>
    decreases p,
{
    match p.ty {
        PropertyType::Widget(w) => widget_names(w),
        PropertyType::ConditionalWidget(c) => cond_names(c),
        _ => Seq::empty(),
    }
}

pub open spec fn cond_names(c: ConditionalWidget) -> Seq<u32>
    decreases c,
{
    seq![c.name] + match c.branches {
        ConditionalBranches::If(bs) => if_branch_names(bs@),
        ConditionalBranches::Match(_, arms) => arm_names(arms@),
    }
}

pub open spec fn if_branch_names(bs: Seq<IfBranch>) -> Seq<u32>
    decreases bs,
{
    if bs.len() == 0 {
        Seq::empty()
    } else {
        widget_names(bs[0].widget) + if_branch_names(bs.drop_first())
    }
}

pub open spec fn arm_names(arms: Seq<MatchArm>) -> Seq<u32>
    decreases arms,
{
    if arms.len() == 0 {
        Seq::empty()
    } else {
        widget_names(arms[0].widget) + arm_names(arms.drop_first())
    }
}

} // verus!
