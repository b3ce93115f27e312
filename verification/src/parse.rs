//! The parser: tokens of one component's declarative tree description to
//! an abstract syntax tree, or a fatal diagnostic with the index of the
//! offending token.  Parse failure is fatal for the affected component;
//! there is no partial tree.
//!
//! Identifiers, paths and expressions arrive already interned as opaque
//! ids; a widget without an explicit name receives a synthesized one from
//! a fresh counter the caller seeds above every interned id.
//!
//! Accepted forms: block-form widgets (`Type { prop: expr, .. }`),
//! builder-chain and direct-constructor widgets, the zero-argument-call
//! shorthand, named widgets (`name = &Type { .. }`), pre-bound widgets
//! (by value or by reference, with an optional type ascription), a
//! trailing `?` meaning "apply only if the argument is present", signal
//! connections (`signal => body @handler`), property bindings, attribute
//! lists naming the modifiers, and conditional widgets as if/else-if
//! chains (a final `else` is required) or match arms (at least one arm).

use vstd::prelude::*;

use crate::ast::{
    wf_arms, wf_branches, wf_cond, wf_if_branches, wf_prop, wf_props, wf_widget, AssignAttr, AssignProperty,
    BindProperty, Component, ConditionalBranches, ConditionalWidget, IfBranch, MatchArm,
    Properties, Property, PropertyType, SignalProperty, Widget, WidgetAttr, WidgetFunc, FuncKind,
};
use crate::diag::{DiagKind, Diagnostic};

verus! {

/// One token of a component's tree description.
#[derive(Clone, Copy, PartialEq, Eq, Structural, Debug)]
pub enum Token {
    OpenBrace,
    CloseBrace,
    Comma,
    Colon,
    Eq,
    Amp,
    Arrow,
    Question,
    FatArrow,
    At,
    KwMut,
    KwIf,
    KwElse,
    KwMatch,
    /// A plain identifier: a widget name, a method, a signal.
    Ident(u32),
    /// A type or constructor path.
    Path(u32),
    /// An opaque interned expression: an argument, a condition, a
    /// scrutinee, a match pattern, a callback body with its captures.
    Expr(u32),
    /// A builder chain attached to the preceding path.
    BuilderChain(u32),
    /// `()`: the zero-argument-call shorthand.
    Unit,
    /// `#[watch]`: unconditional refresh.
    AttrWatch,
    /// `#[track(pred)]`: conditional refresh.
    AttrTrack(u32),
    /// `#[block_signal(handler)]`.
    AttrBlockSignal(u32),
    /// `#[name = "n"]`: explicit widget name.
    AttrName(u32),
    /// `#[root]`.
    AttrRoot,
    /// `#[transition(t)]`.
    AttrTransition(u32),
    /// `#[local]`: pre-bound by value.
    AttrLocal,
    /// `#[local_ref]`: pre-bound by reference.
    AttrLocalRef,
    /// `#[chain(call)]`.
    AttrChain(u32),
    /// `#[template]`: construct through the reusable-template capability.
    AttrTemplate,
    /// Marks the following property as a directional binding link.
    AttrBind,
}

/// The modifiers collected from one attribute list.
pub struct AttrSet {
    pub watch: bool,
    pub track: Option<u32>,
    pub block_signal: Option<u32>,
    pub name: Option<u32>,
    pub root: bool,
    pub transition: Option<u32>,
    pub local: bool,
    pub local_ref: bool,
    pub chain: Option<u32>,
    pub template: bool,
    pub bind: bool,
}

impl AttrSet {
    /// The neutral modifier set: every flag off, every argument absent.
    pub fn empty() -> (r: AttrSet)
        ensures
            r == attrs_empty(),
    {
        AttrSet {
            watch: false,
            track: None,
            block_signal: None,
            name: None,
            root: false,
            transition: None,
            local: false,
            local_ref: false,
            chain: None,
            template: false,
            bind: false,
        }
    }
}

/// Appending a property keeps a scope well-formed exactly when the
/// property is.
pub proof fn lemma_wf_props_push(s: Seq<Property>, p: Property)
    ensures
        wf_props(s.push(p)) == (wf_props(s) && wf_prop(p)),
    decreases s.len(),
{
    if s.len() == 0 {
        assert(wf_props(Seq::<Property>::empty()));
        assert(s.push(p)[0] == p);
        assert(s.push(p).drop_first() =~= Seq::<Property>::empty());
        assert(wf_props(s.push(p)) == wf_prop(p));
    } else {
        assert(s.push(p)[0] == s[0]);
        assert(s.push(p).drop_first() =~= s.drop_first().push(p));
        lemma_wf_props_push(s.drop_first(), p);
    }
}

pub proof fn lemma_wf_if_push(s: Seq<IfBranch>, b: IfBranch)
    ensures
        wf_if_branches(s.push(b)) == (wf_if_branches(s) && wf_widget(b.widget)),
    decreases s.len(),
{
    if s.len() == 0 {
        assert(wf_if_branches(Seq::<IfBranch>::empty()));
        assert(s.push(b)[0] == b);
        assert(s.push(b).drop_first() =~= Seq::<IfBranch>::empty());
        assert(wf_if_branches(s.push(b)) == wf_widget(b.widget));
    } else {
        assert(s.push(b)[0] == s[0]);
        assert(s.push(b).drop_first() =~= s.drop_first().push(b));
        lemma_wf_if_push(s.drop_first(), b);
    }
}

pub proof fn lemma_wf_arms_push(s: Seq<MatchArm>, a: MatchArm)
    ensures
        wf_arms(s.push(a)) == (wf_arms(s) && wf_widget(a.widget)),
    decreases s.len(),
{
    if s.len() == 0 {
        assert(wf_arms(Seq::<MatchArm>::empty()));
        assert(s.push(a)[0] == a);
        assert(s.push(a).drop_first() =~= Seq::<MatchArm>::empty());
        assert(wf_arms(s.push(a)) == wf_widget(a.widget));
    } else {
        assert(s.push(a)[0] == s[0]);
        assert(s.push(a).drop_first() =~= s.drop_first().push(a));
        lemma_wf_arms_push(s.drop_first(), a);
    }
}


/// The mathematical value of a parsed widget tree.  The parser's
/// contracts pin their results against a specification-level parser over
/// these values, so success, failure, the diagnostic, the consumed
/// positions, the name counter and the tree itself are all fixed by the
/// tokens.
pub ghost struct SpecWidget {
    pub name: u32,
    pub name_explicit: bool,
    pub mutable: bool,
    pub attr: WidgetAttr,
    pub uses_template: bool,
    pub func: WidgetFunc,
    pub properties: Seq<SpecProperty>,
}

pub ghost enum SpecProperty {
    Assign(AssignProperty),
    Signal(SignalProperty),
    Bind(BindProperty),
    Widget(SpecWidget),
    Cond(SpecCond),
}

pub ghost struct SpecCond {
    pub name: u32,
    pub name_explicit: bool,
    pub transition: Option<u32>,
    pub branches: SpecBranches,
}

pub ghost enum SpecBranches {
    If(Seq<SpecIfBranch>),
    Match(u32, Seq<SpecArm>),
}

pub ghost struct SpecIfBranch {
    pub cond: Option<u32>,
    pub widget: SpecWidget,
}

pub ghost struct SpecArm {
    pub pattern: u32,
    pub widget: SpecWidget,
}

/// The mathematical value of a parsed widget.
pub open spec fn abs_widget(w: Widget) -> SpecWidget
    decreases w,
{
    SpecWidget {
        name: w.name,
        name_explicit: w.name_explicit,
        mutable: w.mutable,
        attr: w.attr,
        uses_template: w.uses_template,
        func: w.func,
        properties: abs_props(w.properties.properties@),
    }
}

pub open spec fn abs_props(s: Seq<Property>) -> Seq<SpecProperty>
    decreases s,
{
    if s.len() == 0 {
        Seq::empty()
    } else {
        seq![abs_prop(s[0])] + abs_props(s.drop_first())
    }
}

pub open spec fn abs_prop(p: Property) -> SpecProperty
    decreases p,
{
    match p.ty {
        PropertyType::Assign(a) => SpecProperty::Assign(a),
        PropertyType::Signal(sg) => SpecProperty::Signal(sg),
        PropertyType::Bind(b) => SpecProperty::Bind(b),
        PropertyType::Widget(w) => SpecProperty::Widget(abs_widget(w)),
        PropertyType::ConditionalWidget(c) => SpecProperty::Cond(abs_cond(c)),
    }
}

pub open spec fn abs_cond(c: ConditionalWidget) -> SpecCond
    decreases c,
{
    SpecCond {
        name: c.name,
        name_explicit: c.name_explicit,
        transition: c.transition,
        branches: match c.branches {
            ConditionalBranches::If(bs) => SpecBranches::If(abs_if_branches(bs@)),
            ConditionalBranches::Match(sc, arms) => SpecBranches::Match(sc, abs_arms(arms@)),
        },
    }
}

pub open spec fn abs_if_branches(bs: Seq<IfBranch>) -> Seq<SpecIfBranch>
    decreases bs,
{
    if bs.len() == 0 {
        Seq::empty()
    } else {
        seq![SpecIfBranch { cond: bs[0].cond, widget: abs_widget(bs[0].widget) }]
            + abs_if_branches(bs.drop_first())
    }
}

pub open spec fn abs_arms(arms: Seq<MatchArm>) -> Seq<SpecArm>
    decreases arms,
{
    if arms.len() == 0 {
        Seq::empty()
    } else {
        seq![SpecArm { pattern: arms[0].pattern, widget: abs_widget(arms[0].widget) }]
            + abs_arms(arms.drop_first())
    }
}

pub proof fn lemma_abs_props_push(s: Seq<Property>, p: Property)
    ensures
        abs_props(s.push(p)) == abs_props(s).push(abs_prop(p)),
    decreases s.len(),
{
    if s.len() == 0 {
        assert(abs_props(Seq::<Property>::empty()) == Seq::<SpecProperty>::empty());
        assert(s.push(p)[0] == p);
        assert(s.push(p).drop_first() =~= Seq::<Property>::empty());
        assert(abs_props(s.push(p)) =~= abs_props(s).push(abs_prop(p)));
    } else {
        assert(s.push(p)[0] == s[0]);
        assert(s.push(p).drop_first() =~= s.drop_first().push(p));
        lemma_abs_props_push(s.drop_first(), p);
        assert(abs_props(s.push(p)) =~= abs_props(s).push(abs_prop(p)));
    }
}

pub proof fn lemma_abs_if_push(s: Seq<IfBranch>, b: IfBranch)
    ensures
        abs_if_branches(s.push(b)) == abs_if_branches(s).push(
            SpecIfBranch { cond: b.cond, widget: abs_widget(b.widget) },
        ),
    decreases s.len(),
{
    if s.len() == 0 {
        assert(abs_if_branches(Seq::<IfBranch>::empty()) == Seq::<SpecIfBranch>::empty());
        assert(s.push(b)[0] == b);
        assert(s.push(b).drop_first() =~= Seq::<IfBranch>::empty());
        assert(abs_if_branches(s.push(b)) =~= abs_if_branches(s).push(
            SpecIfBranch { cond: b.cond, widget: abs_widget(b.widget) },
        ));
    } else {
        assert(s.push(b)[0] == s[0]);
        assert(s.push(b).drop_first() =~= s.drop_first().push(b));
        lemma_abs_if_push(s.drop_first(), b);
        assert(abs_if_branches(s.push(b)) =~= abs_if_branches(s).push(
            SpecIfBranch { cond: b.cond, widget: abs_widget(b.widget) },
        ));
    }
}

pub proof fn lemma_abs_arms_push(s: Seq<MatchArm>, a: MatchArm)
    ensures
        abs_arms(s.push(a)) == abs_arms(s).push(
            SpecArm { pattern: a.pattern, widget: abs_widget(a.widget) },
        ),
    decreases s.len(),
{
    if s.len() == 0 {
        assert(abs_arms(Seq::<MatchArm>::empty()) == Seq::<SpecArm>::empty());
        assert(s.push(a)[0] == a);
        assert(s.push(a).drop_first() =~= Seq::<MatchArm>::empty());
        assert(abs_arms(s.push(a)) =~= abs_arms(s).push(
            SpecArm { pattern: a.pattern, widget: abs_widget(a.widget) },
        ));
    } else {
        assert(s.push(a)[0] == s[0]);
        assert(s.push(a).drop_first() =~= s.drop_first().push(a));
        lemma_abs_arms_push(s.drop_first(), a);
        assert(abs_arms(s.push(a)) =~= abs_arms(s).push(
            SpecArm { pattern: a.pattern, widget: abs_widget(a.widget) },
        ));
    }
}

pub proof fn lemma_abs_trees_push(s: Seq<Widget>, w: Widget)
    ensures
        abs_trees(s.push(w)) == abs_trees(s).push(abs_widget(w)),
    decreases s.len(),
{
    if s.len() == 0 {
        assert(abs_trees(Seq::<Widget>::empty()) == Seq::<SpecWidget>::empty());
        assert(s.push(w)[0] == w);
        assert(s.push(w).drop_first() =~= Seq::<Widget>::empty());
        assert(abs_trees(s.push(w)) =~= abs_trees(s).push(abs_widget(w)));
    } else {
        assert(s.push(w)[0] == s[0]);
        assert(s.push(w).drop_first() =~= s.drop_first().push(w));
        lemma_abs_trees_push(s.drop_first(), w);
        assert(abs_trees(s.push(w)) =~= abs_trees(s).push(abs_widget(w)));
    }
}

pub open spec fn abs_trees(s: Seq<Widget>) -> Seq<SpecWidget>
    decreases s,
{
    if s.len() == 0 {
        Seq::empty()
    } else {
        seq![abs_widget(s[0])] + abs_trees(s.drop_first())
    }
}

/// The neutral modifier set.
pub open spec fn attrs_empty() -> AttrSet {
    AttrSet {
        watch: false,
        track: None,
        block_signal: None,
        name: None,
        root: false,
        transition: None,
        local: false,
        local_ref: false,
        chain: None,
        template: false,
        bind: false,
    }
}

/// A position forced into `[lo, hi]`; the parser's results always lie
/// there already, so this only serves the termination measure.
pub open spec fn clamp_pos(lo: int, p: int, hi: int) -> int {
    if p < lo {
        lo
    } else if p > hi {
        hi
    } else {
        p
    }
}

/// What collecting the attribute tokens from `pos` yields.
pub open spec fn spec_parse_attrs(tokens: Seq<Token>, pos: int, acc: AttrSet) -> (AttrSet, int)
    decreases tokens.len() - pos,
{
    if !(0 <= pos < tokens.len()) {
        (acc, pos)
    } else {
        match tokens[pos] {
            Token::AttrWatch => spec_parse_attrs(tokens, pos + 1, AttrSet { watch: true, ..acc }),
            Token::AttrTrack(e) => spec_parse_attrs(
                tokens,
                pos + 1,
                AttrSet { track: Some(e), ..acc },
            ),
            Token::AttrBlockSignal(g) => spec_parse_attrs(
                tokens,
                pos + 1,
                AttrSet { block_signal: Some(g), ..acc },
            ),
            Token::AttrName(nm) => spec_parse_attrs(
                tokens,
                pos + 1,
                AttrSet { name: Some(nm), ..acc },
            ),
            Token::AttrRoot => spec_parse_attrs(tokens, pos + 1, AttrSet { root: true, ..acc }),
            Token::AttrTransition(t) => spec_parse_attrs(
                tokens,
                pos + 1,
                AttrSet { transition: Some(t), ..acc },
            ),
            Token::AttrLocal => spec_parse_attrs(tokens, pos + 1, AttrSet { local: true, ..acc }),
            Token::AttrLocalRef => spec_parse_attrs(
                tokens,
                pos + 1,
                AttrSet { local_ref: true, ..acc },
            ),
            Token::AttrChain(c) => spec_parse_attrs(
                tokens,
                pos + 1,
                AttrSet { chain: Some(c), ..acc },
            ),
            Token::AttrTemplate => spec_parse_attrs(
                tokens,
                pos + 1,
                AttrSet { template: true, ..acc },
            ),
            Token::AttrBind => spec_parse_attrs(tokens, pos + 1, AttrSet { bind: true, ..acc }),
            _ => (acc, pos),
        }
    }
}

/// What naming a widget yields: the explicit name, or the next
/// synthesized one.
pub open spec fn spec_pick_name(explicit: Option<u32>, fresh: u32) -> Result<
    (u32, bool, u32),
    Diagnostic,
> {
    match explicit {
        Some(n) => Ok((n, true, fresh)),
        None => {
            if fresh == u32::MAX {
                Err(Diagnostic { kind: DiagKind::TooManyWidgets, at: fresh })
            } else {
                Ok(((fresh, false, (fresh + 1) as u32)))
            }
        },
    }
}

/// What parsing a widget from `pos` yields.
pub open spec fn spec_parse_widget(tokens: Seq<Token>, pos: int, fresh: u32) -> Result<
    (SpecWidget, int, u32),
    Diagnostic,
>
    decreases tokens.len() - pos, 10int,
{
    if !(0 <= pos <= tokens.len()) {
        Err(Diagnostic { kind: DiagKind::UnexpectedEnd, at: pos as u32 })
    } else {
        let r = spec_parse_attrs(tokens, pos, attrs_empty());
        spec_parse_widget_after_attrs(
            tokens,
            pos,
            clamp_pos(pos, r.1, tokens.len() as int),
            r.0,
            fresh,
            None,
        )
    }
}

/// The widget forms after the attribute list.
#[verifier::opaque]
pub open spec fn spec_parse_widget_after_attrs(
    tokens: Seq<Token>,
    start: int,
    pos: int,
    attrs: AttrSet,
    fresh: u32,
    named: Option<u32>,
) -> Result<(SpecWidget, int, u32), Diagnostic>
    decreases tokens.len() - pos, 9int,
{
    let n = tokens.len() as int;
    let has_mut = 0 <= pos < n && tokens[pos] is KwMut;
    let p0 = if has_mut {
        pos + 1
    } else {
        pos
    };
    if attrs.local || attrs.local_ref {
        if p0 >= n {
            Err(Diagnostic { kind: DiagKind::UnexpectedEnd, at: p0 as u32 })
        } else {
            match tokens[p0] {
                Token::Ident(id) => {
                    let p1 = p0 + 1;
                    let tyres: Result<(Option<u32>, int), Diagnostic> = if p1 < n && tokens[p1]
                        is Arrow {
                        if p1 + 1 >= n {
                            Err(Diagnostic { kind: DiagKind::UnexpectedEnd, at: (p1 + 1) as u32 })
                        } else {
                            match tokens[p1 + 1] {
                                Token::Path(t) => Ok((Some(t), p1 + 2)),
                                _ => Err(
                                    Diagnostic {
                                        kind: DiagKind::UnexpectedToken,
                                        at: (p1 + 1) as u32,
                                    },
                                ),
                            }
                        }
                    } else {
                        Ok((None, p1))
                    };
                    match tyres {
                        Err(d) => Err(d),
                        Ok((ty, p2)) => match spec_parse_block_opt(tokens, p2, fresh) {
                            Err(d) => Err(d),
                            Ok((gprops, p3, f2)) => Ok(
                                (
                                    SpecWidget {
                                        name: id,
                                        name_explicit: true,
                                        mutable: has_mut,
                                        attr: if attrs.local {
                                            WidgetAttr::Local
                                        } else {
                                            WidgetAttr::LocalRef
                                        },
                                        uses_template: attrs.template,
                                        func: WidgetFunc {
                                            path: 0,
                                            ty,
                                            args: None,
                                            kind: FuncKind::Block,
                                        },
                                        properties: gprops,
                                    },
                                    p3,
                                    f2,
                                ),
                            ),
                        },
                    }
                },
                _ => Err(Diagnostic { kind: DiagKind::UnexpectedToken, at: p0 as u32 }),
            }
        }
    } else {
        let p1 = if p0 < n && tokens[p0] is Amp {
            p0 + 1
        } else {
            p0
        };
        if p1 >= n {
            Err(Diagnostic { kind: DiagKind::UnexpectedEnd, at: p1 as u32 })
        } else {
            match tokens[p1] {
                Token::Path(path) => {
                    let p2 = p1 + 1;
                    let shape: (FuncKind, Option<u32>, int) = if p2 < n {
                        match tokens[p2] {
                            Token::Unit => (FuncKind::Constructor, None, p2 + 1),
                            Token::Expr(e) => (FuncKind::Constructor, Some(e), p2 + 1),
                            Token::BuilderChain(e) => (FuncKind::Builder, Some(e), p2 + 1),
                            _ => (FuncKind::Block, None, p2),
                        }
                    } else {
                        (FuncKind::Block, None, p2)
                    };
                    match spec_parse_block_opt(tokens, shape.2, fresh) {
                        Err(d) => Err(d),
                        Ok((gprops, p3, f2)) => {
                            let explicit = if named is Some {
                                named
                            } else {
                                attrs.name
                            };
                            match spec_pick_name(explicit, f2) {
                                Err(d) => Err(d),
                                Ok((name, name_explicit, f3)) => {
                                    if p3 > start {
                                        Ok(
                                            (
                                                SpecWidget {
                                                    name,
                                                    name_explicit,
                                                    mutable: has_mut,
                                                    attr: WidgetAttr::Constructed,
                                                    uses_template: attrs.template,
                                                    func: WidgetFunc {
                                                        path,
                                                        ty: None,
                                                        args: shape.1,
                                                        kind: shape.0,
                                                    },
                                                    properties: gprops,
                                                },
                                                p3,
                                                f3,
                                            ),
                                        )
                                    } else {
                                        Err(
                                            Diagnostic {
                                                kind: DiagKind::UnexpectedEnd,
                                                at: p3 as u32,
                                            },
                                        )
                                    }
                                },
                            }
                        },
                    }
                },
                _ => Err(Diagnostic { kind: DiagKind::UnexpectedToken, at: p1 as u32 }),
            }
        }
    }
}

/// `{ properties }` if an opening brace follows, else an empty scope.
#[verifier::opaque]
pub open spec fn spec_parse_block_opt(tokens: Seq<Token>, pos: int, fresh: u32) -> Result<
    (Seq<SpecProperty>, int, u32),
    Diagnostic,
>
    decreases tokens.len() - pos, 8int,
{
    let n = tokens.len() as int;
    if 0 <= pos < n && tokens[pos] is OpenBrace {
        match spec_parse_properties(tokens, pos + 1, fresh, Seq::empty()) {
            Err(d) => Err(d),
            Ok((gprops, p2, f2)) => {
                if 0 <= p2 < n && tokens[p2] is CloseBrace {
                    Ok((gprops, p2 + 1, f2))
                } else {
                    Err(Diagnostic { kind: DiagKind::UnexpectedEnd, at: p2 as u32 })
                }
            },
        }
    } else {
        Ok((Seq::empty(), pos, fresh))
    }
}

/// One scope's properties, up to the closing brace.
#[verifier::opaque]
pub open spec fn spec_parse_properties(
    tokens: Seq<Token>,
    pos: int,
    fresh: u32,
    acc: Seq<SpecProperty>,
) -> Result<(Seq<SpecProperty>, int, u32), Diagnostic>
    decreases tokens.len() - pos, 20int,
{
    let n = tokens.len() as int;
    if !(0 <= pos < n) || tokens[pos] is CloseBrace {
        Ok((acc, pos, fresh))
    } else {
        match spec_parse_property(tokens, pos, fresh) {
            Err(d) => Err(d),
            Ok((gp, p2, f2)) => {
                let p3 = if 0 <= p2 < n && tokens[p2] is Comma {
                    p2 + 1
                } else {
                    p2
                };
                spec_parse_properties(tokens, clamp_pos(pos + 1, p3, n), f2, acc.push(gp))
            },
        }
    }
}

/// One property.
#[verifier::opaque]
pub open spec fn spec_parse_property(tokens: Seq<Token>, pos: int, fresh: u32) -> Result<
    (SpecProperty, int, u32),
    Diagnostic,
>
    decreases tokens.len() - pos, 19int,
{
    let n = tokens.len() as int;
    let ar = spec_parse_attrs(tokens, pos, attrs_empty());
    let attrs = ar.0;
    let p = clamp_pos(pos, ar.1, n);
    if p >= n {
        Err(Diagnostic { kind: DiagKind::UnexpectedEnd, at: p as u32 })
    } else {
        match tokens[p] {
            Token::KwIf | Token::KwMatch => match spec_parse_conditional(
                tokens,
                pos,
                p,
                attrs,
                fresh,
                None,
            ) {
                Err(d) => Err(d),
                Ok((gc, p2, f2)) => Ok((SpecProperty::Cond(gc), p2, f2)),
            },
            Token::KwMut | Token::Amp | Token::Path(_) => match spec_parse_widget_after_attrs(
                tokens,
                pos,
                p,
                attrs,
                fresh,
                None,
            ) {
                Err(d) => Err(d),
                Ok((gw, p2, f2)) => Ok((SpecProperty::Widget(gw), p2, f2)),
            },
            Token::Ident(id) => {
                if p + 1 < n && tokens[p + 1] is Colon {
                    if p + 2 >= n {
                        Err(Diagnostic { kind: DiagKind::UnexpectedEnd, at: (p + 2) as u32 })
                    } else {
                        let exprres: Result<u32, Diagnostic> = match tokens[p + 2] {
                            Token::Expr(e) => Ok(e),
                            Token::Unit => Ok(0),
                            _ => Err(
                                Diagnostic { kind: DiagKind::UnexpectedToken, at: (p + 2) as u32 },
                            ),
                        };
                        match exprres {
                            Err(d) => Err(d),
                            Ok(expr) => {
                                let q = p + 3;
                                let optional = 0 <= q < n && tokens[q] is Question;
                                let p2 = if optional {
                                    q + 1
                                } else {
                                    q
                                };
                                if attrs.bind {
                                    Ok(
                                        (
                                            SpecProperty::Bind(
                                                BindProperty {
                                                    target: id,
                                                    expr,
                                                    chain: attrs.chain,
                                                },
                                            ),
                                            p2,
                                            fresh,
                                        ),
                                    )
                                } else {
                                    let attr = if attrs.watch {
                                        AssignAttr::Watch
                                    } else {
                                        match attrs.track {
                                            Some(t) => AssignAttr::Track(t),
                                            None => AssignAttr::Once,
                                        }
                                    };
                                    Ok(
                                        (
                                            SpecProperty::Assign(
                                                AssignProperty {
                                                    target: id,
                                                    expr,
                                                    optional,
                                                    attr,
                                                    block_signal: attrs.block_signal,
                                                    chain: attrs.chain,
                                                },
                                            ),
                                            p2,
                                            fresh,
                                        ),
                                    )
                                }
                            },
                        }
                    }
                } else if p + 1 < n && tokens[p + 1] is FatArrow {
                    if p + 2 >= n {
                        Err(Diagnostic { kind: DiagKind::UnexpectedEnd, at: (p + 2) as u32 })
                    } else {
                        match tokens[p + 2] {
                            Token::Expr(closure) => {
                                let q = p + 3;
                                if 0 <= q < n && tokens[q] is At {
                                    if q + 1 >= n {
                                        Err(
                                            Diagnostic {
                                                kind: DiagKind::UnexpectedEnd,
                                                at: (q + 1) as u32,
                                            },
                                        )
                                    } else {
                                        match tokens[q + 1] {
                                            Token::Ident(h) => Ok(
                                                (
                                                    SpecProperty::Signal(
                                                        SignalProperty {
                                                            signal: id,
                                                            closure,
                                                            handler_name: Some(h),
                                                        },
                                                    ),
                                                    q + 2,
                                                    fresh,
                                                ),
                                            ),
                                            _ => Err(
                                                Diagnostic {
                                                    kind: DiagKind::UnexpectedToken,
                                                    at: (q + 1) as u32,
                                                },
                                            ),
                                        }
                                    }
                                } else {
                                    Ok(
                                        (
                                            SpecProperty::Signal(
                                                SignalProperty {
                                                    signal: id,
                                                    closure,
                                                    handler_name: None,
                                                },
                                            ),
                                            q,
                                            fresh,
                                        ),
                                    )
                                }
                            },
                            _ => Err(
                                Diagnostic { kind: DiagKind::UnexpectedToken, at: (p + 2) as u32 },
                            ),
                        }
                    }
                } else if p + 1 < n && tokens[p + 1] is Eq {
                    if p + 2 >= n {
                        Err(Diagnostic { kind: DiagKind::UnexpectedEnd, at: (p + 2) as u32 })
                    } else {
                        match tokens[p + 2] {
                            Token::KwIf | Token::KwMatch => match spec_parse_conditional(
                                tokens,
                                pos,
                                p + 2,
                                attrs,
                                fresh,
                                Some(id),
                            ) {
                                Err(d) => Err(d),
                                Ok((gc, p2, f2)) => Ok((SpecProperty::Cond(gc), p2, f2)),
                            },
                            _ => match spec_parse_widget_after_attrs(
                                tokens,
                                pos,
                                p + 2,
                                attrs,
                                fresh,
                                Some(id),
                            ) {
                                Err(d) => Err(d),
                                Ok((gw, p2, f2)) => Ok((SpecProperty::Widget(gw), p2, f2)),
                            },
                        }
                    }
                } else if attrs.local || attrs.local_ref {
                    match spec_parse_widget_after_attrs(tokens, pos, p, attrs, fresh, None) {
                        Err(d) => Err(d),
                        Ok((gw, p2, f2)) => Ok((SpecProperty::Widget(gw), p2, f2)),
                    }
                } else {
                    Err(Diagnostic { kind: DiagKind::UnexpectedToken, at: p as u32 })
                }
            },
            _ => Err(Diagnostic { kind: DiagKind::UnexpectedToken, at: p as u32 }),
        }
    }
}

/// A conditional widget.
pub open spec fn spec_parse_conditional(
    tokens: Seq<Token>,
    start: int,
    pos: int,
    attrs: AttrSet,
    fresh: u32,
    named: Option<u32>,
) -> Result<(SpecCond, int, u32), Diagnostic>
    decreases tokens.len() - pos, 5int,
{
    let n = tokens.len() as int;
    if !(0 <= pos < n) {
        Err(Diagnostic { kind: DiagKind::UnexpectedEnd, at: pos as u32 })
    } else {
        let explicit = if named is Some {
            named
        } else {
            attrs.name
        };
        match spec_pick_name(explicit, fresh) {
            Err(d) => Err(d),
            Ok((name, name_explicit, fresh0)) => match tokens[pos] {
                Token::KwIf => match spec_parse_if_chain(tokens, pos, fresh0, Seq::empty()) {
                    Err(d) => Err(d),
                    Ok((gbs, p2, f2)) => Ok(
                        (
                            SpecCond {
                                name,
                                name_explicit,
                                transition: attrs.transition,
                                branches: SpecBranches::If(gbs),
                            },
                            p2,
                            f2,
                        ),
                    ),
                },
                Token::KwMatch => {
                    if pos + 1 >= n {
                        Err(Diagnostic { kind: DiagKind::UnexpectedEnd, at: (pos + 1) as u32 })
                    } else {
                        match tokens[pos + 1] {
                            Token::Expr(scrutinee) => {
                                if pos + 2 >= n || !(tokens[pos + 2] is OpenBrace) {
                                    Err(
                                        Diagnostic {
                                            kind: DiagKind::UnexpectedToken,
                                            at: (pos + 2) as u32,
                                        },
                                    )
                                } else {
                                    match spec_parse_arms(tokens, pos + 3, fresh0, Seq::empty()) {
                                        Err(d) => Err(d),
                                        Ok((garms, p2, f2)) => Ok(
                                            (
                                                SpecCond {
                                                    name,
                                                    name_explicit,
                                                    transition: attrs.transition,
                                                    branches: SpecBranches::Match(
                                                        scrutinee,
                                                        garms,
                                                    ),
                                                },
                                                p2,
                                                f2,
                                            ),
                                        ),
                                    }
                                }
                            },
                            _ => Err(
                                Diagnostic {
                                    kind: DiagKind::UnexpectedToken,
                                    at: (pos + 1) as u32,
                                },
                            ),
                        }
                    }
                },
                _ => Err(Diagnostic { kind: DiagKind::UnexpectedToken, at: pos as u32 }),
            },
        }
    }
}


/// Unfolding of the conditional parser on an if-chain head.
pub proof fn lemma_spec_parse_conditional_if(
    tokens: Seq<Token>,
    start: int,
    pos: int,
    attrs: AttrSet,
    fresh: u32,
    named: Option<u32>,
    name: u32,
    name_explicit: bool,
    fresh0: u32,
    gbs: Seq<SpecIfBranch>,
    p2: int,
    f2: u32,
)
    requires
        0 <= pos,
        pos < tokens.len(),
        tokens[pos] is KwIf,
        spec_pick_name(
            if named is Some {
                named
            } else {
                attrs.name
            },
            fresh,
        ) == Ok::<(u32, bool, u32), Diagnostic>((name, name_explicit, fresh0)),
        spec_parse_if_chain(tokens, pos, fresh0, Seq::empty()) == Ok::<
            (Seq<SpecIfBranch>, int, u32),
            Diagnostic,
        >((gbs, p2, f2)),
    ensures
        spec_parse_conditional(tokens, start, pos, attrs, fresh, named) == Ok::<
            (SpecCond, int, u32),
            Diagnostic,
        >(
            (
                SpecCond {
                    name,
                    name_explicit,
                    transition: attrs.transition,
                    branches: SpecBranches::If(gbs),
                },
                p2,
                f2,
            ),
        ),
{
    reveal(spec_parse_if_chain);
}

/// One branch of an if/else-if chain, then the rest; the final branch
/// must be the `else`.
#[verifier::opaque]
pub open spec fn spec_parse_if_chain(
    tokens: Seq<Token>,
    pos: int,
    fresh: u32,
    acc: Seq<SpecIfBranch>,
) -> Result<(Seq<SpecIfBranch>, int, u32), Diagnostic>
    decreases tokens.len() - pos, 4int,
{
    let n = tokens.len() as int;
    let condres: Result<(Option<u32>, int), Diagnostic> = if 0 <= pos < n && tokens[pos] is KwIf {
        if pos + 1 >= n {
            Err(Diagnostic { kind: DiagKind::UnexpectedEnd, at: (pos + 1) as u32 })
        } else {
            match tokens[pos + 1] {
                Token::Expr(e) => Ok((Some(e), pos + 2)),
                _ => Err(Diagnostic { kind: DiagKind::UnexpectedToken, at: (pos + 1) as u32 }),
            }
        }
    } else {
        Ok((None, pos))
    };
    match condres {
        Err(d) => Err(d),
        Ok((cond, pc)) => {
            if !(0 <= pc < n) || !(tokens[pc] is OpenBrace) {
                Err(Diagnostic { kind: DiagKind::UnexpectedToken, at: pc as u32 })
            } else {
                match spec_parse_widget(tokens, pc + 1, fresh) {
                    Err(d) => Err(d),
                    Ok((gw, p2, f2)) => {
                        if !(0 <= p2 < n) || !(tokens[p2] is CloseBrace) {
                            Err(Diagnostic { kind: DiagKind::UnexpectedEnd, at: p2 as u32 })
                        } else {
                            let acc2 = acc.push(SpecIfBranch { cond, widget: gw });
                            if cond is None {
                                Ok((acc2, p2 + 1, f2))
                            } else {
                                if p2 + 1 < n && tokens[p2 + 1] is KwElse {
                                    spec_parse_if_chain(
                                        tokens,
                                        clamp_pos(pos + 1, p2 + 2, n),
                                        f2,
                                        acc2,
                                    )
                                } else {
                                    Err(
                                        Diagnostic {
                                            kind: DiagKind::IncompleteBranches,
                                            at: (p2 + 1) as u32,
                                        },
                                    )
                                }
                            }
                        }
                    },
                }
            }
        },
    }
}

/// The arms of a match, up to the closing brace; at least one arm.
#[verifier::opaque]
pub open spec fn spec_parse_arms(
    tokens: Seq<Token>,
    pos: int,
    fresh: u32,
    acc: Seq<SpecArm>,
) -> Result<(Seq<SpecArm>, int, u32), Diagnostic>
    decreases tokens.len() - pos, 4int,
{
    let n = tokens.len() as int;
    if !(0 <= pos < n) {
        Err(Diagnostic { kind: DiagKind::UnexpectedEnd, at: pos as u32 })
    } else if tokens[pos] is CloseBrace {
        if acc.len() == 0 {
            Err(Diagnostic { kind: DiagKind::IncompleteBranches, at: pos as u32 })
        } else {
            Ok((acc, pos + 1, fresh))
        }
    } else {
        match tokens[pos] {
            Token::Expr(pattern) => {
                if pos + 1 >= n || !(tokens[pos + 1] is FatArrow) {
                    Err(Diagnostic { kind: DiagKind::UnexpectedToken, at: (pos + 1) as u32 })
                } else if pos + 2 >= n || !(tokens[pos + 2] is OpenBrace) {
                    Err(Diagnostic { kind: DiagKind::UnexpectedToken, at: (pos + 2) as u32 })
                } else {
                    match spec_parse_widget(tokens, pos + 3, fresh) {
                        Err(d) => Err(d),
                        Ok((gw, p2, f2)) => {
                            if !(0 <= p2 < n) || !(tokens[p2] is CloseBrace) {
                                Err(Diagnostic { kind: DiagKind::UnexpectedEnd, at: p2 as u32 })
                            } else {
                                let p3 = p2 + 1;
                                let p4 = if 0 <= p3 < n && tokens[p3] is Comma {
                                    p3 + 1
                                } else {
                                    p3
                                };
                                spec_parse_arms(
                                    tokens,
                                    clamp_pos(pos + 1, p4, n),
                                    f2,
                                    acc.push(SpecArm { pattern, widget: gw }),
                                )
                            }
                        },
                    }
                }
            },
            _ => Err(Diagnostic { kind: DiagKind::UnexpectedToken, at: pos as u32 }),
        }
    }
}

/// The component's top-level trees, comma-separated, to the end of the
/// tokens; at least one tree.
#[verifier::opaque]
pub open spec fn spec_parse_component(tokens: Seq<Token>, pos: int, fresh: u32, acc: Seq<SpecWidget>) -> Result<
    (Seq<SpecWidget>, u32),
    Diagnostic,
>
    decreases tokens.len() - pos, 30int,
{
    let n = tokens.len() as int;
    if !(0 <= pos < n) {
        if acc.len() == 0 {
            Err(Diagnostic { kind: DiagKind::EmptyComponent, at: 0 })
        } else {
            Ok((acc, fresh))
        }
    } else {
        match spec_parse_widget(tokens, pos, fresh) {
            Err(d) => Err(d),
            Ok((gw, p2, f2)) => {
                let p3 = if 0 <= p2 < n && tokens[p2] is Comma {
                    p2 + 1
                } else {
                    p2
                };
                spec_parse_component(tokens, clamp_pos(pos + 1, p3, n), f2, acc.push(gw))
            },
        }
    }
}


/// The mathematical value of each parse result.
pub open spec fn abs_widget_res(r: Result<(Widget, usize, u32), Diagnostic>) -> Result<
    (SpecWidget, int, u32),
    Diagnostic,
> {
    match r {
        Ok((w, p, f)) => Ok((abs_widget(w), p as int, f)),
        Err(d) => Err(d),
    }
}

pub open spec fn abs_prop_res(r: Result<(Property, usize, u32), Diagnostic>) -> Result<
    (SpecProperty, int, u32),
    Diagnostic,
> {
    match r {
        Ok((p0, p, f)) => Ok((abs_prop(p0), p as int, f)),
        Err(d) => Err(d),
    }
}

pub open spec fn abs_block_res(r: Result<(Properties, usize, u32), Diagnostic>) -> Result<
    (Seq<SpecProperty>, int, u32),
    Diagnostic,
> {
    match r {
        Ok((ps, p, f)) => Ok((abs_props(ps.properties@), p as int, f)),
        Err(d) => Err(d),
    }
}

pub open spec fn abs_cond_res(r: Result<(ConditionalWidget, usize, u32), Diagnostic>) -> Result<
    (SpecCond, int, u32),
    Diagnostic,
> {
    match r {
        Ok((c, p, f)) => Ok((abs_cond(c), p as int, f)),
        Err(d) => Err(d),
    }
}

/// Collect the attribute tokens preceding a widget or property.
fn parse_attrs(tokens: &Vec<Token>, pos: usize) -> (r: (AttrSet, usize))
    requires
        pos <= tokens@.len(),
    ensures
        pos <= r.1 <= tokens@.len(),
        (r.0, r.1 as int) == spec_parse_attrs(tokens@, pos as int, attrs_empty()),
{
    let mut attrs = AttrSet::empty();
    let mut p = pos;
    let n = tokens.len();
    while p < n
        invariant
            pos <= p <= n,
            n == tokens@.len(),
            spec_parse_attrs(tokens@, p as int, attrs) == spec_parse_attrs(
                tokens@,
                pos as int,
                attrs_empty(),
            ),
        decreases n - p,
    {
        match tokens[p] {
            Token::AttrWatch => {
                attrs.watch = true;
            },
            Token::AttrTrack(e) => {
                attrs.track = Some(e);
            },
            Token::AttrBlockSignal(g) => {
                attrs.block_signal = Some(g);
            },
            Token::AttrName(nm) => {
                attrs.name = Some(nm);
            },
            Token::AttrRoot => {
                attrs.root = true;
            },
            Token::AttrTransition(t) => {
                attrs.transition = Some(t);
            },
            Token::AttrLocal => {
                attrs.local = true;
            },
            Token::AttrLocalRef => {
                attrs.local_ref = true;
            },
            Token::AttrChain(c) => {
                attrs.chain = Some(c);
            },
            Token::AttrTemplate => {
                attrs.template = true;
            },
            Token::AttrBind => {
                attrs.bind = true;
            },
            _ => {
                return (attrs, p);
            },
        }
        p = p + 1;
    }
    (attrs, p)
}

/// A synthesized or user-supplied widget name, and the counter after it.
fn pick_name(explicit: Option<u32>, fresh: u32) -> (r: Result<(u32, bool, u32), Diagnostic>)
    ensures
        r matches Ok(v) ==> v.2 >= fresh,
        r == spec_pick_name(explicit, fresh),
{
    match explicit {
        Some(n) => Ok((n, true, fresh)),
        None => {
            if fresh == u32::MAX {
                Err(Diagnostic { kind: DiagKind::TooManyWidgets, at: fresh })
            } else {
                Ok((fresh, false, fresh + 1))
            }
        },
    }
}

/// A widget construction after its attributes: `[mut] [name =] [&] Path
/// [args | builder chain | ()] [{ properties }]`, or a pre-bound widget
/// `[mut] name [-> Type] [{ properties }]`.
#[verifier::rlimit(100)]
#[verifier::spinoff_prover]
pub fn parse_widget(tokens: &Vec<Token>, pos: usize, fresh: u32) -> (r: Result<
    (Widget, usize, u32),
    Diagnostic,
>)
    requires
        pos <= tokens@.len(),
    ensures
        r matches Ok(v) ==> pos < v.1 <= tokens@.len() && wf_widget(v.0) && v.2 >= fresh,
        abs_widget_res(r) == spec_parse_widget(tokens@, pos as int, fresh),
    decreases tokens@.len() - pos, 10int,
{
    let (attrs, p) = parse_attrs(tokens, pos);
    proof {
        assert(clamp_pos(pos as int, p as int, tokens@.len() as int) == p as int);
        assert(spec_parse_widget(tokens@, pos as int, fresh) == spec_parse_widget_after_attrs(
            tokens@,
            pos as int,
            p as int,
            attrs,
            fresh,
            None,
        ));
    }
    parse_widget_after_attrs(tokens, pos, p, attrs, fresh, None)
}

/// The widget forms after the attribute list.  `named` carries a name
/// bound by an enclosing `name = ...`.
#[verifier::rlimit(100)]
#[verifier::spinoff_prover]
fn parse_widget_after_attrs(
    tokens: &Vec<Token>,
    start: usize,
    pos: usize,
    attrs: AttrSet,
    fresh: u32,
    named: Option<u32>,
) -> (r: Result<(Widget, usize, u32), Diagnostic>)
    requires
        start <= pos <= tokens@.len(),
    ensures
        r matches Ok(v) ==> start < v.1 <= tokens@.len() && wf_widget(v.0) && v.2 >= fresh,
        abs_widget_res(r) == spec_parse_widget_after_attrs(
            tokens@,
            start as int,
            pos as int,
            attrs,
            fresh,
            named,
        ),
    decreases tokens@.len() - pos, 9int,
{
    proof {
        reveal(spec_parse_widget_after_attrs);
    }
    let n = tokens.len();
    let mut p = pos;
    let mut mutable = false;
    if p < n && matches!(tokens[p], Token::KwMut) {
        mutable = true;
        p = p + 1;
    }
    if attrs.local || attrs.local_ref {
        // Pre-bound: the name refers to an outside binding.
        if p >= n {
            return Err(Diagnostic { kind: DiagKind::UnexpectedEnd, at: p as u32 });
        }
        let name = match tokens[p] {
            Token::Ident(id) => id,
            _ => {
                return Err(Diagnostic { kind: DiagKind::UnexpectedToken, at: p as u32 });
            },
        };
        p = p + 1;
        let mut ty: Option<u32> = None;
        if p < n && matches!(tokens[p], Token::Arrow) {
            if p + 1 >= n {
                return Err(Diagnostic { kind: DiagKind::UnexpectedEnd, at: (p + 1) as u32 });
            }
            match tokens[p + 1] {
                Token::Path(t) => {
                    ty = Some(t);
                    p = p + 2;
                },
                _ => {
                    return Err(Diagnostic { kind: DiagKind::UnexpectedToken, at: (p + 1) as u32 });
                },
            }
        }
        let (props, p2, fresh2) = match parse_block_opt(tokens, p, fresh) {
            Ok(v) => v,
            Err(d) => {
                return Err(d);
            },
        };
        let w = Widget {
            name,
            name_explicit: true,
            mutable,
            attr: if attrs.local {
                WidgetAttr::Local
            } else {
                WidgetAttr::LocalRef
            },
            uses_template: attrs.template,
            func: WidgetFunc { path: 0, ty, args: None, kind: FuncKind::Block },
            properties: props,
        };
        return Ok((w, p2, fresh2));
    }
    // Constructed widget: optional `&`, then the path.
    if p < n && matches!(tokens[p], Token::Amp) {
        p = p + 1;
    }
    if p >= n {
        return Err(Diagnostic { kind: DiagKind::UnexpectedEnd, at: p as u32 });
    }
    let path = match tokens[p] {
        Token::Path(id) => id,
        _ => {
            return Err(Diagnostic { kind: DiagKind::UnexpectedToken, at: p as u32 });
        },
    };
    p = p + 1;
    let mut args: Option<u32> = None;
    let mut kind = FuncKind::Block;
    if p < n {
        match tokens[p] {
            Token::Unit => {
                kind = FuncKind::Constructor;
                p = p + 1;
            },
            Token::Expr(e) => {
                kind = FuncKind::Constructor;
                args = Some(e);
                p = p + 1;
            },
            Token::BuilderChain(e) => {
                kind = FuncKind::Builder;
                args = Some(e);
                p = p + 1;
            },
            _ => {},
        }
    }
    let (props, p2, fresh2) = match parse_block_opt(tokens, p, fresh) {
        Ok(v) => v,
        Err(d) => {
            return Err(d);
        },
    };
    let explicit = match named {
        Some(nm) => Some(nm),
        None => attrs.name,
    };
    let (name, name_explicit, fresh3) = match pick_name(explicit, fresh2) {
        Ok(v) => v,
        Err(d) => {
            return Err(d);
        },
    };
    let w = Widget {
        name,
        name_explicit,
        mutable,
        attr: WidgetAttr::Constructed,
        uses_template: attrs.template,
        func: WidgetFunc { path, ty: None, args, kind },
        properties: props,
    };
    if p2 > start {
        Ok((w, p2, fresh3))
    } else {
        Err(Diagnostic { kind: DiagKind::UnexpectedEnd, at: p2 as u32 })
    }
}

/// `{ properties }` if an opening brace follows, else an empty scope.
#[verifier::rlimit(100)]
#[verifier::spinoff_prover]
fn parse_block_opt(tokens: &Vec<Token>, pos: usize, fresh: u32) -> (r: Result<
    (Properties, usize, u32),
    Diagnostic,
>)
    requires
        pos <= tokens@.len(),
    ensures
        r matches Ok(v) ==> pos <= v.1 <= tokens@.len() && wf_props(v.0.properties@) && v.2
            >= fresh,
        abs_block_res(r) == spec_parse_block_opt(tokens@, pos as int, fresh),
    decreases tokens@.len() - pos, 8int,
{
    proof {
        reveal(spec_parse_block_opt);
    }
    let n = tokens.len();
    if pos < n && matches!(tokens[pos], Token::OpenBrace) {
        let (props, p2, fresh2) = match parse_properties(tokens, pos + 1, fresh) {
            Ok(v) => v,
            Err(d) => {
                return Err(d);
            },
        };
        if p2 < n && matches!(tokens[p2], Token::CloseBrace) {
            Ok((props, p2 + 1, fresh2))
        } else {
            Err(Diagnostic { kind: DiagKind::UnexpectedEnd, at: p2 as u32 })
        }
    } else {
        let props = Properties { properties: Vec::new() };
        proof {
            assert(props.properties@ =~= Seq::<Property>::empty());
        }
        Ok((props, pos, fresh))
    }
}

/// The properties of one scope, up to the closing brace.
#[verifier::rlimit(100)]
#[verifier::spinoff_prover]
fn parse_properties(tokens: &Vec<Token>, pos: usize, fresh: u32) -> (r: Result<
    (Properties, usize, u32),
    Diagnostic,
>)
    requires
        pos <= tokens@.len(),
    ensures
        r matches Ok(v) ==> pos <= v.1 <= tokens@.len() && wf_props(v.0.properties@) && v.2
            >= fresh,
        abs_block_res(r) == spec_parse_properties(tokens@, pos as int, fresh, Seq::empty()),
    decreases tokens@.len() - pos, 20int,
{
    let n = tokens.len();
    let mut p = pos;
    let mut f = fresh;
    let mut props: Vec<Property> = Vec::new();
    proof {
        reveal(spec_parse_properties);
        assert(props@ =~= Seq::<Property>::empty());
        assert(abs_props(props@) =~= Seq::<SpecProperty>::empty());
    }
    while p < n && !matches!(tokens[p], Token::CloseBrace)
        invariant
            pos <= p <= n,
            n == tokens@.len(),
            f >= fresh,
            wf_props(props@),
            spec_parse_properties(tokens@, p as int, f, abs_props(props@))
                == spec_parse_properties(tokens@, pos as int, fresh, Seq::empty()),
        decreases n - p,
    {
        let ghost p_at: int = p as int;
        let ghost f_at = f;
        let ghost acc_at = abs_props(props@);
        let (prop, p2, f2) = match parse_property(tokens, p, f) {
            Ok(v) => v,
            Err(d) => {
                proof {
                    reveal(spec_parse_properties);
                    assert(spec_parse_properties(tokens@, p_at, f_at, acc_at) == Err::<
                        (Seq<SpecProperty>, int, u32),
                        Diagnostic,
                    >(d));
                }
                return Err(d);
            },
        };
        proof {
            lemma_wf_props_push(props@, prop);
            lemma_abs_props_push(props@, prop);
        }
        props.push(prop);
        p = p2;
        f = f2;
        if p < n && matches!(tokens[p], Token::Comma) {
            p = p + 1;
        }
        proof {
            reveal(spec_parse_properties);
            assert(clamp_pos(p_at + 1, p as int, n as int) == p as int);
            assert(spec_parse_properties(tokens@, p as int, f, abs_props(props@))
                == spec_parse_properties(tokens@, p_at, f_at, acc_at));
        }
    }
    proof {
        reveal(spec_parse_properties);
    }
    Ok((Properties { properties: props }, p, f))
}

/// One property: an assignment, a binding, a signal connection, a child
/// widget, or a conditional widget.
#[verifier::rlimit(100)]
#[verifier::spinoff_prover]
fn parse_property(tokens: &Vec<Token>, pos: usize, fresh: u32) -> (r: Result<
    (Property, usize, u32),
    Diagnostic,
>)
    requires
        pos <= tokens@.len(),
    ensures
        r matches Ok(v) ==> pos < v.1 <= tokens@.len() && wf_prop(v.0) && v.2 >= fresh,
        abs_prop_res(r) == spec_parse_property(tokens@, pos as int, fresh),
    decreases tokens@.len() - pos, 19int,
{
    let n = tokens.len();
    let (attrs, p) = parse_attrs(tokens, pos);
    proof {
        reveal(spec_parse_property);
        assert(clamp_pos(pos as int, p as int, tokens@.len() as int) == p as int);
    }
    if p >= n {
        return Err(Diagnostic { kind: DiagKind::UnexpectedEnd, at: p as u32 });
    }
    match tokens[p] {
        Token::KwIf | Token::KwMatch => {
            let (c, p2, f2) = match parse_conditional(tokens, pos, p, &attrs, fresh, None) {
                Ok(v) => v,
                Err(d) => {
                    return Err(d);
                },
            };
            Ok((Property { ty: PropertyType::ConditionalWidget(c) }, p2, f2))
        },
        Token::KwMut | Token::Amp | Token::Path(_) => {
            let (w, p2, f2) = match parse_widget_after_attrs(tokens, pos, p, attrs, fresh, None) {
                Ok(v) => v,
                Err(d) => {
                    return Err(d);
                },
            };
            Ok((Property { ty: PropertyType::Widget(w) }, p2, f2))
        },
        Token::Ident(id) => {
            if p + 1 < n && matches!(tokens[p + 1], Token::Colon) {
                // target: argument, a plain assignment or a binding link.
                if p + 2 >= n {
                    return Err(Diagnostic { kind: DiagKind::UnexpectedEnd, at: (p + 2) as u32 });
                }
                let expr = match tokens[p + 2] {
                    Token::Expr(e) => e,
                    Token::Unit => 0,
                    _ => {
                        return Err(
                            Diagnostic { kind: DiagKind::UnexpectedToken, at: (p + 2) as u32 },
                        );
                    },
                };
                let mut p2 = p + 3;
                let mut optional = false;
                if p2 < n && matches!(tokens[p2], Token::Question) {
                    optional = true;
                    p2 = p2 + 1;
                }
                if attrs.bind {
                    let prop = Property {
                        ty: PropertyType::Bind(
                            BindProperty { target: id, expr, chain: attrs.chain },
                        ),
                    };
                    Ok((prop, p2, fresh))
                } else {
                    // When both refresh modifiers are declared, the
                    // unconditional one wins.
                    let attr = if attrs.watch {
                        AssignAttr::Watch
                    } else {
                        match attrs.track {
                            Some(t) => AssignAttr::Track(t),
                            None => AssignAttr::Once,
                        }
                    };
                    let prop = Property {
                        ty: PropertyType::Assign(
                            AssignProperty {
                                target: id,
                                expr,
                                optional,
                                attr,
                                block_signal: attrs.block_signal,
                                chain: attrs.chain,
                            },
                        ),
                    };
                    Ok((prop, p2, fresh))
                }
            } else if p + 1 < n && matches!(tokens[p + 1], Token::FatArrow) {
                // signal => body [@handler]
                if p + 2 >= n {
                    return Err(Diagnostic { kind: DiagKind::UnexpectedEnd, at: (p + 2) as u32 });
                }
                let closure = match tokens[p + 2] {
                    Token::Expr(e) => e,
                    _ => {
                        return Err(
                            Diagnostic { kind: DiagKind::UnexpectedToken, at: (p + 2) as u32 },
                        );
                    },
                };
                let mut p2 = p + 3;
                let mut handler: Option<u32> = None;
                if p2 < n && matches!(tokens[p2], Token::At) {
                    if p2 + 1 >= n {
                        return Err(
                            Diagnostic { kind: DiagKind::UnexpectedEnd, at: (p2 + 1) as u32 },
                        );
                    }
                    match tokens[p2 + 1] {
                        Token::Ident(h) => {
                            handler = Some(h);
                            p2 = p2 + 2;
                        },
                        _ => {
                            return Err(
                                Diagnostic { kind: DiagKind::UnexpectedToken, at: (p2 + 1) as u32 },
                            );
                        },
                    }
                }
                let prop = Property {
                    ty: PropertyType::Signal(
                        SignalProperty { signal: id, closure, handler_name: handler },
                    ),
                };
                Ok((prop, p2, fresh))
            } else if p + 1 < n && matches!(tokens[p + 1], Token::Eq) {
                // name = widget, or name = conditional
                if p + 2 >= n {
                    return Err(Diagnostic { kind: DiagKind::UnexpectedEnd, at: (p + 2) as u32 });
                }
                match tokens[p + 2] {
                    Token::KwIf | Token::KwMatch => {
                        let (c, p2, f2) = match parse_conditional(
                            tokens,
                            pos,
                            p + 2,
                            &attrs,
                            fresh,
                            Some(id),
                        ) {
                            Ok(v) => v,
                            Err(d) => {
                                return Err(d);
                            },
                        };
                        Ok((Property { ty: PropertyType::ConditionalWidget(c) }, p2, f2))
                    },
                    _ => {
                        let (w, p2, f2) = match parse_widget_after_attrs(
                            tokens,
                            pos,
                            p + 2,
                            attrs,
                            fresh,
                            Some(id),
                        ) {
                            Ok(v) => v,
                            Err(d) => {
                                return Err(d);
                            },
                        };
                        Ok((Property { ty: PropertyType::Widget(w) }, p2, f2))
                    },
                }
            } else if attrs.local || attrs.local_ref {
                let (w, p2, f2) = match parse_widget_after_attrs(tokens, pos, p, attrs, fresh, None)
                    {
                    Ok(v) => v,
                    Err(d) => {
                        return Err(d);
                    },
                };
                Ok((Property { ty: PropertyType::Widget(w) }, p2, f2))
            } else {
                Err(Diagnostic { kind: DiagKind::UnexpectedToken, at: p as u32 })
            }
        },
        _ => Err(Diagnostic { kind: DiagKind::UnexpectedToken, at: p as u32 }),
    }
}

/// `if cond { widget } else if .. { .. } else { widget }`, or
/// `match scrutinee { pat => { widget }, .. }`.
#[verifier::rlimit(100)]
#[verifier::spinoff_prover]
fn parse_conditional(
    tokens: &Vec<Token>,
    start: usize,
    pos: usize,
    attrs: &AttrSet,
    fresh: u32,
    named: Option<u32>,
) -> (r: Result<(ConditionalWidget, usize, u32), Diagnostic>)
    requires
        start <= pos <= tokens@.len(),
    ensures
        r matches Ok(v) ==> start < v.1 <= tokens@.len() && wf_cond(v.0) && v.2 >= fresh,
        abs_cond_res(r) == spec_parse_conditional(
            tokens@,
            start as int,
            pos as int,
            *attrs,
            fresh,
            named,
        ),
    decreases tokens@.len() - pos, 5int,
{
    let n = tokens.len();
    if pos >= n {
        return Err(Diagnostic { kind: DiagKind::UnexpectedEnd, at: pos as u32 });
    }
    let explicit = match named {
        Some(nm) => Some(nm),
        None => attrs.name,
    };
    let (name, name_explicit, fresh0) = match pick_name(explicit, fresh) {
        Ok(v) => v,
        Err(d) => {
            return Err(d);
        },
    };
    match tokens[pos] {
        Token::KwIf => {
            let mut branches: Vec<IfBranch> = Vec::new();
            proof {
                assert(branches@ =~= Seq::<IfBranch>::empty());
                assert(abs_if_branches(branches@) =~= Seq::<SpecIfBranch>::empty());
            }
            let mut p = pos;
            let mut f = fresh0;
            let mut done = false;
            while !done
                invariant
                    start <= pos <= p <= n,
                    n == tokens@.len(),
                    pos < n,
                    tokens@[pos as int] is KwIf,
                    spec_pick_name(
                        if named is Some {
                            named
                        } else {
                            attrs.name
                        },
                        fresh,
                    ) == Ok::<(u32, bool, u32), Diagnostic>((name, name_explicit, fresh0)),
                    f >= fresh,
                    wf_if_branches(branches@),
                    forall|i: int|
                        0 <= i < branches@.len() - 1 ==> (#[trigger] branches@[i].cond) is Some,
                    !done ==> branches@.len() == 0 || branches@[branches@.len() - 1].cond is Some,
                    done ==> branches@.len() > 0 && branches@[branches@.len() - 1].cond is None
                        && p > start,
                    !done ==> spec_parse_if_chain(tokens@, p as int, f, abs_if_branches(branches@))
                        == spec_parse_if_chain(tokens@, pos as int, fresh0, Seq::empty()),
                    done ==> spec_parse_if_chain(tokens@, pos as int, fresh0, Seq::empty()) == Ok::<
                        (Seq<SpecIfBranch>, int, u32),
                        Diagnostic,
                    >((abs_if_branches(branches@), p as int, f)),
                decreases n - p,
            {
                proof {
                    reveal(spec_parse_if_chain);
                }
                let ghost p_at: int = p as int;
                let ghost f_at = f;
                let ghost acc_at = abs_if_branches(branches@);
                // `if cond { widget }` or the final `else { widget }`.
                let cond: Option<u32>;
                if p < n && matches!(tokens[p], Token::KwIf) {
                    if p + 1 >= n {
                        return Err(
                            Diagnostic { kind: DiagKind::UnexpectedEnd, at: (p + 1) as u32 },
                        );
                    }
                    match tokens[p + 1] {
                        Token::Expr(e) => {
                            cond = Some(e);
                        },
                        _ => {
                            return Err(
                                Diagnostic { kind: DiagKind::UnexpectedToken, at: (p + 1) as u32 },
                            );
                        },
                    }
                    p = p + 2;
                } else {
                    cond = None;
                }
                if p >= n || !matches!(tokens[p], Token::OpenBrace) {
                    return Err(Diagnostic { kind: DiagKind::UnexpectedToken, at: p as u32 });
                }
                let (w, p2, f2) = match parse_widget(tokens, p + 1, f) {
                    Ok(v) => v,
                    Err(d) => {
                        return Err(d);
                    },
                };
                if p2 >= n || !matches!(tokens[p2], Token::CloseBrace) {
                    return Err(Diagnostic { kind: DiagKind::UnexpectedEnd, at: p2 as u32 });
                }
                proof {
                    lemma_wf_if_push(branches@, IfBranch { cond, widget: w });
                    lemma_abs_if_push(branches@, IfBranch { cond, widget: w });
                }
                let got_else = cond.is_none();
                branches.push(IfBranch { cond, widget: w });
                p = p2 + 1;
                f = f2;
                if got_else {
                    done = true;
                } else {
                    // An if-chain must end in `else`: every branch but the
                    // last carries a condition.
                    if p < n && matches!(tokens[p], Token::KwElse) {
                        p = p + 1;
                        proof {
                            assert(clamp_pos(p_at + 1, p as int, n as int) == p as int);
                            assert(spec_parse_if_chain(
                                tokens@,
                                p as int,
                                f,
                                abs_if_branches(branches@),
                            ) == spec_parse_if_chain(tokens@, p_at, f_at, acc_at));
                        }
                    } else {
                        return Err(
                            Diagnostic { kind: DiagKind::IncompleteBranches, at: p as u32 },
                        );
                    }
                }
            }
            proof {
                reveal(spec_parse_conditional);
                assert(branches@.len() > 0);
                assert(branches@[branches@.len() - 1].cond is None);
                assert(wf_branches(ConditionalBranches::If(branches)));
            }
            let c = ConditionalWidget {
                name,
                name_explicit,
                transition: attrs.transition,
                branches: ConditionalBranches::If(branches),
            };
            proof {
                assert(spec_parse_if_chain(tokens@, pos as int, fresh0, Seq::empty()) == Ok::<
                    (Seq<SpecIfBranch>, int, u32),
                    Diagnostic,
                >((abs_if_branches(branches@), p as int, f)));
                assert(abs_cond(c) == SpecCond {
                    name,
                    name_explicit,
                    transition: attrs.transition,
                    branches: SpecBranches::If(abs_if_branches(branches@)),
                });
                lemma_spec_parse_conditional_if(
                    tokens@,
                    start as int,
                    pos as int,
                    *attrs,
                    fresh,
                    named,
                    name,
                    name_explicit,
                    fresh0,
                    abs_if_branches(branches@),
                    p as int,
                    f,
                );
            }
            Ok((c, p, f))
        },
        Token::KwMatch => {
            if pos + 1 >= n {
                return Err(Diagnostic { kind: DiagKind::UnexpectedEnd, at: (pos + 1) as u32 });
            }
            let scrutinee = match tokens[pos + 1] {
                Token::Expr(e) => e,
                _ => {
                    return Err(
                        Diagnostic { kind: DiagKind::UnexpectedToken, at: (pos + 1) as u32 },
                    );
                },
            };
            if pos + 2 >= n || !matches!(tokens[pos + 2], Token::OpenBrace) {
                return Err(Diagnostic { kind: DiagKind::UnexpectedToken, at: (pos + 2) as u32 });
            }
            let mut arms: Vec<MatchArm> = Vec::new();
            proof {
                assert(arms@ =~= Seq::<MatchArm>::empty());
                assert(abs_arms(arms@) =~= Seq::<SpecArm>::empty());
            }
            let mut p = pos + 3;
            let mut f = fresh0;
            while p < n && !matches!(tokens[p], Token::CloseBrace)
                invariant
                    start <= pos,
                    pos + 3 <= p <= n,
                    n == tokens@.len(),
                    tokens@[pos as int] is KwMatch,
                    tokens@[pos as int + 1] == Token::Expr(scrutinee),
                    tokens@[pos as int + 2] is OpenBrace,
                    spec_pick_name(
                        if named is Some {
                            named
                        } else {
                            attrs.name
                        },
                        fresh,
                    ) == Ok::<(u32, bool, u32), Diagnostic>((name, name_explicit, fresh0)),
                    f >= fresh,
                    wf_arms(arms@),
                    spec_parse_arms(tokens@, p as int, f, abs_arms(arms@)) == spec_parse_arms(
                        tokens@,
                        pos + 3,
                        fresh0,
                        Seq::empty(),
                    ),
                decreases n - p,
            {
                proof {
                    reveal(spec_parse_arms);
                }
                let ghost p_at: int = p as int;
                let ghost f_at = f;
                let ghost acc_at = abs_arms(arms@);
                // `pattern => { widget }`
                let pattern = match tokens[p] {
                    Token::Expr(e) => e,
                    _ => {
                        return Err(Diagnostic { kind: DiagKind::UnexpectedToken, at: p as u32 });
                    },
                };
                if p + 1 >= n || !matches!(tokens[p + 1], Token::FatArrow) {
                    return Err(Diagnostic { kind: DiagKind::UnexpectedToken, at: (p + 1) as u32 });
                }
                if p + 2 >= n || !matches!(tokens[p + 2], Token::OpenBrace) {
                    return Err(Diagnostic { kind: DiagKind::UnexpectedToken, at: (p + 2) as u32 });
                }
                let (w, p2, f2) = match parse_widget(tokens, p + 3, f) {
                    Ok(v) => v,
                    Err(d) => {
                        return Err(d);
                    },
                };
                if p2 >= n || !matches!(tokens[p2], Token::CloseBrace) {
                    return Err(Diagnostic { kind: DiagKind::UnexpectedEnd, at: p2 as u32 });
                }
                proof {
                    lemma_wf_arms_push(arms@, MatchArm { pattern, widget: w });
                    lemma_abs_arms_push(arms@, MatchArm { pattern, widget: w });
                }
                arms.push(MatchArm { pattern, widget: w });
                p = p2 + 1;
                f = f2;
                if p < n && matches!(tokens[p], Token::Comma) {
                    p = p + 1;
                }
                proof {
                    assert(clamp_pos(p_at + 1, p as int, n as int) == p as int);
                    assert(spec_parse_arms(tokens@, p as int, f, abs_arms(arms@))
                        == spec_parse_arms(tokens@, p_at, f_at, acc_at));
                }
            }
            proof {
                reveal(spec_parse_arms);
            }
            if p >= n {
                return Err(Diagnostic { kind: DiagKind::UnexpectedEnd, at: p as u32 });
            }
            if arms.len() == 0 {
                return Err(Diagnostic { kind: DiagKind::IncompleteBranches, at: p as u32 });
            }
            proof {
                assert(wf_branches(ConditionalBranches::Match(scrutinee, arms)));
            }
            let c = ConditionalWidget {
                name,
                name_explicit,
                transition: attrs.transition,
                branches: ConditionalBranches::Match(scrutinee, arms),
            };
            proof {
                reveal(spec_parse_arms);
                assert(spec_parse_arms(tokens@, p as int, f, abs_arms(arms@)) == Ok::<
                    (Seq<SpecArm>, int, u32),
                    Diagnostic,
                >((abs_arms(arms@), p as int + 1, f)));
                assert(abs_cond(c) == SpecCond {
                    name,
                    name_explicit,
                    transition: attrs.transition,
                    branches: SpecBranches::Match(scrutinee, abs_arms(arms@)),
                });
            }
            Ok((c, p + 1, f))
        },
        _ => Err(Diagnostic { kind: DiagKind::UnexpectedToken, at: pos as u32 }),
    }
}

/// One component's whole description: its top-level trees, separated by
/// commas; the first tree's root is the externally exposed root handle.
#[verifier::rlimit(100)]
#[verifier::spinoff_prover]
pub fn parse_component(tokens: &Vec<Token>, tracker_support: bool, fresh: u32) -> (r: Result<
    (Component, u32),
    Diagnostic,
>)
    ensures
        r matches Ok(v) ==> v.0.trees@.len() > 0 && v.1 >= fresh && v.0.tracker_support
            == tracker_support && forall|i: int|
            0 <= i < v.0.trees@.len() ==> wf_widget(#[trigger] v.0.trees@[i]),
        (match r {
            Ok(v) => Ok::<(Seq<SpecWidget>, u32), Diagnostic>((abs_trees(v.0.trees@), v.1)),
            Err(d) => Err(d),
        }) == spec_parse_component(tokens@, 0, fresh, Seq::empty()),
{
    let n = tokens.len();
    let mut trees: Vec<Widget> = Vec::new();
    let mut p: usize = 0;
    let mut f = fresh;
    proof {
        reveal(spec_parse_component);
        assert(abs_trees(trees@) =~= Seq::<SpecWidget>::empty());
    }
    while p < n
        invariant
            p <= n,
            n == tokens@.len(),
            f >= fresh,
            forall|i: int| 0 <= i < trees@.len() ==> wf_widget(#[trigger] trees@[i]),
            spec_parse_component(tokens@, p as int, f, abs_trees(trees@))
                == spec_parse_component(tokens@, 0, fresh, Seq::empty()),
        decreases n - p,
    {
        let ghost p_at: int = p as int;
        let ghost f_at = f;
        let ghost acc_at = abs_trees(trees@);
        let (w, p2, f2) = match parse_widget(tokens, p, f) {
            Ok(v) => v,
            Err(d) => {
                proof {
                    reveal(spec_parse_component);
                }
                return Err(d);
            },
        };
        proof {
            lemma_abs_trees_push(trees@, w);
        }
        trees.push(w);
        p = p2;
        f = f2;
        if p < n && matches!(tokens[p], Token::Comma) {
            p = p + 1;
        }
        proof {
            reveal(spec_parse_component);
            assert(clamp_pos(p_at + 1, p as int, n as int) == p as int);
            assert(spec_parse_component(tokens@, p as int, f, abs_trees(trees@))
                == spec_parse_component(tokens@, p_at, f_at, acc_at));
        }
    }
    proof {
        reveal(spec_parse_component);
    }
    if trees.len() == 0 {
        return Err(Diagnostic { kind: DiagKind::EmptyComponent, at: 0 });
    }
    Ok((Component { trees, tracker_support }, f))
}

} // verus!
