//! The semantic validator.  It walks the tree without changing its shape
//! and rejects, with a fatal diagnostic scoped to the affected component:
//! a conditional-refresh modifier when the model declares no change-
//! tracking support; a signal-suppression-guard name that matches no
//! previously declared signal connection in the same tree; a widget name
//! duplicated within its enclosing property scope; and a pre-bound widget
//! without an explicit name.  Whether a pre-bound name actually resolves
//! to a compatible value in the surrounding initializer cannot be seen
//! from here; that check is deferred, by documented contract, to the host
//! language's own resolution over the generated code.

use vstd::prelude::*;

use crate::ast::{
    AssignAttr, ConditionalBranches, ConditionalWidget, IfBranch, MatchArm, Properties, Property,
    PropertyType, Widget, WidgetAttr,
};
use crate::diag::{DiagKind, Diagnostic};

verus! {

/// What a validation walk yields: the first violation, if any, and the
/// signal-handler names declared up to where the walk stopped.
pub ghost struct Outcome {
    pub diag: Option<Diagnostic>,
    pub handlers: Seq<u32>,
}

/// The violation a single assignment property commits, if any.
pub open spec fn spec_check_assign(
    a: crate::ast::AssignProperty,
    tracker: bool,
    handlers: Seq<u32>,
) -> Option<Diagnostic> {
    if a.attr is Track && !tracker {
        Some(Diagnostic { kind: DiagKind::TrackWithoutTracker, at: a.target })
    } else if a.block_signal matches Some(g) && !handlers.contains(g) {
        Some(Diagnostic { kind: DiagKind::UnknownSignalGuard, at: a.block_signal->0 })
    } else {
        None
    }
}

/// Validation of a widget: a pre-bound widget must carry an explicit
/// name, then its properties are walked in declaration order.
pub open spec fn spec_validate_widget(w: Widget, tracker: bool, handlers: Seq<u32>) -> Outcome
    decreases w,
{
    if w.attr != WidgetAttr::Constructed && !w.name_explicit {
        Outcome {
            diag: Some(Diagnostic { kind: DiagKind::UnnamedPrebound, at: w.name }),
            handlers,
        }
    } else {
        spec_validate_props(w.properties.properties@, tracker, handlers, Seq::empty())
    }
}

/// Validation of one property scope, left to right.  `scope` carries the
/// widget names already declared directly in this scope.
pub open spec fn spec_validate_props(
    s: Seq<Property>,
    tracker: bool,
    handlers: Seq<u32>,
    scope: Seq<u32>,
) -> Outcome
    decreases s,
{
    if s.len() == 0 {
        Outcome { diag: None, handlers }
    } else {
        let head = spec_validate_prop(s[0], tracker, handlers, scope);
        if head.diag is Some {
            head
        } else {
            spec_validate_props(
                s.drop_first(),
                tracker,
                head.handlers,
                scope + declared_name(s[0]),
            )
        }
    }
}

/// The widget name a property declares directly in its enclosing scope.
pub open spec fn declared_name(p: Property) -> Seq<u32> {
    match p.ty {
        PropertyType::Widget(w) => seq![w.name],
        PropertyType::ConditionalWidget(c) => seq![c.name],
        _ => Seq::empty(),
    }
}

pub open spec fn spec_validate_prop(
    p: Property,
    tracker: bool,
    handlers: Seq<u32>,
    scope: Seq<u32>,
) -> Outcome
    decreases p,
{
    match p.ty {
        PropertyType::Assign(a) => Outcome {
            diag: spec_check_assign(a, tracker, handlers),
            handlers,
        },
        PropertyType::Signal(sg) => Outcome {
            diag: None,
            handlers: match sg.handler_name {
                Some(h) => handlers.push(h),
                None => handlers,
            },
        },
        PropertyType::Bind(_) => Outcome { diag: None, handlers },
        PropertyType::Widget(w) => {
            if scope.contains(w.name) {
                Outcome {
                    diag: Some(
                        Diagnostic { kind: DiagKind::DuplicateWidgetName, at: w.name },
                    ),
                    handlers,
                }
            } else {
                spec_validate_widget(w, tracker, handlers)
            }
        },
        PropertyType::ConditionalWidget(c) => {
            if scope.contains(c.name) {
                Outcome {
                    diag: Some(
                        Diagnostic { kind: DiagKind::DuplicateWidgetName, at: c.name },
                    ),
                    handlers,
                }
            } else {
                spec_validate_cond(c, tracker, handlers)
            }
        },
    }
}

/// Every branch widget is validated, in declaration order.
pub open spec fn spec_validate_cond(c: ConditionalWidget, tracker: bool, handlers: Seq<u32>) -> Outcome
    decreases c,
{
    match c.branches {
        ConditionalBranches::If(bs) => spec_validate_if_branches(bs@, tracker, handlers),
        ConditionalBranches::Match(_, arms) => spec_validate_arms(arms@, tracker, handlers),
    }
}

pub open spec fn spec_validate_if_branches(bs: Seq<IfBranch>, tracker: bool, handlers: Seq<u32>) -> Outcome
    decreases bs,
{
    if bs.len() == 0 {
        Outcome { diag: None, handlers }
    } else {
        let head = spec_validate_widget(bs[0].widget, tracker, handlers);
        if head.diag is Some {
            head
        } else {
            spec_validate_if_branches(bs.drop_first(), tracker, head.handlers)
        }
    }
}

pub open spec fn spec_validate_arms(arms: Seq<MatchArm>, tracker: bool, handlers: Seq<u32>) -> Outcome
    decreases arms,
{
    if arms.len() == 0 {
        Outcome { diag: None, handlers }
    } else {
        let head = spec_validate_widget(arms[0].widget, tracker, handlers);
        if head.diag is Some {
            head
        } else {
            spec_validate_arms(arms.drop_first(), tracker, head.handlers)
        }
    }
}

/// Whether a name list contains `x`.
fn contains_u32(v: &Vec<u32>, x: u32) -> (r: bool)
    ensures
        r == v@.contains(x),
{
    let n = v.len();
    let mut i: usize = 0;
    while i < n
        invariant
            i <= n,
            n == v@.len(),
            forall|j: int| 0 <= j < i ==> v@[j] != x,
        decreases n - i,
    {
        if v[i] == x {
            return true;
        }
        i = i + 1;
    }
    false
}

impl Widget {
    /// Validates this widget's subtree, accumulating the declared signal
    /// handlers into `handlers`.
    pub fn validate(&self, tracker: bool, handlers: &mut Vec<u32>) -> (r: Result<(), Diagnostic>)
        ensures
            ({
                let outcome = spec_validate_widget(*self, tracker, old(handlers)@);
                &&& final(handlers)@ == outcome.handlers
                &&& r == (match outcome.diag {
                    Some(d) => Result::<(), Diagnostic>::Err(d),
                    None => Result::<(), Diagnostic>::Ok(()),
                })
            }),
        decreases *self, 2int,
    {
        let not_constructed = match self.attr {
            WidgetAttr::Constructed => false,
            _ => true,
        };
        if not_constructed && !self.name_explicit {
            return Err(Diagnostic { kind: DiagKind::UnnamedPrebound, at: self.name });
        }
        let mut scope: Vec<u32> = Vec::new();
        self.properties.validate(tracker, handlers, &mut scope)
    }
}

impl Properties {
    /// Validates every property in declaration order; `scope` carries the
    /// widget names already declared directly in this scope.
    pub fn validate(&self, tracker: bool, handlers: &mut Vec<u32>, scope: &mut Vec<u32>) -> (r:
        Result<(), Diagnostic>)
        ensures
            ({
                let outcome = spec_validate_props(
                    self.properties@,
                    tracker,
                    old(handlers)@,
                    old(scope)@,
                );
                &&& final(handlers)@ == outcome.handlers
                &&& r == (match outcome.diag {
                    Some(d) => Result::<(), Diagnostic>::Err(d),
                    None => Result::<(), Diagnostic>::Ok(()),
                })
            }),
        decreases *self,
    {
        let n = self.properties.len();
        let mut i: usize = 0;
        proof {
            assert(self.properties@.skip(0) =~= self.properties@);
        }
        while i < n
            invariant
                i <= n,
                n == self.properties@.len(),
                spec_validate_props(self.properties@.skip(i as int), tracker, handlers@, scope@)
                    == spec_validate_props(
                    self.properties@,
                    tracker,
                    old(handlers)@,
                    old(scope)@,
                ),
            decreases n - i,
        {
            proof {
                assert(self.properties@.skip(i as int)[0] == self.properties@[i as int]);
                assert(self.properties@.skip(i as int).drop_first() =~= self.properties@.skip(
                    i as int + 1,
                ));
            }
            let r = self.properties[i].validate(tracker, handlers, scope);
            if let Err(d) = r {
                return Err(d);
            }
            i = i + 1;
        }
        proof {
            assert(self.properties@.skip(n as int) =~= Seq::<Property>::empty());
        }
        Ok(())
    }
}

impl Property {
    /// Validates one property against the names declared before it, and
    /// extends `scope` with the name it declares.
    pub fn validate(&self, tracker: bool, handlers: &mut Vec<u32>, scope: &mut Vec<u32>) -> (r:
        Result<(), Diagnostic>)
        ensures
            ({
                let outcome = spec_validate_prop(*self, tracker, old(handlers)@, old(scope)@);
                &&& final(handlers)@ == outcome.handlers
                &&& r == (match outcome.diag {
                    Some(d) => Result::<(), Diagnostic>::Err(d),
                    None => Result::<(), Diagnostic>::Ok(()),
                })
                &&& (r is Ok ==> final(scope)@ == old(scope)@ + declared_name(*self))
            }),
        decreases *self,
    {
        match &self.ty {
            PropertyType::Assign(a) => {
                let track = match a.attr {
                    AssignAttr::Track(_) => true,
                    _ => false,
                };
                if track && !tracker {
                    return Err(
                        Diagnostic { kind: DiagKind::TrackWithoutTracker, at: a.target },
                    );
                }
                if let Some(g) = a.block_signal {
                    if !contains_u32(handlers, g) {
                        return Err(Diagnostic { kind: DiagKind::UnknownSignalGuard, at: g });
                    }
                }
                assert(scope@ =~= scope@ + Seq::<u32>::empty());
                Ok(())
            },
            PropertyType::Signal(sg) => {
                if let Some(h) = sg.handler_name {
                    handlers.push(h);
                }
                assert(scope@ =~= scope@ + Seq::<u32>::empty());
                Ok(())
            },
            PropertyType::Bind(_) => {
                assert(scope@ =~= scope@ + Seq::<u32>::empty());
                Ok(())
            },
            PropertyType::Widget(w) => {
                if contains_u32(scope, w.name) {
                    return Err(
                        Diagnostic { kind: DiagKind::DuplicateWidgetName, at: w.name },
                    );
                }
                let r = w.validate(tracker, handlers);
                if r.is_ok() {
                    scope.push(w.name);
                    assert(scope@ =~= old(scope)@ + declared_name(*self));
                }
                r
            },
            PropertyType::ConditionalWidget(c) => {
                if contains_u32(scope, c.name) {
                    return Err(
                        Diagnostic { kind: DiagKind::DuplicateWidgetName, at: c.name },
                    );
                }
                let r = c.validate(tracker, handlers);
                if r.is_ok() {
                    scope.push(c.name);
                    assert(scope@ =~= old(scope)@ + declared_name(*self));
                }
                r
            },
        }
    }
}

impl ConditionalWidget {
    /// Validates every branch widget in declaration order.
    #[verifier::loop_isolation(false)]
    #[verifier::rlimit(60)]
    pub fn validate(&self, tracker: bool, handlers: &mut Vec<u32>) -> (r: Result<(), Diagnostic>)
        ensures
            ({
                let outcome = spec_validate_cond(*self, tracker, old(handlers)@);
                &&& final(handlers)@ == outcome.handlers
                &&& r == (match outcome.diag {
                    Some(d) => Result::<(), Diagnostic>::Err(d),
                    None => Result::<(), Diagnostic>::Ok(()),
                })
            }),
        decreases *self,
    {
        match &self.branches {
            ConditionalBranches::If(if_branches) => {
                let n = if_branches.len();
                let mut i: usize = 0;
                proof {
                    assert(if_branches@.skip(0) =~= if_branches@);
                }
                while i < n
                    invariant
                        i <= n,
                        spec_validate_if_branches(
                            if_branches@.skip(i as int),
                            tracker,
                            handlers@,
                        ) == spec_validate_cond(*self, tracker, old(handlers)@),
                    decreases n - i,
                {
                    proof {
                        assert(decreases_to!(*self => self.branches));
                        assert(decreases_to!(self.branches => *if_branches));
                        assert(decreases_to!(*if_branches => if_branches@[i as int]));
                        assert(decreases_to!(if_branches@[i as int] => if_branches@[
                            i as int
                        ].widget));
                        assert(if_branches@.skip(i as int)[0] == if_branches@[i as int]);
                        assert(if_branches@.skip(i as int).drop_first() =~= if_branches@.skip(
                            i as int + 1,
                        ));
                    }
                    let r = if_branches[i].widget.validate(tracker, handlers);
                    if let Err(d) = r {
                        return Err(d);
                    }
                    i = i + 1;
                }
                proof {
                    assert(if_branches@.skip(n as int) =~= Seq::<IfBranch>::empty());
                }
                Ok(())
            },
            ConditionalBranches::Match(_scrutinee, match_arms) => {
                let n = match_arms.len();
                let mut i: usize = 0;
                proof {
                    assert(match_arms@.skip(0) =~= match_arms@);
                }
                while i < n
                    invariant
                        i <= n,
                        spec_validate_arms(match_arms@.skip(i as int), tracker, handlers@)
                            == spec_validate_cond(*self, tracker, old(handlers)@),
                    decreases n - i,
                {
                    proof {
                        assert(decreases_to!(*self => self.branches));
                        assert(decreases_to!(self.branches => *match_arms));
                        assert(decreases_to!(*match_arms => match_arms@[i as int]));
                        assert(decreases_to!(match_arms@[i as int] => match_arms@[
                            i as int
                        ].widget));
                        assert(match_arms@.skip(i as int)[0] == match_arms@[i as int]);
                        assert(match_arms@.skip(i as int).drop_first() =~= match_arms@.skip(
                            i as int + 1,
                        ));
                    }
                    let r = match_arms[i].widget.validate(tracker, handlers);
                    if let Err(d) = r {
                        return Err(d);
                    }
                    i = i + 1;
                }
                proof {
                    assert(match_arms@.skip(n as int) =~= Seq::<MatchArm>::empty());
                }
                Ok(())
            },
        }
    }
}

} // verus!
