//! An abstract model of the code the compiler emits, used to state and
//! check what running the artifacts does: construction instantiates every
//! declared widget exactly once, update re-applies properties according
//! to their refresh modifiers, and a switch-container always shows
//! exactly one branch, the one its discriminant selects.
//!
//! Expressions are opaque ids, so evaluation is a lookup in an
//! environment that maps each expression id to its current value: the
//! model's state as the generated code would observe it at one moment.

use vstd::prelude::*;

use crate::assign_gen::ApplyOp;
use crate::init_gen::InitStatement;
use crate::update_gen::{CondChain, PatternChain, Selector, UpdateStep};

verus! {

/// The model's state as the generated code would observe it at one
/// moment: the value every expression id evaluates to, whether an
/// optional argument is present, and which match patterns cover which
/// scrutinee values.  Ids beyond the tables evaluate to zero and count
/// as present; a pair absent from `matched` does not match.
pub struct Env {
    pub values: Vec<u64>,
    pub present: Vec<bool>,
    pub matched: Vec<(u32, u64)>,
}

impl Env {
    /// The value of expression `e`.
    pub open spec fn val(self, e: u32) -> u64 {
        if (e as int) < self.values@.len() {
            self.values@[e as int]
        } else {
            0
        }
    }

    /// A predicate expression holds when its value is nonzero.
    pub open spec fn truthy(self, e: u32) -> bool {
        self.val(e) != 0
    }

    /// Whether an optional argument evaluates to a present value.
    pub open spec fn is_present(self, e: u32) -> bool {
        if (e as int) < self.present@.len() {
            self.present@[e as int]
        } else {
            true
        }
    }

    pub fn val_of(&self, e: u32) -> (r: u64)
        ensures
            r == self.val(e),
    {
        if (e as usize) < self.values.len() {
            self.values[e as usize]
        } else {
            0
        }
    }

    pub fn present_of(&self, e: u32) -> (r: bool)
        ensures
            r == self.is_present(e),
    {
        if (e as usize) < self.present.len() {
            self.present[e as usize]
        } else {
            true
        }
    }

    /// Whether the match pattern `p` covers the scrutinee value `v`.
    pub open spec fn pattern_matches(self, p: u32, v: u64) -> bool {
        exists|i: int| 0 <= i < self.matched@.len() && self.matched@[i] == (p, v)
    }

    pub fn matches_of(&self, p: u32, v: u64) -> (r: bool)
        ensures
            r == self.pattern_matches(p, v),
    {
        let n = self.matched.len();
        let mut i: usize = 0;
        while i < n
            invariant
                i <= n,
                n == self.matched@.len(),
                forall|j: int| 0 <= j < i ==> self.matched@[j] != (p, v),
            decreases n - i,
        {
            let (pp, vv) = self.matched[i];
            if pp == p && vv == v {
                return true;
            }
            i = i + 1;
        }
        false
    }
}

/// One application the update or init-application code performed.
#[derive(Clone, Copy, PartialEq, Eq, Structural, Debug)]
pub struct ApplyRecord {
    pub widget: u32,
    pub target: u32,
    pub value: u64,
}

/// A switch-container instance: its labeled children in registration
/// order and the index of the single visible one.
pub struct SwitchState {
    pub name: u32,
    pub children: Vec<u32>,
    pub visible: usize,
    pub transition: Option<u32>,
}

/// The mathematical value of a switch-container instance.
pub ghost struct SwitchView {
    pub name: u32,
    pub children: Seq<u32>,
    pub visible: int,
    pub transition: Option<u32>,
}

impl View for SwitchState {
    type V = SwitchView;

    open spec fn view(&self) -> SwitchView {
        SwitchView {
            name: self.name,
            children: self.children@,
            visible: self.visible as int,
            transition: self.transition,
        }
    }
}

/// The runtime state the emitted code builds and mutates: the log of
/// constructions in order, the log of property applications in order,
/// and every switch-container.
pub struct Store {
    pub constructed: Vec<u32>,
    pub log: Vec<ApplyRecord>,
    pub switches: Vec<SwitchState>,
}

/// The mathematical value of the runtime state.
pub ghost struct StoreView {
    pub constructed: Seq<u32>,
    pub log: Seq<ApplyRecord>,
    pub switches: Seq<SwitchView>,
}

impl View for Store {
    type V = StoreView;

    open spec fn view(&self) -> StoreView {
        StoreView {
            constructed: self.constructed@,
            log: self.log@,
            switches: self.switches@.map_values(|s: SwitchState| s@),
        }
    }
}

/// The switch a statement addresses: the most recently created container
/// with that name.
pub open spec fn spec_find_switch(ss: Seq<SwitchView>, name: u32) -> Option<int>
    decreases ss.len(),
{
    if ss.len() == 0 {
        None
    } else if ss.last().name == name {
        Some(ss.len() - 1)
    } else {
        spec_find_switch(ss.drop_last(), name)
    }
}

/// What one construction statement does to the state.
pub open spec fn spec_step_init(sv: StoreView, stmt: InitStatement) -> StoreView {
    match stmt {
        InitStatement::Construct { name, .. } => StoreView {
            constructed: sv.constructed.push(name),
            ..sv
        },
        InitStatement::CreateSwitch { name } => StoreView {
            constructed: sv.constructed.push(name),
            switches: sv.switches.push(
                SwitchView { name, children: Seq::empty(), visible: 0, transition: None },
            ),
            ..sv
        },
        InitStatement::SetTransition { name, transition } => match spec_find_switch(
            sv.switches,
            name,
        ) {
            Some(j) => StoreView {
                switches: sv.switches.update(
                    j,
                    SwitchView { transition: Some(transition), ..sv.switches[j] },
                ),
                ..sv
            },
            None => sv,
        },
        InitStatement::AddSwitchChild { container, child, .. } => match spec_find_switch(
            sv.switches,
            container,
        ) {
            Some(j) => StoreView {
                switches: sv.switches.update(
                    j,
                    SwitchView {
                        children: sv.switches[j].children.push(child),
                        ..sv.switches[j]
                    },
                ),
                ..sv
            },
            None => sv,
        },
        InitStatement::Yield { .. } => sv,
    }
}

/// Running a construction stream start to end.
pub open spec fn spec_run_init(sv: StoreView, stmts: Seq<InitStatement>) -> StoreView
    decreases stmts.len(),
{
    if stmts.len() == 0 {
        sv
    } else {
        spec_run_init(spec_step_init(sv, stmts[0]), stmts.drop_first())
    }
}

/// One property application: skipped when the argument is optional and
/// absent, otherwise logged with the argument's current value.
pub open spec fn spec_apply(sv: StoreView, op: ApplyOp, env: Env) -> StoreView {
    if op.optional && !env.is_present(op.expr) {
        sv
    } else {
        StoreView {
            log: sv.log.push(
                ApplyRecord { widget: op.widget, target: op.target, value: env.val(op.expr) },
            ),
            ..sv
        }
    }
}

/// Running the init-phase application stream start to end.
pub open spec fn spec_run_applies(sv: StoreView, ops: Seq<ApplyOp>, env: Env) -> StoreView
    decreases ops.len(),
{
    if ops.len() == 0 {
        sv
    } else {
        spec_run_applies(spec_apply(sv, ops[0], env), ops.drop_first(), env)
    }
}

/// How many branches a condition chain covers.
pub open spec fn chain_len(ch: CondChain) -> nat
    decreases ch,
{
    match ch {
        CondChain::Last => 0,
        CondChain::Link(_, rest) => 1 + chain_len(*rest),
    }
}

/// Whether the chain's final entry is the `else` branch, so that some
/// branch always matches.
pub open spec fn chain_ends_in_else(ch: CondChain) -> bool
    decreases ch,
{
    match ch {
        CondChain::Last => false,
        CondChain::Link(c, rest) => {
            if *rest is Last {
                c is None
            } else {
                chain_ends_in_else(*rest)
            }
        },
    }
}

/// The first branch of an if-chain whose condition is absent (the final
/// `else`) or evaluates true.
pub open spec fn chain_first_match(ch: CondChain, env: Env) -> Option<int>
    decreases ch,
{
    match ch {
        CondChain::Last => None,
        CondChain::Link(c, rest) => {
            if match c {
                Some(e) => env.truthy(e),
                None => true,
            } {
                Some(0)
            } else {
                match chain_first_match(*rest, env) {
                    Some(i) => Some(i + 1),
                    None => None,
                }
            }
        },
    }
}

pub open spec fn pattern_len(pc: PatternChain) -> nat
    decreases pc,
{
    match pc {
        PatternChain::Last => 0,
        PatternChain::Link(_, rest) => 1 + pattern_len(*rest),
    }
}

/// The first arm whose pattern covers the scrutinee value.
pub open spec fn pattern_first_match(pc: PatternChain, env: Env, v: u64) -> Option<int>
    decreases pc,
{
    match pc {
        PatternChain::Last => None,
        PatternChain::Link(p, rest) => {
            if env.pattern_matches(p, v) {
                Some(0)
            } else {
                match pattern_first_match(*rest, env, v) {
                    Some(i) => Some(i + 1),
                    None => None,
                }
            }
        },
    }
}

/// A first-match index is never negative.
pub proof fn lemma_chain_first_match_nonneg(ch: CondChain, env: Env)
    ensures
        chain_first_match(ch, env) matches Some(i) ==> i >= 0,
    decreases ch,
{
    match ch {
        CondChain::Last => {},
        CondChain::Link(c, rest) => {
            lemma_chain_first_match_nonneg(*rest, env);
        },
    }
}

pub proof fn lemma_pattern_first_match_nonneg(pc: PatternChain, env: Env, v: u64)
    ensures
        pattern_first_match(pc, env, v) matches Some(i) ==> i >= 0,
    decreases pc,
{
    match pc {
        PatternChain::Last => {},
        PatternChain::Link(p, rest) => {
            lemma_pattern_first_match_nonneg(*rest, env, v);
        },
    }
}

/// The branch a discriminant selects under `env`: for an if-chain, the
/// first branch whose condition holds; for a match, the first arm whose
/// pattern covers the scrutinee, the final arm standing as the
/// catch-all.  `current` is kept when nothing selects (an if-chain with
/// no true condition and no `else`, a selection past the registered
/// children, or a container without children).
pub open spec fn spec_selected(sel: Selector, children: Seq<u32>, env: Env, current: int) -> int {
    match sel {
        Selector::IfChain { conds } => match chain_first_match(conds, env) {
            Some(i) => {
                if i < children.len() {
                    i
                } else {
                    current
                }
            },
            None => current,
        },
        Selector::MatchArms { scrutinee, patterns } => {
            if children.len() == 0 {
                current
            } else {
                match pattern_first_match(patterns, env, env.val(scrutinee)) {
                    Some(i) => {
                        if i < children.len() {
                            i
                        } else {
                            children.len() - 1
                        }
                    },
                    None => children.len() - 1,
                }
            }
        },
    }
}

/// What one update step does to the state: an unconditional-refresh
/// application always runs; a conditional-refresh application runs if
/// and only if its predicate holds; a visibility switch re-evaluates the
/// discriminant and makes the selected branch the visible child.
pub open spec fn spec_step_update(sv: StoreView, step: UpdateStep, env: Env) -> StoreView {
    match step {
        UpdateStep::ApplyAlways { op } => spec_apply(sv, op, env),
        UpdateStep::ApplyTracked { pred, op } => {
            if env.truthy(pred) {
                spec_apply(sv, op, env)
            } else {
                sv
            }
        },
        UpdateStep::SwitchVisible { container, selector, .. } => match spec_find_switch(
            sv.switches,
            container,
        ) {
            Some(j) => StoreView {
                switches: sv.switches.update(
                    j,
                    SwitchView {
                        visible: spec_selected(
                            selector,
                            sv.switches[j].children,
                            env,
                            sv.switches[j].visible,
                        ),
                        ..sv.switches[j]
                    },
                ),
                ..sv
            },
            None => sv,
        },
    }
}

/// Running an update invocation start to end.
pub open spec fn spec_run_update(sv: StoreView, steps: Seq<UpdateStep>, env: Env) -> StoreView
    decreases steps.len(),
{
    if steps.len() == 0 {
        sv
    } else {
        spec_run_update(spec_step_update(sv, steps[0], env), steps.drop_first(), env)
    }
}

impl Store {
    /// The empty state, before any construction ran.
    pub fn new() -> (r: Store)
        ensures
            r@.constructed == Seq::<u32>::empty(),
            r@.log == Seq::<ApplyRecord>::empty(),
            r@.switches == Seq::<SwitchView>::empty(),
    {
        let r = Store { constructed: Vec::new(), log: Vec::new(), switches: Vec::new() };
        proof {
            assert(r@.switches =~= Seq::<SwitchView>::empty());
        }
        r
    }

    /// Index of the most recently created switch with this name.
    fn find_switch(&self, name: u32) -> (r: Option<usize>)
        ensures
            match r {
                Some(j) => j < self.switches@.len() && spec_find_switch(self@.switches, name)
                    == Some(j as int),
                None => spec_find_switch(self@.switches, name) is None,
            },
    {
        let n = self.switches.len();
        let mut i: usize = n;
        proof {
            assert(self@.switches.take(n as int) =~= self@.switches);
        }
        while i > 0
            invariant
                i <= n,
                n == self.switches@.len(),
                spec_find_switch(self@.switches, name) == spec_find_switch(
                    self@.switches.take(i as int),
                    name,
                ),
            decreases i,
        {
            proof {
                let pre = self@.switches.take(i as int);
                assert(pre.last() == self@.switches[i - 1]);
                assert(pre.drop_last() =~= self@.switches.take(i as int - 1));
            }
            if self.switches[i - 1].name == name {
                return Some(i - 1);
            }
            i = i - 1;
        }
        proof {
            assert(self@.switches.take(0) =~= Seq::<SwitchView>::empty());
        }
        None
    }

    /// Perform one construction statement.
    fn step_init(&mut self, stmt: &InitStatement)
        ensures
            final(self)@ == spec_step_init(old(self)@, *stmt),
    {
        let ghost pre = self@;
        match stmt {
            InitStatement::Construct { name, .. } => {
                self.constructed.push(*name);
                assert(self@.switches =~= spec_step_init(pre, *stmt).switches);
            },
            InitStatement::CreateSwitch { name } => {
                self.constructed.push(*name);
                self.switches.push(
                    SwitchState {
                        name: *name,
                        children: Vec::new(),
                        visible: 0,
                        transition: None,
                    },
                );
                assert(self@.switches =~= spec_step_init(pre, *stmt).switches);
            },
            InitStatement::SetTransition { name, transition } => {
                match self.find_switch(*name) {
                    Some(j) => {
                        let mut sw = self.switches.remove(j);
                        sw.transition = Some(*transition);
                        self.switches.insert(j, sw);
                        assert(self@.switches =~= spec_step_init(pre, *stmt).switches);
                    },
                    None => {
                        assert(self@.switches =~= spec_step_init(pre, *stmt).switches);
                    },
                }
            },
            InitStatement::AddSwitchChild { container, child, .. } => {
                match self.find_switch(*container) {
                    Some(j) => {
                        let mut sw = self.switches.remove(j);
                        sw.children.push(*child);
                        self.switches.insert(j, sw);
                        assert(self@.switches =~= spec_step_init(pre, *stmt).switches);
                    },
                    None => {
                        assert(self@.switches =~= spec_step_init(pre, *stmt).switches);
                    },
                }
            },
            InitStatement::Yield { .. } => {
                assert(self@.switches =~= spec_step_init(pre, *stmt).switches);
            },
        }
    }

    /// Run a construction stream: every declared widget comes to exist,
    /// every switch-container gets its labeled children, in order.
    pub fn run_init(&mut self, stmts: &Vec<InitStatement>)
        ensures
            final(self)@ == spec_run_init(old(self)@, stmts@),
    {
        let n = stmts.len();
        let mut i: usize = 0;
        proof {
            assert(stmts@.skip(0) =~= stmts@);
        }
        while i < n
            invariant
                i <= n,
                n == stmts@.len(),
                spec_run_init(self@, stmts@.skip(i as int)) == spec_run_init(old(self)@, stmts@),
            decreases n - i,
        {
            proof {
                assert(stmts@.skip(i as int)[0] == stmts@[i as int]);
                assert(stmts@.skip(i as int).drop_first() =~= stmts@.skip(i as int + 1));
            }
            self.step_init(&stmts[i]);
            i = i + 1;
        }
        proof {
            assert(stmts@.skip(n as int) =~= Seq::<InitStatement>::empty());
        }
    }

    /// Perform one property application.
    fn apply(&mut self, op: &ApplyOp, env: &Env)
        ensures
            final(self)@ == spec_apply(old(self)@, *op, *env),
    {
        let ghost pre = self@;
        if op.optional && !env.present_of(op.expr) {
            assert(self@.switches =~= spec_apply(pre, *op, *env).switches);
        } else {
            self.log.push(
                ApplyRecord { widget: op.widget, target: op.target, value: env.val_of(op.expr) },
            );
            assert(self@.switches =~= spec_apply(pre, *op, *env).switches);
        }
    }

    /// Run the init-phase application stream, left to right.
    pub fn run_applies(&mut self, ops: &Vec<ApplyOp>, env: &Env)
        ensures
            final(self)@ == spec_run_applies(old(self)@, ops@, *env),
    {
        let n = ops.len();
        let mut i: usize = 0;
        proof {
            assert(ops@.skip(0) =~= ops@);
        }
        while i < n
            invariant
                i <= n,
                n == ops@.len(),
                spec_run_applies(self@, ops@.skip(i as int), *env) == spec_run_applies(
                    old(self)@,
                    ops@,
                    *env,
                ),
            decreases n - i,
        {
            proof {
                assert(ops@.skip(i as int)[0] == ops@[i as int]);
                assert(ops@.skip(i as int).drop_first() =~= ops@.skip(i as int + 1));
            }
            self.apply(&ops[i], env);
            i = i + 1;
        }
        proof {
            assert(ops@.skip(n as int) =~= Seq::<ApplyOp>::empty());
        }
    }

    /// The first branch within `bound` whose condition is absent or true.
    fn chain_select(ch: &CondChain, env: &Env, bound: usize) -> (r: Option<usize>)
        ensures
            match r {
                Some(i) => i < bound && chain_first_match(*ch, *env) == Some(i as int),
                None => match chain_first_match(*ch, *env) {
                    Some(k) => k >= bound,
                    None => true,
                },
            },
        decreases *ch,
    {
        match ch {
            CondChain::Last => None,
            CondChain::Link(c, rest) => {
                let hit = match c {
                    Some(e) => env.val_of(*e) != 0,
                    None => true,
                };
                if hit {
                    assert(chain_first_match(*ch, *env) == Some(0int));
                    if bound > 0 {
                        Some(0)
                    } else {
                        None
                    }
                } else {
                    assert(chain_first_match(*ch, *env) == (match chain_first_match(
                        **rest,
                        *env,
                    ) {
                        Some(i) => Some(i + 1),
                        None => Option::<int>::None,
                    }));
                    if bound == 0 {
                        proof {
                            lemma_chain_first_match_nonneg(**rest, *env);
                        }
                        None
                    } else {
                        match Store::chain_select(rest, env, bound - 1) {
                            Some(i) => Some(i + 1),
                            None => None,
                        }
                    }
                }
            },
        }
    }

    /// The first arm within `bound` whose pattern covers the scrutinee
    /// value.
    fn pattern_select(pc: &PatternChain, env: &Env, v: u64, bound: usize) -> (r: Option<usize>)
        ensures
            match r {
                Some(i) => i < bound && pattern_first_match(*pc, *env, v) == Some(i as int),
                None => match pattern_first_match(*pc, *env, v) {
                    Some(k) => k >= bound,
                    None => true,
                },
            },
        decreases *pc,
    {
        match pc {
            PatternChain::Last => None,
            PatternChain::Link(p, rest) => {
                if env.matches_of(*p, v) {
                    assert(pattern_first_match(*pc, *env, v) == Some(0int));
                    if bound > 0 {
                        Some(0)
                    } else {
                        None
                    }
                } else {
                    assert(pattern_first_match(*pc, *env, v) == (match pattern_first_match(
                        **rest,
                        *env,
                        v,
                    ) {
                        Some(i) => Some(i + 1),
                        None => Option::<int>::None,
                    }));
                    if bound == 0 {
                        proof {
                            lemma_pattern_first_match_nonneg(**rest, *env, v);
                        }
                        None
                    } else {
                        match Store::pattern_select(rest, env, v, bound - 1) {
                            Some(i) => Some(i + 1),
                            None => None,
                        }
                    }
                }
            },
        }
    }

    /// Perform one update step.
    fn step_update(&mut self, step: &UpdateStep, env: &Env)
        ensures
            final(self)@ == spec_step_update(old(self)@, *step, *env),
    {
        let ghost pre = self@;
        match step {
            UpdateStep::ApplyAlways { op } => {
                self.apply(op, env);
            },
            UpdateStep::ApplyTracked { pred, op } => {
                if env.val_of(*pred) != 0 {
                    self.apply(op, env);
                } else {
                    assert(self@.switches =~= spec_step_update(pre, *step, *env).switches);
                }
            },
            UpdateStep::SwitchVisible { container, selector, .. } => {
                match self.find_switch(*container) {
                    Some(j) => {
                        let mut sw = self.switches.remove(j);
                        let sel: usize = match selector {
                            Selector::IfChain { conds } => {
                                match Store::chain_select(conds, env, sw.children.len()) {
                                    Some(k) => k,
                                    None => sw.visible,
                                }
                            },
                            Selector::MatchArms { scrutinee, patterns } => {
                                if sw.children.len() == 0 {
                                    sw.visible
                                } else {
                                    let v = env.val_of(*scrutinee);
                                    match Store::pattern_select(
                                        patterns,
                                        env,
                                        v,
                                        sw.children.len(),
                                    ) {
                                        Some(k) => k,
                                        None => sw.children.len() - 1,
                                    }
                                }
                            },
                        };
                        sw.visible = sel;
                        self.switches.insert(j, sw);
                        assert(self@.switches =~= spec_step_update(pre, *step, *env).switches);
                    },
                    None => {
                        assert(self@.switches =~= spec_step_update(pre, *step, *env).switches);
                    },
                }
            },
        }
    }

    /// Run one update invocation, left to right.
    pub fn run_update(&mut self, steps: &Vec<UpdateStep>, env: &Env)
        ensures
            final(self)@ == spec_run_update(old(self)@, steps@, *env),
            final(self)@.constructed == old(self)@.constructed,
    {
        let n = steps.len();
        let mut i: usize = 0;
        proof {
            assert(steps@.skip(0) =~= steps@);
        }
        while i < n
            invariant
                i <= n,
                n == steps@.len(),
                spec_run_update(self@, steps@.skip(i as int), *env) == spec_run_update(
                    old(self)@,
                    steps@,
                    *env,
                ),
                self@.constructed == old(self)@.constructed,
            decreases n - i,
        {
            proof {
                assert(steps@.skip(i as int)[0] == steps@[i as int]);
                assert(steps@.skip(i as int).drop_first() =~= steps@.skip(i as int + 1));
            }
            self.step_update(&steps[i], env);
            i = i + 1;
        }
        proof {
            assert(steps@.skip(n as int) =~= Seq::<UpdateStep>::empty());
        }
    }
}

} // verus!
