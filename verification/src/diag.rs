//! Fatal diagnostics.  A diagnostic aborts generation for the affected
//! component only: no artifact is emitted for it, and other components in
//! the same build proceed unaffected.  The compiler never retries and
//! never produces partial output.

use vstd::prelude::*;

verus! {

/// What went wrong.
#[derive(Clone, Copy, PartialEq, Eq, Structural, Debug)]
pub enum DiagKind {
    /// The token stream ended inside a construct.
    UnexpectedEnd,
    /// A token other than the expected construct was found.
    UnexpectedToken,
    /// An if-chain without a final `else`, or a match without arms.
    IncompleteBranches,
    /// A conditional-refresh modifier on a component whose model declares
    /// no change-tracking support.
    TrackWithoutTracker,
    /// A signal-suppression-guard name matching no previously declared
    /// signal connection in the same tree.
    UnknownSignalGuard,
    /// A widget name already declared in the same property scope.
    DuplicateWidgetName,
    /// A pre-bound widget without an explicit name to refer to its
    /// outside binding.
    UnnamedPrebound,
    /// A component without any top-level tree.
    EmptyComponent,
    /// No synthesized widget name is left: the name counter is exhausted.
    TooManyWidgets,
}

/// A fatal diagnostic: its kind, and where it arose — the index of the
/// offending token for a syntax error, the offending interned id for a
/// semantic one.
#[derive(Clone, Copy, PartialEq, Eq, Structural, Debug)]
pub struct Diagnostic {
    pub kind: DiagKind,
    pub at: u32,
}

} // verus!
