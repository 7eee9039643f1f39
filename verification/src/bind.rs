//! The parsed output: a sequence of binds, where a bind's action may
//! recursively contain another sequence of binds (a mode).

use vstd::prelude::*;
use crate::chord::Chord;

verus! {

/// A bind represents a chord with an associated action. All binds can have an
/// output parameter regardless of the action they trigger; the command runs
/// first, unconditionally, before the mode transition is evaluated.
#[derive(Debug)]
pub struct Bind {
    pub chord: Chord,
    pub output: Option<String>,
    pub action: Action,
}

/// An action is a task performed when a bind is triggered.
#[derive(Debug)]
pub enum Action {
    /// Switch the active set to the nested binds.
    EnterMode { binds: Vec<Bind> },
    /// Return to the default (root) mode.
    ToRoot,
}

} // verus!
