//! Core of a hotkey daemon: a backtracking recursive-descent parser that turns
//! an indentation-sensitive configuration text into a tree of key binds, and a
//! dispatch engine that matches incoming key events against the currently
//! active bind sequence and performs mode transitions.

pub mod bind;
pub mod chord;
pub mod dispatch;
pub mod key;
pub mod parse;
pub mod text;
