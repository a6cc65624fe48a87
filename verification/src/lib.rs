//! The core of a two-pane terminal shell front-end: a line buffer fed by key
//! events, a command table that turns a submitted line into an invocation, the
//! text of the two panes, and the state machine that ties them together.
//!
//! The library performs no input or output. A driver draws what
//! [`session::Session::screen`] describes, hands each key event to
//! [`session::Session::step`], and carries out the action that comes back.

pub mod command;
pub mod input;
pub mod key;
pub mod render;
pub mod session;
pub mod text;
