//! A quiz-show engine for many games at once: a host reveals questions, contestants buzz in
//! and answer, spectators watch, and everyone connected is told of every change.
//!
//! - [`models`]: the game and its parts, each with the mathematical value it stands for.
//! - [`dto`]: the requests that come in and the messages that go out.
//! - [`error`]: the reasons for which a request is turned down.
//! - [`rules`]: what each request does to a game, as mathematics.
//! - [`actions`]: the handlers, proved to do what the rules say.
//! - [`session`]: one game with the channel to its observers.
//! - [`registry`]: all sessions, each under its game code, and the sweep of stale ones.
//! - [`laws`]: what holds of every game, proved from the rules.
//! - [`util`]: the clock and a few operations on text.

pub mod actions;
pub mod dto;
pub mod error;
pub mod laws;
pub mod models;
pub mod registry;
pub mod rules;
pub mod session;
pub mod util;
