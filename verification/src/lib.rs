//! A turn-based board game whose moves are small programs run over a row of
//! capacity-bounded buckets.
//!
//! A move is a string over `+ - < > [ ]`. It is tokenized into a program
//! whose brackets are resolved into jumps ([`program`]), and run against the
//! board under a step budget ([`board`]). A move either commits as a whole
//! and passes the turn, or fails and leaves the board as it was. Buckets
//! lock once one player fills them ([`bucket`]), and the players who own the
//! most buckets win once enough buckets are locked ([`winners`]).
//!
//! Every function comes with a contract over the views of its arguments, and
//! [`laws`] holds what follows for every move. [`session`] plays the game in
//! a conversation: it takes messages and returns the answers.

pub mod player;
pub mod error;
pub mod text;
pub mod bucket;
pub mod symbols;
pub mod program;
pub mod board;
pub mod winners;
pub mod laws;
pub mod words;
pub mod session;
