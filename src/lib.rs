//! A quote bot's core: a store of attributed quotes parsed from a pipe-separated
//! file, random selection (optionally by season), and the command replies.
pub mod text;
pub mod pattern;
pub mod quote;
mod random;
pub mod store;
pub mod bot;
pub mod laws;
