//! Named, reusable request profiles for a generative-AI endpoint, composed by
//! inheritance: a profile may declare ancestors and override only the fields it
//! wants to change.  The heart of the crate is the inheritance resolver, which
//! expands a profile's `inherits` chain into an ordered sequence of partial
//! definitions and folds that sequence into one fully-populated profile, with
//! per-field merge rules (last-write-wins scalars, appending message lists and
//! a sticky JSON-output marker), failing cleanly on cycles, missing ancestors,
//! unknown kinds and malformed definitions.

pub mod cli;
pub mod config;
pub mod inherit;
pub mod io;
pub mod openai_shared;
pub mod openai_v1_chat;
pub mod openai_v1_image;
pub mod profile;
