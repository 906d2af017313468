//! Core logic of a chat-triggered sound plugin: the chat input editor with
//! live phrase hints, chat-line parsing, deterministic per-speaker clip
//! selection, the host event bridge and the emitter bookkeeping.
use vstd::prelude::*;

pub mod command;
pub mod editor;
pub mod engine;
pub mod events;
pub mod overlay;
pub mod roster;
pub mod selector;
pub mod sounds;
pub mod text;

verus! {

} // verus!
