//! Core of a terminal chat client: a cell-addressed screen buffer with a
//! frame-to-frame diff, a patch emitter that turns diffs into a minimal
//! stream of terminal operations, an editable prompt, an append-only chat
//! log, and a command router.  Everything here is pure logic over plain
//! values; the terminal and the network are driven by a thin unverified
//! shell that consumes the operation streams and actions produced here.

pub mod chat;
pub mod client;
pub mod color;
pub mod emit;
pub mod prompt;
pub mod router;
pub mod screen_state;
pub mod terminal_buffer;
pub mod text;
