use vstd::prelude::*;

verus! {

/// The colors the renderer distinguishes: glyph foreground/background and
/// the tag of a chat log entry (plain, error, info).
#[derive(Clone, Copy, PartialEq, Eq, Structural, Debug)]
pub enum Color {
    Black,
    White,
    Red,
    Blue,
}

} // verus!
