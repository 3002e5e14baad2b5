//! Runtime core of a small bare-metal Pong kernel: a bump arena, a
//! pixel-format-aware frame surface with bitmap text, and the game engine.
use vstd::prelude::*;

pub mod allocator;
pub mod font;
pub mod pong;
pub mod runtime;
pub mod screen;

verus! {

} // verus!
