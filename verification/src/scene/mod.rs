//! What the scenes of the game decide, apart from drawing and input.

use vstd::prelude::*;

pub mod game;

verus! {

/// The scene that the game is in.
#[allow(non_camel_case_types)]
#[derive(Clone, Copy, Debug, PartialEq, Eq, Hash, Structural)]
pub enum MainState {
    TITLE,
    STORY,
    GAME,
    EXIT,
    RUN,
    END,
}

} // verus!
