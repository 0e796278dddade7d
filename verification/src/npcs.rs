use vstd::prelude::*;

verus! {

/// Where an NPC stands in its exchange with the player.
#[derive(PartialEq, Eq, Structural, Copy, Clone, Debug)]
pub enum NpcState {
    HasDialogue,
    WantsItem,
    WillGiveItem,
    Done,
}

} // verus!
