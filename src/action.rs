use vstd::prelude::*;

verus! {

/// What to do with the chosen hand card in the first phase of a turn.
#[derive(Clone, Copy, Debug, PartialEq, Eq, Structural, PartialOrd, Ord, Hash)]
pub enum Phase1Action {
    Play,
    Discard,
}

/// The four ways to resolve a drawn nightmare.
#[derive(Clone, Copy, Debug, PartialEq, Eq, Structural, PartialOrd, Ord, Hash)]
pub enum NightmareAction {
    ByKey,
    ByDoor,
    ByHand,
    ByDeck,
}

/// How a game, or one step of it, stops short of going on.
/// `Win` and `Lose` are the game's outcomes; `BadParameter` is a decision
/// that names a card that is not there, or not of the kind asked for.
#[derive(Clone, Copy, Debug, PartialEq, Eq, Structural)]
pub enum End {
    Win,
    Lose,
    BadParameter,
}

impl End {
    pub open spec fn spec_is_outcome(self) -> bool {
        self is Win || self is Lose
    }

    /// Whether this is an outcome of the game rather than a faulty decision.
    pub fn is_outcome(&self) -> (r: bool)
        ensures
            r == self.spec_is_outcome(),
    {
        match self {
            End::Win | End::Lose => true,
            End::BadParameter => false,
        }
    }
}

} // verus!
