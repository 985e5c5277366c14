use vstd::prelude::*;
use crate::action::{End, NightmareAction, Phase1Action};
use crate::card::Card;
use crate::content::Content;

verus! {

/// The player: it is asked for a decision at each decision point of a game.
/// The engine checks what comes back and promises nothing of it.
pub trait Actor {
    /// Play or discard, and the hand index of the card.
    fn phase_1_action(&mut self, content: &Content) -> (Phase1Action, usize);

    /// After a key was discarded: which of the five drawn cards to discard,
    /// and the order in which the other four go back on top of the deck
    /// (the first listed is drawn first).
    fn key_discard_react(&mut self, content: &Content, cards: &Vec<Card>) -> (usize, Vec<usize>);

    /// Whether to open the door just drawn with a key of its colour.
    fn open_door(&mut self, content: &Content) -> bool;

    /// How to resolve the nightmare just drawn, with the hand or opened index
    /// that `ByKey` and `ByDoor` need.
    fn nightmare_action(&mut self, content: &Content) -> (NightmareAction, Option<usize>);
}

/// Told once how a game ended, with the final state.
pub trait Observer {
    fn on_end(&mut self, content: &Content, result: &End);
}

} // verus!
