use vstd::prelude::*;
use crate::action::{End, Phase1Action};
use crate::card::Card;
use crate::content::{replenished, swap_removed, Content, Zones};
use crate::count::{lemma_location_count_multiset, location_count};
use crate::play::{discard_outcome, on_discarded, on_drawn, on_played, played};
use crate::role::{Actor, Observer};

verus! {

broadcast use vstd::seq_lib::group_to_multiset_ensures;

/// What a game runs on: the player, the observer told of the outcome, and
/// the state.
pub struct Core<A: Actor, O: Observer> {
    pub actor: A,
    pub observer: O,
    pub content: Content,
}

/// The phase state machine. A game is `setup`, then `turn` after `turn` until
/// one returns an `End`; `finish` then reports an outcome to the observer.
pub struct Runner<A: Actor, O: Observer> {
    pub core: Core<A, O>,
}

/// A state a turn may start from: doors and nightmares are out of the hand,
/// and fewer than eight doors are open.
pub open spec fn playing(z: Zones) -> bool {
    z.wf() && z.opened.len() < 8
}

/// What every step of the engine keeps: no card appears or vanishes, the hand
/// holds locations only, and the game stops with `Win` the moment the eighth
/// door opens, never later.
pub open spec fn step_kept(before: Zones, after: Zones, r: Result<(), End>) -> bool {
    &&& after.cards() == before.cards()
    &&& after.wf()
    &&& after.opened.len() <= 8
    &&& (r == Err::<(), End>(End::Win) <==> after.opened.len() == 8)
    &&& r is Ok ==> playing(after)
}

/// What the first phase does with the decision `(action, idx)`: an index
/// outside the hand is refused and nothing changes; otherwise the card is
/// taken from the hand, the last card taking its place, and played or
/// discarded.
pub open spec fn phase_1_outcome(
    before: Zones,
    after: Zones,
    action: Phase1Action,
    idx: usize,
    r: Result<(), End>,
) -> bool {
    if idx >= before.hand.len() {
        r == Err::<(), End>(End::BadParameter) && after == before
    } else {
        let card = before.hand[idx as int];
        let taken = Zones { hand: swap_removed(before.hand, idx as int), ..before };
        match action {
            Phase1Action::Play => {
                &&& after == played(taken, card).0
                &&& (r is Err <==> played(taken, card).1)
                &&& (r is Err ==> r == Err::<(), End>(End::Win))
            },
            Phase1Action::Discard => discard_outcome(taken, after, card, r),
        }
    }
}

/// Some decision of the actor leads from `before` to `after` with `r`.
pub open spec fn after_phase_1(before: Zones, after: Zones, r: Result<(), End>) -> bool {
    exists|action: Phase1Action, idx: usize| #[trigger] phase_1_outcome(before, after, action, idx, r)
}

/// The cards on top of the deck that a refill would draw are all locations,
/// so it fills the hand from them alone.
pub open spec fn refills_from_locations(z: Zones) -> bool {
    z.hand.len() >= 5 || (z.undrawn.len() + z.hand.len() >= 5 && forall|i: int|
        z.undrawn.len() + z.hand.len() - 5 <= i < z.undrawn.len() ==> (#[trigger] z.undrawn[i]).spec_is_location())
}

/// Carries out the first-phase decision `(action, idx)`.
pub fn apply_phase_1<A: Actor>(
    content: &mut Content,
    actor: &mut A,
    action: Phase1Action,
    idx: usize,
) -> (r: Result<(), End>)
    requires
        playing(old(content)@),
    ensures
        phase_1_outcome(old(content)@, final(content)@, action, idx, r),
        step_kept(old(content)@, final(content)@, r),
{
    if idx >= content.get_hand().len() {
        return Err(End::BadParameter);
    }
    let card = content.take_hand(idx);
    match action {
        Phase1Action::Play => on_played(content, card),
        Phase1Action::Discard => on_discarded(content, actor, card),
    }
}

impl<A: Actor, O: Observer> Runner<A, O> {
    pub fn new(core: Core<A, O>) -> (r: Self)
        ensures
            r.core == core,
    {
        Runner { core }
    }

    pub open spec fn zones(&self) -> Zones {
        self.core.content@
    }

    /// Shuffles the deck, fills the hand (`Lose` if that fails) and shuffles
    /// what went to limbo back in.
    pub fn setup(&mut self, rng: &mut rand::rngs::StdRng) -> (r: Result<(), End>)
        requires
            playing(old(self).zones()),
        ensures
            step_kept(old(self).zones(), final(self).zones(), r),
            r is Err ==> r == Err::<(), End>(End::Lose),
            r is Ok <==> old(self).zones().hand.len() + location_count(old(self).zones().undrawn)
                >= 5,
            r is Ok ==> final(self).zones().hand.len() >= 5 && final(self).zones().limbo.len()
                == 0,
    {
        self.core.content.shuffle_undrawn(rng);
        proof {
            crate::content::lemma_replenished(self.core.content@);
            lemma_location_count_multiset(old(self).zones().undrawn, self.core.content@.undrawn);
        }
        let r = self.core.content.replenish_hand();
        if r.is_err() {
            return Err(End::Lose);
        }
        self.core.content.shuffle_limbo_to_undrawn(rng);
        Ok(())
    }

    /// Asks the actor for a hand card and whether to play or discard it, and
    /// does so. An index outside the hand is refused with `BadParameter`.
    pub fn phase_1(&mut self) -> (r: Result<(), End>)
        requires
            playing(old(self).zones()),
        ensures
            step_kept(old(self).zones(), final(self).zones(), r),
            after_phase_1(old(self).zones(), final(self).zones(), r),
    {
        let (action, idx) = self.core.actor.phase_1_action(&self.core.content);
        let r = apply_phase_1(&mut self.core.content, &mut self.core.actor, action, idx);
        assert(phase_1_outcome(old(self).zones(), self.zones(), action, idx, r));
        r
    }

    /// Draws one card at a time until the hand holds five; `Lose` when the
    /// deck is empty while the hand is short.
    pub fn phase_2(&mut self) -> (r: Result<(), End>)
        requires
            playing(old(self).zones()),
        ensures
            step_kept(old(self).zones(), final(self).zones(), r),
            old(self).zones().hand.len() < 5 && old(self).zones().undrawn.len() == 0 ==> r
                == Err::<(), End>(End::Lose) && final(self).zones() == old(self).zones(),
            old(self).zones().hand.len() >= 5 ==> r is Ok && final(self).zones() == old(self).zones(),
            refills_from_locations(old(self).zones()) ==> r is Ok && final(self).zones()
                == replenished(old(self).zones()).0,
            r == Err::<(), End>(End::Lose) ==> final(self).zones().undrawn.len() < 5 && final(self).zones().hand.len() < 5,
            r is Ok ==> final(self).zones().hand.len() >= 5,
            final(self).zones().explored == old(self).zones().explored,
            final(self).zones().discarded.len() >= old(self).zones().discarded.len(),
    {
        while self.core.content.get_hand().len() < 5
            invariant
                playing(self.zones()),
                self.zones().cards() == old(self).zones().cards(),
                old(self).zones().hand.len() < 5 && old(self).zones().undrawn.len() == 0
                    ==> self.zones() == old(self).zones(),
                old(self).zones().hand.len() >= 5 ==> self.zones() == old(self).zones(),
                refills_from_locations(old(self).zones()) ==> refills_from_locations(self.zones())
                    && replenished(self.zones()) == replenished(old(self).zones()),
                self.zones().explored == old(self).zones().explored,
                self.zones().discarded.len() >= old(self).zones().discarded.len(),
            decreases self.zones().undrawn.len(),
        {
            let ghost pre = self.zones();
            let drawn = self.core.content.draw(1);
            match drawn {
                None => {
                    return Err(End::Lose);
                },
                Some(cards) => {
                    let card = cards[0];
                    let ghost mid = self.zones();
                    proof {
                        broadcast use vstd::multiset::group_multiset_axioms;

                        assert(cards@ =~= Seq::empty().push(card));
                        assert(Seq::<crate::card::Card>::empty().to_multiset() =~= vstd::multiset::Multiset::empty());
                        assert(mid.cards().insert(card) =~= mid.cards().add(cards@.to_multiset()));
                    }
                    let r = on_drawn(&mut self.core.content, &mut self.core.actor, card);
                    proof {
                        if refills_from_locations(old(self).zones()) {
                            let n = pre.undrawn.len() as int;
                            assert(card == pre.undrawn[n - 1]);
                            assert(card.spec_is_location());
                            assert(mid.undrawn =~= pre.undrawn.drop_last());
                            assert(self.zones() == (Zones {
                                undrawn: pre.undrawn.drop_last(),
                                hand: pre.hand.push(card),
                                ..pre
                            }));
                            let now = self.zones();
                            assert forall|i: int|
                                now.undrawn.len() + now.hand.len() - 5 <= i < now.undrawn.len() implies (
                            #[trigger] now.undrawn[i]).spec_is_location() by {
                                assert(now.undrawn[i] == pre.undrawn[i]);
                            }
                        }
                    }
                    if r.is_err() {
                        return r;
                    }
                },
            }
        }
        Ok(())
    }

    /// Shuffles limbo back into the deck, if it holds anything.
    pub fn phase_3(&mut self, rng: &mut rand::rngs::StdRng)
        requires
            playing(old(self).zones()),
        ensures
            step_kept(old(self).zones(), final(self).zones(), Ok(())),
            old(self).zones().limbo.len() == 0 ==> final(self).zones() == old(self).zones(),
            final(self).zones().limbo.len() == 0,
            final(self).zones().undrawn.to_multiset() == old(self).zones().undrawn.to_multiset().add(
                old(self).zones().limbo.to_multiset(),
            ),
            final(self).zones() == (Zones {
                undrawn: final(self).zones().undrawn,
                limbo: Seq::empty(),
                ..old(self).zones()
            }),
    {
        self.core.content.shuffle_limbo_to_undrawn(rng);
    }

    /// One turn: the three phases in order, stopping at the first `End`.
    pub fn turn(&mut self, rng: &mut rand::rngs::StdRng) -> (r: Result<(), End>)
        requires
            playing(old(self).zones()),
        ensures
            step_kept(old(self).zones(), final(self).zones(), r),
            exists|mid: Zones, r1: Result<(), End>|
                {
                    &&& #[trigger] after_phase_1(old(self).zones(), mid, r1)
                    &&& r1 is Err ==> r == r1 && final(self).zones() == mid
                    &&& r1 is Ok ==> final(self).zones().explored == mid.explored && final(self).zones().discarded.len() >= mid.discarded.len()
                },
            r is Ok ==> final(self).zones().hand.len() >= 5 && final(self).zones().limbo.len()
                == 0,
    {
        let r1 = self.phase_1();
        let ghost mid = self.zones();
        assert(after_phase_1(old(self).zones(), mid, r1));
        if r1.is_err() {
            return r1;
        }
        let r2 = self.phase_2();
        if r2.is_err() {
            return r2;
        }
        self.phase_3(rng);
        Ok(())
    }

    /// Reports a game's outcome to the observer; a refused decision is not an
    /// outcome and is not reported.
    pub fn finish(&mut self, end: &End)
        ensures
            final(self).zones() == old(self).zones(),
    {
        if end.is_outcome() {
            self.core.observer.on_end(&self.core.content, end);
        }
    }

    pub fn get_content(&self) -> (r: &Content)
        ensures
            r@ == self.zones(),
    {
        &self.core.content
    }
}

} // verus!
