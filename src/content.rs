use vstd::prelude::*;
use vstd::multiset::Multiset;
use rand::seq::SliceRandom;
use crate::action::End;
use crate::card::{Card, Color, Kind};
use crate::count::location_count;

verus! {

broadcast use vstd::seq_lib::group_to_multiset_ensures;

/// The abstract state of a game: six ordered zones of cards.
/// The top of `undrawn` is its last element.
pub ghost struct Zones {
    pub undrawn: Seq<Card>,
    pub discarded: Seq<Card>,
    pub limbo: Seq<Card>,
    pub explored: Seq<Card>,
    pub opened: Seq<Card>,
    pub hand: Seq<Card>,
}

/// `s` with its element at `i` replaced by its last element, then shortened.
pub open spec fn swap_removed(s: Seq<Card>, i: int) -> Seq<Card> {
    s.update(i, s.last()).drop_last()
}

pub open spec fn all_locations(s: Seq<Card>) -> bool {
    forall|i: int| 0 <= i < s.len() ==> (#[trigger] s[i]).spec_is_location()
}

impl Zones {
    /// Every card of the game, whatever zone holds it.
    pub open spec fn cards(self) -> Multiset<Card> {
        self.undrawn.to_multiset().add(self.discarded.to_multiset()).add(
            self.limbo.to_multiset(),
        ).add(self.explored.to_multiset()).add(self.opened.to_multiset()).add(
            self.hand.to_multiset(),
        )
    }

    /// The hand holds locations only: never a door or a nightmare.
    pub open spec fn wf(self) -> bool {
        all_locations(self.hand)
    }
}

/// The number of cards over all six zones.
pub open spec fn card_count(z: Zones) -> nat {
    z.undrawn.len() + z.discarded.len() + z.limbo.len() + z.explored.len() + z.opened.len()
        + z.hand.len()
}

/// Zone exclusivity: the multiset of all cards counts each card once per zone
/// that holds it, so two states with the same cards hold the same number of
/// cards over their zones.
pub proof fn lemma_card_count(before: Zones, after: Zones)
    requires
        before.cards() == after.cards(),
    ensures
        card_count(before) == card_count(after),
        card_count(after) == after.cards().len(),
{
    broadcast use vstd::multiset::group_multiset_axioms;

    assert(card_count(before) == before.cards().len());
    assert(card_count(after) == after.cards().len());
}

/// No door of `color` lies before position `i` of `s`.
pub open spec fn no_door_before(s: Seq<Card>, color: Color, i: int) -> bool {
    forall|j: int| 0 <= j < i ==> !(#[trigger] s[j]).is_door_of(color)
}

pub open spec fn is_first_door(s: Seq<Card>, color: Color, i: int) -> bool {
    0 <= i < s.len() && no_door_before(s, color, i) && s[i].is_door_of(color)
}

/// The state after taking the first door of `color` out of the undrawn deck
/// by swapping in the deck's last card, and the door taken, if any.
pub open spec fn pulled(z: Zones, color: Color) -> (Zones, Option<Card>) {
    if exists|i: int| is_first_door(z.undrawn, color, i) {
        let i = choose|i: int| is_first_door(z.undrawn, color, i);
        (Zones { undrawn: swap_removed(z.undrawn, i), ..z }, Some(z.undrawn[i]))
    } else {
        (z, None)
    }
}

/// The last `count` cards of the deck, bottom to top.
pub open spec fn top_cards(s: Seq<Card>, count: int) -> Seq<Card> {
    s.subrange(s.len() - count, s.len() as int)
}

/// The deck without its last `count` cards.
pub open spec fn below_top(s: Seq<Card>, count: int) -> Seq<Card> {
    s.subrange(0, s.len() - count)
}

/// Draws single cards from the top until the hand holds five: locations go to
/// the hand, anything else to limbo. The flag says whether the hand was filled
/// before the deck ran out.
pub open spec fn replenished(z: Zones) -> (Zones, bool)
    decreases z.undrawn.len(),
{
    if z.hand.len() >= 5 {
        (z, true)
    } else if z.undrawn.len() == 0 {
        (z, false)
    } else {
        let c = z.undrawn.last();
        let rest = z.undrawn.drop_last();
        if c.spec_is_location() {
            replenished(Zones { undrawn: rest, hand: z.hand.push(c), ..z })
        } else {
            replenished(Zones { undrawn: rest, limbo: z.limbo.push(c), ..z })
        }
    }
}

/// Refilling the hand keeps every card, never adds to the deck, and keeps
/// doors and nightmares out of the hand.
pub proof fn lemma_replenished(z: Zones)
    ensures
        replenished(z).0.cards() == z.cards(),
        replenished(z).0.undrawn.len() <= z.undrawn.len(),
        replenished(z).0.opened == z.opened,
        replenished(z).0.explored == z.explored,
        replenished(z).0.discarded == z.discarded,
        z.wf() ==> replenished(z).0.wf(),
        replenished(z).1 ==> replenished(z).0.hand.len() >= 5,
        !replenished(z).1 ==> replenished(z).0.hand.len() < 5 && replenished(z).0.undrawn.len()
            == 0,
        replenished(z).1 <==> z.hand.len() + location_count(z.undrawn) >= 5,
        replenished(z).0.hand.len() >= z.hand.len(),
    decreases z.undrawn.len(),
{
    if z.hand.len() >= 5 {
    } else if z.undrawn.len() == 0 {
    } else {
        broadcast use vstd::multiset::group_multiset_axioms;

        let c = z.undrawn.last();
        let rest = z.undrawn.drop_last();
        assert(z.undrawn =~= rest.push(c));
        let next = if c.spec_is_location() {
            Zones { undrawn: rest, hand: z.hand.push(c), ..z }
        } else {
            Zones { undrawn: rest, limbo: z.limbo.push(c), ..z }
        };
        assert(z.undrawn.drop_last() == rest);
        assert(next.cards() =~= z.cards());
        lemma_replenished(next);
    }
}

/// Removing the element at `i` by swapping in the last one keeps every other card.
pub proof fn lemma_swap_removed_multiset(s: Seq<Card>, i: int)
    requires
        0 <= i < s.len(),
    ensures
        swap_removed(s, i).to_multiset() == s.to_multiset().remove(s[i]),
        swap_removed(s, i).len() == s.len() - 1,
{
    let t = s.update(i, s.last());
    assert(t =~= t.drop_last().push(t.last()));
    assert(t.last() == s.last());
    assert(t.to_multiset() == s.to_multiset().insert(s.last()).remove(s[i]));
    assert(t.drop_last().push(s.last()).to_multiset() == t.drop_last().to_multiset().insert(
        s.last(),
    ));
    let a = t.drop_last().to_multiset();
    let b = s.to_multiset().remove(s[i]);
    assert(a.insert(s.last()) == s.to_multiset().insert(s.last()).remove(s[i]));
    assert forall|x: Card| a.count(x) == b.count(x) by {
        broadcast use vstd::multiset::group_multiset_axioms;

        assert(a.insert(s.last()).count(x) == s.to_multiset().insert(s.last()).remove(
            s[i],
        ).count(x));
        assert(s.to_multiset().count(s[i]) > 0);
    }
    assert(a =~= b);
}

/// Splitting a sequence keeps its cards.
pub proof fn lemma_split_multiset(s: Seq<Card>, k: int)
    requires
        0 <= k <= s.len(),
    ensures
        s.subrange(0, k).to_multiset().add(s.subrange(k, s.len() as int).to_multiset())
            == s.to_multiset(),
{
    vstd::seq_lib::lemma_multiset_commutative(s.subrange(0, k), s.subrange(k, s.len() as int));
    assert(s.subrange(0, k) + s.subrange(k, s.len() as int) =~= s);
}

/// The random source that shuffles the deck.
#[verifier::external_type_specification]
#[verifier::external_body]
pub struct ExStdRng(rand::rngs::StdRng);

/// Relies on `rand::seq::SliceRandom::shuffle`, which only swaps elements:
/// the result is a permutation of the input.
#[verifier::external_body]
fn shuffle_cards(cards: &mut Vec<Card>, rng: &mut rand::rngs::StdRng)
    ensures
        final(cards)@.to_multiset() == old(cards)@.to_multiset(),
        final(cards)@.len() == old(cards)@.len(),
{
    cards.shuffle(rng)
}

/// The full game state. Its zones are private; its view is `Zones`.
pub struct Content {
    undrawn: Vec<Card>,
    discarded: Vec<Card>,
    limbo: Vec<Card>,
    explored: Vec<Card>,
    opened: Vec<Card>,
    hand: Vec<Card>,
}

impl View for Content {
    type V = Zones;

    closed spec fn view(&self) -> Zones {
        Zones {
            undrawn: self.undrawn@,
            discarded: self.discarded@,
            limbo: self.limbo@,
            explored: self.explored@,
            opened: self.opened@,
            hand: self.hand@,
        }
    }
}

fn copy_cards(v: &Vec<Card>) -> (r: Vec<Card>)
    ensures
        r@ == v@,
{
    let mut r: Vec<Card> = Vec::new();
    let mut i: usize = 0;
    while i < v.len()
        invariant
            i <= v.len(),
            r@ == v@.subrange(0, i as int),
        decreases v.len() - i,
    {
        r.push(v[i]);
        i = i + 1;
        assert(r@ =~= v@.subrange(0, i as int));
    }
    assert(r@ =~= v@);
    r
}

impl Content {
    /// A game whose cards all lie in the undrawn deck, in the given order.
    pub fn new(undrawn: Vec<Card>) -> (r: Content)
        ensures
            r@ == (Zones {
                undrawn: undrawn@,
                discarded: Seq::empty(),
                limbo: Seq::empty(),
                explored: Seq::empty(),
                opened: Seq::empty(),
                hand: Seq::empty(),
            }),
    {
        Content {
            undrawn,
            discarded: Vec::new(),
            limbo: Vec::new(),
            explored: Vec::new(),
            opened: Vec::new(),
            hand: Vec::new(),
        }
    }

    /// An independent copy of the state, for trying a move out.
    pub fn duplicate(&self) -> (r: Content)
        ensures
            r@ == self@,
    {
        Content {
            undrawn: copy_cards(&self.undrawn),
            discarded: copy_cards(&self.discarded),
            limbo: copy_cards(&self.limbo),
            explored: copy_cards(&self.explored),
            opened: copy_cards(&self.opened),
            hand: copy_cards(&self.hand),
        }
    }
}

} // verus!

verus! {

impl Content {
    pub fn get_undrawn(&self) -> (r: &Vec<Card>)
        ensures
            r@ == self@.undrawn,
    {
        &self.undrawn
    }

    pub fn get_discard(&self) -> (r: &Vec<Card>)
        ensures
            r@ == self@.discarded,
    {
        &self.discarded
    }

    pub fn get_limbo(&self) -> (r: &Vec<Card>)
        ensures
            r@ == self@.limbo,
    {
        &self.limbo
    }

    pub fn get_explore(&self) -> (r: &Vec<Card>)
        ensures
            r@ == self@.explored,
    {
        &self.explored
    }

    pub fn get_opened(&self) -> (r: &Vec<Card>)
        ensures
            r@ == self@.opened,
    {
        &self.opened
    }

    pub fn get_hand(&self) -> (r: &Vec<Card>)
        ensures
            r@ == self@.hand,
    {
        &self.hand
    }

    /// Puts a card on top of the undrawn deck.
    pub fn put_undrawn(&mut self, card: Card)
        ensures
            final(self)@ == (Zones { undrawn: old(self)@.undrawn.push(card), ..old(self)@ }),
            final(self)@.cards() == old(self)@.cards().insert(card),
    {
        self.undrawn.push(card);
        proof {
            broadcast use vstd::multiset::group_multiset_axioms;

            assert(self@.cards() =~= old(self)@.cards().insert(card));
        }
    }

    pub fn put_discard(&mut self, card: Card)
        ensures
            final(self)@ == (Zones { discarded: old(self)@.discarded.push(card), ..old(self)@ }),
            final(self)@.cards() == old(self)@.cards().insert(card),
    {
        self.discarded.push(card);
        proof {
            broadcast use vstd::multiset::group_multiset_axioms;

            assert(self@.cards() =~= old(self)@.cards().insert(card));
        }
    }

    pub fn put_limbo(&mut self, card: Card)
        ensures
            final(self)@ == (Zones { limbo: old(self)@.limbo.push(card), ..old(self)@ }),
            final(self)@.cards() == old(self)@.cards().insert(card),
    {
        self.limbo.push(card);
        proof {
            broadcast use vstd::multiset::group_multiset_axioms;

            assert(self@.cards() =~= old(self)@.cards().insert(card));
        }
    }

    pub fn put_explore(&mut self, card: Card)
        ensures
            final(self)@ == (Zones { explored: old(self)@.explored.push(card), ..old(self)@ }),
            final(self)@.cards() == old(self)@.cards().insert(card),
    {
        self.explored.push(card);
        proof {
            broadcast use vstd::multiset::group_multiset_axioms;

            assert(self@.cards() =~= old(self)@.cards().insert(card));
        }
    }

    /// Puts a door among the opened ones, without checking for a win.
    pub fn put_opened(&mut self, card: Card)
        ensures
            final(self)@ == (Zones { opened: old(self)@.opened.push(card), ..old(self)@ }),
            final(self)@.cards() == old(self)@.cards().insert(card),
    {
        self.opened.push(card);
        proof {
            broadcast use vstd::multiset::group_multiset_axioms;

            assert(self@.cards() =~= old(self)@.cards().insert(card));
        }
    }

    /// Puts a location into the hand; no other card may go there.
    pub fn put_hand(&mut self, card: Card)
        requires
            card.spec_is_location(),
        ensures
            final(self)@ == (Zones { hand: old(self)@.hand.push(card), ..old(self)@ }),
            final(self)@.cards() == old(self)@.cards().insert(card),
            old(self)@.wf() ==> final(self)@.wf(),
    {
        self.hand.push(card);
        proof {
            broadcast use vstd::multiset::group_multiset_axioms;

            assert(self@.cards() =~= old(self)@.cards().insert(card));
        }
    }

    /// Takes the opened door at `idx`; the last one takes its place.
    pub fn take_opened(&mut self, idx: usize) -> (r: Card)
        requires
            idx < old(self)@.opened.len(),
        ensures
            r == old(self)@.opened[idx as int],
            final(self)@ == (Zones {
                opened: swap_removed(old(self)@.opened, idx as int),
                ..old(self)@
            }),
            final(self)@.cards().insert(r) == old(self)@.cards(),
    {
        let r = self.opened.swap_remove(idx);
        proof {
            broadcast use vstd::multiset::group_multiset_axioms;

            lemma_swap_removed_multiset(old(self)@.opened, idx as int);
            assert(self@.cards().insert(r) =~= old(self)@.cards());
        }
        r
    }

    /// Takes the hand card at `idx`; the last one takes its place.
    pub fn take_hand(&mut self, idx: usize) -> (r: Card)
        requires
            idx < old(self)@.hand.len(),
        ensures
            r == old(self)@.hand[idx as int],
            final(self)@ == (Zones { hand: swap_removed(old(self)@.hand, idx as int), ..old(self)@ }),
            final(self)@.cards().insert(r) == old(self)@.cards(),
            old(self)@.wf() ==> final(self)@.wf() && r.spec_is_location(),
    {
        let r = self.hand.swap_remove(idx);
        proof {
            broadcast use vstd::multiset::group_multiset_axioms;

            lemma_swap_removed_multiset(old(self)@.hand, idx as int);
            assert(self@.cards().insert(r) =~= old(self)@.cards());
        }
        r
    }

    /// Moves the opened door at `idx` to the discard pile.
    pub fn discard_opened(&mut self, idx: usize)
        requires
            idx < old(self)@.opened.len(),
        ensures
            final(self)@ == (Zones {
                opened: swap_removed(old(self)@.opened, idx as int),
                discarded: old(self)@.discarded.push(old(self)@.opened[idx as int]),
                ..old(self)@
            }),
            final(self)@.cards() == old(self)@.cards(),
    {
        let card = self.take_opened(idx);
        self.put_discard(card);
    }

    /// Moves the hand card at `idx` to the discard pile.
    pub fn discard_hand(&mut self, idx: usize)
        requires
            idx < old(self)@.hand.len(),
        ensures
            final(self)@ == (Zones {
                hand: swap_removed(old(self)@.hand, idx as int),
                discarded: old(self)@.discarded.push(old(self)@.hand[idx as int]),
                ..old(self)@
            }),
            final(self)@.cards() == old(self)@.cards(),
            old(self)@.wf() ==> final(self)@.wf(),
    {
        let card = self.take_hand(idx);
        self.put_discard(card);
    }

    /// Moves the whole hand, in order, onto the discard pile.
    pub fn discard_all_hand(&mut self)
        ensures
            final(self)@ == (Zones {
                hand: Seq::empty(),
                discarded: old(self)@.discarded + old(self)@.hand,
                ..old(self)@
            }),
            final(self)@.cards() == old(self)@.cards(),
    {
        self.discarded.append(&mut self.hand);
        proof {
            broadcast use vstd::multiset::group_multiset_axioms;

            vstd::seq_lib::lemma_multiset_commutative(old(self)@.discarded, old(self)@.hand);
            assert(self@.cards() =~= old(self)@.cards());
        }
    }

    /// Takes the first door of `color` out of the undrawn deck, if there is
    /// one; the deck's last card takes its place.
    pub fn pull_door(&mut self, color: Color) -> (r: Option<Card>)
        ensures
            (final(self)@, r) == pulled(old(self)@, color),
            match r {
                None => final(self)@.cards() == old(self)@.cards(),
                Some(door) => final(self)@.cards().insert(door) == old(self)@.cards()
                    && door.is_door_of(color),
            },
    {
        let mut i: usize = 0;
        while i < self.undrawn.len()
            invariant
                self@ == old(self)@,
                i <= self.undrawn.len(),
                no_door_before(self@.undrawn, color, i as int),
            decreases self.undrawn.len() - i,
        {
            let card = self.undrawn[i];
            if card.kind == Kind::Door && card.color == color {
                let door = self.undrawn.swap_remove(i);
                proof {
                    broadcast use vstd::multiset::group_multiset_axioms;

                    lemma_swap_removed_multiset(old(self)@.undrawn, i as int);
                    assert(self@.cards().insert(door) =~= old(self)@.cards());
                    assert(is_first_door(old(self)@.undrawn, color, i as int));
                    let j = choose|j: int| is_first_door(old(self)@.undrawn, color, j);
                    assert(j == i);
                }
                return Some(door);
            }
            i = i + 1;
        }
        None
    }

    /// Draws `count` cards off the top of the deck, in deck order; nothing
    /// when fewer remain.
    pub fn draw(&mut self, count: usize) -> (r: Option<Vec<Card>>)
        ensures
            count > old(self)@.undrawn.len() ==> r is None && final(self)@ == old(self)@,
            count <= old(self)@.undrawn.len() ==> {
                &&& r is Some
                &&& r->0@ == top_cards(old(self)@.undrawn, count as int)
                &&& final(self)@ == (Zones {
                    undrawn: below_top(old(self)@.undrawn, count as int),
                    ..old(self)@
                })
                &&& final(self)@.cards().add(r->0@.to_multiset()) == old(self)@.cards()
            },
    {
        if count > self.undrawn.len() {
            None
        } else {
            let at = self.undrawn.len() - count;
            let drawn = self.undrawn.split_off(at);
            proof {
                broadcast use vstd::multiset::group_multiset_axioms;

                lemma_split_multiset(old(self)@.undrawn, at as int);
                assert(self@.cards().add(drawn@.to_multiset()) =~= old(self)@.cards());
            }
            Some(drawn)
        }
    }

    /// Fills the hand up to five cards from the top of the deck: locations go
    /// to the hand, doors and nightmares to limbo. `Lose` when the deck runs
    /// out first.
    pub fn replenish_hand(&mut self) -> (r: Result<(), End>)
        ensures
            final(self)@ == replenished(old(self)@).0,
            r is Ok <==> replenished(old(self)@).1,
            r matches Err(e) ==> e == End::Lose,
    {
        while self.hand.len() < 5
            invariant
                replenished(self@) == replenished(old(self)@),
            decreases self.undrawn.len(),
        {
            let ghost pre = self@;
            match self.undrawn.pop() {
                None => {
                    return Err(End::Lose);
                },
                Some(card) => {
                    if card.is_location() {
                        self.hand.push(card);
                    } else {
                        self.limbo.push(card);
                    }
                    proof {
                        assert(self@.undrawn =~= pre.undrawn.drop_last());
                        assert(card == pre.undrawn.last());
                    }
                },
            }
        }
        Ok(())
    }

    /// Shuffles the undrawn deck.
    pub fn shuffle_undrawn(&mut self, rng: &mut rand::rngs::StdRng)
        ensures
            final(self)@.undrawn.to_multiset() == old(self)@.undrawn.to_multiset(),
            final(self)@.undrawn.len() == old(self)@.undrawn.len(),
            final(self)@ == (Zones { undrawn: final(self)@.undrawn, ..old(self)@ }),
            final(self)@.cards() == old(self)@.cards(),
    {
        shuffle_cards(&mut self.undrawn, rng);
    }

    /// Puts limbo back into the undrawn deck and shuffles it, when limbo holds
    /// anything; otherwise leaves the state alone.
    pub fn shuffle_limbo_to_undrawn(&mut self, rng: &mut rand::rngs::StdRng)
        ensures
            old(self)@.limbo.len() == 0 ==> final(self)@ == old(self)@,
            final(self)@.undrawn.to_multiset() == old(self)@.undrawn.to_multiset().add(
                old(self)@.limbo.to_multiset(),
            ),
            final(self)@ == (Zones {
                undrawn: final(self)@.undrawn,
                limbo: Seq::empty(),
                ..old(self)@
            }),
            final(self)@.cards() == old(self)@.cards(),
    {
        if !self.limbo.is_empty() {
            self.undrawn.append(&mut self.limbo);
            shuffle_cards(&mut self.undrawn, rng);
            proof {
                broadcast use vstd::multiset::group_multiset_axioms;

                vstd::seq_lib::lemma_multiset_commutative(old(self)@.undrawn, old(self)@.limbo);
                assert(self@.cards() =~= old(self)@.cards());
            }
        } else {
            proof {
                assert(self@.limbo =~= Seq::<Card>::empty());
                assert(old(self)@.limbo.to_multiset() =~= vstd::multiset::Multiset::empty());
                assert(self@.undrawn.to_multiset().add(old(self)@.limbo.to_multiset()) =~= self@.undrawn.to_multiset()) by {
                    broadcast use vstd::multiset::group_multiset_axioms;
                }
            }
        }
    }
}

} // verus!
