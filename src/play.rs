use vstd::prelude::*;
use vstd::multiset::Multiset;
use crate::action::{End, NightmareAction};
use crate::card::{Card, Kind};
use crate::content::{
    below_top, pulled, replenished, swap_removed, top_cards, Content, Zones, all_locations,
};
use crate::role::Actor;
use crate::rule::{can_obtain_door, has_key_of, may_open_door, put_opened_and_check, spec_can_obtain_door};

verus! {

broadcast use vstd::seq_lib::group_to_multiset_ensures;

/// Playing a location: a card of the same kind as the top explored card is
/// refused and goes back to the hand. Otherwise it goes on top of `explored`,
/// and when it completes a combo the first door of its colour is taken from
/// the deck and opened. The flag says whether that made eight open doors.
pub open spec fn played(z: Zones, card: Card) -> (Zones, bool) {
    if z.explored.len() > 0 && z.explored.last().kind == card.kind {
        (Zones { hand: z.hand.push(card), ..z }, false)
    } else {
        let z1 = Zones { explored: z.explored.push(card), ..z };
        if spec_can_obtain_door(z.explored, card.color, card.kind) {
            let pull = pulled(z1, card.color);
            match pull.1 {
                Some(door) => (
                    Zones { opened: pull.0.opened.push(door), ..pull.0 },
                    pull.0.opened.len() + 1 == 8,
                ),
                None => (pull.0, false),
            }
        } else {
            (z1, false)
        }
    }
}

/// Plays a location from outside the zones (it was taken from the hand).
pub fn on_played(content: &mut Content, card: Card) -> (r: Result<(), End>)
    requires
        card.spec_is_location(),
    ensures
        final(content)@ == played(old(content)@, card).0,
        r is Err <==> played(old(content)@, card).1,
        r matches Err(e) ==> e == End::Win,
        final(content)@.cards() == old(content)@.cards().insert(card),
        old(content)@.wf() ==> final(content)@.wf(),
        final(content)@.undrawn.len() <= old(content)@.undrawn.len(),
        win_checked(old(content)@, final(content)@, r),
{
    let explored = content.get_explore();
    if explored.len() > 0 && explored[explored.len() - 1].kind == card.kind {
        content.put_hand(card);
        return Ok(());
    }
    let eligible = can_obtain_door(content, card.color, card.kind);
    content.put_explore(card);
    if eligible {
        match content.pull_door(card.color) {
            Some(door) => {
                return put_opened_and_check(content, door);
            },
            None => {},
        }
    }
    Ok(())
}

/// Indices `p` name each position of a sequence of length `n` exactly once.
pub open spec fn is_permutation(p: Seq<int>, n: int) -> bool {
    &&& p.len() == n
    &&& forall|k: int| 0 <= k < n ==> 0 <= #[trigger] p[k] < n
    &&& forall|k: int, l: int| 0 <= k < l < n ==> p[k] != p[l]
}

pub open spec fn permuted(s: Seq<Card>, p: Seq<int>) -> Seq<Card> {
    Seq::new(p.len(), |k: int| s[p[k]])
}

/// Rearranging a sequence keeps its cards.
pub proof fn lemma_permuted_multiset(s: Seq<Card>, p: Seq<int>)
    requires
        is_permutation(p, s.len() as int),
    ensures
        permuted(s, p).to_multiset() == s.to_multiset(),
    decreases s.len(),
{
    broadcast use vstd::multiset::group_multiset_axioms;

    if s.len() == 0 {
        assert(permuted(s, p) =~= s);
    } else {
        let n = s.len() as int;
        let j = p[n - 1];
        let s2 = s.remove(j);
        let p2 = Seq::new((n - 1) as nat, |k: int| if p[k] > j { p[k] - 1 } else { p[k] });
        assert forall|k: int| 0 <= k < n - 1 implies 0 <= #[trigger] p2[k] < n - 1 by {
            assert(p[k] != p[n - 1]);
        }
        assert forall|k: int, l: int| 0 <= k < l < n - 1 implies p2[k] != p2[l] by {
            assert(p[k] != p[l]);
        }
        lemma_permuted_multiset(s2, p2);
        assert(permuted(s, p) =~= permuted(s2, p2).push(s[j]));
        assert(s.to_multiset().count(s[j]) > 0);
        assert(permuted(s, p).to_multiset() =~= s.to_multiset());
    }
}

/// The decision after a key discard is well formed: a discard index below five
/// and an ordering of the other four indices.
pub open spec fn valid_reaction(discard_idx: int, keep: Seq<usize>) -> bool {
    &&& 0 <= discard_idx < 5
    &&& keep.len() == 4
    &&& forall|k: int| 0 <= k < 4 ==> (#[trigger] keep[k]) < 5 && keep[k] != discard_idx
    &&& forall|k: int, l: int| 0 <= k < l < 4 ==> keep[k] != keep[l]
}

/// The four kept cards as they go back on the deck: the first listed ends on top.
pub open spec fn returned_cards(drawn: Seq<Card>, keep: Seq<usize>) -> Seq<Card> {
    Seq::new(4, |k: int| drawn[keep[3 - k] as int])
}

/// Whether the decision taken after a key discard is well formed.
pub fn reaction_is_valid(discard_idx: usize, keep: &Vec<usize>) -> (r: bool)
    ensures
        r == valid_reaction(discard_idx as int, keep@),
{
    if discard_idx >= 5 || keep.len() != 4 {
        return false;
    }
    let mut k: usize = 0;
    while k < 4
        invariant
            keep@.len() == 4,
            discard_idx < 5,
            0 <= k <= 4,
            forall|a: int| 0 <= a < k ==> (#[trigger] keep@[a]) < 5 && keep@[a] != discard_idx,
            forall|a: int, b: int| 0 <= a < b < k ==> keep@[a] != keep@[b],
        decreases 4 - k,
    {
        if keep[k] >= 5 || keep[k] == discard_idx {
            return false;
        }
        let mut l: usize = 0;
        while l < k && keep[l] != keep[k]
            invariant
                keep@.len() == 4,
                0 <= l <= k < 4,
                forall|b: int| 0 <= b < l ==> keep@[b] != keep@[k as int],
            decreases k - l,
        {
            l = l + 1;
        }
        if l < k {
            return false;
        }
        k = k + 1;
    }
    true
}

/// Puts `cards` on top of the deck in order: the last one ends on top.
fn put_back(content: &mut Content, cards: &Vec<Card>)
    ensures
        final(content)@ == (Zones { undrawn: old(content)@.undrawn + cards@, ..old(content)@ }),
        final(content)@.cards() == old(content)@.cards().add(cards@.to_multiset()),
{
    let ghost before = content@;
    let mut i: usize = 0;
    while i < cards.len()
        invariant
            i <= cards.len(),
            content@ == (Zones {
                undrawn: before.undrawn + cards@.subrange(0, i as int),
                ..before
            }),
            content@.cards() == before.cards().add(cards@.subrange(0, i as int).to_multiset()),
        decreases cards.len() - i,
    {
        content.put_undrawn(cards[i]);
        proof {
            broadcast use vstd::multiset::group_multiset_axioms;

            assert(cards@.subrange(0, i + 1) =~= cards@.subrange(0, i as int).push(cards@[i as int]));
            assert(before.undrawn + cards@.subrange(0, i + 1) =~= (before.undrawn
                + cards@.subrange(0, i as int)).push(cards@[i as int]));
        }
        i = i + 1;
    }
    assert(cards@.subrange(0, cards@.len() as int) =~= cards@);
}

/// A well-formed decision neither loses nor adds a card.
proof fn lemma_reaction_keeps_cards(drawn: Seq<Card>, discard_idx: int, keep: Seq<usize>)
    requires
        drawn.len() == 5,
        valid_reaction(discard_idx, keep),
    ensures
        drawn.to_multiset() == Multiset::empty().insert(drawn[discard_idx]).insert(
            returned_cards(drawn, keep)[0],
        ).insert(returned_cards(drawn, keep)[1]).insert(returned_cards(drawn, keep)[2]).insert(
            returned_cards(drawn, keep)[3],
        ),
{
    broadcast use vstd::multiset::group_multiset_axioms;

    let ret = returned_cards(drawn, keep);
    let p = seq![discard_idx, keep[3] as int, keep[2] as int, keep[1] as int, keep[0] as int];
    lemma_permuted_multiset(drawn, p);
    let x = drawn[discard_idx];
    let e = Seq::<Card>::empty();
    let s1 = e.push(x);
    let s2 = s1.push(ret[0]);
    let s3 = s2.push(ret[1]);
    let s4 = s3.push(ret[2]);
    let s5 = s4.push(ret[3]);
    assert(permuted(drawn, p) =~= s5);
    let t1 = e.push(ret[0]);
    let t2 = t1.push(ret[1]);
    let t3 = t2.push(ret[2]);
    let t4 = t3.push(ret[3]);
    assert(ret =~= t4);
    assert(e.to_multiset() =~= Multiset::empty());
    assert(s5.to_multiset() == s4.to_multiset().insert(ret[3]));
    assert(s4.to_multiset() == s3.to_multiset().insert(ret[2]));
    assert(s3.to_multiset() == s2.to_multiset().insert(ret[1]));
    assert(s2.to_multiset() == s1.to_multiset().insert(ret[0]));
    assert(s1.to_multiset() == e.to_multiset().insert(x));
    assert(t4.to_multiset() == t3.to_multiset().insert(ret[3]));
    assert(t3.to_multiset() == t2.to_multiset().insert(ret[2]));
    assert(t2.to_multiset() == t1.to_multiset().insert(ret[1]));
    assert(t1.to_multiset() == e.to_multiset().insert(ret[0]));
}

/// Applies the decision taken on the five cards drawn after a key discard:
/// one goes to the discard pile and the other four back on top of the deck in
/// the order given. A malformed decision puts the five back as they were
/// drawn and is refused.
pub fn apply_key_reaction(
    content: &mut Content,
    drawn: &Vec<Card>,
    discard_idx: usize,
    keep: &Vec<usize>,
) -> (r: Result<(), End>)
    requires
        drawn@.len() == 5,
    ensures
        valid_reaction(discard_idx as int, keep@) ==> r is Ok && final(content)@ == (Zones {
            discarded: old(content)@.discarded.push(drawn@[discard_idx as int]),
            undrawn: old(content)@.undrawn + returned_cards(drawn@, keep@),
            ..old(content)@
        }),
        !valid_reaction(discard_idx as int, keep@) ==> r == Err::<(), End>(End::BadParameter)
            && final(content)@ == (Zones {
            undrawn: old(content)@.undrawn + drawn@,
            ..old(content)@
        }),
        final(content)@.cards() == old(content)@.cards().add(drawn@.to_multiset()),
{
    if !reaction_is_valid(discard_idx, keep) {
        put_back(content, drawn);
        return Err(End::BadParameter);
    }
    let ghost before = content@;
    content.put_discard(drawn[discard_idx]);
    content.put_undrawn(drawn[keep[3]]);
    content.put_undrawn(drawn[keep[2]]);
    content.put_undrawn(drawn[keep[1]]);
    content.put_undrawn(drawn[keep[0]]);
    proof {
        broadcast use vstd::multiset::group_multiset_axioms;

        let ret = returned_cards(drawn@, keep@);
        assert(content@.undrawn =~= before.undrawn + ret);
        lemma_reaction_keeps_cards(drawn@, discard_idx as int, keep@);
        assert(content@.cards() =~= before.cards().add(drawn@.to_multiset()));
    }
    Ok(())
}

/// A step ends in `Win` exactly when it opened a door and that made eight,
/// and it opens at most one door.
pub open spec fn win_checked(before: Zones, after: Zones, r: Result<(), End>) -> bool {
    &&& after.opened.len() <= before.opened.len() + 1
    &&& (r == Err::<(), End>(End::Win)) <==> (after.opened.len() == 8 && after.opened.len()
        > before.opened.len())
}

/// What discarding a location from outside the zones does: anything but a
/// key goes to the discard pile; a key first draws five cards, of which the
/// actor discards one and orders the rest back onto the deck, and then
/// settles on the discard pile; with fewer than five cards left that is
/// `Lose`, and a malformed decision puts the five back and is refused.
pub open spec fn discard_outcome(before: Zones, after: Zones, card: Card, r: Result<(), End>) -> bool {
    let filed = Zones { discarded: before.discarded.push(card), ..before };
    &&& after.hand == before.hand
    &&& after.explored == before.explored
    &&& after.opened == before.opened
    &&& after.limbo == before.limbo
    &&& after.undrawn.len() <= before.undrawn.len()
    &&& card.kind != Kind::Key ==> r is Ok && after == filed
    &&& card.kind == Kind::Key && before.undrawn.len() < 5 ==> r == Err::<(), End>(End::Lose)
        && after == filed
    &&& card.kind == Kind::Key && before.undrawn.len() >= 5 ==> (r is Ok || r == Err::<(), End>(
        End::BadParameter,
    ))
    &&& r == Err::<(), End>(End::BadParameter) ==> after == filed
    &&& r is Ok && card.kind == Kind::Key ==> exists|d: int, keep: Seq<usize>|
        {
            let top = top_cards(before.undrawn, 5);
            &&& #[trigger] valid_reaction(d, keep)
            &&& after == (Zones {
                discarded: before.discarded.push(top[d]).push(card),
                undrawn: below_top(before.undrawn, 5) + returned_cards(top, keep),
                ..before
            })
        }
}

/// Discards a location from outside the zones (it was taken from the hand).
/// A key first draws five cards, lets the actor discard one and order the
/// rest back onto the deck, and only then settles on the discard pile; with
/// fewer than five cards left that is `Lose`.
pub fn on_discarded<A: Actor>(content: &mut Content, actor: &mut A, card: Card) -> (r: Result<
    (),
    End,
>)
    requires
        card.spec_is_location(),
    ensures
        final(content)@.cards() == old(content)@.cards().insert(card),
        discard_outcome(old(content)@, final(content)@, card, r),
        win_checked(old(content)@, final(content)@, r),
{
    if card.kind == Kind::Key {
        match content.draw(5) {
            None => {
                content.put_discard(card);
                return Err(End::Lose);
            },
            Some(drawn) => {
                let (discard_idx, keep) = actor.key_discard_react(content, &drawn);
                let r = apply_key_reaction(content, &drawn, discard_idx, &keep);
                content.put_discard(card);
                proof {
                    broadcast use vstd::multiset::group_multiset_axioms;

                    assert(content@.cards() =~= old(content)@.cards().insert(card));
                    if r is Ok {
                        assert(valid_reaction(discard_idx as int, keep@));
                    } else {
                        lemma_split_back(old(content)@.undrawn, 5);
                    }
                }
                return r;
            },
        }
    }
    content.put_discard(card);
    Ok(())
}

proof fn lemma_split_back(s: Seq<Card>, k: int)
    requires
        0 <= k <= s.len(),
    ensures
        below_top(s, k) + top_cards(s, k) == s,
{
    assert(below_top(s, k) + top_cards(s, k) =~= s);
}

pub open spec fn is_first_key(s: Seq<Card>, color: crate::card::Color, i: int) -> bool {
    &&& 0 <= i < s.len()
    &&& s[i].kind == Kind::Key
    &&& s[i].color == color
    &&& forall|j: int| 0 <= j < i ==> !((#[trigger] s[j]).kind == Kind::Key && s[j].color == color)
}

/// Opening a drawn door: the first key of its colour in the hand is
/// discarded and the door joins the opened ones. The flag says whether that
/// made eight.
pub open spec fn opened_with_key(z: Zones, door: Card) -> (Zones, bool) {
    let i = choose|i: int| is_first_key(z.hand, door.color, i);
    let z1 = Zones {
        hand: swap_removed(z.hand, i),
        discarded: z.discarded.push(z.hand[i]),
        ..z
    };
    (Zones { opened: z1.opened.push(door), ..z1 }, z1.opened.len() + 1 == 8)
}

/// Opens a drawn door with a key of its colour from the hand.
pub fn open_drawn_door(content: &mut Content, door: Card) -> (r: Result<(), End>)
    requires
        has_key_of(old(content)@.hand, door.color),
    ensures
        final(content)@ == opened_with_key(old(content)@, door).0,
        r is Err <==> opened_with_key(old(content)@, door).1,
        r matches Err(e) ==> e == End::Win,
        final(content)@.cards() == old(content)@.cards().insert(door),
        old(content)@.wf() ==> final(content)@.wf(),
{
    let hand = content.get_hand();
    let mut i: usize = 0;
    while i < hand.len()
        invariant
            hand@ == content@.hand,
            content@ == old(content)@,
            i <= hand.len(),
            has_key_of(hand@, door.color),
            forall|j: int| 0 <= j < i ==> !((#[trigger] hand@[j]).kind == Kind::Key && hand@[j].color == door.color),
        ensures
            i < hand.len() ==> hand@[i as int].kind == Kind::Key && hand@[i as int].color == door.color,
        decreases hand.len() - i,
    {
        if hand[i].kind == Kind::Key && hand[i].color == door.color {
            break;
        }
        i = i + 1;
    }
    if i == hand.len() {
        proof {
            let j = choose|j: int| 0 <= j < hand@.len() && (#[trigger] hand@[j]).kind == Kind::Key && hand@[j].color == door.color;
            assert(!(hand@[j].kind == Kind::Key && hand@[j].color == door.color));
        }
        return Ok(());
    }
    proof {
        assert(is_first_key(old(content)@.hand, door.color, i as int));
        let j = choose|j: int| is_first_key(old(content)@.hand, door.color, j);
        assert(j == i);
    }
    content.discard_hand(i);
    put_opened_and_check(content, door)
}

/// A drawn door: opened when the hand holds a key of its colour and the actor
/// agrees, otherwise set aside in limbo.
pub fn door_drawn<A: Actor>(content: &mut Content, actor: &mut A, door: Card) -> (r: Result<
    (),
    End,
>)
    ensures
        final(content)@.cards() == old(content)@.cards().insert(door),
        old(content)@.wf() ==> final(content)@.wf(),
        final(content)@.undrawn == old(content)@.undrawn,
        !has_key_of(old(content)@.hand, door.color) ==> r is Ok && final(content)@ == (Zones {
            limbo: old(content)@.limbo.push(door),
            ..old(content)@
        }),
        has_key_of(old(content)@.hand, door.color) ==> {
            ||| r is Ok && final(content)@ == (Zones {
                limbo: old(content)@.limbo.push(door),
                ..old(content)@
            })
            ||| final(content)@ == opened_with_key(old(content)@, door).0 && (r is Err
                <==> opened_with_key(old(content)@, door).1)
        },
        win_checked(old(content)@, final(content)@, r),
        final(content)@.explored == old(content)@.explored,
        final(content)@.discarded.len() >= old(content)@.discarded.len(),
        r is Err ==> r == Err::<(), End>(End::Win),
{
    if may_open_door(content, door.color) && actor.open_door(content) {
        open_drawn_door(content, door)
    } else {
        content.put_limbo(door);
        Ok(())
    }
}

/// Cards after a deck resolution: locations to the discard pile, anything
/// else to limbo, in order.
pub open spec fn routed(z: Zones, cards: Seq<Card>) -> Zones
    decreases cards.len(),
{
    if cards.len() == 0 {
        z
    } else {
        let z1 = routed(z, cards.drop_last());
        let c = cards.last();
        if c.spec_is_location() {
            Zones { discarded: z1.discarded.push(c), ..z1 }
        } else {
            Zones { limbo: z1.limbo.push(c), ..z1 }
        }
    }
}

/// Routing only adds to the discard pile and limbo.
pub proof fn lemma_routed(z: Zones, cards: Seq<Card>)
    ensures
        routed(z, cards).undrawn == z.undrawn,
        routed(z, cards).hand == z.hand,
        routed(z, cards).opened == z.opened,
        routed(z, cards).explored == z.explored,
        routed(z, cards).discarded.len() >= z.discarded.len(),
    decreases cards.len(),
{
    if cards.len() > 0 {
        lemma_routed(z, cards.drop_last());
    }
}

/// Nightmare by key: discards the key at hand index `idx`; refused when
/// there is no such index or the card there is not a key.
pub open spec fn key_resolved(z: Zones, idx: Option<usize>) -> (Zones, Result<(), End>) {
    if idx matches Some(i) && i < z.hand.len() && z.hand[i as int].kind == Kind::Key {
        (
            Zones {
                hand: swap_removed(z.hand, idx->0 as int),
                discarded: z.discarded.push(z.hand[idx->0 as int]),
                ..z
            },
            Ok(()),
        )
    } else {
        (z, Err(End::BadParameter))
    }
}

/// Nightmare by door: sends the opened door at `idx` back to limbo; refused
/// when there is no such index.
pub open spec fn door_resolved(z: Zones, idx: Option<usize>) -> (Zones, Result<(), End>) {
    if idx matches Some(i) && i < z.opened.len() {
        (
            Zones {
                opened: swap_removed(z.opened, idx->0 as int),
                limbo: z.limbo.push(z.opened[idx->0 as int]),
                ..z
            },
            Ok(()),
        )
    } else {
        (z, Err(End::BadParameter))
    }
}

/// Nightmare by hand: the whole hand is discarded and refilled; `Lose` when
/// the deck runs out first. Takes no index.
pub open spec fn hand_resolved(z: Zones, idx: Option<usize>) -> (Zones, Result<(), End>) {
    if idx is Some {
        (z, Err(End::BadParameter))
    } else {
        let refill = replenished(
            Zones { hand: Seq::empty(), discarded: z.discarded + z.hand, ..z },
        );
        (refill.0, if refill.1 { Ok(()) } else { Err(End::Lose) })
    }
}

/// Nightmare by deck: the top five cards are drawn, locations discarded and
/// the rest set aside in limbo; `Lose` when fewer than five remain. Takes no
/// index.
pub open spec fn deck_resolved(z: Zones, idx: Option<usize>) -> (Zones, Result<(), End>) {
    if idx is Some {
        (z, Err(End::BadParameter))
    } else if z.undrawn.len() < 5 {
        (z, Err(End::Lose))
    } else {
        (routed(Zones { undrawn: below_top(z.undrawn, 5), ..z }, top_cards(z.undrawn, 5)), Ok(()))
    }
}

pub open spec fn resolved(z: Zones, action: NightmareAction, idx: Option<usize>) -> (
    Zones,
    Result<(), End>,
) {
    match action {
        NightmareAction::ByKey => key_resolved(z, idx),
        NightmareAction::ByDoor => door_resolved(z, idx),
        NightmareAction::ByHand => hand_resolved(z, idx),
        NightmareAction::ByDeck => deck_resolved(z, idx),
    }
}

/// Nightmare by key.
pub fn by_key(content: &mut Content, idx: Option<usize>) -> (r: Result<(), End>)
    ensures
        (final(content)@, r) == key_resolved(old(content)@, idx),
        final(content)@.cards() == old(content)@.cards(),
        old(content)@.wf() ==> final(content)@.wf(),
{
    match idx {
        None => Err(End::BadParameter),
        Some(i) => {
            if i >= content.get_hand().len() || content.get_hand()[i].kind != Kind::Key {
                return Err(End::BadParameter);
            }
            content.discard_hand(i);
            Ok(())
        },
    }
}

/// Nightmare by door.
pub fn by_door(content: &mut Content, idx: Option<usize>) -> (r: Result<(), End>)
    ensures
        (final(content)@, r) == door_resolved(old(content)@, idx),
        final(content)@.cards() == old(content)@.cards(),
{
    match idx {
        None => Err(End::BadParameter),
        Some(i) => {
            if i >= content.get_opened().len() {
                return Err(End::BadParameter);
            }
            let door = content.take_opened(i);
            content.put_limbo(door);
            Ok(())
        },
    }
}

/// Nightmare by hand.
pub fn by_hand(content: &mut Content, idx: Option<usize>) -> (r: Result<(), End>)
    ensures
        (final(content)@, r) == hand_resolved(old(content)@, idx),
        final(content)@.cards() == old(content)@.cards(),
        final(content)@.undrawn.len() <= old(content)@.undrawn.len(),
        final(content)@.opened == old(content)@.opened,
        old(content)@.wf() ==> final(content)@.wf(),
{
    if idx.is_some() {
        return Err(End::BadParameter);
    }
    content.discard_all_hand();
    proof {
        crate::content::lemma_replenished(content@);
        assert(all_locations(content@.hand));
        assert(content@.hand =~= Seq::<Card>::empty());
    }
    let r = content.replenish_hand();
    match r {
        Ok(()) => Ok(()),
        Err(_) => Err(End::Lose),
    }
}

/// Nightmare by deck.
pub fn by_deck(content: &mut Content, idx: Option<usize>) -> (r: Result<(), End>)
    ensures
        (final(content)@, r) == deck_resolved(old(content)@, idx),
        final(content)@.cards() == old(content)@.cards(),
        final(content)@.undrawn.len() <= old(content)@.undrawn.len(),
        final(content)@.hand == old(content)@.hand,
        final(content)@.opened == old(content)@.opened,
{
    if idx.is_some() {
        return Err(End::BadParameter);
    }
    let drawn = match content.draw(5) {
        None => {
            return Err(End::Lose);
        },
        Some(drawn) => drawn,
    };
    let ghost start = content@;
    let mut i: usize = 0;
    assert(drawn@.subrange(0, drawn@.len() as int) =~= drawn@);
    assert(drawn@.subrange(0, 0) =~= Seq::<Card>::empty());
    while i < drawn.len()
        invariant
            i <= drawn.len(),
            content@ == routed(start, drawn@.subrange(0, i as int)),
            content@.cards().add(drawn@.subrange(i as int, drawn@.len() as int).to_multiset())
                == old(content)@.cards(),
            content@.undrawn == start.undrawn,
            content@.hand == start.hand,
            content@.opened == start.opened,
        decreases drawn.len() - i,
    {
        let card = drawn[i];
        if card.is_location() {
            content.put_discard(card);
        } else {
            content.put_limbo(card);
        }
        proof {
            broadcast use vstd::multiset::group_multiset_axioms;

            assert(drawn@.subrange(0, i + 1).drop_last() =~= drawn@.subrange(0, i as int));
            let rest = drawn@.subrange(i as int, drawn@.len() as int);
            assert(rest =~= seq![card] + drawn@.subrange(i + 1, drawn@.len() as int));
            vstd::seq_lib::lemma_multiset_commutative(
                seq![card],
                drawn@.subrange(i + 1, drawn@.len() as int),
            );
            assert(seq![card] =~= Seq::<Card>::empty().push(card));
        }
        i = i + 1;
    }
    proof {
        assert(drawn@.subrange(0, drawn@.len() as int) =~= drawn@);
        assert(drawn@.subrange(drawn@.len() as int, drawn@.len() as int) =~= Seq::<Card>::empty());
        assert(content@.cards() =~= content@.cards().add(Multiset::empty())) by {
            broadcast use vstd::multiset::group_multiset_axioms;
        }
    }
    Ok(())
}

/// Resolves a nightmare as the actor chose; the nightmare card itself is not
/// among the zones here.
pub fn resolve_nightmare(content: &mut Content, action: NightmareAction, idx: Option<usize>) -> (r:
    Result<(), End>)
    ensures
        (final(content)@, r) == resolved(old(content)@, action, idx),
        final(content)@.cards() == old(content)@.cards(),
        final(content)@.undrawn.len() <= old(content)@.undrawn.len(),
        final(content)@.opened.len() <= old(content)@.opened.len(),
        old(content)@.wf() ==> final(content)@.wf(),
        r matches Err(e) ==> e != End::Win,
        final(content)@.explored == old(content)@.explored,
        final(content)@.discarded.len() >= old(content)@.discarded.len(),
        r == Err::<(), End>(End::Lose) ==> final(content)@.undrawn.len() < 5
            && (final(content)@.hand.len() < 5 || final(content)@.hand == old(content)@.hand),
{
    proof {
        let z = old(content)@;
        let emptied = Zones { hand: Seq::empty(), discarded: z.discarded + z.hand, ..z };
        crate::content::lemma_replenished(emptied);
        lemma_routed(Zones { undrawn: below_top(z.undrawn, 5), ..z }, top_cards(z.undrawn, 5));
    }
    match action {
        NightmareAction::ByKey => by_key(content, idx),
        NightmareAction::ByDoor => by_door(content, idx),
        NightmareAction::ByHand => by_hand(content, idx),
        NightmareAction::ByDeck => by_deck(content, idx),
    }
}

/// A drawn nightmare: the actor picks a resolution, which is applied, and the
/// nightmare then goes to the discard pile, whatever came of it.
pub fn nightmare_drawn<A: Actor>(content: &mut Content, actor: &mut A, card: Card) -> (r: Result<
    (),
    End,
>)
    ensures
        exists|action: NightmareAction, idx: Option<usize>|
            {
                let res = #[trigger] resolved(old(content)@, action, idx);
                &&& final(content)@ == (Zones { discarded: res.0.discarded.push(card), ..res.0 })
                &&& r == res.1
            },
        final(content)@.cards() == old(content)@.cards().insert(card),
        final(content)@.undrawn.len() <= old(content)@.undrawn.len(),
        old(content)@.wf() ==> final(content)@.wf(),
        win_checked(old(content)@, final(content)@, r),
        final(content)@.explored == old(content)@.explored,
        final(content)@.discarded.len() > old(content)@.discarded.len(),
        r == Err::<(), End>(End::Lose) ==> final(content)@.undrawn.len() < 5
            && (final(content)@.hand.len() < 5 || final(content)@.hand == old(content)@.hand),
{
    let (action, idx) = actor.nightmare_action(content);
    let r = resolve_nightmare(content, action, idx);
    content.put_discard(card);
    r
}

/// What happens to a card drawn in the draw phase: a location joins the hand,
/// a door is opened or set aside, a nightmare is resolved. A door never ends
/// in the hand.
pub fn on_drawn<A: Actor>(content: &mut Content, actor: &mut A, card: Card) -> (r: Result<(), End>)
    ensures
        card.spec_is_location() ==> r is Ok && final(content)@ == (Zones {
            hand: old(content)@.hand.push(card),
            ..old(content)@
        }),
        card.kind == Kind::Door && !has_key_of(old(content)@.hand, card.color) ==> r is Ok
            && final(content)@ == (Zones { limbo: old(content)@.limbo.push(card), ..old(content)@ }),
        card.kind == Kind::Door && has_key_of(old(content)@.hand, card.color) ==> {
            ||| r is Ok && final(content)@ == (Zones {
                limbo: old(content)@.limbo.push(card),
                ..old(content)@
            })
            ||| final(content)@ == opened_with_key(old(content)@, card).0 && (r is Err
                <==> opened_with_key(old(content)@, card).1)
        },
        card.kind == Kind::Nightmare ==> exists|action: NightmareAction, idx: Option<usize>|
            {
                let res = #[trigger] resolved(old(content)@, action, idx);
                &&& final(content)@ == (Zones { discarded: res.0.discarded.push(card), ..res.0 })
                &&& r == res.1
            },
        final(content)@.cards() == old(content)@.cards().insert(card),
        final(content)@.undrawn.len() <= old(content)@.undrawn.len(),
        old(content)@.wf() ==> final(content)@.wf(),
        win_checked(old(content)@, final(content)@, r),
        final(content)@.explored == old(content)@.explored,
        final(content)@.discarded.len() >= old(content)@.discarded.len(),
        r == Err::<(), End>(End::Lose) ==> final(content)@.undrawn.len() < 5
            && (final(content)@.hand.len() < 5 || final(content)@.hand == old(content)@.hand),
{
    match card.kind {
        Kind::Sun | Kind::Moon | Kind::Key => {
            content.put_hand(card);
            Ok(())
        },
        Kind::Door => door_drawn(content, actor, card),
        Kind::Nightmare => nightmare_drawn(content, actor, card),
    }
}

} // verus!
