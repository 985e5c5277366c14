use vstd::prelude::*;
use crate::card::{color_index, kind_index, Card, Color, Kind};
use crate::content::Content;

verus! {

/// Number of cards of `color` in `s`.
pub open spec fn count_color(s: Seq<Card>, color: Color) -> nat
    decreases s.len(),
{
    if s.len() == 0 {
        0
    } else {
        count_color(s.drop_last(), color) + if s.last().color == color { 1nat } else { 0nat }
    }
}

/// Number of cards of `kind` in `s`.
pub open spec fn count_kind(s: Seq<Card>, kind: Kind) -> nat
    decreases s.len(),
{
    if s.len() == 0 {
        0
    } else {
        count_kind(s.drop_last(), kind) + if s.last().kind == kind { 1nat } else { 0nat }
    }
}

/// Number of cards of `color` and `kind` in `s`.
pub open spec fn count_card(s: Seq<Card>, color: Color, kind: Kind) -> nat
    decreases s.len(),
{
    if s.len() == 0 {
        0
    } else {
        count_card(s.drop_last(), color, kind) + if s.last().color == color && s.last().kind
            == kind {
            1nat
        } else {
            0nat
        }
    }
}

pub proof fn lemma_counts_bounded(s: Seq<Card>, color: Color, kind: Kind)
    ensures
        count_color(s, color) <= s.len(),
        count_kind(s, kind) <= s.len(),
        count_card(s, color, kind) <= s.len(),
    decreases s.len(),
{
    if s.len() > 0 {
        lemma_counts_bounded(s.drop_last(), color, kind);
    }
}

/// Number of locations (suns, moons and keys) in `s`.
pub open spec fn location_count(s: Seq<Card>) -> nat {
    count_kind(s, Kind::Sun) + count_kind(s, Kind::Moon) + count_kind(s, Kind::Key)
}

/// A kind's count read off the multiset of the cards.
proof fn lemma_count_kind_multiset(s: Seq<Card>, kind: Kind)
    ensures
        count_kind(s, kind) == s.to_multiset().count(Card { color: Color::Red, kind })
            + s.to_multiset().count(Card { color: Color::Blue, kind }) + s.to_multiset().count(
            Card { color: Color::Green, kind },
        ) + s.to_multiset().count(Card { color: Color::Yellow, kind }) + s.to_multiset().count(
            Card { color: Color::Void, kind },
        ),
    decreases s.len(),
{
    broadcast use vstd::multiset::group_multiset_axioms;
    broadcast use vstd::seq_lib::group_to_multiset_ensures;

    if s.len() == 0 {
        assert(s.to_multiset() =~= vstd::multiset::Multiset::empty());
    } else {
        let rest = s.drop_last();
        lemma_count_kind_multiset(rest, kind);
        assert(s =~= rest.push(s.last()));
        assert(s.to_multiset() == rest.to_multiset().insert(s.last()));
    }
}

/// Sequences holding the same cards hold the same number of locations.
pub proof fn lemma_location_count_multiset(a: Seq<Card>, b: Seq<Card>)
    requires
        a.to_multiset() == b.to_multiset(),
    ensures
        location_count(a) == location_count(b),
{
    lemma_count_kind_multiset(a, Kind::Sun);
    lemma_count_kind_multiset(b, Kind::Sun);
    lemma_count_kind_multiset(a, Kind::Moon);
    lemma_count_kind_multiset(b, Kind::Moon);
    lemma_count_kind_multiset(a, Kind::Key);
    lemma_count_kind_multiset(b, Kind::Key);
}

pub open spec fn pair_index(color: Color, kind: Kind) -> int {
    color_index(color) * 5 + kind_index(kind)
}

/// Tallies of a sequence of cards by colour, by kind and by both.
pub struct Count {
    colors: Vec<usize>,
    kinds: Vec<usize>,
    pairs: Vec<usize>,
    counted: Ghost<Seq<Card>>,
}

impl Count {
    /// The cards that were tallied.
    pub closed spec fn counted(&self) -> Seq<Card> {
        self.counted@
    }

    #[verifier::type_invariant]
    spec fn tallies_match(&self) -> bool {
        tallied(self.colors@, self.kinds@, self.pairs@, self.counted@)
    }

    /// Tallies the cards of `cards`.
    pub fn count(cards: &Vec<Card>) -> (r: Count)
        ensures
            r.counted() == cards@,
    {
        let mut colors: Vec<usize> = vec![0, 0, 0, 0, 0];
        let mut kinds: Vec<usize> = vec![0, 0, 0, 0, 0];
        let mut pairs: Vec<usize> = Vec::new();
        let mut k: usize = 0;
        while k < 25
            invariant
                k <= 25,
                pairs@.len() == k,
                forall|j: int| 0 <= j < k ==> pairs@[j] == 0,
            decreases 25 - k,
        {
            pairs.push(0);
            k = k + 1;
        }
        assert(tallied(colors@, kinds@, pairs@, cards@.subrange(0, 0)));
        let mut i: usize = 0;
        while i < cards.len()
            invariant
                i <= cards.len(),
                tallied(colors@, kinds@, pairs@, cards@.subrange(0, i as int)),
            decreases cards.len() - i,
        {
            let card = cards[i];
            let ghost prefix = cards@.subrange(0, i as int);
            let ghost next = cards@.subrange(0, i + 1);
            proof {
                assert(next.drop_last() =~= prefix);
                lemma_counts_bounded(prefix, card.color, card.kind);
            }
            let ci = card.color.index();
            let ki = card.kind.index();
            let pi = ci * 5 + ki;
            assert(pairs@[pair_index(card.color, card.kind)] == count_card(
                prefix,
                card.color,
                card.kind,
            ));
            assert(colors@[color_index(card.color)] == count_color(prefix, card.color));
            assert(kinds@[kind_index(card.kind)] == count_kind(prefix, card.kind));
            colors.set(ci, colors[ci] + 1);
            kinds.set(ki, kinds[ki] + 1);
            pairs.set(pi, pairs[pi] + 1);
            i = i + 1;
            proof {
                assert forall|c: Color| #[trigger] colors@[color_index(c)] == count_color(next, c) by {
                    assert(color_index(c) == ci ==> c == card.color);
                }
                assert forall|kd: Kind| #[trigger] kinds@[kind_index(kd)] == count_kind(next, kd) by {
                    assert(kind_index(kd) == ki ==> kd == card.kind);
                }
                assert forall|c: Color, kd: Kind| #[trigger] pairs@[pair_index(c, kd)] == count_card(next, c, kd) by {
                    assert(pair_index(c, kd) == pi ==> c == card.color && kd == card.kind);
                }
            }
        }
        assert(cards@.subrange(0, cards@.len() as int) =~= cards@);
        Count { colors, kinds, pairs, counted: Ghost(cards@) }
    }

    /// How many of the tallied cards have `color`.
    pub fn color(&self, color: &Color) -> (r: usize)
        ensures
            r == count_color(self.counted(), *color),
    {
        proof {
            use_type_invariant(self);
        }
        self.colors[color.index()]
    }

    /// How many of the tallied cards are of `kind`.
    pub fn kind(&self, kind: &Kind) -> (r: usize)
        ensures
            r == count_kind(self.counted(), *kind),
    {
        proof {
            use_type_invariant(self);
        }
        self.kinds[kind.index()]
    }

    /// How many of the tallied cards have the given colour and kind.
    pub fn color_kind(&self, color_kind: &(Color, Kind)) -> (r: usize)
        ensures
            r == count_card(self.counted(), color_kind.0, color_kind.1),
    {
        proof {
            use_type_invariant(self);
            assert(self.pairs@[pair_index(color_kind.0, color_kind.1)] == count_card(
                self.counted@,
                color_kind.0,
                color_kind.1,
            ));
        }
        self.pairs[color_kind.0.index() * 5 + color_kind.1.index()]
    }
}

spec fn tallied(colors: Seq<usize>, kinds: Seq<usize>, pairs: Seq<usize>, s: Seq<Card>) -> bool {
    &&& colors.len() == 5
    &&& kinds.len() == 5
    &&& pairs.len() == 25
    &&& forall|c: Color| #[trigger] colors[color_index(c)] == count_color(s, c)
    &&& forall|k: Kind| #[trigger] kinds[kind_index(k)] == count_kind(s, k)
    &&& forall|c: Color, k: Kind| #[trigger] pairs[pair_index(c, k)] == count_card(s, c, k)
}

impl Content {
    pub fn count_undrawn(&self) -> (r: Count)
        ensures
            r.counted() == self@.undrawn,
    {
        Count::count(self.get_undrawn())
    }

    pub fn count_discard(&self) -> (r: Count)
        ensures
            r.counted() == self@.discarded,
    {
        Count::count(self.get_discard())
    }

    pub fn count_limbo(&self) -> (r: Count)
        ensures
            r.counted() == self@.limbo,
    {
        Count::count(self.get_limbo())
    }

    pub fn count_explore(&self) -> (r: Count)
        ensures
            r.counted() == self@.explored,
    {
        Count::count(self.get_explore())
    }

    pub fn count_opened(&self) -> (r: Count)
        ensures
            r.counted() == self@.opened,
    {
        Count::count(self.get_opened())
    }

    pub fn count_hand(&self) -> (r: Count)
        ensures
            r.counted() == self@.hand,
    {
        Count::count(self.get_hand())
    }
}

} // verus!
