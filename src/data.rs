use vstd::prelude::*;
use crate::card::{nightmare, spec_colors, Card, Color, Kind};
use crate::content::{Content, Zones};

verus! {

pub open spec fn copies(card: Card, n: nat) -> Seq<Card> {
    Seq::new(n, |_i: int| card)
}

/// `n` cards of `kind` in each of the first `k` playable colours, colour by colour.
pub open spec fn in_colors(kind: Kind, n: nat, k: int) -> Seq<Card>
    decreases k,
{
    if k <= 0 {
        Seq::empty()
    } else {
        in_colors(kind, n, k - 1) + copies(Card { color: spec_colors()[k - 1], kind }, n)
    }
}

/// The standard deck, in construction order: 9, 8, 7 and 6 suns of red, blue,
/// green and yellow; 4 moons, 3 keys and 2 doors of each colour; 10 nightmares.
pub open spec fn basic_deck() -> Seq<Card> {
    copies(Card { color: Color::Red, kind: Kind::Sun }, 9) + copies(
        Card { color: Color::Blue, kind: Kind::Sun },
        8,
    ) + copies(Card { color: Color::Green, kind: Kind::Sun }, 7) + copies(
        Card { color: Color::Yellow, kind: Kind::Sun },
        6,
    ) + in_colors(Kind::Moon, 4, 4) + in_colors(Kind::Key, 3, 4) + in_colors(Kind::Door, 2, 4)
        + copies(Card { color: Color::Void, kind: Kind::Nightmare }, 10)
}

fn copies_of(card: Card, count: usize) -> (r: Vec<Card>)
    ensures
        r@ == copies(card, count as nat),
{
    let mut r: Vec<Card> = Vec::new();
    let mut i: usize = 0;
    while i < count
        invariant
            i <= count,
            r@ == copies(card, i as nat),
        decreases count - i,
    {
        r.push(card);
        i = i + 1;
        assert(r@ =~= copies(card, i as nat));
    }
    r
}

fn color_cards(kind: Kind, color: Color, count: usize) -> (r: Vec<Card>)
    ensures
        r@ == copies(Card { color, kind }, count as nat),
{
    copies_of(Card { color, kind }, count)
}

fn all_color_cards(kind: Kind, count: usize) -> (r: Vec<Card>)
    ensures
        r@ == in_colors(kind, count as nat, 4),
{
    let colors = Color::colors();
    let mut cards: Vec<Card> = Vec::new();
    let mut i: usize = 0;
    while i < colors.len()
        invariant
            colors@ == spec_colors(),
            i <= colors.len(),
            cards@ == in_colors(kind, count as nat, i as int),
        decreases colors.len() - i,
    {
        let mut more = color_cards(kind, colors[i], count);
        cards.append(&mut more);
        i = i + 1;
    }
    cards
}

fn no_color_cards(count: usize) -> (r: Vec<Card>)
    ensures
        r@ == copies(Card { color: Color::Void, kind: Kind::Nightmare }, count as nat),
{
    copies_of(nightmare(), count)
}

/// The 76 cards of the standard deck, unshuffled.
pub fn starting_cards_basic() -> (r: Vec<Card>)
    ensures
        r@ == basic_deck(),
        r@.len() == 76,
{
    let mut cards: Vec<Card> = Vec::new();
    cards.append(&mut color_cards(Kind::Sun, Color::Red, 9));
    cards.append(&mut color_cards(Kind::Sun, Color::Blue, 8));
    cards.append(&mut color_cards(Kind::Sun, Color::Green, 7));
    cards.append(&mut color_cards(Kind::Sun, Color::Yellow, 6));
    cards.append(&mut all_color_cards(Kind::Moon, 4));
    cards.append(&mut all_color_cards(Kind::Key, 3));
    cards.append(&mut all_color_cards(Kind::Door, 2));
    cards.append(&mut no_color_cards(10));
    proof {
        assert(Seq::<Card>::empty() + copies(Card { color: Color::Red, kind: Kind::Sun }, 9)
            =~= copies(Card { color: Color::Red, kind: Kind::Sun }, 9));
        reveal_with_fuel(in_colors, 5);
    }
    cards
}

/// A fresh game: the standard deck, all undrawn.
pub fn starting_content_basic() -> (r: Content)
    ensures
        r@ == (Zones {
            undrawn: basic_deck(),
            discarded: Seq::empty(),
            limbo: Seq::empty(),
            explored: Seq::empty(),
            opened: Seq::empty(),
            hand: Seq::empty(),
        }),
        r@.cards().len() == 76,
        crate::content::card_count(r@) == 76,
{
    let r = Content::new(starting_cards_basic());
    proof {
        broadcast use vstd::multiset::group_multiset_axioms;
        broadcast use vstd::seq_lib::group_to_multiset_ensures;

        assert(Seq::<Card>::empty().to_multiset().len() == 0);
    }
    r
}

} // verus!
