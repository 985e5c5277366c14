use vstd::prelude::*;
use crate::card::{nightmare, spec_colors, Card, Color, Kind};
use crate::content::{Content, Zones};
use crate::count::{count_card, count_color, count_kind, lemma_counts_bounded, Count};
use crate::evaluator::Evaluator;
use crate::rule::{combo_count, spec_combo_count};

verus! {

pub const NIGHTMARE_SCORE: i64 = 10000000000;

pub const DOOR_SCORE: i64 = 10000000000;

pub const WIN_SCORE: i64 = 100000000000;

pub const LOSE_BASE_SCORE: i64 = -1000000000000;

/// Counts above this, far beyond the 76 cards of a deck, are taken as this;
/// it keeps every score within `i64`.
pub const COUNT_CAP: usize = 1000;

pub open spec fn cap(n: nat) -> int {
    if n > COUNT_CAP { COUNT_CAP as int } else { n as int }
}

/// Rust's division by two, which rounds towards zero.
pub open spec fn trunc_half(x: int) -> int {
    if x >= 0 { x / 2 } else { -((-x) / 2) }
}

/// Cards of `color` and `kind` still to be had: undrawn, in limbo or in hand.
pub open spec fn available(z: Zones, color: Color, kind: Kind) -> nat {
    count_card(z.undrawn, color, kind) + count_card(z.limbo, color, kind) + count_card(
        z.hand,
        color,
        kind,
    )
}

pub open spec fn opened_of(z: Zones, color: Color) -> int {
    cap(count_color(z.opened, color))
}

/// The combo count, when the top explored card has `color`.
pub open spec fn combo_for(z: Zones, color: Color) -> int {
    if z.explored.len() > 0 && z.explored.last().color == color {
        spec_combo_count(z.explored) as int
    } else {
        0
    }
}

/// A colour whose two doors can no longer all be claimed: too few suns,
/// moons and combo progress for runs of three, and too few keys.
pub open spec fn short_of_doors(z: Zones, color: Color) -> bool {
    let op = opened_of(z, color);
    &&& op != 2
    &&& (cap(available(z, color, Kind::Sun)) + cap(available(z, color, Kind::Moon)) + combo_for(
        z,
        color,
    )) / 3 + cap(available(z, color, Kind::Key)) < 2 - op
}

/// A large penalty when a door was discarded, a slightly smaller one when
/// some colour cannot get both its doors any more, else nothing.
pub open spec fn lose_score(z: Zones) -> int {
    if count_kind(z.discarded, Kind::Door) > 0 {
        LOSE_BASE_SCORE as int
    } else if exists|i: int| 0 <= i < 4 && short_of_doors(z, #[trigger] spec_colors()[i]) {
        LOSE_BASE_SCORE + 1
    } else {
        0
    }
}

pub open spec fn opened_score(z: Zones) -> int {
    cap(z.opened.len()) * DOOR_SCORE + if z.opened.len() == 8 { WIN_SCORE as int } else { 0 }
}

pub open spec fn nightmare_score(z: Zones) -> int {
    cap(count_kind(z.discarded, Kind::Nightmare)) * NIGHTMARE_SCORE
}

pub open spec fn key_term(z: Zones, color: Color) -> int {
    cap(available(z, color, Kind::Key)) * 10000 * (10 + (2 - opened_of(z, color)))
}

/// Keys still to be had, weighted up for colours with fewer open doors,
/// summed over the first `k` colours.
pub open spec fn key_score(z: Zones, k: int) -> int
    decreases k,
{
    if k <= 0 {
        0
    } else {
        key_score(z, k - 1) + key_term(z, spec_colors()[k - 1])
    }
}

pub open spec fn sun_moon_term(z: Zones, color: Color) -> int {
    let suns = cap(available(z, color, Kind::Sun));
    let moons = cap(available(z, color, Kind::Moon));
    let count = if suns < moons { suns } else { moons };
    let op = opened_of(z, color);
    let weight = if op == 2 { 1 } else { 6 + (2 - op) };
    trunc_half((21 - count) * count) * weight * 10
}

/// Sun and moon pairs still to be had, weighted by the colour's open doors,
/// summed over the first `k` colours.
pub open spec fn sun_moon_score(z: Zones, k: int) -> int
    decreases k,
{
    if k <= 0 {
        0
    } else {
        sun_moon_score(z, k - 1) + sun_moon_term(z, spec_colors()[k - 1])
    }
}

/// The longest run of plays that alternate kinds, starting with a card of the
/// kind that has `first` cards, and the other kind having `second`.
pub open spec fn alternating(first: nat, second: nat) -> nat {
    if first == 0 {
        0
    } else if first > second {
        2 * second + 1
    } else {
        2 * first
    }
}

/// How many suns and moons of the top card's colour the hand could play
/// next in a row, each of another kind than the one before, up to what the
/// combo still needs.
pub open spec fn continuation(combo: int, last: Card, hand: Seq<Card>) -> int {
    let suns = count_card(hand, last.color, Kind::Sun);
    let moons = count_card(hand, last.color, Kind::Moon);
    let run = if last.kind == Kind::Sun {
        alternating(moons, suns)
    } else if last.kind == Kind::Moon {
        alternating(suns, moons)
    } else if alternating(suns, moons) >= alternating(moons, suns) {
        alternating(suns, moons)
    } else {
        alternating(moons, suns)
    };
    if run < 3 - combo {
        run as int
    } else {
        3 - combo
    }
}

pub open spec fn top_or_nightmare(z: Zones) -> Card {
    if z.explored.len() > 0 {
        z.explored.last()
    } else {
        Card { color: Color::Void, kind: Kind::Nightmare }
    }
}

/// The run on top of `explored` and its best continuation from the hand,
/// weighted up while the top colour lacks doors.
pub open spec fn three_combo_score(z: Zones) -> int {
    let combo = spec_combo_count(z.explored) as int;
    let last = top_or_nightmare(z);
    let op = opened_of(z, last.color);
    let weight = if op == 2 { 1 } else { 4 + (2 - op) };
    (combo * 6000 + continuation(combo, last, z.hand) * 4000) * weight
}

/// The reference heuristic.
pub open spec fn simple_score(z: Zones) -> int {
    lose_score(z) + opened_score(z) + nightmare_score(z) + key_score(z, 4) + sun_moon_score(z, 4)
        + three_combo_score(z)
}

fn capped(n: usize) -> (r: i64)
    ensures
        r == cap(n as nat),
{
    if n > COUNT_CAP {
        COUNT_CAP as i64
    } else {
        n as i64
    }
}

/// Tallies of the zones a score reads.
pub struct Counts {
    pub undrawn: Count,
    pub discarded: Count,
    pub limbo: Count,
    pub opened: Count,
    pub hand: Count,
}

impl Counts {
    pub open spec fn of(&self, z: Zones) -> bool {
        &&& self.undrawn.counted() == z.undrawn
        &&& self.discarded.counted() == z.discarded
        &&& self.limbo.counted() == z.limbo
        &&& self.opened.counted() == z.opened
        &&& self.hand.counted() == z.hand
    }

    pub fn count(content: &Content) -> (r: Counts)
        ensures
            r.of(content@),
    {
        Counts {
            undrawn: content.count_undrawn(),
            discarded: content.count_discard(),
            limbo: content.count_limbo(),
            opened: content.count_opened(),
            hand: content.count_hand(),
        }
    }

    /// The zones as the tallies saw them; `explored` is not tallied.
    pub open spec fn seen(&self) -> Zones {
        Zones {
            undrawn: self.undrawn.counted(),
            discarded: self.discarded.counted(),
            limbo: self.limbo.counted(),
            explored: Seq::empty(),
            opened: self.opened.counted(),
            hand: self.hand.counted(),
        }
    }

    /// Cards of the given colour and kind undrawn, in limbo or in hand;
    /// `usize::MAX` if there are more.
    pub fn available_color_kind(&self, color_kind: &(Color, Kind)) -> (r: usize)
        ensures
            r as int == if available(self.seen(), color_kind.0, color_kind.1) <= usize::MAX {
                available(self.seen(), color_kind.0, color_kind.1) as int
            } else {
                usize::MAX as int
            },
    {
        let a = self.undrawn.color_kind(color_kind);
        let b = self.limbo.color_kind(color_kind);
        let c = self.hand.color_kind(color_kind);
        a.saturating_add(b).saturating_add(c)
    }
}

fn capped_available(counts: &Counts, color: Color, kind: Kind) -> (r: i64)
    ensures
        r == cap(available(counts.seen(), color, kind)),
{
    capped(counts.available_color_kind(&(color, kind)))
}

fn opened_color(counts: &Counts, color: Color) -> (r: i64)
    ensures
        r == opened_of(counts.seen(), color),
{
    capped(counts.opened.color(&color))
}

/// The penalty part of the score.
pub fn evaluate_lose(content: &Content, counts: &Counts) -> (r: i64)
    requires
        counts.of(content@),
    ensures
        r == lose_score(content@),
{
    if counts.discarded.kind(&Kind::Door) > 0 {
        return LOSE_BASE_SCORE;
    }
    let colors = Color::colors();
    let mut i: usize = 0;
    while i < colors.len()
        invariant
            colors@ == spec_colors(),
            counts.of(content@),
            count_kind(content@.discarded, Kind::Door) == 0,
            i <= 4,
            forall|j: int| 0 <= j < i ==> !short_of_doors(content@, #[trigger] spec_colors()[j]),
        decreases 4 - i,
    {
        let color = colors[i];
        let opened = opened_color(counts, color);
        if opened != 2 {
            let sun = capped_available(counts, color, Kind::Sun);
            let moon = capped_available(counts, color, Kind::Moon);
            let key = capped_available(counts, color, Kind::Key);
            let need_open = 2 - opened;
            let explored = content.get_explore();
            let combo: i64 = if explored.len() > 0 && explored[explored.len() - 1].color == color {
                combo_count(content) as i64
            } else {
                0
            };
            assert(combo == combo_for(content@, color));
            if (sun + moon + combo) / 3 + key < need_open {
                assert(short_of_doors(content@, spec_colors()[i as int]));
                return LOSE_BASE_SCORE + 1;
            }
        }
        i = i + 1;
    }
    0
}

pub fn evaluate_win_opened(content: &Content) -> (r: i64)
    ensures
        r == opened_score(content@),
        0 <= r <= 10100000000000,
{
    let opened = content.get_opened().len();
    let mut score = capped(opened) * DOOR_SCORE;
    if opened == 8 {
        score = score + WIN_SCORE;
    }
    score
}

pub fn evaluate_win_resolved_nightmare(counts: &Counts) -> (r: i64)
    ensures
        r == nightmare_score(counts.seen()),
        0 <= r <= 10000000000000,
{
    capped(counts.discarded.kind(&Kind::Nightmare)) * NIGHTMARE_SCORE
}

pub fn evaluate_win_available_key(counts: &Counts) -> (r: i64)
    ensures
        r == key_score(counts.seen(), 4),
        -40000000000 <= r <= 800000000,
{
    let colors = Color::colors();
    let mut score: i64 = 0;
    let mut i: usize = 0;
    while i < colors.len()
        invariant
            colors@ == spec_colors(),
            i <= 4,
            score == key_score(counts.seen(), i as int),
            -10000000000 * i <= score <= 200000000 * i,
        decreases 4 - i,
    {
        let color = colors[i];
        let weight = 10 + (2 - opened_color(counts, color));
        let keys = capped_available(counts, color, Kind::Key) * 10000;
        assert(-10000000000 <= keys * weight <= 200000000) by (nonlinear_arith)
            requires
                0 <= keys <= 10000000,
                -988 <= weight <= 12,
        ;
        score = score + keys * weight;
        i = i + 1;
    }
    score
}

pub fn evaluate_win_available_sun_moon(counts: &Counts) -> (r: i64)
    ensures
        r == sun_moon_score(counts.seen(), 4),
        -40000000000 <= r <= 40000000000,
{
    let colors = Color::colors();
    let mut score: i64 = 0;
    let mut i: usize = 0;
    while i < colors.len()
        invariant
            colors@ == spec_colors(),
            i <= 4,
            score == sun_moon_score(counts.seen(), i as int),
            -10000000000 * i <= score <= 10000000000 * i,
        decreases 4 - i,
    {
        let color = colors[i];
        let sun_count = capped_available(counts, color, Kind::Sun);
        let moon_count = capped_available(counts, color, Kind::Moon);
        let color_opened = opened_color(counts, color);
        let weight: i64 = if color_opened == 2 {
            1
        } else {
            6 + (2 - color_opened)
        };
        let count = if sun_count < moon_count {
            sun_count
        } else {
            moon_count
        };
        assert(-1000000 <= (21 - count) * count <= 1000) by (nonlinear_arith)
            requires
                0 <= count <= 1000,
        ;
        let half = (21 - count) * count / 2;
        assert(-1000000000 <= half * weight <= 1000000000) by (nonlinear_arith)
            requires
                -500000 <= half <= 500,
                -992 <= weight <= 8,
        ;
        score = score + half * weight * 10;
        i = i + 1;
    }
    score
}

pub fn evaluate_win_available_location(counts: &Counts) -> (r: i64)
    ensures
        r == key_score(counts.seen(), 4) + sun_moon_score(counts.seen(), 4),
        -80000000000 <= r <= 40800000000,
{
    let mut score: i64 = 0;
    score = score + evaluate_win_available_key(counts);
    score = score + evaluate_win_available_sun_moon(counts);
    score
}

/// The alternating run length, up to three.
fn alternating_upto_three(first: usize, second: usize) -> (r: i64)
    ensures
        r == if alternating(first as nat, second as nat) < 3 {
            alternating(first as nat, second as nat) as int
        } else {
            3
        },
{
    let f: i64 = if first > 2 {
        2
    } else {
        first as i64
    };
    let s: i64 = if second > 2 {
        2
    } else {
        second as i64
    };
    let run = if f == 0 {
        0
    } else if f > s {
        2 * s + 1
    } else {
        2 * f
    };
    if run < 3 {
        run
    } else {
        3
    }
}

/// How many more plays from the hand the run on top of `explored` could
/// take, up to what completing the combo needs: the longest sequence of suns
/// and moons of the top card's colour, each of another kind than the card
/// before it.
pub fn get_cont_combo(combo: i64, last_card: &Card, hand: &Vec<Card>) -> (r: i64)
    requires
        0 <= combo <= 2,
    ensures
        r == continuation(combo as int, *last_card, hand@),
        0 <= r <= 3,
{
    let counted = Count::count(hand);
    let suns = counted.color_kind(&(last_card.color, Kind::Sun));
    let moons = counted.color_kind(&(last_card.color, Kind::Moon));
    let run = match last_card.kind {
        Kind::Sun => alternating_upto_three(moons, suns),
        Kind::Moon => alternating_upto_three(suns, moons),
        _ => {
            let a = alternating_upto_three(suns, moons);
            let b = alternating_upto_three(moons, suns);
            if a >= b {
                a
            } else {
                b
            }
        },
    };
    if run < 3 - combo {
        run
    } else {
        3 - combo
    }
}

pub fn evaluate_win_three_combo(content: &Content, counts: &Counts) -> (r: i64)
    requires
        counts.of(content@),
    ensures
        r == three_combo_score(content@),
        -30000000 <= r <= 30000000,
{
    let combo = combo_count(content) as i64;
    let explored = content.get_explore();
    let last_card = if explored.len() > 0 {
        explored[explored.len() - 1]
    } else {
        nightmare()
    };
    let last_color_opened = opened_color(counts, last_card.color);
    let combo_weight: i64 = if last_color_opened == 2 {
        1
    } else {
        4 + (2 - last_color_opened)
    };
    let cont_combo = get_cont_combo(combo, &last_card, content.get_hand());
    let base = combo * 6000 + cont_combo * 4000;
    assert(-30000000 <= base * combo_weight <= 30000000) by (nonlinear_arith)
        requires
            0 <= base <= 24000,
            -994 <= combo_weight <= 6,
    ;
    base * combo_weight
}

/// Tallies that agree on the zones a score reads give the same score parts.
proof fn lemma_parts_agree(a: Zones, b: Zones, k: int)
    requires
        a.undrawn == b.undrawn,
        a.limbo == b.limbo,
        a.hand == b.hand,
        a.opened == b.opened,
        a.discarded == b.discarded,
    ensures
        key_score(a, k) == key_score(b, k),
        sun_moon_score(a, k) == sun_moon_score(b, k),
        nightmare_score(a) == nightmare_score(b),
    decreases k,
{
    if k > 0 {
        lemma_parts_agree(a, b, k - 1);
    }
}

pub fn evaluate_win(content: &Content, counts: &Counts) -> (r: i64)
    requires
        counts.of(content@),
    ensures
        r == opened_score(content@) + nightmare_score(content@) + key_score(content@, 4)
            + sun_moon_score(content@, 4) + three_combo_score(content@),
        -100000000000 <= r <= 30000000000000,
{
    proof {
        lemma_parts_agree(counts.seen(), content@, 4);
        lemma_counts_bounded(content@.discarded, Color::Void, Kind::Nightmare);
    }
    let mut score: i64 = 0;
    score = score + evaluate_win_opened(content);
    score = score + evaluate_win_resolved_nightmare(counts);
    score = score + evaluate_win_available_location(counts);
    score = score + evaluate_win_three_combo(content, counts);
    score
}

/// The reference heuristic, `simple_score`.
pub struct SimpleEvaluator;

impl Evaluator for SimpleEvaluator {
    open spec fn score(&self, z: Zones) -> int {
        simple_score(z)
    }

    fn evaluate(&self, content: &Content) -> (r: i64) {
        let counts = Counts::count(content);
        let mut score: i64 = 0;
        score = score + evaluate_lose(content, &counts);
        score = score + evaluate_win(content, &counts);
        score
    }
}

} // verus!
