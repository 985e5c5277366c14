use vstd::prelude::*;
use crate::action::End;
use crate::card::{Card, Color, Kind};
use crate::content::{Content, Zones};

verus! {

/// Number of cards of `color` at the end of `s`, counted back until the
/// first card of another colour.
pub open spec fn same_color_run(s: Seq<Card>, color: Color) -> nat
    decreases s.len(),
{
    if s.len() == 0 {
        0
    } else if s.last().color == color {
        1 + same_color_run(s.drop_last(), color)
    } else {
        0
    }
}

/// Length of the run of same-coloured cards on top of `explored`.
pub open spec fn run_len(explored: Seq<Card>) -> nat {
    if explored.len() == 0 {
        0
    } else {
        same_color_run(explored, explored.last().color)
    }
}

/// Progress towards the next door of the top colour: the run length modulo 3.
pub open spec fn spec_combo_count(explored: Seq<Card>) -> nat {
    run_len(explored) % 3
}

pub open spec fn has_key_of(hand: Seq<Card>, color: Color) -> bool {
    exists|i: int| 0 <= i < hand.len() && (#[trigger] hand[i]).kind == Kind::Key && hand[i].color == color
}

/// Playing a card of `color` and `kind` now would complete a run of three:
/// two cards of that colour lie on top since the last claim, and the top card
/// is of another kind. This is the one eligibility rule of the engine.
pub open spec fn spec_can_obtain_door(explored: Seq<Card>, color: Color, kind: Kind) -> bool {
    &&& explored.len() > 0
    &&& spec_combo_count(explored) == 2
    &&& explored.last().color == color
    &&& explored.last().kind != kind
}

/// True iff the hand holds a key of `color`.
pub fn may_open_door(content: &Content, color: Color) -> (r: bool)
    ensures
        r == has_key_of(content@.hand, color),
{
    let hand = content.get_hand();
    let mut i: usize = 0;
    while i < hand.len()
        invariant
            i <= hand.len(),
            hand@ == content@.hand,
            forall|j: int| 0 <= j < i ==> !((#[trigger] hand@[j]).kind == Kind::Key && hand@[j].color == color),
        decreases hand.len() - i,
    {
        if hand[i].kind == Kind::Key && hand[i].color == color {
            return true;
        }
        i = i + 1;
    }
    false
}

proof fn lemma_run_step(s: Seq<Card>, color: Color, i: int)
    requires
        0 < i <= s.len(),
        s[i - 1].color == color,
    ensures
        same_color_run(s.subrange(0, i), color) == 1 + same_color_run(s.subrange(0, i - 1), color),
{
    assert(s.subrange(0, i).drop_last() =~= s.subrange(0, i - 1));
}

/// The run of same-coloured cards on top of `explored`, modulo 3; 0 when
/// nothing has been explored.
pub fn combo_count(content: &Content) -> (r: usize)
    ensures
        r == spec_combo_count(content@.explored),
{
    let explored = content.get_explore();
    if explored.len() == 0 {
        return 0;
    }
    let color = explored[explored.len() - 1].color;
    let mut count: usize = 0;
    let mut i: usize = explored.len();
    assert(explored@.subrange(0, i as int) =~= explored@);
    while i > 0
        invariant_except_break
            i <= explored.len(),
            count + i == explored.len(),
            same_color_run(explored@, color) == count + same_color_run(
                explored@.subrange(0, i as int),
                color,
            ),
        ensures
            same_color_run(explored@, color) == count,
            count <= explored.len(),
        decreases i,
    {
        if explored[i - 1].color == color {
            proof {
                lemma_run_step(explored@, color, i as int);
            }
            count = count + 1;
            i = i - 1;
        } else {
            assert(explored@.subrange(0, i as int).last() == explored@[i - 1]);
            break;
        }
    }
    count % 3
}

/// Whether playing a card of `color` and `kind` now completes a combo and so
/// claims a door of that colour.
pub fn can_obtain_door(content: &Content, color: Color, kind: Kind) -> (r: bool)
    ensures
        r == spec_can_obtain_door(content@.explored, color, kind),
{
    let explored = content.get_explore();
    if explored.len() == 0 {
        return false;
    }
    let top = explored[explored.len() - 1];
    combo_count(content) == 2 && top.color == color && top.kind != kind
}

/// Puts a door among the opened ones; `Win` when that makes eight.
pub fn put_opened_and_check(content: &mut Content, card: Card) -> (r: Result<(), End>)
    ensures
        final(content)@ == (Zones { opened: old(content)@.opened.push(card), ..old(content)@ }),
        final(content)@.cards() == old(content)@.cards().insert(card),
        r is Err <==> final(content)@.opened.len() == 8,
        r matches Err(e) ==> e == End::Win,
{
    content.put_opened(card);
    if content.get_opened().len() == 8 {
        Err(End::Win)
    } else {
        Ok(())
    }
}

/// Combo modulo law: when `explored` ends in exactly `n` cards of one colour
/// (the card below them, if any, is of another colour), the combo count is
/// `n mod 3`.
pub proof fn lemma_combo_modulo(prefix: Seq<Card>, run: Seq<Card>, color: Color)
    requires
        run.len() > 0,
        forall|i: int| 0 <= i < run.len() ==> (#[trigger] run[i]).color == color,
        prefix.len() == 0 || prefix.last().color != color,
    ensures
        spec_combo_count(prefix + run) == run.len() % 3,
{
    lemma_run_of(prefix, run, color);
}

proof fn lemma_run_of(prefix: Seq<Card>, run: Seq<Card>, color: Color)
    requires
        forall|i: int| 0 <= i < run.len() ==> (#[trigger] run[i]).color == color,
        prefix.len() == 0 || prefix.last().color != color,
    ensures
        same_color_run(prefix + run, color) == run.len(),
        run.len() > 0 ==> (prefix + run).last().color == color,
    decreases run.len(),
{
    if run.len() == 0 {
        assert(prefix + run =~= prefix);
    } else {
        assert((prefix + run).drop_last() =~= prefix + run.drop_last());
        lemma_run_of(prefix, run.drop_last(), color);
    }
}

/// A door is claimed exactly when the play completes a run of three: the
/// eligibility rule holds iff the card differs in kind from the top card and
/// the run after appending it is a multiple of three.
pub proof fn lemma_claim_completes_combo(explored: Seq<Card>, card: Card)
    ensures
        spec_can_obtain_door(explored, card.color, card.kind) <==> {
            &&& explored.len() > 0
            &&& explored.last().kind != card.kind
            &&& spec_combo_count(explored.push(card)) == 0
        },
{
    let pushed = explored.push(card);
    assert(pushed.drop_last() =~= explored);
    if explored.len() > 0 && card.color != explored.last().color {
        assert(pushed.drop_last().last().color != card.color);
        assert(same_color_run(pushed, card.color) == 1 + same_color_run(explored, card.color));
        assert(same_color_run(explored, card.color) == 0);
    }
}

} // verus!
