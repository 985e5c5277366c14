use vstd::prelude::*;
use crate::action::{NightmareAction, Phase1Action};
use crate::card::{Card, Kind};
use crate::content::{swap_removed, Content, Zones};
use crate::play::{
    apply_key_reaction, by_deck, by_door, by_hand, by_key, deck_resolved, door_resolved,
    hand_resolved, key_resolved, on_played, played, returned_cards,
};
use crate::role::Actor;

verus! {

/// A pure scoring of game states: higher is better for the player.
pub trait Evaluator {
    spec fn score(&self, z: Zones) -> int;

    fn evaluate(&self, content: &Content) -> (r: i64)
        ensures
            r as int == self.score(content@),
    ;
}

/// The score of a card that is not a location, which cannot be played.
pub const RULE_VIOLATION_SCORE: i64 = i64::MIN;

/// Position `k` holds a highest score, and every earlier position a lower one.
pub open spec fn first_best(scores: Seq<i64>, k: int) -> bool {
    &&& 0 <= k < scores.len()
    &&& forall|j: int| 0 <= j < scores.len() ==> scores[j] <= scores[k]
    &&& forall|j: int| 0 <= j < k ==> scores[j] < scores[k]
}

/// The position of the first highest score, `None` for no scores.
/// Candidates are listed in ascending order of their descriptors, so among
/// equal scores the smallest descriptor wins.
pub fn best_index(scores: &Vec<i64>) -> (r: Option<usize>)
    ensures
        r is None <==> scores@.len() == 0,
        r matches Some(k) ==> first_best(scores@, k as int),
{
    if scores.len() == 0 {
        return None;
    }
    let mut best: usize = 0;
    let mut i: usize = 1;
    while i < scores.len()
        invariant
            1 <= i <= scores.len(),
            first_best(scores@.subrange(0, i as int), best as int),
        decreases scores.len() - i,
    {
        if scores[i] > scores[best] {
            best = i;
        }
        i = i + 1;
    }
    assert(scores@.subrange(0, scores@.len() as int) =~= scores@);
    Some(best)
}

/// The hand indices, in order, that hold a key.
pub open spec fn key_indices(hand: Seq<Card>) -> Seq<usize>
    decreases hand.len(),
{
    if hand.len() == 0 {
        Seq::empty()
    } else if hand.last().kind == Kind::Key {
        key_indices(hand.drop_last()).push((hand.len() - 1) as usize)
    } else {
        key_indices(hand.drop_last())
    }
}

/// The four indices other than `d`, ascending.
pub open spec fn others(d: int) -> Seq<usize> {
    Seq::new(4, |k: int| if k < d { k as usize } else { (k + 1) as usize })
}

/// The nightmare resolutions on offer, in ascending order: by each key of the
/// hand, by each opened door, by hand, by deck.
pub open spec fn nightmare_candidates(z: Zones) -> Seq<(NightmareAction, Option<usize>)> {
    key_indices(z.hand).map_values(|i: usize| (NightmareAction::ByKey, Some(i))) + Seq::new(
        z.opened.len(),
        |i: int| (NightmareAction::ByDoor, Some(i as usize)),
    ) + seq![(NightmareAction::ByHand, None), (NightmareAction::ByDeck, None)]
}

pub open spec fn nightmare_rank(a: NightmareAction) -> int {
    match a {
        NightmareAction::ByKey => 0,
        NightmareAction::ByDoor => 1,
        NightmareAction::ByHand => 2,
        NightmareAction::ByDeck => 3,
    }
}

pub open spec fn option_before(x: Option<usize>, y: Option<usize>) -> bool {
    match (x, y) {
        (None, Some(_)) => true,
        (Some(a), Some(b)) => a < b,
        _ => false,
    }
}

/// Lexicographic order of nightmare descriptors: by resolution, in the order
/// `ByKey`, `ByDoor`, `ByHand`, `ByDeck`, then by index, no index first.
pub open spec fn nightmare_before(
    x: (NightmareAction, Option<usize>),
    y: (NightmareAction, Option<usize>),
) -> bool {
    nightmare_rank(x.0) < nightmare_rank(y.0) || (x.0 == y.0 && option_before(x.1, y.1))
}

proof fn lemma_key_indices(hand: Seq<Card>)
    requires
        hand.len() <= usize::MAX,
    ensures
        forall|a: int| 0 <= a < key_indices(hand).len() ==> #[trigger] key_indices(hand)[a] < hand.len(),
        forall|a: int, b: int|
            0 <= a < b < key_indices(hand).len() ==> key_indices(hand)[a] < key_indices(hand)[b],
    decreases hand.len(),
{
    if hand.len() > 0 {
        let prev = key_indices(hand.drop_last());
        lemma_key_indices(hand.drop_last());
        if hand.last().kind == Kind::Key {
            let cur = prev.push((hand.len() - 1) as usize);
            assert(key_indices(hand) == cur);
            assert forall|a: int, b: int| 0 <= a < b < cur.len() implies cur[a] < cur[b] by {
                if b == cur.len() - 1 {
                    assert(prev[a] < hand.drop_last().len());
                }
            }
        }
    }
}

/// The nightmare candidates are listed in strictly ascending descriptor order.
pub proof fn lemma_nightmare_candidates_sorted(z: Zones)
    requires
        z.hand.len() <= usize::MAX,
        z.opened.len() <= usize::MAX,
    ensures
        forall|j: int, k: int|
            0 <= j < k < nightmare_candidates(z).len() ==> nightmare_before(
                #[trigger] nightmare_candidates(z)[j],
                #[trigger] nightmare_candidates(z)[k],
            ),
{
    lemma_key_indices(z.hand);
    let keys = key_indices(z.hand).map_values(|i: usize| (NightmareAction::ByKey, Some(i)));
    let doors = Seq::new(z.opened.len(), |i: int| (NightmareAction::ByDoor, Some(i as usize)));
    let rest = seq![(NightmareAction::ByHand, None), (NightmareAction::ByDeck, None)];
    let cands = nightmare_candidates(z);
    assert(cands == keys + doors + rest);
    assert forall|j: int, k: int| 0 <= j < k < cands.len() implies nightmare_before(
        #[trigger] cands[j],
        #[trigger] cands[k],
    ) by {
        let nk = keys.len() as int;
        let nd = doors.len() as int;
        if k < nk {
            assert(cands[j] == keys[j] && cands[k] == keys[k]);
            assert(keys[j] == (NightmareAction::ByKey, Some(key_indices(z.hand)[j])));
            assert(keys[k] == (NightmareAction::ByKey, Some(key_indices(z.hand)[k])));
        } else if j < nk {
            assert(cands[j] == keys[j]);
        } else if k < nk + nd {
            assert(cands[j] == doors[j - nk] && cands[k] == doors[k - nk]);
        } else if j < nk + nd {
            assert(cands[j] == doors[j - nk]);
        } else {
            assert(cands[j] == rest[j - nk - nd] && cands[k] == rest[k - nk - nd]);
        }
    }
}

/// A player that tries every candidate decision on a copy of the state, scores
/// the outcome, and takes the best; ties go to the smallest descriptor.
pub struct EvaluateActor<E: Evaluator> {
    pub evaluator: E,
}

impl<E: Evaluator> EvaluateActor<E> {
    pub fn new(evaluator: E) -> (r: Self)
        ensures
            r.evaluator == evaluator,
    {
        EvaluateActor { evaluator }
    }

    /// Score of playing hand card `idx`, the play made as the engine makes
    /// it: a play the engine refuses is scored by the state it leaves, with
    /// the card back in the hand. A card that is not a location scores
    /// `RULE_VIOLATION_SCORE`.
    pub open spec fn play_score(&self, z: Zones, idx: int) -> i64 {
        let card = z.hand[idx];
        if card.spec_is_location() {
            self.evaluator.score(
                played(Zones { hand: swap_removed(z.hand, idx), ..z }, card).0,
            ) as i64
        } else {
            RULE_VIOLATION_SCORE
        }
    }

    /// Score of discarding hand card `idx`. A key's reaction is a further
    /// decision of the player and is not simulated here.
    pub open spec fn discard_score(&self, z: Zones, idx: int) -> i64 {
        self.evaluator.score(
            Zones { hand: swap_removed(z.hand, idx), discarded: z.discarded.push(z.hand[idx]), ..z },
        ) as i64
    }

    /// Scores of the first-phase candidates: playing each hand card in order,
    /// then discarding each.
    pub open spec fn phase_1_scores(&self, z: Zones) -> Seq<i64> {
        Seq::new(
            2 * z.hand.len(),
            |k: int|
                if k < z.hand.len() {
                    self.play_score(z, k)
                } else {
                    self.discard_score(z, k - z.hand.len())
                },
        )
    }

    /// Score of discarding drawn card `d` and putting the others back in
    /// their drawn order.
    pub open spec fn react_score(&self, z: Zones, drawn: Seq<Card>, d: int) -> i64 {
        self.evaluator.score(
            Zones {
                discarded: z.discarded.push(drawn[d]),
                undrawn: z.undrawn + returned_cards(drawn, others(d)),
                ..z
            },
        ) as i64
    }

    pub open spec fn nightmare_score(
        &self,
        z: Zones,
        cand: (NightmareAction, Option<usize>),
    ) -> i64 {
        match cand.0 {
            NightmareAction::ByKey => self.evaluator.score(key_resolved(z, cand.1).0) as i64,
            NightmareAction::ByDoor => self.evaluator.score(door_resolved(z, cand.1).0) as i64,
            NightmareAction::ByHand => self.evaluator.score(hand_resolved(z, None).0) as i64,
            NightmareAction::ByDeck => self.evaluator.score(deck_resolved(z, None).0) as i64,
        }
    }

    /// Scores of the nightmare candidates, in candidate order.
    pub open spec fn nightmare_scores(&self, z: Zones) -> Seq<i64> {
        nightmare_candidates(z).map_values(
            |c: (NightmareAction, Option<usize>)| self.nightmare_score(z, c),
        )
    }

    pub fn evaluate_phase_1_play(&self, content: &Content, idx: usize) -> (r: i64)
        requires
            idx < content@.hand.len(),
        ensures
            r == self.play_score(content@, idx as int),
    {
        let mut econtent = content.duplicate();
        let card = econtent.take_hand(idx);
        if !card.is_location() {
            return RULE_VIOLATION_SCORE;
        }
        let _ = on_played(&mut econtent, card);
        self.evaluator.evaluate(&econtent)
    }

    pub fn evaluate_phase_1_discard(&self, content: &Content, idx: usize) -> (r: i64)
        requires
            idx < content@.hand.len(),
        ensures
            r == self.discard_score(content@, idx as int),
    {
        let mut econtent = content.duplicate();
        let card = econtent.take_hand(idx);
        econtent.put_discard(card);
        self.evaluator.evaluate(&econtent)
    }

    pub fn evaluate_key_discard_react(
        &self,
        content: &Content,
        cards: &Vec<Card>,
        discard_idx: usize,
        keep: &Vec<usize>,
    ) -> (r: i64)
        requires
            cards@.len() == 5,
            discard_idx < 5,
            keep@ == others(discard_idx as int),
        ensures
            r == self.react_score(content@, cards@, discard_idx as int),
    {
        let mut econtent = content.duplicate();
        let _ = apply_key_reaction(&mut econtent, cards, discard_idx, keep);
        self.evaluator.evaluate(&econtent)
    }

    pub fn evaluate_nightmare_by_key(&self, content: &Content, idx: usize) -> (r: i64)
        ensures
            r == self.nightmare_score(content@, (NightmareAction::ByKey, Some(idx))),
    {
        let mut econtent = content.duplicate();
        let _ = by_key(&mut econtent, Some(idx));
        self.evaluator.evaluate(&econtent)
    }

    pub fn evaluate_nightmare_by_door(&self, content: &Content, idx: usize) -> (r: i64)
        ensures
            r == self.nightmare_score(content@, (NightmareAction::ByDoor, Some(idx))),
    {
        let mut econtent = content.duplicate();
        let _ = by_door(&mut econtent, Some(idx));
        self.evaluator.evaluate(&econtent)
    }

    pub fn evaluate_nightmare_by_hand(&self, content: &Content) -> (r: i64)
        ensures
            r == self.nightmare_score(content@, (NightmareAction::ByHand, None)),
    {
        let mut econtent = content.duplicate();
        let _ = by_hand(&mut econtent, None);
        self.evaluator.evaluate(&econtent)
    }

    pub fn evaluate_nightmare_by_deck(&self, content: &Content) -> (r: i64)
        ensures
            r == self.nightmare_score(content@, (NightmareAction::ByDeck, None)),
    {
        let mut econtent = content.duplicate();
        let _ = by_deck(&mut econtent, None);
        self.evaluator.evaluate(&econtent)
    }
}

pub open spec fn phase_1_rank(a: Phase1Action) -> int {
    match a {
        Phase1Action::Play => 0,
        Phase1Action::Discard => 1,
    }
}

/// Lexicographic order of first-phase descriptors: `Play` before `Discard`,
/// then by hand index.
pub open spec fn phase_1_before(x: (Phase1Action, usize), y: (Phase1Action, usize)) -> bool {
    phase_1_rank(x.0) < phase_1_rank(y.0) || (x.0 == y.0 && x.1 < y.1)
}

/// Position of a first-phase decision among the candidates.
pub open spec fn phase_1_slot(z: Zones, action: (Phase1Action, usize)) -> int {
    match action.0 {
        Phase1Action::Play => action.1 as int,
        Phase1Action::Discard => z.hand.len() + action.1,
    }
}

fn others_of(d: usize) -> (r: Vec<usize>)
    requires
        d < 5,
    ensures
        r@ == others(d as int),
{
    let mut r: Vec<usize> = Vec::new();
    let mut i: usize = 0;
    while i < 5
        invariant
            d < 5,
            i <= 5,
            r@ == others(d as int).subrange(0, if i <= d { i as int } else { i - 1 }),
        decreases 5 - i,
    {
        if i != d {
            r.push(i);
        }
        i = i + 1;
        proof {
            let m = if i <= d { i as int } else { i - 1 };
            assert(r@ =~= others(d as int).subrange(0, m));
        }
    }
    r
}

impl<E: Evaluator> Actor for EvaluateActor<E> {
    /// Scores playing and discarding each hand card and takes the best; with
    /// an empty hand there is nothing to choose and `(Play, 0)` comes back.
    fn phase_1_action(&mut self, content: &Content) -> (r: (Phase1Action, usize))
        ensures
            *final(self) == *old(self),
            content@.hand.len() > 0 ==> {
                &&& r.1 < content@.hand.len()
                &&& first_best(
                    old(self).phase_1_scores(content@),
                    phase_1_slot(content@, r),
                )
                &&& forall|d: (Phase1Action, usize)|
                    d.1 < content@.hand.len() ==> old(self).phase_1_scores(content@)[#[trigger] phase_1_slot(content@, d)]
                        <= old(self).phase_1_scores(content@)[phase_1_slot(content@, r)]
                &&& forall|d: (Phase1Action, usize)|
                    d.1 < content@.hand.len() && phase_1_before(d, r) ==> old(self).phase_1_scores(content@)[#[trigger] phase_1_slot(content@, d)]
                        < old(self).phase_1_scores(content@)[phase_1_slot(content@, r)]
            },
    {
        let n = content.get_hand().len();
        if n == 0 {
            return (Phase1Action::Play, 0);
        }
        let mut scores: Vec<i64> = Vec::new();
        let mut i: usize = 0;
        while i < n
            invariant
                n == content@.hand.len(),
                i <= n,
                scores@ == self.phase_1_scores(content@).subrange(0, i as int),
            decreases n - i,
        {
            scores.push(self.evaluate_phase_1_play(content, i));
            i = i + 1;
            assert(scores@ =~= self.phase_1_scores(content@).subrange(0, i as int));
        }
        let mut i: usize = 0;
        while i < n
            invariant
                n == content@.hand.len(),
                i <= n,
                scores@ == self.phase_1_scores(content@).subrange(0, n + i),
            decreases n - i,
        {
            scores.push(self.evaluate_phase_1_discard(content, i));
            i = i + 1;
            assert(scores@ =~= self.phase_1_scores(content@).subrange(0, n + i));
        }
        assert(scores@ =~= self.phase_1_scores(content@));
        let k = match best_index(&scores) {
            Some(k) => k,
            None => 0,
        };
        let r = if k < n {
            (Phase1Action::Play, k)
        } else {
            (Phase1Action::Discard, k - n)
        };
        assert(phase_1_slot(content@, r) == k);
        assert forall|d: (Phase1Action, usize)|
            d.1 < content@.hand.len() && phase_1_before(d, r) implies #[trigger] phase_1_slot(content@, d) < k by {
        }
        r
    }

    /// Scores discarding each of the five drawn cards, the other four going
    /// back in their drawn order, and takes the best. Anything but five cards
    /// gets `(0, [1, 2, 3, 4])`.
    fn key_discard_react(&mut self, content: &Content, cards: &Vec<Card>) -> (r: (
        usize,
        Vec<usize>,
    ))
        ensures
            *final(self) == *old(self),
            r.0 < 5,
            r.1@ == others(r.0 as int),
            cards@.len() == 5 ==> first_best(
                Seq::new(5, |d: int| old(self).react_score(content@, cards@, d)),
                r.0 as int,
            ),
    {
        if cards.len() != 5 {
            return (0, others_of(0));
        }
        let mut scores: Vec<i64> = Vec::new();
        let mut d: usize = 0;
        while d < 5
            invariant
                cards@.len() == 5,
                d <= 5,
                scores@ == Seq::new(5, |j: int| self.react_score(content@, cards@, j)).subrange(
                    0,
                    d as int,
                ),
            decreases 5 - d,
        {
            let keep = others_of(d);
            scores.push(self.evaluate_key_discard_react(content, cards, d, &keep));
            d = d + 1;
            assert(scores@ =~= Seq::new(5, |j: int| self.react_score(content@, cards@, j)).subrange(
                0,
                d as int,
            ));
        }
        assert(scores@ =~= Seq::new(5, |j: int| self.react_score(content@, cards@, j)));
        let best = match best_index(&scores) {
            Some(best) => best,
            None => 0,
        };
        (best, others_of(best))
    }

    /// Always opens: the decision is not told which door was drawn.
    fn open_door(&mut self, content: &Content) -> (r: bool)
        ensures
            *final(self) == *old(self),
            r,
    {
        true
    }

    /// Scores every resolution on offer (see `nightmare_candidates`) and
    /// takes the best.
    fn nightmare_action(&mut self, content: &Content) -> (r: (NightmareAction, Option<usize>))
        ensures
            *final(self) == *old(self),
            exists|k: int|
                {
                    let cands = nightmare_candidates(content@);
                    &&& #[trigger] first_best(old(self).nightmare_scores(content@), k)
                    &&& r == cands[k]
                    &&& forall|j: int|
                        0 <= j < cands.len() && nightmare_before(#[trigger] cands[j], r)
                            ==> old(self).nightmare_scores(content@)[j] < old(self).nightmare_scores(
                            content@,
                        )[k]
                },
    {
        let ghost z = content@;
        let ghost cands = nightmare_candidates(z);
        let mut actions: Vec<(NightmareAction, Option<usize>)> = Vec::new();
        let mut scores: Vec<i64> = Vec::new();
        let hand = content.get_hand();
        let mut i: usize = 0;
        while i < hand.len()
            invariant
                hand@ == z.hand,
                z == content@,
                i <= hand.len(),
                actions@ == key_indices(hand@.subrange(0, i as int)).map_values(
                    |j: usize| (NightmareAction::ByKey, Some(j)),
                ),
                scores@ == actions@.map_values(|c: (NightmareAction, Option<usize>)| self.nightmare_score(z, c)),
            decreases hand.len() - i,
        {
            proof {
                assert(hand@.subrange(0, i + 1).drop_last() =~= hand@.subrange(0, i as int));
            }
            if hand[i].kind == Kind::Key {
                actions.push((NightmareAction::ByKey, Some(i)));
                scores.push(self.evaluate_nightmare_by_key(content, i));
            }
            i = i + 1;
            assert(actions@ =~= key_indices(hand@.subrange(0, i as int)).map_values(
                |j: usize| (NightmareAction::ByKey, Some(j)),
            ));
            assert(scores@ =~= actions@.map_values(|c: (NightmareAction, Option<usize>)| self.nightmare_score(z, c)));
        }
        assert(hand@.subrange(0, hand@.len() as int) =~= hand@);
        let ghost key_part = actions@;
        let m = content.get_opened().len();
        let mut i: usize = 0;
        while i < m
            invariant
                z == content@,
                m == z.opened.len(),
                i <= m,
                actions@ == key_part + Seq::new(
                    i as nat,
                    |j: int| (NightmareAction::ByDoor, Some(j as usize)),
                ),
                scores@ == actions@.map_values(|c: (NightmareAction, Option<usize>)| self.nightmare_score(z, c)),
            decreases m - i,
        {
            actions.push((NightmareAction::ByDoor, Some(i)));
            scores.push(self.evaluate_nightmare_by_door(content, i));
            i = i + 1;
            assert(actions@ =~= key_part + Seq::new(
                i as nat,
                |j: int| (NightmareAction::ByDoor, Some(j as usize)),
            ));
            assert(scores@ =~= actions@.map_values(|c: (NightmareAction, Option<usize>)| self.nightmare_score(z, c)));
        }
        actions.push((NightmareAction::ByHand, None));
        scores.push(self.evaluate_nightmare_by_hand(content));
        actions.push((NightmareAction::ByDeck, None));
        scores.push(self.evaluate_nightmare_by_deck(content));
        assert(actions@ =~= cands);
        assert(scores@ =~= cands.map_values(|c: (NightmareAction, Option<usize>)| self.nightmare_score(z, c)));
        let k = match best_index(&scores) {
            Some(k) => k,
            None => 0,
        };
        proof {
            assert(scores@ == self.nightmare_scores(z));
            assert(first_best(self.nightmare_scores(z), k as int));
            lemma_nightmare_candidates_sorted(z);
            assert forall|j: int|
                0 <= j < cands.len() && nightmare_before(#[trigger] cands[j], cands[k as int]) implies j
                < k by {
                if j > k {
                    assert(nightmare_before(cands[k as int], cands[j]));
                }
            }
        }
        actions[k]
    }
}

} // verus!
