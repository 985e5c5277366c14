use onirim::action::{End, NightmareAction, Phase1Action};
use onirim::card::{door, key, moon, nightmare, sun, Card, Color, Kind};
use onirim::content::Content;
use onirim::data::{starting_cards_basic, starting_content_basic};
use onirim::evaluator::{best_index, EvaluateActor, Evaluator};
use onirim::heuristic::{get_cont_combo, SimpleEvaluator};
use onirim::play::{apply_key_reaction, by_deck, by_door, by_hand, by_key, on_discarded, on_drawn, on_played};
use onirim::role::{Actor, Observer};
use onirim::rule::{can_obtain_door, combo_count, may_open_door, put_opened_and_check};
use onirim::runner::{Core, Runner};
use onirim::statistic::Statistic;
use rand::rngs::StdRng;
use rand::SeedableRng;

struct Scripted {
    phase1: (Phase1Action, usize),
    react: (usize, Vec<usize>),
    open: bool,
    nightmare: (NightmareAction, Option<usize>),
    asked: usize,
}

impl Scripted {
    fn new() -> Self {
        Scripted {
            phase1: (Phase1Action::Discard, 0),
            react: (0, vec![1, 2, 3, 4]),
            open: true,
            nightmare: (NightmareAction::ByDeck, None),
            asked: 0,
        }
    }
}

impl Actor for Scripted {
    fn phase_1_action(&mut self, _: &Content) -> (Phase1Action, usize) {
        self.asked += 1;
        self.phase1
    }

    fn key_discard_react(&mut self, _: &Content, _: &Vec<Card>) -> (usize, Vec<usize>) {
        self.asked += 1;
        self.react.clone()
    }

    fn open_door(&mut self, _: &Content) -> bool {
        self.asked += 1;
        self.open
    }

    fn nightmare_action(&mut self, _: &Content) -> (NightmareAction, Option<usize>) {
        self.asked += 1;
        self.nightmare
    }
}

struct Tally {
    ends: Vec<End>,
}

impl Observer for Tally {
    fn on_end(&mut self, _: &Content, result: &End) {
        self.ends.push(*result);
    }
}

fn total(content: &Content) -> usize {
    content.get_undrawn().len()
        + content.get_discard().len()
        + content.get_limbo().len()
        + content.get_explore().len()
        + content.get_opened().len()
        + content.get_hand().len()
}

fn with_hand(undrawn: Vec<Card>, hand: Vec<Card>) -> Content {
    let mut content = Content::new(undrawn);
    for card in hand {
        content.put_hand(card);
    }
    content
}

#[test]
fn starting_cards_basic_len() {
    assert_eq!(76, starting_cards_basic().len());
}

#[test]
fn starting_deck_composition() {
    let cards = starting_cards_basic();
    let count = |c: Card| cards.iter().filter(|x| **x == c).count();
    assert_eq!(count(sun(Color::Red)), 9);
    assert_eq!(count(sun(Color::Blue)), 8);
    assert_eq!(count(sun(Color::Green)), 7);
    assert_eq!(count(sun(Color::Yellow)), 6);
    for color in Color::colors() {
        assert_eq!(count(moon(color)), 4);
        assert_eq!(count(key(color)), 3);
        assert_eq!(count(door(color)), 2);
    }
    assert_eq!(count(nightmare()), 10);
    assert_eq!(total(&starting_content_basic()), 76);
}

#[test]
fn combo_count_is_run_length_mod_three() {
    for n in 1..10usize {
        let mut content = Content::new(vec![]);
        content.put_explore(sun(Color::Blue));
        for i in 0..n {
            let card = if i % 2 == 0 { moon(Color::Red) } else { sun(Color::Red) };
            content.put_explore(card);
        }
        assert_eq!(combo_count(&content), n % 3);
    }
    assert_eq!(combo_count(&Content::new(vec![])), 0);
}

#[test]
fn claim_fires_on_completing_play() {
    let mut content = Content::new(vec![door(Color::Red), sun(Color::Blue)]);
    content.put_explore(sun(Color::Red));
    content.put_explore(moon(Color::Red));
    assert!(can_obtain_door(&content, Color::Red, Kind::Sun));
    assert!(!can_obtain_door(&content, Color::Red, Kind::Moon));
    assert!(!can_obtain_door(&content, Color::Blue, Kind::Sun));
    assert_eq!(on_played(&mut content, sun(Color::Red)), Ok(()));
    assert_eq!(combo_count(&content), 0);
    assert_eq!(content.get_opened(), &vec![door(Color::Red)]);
    assert_eq!(content.get_undrawn(), &vec![sun(Color::Blue)]);
    assert_eq!(content.get_explore().len(), 3);
}

#[test]
fn repeated_kind_play_goes_back_to_hand() {
    let mut content = Content::new(vec![]);
    content.put_explore(sun(Color::Red));
    assert_eq!(on_played(&mut content, sun(Color::Blue)), Ok(()));
    assert_eq!(content.get_hand(), &vec![sun(Color::Blue)]);
    assert_eq!(content.get_explore().len(), 1);
}

#[test]
fn eighth_door_wins_at_once() {
    let mut content = Content::new(vec![]);
    for _ in 0..7 {
        assert_eq!(put_opened_and_check(&mut content, door(Color::Green)), Ok(()));
    }
    assert_eq!(put_opened_and_check(&mut content, door(Color::Green)), Err(End::Win));
    assert_eq!(content.get_opened().len(), 8);
}

#[test]
fn drawn_door_never_reaches_hand() {
    let mut actor = Scripted::new();
    let mut content = with_hand(vec![], vec![sun(Color::Red)]);
    assert_eq!(on_drawn(&mut content, &mut actor, door(Color::Red)), Ok(()));
    assert_eq!(content.get_limbo(), &vec![door(Color::Red)]);
    assert_eq!(content.get_hand(), &vec![sun(Color::Red)]);

    let mut content = with_hand(vec![], vec![key(Color::Blue), key(Color::Red), sun(Color::Red)]);
    assert!(may_open_door(&content, Color::Red));
    assert_eq!(on_drawn(&mut content, &mut actor, door(Color::Red)), Ok(()));
    assert_eq!(content.get_opened(), &vec![door(Color::Red)]);
    assert_eq!(content.get_discard(), &vec![key(Color::Red)]);
    assert!(content.get_hand().iter().all(|c| c.kind != Kind::Door));
}

#[test]
fn declined_door_goes_to_limbo() {
    let mut actor = Scripted::new();
    actor.open = false;
    let mut content = with_hand(vec![], vec![key(Color::Red)]);
    assert_eq!(on_drawn(&mut content, &mut actor, door(Color::Red)), Ok(()));
    assert_eq!(content.get_limbo(), &vec![door(Color::Red)]);
    assert_eq!(content.get_hand(), &vec![key(Color::Red)]);
}

#[test]
fn phase_2_with_empty_deck_loses() {
    let content = with_hand(vec![], vec![sun(Color::Red), moon(Color::Red)]);
    let mut runner = Runner::new(Core { actor: Scripted::new(), observer: Tally { ends: vec![] }, content });
    assert_eq!(runner.phase_2(), Err(End::Lose));
    assert_eq!(runner.get_content().get_hand().len(), 2);
    runner.finish(&End::Lose);
    assert_eq!(runner.core.observer.ends, vec![End::Lose]);
}

#[test]
fn key_discard_reaction_returns_four_in_order() {
    let top = vec![sun(Color::Red), moon(Color::Blue), nightmare(), key(Color::Green), door(Color::Yellow)];
    let mut undrawn = vec![sun(Color::Yellow)];
    undrawn.extend(top.iter().copied());
    let mut content = with_hand(
        undrawn,
        vec![key(Color::Red), sun(Color::Blue), sun(Color::Green), moon(Color::Green), sun(Color::Yellow)],
    );
    let mut actor = Scripted::new();
    actor.react = (2, vec![4, 0, 1, 3]);
    let card = content.take_hand(0);
    assert_eq!(on_discarded(&mut content, &mut actor, card), Ok(()));
    assert_eq!(content.get_discard(), &vec![nightmare(), key(Color::Red)]);
    assert_eq!(
        content.get_undrawn(),
        &vec![sun(Color::Yellow), top[3], top[1], top[0], top[4]]
    );
    assert_eq!(total(&content), 11);
}

#[test]
fn key_discard_without_five_cards_loses() {
    let mut content = with_hand(vec![sun(Color::Red)], vec![key(Color::Red)]);
    let mut actor = Scripted::new();
    let card = content.take_hand(0);
    assert_eq!(on_discarded(&mut content, &mut actor, card), Err(End::Lose));
    assert_eq!(content.get_discard(), &vec![key(Color::Red)]);
    assert_eq!(content.get_undrawn().len(), 1);
}

#[test]
fn malformed_reaction_is_refused() {
    let drawn = vec![sun(Color::Red), moon(Color::Blue), nightmare(), key(Color::Green), door(Color::Yellow)];
    let mut content = Content::new(vec![]);
    assert_eq!(apply_key_reaction(&mut content, &drawn, 1, &vec![0, 0, 2, 3]), Err(End::BadParameter));
    assert_eq!(content.get_undrawn(), &drawn);
    assert!(content.get_discard().is_empty());
}

#[test]
fn nightmare_by_deck_routes_locations_to_discard() {
    let top = vec![sun(Color::Red), door(Color::Blue), nightmare(), moon(Color::Green), door(Color::Red)];
    let mut undrawn = vec![key(Color::Yellow)];
    undrawn.extend(top.iter().copied());
    let mut content = Content::new(undrawn);
    assert_eq!(by_deck(&mut content, None), Ok(()));
    assert_eq!(content.get_discard(), &vec![sun(Color::Red), moon(Color::Green)]);
    assert_eq!(content.get_limbo(), &vec![door(Color::Blue), nightmare(), door(Color::Red)]);
    assert_eq!(content.get_undrawn(), &vec![key(Color::Yellow)]);
}

#[test]
fn nightmare_by_deck_short_deck_loses() {
    let mut content = Content::new(vec![sun(Color::Red); 4]);
    assert_eq!(by_deck(&mut content, None), Err(End::Lose));
    assert_eq!(content.get_undrawn().len(), 4);
    assert_eq!(by_deck(&mut content, Some(0)), Err(End::BadParameter));
}

#[test]
fn nightmare_by_key_and_door() {
    let mut content = with_hand(vec![], vec![sun(Color::Red), key(Color::Blue)]);
    assert_eq!(by_key(&mut content, Some(0)), Err(End::BadParameter));
    assert_eq!(by_key(&mut content, Some(5)), Err(End::BadParameter));
    assert_eq!(by_key(&mut content, None), Err(End::BadParameter));
    assert_eq!(by_key(&mut content, Some(1)), Ok(()));
    assert_eq!(content.get_discard(), &vec![key(Color::Blue)]);
    content.put_opened(door(Color::Red));
    assert_eq!(by_door(&mut content, Some(1)), Err(End::BadParameter));
    assert_eq!(by_door(&mut content, Some(0)), Ok(()));
    assert_eq!(content.get_limbo(), &vec![door(Color::Red)]);
    assert!(content.get_opened().is_empty());
}

#[test]
fn nightmare_by_hand_discards_and_refills() {
    let deck = vec![sun(Color::Red), door(Color::Red), moon(Color::Blue), key(Color::Red), sun(Color::Green), nightmare(), moon(Color::Red)];
    let mut content = with_hand(deck, vec![sun(Color::Yellow), moon(Color::Yellow)]);
    assert_eq!(by_hand(&mut content, None), Ok(()));
    assert_eq!(content.get_discard(), &vec![sun(Color::Yellow), moon(Color::Yellow)]);
    assert_eq!(
        content.get_hand(),
        &vec![moon(Color::Red), sun(Color::Green), key(Color::Red), moon(Color::Blue), sun(Color::Red)]
    );
    assert_eq!(content.get_limbo(), &vec![nightmare(), door(Color::Red)]);
    assert!(content.get_undrawn().is_empty());
    let mut content = with_hand(vec![sun(Color::Red)], vec![]);
    assert_eq!(by_hand(&mut content, None), Err(End::Lose));
}

#[test]
fn replenish_sets_aside_non_locations() {
    let mut content = Content::new(vec![sun(Color::Red), nightmare(), moon(Color::Red), door(Color::Red), key(Color::Red), sun(Color::Blue), sun(Color::Green)]);
    assert_eq!(content.replenish_hand(), Ok(()));
    assert_eq!(content.get_hand().len(), 5);
    assert_eq!(content.get_limbo(), &vec![door(Color::Red), nightmare()]);
    assert!(content.get_undrawn().is_empty());
}

#[test]
fn pull_door_takes_first_of_colour() {
    let mut content = Content::new(vec![sun(Color::Red), door(Color::Blue), door(Color::Red), moon(Color::Green)]);
    assert_eq!(content.pull_door(Color::Red), Some(door(Color::Red)));
    assert_eq!(content.get_undrawn(), &vec![sun(Color::Red), door(Color::Blue), moon(Color::Green)]);
    assert_eq!(content.pull_door(Color::Yellow), None);
}

#[test]
fn draw_takes_from_the_top() {
    let mut content = Content::new(vec![sun(Color::Red), moon(Color::Red), key(Color::Red)]);
    assert_eq!(content.draw(4), None);
    assert_eq!(content.draw(2), Some(vec![moon(Color::Red), key(Color::Red)]));
    assert_eq!(content.get_undrawn(), &vec![sun(Color::Red)]);
}

#[test]
fn ties_go_to_the_smallest_descriptor() {
    assert_eq!(best_index(&vec![3, 7, 7, 1]), Some(1));
    assert_eq!(best_index(&vec![-5, -5]), Some(0));
    assert_eq!(best_index(&vec![]), None);

    let mut actor = EvaluateActor::new(SimpleEvaluator);
    let same = with_hand(vec![], vec![sun(Color::Red); 5]);
    let (action, idx) = actor.phase_1_action(&same);
    assert_eq!(idx, 0);
    assert!(action == Phase1Action::Play || action == Phase1Action::Discard);

    let mut deck = starting_cards_basic();
    deck.extend(vec![key(Color::Red); 5]);
    let two_keys = with_hand(deck, vec![key(Color::Red), sun(Color::Blue), key(Color::Red)]);
    assert_eq!(actor.nightmare_action(&two_keys), (NightmareAction::ByKey, Some(0)));

    let drawn = vec![moon(Color::Blue); 5];
    assert_eq!(actor.key_discard_react(&same, &drawn), (0, vec![1, 2, 3, 4]));
}

#[test]
fn refused_play_is_scored_by_its_state() {
    let mut content = with_hand(starting_cards_basic(), vec![sun(Color::Red), moon(Color::Blue), sun(Color::Green), sun(Color::Yellow), sun(Color::Blue)]);
    content.put_explore(sun(Color::Red));
    let actor = EvaluateActor::new(SimpleEvaluator);
    let mut refused = content.duplicate();
    let card = refused.take_hand(0);
    refused.put_hand(card);
    assert_eq!(actor.evaluate_phase_1_play(&content, 0), SimpleEvaluator.evaluate(&refused));
}

#[test]
fn nightmare_resolutions_are_scored_by_their_states() {
    let content = with_hand(starting_cards_basic(), vec![sun(Color::Red), moon(Color::Blue), key(Color::Green), sun(Color::Yellow), sun(Color::Blue)]);
    let actor = EvaluateActor::new(SimpleEvaluator);
    let mut deck = content.duplicate();
    assert_eq!(by_deck(&mut deck, None), Ok(()));
    assert_eq!(actor.evaluate_nightmare_by_deck(&content), SimpleEvaluator.evaluate(&deck));
    let mut hand = content.duplicate();
    assert_eq!(by_hand(&mut hand, None), Ok(()));
    assert_eq!(hand.get_hand().len(), 5);
    assert_eq!(actor.evaluate_nightmare_by_hand(&content), SimpleEvaluator.evaluate(&hand));
}

#[test]
fn phase_2_refills_from_the_top() {
    let content = with_hand(vec![nightmare(), sun(Color::Red), moon(Color::Blue), key(Color::Green)], vec![sun(Color::Yellow), moon(Color::Yellow)]);
    let mut runner = Runner::new(Core { actor: Scripted::new(), observer: Tally { ends: vec![] }, content });
    assert_eq!(runner.phase_2(), Ok(()));
    assert_eq!(runner.get_content().get_hand().len(), 5);
    assert_eq!(runner.get_content().get_undrawn(), &vec![nightmare()]);
    assert_eq!(runner.core.actor.asked, 0);
}

#[test]
fn setup_fails_without_five_locations() {
    let mut rng = StdRng::seed_from_u64(1);
    let content = Content::new(vec![sun(Color::Red), door(Color::Red), nightmare(), moon(Color::Red), key(Color::Blue), door(Color::Blue)]);
    let mut runner = Runner::new(Core { actor: Scripted::new(), observer: Tally { ends: vec![] }, content });
    assert_eq!(runner.setup(&mut rng), Err(End::Lose));
    let mut runner = Runner::new(Core { actor: Scripted::new(), observer: Tally { ends: vec![] }, content: starting_content_basic() });
    assert_eq!(runner.setup(&mut rng), Ok(()));
    assert_eq!(runner.get_content().get_hand().len(), 5);
    assert!(runner.get_content().get_limbo().is_empty());
}

#[test]
fn continuation_counts_alternating_plays() {
    let hand = vec![sun(Color::Red), sun(Color::Red), moon(Color::Red), key(Color::Red), moon(Color::Blue)];
    assert_eq!(get_cont_combo(0, &sun(Color::Red), &hand), 2);
    assert_eq!(get_cont_combo(2, &sun(Color::Red), &hand), 1);
    assert_eq!(get_cont_combo(0, &moon(Color::Red), &hand), 3);
    assert_eq!(get_cont_combo(0, &nightmare(), &hand), 0);
    assert_eq!(get_cont_combo(0, &key(Color::Blue), &hand), 1);
}

#[test]
fn simple_score_of_fresh_game() {
    let content = starting_content_basic();
    let score = SimpleEvaluator.evaluate(&content);
    let keys: i64 = 4 * 3 * 10000 * 12;
    let sun_moon: i64 = [9i64, 8, 7, 6].iter().map(|s| {
        let count = if *s < 4 { *s } else { 4 };
        (21 - count) * count / 2 * 8 * 10
    }).sum();
    assert_eq!(score, keys + sun_moon);
}

#[test]
fn discarded_door_is_heavily_penalised() {
    let mut content = starting_content_basic();
    content.put_discard(door(Color::Red));
    let with_door = SimpleEvaluator.evaluate(&content);
    let without = SimpleEvaluator.evaluate(&starting_content_basic());
    assert!(with_door < without - 900_000_000_000);
}

#[test]
fn shuffle_keeps_the_cards() {
    let mut rng = StdRng::seed_from_u64(7);
    let mut content = starting_content_basic();
    content.shuffle_undrawn(&mut rng);
    let mut shuffled = content.get_undrawn().clone();
    assert_ne!(&shuffled, &starting_cards_basic());
    let key_of = |c: &Card| (c.color, c.kind);
    shuffled.sort_by_key(key_of);
    let mut original = starting_cards_basic();
    original.sort_by_key(key_of);
    assert_eq!(shuffled, original);
}

#[test]
fn limbo_goes_back_into_the_deck() {
    let mut rng = StdRng::seed_from_u64(3);
    let mut content = Content::new(vec![sun(Color::Red)]);
    content.put_limbo(door(Color::Red));
    content.put_limbo(nightmare());
    content.shuffle_limbo_to_undrawn(&mut rng);
    assert!(content.get_limbo().is_empty());
    assert_eq!(content.get_undrawn().len(), 3);
}

#[test]
fn bad_phase_1_index_is_refused() {
    let content = with_hand(vec![], vec![sun(Color::Red)]);
    let mut actor = Scripted::new();
    actor.phase1 = (Phase1Action::Play, 3);
    let mut runner = Runner::new(Core { actor, observer: Tally { ends: vec![] }, content });
    assert_eq!(runner.phase_1(), Err(End::BadParameter));
    runner.finish(&End::BadParameter);
    assert!(runner.core.observer.ends.is_empty());
}

#[test]
fn whole_games_keep_every_card() {
    for seed in 0..20u64 {
        let mut rng = StdRng::seed_from_u64(seed);
        let core = Core { actor: EvaluateActor::new(SimpleEvaluator), observer: Tally { ends: vec![] }, content: starting_content_basic() };
        let mut runner = Runner::new(core);
        let mut end = runner.setup(&mut rng).err();
        let mut turns = 0;
        while end.is_none() && turns < 300 {
            assert_eq!(total(runner.get_content()), 76);
            assert!(runner.get_content().get_opened().len() < 8);
            end = runner.turn(&mut rng).err();
            turns += 1;
        }
        assert_eq!(total(runner.get_content()), 76);
        if let Some(end) = end {
            assert!(end == End::Win || end == End::Lose);
            assert_eq!(end == End::Win, runner.get_content().get_opened().len() == 8);
            runner.finish(&end);
            assert_eq!(runner.core.observer.ends, vec![end]);
        }
    }
}

#[test]
fn statistic_records_outcomes() {
    let mut statistic = Statistic::new();
    statistic.record(&End::Win, 8);
    statistic.record(&End::Lose, 3);
    statistic.record(&End::BadParameter, 1);
    assert_eq!(statistic.win_game, 1);
    assert_eq!(statistic.lose_game, 1);
    assert_eq!(statistic.success_game, 2);
    assert_eq!(statistic.total_game, 3);
    assert_eq!(statistic.opened, 12);
    let sum = statistic.add(statistic);
    assert_eq!(sum.total_game, 6);
    assert_eq!(sum.opened, 24);
}
