use surge::ai::{AiPlayer, RandomPlayer};
use surge::config::{EngineConfig, FruitMix};
use surge::fruit::FruitType;
use surge::manager::RolloutConfig;
use surge::position::{Action, Direction, Position};
use surge::state::{GameState, PlayerWinner, WinState};
use surge::units::STEP_COST;
use surge::worker::{find_seat, MatchmakingPool, RolloutWorker, RANDOM_PLAYER_ID};

/// A decision source that takes the shortest way to the nearest fruit, round
/// the other player.
struct Seeker {
    second_seat: bool,
}

impl AiPlayer for Seeker {
    fn get_move(&mut self, state: &GameState) -> Action {
        let (me, other) = if self.second_seat {
            (state.player2.position, state.player1.position)
        } else {
            (state.player1.position, state.player2.position)
        };
        let size = state.board.size;
        let steps = [Direction::Up, Direction::Down, Direction::Left, Direction::Right];
        // breadth first, remembering the first step of each way
        let mut seen = vec![me];
        let mut queue: Vec<(Position, Option<Direction>)> = vec![(me, None)];
        let mut head = 0;
        while head < queue.len() {
            let (at, first) = queue[head];
            head += 1;
            if state.board.get_fruit(at.x as usize, at.y as usize).is_some() {
                return first.map_or(Action::DoNothing, Action::Move);
            }
            for step in steps {
                let next = step.as_pos() + at;
                if GameState::outside_bounds(size, &next) || next == other || seen.contains(&next) {
                    continue;
                }
                seen.push(next);
                queue.push((next, first.or(Some(step))));
            }
        }
        Action::DoNothing
    }
}

/// A decision source that never moves, and counts how often it is asked.
struct Idler {
    asked: usize,
}

impl AiPlayer for Idler {
    fn get_move(&mut self, _state: &GameState) -> Action {
        self.asked += 1;
        Action::DoNothing
    }
}

fn idlers() -> Vec<Idler> {
    vec![Idler { asked: 0 }, Idler { asked: 0 }, Idler { asked: 0 }]
}

fn rollout(max_rounds: u32, max_matches: u32) -> RolloutConfig {
    RolloutConfig {
        engine_config: EngineConfig {
            board_size: 6,
            fruit_density: 200,
            populate_board: true,
            random_seed: 5,
        },
        agent_ids: (7, vec![11, 12, 13]),
        max_rounds,
        evaluation_mode: true,
        max_matches,
    }
}

#[test]
fn a_seeker_beats_an_idler() {
    let mut worker = RolloutWorker::new(rollout(500, 1), FruitMix::even());
    assert!(worker.is_ready(&FruitMix::even()));
    assert!(worker.engine.game_history.is_empty());
    let mut primary = Seeker { second_seat: false };
    let mut opponents = idlers();
    worker.play_match_agents(&mut primary, &mut opponents, FruitMix::even());
    assert_eq!(worker.match_history.len(), 1);
    let replay = &worker.match_history[0];
    assert!(replay.p1_won);
    assert_eq!(replay.agent_ids.0, 7);
    assert!([11, 12, 13].contains(&replay.agent_ids.1));
    assert_eq!(
        worker.engine.current_state.match_status,
        WinState::Finished(PlayerWinner::Player1)
    );
    let last = replay.sars.len() - 1;
    for (i, sar) in replay.sars.iter().enumerate() {
        assert_eq!(sar.gamestate.round as usize, i);
        assert_eq!(sar.gamestate.match_status, WinState::InProgress);
        assert_eq!(sar.terminal, i == last);
    }
    assert_eq!(replay.sars.len(), worker.engine.current_state.round as usize);
    for kind in [FruitType::Apple, FruitType::Banana, FruitType::Orange] {
        assert_eq!(worker.engine.current_state.board.fruit_counts.get(kind), 0);
    }
}

#[test]
fn the_source_of_the_drawn_opponent_is_the_one_that_plays() {
    for _ in 0..20 {
        let mut worker = RolloutWorker::new(rollout(9, 1), FruitMix::even());
        let mut primary = Idler { asked: 0 };
        let mut opponents = idlers();
        worker.play_match_agents(&mut primary, &mut opponents, FruitMix::even());
        let replay = &worker.match_history[0];
        let seat = [11, 12, 13].iter().position(|id| *id == replay.agent_ids.1).unwrap();
        for (j, source) in opponents.iter().enumerate() {
            assert_eq!(source.asked, if j == seat { replay.sars.len() } else { 0 });
        }
        assert_eq!(primary.asked, replay.sars.len());
    }
}

#[test]
fn an_identifier_that_stands_twice_has_its_first_seat() {
    assert_eq!(find_seat(&vec![4, 9, 4, 9], 9), 1);
    assert_eq!(find_seat(&vec![4, 9, 4, 9], 4), 0);
    assert_eq!(find_seat(&vec![3], 3), 0);
    let mut conf = rollout(5, 1);
    conf.agent_ids = (7, vec![21, 21]);
    let mut worker = RolloutWorker::new(conf, FruitMix::even());
    let mut primary = Idler { asked: 0 };
    let mut opponents = vec![Idler { asked: 0 }, Idler { asked: 0 }];
    worker.play_match_agents(&mut primary, &mut opponents, FruitMix::even());
    assert_eq!(worker.match_history[0].agent_ids, (7, 21));
    assert_eq!(opponents[0].asked, 5);
    assert_eq!(opponents[1].asked, 0);
}

#[test]
fn the_recorded_actions_are_what_the_sources_gave() {
    let mut worker = RolloutWorker::new(rollout(50, 1), FruitMix::even());
    let mut primary = Seeker { second_seat: false };
    let mut opponent = Idler { asked: 0 };
    worker.play_match(&mut primary, &mut opponent, (1, 2), FruitMix::even());
    let replay = &worker.match_history[0];
    assert_eq!(replay.agent_ids, (1, 2));
    assert_eq!(opponent.asked, replay.sars.len());
    let mut again = Seeker { second_seat: false };
    for (i, sar) in replay.sars.iter().enumerate() {
        // the seeker decides by the state alone, so asking it again gives the record
        assert_eq!(again.get_move(&sar.gamestate), sar.actions);
        // the idler never moved
        let next = if i + 1 < replay.sars.len() {
            replay.sars[i + 1].gamestate.player2.position
        } else {
            worker.engine.current_state.player2.position
        };
        assert_eq!(next, sar.gamestate.player2.position);
    }
}

#[test]
fn an_idle_match_is_cut_at_the_cap() {
    let mut worker = RolloutWorker::new(rollout(12, 1), FruitMix::even());
    let mut primary = Idler { asked: 0 };
    let mut opponents = idlers();
    worker.play_match_agents(&mut primary, &mut opponents, FruitMix::even());
    let replay = &worker.match_history[0];
    assert_eq!(replay.sars.len(), 12);
    assert!(!replay.p1_won);
    assert!(replay.sars.iter().all(|sar| !sar.terminal));
    assert!(replay.sars.iter().all(|sar| sar.reward == STEP_COST as i64));
    assert_eq!(worker.engine.current_state.round, 12);
    assert_eq!(worker.engine.current_state.match_status, WinState::InProgress);
}

#[test]
fn a_cap_of_zero_still_plays_one_round() {
    let mut worker = RolloutWorker::new(rollout(0, 1), FruitMix::even());
    let mut primary = Idler { asked: 0 };
    let mut opponents = idlers();
    worker.play_match_agents(&mut primary, &mut opponents, FruitMix::even());
    assert_eq!(worker.match_history[0].sars.len(), 1);
}

#[test]
fn matches_are_played_until_the_quota_is_met() {
    let mut worker = RolloutWorker::new(rollout(40, 3), FruitMix::even());
    assert!(!worker.quota_met());
    let mut primary = Seeker { second_seat: false };
    let mut opponents = idlers();
    let mixes = vec![
        FruitMix::even(),
        FruitMix { apple: 500, banana: 250, orange: 250 },
        FruitMix { apple: 100, banana: 100, orange: 800 },
    ];
    let replays = worker.play_matches(&mut primary, &mut opponents, &mixes);
    assert_eq!(replays.len(), 3);
    assert_eq!(worker.match_history.len(), 3);
    assert!(worker.quota_met());
    let mut rounds = [0usize; 3];
    for (replay, kept) in replays.iter().zip(worker.match_history.iter()) {
        assert_eq!(replay.agent_ids, kept.agent_ids);
        assert_eq!(replay.p1_won, kept.p1_won);
        assert_eq!(replay.sars.len(), kept.sars.len());
        assert!(!replay.sars.is_empty());
        assert!(replay.sars.len() <= 40);
        assert_eq!(replay.agent_ids.0, 7);
        assert_eq!(replay.sars[0].gamestate.round, 0);
        let seat = [11, 12, 13].iter().position(|id| *id == replay.agent_ids.1).unwrap();
        rounds[seat] += replay.sars.len();
    }
    // each source was asked once for every round of the matches of its identifier
    for (source, asked) in opponents.iter().zip(rounds.iter()) {
        assert_eq!(source.asked, *asked);
    }
    // eight fruit asked for, half of them apples: four, raised to five
    assert_eq!(replays[1].sars[0].gamestate.board.fruit_counts.get(FruitType::Apple), 5);
    // a met quota asks for no more matches
    let again = worker.play_matches(&mut primary, &mut opponents, &Vec::new());
    assert_eq!(again.len(), 3);
}

#[test]
fn a_match_against_a_random_player_is_recorded() {
    let mut worker = RolloutWorker::new(rollout(30, 1), FruitMix::even());
    let mut primary = Seeker { second_seat: false };
    worker.play_match_ai(&mut primary, FruitMix::even());
    assert_eq!(worker.match_history.len(), 1);
    let replay = &worker.match_history[0];
    assert_eq!(replay.agent_ids, (7, RANDOM_PLAYER_ID));
    assert_eq!(RANDOM_PLAYER_ID, 69420);
    assert!(!replay.sars.is_empty() && replay.sars.len() <= 30);
    let size = worker.engine.current_state.board.size;
    for sar in replay.sars.iter() {
        assert!(!GameState::outside_bounds(size, &sar.gamestate.player2.position));
    }
}

#[test]
fn a_random_player_picks_a_legal_action() {
    let worker = RolloutWorker::new(rollout(30, 1), FruitMix::even());
    let state = &worker.engine.current_state;
    let legal = state.get_valid_moves(&state.player2);
    let mut player = RandomPlayer::new();
    let mut seen = Vec::new();
    for _ in 0..200 {
        let action = player.get_move(state);
        assert!(legal.contains(&action));
        if !seen.contains(&action) {
            seen.push(action);
        }
    }
    // more than one action comes up in two hundred draws
    assert!(seen.len() > 1);
}

#[test]
fn the_pool_pairs_the_target_with_one_of_its_opponents() {
    let mut pool = MatchmakingPool::new(3, vec![20, 21, 22, 23]);
    let mut seen = Vec::new();
    for _ in 0..200 {
        let (target, opponent) = pool.sample_pair();
        assert_eq!(target, 3);
        assert!([20, 21, 22, 23].contains(&opponent));
        if !seen.contains(&opponent) {
            seen.push(opponent);
        }
    }
    assert!(seen.len() > 1);
    assert_eq!(pool.opponent_ids, vec![20, 21, 22, 23]);
    let mut single = MatchmakingPool::new(1, vec![9]);
    assert_eq!(single.sample_pair(), (1, 9));
}

#[test]
fn reset_starts_a_new_match_and_keeps_the_records() {
    let mut worker = RolloutWorker::new(rollout(10, 2), FruitMix::even());
    let mut primary = Idler { asked: 0 };
    let mut opponents = idlers();
    worker.play_match_agents(&mut primary, &mut opponents, FruitMix::even());
    assert_eq!(worker.engine.current_state.round, 10);
    worker.reset(FruitMix::even());
    assert_eq!(worker.engine.current_state.round, 0);
    assert_eq!(worker.engine.current_state.match_status, WinState::InProgress);
    assert!(worker.engine.game_history.is_empty());
    assert_eq!(worker.match_history.len(), 1);
    assert_eq!(worker.engine.current_state.board.size, 6);
}

#[test]
fn a_worker_without_opponents_is_not_ready() {
    let mut conf = rollout(10, 1);
    conf.agent_ids = (7, Vec::new());
    let worker = RolloutWorker::new(conf, FruitMix::even());
    assert!(!worker.is_ready(&FruitMix::even()));
    let crowded = FruitMix { apple: 5000, banana: 5000, orange: 5000 };
    let worker = RolloutWorker::new(rollout(10, 1), FruitMix::even());
    assert!(!worker.is_ready(&crowded));
}

#[test]
fn a_rollout_config_copies_whole() {
    let conf = rollout(10, 4);
    let copy = conf.clone();
    assert_eq!(copy.engine_config, conf.engine_config);
    assert_eq!(copy.agent_ids, conf.agent_ids);
    assert_eq!(copy.max_rounds, 10);
    assert_eq!(copy.max_matches, 4);
    assert!(copy.evaluation_mode);
}
