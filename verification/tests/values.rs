use surge::board::BoardState;
use surge::config::{EngineConfig, FruitMix};
use surge::engine::Engine;
use surge::features::{StateView, VIEW_SIDE};
use surge::fruit::FruitType::{Apple, Banana, Orange};
use surge::fruit::{FruitCounts, FruitType};
use surge::player::Player;
use surge::position::{Action, Direction, Position};
use surge::state::{copy_actions, copy_history, GameState, PlayerIdx};
use surge::units::{HALF, STEP_COST, WHOLE, WIN_REWARD};

fn board_of(size: i8) -> BoardState {
    Engine::new(
        EngineConfig { board_size: size, populate_board: false, fruit_density: 0, random_seed: 1 },
        FruitMix::even(),
    )
    .current_state
    .board
}

fn state_with_players(p1: (i8, i8), p2: (i8, i8)) -> GameState {
    let mut state = Engine::new(
        EngineConfig { board_size: 5, populate_board: false, fruit_density: 0, random_seed: 1 },
        FruitMix::even(),
    )
    .current_state;
    state.player1 = Player::new(Position::new(p1.0, p1.1));
    state.player2 = Player::new(Position::new(p2.0, p2.1));
    state
}

#[test]
fn units_are_thousandths() {
    assert_eq!(WHOLE as f32 / 1000.0, 1.0f32);
    assert_eq!(HALF as f32 / 1000.0, 0.5f32);
    assert_eq!(WIN_REWARD as f32 / 1000.0, 10.0f32);
    assert_eq!(STEP_COST as f32 / 1000.0, -0.1f32);
}

#[test]
fn directions_are_unit_displacements() {
    assert_eq!(Direction::Up.as_pos(), Position::new(0, -1));
    assert_eq!(Direction::Down.as_pos(), Position::new(0, 1));
    assert_eq!(Direction::Left.as_pos(), Position::new(-1, 0));
    assert_eq!(Direction::Right.as_pos(), Position::new(1, 0));
}

#[test]
fn positions_add_by_coordinate() {
    assert_eq!(Position::new(3, 4) + Position::new(-1, 2), Position::new(2, 6));
    assert_eq!(Direction::Left.as_pos() + Position::new(0, 0), Position::new(-1, 0));
    let p = Position::new(7, -2);
    assert_eq!((p.x, p.y), (7, -2));
}

#[test]
fn actions_have_wire_codes() {
    assert_eq!(Action::as_num(Action::Move(Direction::Up)), 0);
    assert_eq!(Action::as_num(Action::Move(Direction::Down)), 1);
    assert_eq!(Action::as_num(Action::Move(Direction::Left)), 2);
    assert_eq!(Action::as_num(Action::Move(Direction::Right)), 3);
    assert_eq!(Action::as_num(Action::DoNothing), 4);
}

#[test]
fn wire_codes_decode_to_actions() {
    for code in 0..5 {
        assert_eq!(Action::as_num(Action::from_num(code)), code);
    }
    assert_eq!(Action::from_num(2), Action::Move(Direction::Left));
    assert_eq!(Action::from_num(17), Action::DoNothing);
    assert_eq!(Action::from_num(-1), Action::DoNothing);
}

#[test]
fn fruit_have_numbers() {
    assert_eq!(FruitType::as_num(Apple), 1);
    assert_eq!(FruitType::as_num(Banana), 2);
    assert_eq!(FruitType::as_num(Orange), 3);
    assert_eq!(FruitType::try_from(1), Ok(Apple));
    assert_eq!(FruitType::try_from(2), Ok(Banana));
    assert_eq!(FruitType::try_from(3), Ok(Orange));
    assert_eq!(FruitType::try_from(0), Err(()));
    assert_eq!(FruitType::try_from(4), Err(()));
}

#[test]
fn fruit_counts_keep_one_number_for_each_kind() {
    let mut counts = FruitCounts::new();
    assert_eq!(counts, FruitCounts { apple: 0, banana: 0, orange: 0 });
    assert_eq!(counts.max(), 0);
    counts.set(Banana, 7);
    counts.set(Orange, 3);
    assert_eq!(counts.get(Apple), 0);
    assert_eq!(counts.get(Banana), 7);
    assert_eq!(counts.get(Orange), 3);
    assert_eq!(counts.max(), 7);
    counts.set(Apple, 9);
    assert_eq!(counts.max(), 9);
}

#[test]
fn a_player_collects_into_holding_and_reward() {
    let mut player = Player::new(Position::new(1, 2));
    assert_eq!(player.position, Position::new(1, 2));
    assert_eq!(player.reward, 0);
    assert_eq!(player.get_fruit_count(Apple), 0);
    player.increment_fruit(Apple, WHOLE);
    player.increment_fruit(Apple, HALF);
    player.increment_fruit(Orange, HALF);
    assert_eq!(player.get_fruit_count(Apple) as f32 / 1000.0, 1.5f32);
    assert_eq!(player.get_fruit_count(Orange), 500);
    assert_eq!(player.get_fruit_count(Banana), 0);
    assert_eq!(player.reward, 2000);
    player.move_player(Position::new(0, 0));
    assert_eq!(player.position, Position::new(0, 0));
    assert_eq!(player.get_fruit_count(Apple), 1500);
}

#[test]
fn set_fruit_changes_one_cell_and_recounts() {
    let mut board = board_of(4);
    board.set_fruit(1, 2, Some(Apple));
    board.set_fruit(3, 0, Some(Apple));
    board.set_fruit(0, 0, Some(Orange));
    assert_eq!(board.get_fruit(1, 2), Some(Apple));
    assert_eq!(board.get_fruit(2, 1), None);
    assert_eq!(board.get_fruit(3, 0), Some(Apple));
    assert_eq!(board.fruit_counts, FruitCounts { apple: 2, banana: 0, orange: 1 });
    board.set_fruit(1, 2, Some(Banana));
    assert_eq!(board.fruit_counts, FruitCounts { apple: 1, banana: 1, orange: 1 });
    board.set_fruit(3, 0, None);
    assert_eq!(board.fruit_counts, FruitCounts { apple: 0, banana: 1, orange: 1 });
}

#[test]
fn update_fruit_counts_counts_the_grid() {
    let mut board = board_of(3);
    board.set_fruit(2, 2, Some(Banana));
    board.fruit_counts = FruitCounts { apple: 5, banana: 5, orange: 5 };
    board.update_fruit_counts();
    assert_eq!(board.fruit_counts, FruitCounts { apple: 0, banana: 1, orange: 0 });
}

#[test]
fn a_copy_of_a_board_is_a_board_of_its_own() {
    let mut board = board_of(3);
    board.set_fruit(1, 1, Some(Orange));
    let copy = board.clone();
    board.set_fruit(1, 1, None);
    assert_eq!(copy.get_fruit(1, 1), Some(Orange));
    assert_eq!(copy.fruit_counts.get(Orange), 1);
    assert_eq!(copy.size, 3);
    assert_eq!(board.get_fruit(1, 1), None);
}

#[test]
fn outside_bounds_tells_cells_off_the_board() {
    assert!(!GameState::outside_bounds(5, &Position::new(0, 0)));
    assert!(!GameState::outside_bounds(5, &Position::new(4, 4)));
    assert!(GameState::outside_bounds(5, &Position::new(5, 0)));
    assert!(GameState::outside_bounds(5, &Position::new(0, 5)));
    assert!(GameState::outside_bounds(5, &Position::new(-1, 2)));
    assert!(GameState::outside_bounds(5, &Position::new(2, -1)));
}

#[test]
fn valid_moves_in_the_middle_and_in_a_corner() {
    let state = state_with_players((2, 2), (4, 4));
    let middle = state.get_valid_moves(&state.player1);
    assert_eq!(middle.len(), 5);
    let corner = state.get_valid_moves(&state.player2);
    assert_eq!(corner.len(), 3);
    assert!(corner.contains(&Action::Move(Direction::Up)));
    assert!(corner.contains(&Action::Move(Direction::Left)));
    assert!(corner.contains(&Action::DoNothing));
    assert!(!corner.contains(&Action::Move(Direction::Down)));
    assert!(!corner.contains(&Action::Move(Direction::Right)));
}

#[test]
fn copies_of_lists_hold_the_same() {
    let actions = vec![Action::DoNothing, Action::Move(Direction::Up)];
    assert_eq!(copy_actions(&actions), actions);
    let mut engine = Engine::new(
        EngineConfig { board_size: 5, populate_board: false, fruit_density: 0, random_seed: 1 },
        FruitMix::even(),
    );
    engine.current_state.board.set_fruit(4, 4, Some(Apple));
    engine.apply_move((Action::Move(Direction::Right), Action::DoNothing), None);
    engine.apply_move((Action::DoNothing, Action::DoNothing), None);
    let copy = copy_history(&engine.game_history);
    assert_eq!(copy.len(), 2);
    assert_eq!(copy[0].actions, Action::Move(Direction::Right));
    assert_eq!(copy[1].gamestate.round, 1);
    assert_eq!(copy[1].gamestate.player1.position, Position::new(1, 0));
    assert_eq!(copy[0].gamestate.board.get_fruit(4, 4), Some(Apple));
    assert_eq!(copy[0].reward, -100);
}

#[test]
fn the_mask_bars_moves_off_the_board() {
    assert_eq!(GameState::mask_of(5, &Position::new(0, 0)), vec![1000, 0, 1000, 0]);
    assert_eq!(GameState::mask_of(5, &Position::new(4, 4)), vec![0, 1000, 0, 1000]);
    assert_eq!(GameState::mask_of(5, &Position::new(2, 2)), vec![0, 0, 0, 0]);
    assert_eq!(GameState::mask_of(5, &Position::new(2, 0)), vec![1000, 0, 0, 0]);
}

#[test]
fn the_view_shows_the_board_in_planes() {
    let mut state = state_with_players((1, 2), (3, 0));
    state.board.set_fruit(0, 0, Some(Apple));
    state.board.set_fruit(0, 1, Some(Banana));
    state.board.set_fruit(2, 3, Some(Orange));
    let (view, _) = GameState::get_state_vec_view(&state, PlayerIdx::Player1);
    let planes = &view.fruit_channels;
    assert_eq!(planes.len(), VIEW_SIDE * VIEW_SIDE * 3);
    let mut expected = vec![0u64; 300];
    expected[0] = 1000;
    expected[3 + 1] = 1000;
    expected[2 * 30 + 3 * 3 + 2] = 1000;
    assert_eq!(planes, &expected);
}

#[test]
fn the_view_shows_both_players_from_either_seat() {
    let mut state = state_with_players((1, 2), (3, 0));
    state.player1.fruit_counts = FruitCounts { apple: 1000, banana: 500, orange: 0 };
    state.player2.fruit_counts = FruitCounts { apple: 0, banana: 0, orange: 2500 };
    let (first, first_mask): (StateView, Vec<u64>) =
        GameState::get_state_vec_view(&state, PlayerIdx::Player1);
    assert_eq!(first.own_info, vec![1000, 500, 0, 100, 200]);
    assert_eq!(first.their_info, vec![0, 0, 2500, 300, 0]);
    assert_eq!(first_mask, vec![0, 0, 0, 0]);
    // |1 - 3| + |2 - 0| = 4 cells, a hundredth of which is 0.04
    assert_eq!(first.grid_distance as f32 / 1000.0, 0.04f32);

    let (second, second_mask) = GameState::get_state_vec_view(&state, PlayerIdx::Player2);
    assert_eq!(second.own_info, vec![0, 0, 2500, 300, 0]);
    assert_eq!(second.their_info, vec![1000, 500, 0, 100, 200]);
    assert_eq!(second_mask, vec![1000, 0, 0, 0]);
    // the distance is the same from either seat
    assert_eq!(second.grid_distance as f32 / 1000.0, 0.04f32);
}

#[test]
fn cells_are_drawn_by_what_they_hold() {
    let mut state = state_with_players((1, 2), (3, 0));
    state.board.set_fruit(0, 0, Some(Apple));
    state.board.set_fruit(0, 1, Some(Banana));
    state.board.set_fruit(2, 3, Some(Orange));
    state.board.set_fruit(3, 0, Some(Orange));
    assert_eq!(state.cell_glyph(0, 0), 'A');
    assert_eq!(state.cell_glyph(0, 1), 'B');
    assert_eq!(state.cell_glyph(2, 3), 'C');
    assert_eq!(state.cell_glyph(1, 2), '1');
    // a fruit hides the player that stands on it
    assert_eq!(state.cell_glyph(3, 0), 'C');
    assert_eq!(state.cell_glyph(4, 4), '#');
    state.board.set_fruit(3, 0, None);
    assert_eq!(state.cell_glyph(3, 0), '2');
}

#[test]
fn a_board_knows_whether_it_is_well_formed() {
    let mut board = board_of(4);
    board.set_fruit(1, 2, Some(Apple));
    assert!(board.is_well_formed());
    board.fruit_counts.set(Apple, 2);
    assert!(!board.is_well_formed());
    board.update_fruit_counts();
    assert!(board.is_well_formed());
    board.size = 3;
    assert!(!board.is_well_formed());
    board.size = -4;
    assert!(!board.is_well_formed());
}

#[test]
fn a_state_is_well_formed_with_both_players_on_the_board() {
    let mut state = state_with_players((0, 0), (4, 4));
    assert!(state.is_well_formed());
    state.player2.position = Position::new(5, 4);
    assert!(!state.is_well_formed());
    state.player2.position = Position::new(4, 4);
    state.player1.position = Position::new(0, -1);
    assert!(!state.is_well_formed());
}

#[test]
fn an_engine_knows_whether_a_round_can_be_asked_for() {
    let mut engine = Engine::new(
        EngineConfig { board_size: 5, populate_board: false, fruit_density: 0, random_seed: 1 },
        FruitMix::even(),
    );
    assert!(engine.can_step());
    engine.current_state.round = u32::MAX;
    assert!(!engine.can_step());
    engine.current_state.round = 0;
    engine.current_state.player2.fruit_counts.set(Banana, u64::MAX - 999);
    assert!(!engine.can_step());
    engine.current_state.player2.fruit_counts.set(Banana, u64::MAX - 1000);
    assert!(engine.can_step());
    engine.current_state.player1.position = Position::new(9, 9);
    assert!(!engine.can_step());
    engine.current_state.player1.position = Position::new(0, 0);
    engine.apply_move((Action::DoNothing, Action::DoNothing), None);
    // a finished match takes any call
    engine.current_state.round = u32::MAX;
    assert!(engine.can_step());
}

fn planes_of(size: i8, fruit: &[(usize, usize, FruitType)]) -> Vec<u64> {
    let mut state = Engine::new(
        EngineConfig { board_size: size, populate_board: false, fruit_density: 0, random_seed: 1 },
        FruitMix::even(),
    )
    .current_state;
    for (x, y, kind) in fruit {
        state.board.set_fruit(*x, *y, Some(*kind));
    }
    let (view, mask) = GameState::get_state_vec_view(&state, PlayerIdx::Player1);
    assert_eq!(mask.len(), 4);
    view.fruit_channels
}

#[test]
fn the_view_covers_a_board_of_any_side() {
    for size in 2..=15i8 {
        let side = if size > 10 { size as usize } else { 10 };
        let last = size as usize - 1;
        let planes = planes_of(size, &[(last, last, Orange), (last, 0, Apple), (0, last, Banana)]);
        assert_eq!(planes.len(), side * side * 3);
        let mut expected = vec![0u64; side * side * 3];
        expected[(last * side + last) * 3 + 2] = 1000;
        expected[(last * side) * 3] = 1000;
        expected[last * 3 + 1] = 1000;
        assert_eq!(planes, expected);
    }
}

#[test]
fn a_board_of_eleven_has_planes_of_eleven() {
    let planes = planes_of(11, &[(10, 10, Apple), (10, 3, Banana)]);
    assert_eq!(planes.len(), 11 * 11 * 3);
    assert_eq!(planes[(10 * 11 + 10) * 3], 1000);
    assert_eq!(planes[(10 * 11 + 3) * 3 + 1], 1000);
    assert_eq!(planes.iter().filter(|entry| **entry == 1000).count(), 2);
}

#[test]
fn the_largest_board_is_viewed_whole() {
    let planes = planes_of(127, &[(126, 126, Orange)]);
    assert_eq!(planes.len(), 127 * 127 * 3);
    assert_eq!(planes[planes.len() - 1], 1000);
}

#[test]
fn the_grid_distance_adds_both_distances() {
    for (p1, p2, cells) in [((0, 0), (4, 4), 8u64), ((4, 0), (0, 4), 8), ((2, 3), (2, 3), 0), ((1, 4), (3, 0), 6)] {
        let state = state_with_players(p1, p2);
        let (first, _) = GameState::get_state_vec_view(&state, PlayerIdx::Player1);
        let (second, _) = GameState::get_state_vec_view(&state, PlayerIdx::Player2);
        assert_eq!(first.grid_distance, cells * 10);
        assert_eq!(second.grid_distance, cells * 10);
    }
}

#[test]
fn shares_are_made_whole() {
    assert_eq!(FruitMix::from_shares(300, 450), FruitMix { apple: 300, banana: 250, orange: 450 });
    assert_eq!(FruitMix::from_shares(501, 500), FruitMix { apple: 501, banana: 0, orange: 499 });
    assert_eq!(FruitMix::from_shares(4000, 7), FruitMix { apple: 1000, banana: 0, orange: 0 });
    assert_eq!(FruitMix::from_shares(0, 0), FruitMix { apple: 0, banana: 1000, orange: 0 });
}
