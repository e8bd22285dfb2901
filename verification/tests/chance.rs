use surge::ai::RandomPlayer;
use surge::fruit::FruitType;
use surge::position::Position;
use surge::state::GameState;

#[test]
fn a_random_position_lies_on_the_board() {
    let mut player = RandomPlayer::new();
    let mut seen = Vec::new();
    for _ in 0..300 {
        let at = Position::random_position(&4, &mut player.rng);
        assert!(!GameState::outside_bounds(4, &at));
        if !seen.contains(&at) {
            seen.push(at);
        }
    }
    assert!(seen.len() > 4);
    assert_eq!(Position::random_position(&1, &mut player.rng), Position::new(0, 0));
}

#[test]
fn a_random_fruit_is_one_of_the_three() {
    let mut player = RandomPlayer::new();
    let mut seen = Vec::new();
    for _ in 0..300 {
        let fruit = FruitType::random_fruit(&mut player.rng);
        if !seen.contains(&fruit) {
            seen.push(fruit);
        }
    }
    assert_eq!(seen.len(), 3);
}
