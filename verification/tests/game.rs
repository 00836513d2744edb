use snake::game::{cleanup_game, input, place_food, setup_game, update, Game};
use snake::grid::{is_out_of_bounds, Offset, Position};
use snake::keys::Keys;
use snake::render::{Command, SnakeFood, Spawner};

const TICK: u64 = 1_000_000_000;

fn row(from: usize, to: usize, y: usize) -> Vec<Position> {
    (from..=to).map(|x| Position::new(x, y)).collect()
}

/// A new game whose food lies on `food`.
fn game_with_food_at(food: Position) -> (Vec<Command>, Spawner, Game) {
    let mut cmd = Vec::new();
    let mut spawner = Spawner::setup();
    let mut game = setup_game(&mut cmd, &mut spawner);
    assert!(place_food(&mut cmd, &mut spawner, &mut game, food));
    (cmd, spawner, game)
}

fn press(cmd: &mut Vec<Command>, spawner: &mut Spawner, game: &mut Game, turn: Offset) {
    let mut keys = Keys::none();
    keys.up = turn == Offset::up();
    keys.down = turn == Offset::down();
    keys.right = turn == Offset::right();
    keys.left = turn == Offset::left();
    input(cmd, spawner, game, keys);
}

fn queue_of(game: &Game) -> Vec<Offset> {
    game.input_queue().iter().copied().collect()
}

#[test]
fn a_new_game_has_five_segments_in_the_start_row() {
    let mut cmd = Vec::new();
    let mut spawner = Spawner::setup();
    let game = setup_game(&mut cmd, &mut spawner);
    assert_eq!(game.player().cells(), row(5, 9, 5));
    assert_eq!(game.player().len(), 5);
    assert_eq!(game.player().head_position(), Position::new(9, 5));
    assert_eq!(game.player().facing(), Offset::new(1, 0));
    assert!(!game.is_dead());
    assert!(game.input_queue().is_empty());
    assert_eq!(game.tick_timer().elapsed_nanos(), 0);
    let food = game.food().expect("a new game has food");
    assert!(!is_out_of_bounds(food.position));
    assert!(!game.player().occupies(food.position));
}

#[test]
fn a_new_game_asks_for_six_squares() {
    let mut cmd = Vec::new();
    let mut spawner = Spawner::setup();
    let game = setup_game(&mut cmd, &mut spawner);
    let food = game.food().unwrap();
    assert_eq!(food.entity, 5);
    let mut expected: Vec<Command> = (0..5)
        .map(|i| Command::Spawn { entity: i as u64, position: Position::new(5 + i, 5) })
        .collect();
    expected.push(Command::Spawn { entity: 5, position: food.position });
    assert_eq!(cmd, expected);
    assert_eq!(spawner.next_entity(), 6);
    assert!(game.issued_by(&spawner));
    assert!(!game.issued_by(&Spawner::setup()));
}

#[test]
fn first_tick_without_input_moves_the_snake_one_cell_right() {
    let (mut cmd, mut spawner, mut game) = game_with_food_at(Position::new(20, 20));
    update(&mut cmd, &mut spawner, &mut game, TICK);
    assert_eq!(game.player().head_position(), Position::new(10, 5));
    assert_eq!(game.player().cells(), row(6, 10, 5));
    assert!(!game.player().occupies(Position::new(5, 5)));
    assert!(!game.is_dead());
}

#[test]
fn a_tick_without_food_keeps_the_length_and_shifts_the_cells() {
    let (mut cmd, mut spawner, mut game) = game_with_food_at(Position::new(20, 20));
    press(&mut cmd, &mut spawner, &mut game, Offset::down());
    let before = game.player().cells();
    update(&mut cmd, &mut spawner, &mut game, TICK);
    let after = game.player().cells();
    assert_eq!(after.len(), before.len());
    assert_eq!(after[..4], before[1..]);
    assert_eq!(after[4], Position::new(9, 6));
    assert_eq!(game.food().unwrap().position, Position::new(20, 20));
}

#[test]
fn a_tick_keeps_each_segment_with_its_square_and_moves_the_head_first() {
    let (mut cmd, mut spawner, mut game) = game_with_food_at(Position::new(20, 20));
    cmd.clear();
    update(&mut cmd, &mut spawner, &mut game, TICK);
    let entities: Vec<u64> = game.player().nodes().iter().map(|n| n.entity).collect();
    assert_eq!(entities, vec![0, 1, 2, 3, 4]);
    let expected: Vec<Command> = (0..5)
        .map(|k| Command::Move { entity: 4 - k as u64, position: Position::new(10 - k, 5) })
        .collect();
    assert_eq!(cmd, expected);
    assert_eq!(spawner.next_entity(), 6);
}

#[test]
fn eating_grows_the_snake_by_one_and_moves_the_food_off_it() {
    for _ in 0..200 {
        let (mut cmd, mut spawner, mut game) = game_with_food_at(Position::new(10, 5));
        cmd.clear();
        update(&mut cmd, &mut spawner, &mut game, TICK);
        assert_eq!(game.player().len(), 6);
        assert_eq!(game.player().cells(), row(5, 10, 5));
        assert!(!game.is_dead());
        let food = game.food().expect("the board has room for food");
        assert_eq!(food.entity, 5);
        assert!(!is_out_of_bounds(food.position));
        assert!(!game.player().occupies(food.position));
        assert_eq!(
            cmd,
            vec![
                Command::Spawn { entity: 6, position: Position::new(10, 5) },
                Command::Move { entity: 5, position: food.position },
            ]
        );
        assert_eq!(game.player().nodes()[5].entity, 6);
        assert_eq!(spawner.next_entity(), 7);
    }
}

#[test]
fn a_reversal_is_dropped_and_not_offered_again() {
    let (mut cmd, mut spawner, mut game) = game_with_food_at(Position::new(20, 20));
    press(&mut cmd, &mut spawner, &mut game, Offset::new(-1, 0));
    assert_eq!(queue_of(&game), vec![Offset::new(-1, 0)]);
    update(&mut cmd, &mut spawner, &mut game, TICK);
    assert_eq!(game.player().facing(), Offset::new(1, 0));
    assert!(game.input_queue().is_empty());
    assert_eq!(game.player().head_position(), Position::new(10, 5));
    update(&mut cmd, &mut spawner, &mut game, TICK);
    assert_eq!(game.player().facing(), Offset::new(1, 0));
    assert_eq!(game.player().head_position(), Position::new(11, 5));
}

#[test]
fn a_request_to_go_on_as_before_is_dropped() {
    let (mut cmd, mut spawner, mut game) = game_with_food_at(Position::new(20, 20));
    press(&mut cmd, &mut spawner, &mut game, Offset::right());
    press(&mut cmd, &mut spawner, &mut game, Offset::left());
    press(&mut cmd, &mut spawner, &mut game, Offset::up());
    press(&mut cmd, &mut spawner, &mut game, Offset::left());
    update(&mut cmd, &mut spawner, &mut game, TICK);
    assert_eq!(game.player().facing(), Offset::up());
    assert_eq!(queue_of(&game), vec![Offset::left()]);
    assert_eq!(game.player().head_position(), Position::new(9, 4));
}

#[test]
fn a_perpendicular_turn_is_taken_on_the_next_tick() {
    let (mut cmd, mut spawner, mut game) = game_with_food_at(Position::new(20, 20));
    press(&mut cmd, &mut spawner, &mut game, Offset::new(0, 1));
    update(&mut cmd, &mut spawner, &mut game, TICK);
    assert_eq!(game.player().facing(), Offset::new(0, 1));
    assert!(game.input_queue().is_empty());
    assert_eq!(game.player().head_position(), Position::new(9, 6));
}

#[test]
fn one_turn_is_heard_per_tick() {
    let (mut cmd, mut spawner, mut game) = game_with_food_at(Position::new(20, 20));
    press(&mut cmd, &mut spawner, &mut game, Offset::down());
    press(&mut cmd, &mut spawner, &mut game, Offset::left());
    press(&mut cmd, &mut spawner, &mut game, Offset::up());
    update(&mut cmd, &mut spawner, &mut game, TICK);
    assert_eq!(game.player().facing(), Offset::down());
    assert_eq!(queue_of(&game), vec![Offset::left(), Offset::up()]);
    update(&mut cmd, &mut spawner, &mut game, TICK);
    assert_eq!(game.player().facing(), Offset::left());
    assert_eq!(queue_of(&game), vec![Offset::up()]);
}

#[test]
fn running_into_its_own_body_kills_the_snake() {
    let (mut cmd, mut spawner, mut game) = game_with_food_at(Position::new(20, 20));
    press(&mut cmd, &mut spawner, &mut game, Offset::down());
    update(&mut cmd, &mut spawner, &mut game, TICK);
    press(&mut cmd, &mut spawner, &mut game, Offset::left());
    update(&mut cmd, &mut spawner, &mut game, TICK);
    assert!(!game.is_dead());
    assert_eq!(
        game.player().cells(),
        vec![
            Position::new(7, 5),
            Position::new(8, 5),
            Position::new(9, 5),
            Position::new(9, 6),
            Position::new(8, 6),
        ]
    );
    press(&mut cmd, &mut spawner, &mut game, Offset::up());
    update(&mut cmd, &mut spawner, &mut game, TICK);
    assert!(game.is_dead());
    assert_eq!(game.player().head_position(), Position::new(8, 5));
    assert_eq!(game.player().count_at(Position::new(8, 5)), 2);
}

#[test]
fn entering_the_cell_the_tail_leaves_is_safe() {
    let (mut cmd, mut spawner, mut game) = game_with_food_at(Position::new(10, 5));
    update(&mut cmd, &mut spawner, &mut game, TICK);
    assert_eq!(game.player().len(), 6);
    assert!(place_food(&mut cmd, &mut spawner, &mut game, Position::new(30, 30)));
    update(&mut cmd, &mut spawner, &mut game, TICK);
    update(&mut cmd, &mut spawner, &mut game, TICK);
    press(&mut cmd, &mut spawner, &mut game, Offset::down());
    update(&mut cmd, &mut spawner, &mut game, TICK);
    press(&mut cmd, &mut spawner, &mut game, Offset::left());
    update(&mut cmd, &mut spawner, &mut game, TICK);
    update(&mut cmd, &mut spawner, &mut game, TICK);
    assert_eq!(
        game.player().cells(),
        vec![
            Position::new(10, 5),
            Position::new(11, 5),
            Position::new(12, 5),
            Position::new(12, 6),
            Position::new(11, 6),
            Position::new(10, 6),
        ]
    );
    press(&mut cmd, &mut spawner, &mut game, Offset::up());
    update(&mut cmd, &mut spawner, &mut game, TICK);
    assert_eq!(game.player().head_position(), Position::new(10, 5));
    assert_eq!(game.player().count_at(Position::new(10, 5)), 1);
    assert!(!game.is_dead());
}

#[test]
fn leaving_the_board_on_the_right_kills_the_snake() {
    let (mut cmd, mut spawner, mut game) = game_with_food_at(Position::new(20, 20));
    for _ in 0..40 {
        update(&mut cmd, &mut spawner, &mut game, TICK);
    }
    assert_eq!(game.player().head_position(), Position::new(49, 5));
    assert!(!game.is_dead());
    update(&mut cmd, &mut spawner, &mut game, TICK);
    assert_eq!(game.player().head_position(), Position::new(50, 5));
    assert!(game.is_dead());
}

#[test]
fn leaving_the_board_at_the_bottom_kills_the_snake() {
    let (mut cmd, mut spawner, mut game) = game_with_food_at(Position::new(20, 20));
    press(&mut cmd, &mut spawner, &mut game, Offset::down());
    for _ in 0..34 {
        update(&mut cmd, &mut spawner, &mut game, TICK);
    }
    assert_eq!(game.player().head_position(), Position::new(9, 39));
    assert!(!game.is_dead());
    update(&mut cmd, &mut spawner, &mut game, TICK);
    assert_eq!(game.player().head_position(), Position::new(9, 40));
    assert!(game.is_dead());
}

#[test]
fn leaving_the_board_at_the_top_kills_the_snake() {
    let (mut cmd, mut spawner, mut game) = game_with_food_at(Position::new(20, 20));
    press(&mut cmd, &mut spawner, &mut game, Offset::up());
    for _ in 0..5 {
        update(&mut cmd, &mut spawner, &mut game, TICK);
    }
    assert_eq!(game.player().head_position(), Position::new(9, 0));
    assert!(!game.is_dead());
    update(&mut cmd, &mut spawner, &mut game, TICK);
    assert_eq!(game.player().head_position(), Position::new(9, usize::MAX));
    assert!(game.is_dead());
}

#[test]
fn a_dead_snake_does_not_move_or_listen() {
    let (mut cmd, mut spawner, mut game) = game_with_food_at(Position::new(20, 20));
    for _ in 0..41 {
        update(&mut cmd, &mut spawner, &mut game, TICK);
    }
    assert!(game.is_dead());
    let cells = game.player().cells();
    cmd.clear();
    let mut keys = Keys::none();
    keys.up = true;
    keys.down = true;
    keys.left = true;
    keys.right = true;
    input(&mut cmd, &mut spawner, &mut game, keys);
    assert!(game.input_queue().is_empty());
    update(&mut cmd, &mut spawner, &mut game, TICK);
    assert!(game.is_dead());
    assert_eq!(game.player().cells(), cells);
    assert!(cmd.is_empty());
}

#[test]
fn the_clock_runs_on_while_the_snake_is_dead() {
    let (mut cmd, mut spawner, mut game) = game_with_food_at(Position::new(20, 20));
    for _ in 0..41 {
        update(&mut cmd, &mut spawner, &mut game, TICK);
    }
    assert!(game.is_dead());
    assert_eq!(game.tick_timer().elapsed_nanos(), 0);
    update(&mut cmd, &mut spawner, &mut game, 1_000);
    assert_eq!(game.tick_timer().elapsed_nanos(), 1_000);
}

#[test]
fn nothing_moves_before_the_period_has_passed() {
    let (mut cmd, mut spawner, mut game) = game_with_food_at(Position::new(20, 20));
    cmd.clear();
    for _ in 0..3 {
        update(&mut cmd, &mut spawner, &mut game, 10_000_000);
        assert_eq!(game.player().head_position(), Position::new(9, 5));
    }
    assert!(cmd.is_empty());
    assert_eq!(game.tick_timer().elapsed_nanos(), 30_000_000);
    update(&mut cmd, &mut spawner, &mut game, 10_000_000);
    assert_eq!(game.player().head_position(), Position::new(10, 5));
    assert_eq!(game.tick_timer().elapsed_nanos(), 6_666_666);
}

#[test]
fn a_long_frame_advances_the_game_by_one_tick_only() {
    let (mut cmd, mut spawner, mut game) = game_with_food_at(Position::new(20, 20));
    update(&mut cmd, &mut spawner, &mut game, 10 * TICK);
    assert_eq!(game.player().head_position(), Position::new(10, 5));
}

#[test]
fn pressed_keys_queue_up_down_right_left() {
    let (mut cmd, mut spawner, mut game) = game_with_food_at(Position::new(20, 20));
    cmd.clear();
    let mut keys = Keys::none();
    keys.left = true;
    keys.right = true;
    keys.down = true;
    keys.up = true;
    input(&mut cmd, &mut spawner, &mut game, keys);
    assert_eq!(
        queue_of(&game),
        vec![Offset::new(0, -1), Offset::new(0, 1), Offset::new(1, 0), Offset::new(-1, 0)]
    );
    input(&mut cmd, &mut spawner, &mut game, Keys::none());
    assert_eq!(game.input_queue().len(), 4);
    let mut keys = Keys::none();
    keys.up = true;
    input(&mut cmd, &mut spawner, &mut game, keys);
    assert_eq!(game.input_queue().len(), 5);
    assert!(cmd.is_empty());
}

#[test]
fn escape_asks_for_the_exit_every_frame() {
    let (mut cmd, mut spawner, mut game) = game_with_food_at(Position::new(20, 20));
    cmd.clear();
    let mut keys = Keys::none();
    keys.escape = true;
    input(&mut cmd, &mut spawner, &mut game, keys);
    input(&mut cmd, &mut spawner, &mut game, keys);
    assert_eq!(cmd, vec![Command::Exit, Command::Exit]);
    assert!(game.input_queue().is_empty());
}

#[test]
fn cleanup_removes_the_segments_and_then_the_food() {
    let (mut cmd, _spawner, game) = game_with_food_at(Position::new(20, 20));
    cmd.clear();
    cleanup_game(&mut cmd, &game);
    let expected: Vec<Command> = (0..6).map(|entity| Command::Despawn { entity }).collect();
    assert_eq!(cmd, expected);
}

#[test]
fn restart_from_a_dead_game_gives_a_fresh_one() {
    let (mut cmd, mut spawner, mut game) = game_with_food_at(Position::new(20, 20));
    press(&mut cmd, &mut spawner, &mut game, Offset::up());
    for _ in 0..6 {
        update(&mut cmd, &mut spawner, &mut game, TICK + 5);
    }
    assert!(game.is_dead());
    press(&mut cmd, &mut spawner, &mut game, Offset::left());
    assert_eq!(game.tick_timer().elapsed_nanos(), 30);
    cmd.clear();
    let mut keys = Keys::none();
    keys.restart = true;
    input(&mut cmd, &mut spawner, &mut game, keys);
    assert!(!game.is_dead());
    assert_eq!(game.player().cells(), row(5, 9, 5));
    assert_eq!(game.player().facing(), Offset::new(1, 0));
    assert!(game.input_queue().is_empty());
    assert_eq!(game.tick_timer().elapsed_nanos(), 0);
    let food = game.food().expect("a new game has food");
    assert!(!is_out_of_bounds(food.position));
    assert!(!game.player().occupies(food.position));
    let mut expected: Vec<Command> = (0..6).map(|entity| Command::Despawn { entity }).collect();
    expected.extend((0..5).map(|i| Command::Spawn {
        entity: 6 + i as u64,
        position: Position::new(5 + i, 5),
    }));
    expected.push(Command::Spawn { entity: 11, position: food.position });
    assert_eq!(cmd, expected);
    assert_eq!(food.entity, 11);
    assert!(game.issued_by(&spawner));
}

#[test]
fn restart_from_a_live_game_drops_what_was_asked() {
    let (mut cmd, mut spawner, mut game) = game_with_food_at(Position::new(10, 5));
    update(&mut cmd, &mut spawner, &mut game, TICK);
    assert_eq!(game.player().len(), 6);
    let mut keys = Keys::none();
    keys.down = true;
    keys.restart = true;
    keys.escape = true;
    cmd.clear();
    input(&mut cmd, &mut spawner, &mut game, keys);
    assert_eq!(game.player().len(), 5);
    assert!(game.input_queue().is_empty());
    assert!(!game.is_dead());
    assert_eq!(cmd.len(), 7 + 6 + 1);
    assert_eq!(cmd[0], Command::Despawn { entity: 0 });
    assert_eq!(cmd[5], Command::Despawn { entity: 6 });
    assert_eq!(cmd[6], Command::Despawn { entity: 5 });
    assert_eq!(cmd[13], Command::Exit);
}

#[test]
fn food_is_placed_only_on_a_free_cell_of_the_board() {
    let (mut cmd, mut spawner, mut game) = game_with_food_at(Position::new(20, 20));
    cmd.clear();
    assert!(!place_food(&mut cmd, &mut spawner, &mut game, Position::new(7, 5)));
    assert!(!place_food(&mut cmd, &mut spawner, &mut game, Position::new(50, 5)));
    assert!(!place_food(&mut cmd, &mut spawner, &mut game, Position::new(5, 40)));
    assert_eq!(game.food(), Some(SnakeFood { entity: 5, position: Position::new(20, 20) }));
    assert!(cmd.is_empty());
    assert!(place_food(&mut cmd, &mut spawner, &mut game, Position::new(49, 39)));
    assert_eq!(game.food(), Some(SnakeFood { entity: 5, position: Position::new(49, 39) }));
    assert_eq!(cmd, vec![Command::Move { entity: 5, position: Position::new(49, 39) }]);
    assert_eq!(spawner.next_entity(), 6);
}
