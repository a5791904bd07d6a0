use snake::state::{AllowedKeys, Direction, Point, State};

fn at(x: usize, y: usize) -> Point {
    Point { x, y }
}

#[test]
fn new_game_starts_in_the_corner() {
    let state = State::new(true, 5);
    assert_eq!(state.snake, vec![at(0, 0)]);
    assert_eq!(state.direction, Direction::Right);
    assert!(!state.did_win);
    assert!(state.use_timer);
    assert_eq!(state.board_size, 5);
    assert!(state.food.x < 5 && state.food.y < 5);
    assert_ne!(state.food, at(0, 0));
    assert!(state.is_valid());
}

#[test]
fn new_game_on_the_smallest_board_finds_a_free_cell() {
    for _ in 0..200 {
        let state = State::new(false, 2);
        assert!([at(1, 0), at(0, 1), at(1, 1)].contains(&state.food));
        assert!(!state.use_timer);
    }
}

#[test]
fn new_game_puts_the_food_on_the_chosen_cell() {
    let first = State::new_with(true, 5, |count| {
        assert_eq!(count, 24);
        0
    });
    assert_eq!(first.food, at(1, 0));
    let last = State::new_with(true, 5, |count| count - 1);
    assert_eq!(last.food, at(4, 4));
    let fifth = State::new_with(true, 5, |count| 4 % count);
    assert_eq!(fifth.food, at(0, 1));
    assert_eq!(fifth.snake, vec![at(0, 0)]);
}

#[test]
fn free_cells_are_listed_row_after_row() {
    let state = State {
        board_size: 3,
        use_timer: true,
        snake: vec![at(1, 1), at(0, 1)],
        food: at(2, 2),
        direction: Direction::Right,
        did_win: false,
    };
    assert_eq!(state.free_cells(), vec![at(0, 0), at(1, 0), at(2, 0), at(2, 1), at(0, 2), at(1, 2)]);
}

#[test]
fn full_board_has_no_free_cell() {
    let state = State {
        board_size: 2,
        use_timer: true,
        snake: vec![at(1, 1), at(1, 0), at(0, 0), at(0, 1)],
        food: at(1, 1),
        direction: Direction::Down,
        did_win: true,
    };
    assert_eq!(state.free_cells(), vec![]);
}

#[test]
fn random_food_lands_on_a_free_cell() {
    let state = State {
        board_size: 3,
        use_timer: true,
        snake: vec![at(2, 1), at(1, 1), at(0, 1), at(0, 0), at(1, 0), at(2, 0)],
        food: at(2, 1),
        direction: Direction::Right,
        did_win: false,
    };
    let free = [at(0, 2), at(1, 2), at(2, 2)];
    let mut seen = [false; 3];
    for _ in 0..300 {
        let food = state.gen_random_food_position();
        let index = free.iter().position(|cell| *cell == food);
        assert!(index.is_some());
        seen[index.unwrap()] = true;
    }
    assert_eq!(seen, [true; 3]);
}

#[test]
fn chosen_food_is_the_free_cell_of_that_index() {
    let state = State {
        board_size: 3,
        use_timer: true,
        snake: vec![at(2, 1), at(1, 1)],
        food: at(2, 1),
        direction: Direction::Right,
        did_win: false,
    };
    assert_eq!(state.gen_food_position_with(|_| 0), at(0, 0));
    assert_eq!(state.gen_food_position_with(|count| 3 % count), at(0, 1));
    assert_eq!(state.gen_food_position_with(|count| 4 % count), at(0, 2));
    assert_eq!(state.gen_food_position_with(|count| count - 1), at(2, 2));
}

#[test]
fn food_stays_off_the_snake_while_the_game_runs() {
    let keys = [AllowedKeys::Right, AllowedKeys::Down, AllowedKeys::Left, AllowedKeys::Up];
    let mut state = State::new(false, 4);
    let mut seed: usize = 12345;
    for _ in 0..3000 {
        seed = seed.wrapping_mul(1103515245).wrapping_add(12345) % 2147483648;
        state.on_key_press(keys[(seed / 65536) % 4]);
        assert!(state.is_valid());
        if state.did_win {
            assert_eq!(state.snake.len(), 16);
            state.on_key_press(AllowedKeys::Reset);
        }
        assert!(!state.snake.contains(&state.food));
        assert!(state.snake.len() < 16);
    }
}

#[test]
fn ticks_keep_the_food_off_the_snake() {
    let mut state = State::new(true, 3);
    for step in 0..500 {
        if step % 4 == 3 {
            state.on_key_press(if step % 8 == 3 { AllowedKeys::Down } else { AllowedKeys::Right });
        }
        state.move_snake();
        assert!(state.is_valid());
        if state.did_win {
            assert_eq!(state.snake.len(), 9);
            assert_eq!(state.snake[0], state.food);
            break;
        }
        assert!(!state.snake.contains(&state.food));
    }
}

#[test]
fn game_on_the_smallest_board_is_played_to_the_win() {
    let mut state = State::new_with(false, 2, |_| 0);
    assert_eq!(state.food, at(1, 0));
    state.move_snake_with(|_| 0);
    assert_eq!(state.snake, vec![at(1, 0), at(0, 0)]);
    assert_eq!(state.food, at(0, 1));
    state.on_key_press_with(AllowedKeys::Down, |_| 0);
    assert_eq!(state.snake, vec![at(1, 1), at(1, 0)]);
    assert_eq!(state.food, at(0, 1));
    state.on_key_press_with(AllowedKeys::Left, |count| {
        assert_eq!(count, 1);
        0
    });
    assert_eq!(state.snake, vec![at(0, 1), at(1, 1), at(1, 0)]);
    assert_eq!(state.food, at(0, 0));
    assert!(!state.did_win);
    state.on_key_press_with(AllowedKeys::Up, |_| 0);
    assert_eq!(state.snake, vec![at(0, 0), at(0, 1), at(1, 1), at(1, 0)]);
    assert!(state.did_win);
    assert_eq!(state.food, at(0, 0));
    assert!(state.is_valid());
    assert!(!state.change_direction(Direction::Right));
    state.move_snake();
    assert_eq!(state.snake, vec![at(0, 0), at(0, 1), at(1, 1), at(1, 0)]);
}

#[test]
fn valid_states_are_told_from_broken_ones() {
    let good = || State {
        board_size: 3,
        use_timer: true,
        snake: vec![at(1, 1), at(0, 1)],
        food: at(2, 2),
        direction: Direction::Right,
        did_win: false,
    };
    assert!(good().is_valid());
    assert!(!State { board_size: 1, snake: vec![at(0, 0)], food: at(0, 0), ..good() }.is_valid());
    assert!(!State { board_size: 0, ..good() }.is_valid());
    assert!(!State { snake: vec![], ..good() }.is_valid());
    assert!(!State { snake: vec![at(1, 1), at(3, 1)], ..good() }.is_valid());
    assert!(!State { snake: vec![at(1, 3)], ..good() }.is_valid());
    assert!(!State { food: at(3, 0), ..good() }.is_valid());
    assert!(!State { food: at(0, 3), ..good() }.is_valid());
    assert!(!State { food: at(0, 1), ..good() }.is_valid());
    assert!(!State { did_win: true, ..good() }.is_valid());
    let full = || State {
        board_size: 2,
        use_timer: true,
        snake: vec![at(1, 1), at(1, 0), at(0, 0), at(0, 1)],
        food: at(1, 1),
        direction: Direction::Down,
        did_win: true,
    };
    assert!(full().is_valid());
    assert!(!State { did_win: false, ..full() }.is_valid());
    assert!(!State { snake: vec![at(1, 1), at(1, 0), at(0, 0), at(0, 1), at(1, 1)], ..full() }.is_valid());
}
