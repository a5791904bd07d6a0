use snake::state::{
    Direction, Point, State, CELL_EMPTY, CELL_FOOD, CELL_SNAKE_HEAD, CELL_SNAKE_TAIL,
};

fn at(x: usize, y: usize) -> Point {
    Point { x, y }
}

fn sample() -> State {
    State {
        board_size: 3,
        use_timer: true,
        snake: vec![at(1, 1), at(0, 1)],
        food: at(2, 2),
        direction: Direction::Right,
        did_win: false,
    }
}

#[test]
fn markers_are_four_different_glyphs() {
    assert_eq!(CELL_EMPTY, "-");
    assert_eq!(CELL_SNAKE_HEAD, "o");
    assert_eq!(CELL_SNAKE_TAIL, "*");
    assert_eq!(CELL_FOOD, "@");
}

#[test]
fn empty_board_has_the_size_of_the_game() {
    let board = sample().gen_empty_board_vec();
    assert_eq!(board, vec![vec!["-"; 3]; 3]);
    let small = State { board_size: 2, ..sample() }.gen_empty_board_vec();
    assert_eq!(small, vec![vec!["-", "-"], vec!["-", "-"]]);
    let none = State { board_size: 0, ..sample() }.gen_empty_board_vec();
    assert_eq!(none, Vec::<Vec<&str>>::new());
}

#[test]
fn grid_shows_head_body_and_food() {
    assert_eq!(
        sample().to_board_vec(),
        vec![vec!["-", "-", "-"], vec!["*", "o", "-"], vec!["-", "-", "@"]]
    );
}

#[test]
fn text_has_one_line_for_each_row() {
    assert_eq!(sample().to_board_str(), "---\n*o-\n--@");
}

#[test]
fn text_has_no_line_feed_after_the_last_row() {
    let state = State {
        board_size: 3,
        use_timer: true,
        snake: vec![at(2, 1), at(1, 1)],
        food: at(0, 0),
        direction: Direction::Right,
        did_win: false,
    };
    let text = state.to_board_str();
    assert_eq!(text, "@--\n-*o\n---");
    assert_eq!(text.chars().count(), 11);
    assert_eq!(text.lines().count(), 3);
    let small =
        State { board_size: 2, snake: vec![at(1, 1)], food: at(0, 0), ..sample() }.to_board_str();
    assert_eq!(small, "@-\n-o");
}

#[test]
fn text_of_a_new_game() {
    let state = State::new_with(true, 4, |count| 5 % count);
    assert_eq!(state.food, at(2, 1));
    assert_eq!(state.to_board_str(), "o---\n--@-\n----\n----");
}

#[test]
fn head_is_drawn_over_the_body() {
    let state = State {
        board_size: 3,
        use_timer: true,
        snake: vec![at(0, 1), at(1, 1), at(1, 0), at(0, 0), at(0, 1)],
        food: at(2, 2),
        direction: Direction::Left,
        did_win: false,
    };
    assert_eq!(state.to_board_str(), "**-\no*-\n--@");
}

#[test]
fn food_is_drawn_over_the_snake() {
    let won = State {
        board_size: 2,
        use_timer: true,
        snake: vec![at(1, 1), at(1, 0), at(0, 0), at(0, 1)],
        food: at(1, 1),
        direction: Direction::Down,
        did_win: true,
    };
    assert_eq!(won.to_board_vec(), vec![vec!["*", "*"], vec!["*", "@"]]);
    assert_eq!(won.to_board_str(), "**\n*@");
    let under_body = State { food: at(0, 1), ..sample() };
    assert_eq!(under_body.to_board_str(), "---\n@o-\n---");
}

#[test]
fn text_follows_the_snake_as_it_moves() {
    let mut state = sample();
    state.move_snake();
    assert_eq!(state.to_board_str(), "---\n-*o\n--@");
    state.move_snake();
    assert_eq!(state.to_board_str(), "---\no-*\n--@");
    assert!(state.change_direction(Direction::Down));
    state.move_snake();
    assert_eq!(state.to_board_str(), "---\n*--\no-@");
}
