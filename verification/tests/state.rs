use snake_sim::{Cell, Direction, Food, SimulationState, Snake};

fn state_of(cells: &[(i32, i32)], length: usize, direction: Direction) -> SimulationState {
    SimulationState {
        snake: Snake {
            body: cells.iter().map(|&(x, y)| Cell::new(x, y)).collect(),
            length,
            direction,
            baseline: direction,
        },
        food: Food { position: Cell::new(1, 1) },
        field_size: 3,
    }
}

fn cells(state: &SimulationState) -> Vec<(i32, i32)> {
    state.snake.body.iter().map(|c| (c.x, c.y)).collect()
}

#[test]
fn new_game_on_a_field_of_thirty() {
    let state = SimulationState::new(30);
    assert_eq!(state.field_size, 30);
    assert_eq!(cells(&state), vec![(0, 0)]);
    assert_eq!(state.snake.length, 1);
    assert_eq!(state.snake.direction, Direction::Idle);
    let food = state.food.position;
    assert!(-15 <= food.x && food.x <= 15 && -15 <= food.y && food.y <= 15);
    assert!(food != Cell::origin());
}

#[test]
fn idle_game_stays_as_it_is() {
    let mut state = SimulationState::new(30);
    let food = state.food;
    state.advance();
    assert_eq!(cells(&state), vec![(0, 0)]);
    assert_eq!(state.food, food);
    assert_eq!(state.field_size, 30);
}

#[test]
fn tick_without_requests_moves_on() {
    let mut state = state_of(&[(0, 0)], 1, Direction::Left);
    let text = state.tick(&vec![]);
    assert_eq!(cells(&state), vec![(-1, 0)]);
    assert_eq!(text, "  *\n~  \n   \n");
    assert_eq!(text, state.render());
}

#[test]
fn tick_turns_then_moves_then_renders() {
    let mut state = state_of(&[(0, 0)], 1, Direction::Idle);
    let text = state.tick(&vec![Direction::Down]);
    assert_eq!(state.snake.direction, Direction::Down);
    assert_eq!(cells(&state), vec![(0, -1)]);
    assert_eq!(text, "  *\n   \n ~ \n");
}

#[test]
fn tick_drops_a_reversal() {
    let mut state = state_of(&[(0, 0)], 1, Direction::Up);
    let text = state.tick(&vec![Direction::Down]);
    assert_eq!(state.snake.direction, Direction::Up);
    assert_eq!(cells(&state), vec![(0, 1)]);
    assert_eq!(text, " ~*\n   \n   \n");
}

#[test]
fn tick_judges_every_request_against_the_direction_it_began_with() {
    let mut state = state_of(&[(0, 0)], 1, Direction::Up);
    state.tick(&vec![Direction::Left, Direction::Down]);
    assert_eq!(state.snake.direction, Direction::Left);
    assert_eq!(cells(&state), vec![(-1, 0)]);

    let mut state = state_of(&[(0, 0)], 1, Direction::Up);
    state.tick(&vec![Direction::Left, Direction::Right]);
    assert_eq!(state.snake.direction, Direction::Right);
    assert_eq!(cells(&state), vec![(1, 0)]);

    let mut state = state_of(&[(0, 0)], 1, Direction::Left);
    state.tick(&vec![Direction::Up, Direction::Right]);
    assert_eq!(state.snake.direction, Direction::Up);
    assert_eq!(cells(&state), vec![(0, 1)]);
}

#[test]
fn food_stays_when_the_snake_reaches_it() {
    let mut state = state_of(&[(0, 1)], 1, Direction::Right);
    let text = state.tick(&vec![]);
    assert_eq!(cells(&state), vec![(1, 1)]);
    assert_eq!(state.food.position, Cell::new(1, 1));
    assert_eq!(state.snake.length, 1);
    assert_eq!(text, "  *\n   \n   \n");
    let text = state.tick(&vec![Direction::Down]);
    assert_eq!(cells(&state), vec![(1, 0)]);
    assert_eq!(text, "  *\n  ~\n   \n");
}

#[test]
fn set_direction_on_the_game_steers_the_snake() {
    let mut state = state_of(&[(0, 1), (0, 0)], 2, Direction::Up);
    state.set_direction(Direction::Down);
    assert_eq!(state.snake.direction, Direction::Up);
    state.set_direction(Direction::Right);
    assert_eq!(state.snake.direction, Direction::Right);
    state.advance();
    assert_eq!(cells(&state), vec![(1, 1), (0, 1)]);
    assert_eq!(state.render(), " ~*\n   \n   \n");
}

#[test]
fn a_tick_fits_by_the_direction_settled_on() {
    let state = state_of(&[(i32::MAX, 0)], 1, Direction::Right);
    assert!(!state.fits_tick(&vec![]));
    assert!(!state.fits_tick(&vec![Direction::Left]));
    assert!(state.fits_tick(&vec![Direction::Up]));
    assert!(state.fits_tick(&vec![Direction::Left, Direction::Down]));
    let state = state_of(&[(i32::MAX, 0)], 1, Direction::Up);
    assert!(state.fits_tick(&vec![]));
    assert!(!state.fits_tick(&vec![Direction::Right]));
    assert!(state.fits_tick(&vec![Direction::Right, Direction::Left]));
}

#[test]
fn thirty_by_thirty_game_renders_thirty_lines() {
    let mut state = SimulationState::new(30);
    let text = state.tick(&vec![Direction::Up]);
    assert_eq!(text.len(), 30 * 31);
    let rows: Vec<&str> = text.split_terminator('\n').collect();
    assert_eq!(rows.len(), 30);
    assert!(rows.iter().all(|row| row.len() == 30));
    let food = state.food.position;
    let head_glyph = if food == Cell::new(0, 1) { '*' } else { '~' };
    assert_eq!(rows[13].chars().nth(15), Some(head_glyph));
    assert_eq!(text.matches('~').count(), if food == Cell::new(0, 1) { 0 } else { 1 });
    if food.x < 15 && food.y < 15 {
        let row = rows[(14 - food.y) as usize];
        assert_eq!(row.chars().nth((food.x + 15) as usize), Some('*'));
    }
    assert_eq!(text.matches('*').count(), if food.x < 15 && food.y < 15 { 1 } else { 0 });
}
