use snake_sim::{render, Cell, Direction, Food, Snake, BLANK_GLYPH, FOOD_GLYPH, SNAKE_GLYPH};

fn snake_of(cells: &[(i32, i32)]) -> Snake {
    Snake {
        body: cells.iter().map(|&(x, y)| Cell::new(x, y)).collect(),
        length: cells.len(),
        direction: Direction::Idle,
        baseline: Direction::Idle,
    }
}

fn food_at(x: i32, y: i32) -> Food {
    Food { position: Cell::new(x, y) }
}

#[test]
fn glyphs_are_space_tilde_and_star() {
    assert_eq!(BLANK_GLYPH, ' ');
    assert_eq!(SNAKE_GLYPH, '~');
    assert_eq!(FOOD_GLYPH, '*');
}

#[test]
fn three_by_three_with_food_in_the_corner() {
    let text = render(&snake_of(&[(0, 0)]), &food_at(1, 1), 3);
    assert_eq!(text, "  *\n ~ \n   \n");
    let rows: Vec<&str> = text.lines().collect();
    assert_eq!(rows[0], "  *");
    assert_eq!(rows[1], " ~ ");
    assert_eq!(rows[2], "   ");
}

#[test]
fn every_line_has_field_size_glyphs() {
    for field_size in [1, 2, 3, 7, 30] {
        let snake = snake_of(&[(0, 0), (0, -1), (40, 2)]);
        let text = render(&snake, &food_at(2, 3), field_size);
        let n = field_size as usize;
        assert_eq!(text.chars().count(), n * (n + 1));
        assert!(text.ends_with('\n'));
        let rows: Vec<&str> = text.split_terminator('\n').collect();
        assert_eq!(rows.len(), n);
        for row in rows {
            assert_eq!(row.chars().count(), n);
        }
    }
}

#[test]
fn food_is_drawn_over_the_snake() {
    let text = render(&snake_of(&[(1, 0), (0, 0)]), &food_at(1, 0), 3);
    assert_eq!(text, "   \n ~*\n   \n");
}

#[test]
fn cells_off_the_field_are_not_drawn() {
    let text = render(&snake_of(&[(2, 0), (0, -2), (-2, 5)]), &food_at(-2, 0), 3);
    assert_eq!(text, "   \n   \n   \n");
}

#[test]
fn top_line_is_the_largest_y_and_left_is_the_least_x() {
    let text = render(&snake_of(&[(-1, 1), (-1, 0)]), &food_at(1, -1), 3);
    assert_eq!(text, "~  \n~  \n  *\n");
}

#[test]
fn even_field_shows_one_less_on_the_positive_side() {
    let text = render(&snake_of(&[(-1, -1), (0, 0), (1, 1)]), &food_at(1, 0), 2);
    assert_eq!(text, " ~\n~ \n");
}

#[test]
fn field_of_one_cell() {
    assert_eq!(render(&snake_of(&[(0, 0)]), &food_at(1, 1), 1), "~\n");
    assert_eq!(render(&snake_of(&[(0, 0)]), &food_at(0, 0), 1), "*\n");
}

#[test]
fn extreme_coordinates_are_off_the_field() {
    let snake = snake_of(&[(i32::MAX, i32::MAX), (i32::MIN, i32::MIN)]);
    let text = render(&snake, &food_at(i32::MAX, 0), 3);
    assert_eq!(text, "   \n   \n   \n");
}
