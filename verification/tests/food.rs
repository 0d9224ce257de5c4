use snake_sim::{accept_draw, off_centre_cell, spawn_food, Cell};

#[test]
fn the_centre_is_turned_down() {
    assert_eq!(accept_draw(0, 0), None);
}

#[test]
fn any_other_draw_is_the_cell() {
    assert_eq!(accept_draw(1, 0), Some(Cell::new(1, 0)));
    assert_eq!(accept_draw(0, -1), Some(Cell::new(0, -1)));
    assert_eq!(accept_draw(-15, 15), Some(Cell::new(-15, 15)));
}

#[test]
fn off_centre_cells_of_the_smallest_field() {
    let expected =
        [(-1, -1), (0, -1), (1, -1), (-1, 0), (1, 0), (-1, 1), (0, 1), (1, 1)];
    for (index, &(x, y)) in expected.iter().enumerate() {
        assert_eq!(off_centre_cell(3, index as i64), Cell::new(x, y), "index {index}");
        assert_eq!(off_centre_cell(2, index as i64), Cell::new(x, y), "index {index}");
    }
}

#[test]
fn off_centre_cells_cover_the_field_without_the_centre() {
    let half = 15;
    let side = 2 * half + 1;
    let mut seen = std::collections::HashSet::new();
    for index in 0..(side * side - 1) {
        let c = off_centre_cell(30, index as i64);
        assert!(-half <= c.x && c.x <= half && -half <= c.y && c.y <= half);
        assert!((c.x, c.y) != (0, 0));
        assert!(seen.insert((c.x, c.y)));
    }
    assert_eq!(seen.len(), (side * side - 1) as usize);
}

#[test]
fn off_centre_cell_of_the_largest_field() {
    let half = (i32::MAX / 2) as i64;
    let side = 2 * half + 1;
    assert_eq!(off_centre_cell(i32::MAX, 0), Cell::new(-half as i32, -half as i32));
    assert_eq!(
        off_centre_cell(i32::MAX, side * side - 2),
        Cell::new(half as i32, half as i32)
    );
}

#[test]
fn food_lands_on_the_field_off_the_centre() {
    for field_size in [2, 3, 4, 5, 30, 31] {
        let half = field_size / 2;
        for _ in 0..500 {
            let c = spawn_food(field_size);
            assert!(-half <= c.x && c.x <= half, "{c:?} on {field_size}");
            assert!(-half <= c.y && c.y <= half, "{c:?} on {field_size}");
            assert!(c != Cell::origin());
        }
    }
}

#[test]
fn food_reaches_both_ends_of_an_odd_field() {
    let mut seen = std::collections::HashSet::new();
    for _ in 0..2000 {
        let c = spawn_food(3);
        seen.insert((c.x, c.y));
    }
    assert_eq!(seen.len(), 8);
    assert!(seen.contains(&(1, 1)));
    assert!(seen.contains(&(-1, -1)));
}
