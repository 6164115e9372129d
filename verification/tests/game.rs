use boxes_rs::game::{
    id_to_player_color, Direction, PlayerColor, Point, Square, Stroke, BLANK, FULL_BLOCK,
};

fn square_at(x: usize, y: usize) -> Square {
    Square { side: 3, coordinates: Point { x, y }, color: PlayerColor::Green, id: 2 }
}

#[test]
fn step_right_adds_one_to_x() {
    let mut square = square_at(4, 7);
    assert_eq!(square.move_in_direction(Direction::Right), Point { x: 5, y: 7 });
}

#[test]
fn step_down_adds_one_to_y() {
    let mut square = square_at(4, 7);
    assert_eq!(square.move_in_direction(Direction::Down), Point { x: 4, y: 8 });
}

#[test]
fn step_left_takes_one_from_x() {
    let mut square = square_at(4, 7);
    assert_eq!(square.move_in_direction(Direction::Left), Point { x: 3, y: 7 });
}

#[test]
fn step_up_takes_one_from_y() {
    let mut square = square_at(4, 7);
    assert_eq!(square.move_in_direction(Direction::Up), Point { x: 4, y: 6 });
}

#[test]
fn step_up_from_the_top_row_stays() {
    let mut square = square_at(4, 0);
    assert_eq!(square.move_in_direction(Direction::Up), Point { x: 4, y: 0 });
}

#[test]
fn step_left_from_the_first_column_stays() {
    let mut square = square_at(0, 7);
    assert_eq!(square.move_in_direction(Direction::Left), Point { x: 0, y: 7 });
}

#[test]
fn step_from_the_origin_changes_one_axis_by_one() {
    let mut square = square_at(0, 0);
    assert_eq!(square.move_in_direction(Direction::Right), Point { x: 1, y: 0 });
    assert_eq!(square.move_in_direction(Direction::Down), Point { x: 0, y: 1 });
}

#[test]
fn step_to_the_last_cell_of_an_axis() {
    let mut square = square_at(usize::MAX - 1, usize::MAX - 1);
    assert_eq!(
        square.move_in_direction(Direction::Right),
        Point { x: usize::MAX, y: usize::MAX - 1 }
    );
    assert_eq!(
        square.move_in_direction(Direction::Down),
        Point { x: usize::MAX - 1, y: usize::MAX }
    );
}

#[test]
fn a_step_leaves_the_square_where_it_is() {
    let mut square = square_at(4, 7);
    let before = square;
    square.move_in_direction(Direction::Right);
    square.move_in_direction(Direction::Up);
    assert_eq!(square, before);
}

#[test]
fn the_palette_has_a_colour_for_each_of_the_first_identities() {
    assert_eq!(id_to_player_color(0), PlayerColor::Blue);
    assert_eq!(id_to_player_color(1), PlayerColor::Red);
    assert_eq!(id_to_player_color(2), PlayerColor::Green);
    assert_eq!(id_to_player_color(3), PlayerColor::Yellow);
    assert_eq!(id_to_player_color(4), PlayerColor::Cyan);
    assert_eq!(id_to_player_color(5), PlayerColor::Magenta);
    assert_eq!(id_to_player_color(6), PlayerColor::White);
    assert_eq!(id_to_player_color(7), PlayerColor::Black);
}

#[test]
fn identities_past_the_palette_are_black() {
    assert_eq!(id_to_player_color(8), PlayerColor::Black);
    assert_eq!(id_to_player_color(9), PlayerColor::Black);
    assert_eq!(id_to_player_color(1000), PlayerColor::Black);
    assert_eq!(id_to_player_color(usize::MAX), PlayerColor::Black);
}

#[test]
fn paint_gives_one_stroke_per_row() {
    let square = square_at(4, 7);
    let stroke = |y: usize| Stroke { x: 4, y, glyph: '#', width: 6, color: PlayerColor::Green };
    assert_eq!(square.paint('#'), vec![stroke(7), stroke(8), stroke(9)]);
}

#[test]
fn paint_of_a_square_without_extent_is_empty() {
    let square = Square { side: 0, coordinates: Point { x: 4, y: 7 }, color: PlayerColor::Blue, id: 0 };
    assert_eq!(square.paint('#'), vec![]);
    assert_eq!(square.draw(), vec![]);
    assert_eq!(square.erase(), vec![]);
}

#[test]
fn draw_uses_the_full_block_and_erase_the_blank() {
    let square = Square { side: 1, coordinates: Point { x: 2, y: 3 }, color: PlayerColor::Red, id: 1 };
    assert_eq!(FULL_BLOCK, '\u{2588}');
    assert_eq!(BLANK, ' ');
    assert_eq!(
        square.draw(),
        vec![Stroke { x: 2, y: 3, glyph: '\u{2588}', width: 2, color: PlayerColor::Red }]
    );
    assert_eq!(
        square.erase(),
        vec![Stroke { x: 2, y: 3, glyph: ' ', width: 2, color: PlayerColor::Red }]
    );
}

#[test]
fn redraw_blanks_the_old_place_then_draws_the_new() {
    let mut square = Square { side: 2, coordinates: Point { x: 1, y: 1 }, color: PlayerColor::Cyan, id: 4 };
    let strokes = square.redraw(Point { x: 2, y: 1 });
    assert_eq!(
        square,
        Square { side: 2, coordinates: Point { x: 2, y: 1 }, color: PlayerColor::Cyan, id: 4 }
    );
    assert_eq!(
        strokes,
        vec![
            Stroke { x: 1, y: 1, glyph: ' ', width: 4, color: PlayerColor::Cyan },
            Stroke { x: 1, y: 2, glyph: ' ', width: 4, color: PlayerColor::Cyan },
            Stroke { x: 2, y: 1, glyph: '\u{2588}', width: 4, color: PlayerColor::Cyan },
            Stroke { x: 2, y: 2, glyph: '\u{2588}', width: 4, color: PlayerColor::Cyan },
        ]
    );
}

#[test]
fn paintable_tells_whether_the_rows_fit() {
    assert!(square_at(4, 7).paintable());
    assert!(square_at(0, usize::MAX - 2).paintable());
    assert!(!square_at(0, usize::MAX - 1).paintable());
    let wide = Square { side: usize::MAX / 2 + 1, coordinates: Point { x: 0, y: 0 }, color: PlayerColor::Blue, id: 0 };
    assert!(!wide.paintable());
    let flat = Square { side: 0, coordinates: Point { x: 0, y: usize::MAX }, color: PlayerColor::Blue, id: 0 };
    assert!(flat.paintable());
}
