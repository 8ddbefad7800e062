use tetris_rules::catalog::{
    color_for_draw, palette_color, random_color, random_shape, shape_for_draw, Color, ShapeKind,
    PALETTE_LEN, SHAPE_COUNT,
};
use tetris_rules::geometry::{Offset, Position, HEIGHT, WIDTH};
use tetris_rules::layout::screen_position;

fn all_shapes() -> Vec<ShapeKind> {
    vec![
        ShapeKind::I,
        ShapeKind::L,
        ShapeKind::J,
        ShapeKind::Z,
        ShapeKind::S,
        ShapeKind::O,
        ShapeKind::T,
    ]
}

#[test]
fn field_is_ten_by_eighteen() {
    assert_eq!(WIDTH, 10);
    assert_eq!(HEIGHT, 18);
}

#[test]
fn in_field_follows_the_walls_the_floor_and_the_top() {
    assert!(Position { x: 0, y: 0 }.is_in_field());
    assert!(Position { x: 9, y: 17 }.is_in_field());
    assert!(!Position { x: -1, y: 0 }.is_in_field());
    assert!(!Position { x: 10, y: 0 }.is_in_field());
    assert!(!Position { x: 0, y: -1 }.is_in_field());
    assert!(!Position { x: 0, y: 18 }.is_in_field());
}

#[test]
fn quarter_turn_maps_offsets_as_the_matrix_does() {
    assert_eq!(Offset { dx: 0, dy: 1 }.rotate(), Offset { dx: 1, dy: 0 });
    assert_eq!(Offset { dx: 1, dy: 0 }.rotate(), Offset { dx: 0, dy: -1 });
    assert_eq!(Offset { dx: 0, dy: -1 }.rotate(), Offset { dx: -1, dy: 0 });
    assert_eq!(Offset { dx: -1, dy: 0 }.rotate(), Offset { dx: 0, dy: 1 });
    assert_eq!(Offset { dx: 1, dy: 2 }.rotate(), Offset { dx: 2, dy: -1 });
    assert_eq!(Offset { dx: 0, dy: 0 }.rotate(), Offset { dx: 0, dy: 0 });
}

#[test]
fn four_quarter_turns_restore_every_offset_of_every_shape() {
    for kind in all_shapes() {
        for offset in kind.offsets() {
            let once = offset.rotate();
            let back = once.rotate().rotate().rotate();
            assert_eq!(back, offset);
        }
    }
}

#[test]
fn four_quarter_turns_restore_offsets_far_from_the_pivot() {
    for dx in -50..50 {
        for dy in -50..50 {
            let offset = Offset { dx, dy };
            assert_eq!(offset.rotate().rotate().rotate().rotate(), offset);
        }
    }
}

#[test]
fn catalog_holds_the_seven_shapes() {
    let o = |dx: i32, dy: i32| Offset { dx, dy };
    assert_eq!(ShapeKind::I.offsets(), [o(0, 0), o(0, -1), o(0, 1), o(0, 2)]);
    assert_eq!(ShapeKind::L.offsets(), [o(0, 0), o(0, -1), o(0, 1), o(-1, 1)]);
    assert_eq!(ShapeKind::J.offsets(), [o(0, 0), o(0, -1), o(0, 1), o(1, 1)]);
    assert_eq!(ShapeKind::Z.offsets(), [o(0, 0), o(0, -1), o(1, 0), o(1, 1)]);
    assert_eq!(ShapeKind::S.offsets(), [o(0, 0), o(1, 0), o(0, 1), o(1, -1)]);
    assert_eq!(ShapeKind::O.offsets(), [o(0, 0), o(0, 1), o(1, 0), o(1, 1)]);
    assert_eq!(ShapeKind::T.offsets(), [o(0, 0), o(-1, 0), o(1, 0), o(0, 1)]);
}

#[test]
fn every_shape_has_four_different_offsets_around_the_pivot() {
    for kind in all_shapes() {
        let offsets = kind.offsets();
        assert_eq!(offsets[0], Offset { dx: 0, dy: 0 });
        for i in 0..4 {
            assert!(offsets[i].dx.abs() <= 2 && offsets[i].dy.abs() <= 2);
            for j in (i + 1)..4 {
                assert_ne!(offsets[i], offsets[j]);
            }
        }
    }
}

#[test]
fn draws_select_shapes_in_catalog_order() {
    assert_eq!(SHAPE_COUNT, 7);
    let shapes = all_shapes();
    for draw in 0..7usize {
        assert_eq!(shape_for_draw(draw), shapes[draw]);
    }
    assert_eq!(shape_for_draw(7), ShapeKind::I);
    assert_eq!(shape_for_draw(12), ShapeKind::O);
    assert_eq!(shape_for_draw(usize::MAX), shapes[usize::MAX % 7]);
}

#[test]
fn draws_select_colors_modulo_the_palette() {
    assert_eq!(PALETTE_LEN, 6);
    assert_eq!(color_for_draw(0), 0);
    assert_eq!(color_for_draw(5), 5);
    assert_eq!(color_for_draw(6), 0);
    assert_eq!(color_for_draw(45), 3);
    assert_eq!(color_for_draw(usize::MAX), usize::MAX % 6);
}

#[test]
fn palette_has_six_colors() {
    assert_eq!(palette_color(0), Some(Color { r: 64, g: 230, b: 100 }));
    assert_eq!(palette_color(1), Some(Color { r: 220, g: 64, b: 90 }));
    assert_eq!(palette_color(2), Some(Color { r: 70, g: 150, b: 210 }));
    assert_eq!(palette_color(3), Some(Color { r: 220, g: 230, b: 70 }));
    assert_eq!(palette_color(4), Some(Color { r: 35, g: 220, b: 241 }));
    assert_eq!(palette_color(5), Some(Color { r: 240, g: 140, b: 70 }));
    assert_eq!(palette_color(6), None);
    assert_eq!(palette_color(usize::MAX), None);
}

#[test]
fn random_choices_stay_within_catalog_and_palette() {
    let shapes = all_shapes();
    let mut seen_shapes = [false; 7];
    let mut seen_colors = [false; 6];
    for _ in 0..2000 {
        let kind = random_shape();
        let place = shapes.iter().position(|s| *s == kind).unwrap();
        seen_shapes[place] = true;
        let color = random_color();
        assert!(color < PALETTE_LEN);
        seen_colors[color] = true;
    }
    assert!(seen_shapes.iter().all(|seen| *seen));
    assert!(seen_colors.iter().all(|seen| *seen));
}

#[test]
fn squares_map_to_pixels_around_the_center_of_the_screen() {
    assert_eq!(screen_position(Position { x: 0, y: 0 }), (-180, -340));
    assert_eq!(screen_position(Position { x: 9, y: 17 }), (180, 340));
    assert_eq!(screen_position(Position { x: 5, y: 18 }), (20, 380));
    assert_eq!(screen_position(Position { x: 1, y: 2 }), (-140, -260));
}
