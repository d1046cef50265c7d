use langtons_ant::Canvas;
use langtons_ant::ColorPalette;
use langtons_ant::Simulator;
use langtons_ant::Vec2;

#[test]
fn palette_has_one_color_per_state() {
    for n in 1..=20 {
        let p = ColorPalette::new(n);
        assert_eq!(p.len(), n);
        assert_eq!(p.color(0), (255, 255, 255));
    }
}

#[test]
fn palette_first_derived_color_is_blue() {
    let p = ColorPalette::new(4);
    let (r, g, b) = p.color(1);
    // the first sample sits on the blue anchor; after the perceptual round
    // trip it must stay a saturated blue, far from white and from the raw
    // channel values fed into the conversion
    assert!(b > 200, "blue channel too small: {:?}", (r, g, b));
    assert!(r < 150 && g < 150, "not blue: {:?}", (r, g, b));
    assert_ne!((r, g, b), (255, 255, 255));
}

#[test]
fn palette_colors_differ_between_states() {
    let p = ColorPalette::new(4);
    assert_ne!(p.color(1), p.color(2));
    assert_ne!(p.color(2), p.color(3));
    assert_ne!(p.color(1), p.color(3));
}

#[test]
fn large_palette_applies_lightness_pattern() {
    // with more than nine derived colors, neighbors drawn from the same
    // path region are pushed apart in lightness, so they must stay distinct
    let p = ColorPalette::new(13);
    assert_eq!(p.len(), 13);
    for i in 1..12 {
        assert_ne!(p.color(i), p.color(i + 1), "indices {} and {}", i, i + 1);
    }
}

#[test]
fn canvas_geometry_reserves_last_row() {
    let c = Canvas::new(80, 24, 0, false, true, 2);
    assert_eq!(c.columns, 80);
    assert_eq!(c.rows, 23);
    let f = Canvas::new(80, 24, 0, true, true, 2);
    assert_eq!(f.rows, 24);
}

#[test]
fn screen_round_trip_covers_whole_terminal() {
    let c = Canvas::new(80, 24, 0, false, true, 2);
    for col in 1..=c.columns {
        for row in 1..=c.rows {
            let (top, bottom) = c.screen_to_complex(col, row);
            assert_eq!(c.complex_to_screen(top), Some((col, row)));
            assert_eq!(c.complex_to_screen(bottom), Some((col, row)));
            assert_eq!(top.x, bottom.x);
            assert_eq!(top.y, bottom.y + 1);
        }
    }
}

#[test]
fn origin_lands_near_mid_screen() {
    let c = Canvas::new(10, 11, 0, false, true, 2);
    assert_eq!(c.complex_to_screen(Vec2 { x: 0, y: 0 }), Some((5, 5)));
}

#[test]
fn off_screen_cells_are_skipped() {
    let c = Canvas::new(10, 11, 0, false, true, 2);
    assert_eq!(c.complex_to_screen(Vec2 { x: 1000, y: 0 }), None);
    assert_eq!(c.complex_to_screen(Vec2 { x: 0, y: 1000 }), None);
    assert_eq!(c.complex_to_screen(Vec2 { x: 0, y: -1000 }), None);
    assert_eq!(c.complex_to_screen(Vec2 { x: -1000, y: 0 }), None);
}

#[test]
fn draw_repaints_left_and_entered_cells() {
    let c = Canvas::new(10, 11, 0, false, true, 2);
    let sim = Simulator::new("RL").unwrap();
    // as after a first step: ant at (0, 1) having left the origin upward
    let ops = c.draw(&sim.board, Vec2 { x: 0, y: 1 }, Vec2 { x: 0, y: 1 });
    assert_eq!(ops.len(), 2);
    // the origin's terminal cell is repainted first, all white board cells
    assert_eq!((ops[0].column, ops[0].row), (5, 5));
    assert_eq!(ops[0].fg, (255, 255, 255));
    assert_eq!(ops[0].bg, (255, 255, 255));
    // then the cell the ant entered, with the ant painted black on top
    assert_eq!((ops[1].column, ops[1].row), (5, 4));
    assert_eq!(ops[1].fg, (255, 255, 255));
    assert_eq!(ops[1].bg, (0, 0, 0));
    assert_eq!(ops[1].pause_ms, 0);
}

#[test]
fn draw_merges_cells_sharing_one_terminal_cell() {
    let c = Canvas::new(10, 11, 0, false, true, 2);
    let sim = Simulator::new("RL").unwrap();
    // top (0, 0) and bottom (0, -1) share the terminal cell (5, 5): one op
    let ops = c.draw(&sim.board, Vec2 { x: 0, y: -1 }, Vec2 { x: 0, y: -1 });
    assert_eq!(ops.len(), 1);
    assert_eq!((ops[0].column, ops[0].row), (5, 5));
    assert_eq!(ops[0].fg, (255, 255, 255));
    assert_eq!(ops[0].bg, (0, 0, 0));
}

#[test]
fn invisible_ant_is_not_painted() {
    let c = Canvas::new(10, 11, 0, false, false, 2);
    let sim = Simulator::new("RL").unwrap();
    let ops = c.draw(&sim.board, Vec2 { x: 0, y: 1 }, Vec2 { x: 0, y: 1 });
    // only the left cell is repainted, and nothing is painted black
    assert_eq!(ops.len(), 1);
    assert_eq!((ops[0].column, ops[0].row), (5, 5));
    assert_eq!(ops[0].fg, (255, 255, 255));
    assert_eq!(ops[0].bg, (255, 255, 255));
}

#[test]
fn pause_follows_the_visible_ant() {
    let c = Canvas::new(10, 11, 7, false, true, 2);
    let sim = Simulator::new("RL").unwrap();
    let ops = c.draw(&sim.board, Vec2 { x: 0, y: 1 }, Vec2 { x: 0, y: 1 });
    assert_eq!(ops.len(), 2);
    // no pause after the cell the ant left, one after the cell it occupies
    assert_eq!(ops[0].pause_ms, 0);
    assert_eq!(ops[1].pause_ms, 7);
}

#[test]
fn pause_skipped_when_ant_is_off_screen() {
    let c = Canvas::new(10, 11, 7, false, true, 2);
    let sim = Simulator::new("RL").unwrap();
    let ops = c.draw(&sim.board, Vec2 { x: 500, y: 0 }, Vec2 { x: 1, y: 0 });
    assert!(ops.is_empty());
}

#[test]
fn drawn_states_use_palette_colors() {
    let c = Canvas::new(80, 25, 0, false, false, 2);
    let mut sim = Simulator::new("RL").unwrap();
    sim.simulate();
    // the origin has advanced to state 1; with the ant invisible its cell
    // shows the palette color of state 1
    let ops = c.draw(&sim.board, sim.ant_position, sim.ant_direction);
    let p = ColorPalette::new(2);
    assert_eq!(ops.len(), 1);
    assert_eq!(ops[0].fg, p.color(1));
    assert_eq!(ops[0].bg, (255, 255, 255));
}
