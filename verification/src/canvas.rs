//! The pure part of the renderer: mapping the unbounded lattice onto the
//! bounded terminal grid and deciding, after each step, which terminal
//! cells to repaint and with which colors.
//!
//! Each terminal cell shows two vertically stacked lattice cells through a
//! half-block glyph: the foreground color paints the top cell and the
//! background color the bottom one. `draw` returns the repaint operations;
//! writing them to the terminal is left to the caller.

use vstd::arithmetic::div_mod::lemma_fundamental_div_mod_converse;
use vstd::hash_map::HashMapWithView;
use vstd::prelude::*;

use crate::colors::ColorPalette;
use crate::geometry::Vec2;
use crate::simulator::key_spec;

verus! {

/// One repaint: write the half-block glyph at (column, row) with the given
/// foreground (top cell) and background (bottom cell) colors, and pause for
/// `pause_ms` milliseconds afterwards when it is not zero.
#[derive(Clone, Copy, Debug)]
pub struct PaintOp {
    pub column: u16,
    pub row: u16,
    pub fg: (u8, u8, u8),
    pub bg: (u8, u8, u8),
    pub pause_ms: u64,
}

/// The renderer's state: the terminal extents fixed at construction, the
/// configured inter-step pause, whether the ant is drawn distinctly, and
/// the palette.
pub struct Canvas {
    pub columns: u16,
    pub rows: u16,
    pub sleep_ms: u64,
    pub draw_ant: bool,
    pub palette: ColorPalette,
}

impl Canvas {
    /// At least one color, so the background lookup is always possible.
    pub open spec fn wf(self) -> bool {
        self.palette.colors@.len() >= 1
    }

    /// Where a lattice cell lands on the terminal: its column is the x
    /// coordinate shifted by half the width, its row counts two lattice
    /// rows per terminal row down from the top. `None` exactly when the
    /// cell falls outside the addressable grid [1, columns] x [1, rows].
    pub open spec fn screen_of(self, x: int, y: int) -> Option<(int, int)> {
        let col = x + (self.columns as int) / 2;
        let dy = self.rows as int - y;
        if 1 <= col <= self.columns && 2 <= dy && dy / 2 <= self.rows {
            Some((col, dy / 2))
        } else {
            None
        }
    }

    /// The two lattice cells a terminal cell shows: the top one and the one
    /// directly below it.
    pub open spec fn lattice_of(self, col: int, row: int) -> ((int, int), (int, int)) {
        let x = col - (self.columns as int) / 2;
        let y = self.rows as int - 2 * row;
        ((x, y), (x, y - 1))
    }

    /// Builds a renderer for a terminal of the given size, reserving the
    /// last row unless `fill_terminal` is set, with one palette color per
    /// board state.
    pub fn new(
        term_columns: u16,
        term_rows: u16,
        sleep_ms: u64,
        fill_terminal: bool,
        draw_ant: bool,
        number_of_states: usize,
    ) -> (c: Canvas)
        requires
            number_of_states >= 1,
            !fill_terminal ==> term_rows >= 1,
        ensures
            c.wf(),
            c.columns == term_columns,
            c.rows == if fill_terminal {
                term_rows as int
            } else {
                term_rows - 1
            },
            c.sleep_ms == sleep_ms,
            c.draw_ant == draw_ant,
            c.palette.colors@.len() == number_of_states,
            c.palette.colors@[0] == (255u8, 255u8, 255u8),
            forall|i: int|
                1 <= i < number_of_states ==> crate::colors::rgb_triple(
                    #[trigger] c.palette.colors@[i],
                ) == crate::colors::palette_color(i, number_of_states as int),
    {
        let rows: u16 = if fill_terminal {
            term_rows
        } else {
            term_rows - 1
        };
        Canvas {
            columns: term_columns,
            rows,
            sleep_ms,
            draw_ant,
            palette: ColorPalette::new(number_of_states),
        }
    }

    /// Maps a lattice cell to its terminal cell, or `None` when it is not
    /// visible.
    pub fn complex_to_screen(&self, cell: Vec2) -> (r: Option<(u16, u16)>)
        ensures
            match r {
                Some(cr) => self.screen_of(cell.x as int, cell.y as int) == Some(
                    (cr.0 as int, cr.1 as int),
                ),
                None => self.screen_of(cell.x as int, cell.y as int) is None,
            },
    {
        let half: u16 = self.columns / 2;
        let col: i64 = cell.x as i64 + half as i64;
        if col < 1 || col > self.columns as i64 {
            return None;
        }
        let dy: i64 = self.rows as i64 - cell.y as i64;
        if dy < 2 {
            return None;
        }
        let row: u64 = (dy as u64) / 2;
        if row > self.rows as u64 {
            return None;
        }
        Some((col as u16, row as u16))
    }

    /// The two lattice cells shown at a terminal cell: the inverse of
    /// `complex_to_screen`, top cell first.
    pub fn screen_to_complex(&self, column: u16, row: u16) -> (r: (Vec2, Vec2))
        ensures
            ((r.0.x as int, r.0.y as int), (r.1.x as int, r.1.y as int)) == self.lattice_of(
                column as int,
                row as int,
            ),
    {
        let x: i32 = column as i32 - (self.columns / 2) as i32;
        let y: i32 = self.rows as i32 - 2 * (row as i32);
        (Vec2 { x, y }, Vec2 { x, y: y - 1 })
    }

    /// The color a lattice cell is shown with: the distinct ant color where
    /// the ant is drawn and sits on the cell, otherwise the palette color
    /// of the cell's stored state (state 0 where nothing is stored, and the
    /// background color for a state outside the palette, which a
    /// well-formed engine never stores).
    pub open spec fn spec_cell_color(
        self,
        ant: (int, int),
        sq: (int, int),
        board: Map<u64, usize>,
    ) -> (u8, u8, u8) {
        if self.draw_ant && sq == ant {
            (0u8, 0u8, 0u8)
        } else {
            let st = if board.contains_key(key_spec(sq.0, sq.1)) {
                board[key_spec(sq.0, sq.1)] as int
            } else {
                0
            };
            if st < self.palette.colors@.len() {
                self.palette.colors@[st]
            } else {
                self.palette.colors@[0]
            }
        }
    }

    /// Resolves the display color of one lattice cell.
    pub fn square_term_color(
        &self,
        ant_position: Vec2,
        square_position: Vec2,
        board: &HashMapWithView<u64, usize>,
    ) -> (c: (u8, u8, u8))
        requires
            self.wf(),
        ensures
            c == self.spec_cell_color(
                (ant_position.x as int, ant_position.y as int),
                (square_position.x as int, square_position.y as int),
                board@,
            ),
    {
        if self.draw_ant && ant_position == square_position {
            return (0, 0, 0);
        }
        let key = crate::simulator::key_of(square_position);
        let cell_state: usize = match board.get(&key) {
            Some(s) => *s,
            None => 0,
        };
        if cell_state < self.palette.len() {
            self.palette.color(cell_state)
        } else {
            self.palette.color(0)
        }
    }

    /// The repaint of one visible terminal cell: resolve its top and bottom
    /// lattice cells independently, and pause afterwards when the ant sits
    /// in one of them and a pause is configured.
    pub open spec fn cell_op(
        self,
        screen: (int, int),
        ant: (int, int),
        board: Map<u64, usize>,
    ) -> PaintOp {
        let (top, bottom) = self.lattice_of(screen.0, screen.1);
        PaintOp {
            column: screen.0 as u16,
            row: screen.1 as u16,
            fg: self.spec_cell_color(ant, top, board),
            bg: self.spec_cell_color(ant, bottom, board),
            pause_ms: if (ant == top || ant == bottom) && self.sleep_ms != 0 {
                self.sleep_ms
            } else {
                0
            },
        }
    }

    /// Everything `draw` repaints, in order: the cell the ant left (its
    /// state just advanced), then, when the ant is drawn and occupies a
    /// different terminal cell, the cell it entered. Off-screen cells are
    /// skipped silently.
    pub open spec fn draw_ops(
        self,
        board: Map<u64, usize>,
        ant: (int, int),
        dir: (int, int),
    ) -> Seq<PaintOp> {
        let prev = (ant.0 - dir.0, ant.1 - dir.1);
        let prev_s = self.screen_of(prev.0, prev.1);
        let ant_s = self.screen_of(ant.0, ant.1);
        let first: Seq<PaintOp> = match prev_s {
            Some(p) => seq![self.cell_op(p, ant, board)],
            None => Seq::empty(),
        };
        let second: Seq<PaintOp> = if self.draw_ant && ant_s != prev_s {
            match ant_s {
                Some(p) => seq![self.cell_op(p, ant, board)],
                None => Seq::empty(),
            }
        } else {
            Seq::empty()
        };
        first + second
    }

    /// Builds the repaint of one terminal cell.
    fn make_op(
        &self,
        cell: (u16, u16),
        ant_position: Vec2,
        board: &HashMapWithView<u64, usize>,
    ) -> (op: PaintOp)
        requires
            self.wf(),
        ensures
            op == self.cell_op(
                (cell.0 as int, cell.1 as int),
                (ant_position.x as int, ant_position.y as int),
                board@,
            ),
    {
        let (top, bottom) = self.screen_to_complex(cell.0, cell.1);
        let fg = self.square_term_color(ant_position, top, board);
        let bg = self.square_term_color(ant_position, bottom, board);
        let pause_ms: u64 = if (ant_position == top || ant_position == bottom) && self.sleep_ms
            != 0 {
            self.sleep_ms
        } else {
            0
        };
        PaintOp { column: cell.0, row: cell.1, fg, bg, pause_ms }
    }

    /// Decides which terminal cells changed since the last step and how to
    /// repaint them: exactly the operations `draw_ops` fixes. The bounds in
    /// `requires` only keep the previous position representable.
    pub fn draw(
        &self,
        board: &HashMapWithView<u64, usize>,
        ant_position: Vec2,
        ant_direction: Vec2,
    ) -> (ops: Vec<PaintOp>)
        requires
            self.wf(),
            ant_direction.is_unit(),
            i32::MIN < ant_position.x < i32::MAX,
            i32::MIN < ant_position.y < i32::MAX,
        ensures
            ops@ == self.draw_ops(
                board@,
                (ant_position.x as int, ant_position.y as int),
                (ant_direction.x as int, ant_direction.y as int),
            ),
    {
        let prev = Vec2 {
            x: ant_position.x - ant_direction.x,
            y: ant_position.y - ant_direction.y,
        };
        let cell_prev = self.complex_to_screen(prev);
        let cell_ant = self.complex_to_screen(ant_position);
        let mut ops: Vec<PaintOp> = Vec::new();
        if let Some(cp) = cell_prev {
            ops.push(self.make_op(cp, ant_position, board));
        }
        if self.draw_ant {
            let differs = match (cell_ant, cell_prev) {
                (Some(a), Some(p)) => a.0 != p.0 || a.1 != p.1,
                (Some(_), None) => true,
                _ => false,
            };
            if differs {
                if let Some(ca) = cell_ant {
                    ops.push(self.make_op(ca, ant_position, board));
                }
            }
        }
        proof {
            assert(ops@ =~= self.draw_ops(
                board@,
                (ant_position.x as int, ant_position.y as int),
                (ant_direction.x as int, ant_direction.y as int),
            ));
        }
        ops
    }
}

/// Round trip of the coordinate mapping: for any terminal cell within
/// bounds, both lattice cells it shows map back to exactly that cell.
pub proof fn lemma_screen_round_trip(c: Canvas, col: int, row: int)
    requires
        1 <= col <= c.columns,
        1 <= row <= c.rows,
    ensures
        ({
            let (top, bottom) = c.lattice_of(col, row);
            c.screen_of(top.0, top.1) == Some((col, row)) && c.screen_of(bottom.0, bottom.1)
                == Some((col, row))
        }),
{
    let (top, bottom) = c.lattice_of(col, row);
    lemma_fundamental_div_mod_converse(2 * row, 2, row, 0);
    lemma_fundamental_div_mod_converse(2 * row + 1, 2, row, 1);
}

} // verus!
