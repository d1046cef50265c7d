//! The simulation engine: a sparse unbounded board, an ant with a position
//! and an axis-aligned unit heading, and a rotation table parsed from a
//! symbol sequence.
//!
//! Each step looks up the state of the cell under the ant, turns the heading
//! by the rotation at that state index, advances the cell's state cyclically,
//! and moves the ant one cell along its new heading. The whole step is an
//! exact function of the previous state, which is what makes the run
//! deterministic.

use vstd::arithmetic::div_mod::lemma_add_mod_noop;
use vstd::arithmetic::div_mod::lemma_fundamental_div_mod_converse;
use vstd::arithmetic::div_mod::lemma_small_mod;
use vstd::hash_map::HashMapWithView;
use vstd::prelude::*;
use vstd::string::StrSliceExecFns;

use crate::geometry::Mat2;
use crate::geometry::Vec2;

verus! {

broadcast use vstd::std_specs::hash::group_hash_axioms;

/// The rotation sequence was rejected: either a symbol outside the alphabet
/// {R, L, U, N} (carried in `symbol`), or an empty sequence (`symbol` is
/// `None`).
#[derive(Clone, Copy, Debug)]
pub struct InvalidRotationSymbol {
    pub symbol: Option<char>,
}

/// True of the four accepted rotation directives.
pub open spec fn is_rotation_symbol(c: char) -> bool {
    c == 'R' || c == 'L' || c == 'U' || c == 'N'
}

/// The rotation matrix a directive stands for: a quarter turn right or left,
/// a half turn, or the identity.
pub open spec fn rotation_of(c: char) -> Mat2 {
    if c == 'R' {
        Mat2 { a: 0i32, b: 1i32, c: -1i32, d: 0i32 }
    } else if c == 'L' {
        Mat2 { a: 0i32, b: -1i32, c: 1i32, d: 0i32 }
    } else if c == 'U' {
        Mat2 { a: -1i32, b: 0i32, c: 0i32, d: -1i32 }
    } else {
        Mat2 { a: 1i32, b: 0i32, c: 0i32, d: 1i32 }
    }
}

pub open spec fn all_symbols_valid(s: Seq<char>) -> bool {
    forall|i: int| 0 <= i < s.len() ==> is_rotation_symbol(#[trigger] s[i])
}

/// The ordered rotation table a symbol sequence parses to.
pub open spec fn table_of(s: Seq<char>) -> Seq<Mat2> {
    s.map_values(|c: char| rotation_of(c))
}

/// True when (x, y) is representable as a pair of `i32` values.
pub open spec fn in_coord_range(x: int, y: int) -> bool {
    -0x8000_0000 <= x <= 0x7fff_ffff && -0x8000_0000 <= y <= 0x7fff_ffff
}

/// The board key a lattice coordinate is filed under: both components are
/// shifted to be non-negative and packed into one 64-bit integer, which is
/// injective over the whole `i32` range.
pub open spec fn key_spec(x: int, y: int) -> u64 {
    (((x + 0x8000_0000) * 0x1_0000_0000) + (y + 0x8000_0000)) as u64
}

/// Packing distinct representable coordinates gives distinct keys.
pub proof fn lemma_key_injective(x1: int, y1: int, x2: int, y2: int)
    requires
        in_coord_range(x1, y1),
        in_coord_range(x2, y2),
        key_spec(x1, y1) == key_spec(x2, y2),
    ensures
        x1 == x2 && y1 == y2,
{
    let u1 = x1 + 0x8000_0000;
    let w1 = y1 + 0x8000_0000;
    let u2 = x2 + 0x8000_0000;
    let w2 = y2 + 0x8000_0000;
    let v1 = u1 * 0x1_0000_0000 + w1;
    let v2 = u2 * 0x1_0000_0000 + w2;
    assert(key_spec(x1, y1) == v1);
    assert(key_spec(x2, y2) == v2);
    lemma_fundamental_div_mod_converse(v1, 0x1_0000_0000, u1, w1);
    lemma_fundamental_div_mod_converse(v2, 0x1_0000_0000, u2, w2);
}

/// Computes the board key of a coordinate.
pub fn key_of(v: Vec2) -> (k: u64)
    ensures
        k == key_spec(v.x as int, v.y as int),
{
    let ux: u64 = (v.x as i64 + 0x8000_0000) as u64;
    let uy: u64 = (v.y as i64 + 0x8000_0000) as u64;
    ux * 0x1_0000_0000 + uy
}

/// The mathematical state of a run: the rotation table, the visited cells
/// with their state indices, and the ant's position and heading.
#[verifier::ext_equal]
pub ghost struct AntState {
    pub table: Seq<Mat2>,
    pub board: Map<(int, int), int>,
    pub pos: (int, int),
    pub dir: (int, int),
}

/// The state every run starts from: an empty board, the ant at the origin
/// facing left.
pub open spec fn init_state(table: Seq<Mat2>) -> AntState {
    AntState { table, board: Map::empty(), pos: (0, 0), dir: (-1, 0) }
}

/// One tick of the simulation, as a function of the abstract state: read the
/// state under the ant (absent cells count as 0), turn the heading by the
/// rotation at that index, advance the cell's state cyclically, and move one
/// cell along the new heading.
pub open spec fn step_state(s: AntState) -> AntState {
    let st = if s.board.dom().contains(s.pos) {
        s.board[s.pos]
    } else {
        0
    };
    let m = s.table[st];
    let d = m.spec_apply_int(s.dir.0, s.dir.1);
    AntState {
        table: s.table,
        board: s.board.insert(s.pos, (st + 1) % (s.table.len() as int)),
        pos: (s.pos.0 + d.0, s.pos.1 + d.1),
        dir: d,
    }
}

/// The abstract state after `n` ticks.
pub open spec fn run_steps(s: AntState, n: nat) -> AntState
    decreases n,
{
    if n == 0 {
        s
    } else {
        step_state(run_steps(s, (n - 1) as nat))
    }
}

/// The simulation engine. `board` maps packed coordinates (see `key_spec`)
/// to state indices in [0, N); absent coordinates are implicitly state 0.
pub struct Simulator {
    pub states: Vec<Mat2>,
    pub board: HashMapWithView<u64, usize>,
    pub ant_position: Vec2,
    pub ant_direction: Vec2,
    pub visits: Ghost<Map<(int, int), nat>>,
}

impl Simulator {
    /// How many board states (and rotations) are configured.
    pub open spec fn num_states(self) -> int {
        self.states@.len() as int
    }

    /// The rotation table, state index to matrix.
    pub open spec fn table(self) -> Seq<Mat2> {
        self.states@
    }

    /// The state index stored for a coordinate; 0 where none is stored.
    pub open spec fn board_state(self, x: int, y: int) -> int {
        if self.board@.contains_key(key_spec(x, y)) {
            self.board@[key_spec(x, y)] as int
        } else {
            0
        }
    }

    /// How many times the ant has stepped off this coordinate so far.
    pub open spec fn visit_count(self, x: int, y: int) -> nat {
        if self.visits@.dom().contains((x, y)) {
            self.visits@[(x, y)]
        } else {
            0
        }
    }

    /// The engine's invariant: at least one state, every rotation a signed
    /// permutation matrix, the heading an axis-aligned unit vector, every
    /// stored state index in range, and every stored state index equal to
    /// the cell's visit count modulo the number of states.
    pub open spec fn wf(self) -> bool {
        &&& self.states@.len() >= 1
        &&& forall|i: int|
            0 <= i < self.states@.len() ==> (#[trigger] self.states@[i]).is_signed_perm()
        &&& self.ant_direction.is_unit()
        &&& forall|k: u64| #[trigger]
            self.board@.contains_key(k) ==> self.board@[k] < self.states@.len()
        &&& forall|x: int, y: int|
            in_coord_range(x, y) ==> #[trigger] self.board_state(x, y) == self.visit_count(x, y)
                as int % self.num_states()
    }

    /// The abstract state this engine is in.
    pub open spec fn abs(self) -> AntState {
        AntState {
            table: self.states@,
            board: Map::new(
                |p: (int, int)|
                    in_coord_range(p.0, p.1) && self.board@.contains_key(key_spec(p.0, p.1)),
                |p: (int, int)| self.board@[key_spec(p.0, p.1)] as int,
            ),
            pos: (self.ant_position.x as int, self.ant_position.y as int),
            dir: (self.ant_direction.x as int, self.ant_direction.y as int),
        }
    }

    /// Parses a rotation sequence over the alphabet {R, L, U, N} into an
    /// engine that starts on an empty board at the origin, facing left.
    /// Succeeds exactly on non-empty sequences of valid symbols; fails
    /// identifying the first offending symbol, or with no symbol when the
    /// sequence is empty.
    pub fn new(rotations: &str) -> (r: Result<Simulator, InvalidRotationSymbol>)
        ensures
            r is Ok <==> rotations@.len() >= 1 && all_symbols_valid(rotations@),
            r is Ok ==> ({
                let sim = r->Ok_0;
                &&& sim.wf()
                &&& sim.abs() == init_state(table_of(rotations@))
                &&& forall|x: int, y: int| #[trigger] sim.visit_count(x, y) == 0
            }),
            r is Err ==> ({
                let e = r->Err_0;
                if rotations@.len() == 0 {
                    e.symbol is None
                } else {
                    exists|j: int|
                        0 <= j < rotations@.len() && !is_rotation_symbol(#[trigger] rotations@[j])
                            && (forall|i: int|
                            0 <= i < j ==> is_rotation_symbol(#[trigger] rotations@[i]))
                            && e.symbol == Some(rotations@[j])
                }
            }),
    {
        let n = rotations.unicode_len();
        if n == 0 {
            return Err(InvalidRotationSymbol { symbol: None });
        }
        let mut states: Vec<Mat2> = Vec::new();
        let mut i: usize = 0;
        while i < n
            invariant
                n == rotations@.len(),
                i <= n,
                states@.len() == i,
                forall|j: int| 0 <= j < i ==> is_rotation_symbol(#[trigger] rotations@[j]),
                forall|j: int| 0 <= j < i ==> states@[j] == rotation_of(#[trigger] rotations@[j]),
            decreases n - i,
        {
            let ch = rotations.get_char(i);
            let m = if ch == 'R' {
                Mat2 { a: 0, b: 1, c: -1, d: 0 }
            } else if ch == 'L' {
                Mat2 { a: 0, b: -1, c: 1, d: 0 }
            } else if ch == 'U' {
                Mat2 { a: -1, b: 0, c: 0, d: -1 }
            } else if ch == 'N' {
                Mat2 { a: 1, b: 0, c: 0, d: 1 }
            } else {
                return Err(InvalidRotationSymbol { symbol: Some(ch) });
            };
            states.push(m);
            i += 1;
        }
        let sim = Simulator {
            states,
            board: HashMapWithView::new(),
            ant_position: Vec2::new(0, 0),
            ant_direction: Vec2::new(-1, 0),
            visits: Ghost(Map::empty()),
        };
        proof {
            assert(sim.states@ =~= table_of(rotations@));
            assert forall|x: int, y: int|
                in_coord_range(x, y) implies #[trigger] sim.board_state(x, y) == sim.visit_count(
                x,
                y,
            ) as int % sim.num_states() by {
                lemma_small_mod(0, sim.states@.len());
            }
            assert(sim.abs().board =~= Map::<(int, int), int>::empty());
            assert(sim.abs() =~= init_state(table_of(rotations@)));
        }
        Ok(sim)
    }

    /// Advances the simulation by one tick. The new state is exactly
    /// `step_state` of the old one; the cell the ant stood on has its visit
    /// count raised by one and no other count changes. The bounds in
    /// `requires` only keep the new position representable.
    pub fn simulate(&mut self)
        requires
            old(self).wf(),
            i32::MIN < old(self).ant_position.x < i32::MAX,
            i32::MIN < old(self).ant_position.y < i32::MAX,
        ensures
            final(self).wf(),
            final(self).abs() == step_state(old(self).abs()),
            final(self).visit_count(
                old(self).ant_position.x as int,
                old(self).ant_position.y as int,
            ) == old(self).visit_count(
                old(self).ant_position.x as int,
                old(self).ant_position.y as int,
            ) + 1,
            forall|x: int, y: int|
                (x, y) != (old(self).ant_position.x as int, old(self).ant_position.y as int)
                    ==> #[trigger] final(self).visit_count(x, y) == old(self).visit_count(x, y),
    {
        let ghost px = self.ant_position.x as int;
        let ghost py = self.ant_position.y as int;
        let key = key_of(self.ant_position);
        let square_state: usize = match self.board.get(&key) {
            Some(s) => *s,
            None => 0,
        };
        let rotation = self.states[square_state];
        let n = self.states.len();
        let next_state = (square_state + 1) % n;
        let new_dir = rotation.apply(self.ant_direction);
        self.board.insert(key, next_state);
        self.visits = Ghost(
            self.visits@.insert((px, py), (old(self).visit_count(px, py) + 1) as nat),
        );
        self.ant_direction = new_dir;
        self.ant_position = self.ant_position.plus(new_dir);
        proof {
            let old_abs = old(self).abs();
            assert forall|x: int, y: int|
                in_coord_range(x, y) && (x, y) != (px, py) implies key_spec(x, y) != key_spec(
                px,
                py,
            ) by {
                if key_spec(x, y) == key_spec(px, py) {
                    lemma_key_injective(x, y, px, py);
                }
            }
            assert(self.abs().board =~= old_abs.board.insert(
                (px, py),
                (square_state + 1) as int % (self.states@.len() as int),
            ));
            assert(self.abs() =~= step_state(old_abs));
            assert forall|x: int, y: int|
                in_coord_range(x, y) implies #[trigger] self.board_state(x, y) == self.visit_count(
                x,
                y,
            ) as int % self.num_states() by {
                let nn = self.states@.len() as int;
                assert(old(self).board_state(x, y) == old(self).visit_count(x, y) as int % nn);
                if (x, y) == (px, py) {
                    let vc = old(self).visit_count(px, py) as int;
                    assert(old(self).board_state(px, py) == vc % nn);
                    assert(square_state as int == vc % nn);
                    lemma_add_mod_noop(vc, 1, nn);
                    if nn == 1 {
                        lemma_small_mod(0, 1);
                    } else {
                        lemma_small_mod(1, nn as nat);
                    }
                    assert((square_state + 1) as int % nn == (vc + 1) % nn);
                }
            }
        }
    }

    /// The stored state of a coordinate; 0 where the ant has never been.
    pub fn state_at(&self, x: i32, y: i32) -> (s: usize)
        ensures
            s as int == self.board_state(x as int, y as int),
    {
        let key = key_of(Vec2 { x, y });
        match self.board.get(&key) {
            Some(s) => *s,
            None => 0,
        }
    }
}

/// Determinism: two runs from equal states are equal after any number of
/// steps. Together with `Simulator::new`, whose postcondition fixes the
/// initial state as a function of the rotation sequence alone, and
/// `Simulator::simulate`, whose postcondition makes each tick compute
/// `step_state` exactly, this says two independent runs of the same
/// configuration agree on board, position and heading at every step count.
pub proof fn lemma_run_deterministic(s1: AntState, s2: AntState, n: nat)
    requires
        s1 == s2,
    ensures
        run_steps(s1, n) == run_steps(s2, n),
{
}

/// The abstract invariant: a non-empty table of signed permutation
/// matrices, an axis-aligned unit heading, and stored states in range.
pub open spec fn state_wf(s: AntState) -> bool {
    &&& s.table.len() >= 1
    &&& forall|i: int| 0 <= i < s.table.len() ==> (#[trigger] s.table[i]).is_signed_perm()
    &&& (s.dir.0 == 1 || s.dir.0 == -1) && s.dir.1 == 0 || s.dir.0 == 0 && (s.dir.1 == 1 || s.dir.1
        == -1)
    &&& forall|p: (int, int)| s.board.dom().contains(p) ==> 0 <= #[trigger] s.board[p] < s.table.len()
}

/// One tick preserves the abstract invariant.
pub proof fn lemma_step_preserves_wf(s: AntState)
    requires
        state_wf(s),
    ensures
        state_wf(step_state(s)),
{
    let st = if s.board.dom().contains(s.pos) {
        s.board[s.pos]
    } else {
        0
    };
    let nn = s.table.len() as int;
    assert(0 <= (st + 1) % nn < nn) by {
        vstd::arithmetic::div_mod::lemma_mod_bound(st + 1, nn);
    }
    crate::geometry::lemma_signed_perm_preserves_unit(s.table[st], s.dir.0, s.dir.1);
}

/// Heading invariant: starting from a well-formed state, the heading is one
/// of the four axis-aligned unit vectors after any number of steps.
pub proof fn lemma_heading_always_unit(s: AntState, n: nat)
    requires
        state_wf(s),
    ensures
        state_wf(run_steps(s, n)),
        ({
            let d = run_steps(s, n).dir;
            (d.0 == 1 || d.0 == -1) && d.1 == 0 || d.0 == 0 && (d.1 == 1 || d.1 == -1)
        }),
    decreases n,
{
    if n > 0 {
        lemma_heading_always_unit(s, (n - 1) as nat);
        lemma_step_preserves_wf(run_steps(s, (n - 1) as nat));
    }
}

/// A well-formed engine is in a well-formed abstract state.
pub proof fn lemma_abs_wf(sim: Simulator)
    requires
        sim.wf(),
    ensures
        state_wf(sim.abs()),
{
}

/// State-advance invariant: in a well-formed engine, every representable
/// coordinate stores exactly its visit count modulo the number of states —
/// a never-visited coordinate stores the implicit state 0. `Simulator::new`
/// establishes the invariant with all counts zero and `simulate` keeps it,
/// raising only the left cell's count.
pub proof fn lemma_state_is_visits_mod(sim: Simulator, x: int, y: int)
    requires
        sim.wf(),
        in_coord_range(x, y),
    ensures
        sim.board_state(x, y) == sim.visit_count(x, y) as int % sim.num_states(),
{
}

} // verus!
