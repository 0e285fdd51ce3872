//! The interaction model: a cell grid with its rule, a cursor and a mode,
//! driven one message at a time.

use vstd::prelude::*;
use rand::Rng;
use crate::grid::{empty_grid, grid_view, grid_wf, live, neighbor_count, overlay, step_cell,
    step_grid};
use crate::preset::{blinker_cells, blinker_pattern, draw_pattern, empty_cells, empty_pattern,
    mold_cells, mold_pattern, pattern_from_draws, Preset};
use crate::rule::{valid_counts, rule_string, rulestring_of, Rule};

verus! {

#[verifier::external_type_specification]
#[verifier::external_body]
pub struct ExThreadRng(rand::rngs::ThreadRng);

/// Relies on rand::thread_rng: a handle to the thread-local random
/// generator, lazily initialized and periodically reseeded from the system
/// source.
#[verifier::external_body]
fn fresh_rng() -> rand::rngs::ThreadRng {
    rand::thread_rng()
}

/// Relies on rand::Rng::gen_range: a value drawn uniformly from [0, n),
/// panicking only on an empty range. Nothing more holds of any one draw.
#[verifier::external_body]
fn rng_below(rng: &mut rand::rngs::ThreadRng, n: u32) -> (r: u32)
    requires
        n > 0,
    ensures
        r < n,
{
    rng.gen_range(0..n)
}

/// The simulation/editing mode. `Editing` and `Running` toggle into each
/// other; `Done` is absorbing.
#[derive(Debug, PartialEq, Eq, Structural)]
pub enum State {
    Editing,
    Running,
    Done,
}

/// A cursor coordinate pair, clamped at all times to the grid's bounds.
#[derive(Debug, PartialEq, Eq, Structural)]
pub struct Coords {
    pub x: i16,
    pub y: i16,
}

/// A cursor movement direction.
#[derive(Debug, PartialEq, Eq, Structural)]
pub enum Direction {
    Up,
    Down,
    Left,
    Right,
}

/// An external event delivered to the model by the host's event loop.
#[derive(Debug, PartialEq, Eq, Structural)]
pub enum Message {
    Move(Direction),
    ToggleCellState,
    ToggleEditing,
    Idle,
    Quit,
}

/// The abstract value of a [`Model`]: its grid, rule, mode, cursor, bounds
/// and tick interval, free of any representation detail.
#[verifier::ext_equal]
pub ghost struct ModelView {
    pub grid: Seq<Seq<bool>>,
    pub births: Seq<u8>,
    pub survivals: Seq<u8>,
    pub state: State,
    pub cursor_x: int,
    pub cursor_y: int,
    pub max_x: int,
    pub max_y: int,
    pub tickrate: int,
}

impl ModelView {
    /// Well-formedness: positive bounds that fit the cursor's type, a grid of
    /// exactly (max_y + 1) by (max_x + 1) cells, a cursor inside the bounds,
    /// and rule counts within [0, 8].
    pub open spec fn wf(self) -> bool {
        &&& 0 < self.max_x <= i16::MAX as int
        &&& 0 < self.max_y <= i16::MAX as int
        &&& grid_wf(self.grid, self.max_y + 1, self.max_x + 1)
        &&& 0 <= self.cursor_x <= self.max_x
        &&& 0 <= self.cursor_y <= self.max_y
        &&& valid_counts(self.births)
        &&& valid_counts(self.survivals)
    }
}

/// `v` clamped to [0, max]: a proposed coordinate at or below 0 lands on 0,
/// one at or beyond the axis maximum lands exactly on that maximum.
pub open spec fn clamp(v: int, max: int) -> int {
    if v <= 0 {
        0
    } else if v >= max {
        max
    } else {
        v
    }
}

/// The horizontal component of a direction's step.
pub open spec fn delta_x(dir: Direction) -> int {
    match dir {
        Direction::Up => 0,
        Direction::Down => 0,
        Direction::Left => -1,
        Direction::Right => 1,
    }
}

/// The vertical component of a direction's step.
pub open spec fn delta_y(dir: Direction) -> int {
    match dir {
        Direction::Up => -1,
        Direction::Down => 1,
        Direction::Left => 0,
        Direction::Right => 0,
    }
}

/// The model after a cursor move by (dx, dy): while editing, each axis is
/// clamped independently to its bounds; in any other mode nothing changes.
pub open spec fn spec_move(m: ModelView, dx: int, dy: int) -> ModelView {
    if m.state == State::Editing {
        ModelView {
            cursor_x: clamp(m.cursor_x + dx, m.max_x),
            cursor_y: clamp(m.cursor_y + dy, m.max_y),
            ..m
        }
    } else {
        m
    }
}

/// The grid with the cell at (y, x) set to `val`.
pub open spec fn grid_write(g: Seq<Seq<bool>>, y: int, x: int, val: bool) -> Seq<Seq<bool>> {
    g.update(y, g[y].update(x, val))
}

/// The model after a bounds-checked cell write: a write whose coordinate
/// exceeds either bound is silently dropped.
pub open spec fn spec_write_cell(m: ModelView, y: int, x: int, val: bool) -> ModelView {
    if y <= m.max_y && x <= m.max_x {
        ModelView { grid: grid_write(m.grid, y, x, val), ..m }
    } else {
        m
    }
}

/// The model with the cell under the cursor flipped in either interactive
/// mode — while running the cursor is simply frozen at its last edited
/// position. Once `Done`, nothing changes: the terminated mode absorbs every
/// message.
pub open spec fn spec_toggle_cell(m: ModelView) -> ModelView {
    if m.state == State::Done {
        m
    } else {
        ModelView {
            grid: grid_write(m.grid, m.cursor_y, m.cursor_x, !m.grid[m.cursor_y][m.cursor_x]),
            ..m
        }
    }
}

/// The mode after `ToggleEditing`: `Editing` and `Running` swap; `Done`
/// stays `Done`.
pub open spec fn toggled_state(s: State) -> State {
    match s {
        State::Editing => State::Running,
        State::Running => State::Editing,
        State::Done => State::Done,
    }
}

/// The model after one message: `Move` steps the cursor (editing only),
/// `ToggleCellState` flips the cell under the cursor (editing or running),
/// `ToggleEditing` swaps `Editing` and `Running`, `Idle` advances one
/// generation (running only), and `Quit` terminates. Once terminated, every
/// message is a no-op.
pub open spec fn spec_update(m: ModelView, msg: Message) -> ModelView {
    match msg {
        Message::Move(dir) => spec_move(m, delta_x(dir), delta_y(dir)),
        Message::ToggleCellState => spec_toggle_cell(m),
        Message::ToggleEditing => ModelView { state: toggled_state(m.state), ..m },
        Message::Idle => if m.state == State::Running {
            ModelView { grid: step_grid(m.grid, m.births, m.survivals), ..m }
        } else {
            m
        },
        Message::Quit => ModelView { state: State::Done, ..m },
    }
}

/// The interaction model: owns the cell buffer, the active rule, the mode,
/// the cursor and the configured tick interval.
#[derive(Debug)]
pub struct Model {
    cells: Vec<Vec<bool>>,
    rule: Rule,
    state: State,
    current_coords: Coords,
    max_coords: Coords,
    tickrate: u16,
}

impl View for Model {
    type V = ModelView;

    closed spec fn view(&self) -> ModelView {
        ModelView {
            grid: grid_view(self.cells@),
            births: self.rule.birth_list@,
            survivals: self.rule.survival_list@,
            state: self.state,
            cursor_x: self.current_coords.x as int,
            cursor_y: self.current_coords.y as int,
            max_x: self.max_coords.x as int,
            max_y: self.max_coords.y as int,
            tickrate: self.tickrate as int,
        }
    }
}

impl Model {
    /// Builds a model with an all-dead grid of (max_y + 1) rows by
    /// (max_x + 1) columns, the given rule, the cursor at the origin and the
    /// mode set to `Editing`. Non-positive bounds and rule counts above 8 are
    /// geometrically impossible and are excluded up front.
    pub fn new(
        max_y: i16,
        max_x: i16,
        birth_list: Vec<u8>,
        survival_list: Vec<u8>,
        tickrate: u16,
    ) -> (m: Model)
        requires
            0 < max_y,
            0 < max_x,
            valid_counts(birth_list@),
            valid_counts(survival_list@),
        ensures
            m@.wf(),
            m@.grid == empty_grid(max_y as int + 1, max_x as int + 1),
            m@.births == birth_list@,
            m@.survivals == survival_list@,
            m@.state == State::Editing,
            m@.cursor_x == 0,
            m@.cursor_y == 0,
            m@.max_x == max_x as int,
            m@.max_y == max_y as int,
            m@.tickrate == tickrate as int,
    {
        let rows: usize = max_y as usize + 1;
        let cols: usize = max_x as usize + 1;
        let mut outer: Vec<Vec<bool>> = Vec::new();
        let mut y: usize = 0;
        while y < rows
            invariant
                y <= rows,
                outer@.len() == y,
                forall|i: int|
                    0 <= i < y ==> (#[trigger] outer@[i])@ == Seq::new(
                        cols as nat,
                        |x: int| false,
                    ),
            decreases rows - y,
        {
            let inner = vec![false; cols];
            proof {
                assert(inner@ =~= Seq::new(cols as nat, |x: int| false));
            }
            outer.push(inner);
            y += 1;
        }
        let m = Model {
            cells: outer,
            rule: Rule { birth_list, survival_list },
            state: State::Editing,
            current_coords: Coords { x: 0, y: 0 },
            max_coords: Coords { x: max_x, y: max_y },
            tickrate,
        };
        proof {
            assert(m@.grid =~~= empty_grid(max_y as int + 1, max_x as int + 1));
        }
        m
    }

    /// The cursor's current coordinates; meaningful while editing, frozen at
    /// their last edited value while running.
    pub fn current_coords(&self) -> (c: &Coords)
        ensures
            c.x as int == self@.cursor_x,
            c.y as int == self@.cursor_y,
    {
        &self.current_coords
    }

    /// A read-only view of the full cell buffer.
    pub fn cells(&self) -> (c: &Vec<Vec<bool>>)
        ensures
            grid_view(c@) == self@.grid,
    {
        &self.cells
    }

    /// The current mode.
    pub fn state(&self) -> (s: &State)
        ensures
            *s == self@.state,
    {
        &self.state
    }

    /// The configured tick interval in milliseconds.
    pub fn tickrate(&self) -> (t: u16)
        ensures
            t as int == self@.tickrate,
    {
        self.tickrate
    }

    /// The active rule in its canonical textual form.
    pub fn rulestring(&self) -> (r: String)
        ensures
            r@ == rulestring_of(self@.births, self@.survivals),
    {
        rule_string(&self.rule)
    }

    /// Reads the cell at (y, x); a position beyond either bound reads as
    /// dead.
    pub fn read_cell(&self, y: usize, x: usize) -> (v: bool)
        requires
            self@.wf(),
        ensures
            v == live(self@.grid, y as int, x as int),
    {
        if y <= self.max_coords.y as usize && x <= self.max_coords.x as usize {
            proof {
                assert(self@.grid.len() == self.cells@.len());
                assert(self@.grid[y as int] == grid_view(self.cells@)[y as int]);
                assert(grid_view(self.cells@)[y as int] == self.cells@[y as int]@);
            }
            self.cells[y][x]
        } else {
            false
        }
    }

    /// Writes `val` straight into the cell at (y, x), which must exist.
    fn set_cell(&mut self, y: usize, x: usize, val: bool)
        requires
            old(self)@.wf(),
            y <= old(self)@.max_y,
            x <= old(self)@.max_x,
        ensures
            final(self)@.wf(),
            final(self)@ == (ModelView {
                grid: grid_write(old(self)@.grid, y as int, x as int, val),
                ..old(self)@
            }),
    {
        self.cells[y][x] = val;
        proof {
            assert(grid_view(self.cells@) =~~= grid_write(
                grid_view(old(self).cells@),
                y as int,
                x as int,
                val,
            ));
        }
    }

    /// Writes `val` into the cell at (y, x) if both coordinates are within
    /// bounds; a write beyond either bound is silently ignored.
    pub fn update_cell(&mut self, y: usize, x: usize, val: bool)
        requires
            old(self)@.wf(),
        ensures
            final(self)@.wf(),
            final(self)@ == spec_write_cell(old(self)@, y as int, x as int, val),
    {
        if y <= self.max_coords.y as usize && x <= self.max_coords.x as usize {
            self.set_cell(y, x, val);
        }
    }

    /// Flips the cell under the cursor while editing or running (where the
    /// cursor is frozen at its last edited position); a no-op once `Done`.
    fn toggle_current_cell(&mut self)
        requires
            old(self)@.wf(),
        ensures
            final(self)@.wf(),
            final(self)@ == spec_toggle_cell(old(self)@),
    {
        if self.state == State::Done {
            return ;
        }
        let y = self.current_coords.y as usize;
        let x = self.current_coords.x as usize;
        let cur = self.cells[y][x];
        self.set_cell(y, x, !cur);
    }

    /// Swaps `Editing` and `Running`; has no effect once `Done`.
    fn toggle_editing_state(&mut self)
        requires
            old(self)@.wf(),
        ensures
            final(self)@.wf(),
            final(self)@ == (ModelView { state: toggled_state(old(self)@.state), ..old(self)@ }),
    {
        if self.state == State::Editing {
            self.state = State::Running;
        } else if self.state == State::Running {
            self.state = State::Editing;
        }
    }

    /// Moves to the absorbing `Done` mode; idempotent.
    fn quit(&mut self)
        requires
            old(self)@.wf(),
        ensures
            final(self)@.wf(),
            final(self)@ == (ModelView { state: State::Done, ..old(self)@ }),
    {
        self.state = State::Done;
    }

    /// Moves the cursor by the given deltas while editing, clamping each
    /// axis independently to [0, axis maximum]; a no-op in any other mode.
    pub fn move_cursor(&mut self, x_delta: i16, y_delta: i16)
        requires
            old(self)@.wf(),
        ensures
            final(self)@.wf(),
            final(self)@ == spec_move(old(self)@, x_delta as int, y_delta as int),
    {
        if self.state == State::Editing {
            let temp_x: i32 = self.current_coords.x as i32 + x_delta as i32;
            if temp_x <= 0 {
                self.current_coords.x = 0;
            } else if temp_x >= self.max_coords.x as i32 {
                self.current_coords.x = self.max_coords.x;
            } else {
                self.current_coords.x = temp_x as i16;
            }
            let temp_y: i32 = self.current_coords.y as i32 + y_delta as i32;
            if temp_y <= 0 {
                self.current_coords.y = 0;
            } else if temp_y >= self.max_coords.y as i32 {
                self.current_coords.y = self.max_coords.y;
            } else {
                self.current_coords.y = temp_y as i16;
            }
        }
    }

    /// Moves the cursor one step in the given direction, with the same
    /// clamping as [`Model::move_cursor`].
    pub fn move_cursor_in_direction(&mut self, dir: Direction)
        requires
            old(self)@.wf(),
        ensures
            final(self)@.wf(),
            final(self)@ == spec_move(old(self)@, delta_x(dir), delta_y(dir)),
    {
        match dir {
            Direction::Up => self.move_cursor(0, -1),
            Direction::Down => self.move_cursor(0, 1),
            Direction::Left => self.move_cursor(-1, 0),
            Direction::Right => self.move_cursor(1, 0),
        }
    }

    /// Applies one message to the model, as [`spec_update`] describes.
    pub fn update(&mut self, msg: Message)
        requires
            old(self)@.wf(),
        ensures
            final(self)@.wf(),
            final(self)@ == spec_update(old(self)@, msg),
    {
        match msg {
            Message::Move(dir) => self.move_cursor_in_direction(dir),
            Message::ToggleCellState => self.toggle_current_cell(),
            Message::ToggleEditing => self.toggle_editing_state(),
            Message::Idle => self.pass_tick(),
            Message::Quit => self.quit(),
        }
    }

    /// Overlays the given pattern onto the grid's upper-left corner, row by
    /// row; writes that fall outside the grid are dropped, and grid cells
    /// beyond the pattern's extent keep their value. Public so a caller can
    /// load a pattern of its own — such as one built by
    /// [`pattern_from_draws`] from a deterministic source.
    pub fn insert_cells(&mut self, cells: Vec<Vec<bool>>)
        requires
            old(self)@.wf(),
        ensures
            final(self)@.wf(),
            final(self)@ == (ModelView {
                grid: overlay(old(self)@.grid, grid_view(cells@)),
                ..old(self)@
            }),
    {
        let ghost p = grid_view(cells@);
        let ghost m0 = old(self)@;
        let mut y: usize = 0;
        while y < cells.len()
            invariant
                m0.wf(),
                self@.wf(),
                p == grid_view(cells@),
                y <= cells@.len(),
                (ModelView { grid: m0.grid, ..self@ }) == m0,
                forall|r: int, c: int|
                    0 <= r <= m0.max_y && 0 <= c <= m0.max_x ==> #[trigger] self@.grid[r][c] == (
                    if r < y && r < p.len() && c < p[r].len() {
                        p[r][c]
                    } else {
                        m0.grid[r][c]
                    }),
            decreases cells@.len() - y,
        {
            let mut x: usize = 0;
            while x < cells[y].len()
                invariant
                    m0.wf(),
                    self@.wf(),
                    p == grid_view(cells@),
                    y < cells@.len(),
                    x <= cells@[y as int]@.len(),
                    (ModelView { grid: m0.grid, ..self@ }) == m0,
                    forall|r: int, c: int|
                        0 <= r <= m0.max_y && 0 <= c <= m0.max_x ==> #[trigger] self@.grid[r][c]
                            == (if (r < y || (r == y && c < x)) && r < p.len() && c < p[r].len() {
                            p[r][c]
                        } else {
                            m0.grid[r][c]
                        }),
                decreases cells@[y as int]@.len() - x,
            {
                let val = cells[y][x];
                proof {
                    assert(p[y as int] == cells@[y as int]@);
                    assert(p[y as int][x as int] == val);
                }
                self.update_cell(y, x, val);
                x += 1;
            }
            y += 1;
        }
        proof {
            assert(self@.grid =~~= overlay(m0.grid, p));
            assert(self@ =~= (ModelView { grid: overlay(m0.grid, p), ..m0 }));
        }
    }

    /// Overlays the chosen preset onto the grid starting at the origin: one
    /// of the two fixed patterns, a randomly drawn board of the grid's exact
    /// size whose cells are each independently alive with probability 3 in
    /// 10, or the effectively empty single-dead-cell pattern for `Empty`.
    /// The random board is [`draw_pattern`] of a full row-major sequence of
    /// draws from [0, 10); a caller with a random source of its own can
    /// build the same board through [`pattern_from_draws`] and
    /// [`Model::insert_cells`].
    pub fn load_preset(&mut self, preset: Preset)
        requires
            old(self)@.wf(),
        ensures
            final(self)@.wf(),
            (ModelView { grid: old(self)@.grid, ..final(self)@ }) == old(self)@,
            match preset {
                Preset::Blinker => final(self)@.grid == overlay(old(self)@.grid, blinker_pattern()),
                Preset::Mold => final(self)@.grid == overlay(old(self)@.grid, mold_pattern()),
                Preset::Empty => final(self)@.grid == overlay(old(self)@.grid, empty_pattern()),
                Preset::Random => exists|draws: Seq<u32>|
                    {
                        &&& draws.len() == (old(self)@.max_y + 1) * (old(self)@.max_x + 1)
                        &&& (forall|k: int| 0 <= k < draws.len() ==> (#[trigger] draws[k]) < 10)
                        &&& final(self)@.grid == overlay(
                            old(self)@.grid,
                            #[trigger] draw_pattern(
                                draws,
                                old(self)@.max_y + 1,
                                old(self)@.max_x + 1,
                            ),
                        )
                    },
            },
    {
        let cells = match preset {
            Preset::Mold => mold_cells(),
            Preset::Blinker => blinker_cells(),
            Preset::Random => {
                let mut rng = fresh_rng();
                let rows = self.max_coords.y as usize + 1;
                let cols = self.max_coords.x as usize + 1;
                proof {
                    assert(rows * cols <= 32768 * 32768) by (nonlinear_arith)
                        requires
                            0 < rows <= 32768,
                            0 < cols <= 32768,
                    ;
                }
                let total = rows * cols;
                let mut draws: Vec<u32> = Vec::new();
                while draws.len() < total
                    invariant
                        draws@.len() <= total,
                        forall|k: int| 0 <= k < draws@.len() ==> (#[trigger] draws@[k]) < 10,
                    decreases total - draws@.len(),
                {
                    let d = rng_below(&mut rng, 10);
                    draws.push(d);
                }
                pattern_from_draws(&draws, rows, cols)
            },
            Preset::Empty => empty_cells(),
        };
        self.insert_cells(cells);
    }

    /// Counts the live cells among the up-to-eight Moore neighbors of
    /// (y, x); neighbors beyond the grid's edge are absent from the count.
    fn count_neighbors(&self, y: usize, x: usize) -> (n: u8)
        requires
            self@.wf(),
            y <= self@.max_y,
            x <= self@.max_x,
        ensures
            n as int == neighbor_count(self@.grid, y as int, x as int),
    {
        let ghost g = self@.grid;
        proof {
            assert(g.len() == self.cells@.len());
            assert forall|i: int| 0 <= i < self.cells@.len() implies g[i]
                == (#[trigger] self.cells@[i])@ by {
                assert(grid_view(self.cells@)[i] == self.cells@[i]@);
            }
        }
        let mut n: u8 = 0;
        let can_go_up = y > 0;
        let can_go_down = y < self.max_coords.y as usize;
        let can_go_left = x > 0;
        let can_go_right = x < self.max_coords.x as usize;
        if can_go_up {
            if self.cells[y - 1][x] {
                n += 1;
            }
            if can_go_left {
                if self.cells[y - 1][x - 1] {
                    n += 1;
                }
            }
            if can_go_right {
                if self.cells[y - 1][x + 1] {
                    n += 1;
                }
            }
        }
        proof {
            assert(n as int == crate::grid::occ(g, y as int - 1, x as int) + crate::grid::occ(
                g,
                y as int - 1,
                x as int - 1,
            ) + crate::grid::occ(g, y as int - 1, x as int + 1));
        }
        if can_go_down {
            if self.cells[y + 1][x] {
                n += 1;
            }
            if can_go_left {
                if self.cells[y + 1][x - 1] {
                    n += 1;
                }
            }
            if can_go_right {
                if self.cells[y + 1][x + 1] {
                    n += 1;
                }
            }
        }
        if can_go_left {
            if self.cells[y][x - 1] {
                n += 1;
            }
        }
        if can_go_right {
            if self.cells[y][x + 1] {
                n += 1;
            }
        }
        n
    }

    /// Advances the grid one generation while running: every cell is stepped
    /// from a snapshot of the previous generation, so no partially updated
    /// state is ever read. A no-op in any other mode.
    pub fn pass_tick(&mut self)
        requires
            old(self)@.wf(),
        ensures
            final(self)@.wf(),
            final(self)@ == spec_update(old(self)@, Message::Idle),
    {
        if !(self.state == State::Running) {
            return ;
        }
        let ghost g0 = self@.grid;
        let ghost births = self@.births;
        let ghost survivals = self@.survivals;
        let rows = self.cells.len();
        let mut next: Vec<Vec<bool>> = Vec::new();
        let mut y: usize = 0;
        while y < rows
            invariant
                old(self)@.wf(),
                *self == *old(self),
                g0 == self@.grid,
                births == self@.births,
                survivals == self@.survivals,
                rows == self.cells@.len(),
                y <= rows,
                next@.len() == y,
                forall|i: int|
                    0 <= i < y ==> (#[trigger] next@[i])@ == step_grid(g0, births, survivals)[i],
            decreases rows - y,
        {
            let cols = self.cells[y].len();
            let mut row: Vec<bool> = Vec::new();
            let mut x: usize = 0;
            while x < cols
                invariant
                    old(self)@.wf(),
                    *self == *old(self),
                    g0 == self@.grid,
                    births == self@.births,
                    survivals == self@.survivals,
                    rows == self.cells@.len(),
                    y < rows,
                    cols == self.cells@[y as int]@.len(),
                    x <= cols,
                    row@.len() == x,
                    forall|j: int|
                        0 <= j < x ==> (#[trigger] row@[j]) == step_cell(
                            g0,
                            births,
                            survivals,
                            y as int,
                            j,
                        ),
                decreases cols - x,
            {
                let n = self.count_neighbors(y, x);
                let alive = self.cells[y][x];
                let next_val = if alive {
                    list_contains(&self.rule.survival_list, n)
                } else {
                    list_contains(&self.rule.birth_list, n)
                };
                proof {
                    assert(g0[y as int][x as int] == alive);
                    assert(next_val == step_cell(g0, births, survivals, y as int, x as int));
                }
                row.push(next_val);
                x += 1;
            }
            proof {
                assert(row@ =~= step_grid(g0, births, survivals)[y as int]);
            }
            next.push(row);
            y += 1;
        }
        self.cells = next;
        proof {
            assert(grid_view(self.cells@) =~~= step_grid(g0, births, survivals));
            assert(self@ =~= spec_update(old(self)@, Message::Idle));
            assert(grid_wf(
                step_grid(g0, births, survivals),
                old(self)@.max_y + 1,
                old(self)@.max_x + 1,
            ));
        }
    }
}

/// A clamped coordinate never leaves [0, max]: a move proposed at or below 0
/// lands exactly on 0, one at or beyond the axis maximum lands exactly on
/// that maximum, and one already inside the bounds is taken as proposed.
pub proof fn lemma_clamp_within_bounds(v: int, max: int)
    requires
        0 <= max,
    ensures
        0 <= clamp(v, max) <= max,
        v <= 0 ==> clamp(v, max) == 0,
        v >= max ==> clamp(v, max) == max,
        0 < v < max ==> clamp(v, max) == v,
{
}

/// `ToggleEditing` only toggles between `Editing` and `Running`, leaving
/// everything else unchanged, and has no effect once `Done`.
pub proof fn lemma_toggle_editing_swaps(m: ModelView)
    ensures
        m.state == State::Editing ==> spec_update(m, Message::ToggleEditing) == (ModelView {
            state: State::Running,
            ..m
        }),
        m.state == State::Running ==> spec_update(m, Message::ToggleEditing) == (ModelView {
            state: State::Editing,
            ..m
        }),
        m.state == State::Done ==> spec_update(m, Message::ToggleEditing) == m,
{
    if m.state == State::Done {
        assert(spec_update(m, Message::ToggleEditing) =~= m);
    }
}

/// `Done` is absorbing: once terminated, every message — `Quit` included —
/// leaves the whole model unchanged.
pub proof fn lemma_done_is_absorbing(m: ModelView, msg: Message)
    requires
        m.state == State::Done,
    ensures
        spec_update(m, msg) == m,
{
    match msg {
        Message::Move(dir) => {
        },
        Message::ToggleCellState => {
        },
        Message::ToggleEditing => {
            assert(spec_update(m, msg) =~= m);
        },
        Message::Idle => {
        },
        Message::Quit => {
            assert(spec_update(m, msg) =~= m);
        },
    }
}

/// Whether `v` occurs in `list`.
fn list_contains(list: &Vec<u8>, v: u8) -> (r: bool)
    ensures
        r == list@.contains(v),
{
    let mut i: usize = 0;
    while i < list.len()
        invariant
            i <= list@.len(),
            forall|j: int| 0 <= j < i ==> (#[trigger] list@[j]) != v,
        decreases list@.len() - i,
    {
        if list[i] == v {
            return true;
        }
        i += 1;
    }
    false
}

} // verus!
