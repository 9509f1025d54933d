use vstd::prelude::*;
use crate::engine::next_generation;
use crate::grid::{alive_at, dead_grid, in_bounds, index_of, Grid, GridView};
use crate::rules::generation;

verus! {

/// A discrete input event.
#[derive(Clone, Copy, Debug, PartialEq, Eq, Structural)]
pub enum Command {
    /// A pointer press at pixel `(px, py)` of the display.
    Press { px: usize, py: usize },
    /// Pause a running simulation, or resume a paused one.
    TogglePause,
    /// Kill every cell.
    Clear,
    /// Reseed every cell at random.
    Randomize,
}

/// Model of the simulation state: the current grid, the pause flag and the
/// number of pixels per cell side.
pub struct AppView {
    pub grid: GridView,
    pub paused: bool,
    pub scale: nat,
}

impl AppView {
    /// A well-formed grid and a positive scale.
    pub open spec fn wf(self) -> bool {
        self.grid.wf() && self.scale > 0
    }
}

/// The state after a pointer press at pixel `(px, py)`: the cell under the
/// pointer flips; a press off the grid changes nothing.
pub open spec fn press(v: AppView, px: int, py: int) -> AppView {
    let x = px / v.scale as int;
    let y = py / v.scale as int;
    if in_bounds(v.grid, x, y) {
        AppView {
            grid: GridView {
                cells: v.grid.cells.update(
                    index_of(v.grid.cols as int, x, y),
                    !alive_at(v.grid, x, y),
                ),
                ..v.grid
            },
            ..v
        }
    } else {
        v
    }
}

/// `w` is a possible state after command `c` on state `v`. Every command
/// but `Randomize` has one outcome; `Randomize` may leave any cells on a
/// grid of the same shape.
pub open spec fn command_result(v: AppView, c: Command, w: AppView) -> bool {
    match c {
        Command::Press { px, py } => w == press(v, px as int, py as int),
        Command::TogglePause => w == AppView { paused: !v.paused, ..v },
        Command::Clear => w == AppView { grid: dead_grid(v.grid.rows, v.grid.cols), ..v },
        Command::Randomize => w.grid.same_shape(v.grid) && w.paused == v.paused && w.scale
            == v.scale,
    }
}

/// The state after one frame's transition step: one generation on, unless
/// paused.
pub open spec fn tick(v: AppView) -> AppView {
    if v.paused {
        v
    } else {
        AppView { grid: generation(v.grid), ..v }
    }
}

/// The simulation: the live grid, the pause flag and the display scale.
pub struct App {
    grid: Grid,
    paused: bool,
    scale: usize,
}

impl View for App {
    type V = AppView;

    closed spec fn view(&self) -> AppView {
        AppView { grid: self.grid@, paused: self.paused, scale: self.scale as nat }
    }
}

impl App {
    /// The model is well formed.
    pub open spec fn wf(&self) -> bool {
        self@.wf()
    }

    /// A running simulation of `grid`, drawn `scale` pixels per cell side.
    pub fn new(grid: Grid, scale: usize) -> (r: App)
        requires
            grid.wf(),
            scale > 0,
        ensures
            r.wf(),
            r@ == (AppView { grid: grid@, paused: false, scale: scale as nat }),
    {
        App { grid, paused: false, scale }
    }

    /// A running simulation of a randomly seeded `rows` by `cols` grid.
    pub fn new_random(rows: usize, cols: usize, scale: usize) -> (r: App)
        requires
            rows > 0,
            cols > 0,
            rows * cols <= usize::MAX,
            scale > 0,
        ensures
            r.wf(),
            r@.grid.rows == rows,
            r@.grid.cols == cols,
            !r@.paused,
            r@.scale == scale,
    {
        let mut grid = Grid::new(rows, cols);
        grid.randomize();
        App::new(grid, scale)
    }

    /// The live grid.
    pub fn grid(&self) -> (r: &Grid)
        ensures
            r@ == self@.grid,
    {
        &self.grid
    }

    /// Whether the simulation is paused.
    pub fn paused(&self) -> (r: bool)
        ensures
            r == self@.paused,
    {
        self.paused
    }

    /// Pixels per cell side.
    pub fn scale(&self) -> (r: usize)
        ensures
            r == self@.scale,
    {
        self.scale
    }

    /// Applies one input event to the live grid or the pause flag.
    pub fn event(&mut self, cmd: Command)
        requires
            old(self).wf(),
        ensures
            final(self).wf(),
            command_result(old(self)@, cmd, final(self)@),
    {
        match cmd {
            Command::Press { px, py } => {
                let x = px / self.scale;
                let y = py / self.scale;
                let _ = self.grid.toggle(x, y);
            },
            Command::TogglePause => {
                self.paused = !self.paused;
            },
            Command::Clear => {
                self.grid.clear();
            },
            Command::Randomize => {
                self.grid.randomize();
            },
        }
    }

    /// Runs one generation, unless paused. The new grid is computed from the
    /// old one as a whole and then replaces it.
    pub fn update(&mut self)
        requires
            old(self).wf(),
        ensures
            final(self).wf(),
            final(self)@ == tick(old(self)@),
    {
        if !self.paused {
            self.grid = next_generation(&self.grid);
        }
    }

    /// One frame: applies every pending event in arrival order, then runs
    /// the transition step. The result is the grid to publish.
    pub fn frame(&mut self, cmds: &Vec<Command>)
        requires
            old(self).wf(),
        ensures
            final(self).wf(),
            exists|states: Seq<AppView>|
                {
                    &&& states.len() == cmds@.len() + 1
                    &&& states[0] == old(self)@
                    &&& forall|k: int|
                        0 <= k < cmds@.len() ==> command_result(
                            #[trigger] states[k],
                            cmds@[k],
                            states[k + 1],
                        )
                    &&& final(self)@ == tick(states.last())
                },
    {
        let ghost mut states: Seq<AppView> = seq![self@];
        let mut k: usize = 0;
        while k < cmds.len()
            invariant
                k <= cmds@.len(),
                self.wf(),
                states.len() == k + 1,
                states[0] == old(self)@,
                states.last() == self@,
                forall|j: int|
                    0 <= j < k ==> command_result(#[trigger] states[j], cmds@[j], states[j + 1]),
            decreases cmds@.len() - k,
        {
            self.event(cmds[k]);
            proof {
                states = states.push(self@);
            }
            k = k + 1;
        }
        self.update();
    }
}

/// Clearing twice leaves the same all-dead grid as clearing once.
pub proof fn lemma_clear_idempotent(v: AppView, w1: AppView, w2: AppView)
    requires
        v.wf(),
        command_result(v, Command::Clear, w1),
        command_result(w1, Command::Clear, w2),
    ensures
        w2 == w1,
        w1.grid == dead_grid(v.grid.rows, v.grid.cols),
{
}

/// Toggling the pause flag twice restores the starting state.
pub proof fn lemma_pause_twice(v: AppView, w1: AppView, w2: AppView)
    requires
        command_result(v, Command::TogglePause, w1),
        command_result(w1, Command::TogglePause, w2),
    ensures
        w2 == v,
{
}

/// Randomizing and then clearing leaves every cell dead, whatever the
/// random draw was.
pub proof fn lemma_randomize_then_clear(v: AppView, w1: AppView, w2: AppView)
    requires
        v.wf(),
        command_result(v, Command::Randomize, w1),
        command_result(w1, Command::Clear, w2),
    ensures
        w2.grid == dead_grid(v.grid.rows, v.grid.cols),
        forall|i: int| 0 <= i < w2.grid.cells.len() ==> !w2.grid.cells[i],
{
}

} // verus!
