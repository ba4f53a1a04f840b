//! One frame of interaction: commands first, then at most one generation.

use crate::board::{drawn_board, height, next_board, uniform_board, width};
use crate::cell::CellState;
use crate::control::{control_ok, faster, slower, toggled, Control, ControlState};
use crate::engine::StepEngine;
use crate::grid::Grid;
use vstd::prelude::*;

verus! {

/// The commands that were given during one frame. Each is applied at most
/// once per frame, however often its key was reported.
#[derive(Clone, Copy, Debug, PartialEq, Eq, Structural)]
pub struct Commands {
    pub toggle_run: bool,
    pub randomize: bool,
    pub clear: bool,
    pub speed_up: bool,
    pub speed_down: bool,
}

impl Commands {
    /// A frame in which no command was given.
    pub fn none() -> (commands: Commands)
        ensures
            commands == (Commands {
                toggle_run: false,
                randomize: false,
                clear: false,
                speed_up: false,
                speed_down: false,
            }),
    {
        Commands {
            toggle_run: false,
            randomize: false,
            clear: false,
            speed_up: false,
            speed_down: false,
        }
    }
}

/// The control state after a frame's commands: the toggle first, then the
/// speed commands, up before down, each by the configured step.
pub open spec fn control_after(m: Control, commands: Commands) -> Control {
    let m1 = if commands.toggle_run { toggled(m) } else { m };
    let m2 = if commands.speed_up { faster(m1, m1.step) } else { m1 };
    if commands.speed_down {
        slower(m2, m2.step)
    } else {
        m2
    }
}

/// The board after a frame's commands. The toggle is applied before the
/// grid commands, so they change the board only if the simulation is paused
/// after it; of randomize and clear, clear comes last.
pub open spec fn board_after_commands(
    m: Control,
    b: Seq<Seq<CellState>>,
    commands: Commands,
    draws: Seq<i32>,
) -> Seq<Seq<CellState>> {
    if control_after(m, commands).running {
        b
    } else if commands.clear {
        uniform_board(height(b) as nat, width(b) as nat, CellState::Dead)
    } else if commands.randomize {
        drawn_board(height(b) as nat, width(b) as nat, draws)
    } else {
        b
    }
}

/// The board at the end of a frame: after the commands, and one generation
/// later if the simulation runs.
pub open spec fn board_after_frame(
    m: Control,
    b: Seq<Seq<CellState>>,
    commands: Commands,
    draws: Seq<i32>,
) -> Seq<Seq<CellState>> {
    let edited = board_after_commands(m, b, commands, draws);
    if control_after(m, commands).running {
        next_board(edited)
    } else {
        edited
    }
}

/// The rate to hand to the frame pacing after a frame's commands: the new
/// speed where a speed command was given, nothing where none was.
pub open spec fn rate_after(m: Control, commands: Commands) -> Option<u32> {
    if commands.speed_up || commands.speed_down {
        Some(control_after(m, commands).speed as u32)
    } else {
        None
    }
}

/// How many random draws a frame's commands will use: one per cell where
/// randomize was given and the simulation is paused after the toggle,
/// none otherwise.
pub open spec fn draws_wanted(m: Control, b: Seq<Seq<CellState>>, commands: Commands) -> int {
    if commands.randomize && !control_after(m, commands).running {
        height(b) * width(b)
    } else {
        0
    }
}

/// A frame's commands keep a valid control state valid, whatever they are.
pub proof fn lemma_control_after_ok(m: Control, commands: Commands)
    requires
        control_ok(m),
    ensures
        control_ok(control_after(m, commands)),
        control_after(m, commands).floor == m.floor,
        control_after(m, commands).step == m.step,
        control_after(m, commands).running == (m.running != commands.toggle_run),
{
}

/// A frame without commands leaves the control state alone; the board
/// advances by one generation if the simulation runs and stays as it is
/// if it is paused.
pub proof fn lemma_frame_without_commands(m: Control, b: Seq<Seq<CellState>>, draws: Seq<i32>)
    ensures
        ({
            let idle = Commands {
                toggle_run: false,
                randomize: false,
                clear: false,
                speed_up: false,
                speed_down: false,
            };
            &&& control_after(m, idle) == m
            &&& rate_after(m, idle) == None::<u32>
            &&& board_after_frame(m, b, idle, draws) == if m.running {
                next_board(b)
            } else {
                b
            }
        }),
{
}

/// While the simulation runs and is not paused in the same frame, the grid
/// commands change nothing: the frame is exactly one generation.
pub proof fn lemma_running_frame_ignores_edits(
    m: Control,
    b: Seq<Seq<CellState>>,
    commands: Commands,
    draws: Seq<i32>,
)
    requires
        m.running,
        !commands.toggle_run,
    ensures
        board_after_commands(m, b, commands, draws) == b,
        board_after_frame(m, b, commands, draws) == next_board(b),
{
}

/// Tells how many random draws to fetch before the frame's commands are applied.
pub fn draws_needed(control: &ControlState, grid: &Grid, commands: &Commands) -> (count: usize)
    requires
        grid.well_formed(),
    ensures
        count == draws_wanted(control@, grid@, *commands),
{
    let paused_after = control.is_running() == commands.toggle_run;
    if commands.randomize && paused_after {
        let rows = grid.rows();
        let cols = grid.cols();
        proof {
            grid.lemma_cell_count_fits();
        }
        rows * cols
    } else {
        0
    }
}

/// Applies a frame's commands to the control state and the grid, and
/// returns the rate to hand to the frame pacing, if a speed command was given.
pub fn apply_commands(
    control: &mut ControlState,
    grid: &mut Grid,
    commands: &Commands,
    draws: &Vec<i32>,
) -> (rate: Option<u32>)
    requires
        old(control).well_formed(),
        old(grid).well_formed(),
    ensures
        final(control).well_formed(),
        final(grid).well_formed(),
        final(control)@ == control_after(old(control)@, *commands),
        final(grid)@ == board_after_commands(old(control)@, old(grid)@, *commands, draws@),
        final(control)@.running ==> *final(grid) == *old(grid),
        rate == rate_after(old(control)@, *commands),
{
    proof {
        lemma_control_after_ok(control@, *commands);
        grid.lemma_view_is_board();
    }
    if commands.toggle_run {
        control.toggle_run();
    }
    if commands.randomize {
        control.request_randomize(grid, draws);
    }
    if commands.clear {
        control.request_clear(grid);
    }
    if commands.speed_up || commands.speed_down {
        if commands.speed_up {
            control.increase_speed(control.step());
        }
        if commands.speed_down {
            control.decrease_speed(control.step());
        }
        Some(control.speed())
    } else {
        None
    }
}

/// Runs one frame: applies the commands, then advances the grid by one
/// generation if the simulation runs. Returns the rate to hand to the frame
/// pacing, if a speed command was given.
pub fn advance_frame(
    control: &mut ControlState,
    grid: &mut Grid,
    engine: &mut StepEngine,
    commands: &Commands,
    draws: &Vec<i32>,
) -> (rate: Option<u32>)
    requires
        old(control).well_formed(),
        old(grid).well_formed(),
        old(engine).well_formed(),
    ensures
        final(control).well_formed(),
        final(grid).well_formed(),
        final(engine).well_formed(),
        final(control)@ == control_after(old(control)@, *commands),
        final(grid)@ == board_after_frame(old(control)@, old(grid)@, *commands, draws@),
        rate == rate_after(old(control)@, *commands),
{
    let rate = apply_commands(control, grid, commands, draws);
    if control.is_running() {
        engine.step(grid);
    }
    rate
}

} // verus!
