//! The control state: whether the simulation runs, and how fast.

use crate::board::{drawn_board, height, uniform_board, width};
use crate::cell::CellState;
use crate::grid::Grid;
use vstd::prelude::*;

verus! {

/// The speed at which a simulation starts, in generations per second.
pub const INITIAL_SPEED: u32 = 12;

/// The speed below which no command takes the simulation.
pub const SPEED_FLOOR: u32 = 5;

/// By how much one speed command changes the speed.
pub const SPEED_STEP: u32 = 2;

/// What a control state holds, as plain mathematical values.
pub struct Control {
    pub running: bool,
    pub speed: int,
    pub floor: int,
    pub step: int,
}

/// The speed never sinks below the floor, and floor and step are positive.
pub open spec fn control_ok(m: Control) -> bool {
    &&& 1 <= m.floor <= m.speed <= u32::MAX
    &&& 1 <= m.step <= u32::MAX
}

/// The state after a toggle of the running flag.
pub open spec fn toggled(m: Control) -> Control {
    Control { running: !m.running, ..m }
}

/// The state after a speed increase, which stops at the largest speed the
/// machine can hold.
pub open spec fn faster(m: Control, delta: int) -> Control {
    Control { speed: if m.speed + delta <= u32::MAX { m.speed + delta } else { u32::MAX as int }, ..m }
}

/// The state after a speed decrease: where the decrease would take the speed
/// below the floor, nothing changes.
pub open spec fn slower(m: Control, delta: int) -> Control {
    Control { speed: if m.speed - delta >= m.floor { m.speed - delta } else { m.speed }, ..m }
}

/// The state after a run of speed decreases, applied first to last.
pub open spec fn slowed_by(m: Control, deltas: Seq<u32>) -> Control
    decreases deltas.len(),
{
    if deltas.len() == 0 {
        m
    } else {
        slower(slowed_by(m, deltas.drop_last()), deltas.last() as int)
    }
}

/// Two toggles in a row give back the state they started from.
pub proof fn lemma_toggle_twice(m: Control)
    ensures
        toggled(toggled(m)) == m,
{
}

/// One decrease leaves the speed at or above the floor and never raises it.
pub proof fn lemma_slower_keeps_floor(m: Control, delta: int)
    requires
        control_ok(m),
        0 <= delta,
    ensures
        control_ok(slower(m, delta)),
        m.floor <= slower(m, delta).speed <= m.speed,
{
}

/// However many decreases follow one another, the speed stays at or above
/// the floor.
pub proof fn lemma_slowed_by_keeps_floor(m: Control, deltas: Seq<u32>)
    requires
        control_ok(m),
    ensures
        control_ok(slowed_by(m, deltas)),
        slowed_by(m, deltas).floor == m.floor,
        m.floor <= slowed_by(m, deltas).speed <= m.speed,
    decreases deltas.len(),
{
    if deltas.len() > 0 {
        lemma_slowed_by_keeps_floor(m, deltas.drop_last());
        lemma_slower_keeps_floor(slowed_by(m, deltas.drop_last()), deltas.last() as int);
    }
}

/// The simulation's parameters that user commands change.
#[derive(Clone, Copy, Debug, PartialEq, Eq)]
pub struct ControlState {
    running: bool,
    speed: u32,
    floor: u32,
    step: u32,
}

impl View for ControlState {
    type V = Control;

    closed spec fn view(&self) -> Control {
        Control {
            running: self.running,
            speed: self.speed as int,
            floor: self.floor as int,
            step: self.step as int,
        }
    }
}

impl Default for ControlState {
    /// A paused simulation at the initial speed, with the usual floor and step.
    fn default() -> (state: ControlState)
        ensures
            state.well_formed(),
            state@ == (Control {
                running: false,
                speed: INITIAL_SPEED as int,
                floor: SPEED_FLOOR as int,
                step: SPEED_STEP as int,
            }),
    {
        ControlState { running: false, speed: INITIAL_SPEED, floor: SPEED_FLOOR, step: SPEED_STEP }
    }
}

impl ControlState {
    /// The representation invariant, stated over the view.
    pub open spec fn well_formed(&self) -> bool {
        control_ok(self@)
    }

    /// Makes a paused control state. A floor or a step of zero is raised to
    /// one, and a speed under the floor is raised to the floor.
    pub fn new(speed: u32, floor: u32, step: u32) -> (state: ControlState)
        ensures
            state.well_formed(),
            state@.running == false,
            state@.floor == if floor == 0 { 1int } else { floor as int },
            state@.step == if step == 0 { 1int } else { step as int },
            state@.speed == if speed >= state@.floor { speed as int } else { state@.floor },
    {
        let floor: u32 = if floor == 0 { 1 } else { floor };
        let step: u32 = if step == 0 { 1 } else { step };
        let speed: u32 = if speed >= floor { speed } else { floor };
        ControlState { running: false, speed, floor, step }
    }

    /// Whether the simulation advances each frame.
    pub fn is_running(&self) -> (running: bool)
        ensures
            running == self@.running,
    {
        self.running
    }

    /// The target rate, in generations per second.
    pub fn speed(&self) -> (speed: u32)
        ensures
            speed == self@.speed,
    {
        self.speed
    }

    /// The speed below which no decrease goes.
    pub fn floor(&self) -> (floor: u32)
        ensures
            floor == self@.floor,
    {
        self.floor
    }

    /// The amount by which a speed command changes the speed.
    pub fn step(&self) -> (step: u32)
        ensures
            step == self@.step,
    {
        self.step
    }

    /// Flips the running flag.
    pub fn toggle_run(&mut self)
        ensures
            final(self)@ == toggled(old(self)@),
    {
        self.running = !self.running;
    }

    /// Raises the speed by `delta`, stopping at the largest value a speed can hold.
    pub fn increase_speed(&mut self, delta: u32)
        ensures
            final(self)@ == faster(old(self)@, delta as int),
    {
        self.speed = self.speed.saturating_add(delta);
    }

    /// Lowers the speed by `delta`, unless that would take it below the
    /// floor: then the speed stays as it is.
    pub fn decrease_speed(&mut self, delta: u32)
        ensures
            final(self)@ == slower(old(self)@, delta as int),
            old(self).well_formed() ==> final(self).well_formed() && final(self)@.speed
                >= final(self)@.floor,
    {
        if self.speed >= delta && self.speed - delta >= self.floor {
            self.speed = self.speed - delta;
        }
    }

    /// Replaces the grid's contents by what the draws describe, but only
    /// while the simulation is paused. While it runs the grid is left alone.
    pub fn request_randomize(&self, grid: &mut Grid, draws: &Vec<i32>)
        requires
            old(grid).well_formed(),
        ensures
            final(grid).well_formed(),
            self@.running ==> *final(grid) == *old(grid),
            !self@.running ==> final(grid)@ == drawn_board(
                height(old(grid)@) as nat,
                width(old(grid)@) as nat,
                draws@,
            ),
    {
        if !self.running {
            grid.randomize(draws);
        }
    }

    /// Sets every cell dead, but only while the simulation is paused. While
    /// it runs the grid is left alone.
    pub fn request_clear(&self, grid: &mut Grid)
        requires
            old(grid).well_formed(),
        ensures
            final(grid).well_formed(),
            self@.running ==> *final(grid) == *old(grid),
            !self@.running ==> final(grid)@ == uniform_board(
                height(old(grid)@) as nat,
                width(old(grid)@) as nat,
                CellState::Dead,
            ),
    {
        if !self.running {
            grid.fill(CellState::Dead);
        }
    }
}

} // verus!
