use vstd::prelude::*;

verus! {

/// How far the ship moves in one tick while a direction is held.
pub const AXIS_STEP: i64 = 10;

/// The logical commands a player gives with the keyboard.
#[derive(Clone, Copy, Debug, PartialEq, Eq, Structural)]
pub enum Command {
    MoveRight,
    MoveLeft,
    MoveUp,
    MoveDown,
    Fire,
    Restart,
}

/// What the player currently asks for: a velocity on each axis and whether
/// the fire key is held.
#[derive(Clone, Copy, Debug, PartialEq, Eq, Structural)]
pub struct InputState {
    pub xaxis: i64,
    pub yaxis: i64,
    pub fire: bool,
}

impl InputState {
    pub open spec fn wf(self) -> bool {
        -AXIS_STEP <= self.xaxis <= AXIS_STEP && -AXIS_STEP <= self.yaxis <= AXIS_STEP
    }

    /// Nothing held.
    pub open spec fn idle() -> InputState {
        InputState { xaxis: 0, yaxis: 0, fire: false }
    }

    pub fn new() -> (r: InputState)
        ensures
            r == InputState::idle(),
    {
        InputState { xaxis: 0, yaxis: 0, fire: false }
    }

    /// The state after the key of `cmd` goes down.
    pub open spec fn pressed(self, cmd: Command) -> InputState {
        match cmd {
            Command::MoveRight => InputState { xaxis: AXIS_STEP, ..self },
            Command::MoveLeft => InputState { xaxis: (-AXIS_STEP) as i64, ..self },
            Command::MoveUp => InputState { yaxis: AXIS_STEP, ..self },
            Command::MoveDown => InputState { yaxis: (-AXIS_STEP) as i64, ..self },
            Command::Fire => InputState { fire: true, ..self },
            Command::Restart => self,
        }
    }

    /// The state after the key of `cmd` goes up: an axis is cleared only
    /// while it still points the way of the released key.
    pub open spec fn released(self, cmd: Command) -> InputState {
        match cmd {
            Command::MoveRight => if self.xaxis > 0 { InputState { xaxis: 0, ..self } } else { self },
            Command::MoveLeft => if self.xaxis < 0 { InputState { xaxis: 0, ..self } } else { self },
            Command::MoveUp => if self.yaxis > 0 { InputState { yaxis: 0, ..self } } else { self },
            Command::MoveDown => if self.yaxis < 0 { InputState { yaxis: 0, ..self } } else { self },
            Command::Fire => InputState { fire: false, ..self },
            Command::Restart => self,
        }
    }

    pub fn key_down(&mut self, cmd: Command)
        ensures
            *final(self) == old(self).pressed(cmd),
    {
        match cmd {
            Command::MoveRight => self.xaxis = AXIS_STEP,
            Command::MoveLeft => self.xaxis = -AXIS_STEP,
            Command::MoveUp => self.yaxis = AXIS_STEP,
            Command::MoveDown => self.yaxis = -AXIS_STEP,
            Command::Fire => self.fire = true,
            Command::Restart => {},
        }
    }

    pub fn key_up(&mut self, cmd: Command)
        ensures
            *final(self) == old(self).released(cmd),
    {
        match cmd {
            Command::MoveRight => if self.xaxis > 0 {
                self.xaxis = 0;
            },
            Command::MoveLeft => if self.xaxis < 0 {
                self.xaxis = 0;
            },
            Command::MoveUp => if self.yaxis > 0 {
                self.yaxis = 0;
            },
            Command::MoveDown => if self.yaxis < 0 {
                self.yaxis = 0;
            },
            Command::Fire => self.fire = false,
            Command::Restart => {},
        }
    }
}

/// Pressing or releasing a key keeps the axes within their range.
pub proof fn lemma_keys_keep_axes(s: InputState, cmd: Command)
    requires
        s.wf(),
    ensures
        s.pressed(cmd).wf(),
        s.released(cmd).wf(),
{
}

} // verus!
