//! The arena widget's core: it owns the game loop, accumulates the move
//! and fall timers frame by frame, holds at most one pending move request,
//! and advances the machine once per frame. The surrounding driver only
//! converts key events in and notifications out.

use vstd::prelude::*;
use crate::game_loop::{
    spec_input_state, step_rel, GameAction, GameLoop, GameLoopState, GameView, MoveActionType,
    StepNotifications,
};
use crate::messages::GameArenaComponentMessage;

verus! {

/// Milliseconds between two honored move requests.
pub const MOVE_TICK_DURATION: u64 = 200;

/// Milliseconds between two gravity steps.
pub const FALL_TICK_DURATION: u64 = 200;

/// An accumulated duration clamped to what the counter can hold.
pub open spec fn spec_sat_add64(a: u64, b: u64) -> u64 {
    if a + b <= u64::MAX {
        (a + b) as u64
    } else {
        u64::MAX
    }
}

fn sat_add64(a: u64, b: u64) -> (r: u64)
    ensures
        r == spec_sat_add64(a, b),
{
    if b <= u64::MAX - a {
        a + b
    } else {
        u64::MAX
    }
}

/// The arena widget's state: the game loop, the two timer accumulators (in
/// milliseconds), and the one pending move request.
pub struct GameArenaComponent {
    pub game_loop: GameLoop,
    pub last_fall_update: u64,
    pub last_move_update: u64,
    pub move_requested: MoveActionType,
}

/// The game loop's state after the timer phase of one frame: if the move
/// interval elapsed, the pending move (lateral or rotation only) is fed in;
/// if the fall interval elapsed, a fall tick is fed in.
pub open spec fn prep_view(pre: GameArenaComponent, dt: u64) -> GameView {
    let move_due = spec_sat_add64(pre.last_move_update, dt) >= MOVE_TICK_DURATION;
    let fall_due = spec_sat_add64(pre.last_fall_update, dt) >= FALL_TICK_DURATION;
    let v0 = pre.game_loop@;
    let v1 = if move_due && (pre.move_requested == MoveActionType::MoveLeft || pre.move_requested
        == MoveActionType::MoveRight || pre.move_requested == MoveActionType::Rotate) {
        GameView {
            state: spec_input_state(v0.state, GameAction::Move(pre.move_requested)),
            ..v0
        }
    } else {
        v0
    };
    if fall_due {
        GameView {
            state: if v1.state == GameLoopState::Running {
                GameLoopState::Falling
            } else {
                v1.state
            },
            ..v1
        }
    } else {
        v1
    }
}

impl GameArenaComponent {
    pub open spec fn wf(self) -> bool {
        self.game_loop.wf()
    }

    /// A fresh widget core around the given game loop, with both timers at
    /// zero and no pending move.
    pub fn new(game_loop: GameLoop) -> (r: GameArenaComponent)
        ensures
            r.game_loop == game_loop,
            r.last_fall_update == 0,
            r.last_move_update == 0,
            r.move_requested == MoveActionType::NoAction,
    {
        GameArenaComponent {
            game_loop,
            last_fall_update: 0,
            last_move_update: 0,
            move_requested: MoveActionType::NoAction,
        }
    }

    /// One unpaused frame: advance both timers by the elapsed time; when
    /// the move interval elapses, feed the pending lateral or rotation
    /// request into the loop and clear it; when the fall interval elapses,
    /// feed a fall tick; then advance the machine one transition.
    pub fn handle_moving_state(&mut self, dt_ms: u64) -> (r: StepNotifications)
        requires
            old(self).wf(),
        ensures
            final(self).wf(),
            final(self).last_move_update == (if spec_sat_add64(old(self).last_move_update, dt_ms)
                >= MOVE_TICK_DURATION {
                0u64
            } else {
                spec_sat_add64(old(self).last_move_update, dt_ms)
            }),
            final(self).last_fall_update == (if spec_sat_add64(old(self).last_fall_update, dt_ms)
                >= FALL_TICK_DURATION {
                0u64
            } else {
                spec_sat_add64(old(self).last_fall_update, dt_ms)
            }),
            final(self).move_requested == (if spec_sat_add64(old(self).last_move_update, dt_ms)
                >= MOVE_TICK_DURATION {
                MoveActionType::NoAction
            } else {
                old(self).move_requested
            }),
            step_rel(prep_view(*old(self), dt_ms), final(self).game_loop@, r),
    {
        self.last_fall_update = sat_add64(self.last_fall_update, dt_ms);
        self.last_move_update = sat_add64(self.last_move_update, dt_ms);
        if self.last_move_update >= MOVE_TICK_DURATION {
            self.last_move_update = 0;
            match self.move_requested {
                MoveActionType::MoveLeft => self.game_loop.handle_input(
                    GameAction::Move(MoveActionType::MoveLeft),
                ),
                MoveActionType::MoveRight => self.game_loop.handle_input(
                    GameAction::Move(MoveActionType::MoveRight),
                ),
                MoveActionType::Rotate => self.game_loop.handle_input(
                    GameAction::Move(MoveActionType::Rotate),
                ),
                _ => (),
            }
            self.move_requested = MoveActionType::NoAction;
        }
        if self.last_fall_update >= FALL_TICK_DURATION {
            self.last_fall_update = 0;
            self.game_loop.fall_tick();
        }
        proof {
            assert(self.game_loop@ =~= prep_view(*old(self), dt_ms));
        }
        self.game_loop.do_state_machine()
    }

    /// One frame: while the driver marks the widget paused, only a pause
    /// toggle is fed to the loop and nothing else runs; otherwise the frame
    /// proceeds as `handle_moving_state`.
    pub fn on_tick(&mut self, paused: bool, dt_ms: u64) -> (r: Option<StepNotifications>)
        requires
            old(self).wf(),
        ensures
            final(self).wf(),
            paused ==> {
                &&& r is None
                &&& final(self).game_loop@ == (GameView {
                    state: spec_input_state(old(self).game_loop@.state, GameAction::Pause),
                    ..old(self).game_loop@
                })
                &&& final(self).last_fall_update == old(self).last_fall_update
                &&& final(self).last_move_update == old(self).last_move_update
                &&& final(self).move_requested == old(self).move_requested
            },
            !paused ==> {
                &&& r is Some
                &&& step_rel(prep_view(*old(self), dt_ms), final(self).game_loop@, r->Some_0)
            },
    {
        if paused {
            self.game_loop.handle_input(GameAction::Pause);
            None
        } else {
            Some(self.handle_moving_state(dt_ms))
        }
    }

    /// One message from the session: an initialise request restarts the
    /// loop; a move request is kept only while none is already pending.
    pub fn on_message(&mut self, message: GameArenaComponentMessage)
        requires
            old(self).wf(),
        ensures
            final(self).wf(),
            message == GameArenaComponentMessage::Initialise ==> {
                &&& final(self).game_loop@ == (GameView {
                    state: GameLoopState::Start,
                    ..old(self).game_loop@
                })
                &&& final(self).move_requested == old(self).move_requested
            },
            message != GameArenaComponentMessage::Initialise ==> {
                &&& final(self).game_loop == old(self).game_loop
                &&& final(self).move_requested == (if old(self).move_requested
                    == MoveActionType::NoAction {
                    crate::messages::spec_move_action_of(message)->Some_0
                } else {
                    old(self).move_requested
                })
            },
            final(self).last_fall_update == old(self).last_fall_update,
            final(self).last_move_update == old(self).last_move_update,
    {
        if message == GameArenaComponentMessage::Initialise {
            self.game_loop.initialise();
        } else if self.move_requested == MoveActionType::NoAction {
            match crate::messages::move_action_of(&message) {
                Some(action) => {
                    self.move_requested = action;
                },
                None => (),
            }
        }
    }
}

} // verus!
