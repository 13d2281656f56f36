//! The messages the game loop's driver forwards to the presentation
//! widgets: the next-piece preview, the statistics panel, and the arena.

use vstd::prelude::*;
use crate::game_loop::{MoveActionType, ShapeStatistics};
use crate::tetronimo::TetronimoShape;

verus! {

/// Tells the next-piece preview which kind to show.
#[derive(Clone, Copy, Debug, PartialEq, Eq, Structural)]
pub struct NextPieceComponentMessage {
    pub shape: TetronimoShape,
}

impl NextPieceComponentMessage {
    pub fn new(shape: TetronimoShape) -> (r: NextPieceComponentMessage)
        ensures
            r.shape == shape,
    {
        NextPieceComponentMessage { shape }
    }
}

/// Hands the statistics panel all seven per-kind spawn counters.
#[derive(Clone, Copy, Debug, PartialEq, Eq, Structural)]
pub struct StatisticsComponentMessage {
    pub i_stat: u16,
    pub j_stat: u16,
    pub l_stat: u16,
    pub o_stat: u16,
    pub t_stat: u16,
    pub s_stat: u16,
    pub z_stat: u16,
}

impl StatisticsComponentMessage {
    pub fn new(i: u16, j: u16, l: u16, o: u16, t: u16, s: u16, z: u16) -> (r:
        StatisticsComponentMessage)
        ensures
            r == (StatisticsComponentMessage {
                i_stat: i,
                j_stat: j,
                l_stat: l,
                o_stat: o,
                t_stat: t,
                s_stat: s,
                z_stat: z,
            }),
    {
        StatisticsComponentMessage {
            i_stat: i,
            j_stat: j,
            l_stat: l,
            o_stat: o,
            t_stat: t,
            s_stat: s,
            z_stat: z,
        }
    }
}

impl From<ShapeStatistics> for StatisticsComponentMessage {
    fn from(value: ShapeStatistics) -> (r: StatisticsComponentMessage) {
        StatisticsComponentMessage::new(
            value.i_count,
            value.j_count,
            value.l_count,
            value.o_count,
            value.t_count,
            value.s_count,
            value.z_count,
        )
    }
}

impl vstd::std_specs::convert::FromSpecImpl<ShapeStatistics> for StatisticsComponentMessage {
    open spec fn obeys_from_spec() -> bool {
        true
    }

    open spec fn from_spec(value: ShapeStatistics) -> StatisticsComponentMessage {
        StatisticsComponentMessage {
            i_stat: value.i_count,
            j_stat: value.j_count,
            l_stat: value.l_count,
            o_stat: value.o_count,
            t_stat: value.t_count,
            s_stat: value.s_count,
            z_stat: value.z_count,
        }
    }
}

/// One message to the arena widget: reinitialize the session, or request
/// one move of the active piece.
#[derive(Clone, Copy, Debug, PartialEq, Eq, Structural)]
pub enum GameArenaComponentMessage {
    Initialise,
    Rotate,
    Drop,
    MoveLeft,
    MoveRight,
}

/// The move request an arena message stands for; `Initialise` is no move.
pub open spec fn spec_move_action_of(m: GameArenaComponentMessage) -> Option<MoveActionType> {
    match m {
        GameArenaComponentMessage::Initialise => None,
        GameArenaComponentMessage::Rotate => Some(MoveActionType::Rotate),
        GameArenaComponentMessage::Drop => Some(MoveActionType::Drop),
        GameArenaComponentMessage::MoveLeft => Some(MoveActionType::MoveLeft),
        GameArenaComponentMessage::MoveRight => Some(MoveActionType::MoveRight),
    }
}

/// The move request an arena message stands for; `Initialise` is no move.
pub fn move_action_of(m: &GameArenaComponentMessage) -> (r: Option<MoveActionType>)
    ensures
        r == spec_move_action_of(*m),
{
    match m {
        GameArenaComponentMessage::Initialise => None,
        GameArenaComponentMessage::Rotate => Some(MoveActionType::Rotate),
        GameArenaComponentMessage::Drop => Some(MoveActionType::Drop),
        GameArenaComponentMessage::MoveLeft => Some(MoveActionType::MoveLeft),
        GameArenaComponentMessage::MoveRight => Some(MoveActionType::MoveRight),
    }
}

} // verus!
