//! Game-wide state and the handling of the player's input.
use crate::physics::AccelerationDirection;
use crate::ship::Direction;
use vstd::prelude::*;

verus! {

/// The phases of the game.
#[derive(Clone, Copy, Debug, PartialEq, Eq, Structural, Hash, Default)]
pub enum GameState {
    #[default]
    Loading,
    InGame,
}

/// State that the scripted sequence writes and the input handling reads.
#[derive(Clone, Copy, Debug, PartialEq, Eq, Structural)]
pub struct InGameState {
    /// While set, the player's input is ignored.
    pub block_controls: bool,
}

/// An input of the player.
#[derive(Clone, Copy, Debug, PartialEq, Eq, Structural)]
pub enum ControlAction {
    MoveUp,
    MoveDown,
    MoveLeft,
    MoveRight,
    /// Fire.
    Action,
    /// Any input this game does not use.
    Other,
}

/// How the player steers the ship.
#[derive(Clone, Copy, Debug, PartialEq, Eq, Structural)]
pub struct ShipControl {
    pub acceleration: AccelerationDirection,
    pub direction: Direction,
}

/// Shortest time between two shots, in nanoseconds.
pub const SHOOT_COOLDOWN: u64 = 500_000_000;

/// Steering, the earliest time of the next shot, and the shots fired so far.
pub type ControlState = (ShipControl, u64, nat);

/// The effect of input `a` at time `now`: a move steers and turns the ship,
/// firing works once the cooldown since the last shot has passed.
pub open spec fn control_step(s: ControlState, a: ControlAction, now: u64) -> ControlState {
    match a {
        ControlAction::MoveUp => (ShipControl { acceleration: AccelerationDirection::Up, direction: Direction::Up }, s.1, s.2),
        ControlAction::MoveDown => (ShipControl { acceleration: AccelerationDirection::Down, direction: Direction::Down }, s.1, s.2),
        ControlAction::MoveLeft => (ShipControl { acceleration: AccelerationDirection::Left, direction: Direction::Left }, s.1, s.2),
        ControlAction::MoveRight => (ShipControl { acceleration: AccelerationDirection::Right, direction: Direction::Right }, s.1, s.2),
        ControlAction::Action => if now > s.1 {
            (s.0, (now + SHOOT_COOLDOWN) as u64, s.2 + 1)
        } else {
            s
        },
        ControlAction::Other => s,
    }
}

pub open spec fn control_steps(s: ControlState, actions: Seq<ControlAction>, now: u64) -> ControlState
    decreases actions.len(),
{
    if actions.len() == 0 {
        s
    } else {
        control_step(control_steps(s, actions.drop_last(), now), actions.last(), now)
    }
}

/// Applies the player's inputs of one tick at time `now` (nanoseconds) and
/// returns how many shots were fired. While the controls are blocked nothing
/// changes; otherwise the ship stops accelerating unless an input of this
/// tick steers it.
pub fn user_event_handler(
    in_game_state: &InGameState,
    actions: &Vec<ControlAction>,
    ship: &mut ShipControl,
    now: u64,
    next_shoot_time: &mut u64,
) -> (shots: u64)
    requires
        now <= u64::MAX - SHOOT_COOLDOWN,
    ensures
        in_game_state.block_controls ==> (*final(ship) == *old(ship) && *final(next_shoot_time) == *old(
            next_shoot_time,
        ) && shots == 0),
        !in_game_state.block_controls ==> (*final(ship), *final(next_shoot_time), shots as nat) == control_steps(
            (ShipControl { acceleration: AccelerationDirection::Still, ..*old(ship) }, *old(next_shoot_time), 0),
            actions@,
            now,
        ),
{
    if in_game_state.block_controls {
        return 0;
    }
    let ghost start: ControlState = (
        ShipControl { acceleration: AccelerationDirection::Still, ..*ship },
        *next_shoot_time,
        0,
    );
    ship.acceleration = AccelerationDirection::Still;
    let mut shots: u64 = 0;
    let mut i: usize = 0;
    while i < actions.len()
        invariant
            now <= u64::MAX - SHOOT_COOLDOWN,
            i <= actions@.len(),
            shots <= i,
            (*ship, *next_shoot_time, shots as nat) == control_steps(start, actions@.take(i as int), now),
        decreases actions@.len() - i,
    {
        proof {
            assert(actions@.take(i + 1).drop_last() == actions@.take(i as int));
        }
        match actions[i] {
            ControlAction::MoveUp => {
                ship.acceleration = AccelerationDirection::Up;
                ship.direction = Direction::Up;
            },
            ControlAction::MoveDown => {
                ship.acceleration = AccelerationDirection::Down;
                ship.direction = Direction::Down;
            },
            ControlAction::MoveLeft => {
                ship.acceleration = AccelerationDirection::Left;
                ship.direction = Direction::Left;
            },
            ControlAction::MoveRight => {
                ship.acceleration = AccelerationDirection::Right;
                ship.direction = Direction::Right;
            },
            ControlAction::Action => {
                if now > *next_shoot_time {
                    shots = shots + 1;
                    *next_shoot_time = now + SHOOT_COOLDOWN;
                }
            },
            ControlAction::Other => {},
        }
        i = i + 1;
    }
    proof {
        assert(actions@.take(i as int) == actions@);
    }
    shots
}

} // verus!
