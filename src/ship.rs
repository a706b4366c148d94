//! The player's ship and the scripted sequence of the tutorial level.
use crate::error_handler::GameError;
use crate::game::InGameState;
use crate::map_builder::{grid_of_rows, placements, CompiledMap};
use crate::maps::level_1::{build_level_1, level1_legend, level_1_layout, NoTrigger};
use crate::physics::consume_event;
use crate::world::{CollisionEvent, Components, World};
use vstd::prelude::*;

verus! {

/// Where the ship faces.
#[derive(Clone, Copy, Debug, PartialEq, Eq, Structural)]
pub enum Direction {
    Left,
    Right,
    Up,
    Down,
}

impl Direction {
    /// The unit vector pointing this way, with `y` growing upward.
    pub fn vector(&self) -> (r: (i64, i64))
        ensures
            r == match *self {
                Direction::Left => (-1i64, 0i64),
                Direction::Right => (1i64, 0i64),
                Direction::Up => (0i64, 1i64),
                Direction::Down => (0i64, -1i64),
            },
    {
        match self {
            Direction::Left => (-1, 0),
            Direction::Right => (1, 0),
            Direction::Up => (0, 1),
            Direction::Down => (0, -1),
        }
    }
}

/// The story beats that the tutorial's triggers carry.
#[derive(Clone, Copy, Debug, PartialEq, Eq, Structural)]
pub enum TutorialTrigger {
    SimplyForward,
    TurnedRight,
    DeepSpace,
}

/// A change to the looping of the background music; positions in milliseconds.
#[derive(Clone, Copy, Debug, PartialEq, Eq, Structural)]
pub enum AudioLoopEvent {
    LoopOffsetImmediate(u64),
    StartPositionImmediate(u64),
    EndPositionImmediate(u64),
}

/// What the scripted sequence asks of the world around it.
#[derive(Clone, Copy, Debug, PartialEq, Eq, Structural)]
pub enum TutorialAction {
    Audio(AudioLoopEvent),
    /// New target speed and acceleration of the scrolling star background.
    StarsTarget(i64, i64),
    ShipDirection(Direction),
    ShipVelocity(i64, i64),
    /// The camera moves on its own at the given speed.
    CameraMove(i64),
    /// The camera follows the ship again.
    CameraFollow,
    LogoVisible(bool),
    /// The next level appears around the ship.
    SpawnLevel,
}

/// Length of one loop of the background music, in milliseconds.
pub const MUSIC_LOOP_MS: u64 = 19200;

/// End of the music's loop window once the ship has turned right.
pub const MUSIC_LOOP_END_MS: u64 = 76800;

/// Time from entering deep space until the logo shows, in nanoseconds.
pub const LOGO_DELAY: u64 = 2_000_000_000;

/// Time the logo stays visible, in nanoseconds.
pub const LOGO_DURATION: u64 = 7_000_000_000;

/// The two countdowns of the scripted sequence, in nanoseconds left; `None`
/// while disarmed.
#[derive(Clone, Copy, Debug, PartialEq, Eq, Structural)]
pub struct TutorialTimers {
    pub logo_timer: Option<u64>,
    pub logo_disappear_timer: Option<u64>,
}

/// What a tick of the scripted sequence asks for, in order, and the next level
/// when it is due.
pub struct TutorialOutput {
    pub actions: Vec<TutorialAction>,
    pub level: Option<CompiledMap<NoTrigger>>,
}

/// State of the sequence: its timers, whether the controls are blocked, and
/// the actions asked for so far.
pub type ScriptState = (TutorialTimers, bool, Seq<TutorialAction>);

/// The actions of entering deep space.
pub open spec fn deep_space_actions() -> Seq<TutorialAction> {
    seq![
        TutorialAction::StarsTarget(10000, 2000),
        TutorialAction::ShipDirection(Direction::Right),
        TutorialAction::ShipVelocity(300, 0),
        TutorialAction::CameraMove(310),
    ]
}

/// The actions of leaving the logo for the next level.
pub open spec fn transition_actions() -> Seq<TutorialAction> {
    seq![
        TutorialAction::ShipVelocity(0, 0),
        TutorialAction::LogoVisible(false),
        TutorialAction::SpawnLevel,
        TutorialAction::CameraFollow,
        TutorialAction::StarsTarget(0, 20000),
    ]
}

/// The sequence after a trigger carrying `t` was touched.
pub open spec fn trigger_step(s: ScriptState, t: TutorialTrigger) -> ScriptState {
    match t {
        TutorialTrigger::SimplyForward => (
            s.0,
            s.1,
            s.2.push(TutorialAction::Audio(AudioLoopEvent::LoopOffsetImmediate(MUSIC_LOOP_MS))),
        ),
        TutorialTrigger::TurnedRight => (
            s.0,
            s.1,
            s.2.push(TutorialAction::Audio(AudioLoopEvent::StartPositionImmediate(MUSIC_LOOP_MS))).push(
                TutorialAction::Audio(AudioLoopEvent::EndPositionImmediate(MUSIC_LOOP_END_MS)),
            ),
        ),
        TutorialTrigger::DeepSpace => (
            TutorialTimers { logo_timer: Some(LOGO_DELAY), ..s.0 },
            true,
            s.2 + deep_space_actions(),
        ),
    }
}

/// The payloads of the triggers that `events` touched, in order; events that
/// name a missing entity or one without a payload are skipped.
pub open spec fn touched_payloads<T>(m: Map<u64, Components<T>>, events: Seq<CollisionEvent>) -> Seq<T>
    decreases events.len(),
{
    if events.len() == 0 {
        Seq::empty()
    } else {
        let rest = touched_payloads(m, events.drop_last());
        let o = events.last().object;
        if m.contains_key(o) && m[o].trigger is Some {
            rest.push(m[o].trigger->0)
        } else {
            rest
        }
    }
}

pub open spec fn triggers_step(s: ScriptState, ts: Seq<TutorialTrigger>) -> ScriptState
    decreases ts.len(),
{
    if ts.len() == 0 {
        s
    } else {
        trigger_step(triggers_step(s, ts.drop_last()), ts.last())
    }
}

/// The sequence after `delta` nanoseconds: when the logo countdown runs out
/// the logo shows and its visible countdown starts; when that one runs out
/// the next level comes. A countdown that ran out is disarmed.
pub open spec fn tick_step(s: ScriptState, delta: u64) -> ScriptState {
    let (logo, visible, shown) = match s.0.logo_timer {
        Some(left) => if left <= delta {
            (None::<u64>, Some(LOGO_DURATION), s.2.push(TutorialAction::LogoVisible(true)))
        } else {
            (Some((left - delta) as u64), s.0.logo_disappear_timer, s.2)
        },
        None => (None::<u64>, s.0.logo_disappear_timer, s.2),
    };
    match visible {
        Some(left) => if left <= delta {
            (TutorialTimers { logo_timer: logo, logo_disappear_timer: None }, false, shown + transition_actions())
        } else {
            (
                TutorialTimers { logo_timer: logo, logo_disappear_timer: Some((left - delta) as u64) },
                s.1,
                shown,
            )
        },
        None => (TutorialTimers { logo_timer: logo, logo_disappear_timer: None }, s.1, shown),
    }
}

/// The next level is due within a tick of `delta` nanoseconds from `t`.
pub open spec fn level_due(t: TutorialTimers, delta: u64) -> bool {
    let visible = match t.logo_timer {
        Some(left) => if left <= delta {
            Some(LOGO_DURATION)
        } else {
            t.logo_disappear_timer
        },
        None => t.logo_disappear_timer,
    };
    visible is Some && visible->0 <= delta
}

/// When the logo countdown runs out within a tick shorter than the logo's
/// display time, the logo shows and its display countdown is armed (and has
/// already run for that tick); the controls stay as they were.
pub proof fn logo_shows_when_due(s: ScriptState, delta: u64)
    requires
        s.0.logo_timer is Some,
        s.0.logo_timer->0 <= delta,
        delta < LOGO_DURATION,
    ensures
        tick_step(s, delta) == (
            TutorialTimers { logo_timer: None, logo_disappear_timer: Some((LOGO_DURATION - delta) as u64) },
            s.1,
            s.2.push(TutorialAction::LogoVisible(true)),
        ),
{
}

/// When the display countdown runs out, the transition to the next level
/// happens, the controls are released, and the countdown is disarmed.
pub proof fn level_comes_when_due(s: ScriptState, delta: u64)
    requires
        s.0.logo_timer is None,
        s.0.logo_disappear_timer is Some,
        s.0.logo_disappear_timer->0 <= delta,
    ensures
        tick_step(s, delta) == (
            TutorialTimers { logo_timer: None, logo_disappear_timer: None },
            false,
            s.2 + transition_actions(),
        ),
{
}

/// With both countdowns disarmed a tick does nothing, so the transition to the
/// next level happens once per arming, not on every later tick.
pub proof fn idle_tick_does_nothing(s: ScriptState, delta: u64)
    requires
        s.0.logo_timer is None,
        s.0.logo_disappear_timer is None,
    ensures
        tick_step(s, delta) == s,
        !level_due(s.0, delta),
{
}

/// A one-shot trigger fires once: its first contact removes it, so a second
/// contact with it touches no payload and changes nothing more.
pub proof fn one_shot_fires_once<T>(m: Map<u64, Components<T>>, e: CollisionEvent)
    requires
        m.contains_key(e.object),
        m[e.object].single_trigger,
    ensures
        !consume_event(m, e).contains_key(e.object),
        touched_payloads(consume_event(m, e), seq![e]) == Seq::<T>::empty(),
        consume_event(consume_event(m, e), e) == consume_event(m, e),
{
    let after = consume_event(m, e);
    assert(seq![e].drop_last() =~= Seq::<CollisionEvent>::empty());
    assert(seq![e].last() == e);
    assert(touched_payloads(after, Seq::<CollisionEvent>::empty()) == Seq::<T>::empty());
    assert(touched_payloads(after, seq![e]) == touched_payloads(after, seq![e].drop_last()));
}

/// Reacts to a touched trigger carrying `trigger`.
fn handle_trigger(
    trigger: TutorialTrigger,
    timers: &mut TutorialTimers,
    in_game_state: &mut InGameState,
    actions: &mut Vec<TutorialAction>,
)
    ensures
        (*final(timers), final(in_game_state).block_controls, final(actions)@) == trigger_step(
            (*old(timers), old(in_game_state).block_controls, old(actions)@),
            trigger,
        ),
{
    match trigger {
        TutorialTrigger::SimplyForward => {
            actions.push(TutorialAction::Audio(AudioLoopEvent::LoopOffsetImmediate(MUSIC_LOOP_MS)));
        },
        TutorialTrigger::TurnedRight => {
            actions.push(TutorialAction::Audio(AudioLoopEvent::StartPositionImmediate(MUSIC_LOOP_MS)));
            actions.push(TutorialAction::Audio(AudioLoopEvent::EndPositionImmediate(MUSIC_LOOP_END_MS)));
        },
        TutorialTrigger::DeepSpace => {
            let ghost before = actions@;
            in_game_state.block_controls = true;
            actions.push(TutorialAction::StarsTarget(10000, 2000));
            actions.push(TutorialAction::ShipDirection(Direction::Right));
            actions.push(TutorialAction::ShipVelocity(300, 0));
            actions.push(TutorialAction::CameraMove(310));
            timers.logo_timer = Some(LOGO_DELAY);
            assert(actions@ == before + deep_space_actions());
        },
    }
}

/// Advances both countdowns by `delta` nanoseconds; says whether the next
/// level is due.
fn tick_timers(
    timers: &mut TutorialTimers,
    in_game_state: &mut InGameState,
    actions: &mut Vec<TutorialAction>,
    delta: u64,
) -> (level_now: bool)
    ensures
        (*final(timers), final(in_game_state).block_controls, final(actions)@) == tick_step(
            (*old(timers), old(in_game_state).block_controls, old(actions)@),
            delta,
        ),
        level_now == level_due(*old(timers), delta),
{
    if let Some(left) = timers.logo_timer {
        if left <= delta {
            actions.push(TutorialAction::LogoVisible(true));
            timers.logo_timer = None;
            timers.logo_disappear_timer = Some(LOGO_DURATION);
        } else {
            timers.logo_timer = Some(left - delta);
        }
    }
    let ghost shown = actions@;
    let mut level_now = false;
    if let Some(left) = timers.logo_disappear_timer {
        if left <= delta {
            actions.push(TutorialAction::ShipVelocity(0, 0));
            actions.push(TutorialAction::LogoVisible(false));
            actions.push(TutorialAction::SpawnLevel);
            actions.push(TutorialAction::CameraFollow);
            in_game_state.block_controls = false;
            actions.push(TutorialAction::StarsTarget(0, 20000));
            timers.logo_disappear_timer = None;
            level_now = true;
            assert(actions@ == shown + transition_actions());
        } else {
            timers.logo_disappear_timer = Some(left - delta);
        }
    }
    level_now
}

/// One tick of the tutorial's script: reacts, in order, to the triggers that
/// `events` touched (their payloads are read from `world`), then advances the
/// countdowns by `delta` nanoseconds. When the logo's time is up it builds the
/// next level, which is always well formed, so this never fails.
pub fn tutorial_trigger_system(
    world: &World<TutorialTrigger>,
    events: &Vec<CollisionEvent>,
    timers: &mut TutorialTimers,
    in_game_state: &mut InGameState,
    delta: u64,
) -> (r: Result<TutorialOutput, GameError>)
    requires
        world.wf(),
    ensures
        r is Ok,
        ({
            let mid = triggers_step(
                (*old(timers), old(in_game_state).block_controls, Seq::empty()),
                touched_payloads(world.view(), events@),
            );
            let end = tick_step(mid, delta);
            &&& *final(timers) == end.0
            &&& final(in_game_state).block_controls == end.1
            &&& r->Ok_0.actions@ == end.2
            &&& (r->Ok_0.level is Some <==> level_due(mid.0, delta))
        }),
        r->Ok_0.level is Some ==> r->Ok_0.level->0.tiles@ == placements(
            grid_of_rows(level_1_layout(), |c: char| level1_legend(c)),
            29,
            (15, 12),
        ),
{
    let ghost start: ScriptState = (*timers, in_game_state.block_controls, Seq::empty());
    let mut actions: Vec<TutorialAction> = Vec::new();
    let mut i: usize = 0;
    while i < events.len()
        invariant
            world.wf(),
            i <= events@.len(),
            start == (*old(timers), old(in_game_state).block_controls, Seq::<TutorialAction>::empty()),
            (*timers, in_game_state.block_controls, actions@) == triggers_step(
                start,
                touched_payloads(world.view(), events@.take(i as int)),
            ),
        decreases events@.len() - i,
    {
        let event = events[i];
        proof {
            assert(events@.take(i + 1).drop_last() == events@.take(i as int));
        }
        if let Some(parts) = world.get(event.object) {
            if let Some(trigger) = parts.trigger {
                let ghost ts = touched_payloads(world.view(), events@.take(i as int));
                handle_trigger(trigger, timers, in_game_state, &mut actions);
                proof {
                    assert(ts.push(trigger).drop_last() == ts);
                }
            }
        }
        i = i + 1;
    }
    proof {
        assert(events@.take(i as int) == events@);
    }
    let level_now = tick_timers(timers, in_game_state, &mut actions, delta);
    let mut level: Option<CompiledMap<NoTrigger>> = None;
    if level_now {
        match build_level_1() {
            Ok(map) => {
                level = Some(map);
            },
            Err(e) => {
                return Err(GameError::MapDraftError(e));
            },
        }
    }
    Ok(TutorialOutput { actions, level })
}

} // verus!
