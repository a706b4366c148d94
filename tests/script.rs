use some_bevy_game::error_handler::{GameError, Severity};
use some_bevy_game::game::{user_event_handler, ControlAction, InGameState, ShipControl, SHOOT_COOLDOWN};
use some_bevy_game::map_builder::MapDraftError;
use some_bevy_game::physics::{remove_after_collision, AccelerationDirection};
use some_bevy_game::ship::{
    tutorial_trigger_system, AudioLoopEvent, Direction, TutorialAction, TutorialTimers, TutorialTrigger,
    LOGO_DELAY, LOGO_DURATION,
};
use some_bevy_game::world::{CollisionEvent, Components, World};

const SECOND: u64 = 1_000_000_000;

fn trigger(t: TutorialTrigger) -> Components<TutorialTrigger> {
    Components {
        health: None,
        damager: None,
        static_wall: false,
        trigger: Some(t),
        single_trigger: true,
        auto_despawn: None,
    }
}

fn idle() -> TutorialTimers {
    TutorialTimers { logo_timer: None, logo_disappear_timer: None }
}

#[test]
fn audio_triggers_adjust_the_loop() {
    let mut world = World::new();
    let a = world.spawn(trigger(TutorialTrigger::SimplyForward));
    let b = world.spawn(trigger(TutorialTrigger::TurnedRight));
    let mut timers = idle();
    let mut state = InGameState { block_controls: false };
    let out = tutorial_trigger_system(
        &world,
        &vec![CollisionEvent { subject: 0, object: a }, CollisionEvent { subject: 0, object: b }],
        &mut timers,
        &mut state,
        SECOND / 60,
    )
    .unwrap();
    assert_eq!(
        out.actions,
        vec![
            TutorialAction::Audio(AudioLoopEvent::LoopOffsetImmediate(19200)),
            TutorialAction::Audio(AudioLoopEvent::StartPositionImmediate(19200)),
            TutorialAction::Audio(AudioLoopEvent::EndPositionImmediate(76800)),
        ]
    );
    assert!(out.level.is_none());
    assert_eq!(timers, idle());
    assert!(!state.block_controls);
}

#[test]
fn deep_space_runs_the_sequence_once() {
    let mut world = World::new();
    let ship = world.spawn(trigger(TutorialTrigger::SimplyForward));
    let deep = world.spawn(trigger(TutorialTrigger::DeepSpace));
    let mut timers = idle();
    let mut state = InGameState { block_controls: false };
    let events = vec![CollisionEvent { subject: ship, object: deep }];
    let out = tutorial_trigger_system(&world, &events, &mut timers, &mut state, SECOND / 2).unwrap();
    assert_eq!(
        out.actions,
        vec![
            TutorialAction::StarsTarget(10000, 2000),
            TutorialAction::ShipDirection(Direction::Right),
            TutorialAction::ShipVelocity(300, 0),
            TutorialAction::CameraMove(310),
        ]
    );
    assert!(state.block_controls);
    assert_eq!(timers.logo_timer, Some(LOGO_DELAY - SECOND / 2));

    remove_after_collision(&mut world, &events);
    let out = tutorial_trigger_system(&world, &events, &mut timers, &mut state, SECOND).unwrap();
    assert!(out.actions.is_empty());
    assert_eq!(timers.logo_timer, Some(SECOND / 2));

    let out = tutorial_trigger_system(&world, &vec![], &mut timers, &mut state, SECOND).unwrap();
    assert_eq!(out.actions, vec![TutorialAction::LogoVisible(true)]);
    assert_eq!(timers, TutorialTimers { logo_timer: None, logo_disappear_timer: Some(LOGO_DURATION - SECOND) });

    let out = tutorial_trigger_system(&world, &vec![], &mut timers, &mut state, 5 * SECOND).unwrap();
    assert!(out.actions.is_empty());
    assert!(out.level.is_none());
    assert!(state.block_controls);

    let out = tutorial_trigger_system(&world, &vec![], &mut timers, &mut state, 2 * SECOND).unwrap();
    assert_eq!(
        out.actions,
        vec![
            TutorialAction::ShipVelocity(0, 0),
            TutorialAction::LogoVisible(false),
            TutorialAction::SpawnLevel,
            TutorialAction::CameraFollow,
            TutorialAction::StarsTarget(0, 20000),
        ]
    );
    let level = out.level.unwrap();
    assert_eq!(level.tiles.len(), 123);
    assert!(!state.block_controls);
    assert_eq!(timers, idle());

    for _ in 0..3 {
        let out = tutorial_trigger_system(&world, &vec![], &mut timers, &mut state, 10 * SECOND).unwrap();
        assert!(out.actions.is_empty());
        assert!(out.level.is_none());
    }
}

#[test]
fn events_on_missing_triggers_are_skipped() {
    let world: World<TutorialTrigger> = World::new();
    let mut timers = idle();
    let mut state = InGameState { block_controls: false };
    let out = tutorial_trigger_system(
        &world,
        &vec![CollisionEvent { subject: 1, object: 2 }],
        &mut timers,
        &mut state,
        SECOND,
    )
    .unwrap();
    assert!(out.actions.is_empty());
}

#[test]
fn controls_steer_and_fire_with_cooldown() {
    let state = InGameState { block_controls: false };
    let mut ship = ShipControl { acceleration: AccelerationDirection::Up, direction: Direction::Up };
    let mut next_shot = 0u64;
    let shots = user_event_handler(
        &state,
        &vec![ControlAction::MoveLeft, ControlAction::Action, ControlAction::Action, ControlAction::Other],
        &mut ship,
        SECOND,
        &mut next_shot,
    );
    assert_eq!(shots, 1);
    assert_eq!(next_shot, SECOND + SHOOT_COOLDOWN);
    assert_eq!(ship, ShipControl { acceleration: AccelerationDirection::Left, direction: Direction::Left });

    let shots = user_event_handler(&state, &vec![ControlAction::Action], &mut ship, SECOND + SHOOT_COOLDOWN, &mut next_shot);
    assert_eq!(shots, 0);
    assert_eq!(ship.acceleration, AccelerationDirection::Still);
    assert_eq!(ship.direction, Direction::Left);

    let shots = user_event_handler(&state, &vec![ControlAction::Action], &mut ship, SECOND + SHOOT_COOLDOWN + 1, &mut next_shot);
    assert_eq!(shots, 1);
}

#[test]
fn blocked_controls_change_nothing() {
    let state = InGameState { block_controls: true };
    let mut ship = ShipControl { acceleration: AccelerationDirection::Up, direction: Direction::Up };
    let mut next_shot = 0u64;
    let shots = user_event_handler(&state, &vec![ControlAction::MoveDown, ControlAction::Action], &mut ship, SECOND, &mut next_shot);
    assert_eq!(shots, 0);
    assert_eq!(next_shot, 0);
    assert_eq!(ship, ShipControl { acceleration: AccelerationDirection::Up, direction: Direction::Up });
}

#[test]
fn direction_vectors() {
    assert_eq!(Direction::Left.vector(), (-1, 0));
    assert_eq!(Direction::Right.vector(), (1, 0));
    assert_eq!(Direction::Up.vector(), (0, 1));
    assert_eq!(Direction::Down.vector(), (0, -1));
}

#[test]
fn map_errors_are_critical() {
    assert_eq!(GameError::MapDraftError(MapDraftError::InconsistentWidth).severity(), Severity::Critical);
    assert_eq!(GameError::MapDraftError(MapDraftError::StrLengthMismatch).severity(), Severity::Critical);
}
