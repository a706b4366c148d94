use some_bevy_game::bullet::{
    damage_system, despawn_bullet_on_collision, despawn_the_dead, Damager, DamagerType, DESPAWN_DELAY,
};
use some_bevy_game::health::{Health, ModifyRangeResult};
use some_bevy_game::physics::remove_after_collision;
use some_bevy_game::ship::TutorialTrigger;
use some_bevy_game::world::{AutoDespawn, CollisionEvent, Components, World};

fn empty() -> Components<TutorialTrigger> {
    Components {
        health: None,
        damager: None,
        static_wall: false,
        trigger: None,
        single_trigger: false,
        auto_despawn: None,
    }
}

fn with_health(current: i64, end: i64) -> Components<TutorialTrigger> {
    Components { health: Some(Health { start: 0, end, current }), ..empty() }
}

fn bullet(strength: u32) -> Components<TutorialTrigger> {
    Components { damager: Some(Damager::new_self_destruct(strength)), ..empty() }
}

#[test]
fn health_starts_full_and_clamps() {
    let mut h = Health::new(0, 100);
    assert_eq!(h.get(), 100);
    assert_eq!(h.modify(-30), ModifyRangeResult::InRange);
    assert_eq!(h.get(), 70);
    assert_eq!(h.modify(50), ModifyRangeResult::EndLimitReached);
    assert_eq!(h.get(), 100);
    assert_eq!(h.modify(-100), ModifyRangeResult::StartLimitReached);
    assert_eq!(h.get(), 0);
    assert_eq!(h.set(-5), ModifyRangeResult::StartLimitReached);
    assert_eq!(h.get(), 0);
}

#[test]
fn new_self_destruct_damager() {
    let d = Damager::new_self_destruct(7);
    assert_eq!(d.strength, 7);
    assert_eq!(d.damager_type, DamagerType::SelfDestruct);
}

#[test]
fn damage_reduces_health_and_delays_despawn() {
    let mut world = World::new();
    let target = world.spawn(with_health(25, 100));
    let shot = world.spawn(bullet(10));
    damage_system(&mut world, &vec![CollisionEvent { subject: target, object: shot }]);
    let health = world.get(target).unwrap().health.unwrap();
    assert_eq!((health.current, health.end), (15, 100));
    let shot_parts = world.get(shot).unwrap();
    assert_eq!(shot_parts.auto_despawn, Some(AutoDespawn::Timer(DESPAWN_DELAY)));
    world.advance(DESPAWN_DELAY / 2);
    assert!(world.get(shot).is_some());
    world.advance(DESPAWN_DELAY / 2);
    assert!(world.get(shot).is_none());
    assert!(world.get(target).is_some());
}

#[test]
fn damage_ignores_missing_or_unfit_entities() {
    let mut world = World::new();
    let target = world.spawn(with_health(25, 100));
    let armed_target = world.spawn(Components { health: Some(Health::new(0, 10)), ..bullet(3) });
    let shot = world.spawn(bullet(10));
    world.despawn(shot);
    let other = world.spawn(bullet(4));
    damage_system(
        &mut world,
        &vec![
            CollisionEvent { subject: target, object: shot },
            CollisionEvent { subject: armed_target, object: other },
            CollisionEvent { subject: other, object: target },
        ],
    );
    assert_eq!(world.get(target).unwrap().health.unwrap().current, 25);
    assert_eq!(world.get(armed_target).unwrap().health.unwrap().current, 10);
    assert_eq!(world.get(other).unwrap().auto_despawn, None);
}

#[test]
fn lethal_damage_leads_to_removal() {
    let mut world = World::new();
    let rock = world.spawn(with_health(10, 10));
    let shot = world.spawn(bullet(10));
    let bystander = world.spawn(with_health(5, 10));
    damage_system(&mut world, &vec![CollisionEvent { subject: rock, object: shot }]);
    let dead = world.death_events();
    assert_eq!(dead, vec![rock]);
    despawn_the_dead(&mut world, &dead);
    assert!(world.get(rock).is_none());
    assert!(world.get(bystander).is_some());
    assert!(world.get(shot).is_some());
}

#[test]
fn bullet_hitting_wall_disappears_after_delay() {
    let mut world = World::new();
    let wall = world.spawn(Components { static_wall: true, ..empty() });
    let shot = world.spawn(bullet(10));
    despawn_bullet_on_collision(&mut world, &vec![CollisionEvent { subject: wall, object: shot }]);
    assert!(world.get(shot).is_some());
    world.advance(DESPAWN_DELAY - 1);
    assert!(world.get(shot).is_some());
    world.advance(1);
    assert!(world.get(shot).is_none());
    assert!(world.get(wall).is_some());
}

#[test]
fn frame_countdown_removes_after_frames() {
    let mut world = World::new();
    let e = world.spawn(Components { auto_despawn: Some(AutoDespawn::Frames(1)), ..empty() });
    world.advance(0);
    assert_eq!(world.get(e).unwrap().auto_despawn, Some(AutoDespawn::Frames(0)));
    world.advance(0);
    assert!(world.get(e).is_none());
}

#[test]
fn one_shot_trigger_is_removed_at_once() {
    let mut world = World::new();
    let ship = world.spawn(empty());
    let once = world.spawn(Components {
        trigger: Some(TutorialTrigger::SimplyForward),
        single_trigger: true,
        ..empty()
    });
    let repeat = world.spawn(Components { trigger: Some(TutorialTrigger::TurnedRight), ..empty() });
    let events = vec![
        CollisionEvent { subject: ship, object: once },
        CollisionEvent { subject: ship, object: repeat },
    ];
    remove_after_collision(&mut world, &events);
    assert!(world.get(once).is_none());
    assert!(world.get(repeat).is_some());
    remove_after_collision(&mut world, &events);
    assert!(world.get(repeat).is_some());
}

#[test]
fn spawned_ids_are_fresh() {
    let mut world: World<TutorialTrigger> = World::new();
    let a = world.spawn(empty());
    world.despawn(a);
    assert!(world.can_spawn());
    let b = world.spawn(empty());
    assert_ne!(a, b);
    assert!(world.get(a).is_none());
}
