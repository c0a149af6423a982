use drone_arena::components::Owner;
use drone_arena::drone::DroneConfig;
use drone_arena::game_state::GameState;
use drone_arena::math::Vec2i;
use drone_arena::resources::{standard_drop_table, ResourceType};
use drone_arena::weapon::ProjectileConfig;
use drone_arena::world::{blank_ent, World};

fn p(x: i64, y: i64) -> Vec2i {
    Vec2i { x, y }
}

#[test]
fn exploding_chaser_hits_once() {
    // One chaser (health 10, hitbox 30) ten units from the player
    // (hitbox 10): they overlap. One contact tick deals exactly 5 to the
    // player, marks the chaser dead, and a second tick adds nothing.
    let mut w = World::new();
    let player = w.spawn_player(p(0, 0));
    let chaser = w.spawn_drone(&DroneConfig::chaser(), p(10, 0), player);
    let events = w.enemy_collides_with_player();
    assert_eq!(events.len(), 2);
    assert_eq!(events[0].target, player);
    assert_eq!(events[0].amount, 5);
    assert_eq!(events[1].target, chaser);
    assert_eq!(events[1].amount, 9999);
    assert!(w.ents[chaser].dead);

    let deaths = w.apply_damage(&events);
    assert_eq!(w.ents[player].health.unwrap().current, 5);
    assert_eq!(w.ents[chaser].health.unwrap().current, 0);
    assert_eq!(deaths.len(), 1);
    assert_eq!(deaths[0].entity, chaser);

    let mut state = GameState::Playing;
    let table = standard_drop_table();
    let before = w.ents.len();
    w.apply_death(&mut state, &table, player, &deaths);
    assert_eq!(state, GameState::Playing);
    assert!(!w.ents[chaser].alive);
    // A chaser drops one or two scrap.
    let dropped = w.ents.len() - before;
    assert!(dropped == 1 || dropped == 2);
    for k in before..w.ents.len() {
        assert_eq!(w.ents[k].resource_drop, Some(ResourceType::ScrapMetal));
    }

    // The dead marker and the despawn keep a later tick from re-applying
    // the contact damage.
    let again = w.enemy_collides_with_player();
    assert_eq!(again.len(), 0);
    let deaths2 = w.apply_damage(&again);
    assert_eq!(deaths2.len(), 0);
    assert_eq!(w.ents[player].health.unwrap().current, 5);
}

#[test]
fn projectile_credits_only_the_first_enemy() {
    // A player projectile overlapping two enemies damages exactly the
    // first enumerated one and despawns once.
    let mut w = World::new();
    let player = w.spawn_player(p(-500, -500));
    let e1 = w.spawn_drone(&DroneConfig::chaser(), p(0, 0), player);
    let e2 = w.spawn_drone(&DroneConfig::chaser(), p(40, 0), player);
    let proj = w.spawn_player_projectile(
        p(20, 0),
        p(1000, 0),
        &ProjectileConfig::player_bullet(),
    );
    let events = w.player_projectile_hits_enemy();
    assert_eq!(events.len(), 1);
    assert_eq!(events[0].target, e1);
    assert_eq!(events[0].amount, 1);
    assert!(!w.ents[proj].alive);
    assert!(w.ents[e1].alive);
    assert!(w.ents[e2].alive);
}

#[test]
fn enemy_projectile_hits_the_player() {
    let mut w = World::new();
    let player = w.spawn_player(p(0, 0));
    let proj = w.spawn_enemy_projectile(
        p(5, 0),
        p(-1000, 0),
        &ProjectileConfig::enemy_bullet(),
    );
    let events = w.enemy_projectile_hits_player();
    assert_eq!(events.len(), 1);
    assert_eq!(events[0].target, player);
    assert_eq!(events[0].amount, 1);
    assert!(!w.ents[proj].alive);
    assert_eq!(w.ents[proj].projectile.unwrap().owner, Owner::EnemyOwned);
}

#[test]
fn pickup_is_collected_exactly_once() {
    // Two collectors in range of one drop: detection emits two events, the
    // first apply wins, and the despawn hides the drop from the second.
    let mut w = World::new();
    let a = w.spawn_player(p(0, 0));
    let b = w.spawn_player(p(10, 0));
    let mut drop = blank_ent(p(5, 0));
    drop.resource_drop = Some(ResourceType::Circuitry);
    let r = w.spawn(drop);
    let events = w.detect_resource_pickup();
    assert_eq!(events.len(), 2);
    assert_eq!(events[0].collector, a);
    assert_eq!(events[0].resource_entity, r);
    assert_eq!(events[1].collector, b);
    w.handle_pickup(&events);
    assert!(!w.ents[r].alive);
    assert_eq!(w.ents[a].inventory.as_ref().unwrap().circuitry, 1);
    assert_eq!(w.ents[b].inventory.as_ref().unwrap().circuitry, 0);
}

#[test]
fn pickup_needs_proximity() {
    let mut w = World::new();
    let _a = w.spawn_player(p(0, 0));
    let mut drop = blank_ent(p(21, 0));
    drop.resource_drop = Some(ResourceType::ScrapMetal);
    w.spawn(drop);
    // 21 units is out of range; exactly 20 is in range (ties included).
    assert_eq!(w.detect_resource_pickup().len(), 0);
    let mut drop2 = blank_ent(p(0, 20));
    drop2.resource_drop = Some(ResourceType::ScrapMetal);
    w.spawn(drop2);
    assert_eq!(w.detect_resource_pickup().len(), 1);
}

#[test]
fn scattered_drops_stay_near_their_source() {
    let mut w = World::new();
    let player = w.spawn_player(p(0, 0));
    for _ in 0..100 {
        let before = w.ents.len();
        w.spawn_resource(ResourceType::ScrapMetal, p(1000, 2000), player);
        let e = &w.ents[before];
        assert!((e.pos.x - 1000).abs() <= 20);
        assert!((e.pos.y - 2000).abs() <= 20);
        assert_eq!(e.magnetized_to.unwrap().target, player);
        assert_eq!(e.magnetized_to.unwrap().range, 200);
        assert_eq!(e.resource_life.unwrap().duration_ms, 30000);
    }
}

#[test]
fn dead_player_ends_the_game() {
    let mut w = World::new();
    let player = w.spawn_player(p(0, 0));
    let mut events = Vec::new();
    events.push(drone_arena::components::DamageEvent { target: player, amount: 10 });
    let deaths = w.apply_damage(&events);
    assert_eq!(deaths.len(), 1);
    let mut state = GameState::Playing;
    let table = standard_drop_table();
    w.apply_death(&mut state, &table, player, &deaths);
    assert_eq!(state, GameState::GameOver);
    assert!(!w.ents[player].alive);
}
