use drone_arena::crafting::{
    all_recipes, beacon_recipe, shotgun_recipe, try_craft, CraftResult,
};
use drone_arena::game::{Game, TickInput};
use drone_arena::game_state::{toggle_crafting, toggle_pause, toggle_restart, GameState, InGame, WavePhase};
use drone_arena::inventory::{
    add_resource, add_weapon, has_resources, remove_resource, resource_count, weapon_at_slot,
    Inventory,
};
use drone_arena::math::Vec2i;
use drone_arena::player::MoveInput;
use drone_arena::resources::{roll_drop_counts, ResourceRange, ResourceType};
use drone_arena::wave::{check_wave_clear, countdown_system, spawn_system, WaveDefinitions, WaveState};
use drone_arena::weapon::WeaponType;
use drone_arena::world::World;

fn p(x: i64, y: i64) -> Vec2i {
    Vec2i { x, y }
}

#[test]
fn three_interval_ticks_spawn_three_drones() {
    // Wave with 3 drones, spawn interval 0.3 s: after 3 full interval
    // ticks with a live player, exactly 3 enemies exist and the phase has
    // moved to in-progress — on the same tick that released the last drone.
    let mut w = World::new();
    w.spawn_player(p(0, 0));
    let mut ws = WaveState::default();
    let defs = WaveDefinitions::default();
    for expected in 1..=3usize {
        let next = spawn_system(&mut w, &mut ws, &defs, 300);
        if expected < 3 {
            assert_eq!(next, None);
        } else {
            assert_eq!(next, Some(WavePhase::InProgress));
        }
        assert_eq!(ws.spawn_index, expected);
        assert_eq!(w.alive_enemy_count(), expected);
    }
    assert_eq!(ws.spawn_index, 3);
    assert_eq!(w.alive_enemy_count(), 3);
}

#[test]
fn spawning_waits_for_a_player() {
    let mut w = World::new();
    let mut ws = WaveState::default();
    let defs = WaveDefinitions::default();
    let next = spawn_system(&mut w, &mut ws, &defs, 300);
    assert_eq!(next, None);
    assert_eq!(ws.spawn_index, 0);
    assert_eq!(w.ents.len(), 0);
}

#[test]
fn short_ticks_do_not_spawn() {
    let mut w = World::new();
    w.spawn_player(p(0, 0));
    let mut ws = WaveState::default();
    let defs = WaveDefinitions::default();
    let next = spawn_system(&mut w, &mut ws, &defs, 299);
    assert_eq!(next, None);
    assert_eq!(ws.spawn_index, 0);
    assert_eq!(w.alive_enemy_count(), 0);
}

#[test]
fn countdown_releases_the_wave() {
    let mut ws = WaveState::default();
    assert_eq!(countdown_system(&mut ws, 1999), None);
    assert_eq!(countdown_system(&mut ws, 1), Some(WavePhase::Spawning));
}

#[test]
fn cleared_waves_advance_to_victory() {
    let w = World::new();
    let mut ws = WaveState::default();
    let defs = WaveDefinitions::default();
    let r = check_wave_clear(&w, &mut ws, &defs);
    assert_eq!(ws.wave_number, 1);
    assert_eq!(ws.spawn_index, 0);
    assert_eq!(r, (Some(WavePhase::Countdown), None));
    let r2 = check_wave_clear(&w, &mut ws, &defs);
    assert_eq!(ws.wave_number, 2);
    assert_eq!(r2, (Some(WavePhase::Complete), Some(GameState::Victory)));
}

#[test]
fn drop_counts_stay_in_their_bounds() {
    let ranges = vec![
        ResourceRange { resource: ResourceType::ScrapMetal, min: 1, max: 2 },
        ResourceRange { resource: ResourceType::DroneWeaponParts, min: 0, max: 1 },
    ];
    for _ in 0..300 {
        let rolled = roll_drop_counts(&ranges);
        assert_eq!(rolled.len(), 2);
        assert_eq!(rolled[0].0, ResourceType::ScrapMetal);
        assert!(rolled[0].1 == 1 || rolled[0].1 == 2);
        assert_eq!(rolled[1].0, ResourceType::DroneWeaponParts);
        assert!(rolled[1].1 <= 1);
    }
}

#[test]
fn crafting_the_shotgun_spends_and_grants() {
    // Inventory holding exactly one weapon part and two scrap: the craft
    // succeeds, both counts drop to zero, the shotgun lands in a slot, and
    // a second attempt fails for want of resources.
    let mut inv = Inventory::default();
    add_resource(&mut inv, ResourceType::DroneWeaponParts, 1);
    add_resource(&mut inv, ResourceType::ScrapMetal, 2);
    let recipe = shotgun_recipe();
    let r = try_craft(&mut inv, &recipe);
    assert_eq!(r, CraftResult::Success);
    assert_eq!(resource_count(&inv, ResourceType::DroneWeaponParts), 0);
    assert_eq!(resource_count(&inv, ResourceType::ScrapMetal), 0);
    assert_eq!(weapon_at_slot(&inv, 1), Some(WeaponType::Shotgun));
    let r2 = try_craft(&mut inv, &recipe);
    assert_eq!(r2, CraftResult::NotEnoughResources);
}

#[test]
fn owned_weapon_craft_still_spends() {
    // The recorded behavior: crafting a weapon already owned reports
    // already-owned, but the materials were deducted first.
    let mut inv = Inventory::default();
    add_weapon(&mut inv, WeaponType::Shotgun);
    add_resource(&mut inv, ResourceType::DroneWeaponParts, 1);
    add_resource(&mut inv, ResourceType::ScrapMetal, 2);
    let r = try_craft(&mut inv, &shotgun_recipe());
    assert_eq!(r, CraftResult::AlreadyOwned);
    assert_eq!(resource_count(&inv, ResourceType::DroneWeaponParts), 0);
    assert_eq!(resource_count(&inv, ResourceType::ScrapMetal), 0);
}

#[test]
fn beacon_needs_five_circuitry() {
    let mut inv = Inventory::default();
    add_resource(&mut inv, ResourceType::Circuitry, 4);
    add_resource(&mut inv, ResourceType::DroneWeaponParts, 3);
    assert_eq!(try_craft(&mut inv, &beacon_recipe()), CraftResult::NotEnoughResources);
    assert_eq!(resource_count(&inv, ResourceType::Circuitry), 4);
    add_resource(&mut inv, ResourceType::Circuitry, 1);
    assert_eq!(try_craft(&mut inv, &beacon_recipe()), CraftResult::Success);
    assert_eq!(resource_count(&inv, ResourceType::Circuitry), 0);
    assert_eq!(resource_count(&inv, ResourceType::DroneWeaponParts), 0);
}

#[test]
fn recipes_list_both_entries() {
    let rs = all_recipes();
    assert_eq!(rs.len(), 2);
    assert_eq!(rs[0].name, "Shotgun");
    assert_eq!(rs[1].name, "Extraction Beacon");
}

#[test]
fn inventory_ops() {
    let mut inv = Inventory::default();
    assert_eq!(weapon_at_slot(&inv, 0), Some(WeaponType::Pistol));
    assert_eq!(weapon_at_slot(&inv, 1), None);
    assert_eq!(weapon_at_slot(&inv, 7), None);
    // Duplicates are refused.
    assert_eq!(add_weapon(&mut inv, WeaponType::Pistol), None);
    assert_eq!(add_weapon(&mut inv, WeaponType::Shotgun), Some(1));
    // Removal clamps at zero; absent kinds count zero.
    remove_resource(&mut inv, ResourceType::ScrapMetal, 5);
    assert_eq!(resource_count(&inv, ResourceType::ScrapMetal), 0);
    add_resource(&mut inv, ResourceType::ScrapMetal, 3);
    remove_resource(&mut inv, ResourceType::ScrapMetal, 1);
    assert_eq!(resource_count(&inv, ResourceType::ScrapMetal), 2);
    let reqs = vec![(ResourceType::ScrapMetal, 2u32)];
    assert!(has_resources(&inv, &reqs));
    let reqs2 = vec![(ResourceType::ScrapMetal, 3u32)];
    assert!(!has_resources(&inv, &reqs2));
}

#[test]
fn state_toggles() {
    assert_eq!(toggle_pause(GameState::Playing), Some(GameState::Paused));
    assert_eq!(toggle_pause(GameState::Paused), Some(GameState::Playing));
    assert_eq!(toggle_pause(GameState::Victory), None);
    assert_eq!(toggle_crafting(GameState::Playing), Some(GameState::Crafting));
    assert_eq!(toggle_crafting(GameState::Crafting), Some(GameState::Playing));
    assert_eq!(toggle_crafting(GameState::GameOver), None);
    assert_eq!(toggle_restart(), GameState::Loading);
    assert_eq!(InGame::compute(GameState::Paused), Some(InGame::Yes));
    assert_eq!(InGame::compute(GameState::Loading), None);
}

#[test]
fn a_full_run_of_ticks_stays_sound() {
    let mut g = Game::new();
    g.state = GameState::Playing;
    g.world.spawn_player(p(0, 0));
    let input = TickInput {
        movement: MoveInput { left: false, right: true, up: false, down: false },
        trigger_held: false,
        aim_dirs: Vec::new(),
    };
    // Countdown (2 s), then a full wave spawns and fights.
    for _ in 0..400 {
        if g.state != GameState::Playing {
            break;
        }
        g.playing_tick(100, &input);
    }
    assert!(
        g.state == GameState::Playing
            || g.state == GameState::GameOver
            || g.state == GameState::Victory
    );
    // The wave machine left the countdown at some point.
    assert!(g.phase != WavePhase::Countdown || g.state != GameState::Playing);
}
