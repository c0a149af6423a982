use drone_arena::health::Health;
use drone_arena::math::{isqrt64, lerp_toward, ring_point, step_position, Vec2i};
use drone_arena::physics::circles_overlap;
use drone_arena::resources::{blink_visible, standard_drop_table, ResourceType};
use drone_arena::timer::Timer;
use drone_arena::weapon::{spread_offsets_millideg, FirePattern, ProjectileConfig, Weapon, WeaponType};

#[test]
fn damage_saturates_at_zero() {
    let mut h = Health::new(10);
    let died = h.apply_damage(15);
    assert_eq!(h.current, 0);
    assert_eq!(h.max, 10);
    assert!(died);
}

#[test]
fn damage_subtracts_exactly() {
    let mut h = Health::new(10);
    let died = h.apply_damage(3);
    assert_eq!(h.current, 7);
    assert!(!died);
    let died2 = h.apply_damage(7);
    assert_eq!(h.current, 0);
    assert!(died2);
}

#[test]
fn drained_health_reports_no_second_death() {
    let mut h = Health::new(5);
    assert!(h.apply_damage(9999));
    assert!(!h.apply_damage(1));
    assert!(!h.apply_damage(9999));
    assert_eq!(h.current, 0);
}

#[test]
fn touching_circles_do_not_collide() {
    // Centers exactly radius_a + radius_b apart: no collision.
    let a = Vec2i { x: 0, y: 0 };
    let b = Vec2i { x: 5, y: 0 };
    assert!(!circles_overlap(a, 3, b, 2));
    // One unit closer: collision.
    let c = Vec2i { x: 4, y: 0 };
    assert!(circles_overlap(a, 3, c, 2));
}

#[test]
fn overlap_uses_euclidean_distance() {
    let a = Vec2i { x: 0, y: 0 };
    let b = Vec2i { x: 3, y: 4 };
    assert!(!circles_overlap(a, 2, b, 3));
    assert!(circles_overlap(a, 3, b, 3));
}

#[test]
fn blink_parity_at_the_spec_points() {
    // At 10.0 s remaining the drop is visible; at 9.9 s it is hidden.
    assert!(blink_visible(10000));
    assert!(!blink_visible(9900));
    assert!(!blink_visible(9999));
    assert!(blink_visible(9600));
    assert!(!blink_visible(200));
    assert!(blink_visible(199));
}

#[test]
fn repeating_timer_wraps() {
    let mut t = Timer::new(300, true);
    assert!(!t.tick(200));
    assert!(t.tick(200));
    assert_eq!(t.elapsed_ms, 100);
    assert!(!t.tick(100));
    assert!(t.tick(100));
    assert_eq!(t.elapsed_ms, 0);
}

#[test]
fn one_shot_timer_saturates() {
    let mut t = Timer::new(2000, false);
    assert!(!t.tick(1999));
    assert!(t.tick(1));
    assert!(t.is_finished());
    assert!(!t.tick(500));
    assert_eq!(t.elapsed_ms, 2000);
}

#[test]
fn integer_square_root_brackets() {
    assert_eq!(isqrt64(0), 0);
    assert_eq!(isqrt64(1), 1);
    assert_eq!(isqrt64(2), 1);
    assert_eq!(isqrt64(4), 2);
    assert_eq!(isqrt64(15), 3);
    assert_eq!(isqrt64(16), 4);
    assert_eq!(isqrt64(1000000), 1000);
}

#[test]
fn lerp_moves_a_fixed_fraction() {
    assert_eq!(lerp_toward(0, 1000, 100), 100);
    assert_eq!(lerp_toward(1000, 0, 100), 900);
    assert_eq!(lerp_toward(-100, 100, 500), 0);
    assert_eq!(lerp_toward(7, 7, 250), 7);
    assert_eq!(lerp_toward(0, 5, 1000), 5);
}

#[test]
fn shotgun_spread_offsets_are_even() {
    // 4 shots over 30 degrees: -15000, -5000, 5000, 15000 millidegrees.
    let offs = spread_offsets_millideg(4, 30);
    assert_eq!(offs, vec![-15000, -5000, 5000, 15000]);
    // A single shot sits half the fan left of center, as the formula says.
    let one = spread_offsets_millideg(1, 30);
    assert_eq!(one, vec![-15000]);
}

#[test]
fn weapon_presets() {
    assert_eq!(WeaponType::Pistol.name(), "Pistol");
    assert_eq!(WeaponType::Shotgun.name(), "Shotgun");
    assert_eq!(WeaponType::Pistol.glyph(), "P");
    assert_eq!(WeaponType::Shotgun.glyph(), "S");
    assert_eq!(WeaponType::Pistol.fire_cooldown_ms(), 300);
    assert_eq!(WeaponType::Shotgun.fire_cooldown_ms(), 600);
    assert_eq!(WeaponType::Pistol.fire_pattern(), FirePattern::Single);
    assert_eq!(
        WeaponType::Shotgun.fire_pattern(),
        FirePattern::Spread { count: 4, angle_deg: 30 }
    );
    let pistol = Weapon::from_type(WeaponType::Pistol);
    assert_eq!(pistol.config.speed, 1000);
    assert_eq!(pistol.config.damage, 1);
    let pellet = WeaponType::Shotgun.projectile_config();
    assert_eq!(pellet.speed, 700);
    assert_eq!(pellet.projectile_shape, "o");
    let enemy = ProjectileConfig::enemy_bullet();
    assert_eq!(enemy.speed, 400);
}

#[test]
fn resource_presets() {
    assert_eq!(ResourceType::ScrapMetal.name(), "Scrap Metal");
    assert_eq!(ResourceType::Circuitry.name(), "Circuitry");
    assert_eq!(ResourceType::DroneWeaponParts.name(), "Drone Weapon Parts");
    assert_eq!(ResourceType::ScrapMetal.glyph(), "#");
    assert_eq!(ResourceType::Circuitry.glyph(), "&");
    assert_eq!(ResourceType::DroneWeaponParts.glyph(), "%");
    let t = standard_drop_table();
    assert_eq!(t.entries.len(), 2);
    assert_eq!(t.entries[0].drops.len(), 1);
    assert_eq!(t.entries[1].drops.len(), 2);
}

#[test]
fn movement_steps_scale_with_speed_and_time() {
    // Speed 100 along the x axis for one second moves 100 units.
    let p = step_position(
        Vec2i { x: 0, y: 0 },
        Vec2i { x: 1000, y: 0 },
        100,
        1000,
    );
    assert_eq!(p, Vec2i { x: 100, y: 0 });
    // A zero direction stands still.
    let q = step_position(Vec2i { x: 7, y: -3 }, Vec2i { x: 0, y: 0 }, 100, 1000);
    assert_eq!(q, Vec2i { x: 7, y: -3 });
}

#[test]
fn ring_points_lie_on_the_square_ring() {
    let c = Vec2i { x: 0, y: 0 };
    for k in 0..8 {
        let p = ring_point(c, k, 8, 400);
        let cheb = p.x.abs().max(p.y.abs());
        assert_eq!(cheb, 400);
    }
    // Distinct indexes give distinct spawn points here.
    let p0 = ring_point(c, 0, 3, 400);
    let p1 = ring_point(c, 1, 3, 400);
    let p2 = ring_point(c, 2, 3, 400);
    assert_ne!(p0, p1);
    assert_ne!(p1, p2);
    assert_ne!(p0, p2);
}
