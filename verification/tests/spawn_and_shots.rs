use lastconvoy::config::{enemy_kind_named, orb_type_named, parse_debug_enemy, parse_debug_orb};
use lastconvoy::elite::EliteVariant;
use lastconvoy::enemy::EnemyKind;
use lastconvoy::orb::OrbType;
use lastconvoy::projectile::{ProjectileSource, ShotHits};
use lastconvoy::spawn::{advance_spawn_cursor, inject_kind, roll_inject_kind, step_spawn_cursor, IntroStage};

#[test]
fn inject_kind_follows_intro_stage() {
    assert_eq!(inject_kind(None, IntroStage::Opening, 2), EnemyKind::Small);
    assert_eq!(inject_kind(None, IntroStage::Medium, 1), EnemyKind::Medium);
    assert_eq!(inject_kind(None, IntroStage::Heavy, 0), EnemyKind::Medium);
    assert_eq!(inject_kind(None, IntroStage::Heavy, 1), EnemyKind::Heavy);
    assert_eq!(inject_kind(None, IntroStage::Large, 2), EnemyKind::Large);
    assert_eq!(inject_kind(Some(EnemyKind::Heavy), IntroStage::Opening, 0), EnemyKind::Heavy);
}

#[test]
fn rolled_inject_kind_is_introduced() {
    for _ in 0..100 {
        let k = roll_inject_kind(None, IntroStage::Heavy);
        assert!(k == EnemyKind::Medium || k == EnemyKind::Heavy);
    }
    assert_eq!(roll_inject_kind(None, IntroStage::Opening), EnemyKind::Small);
}

#[test]
fn spawn_cursor_wraps() {
    assert_eq!(step_spawn_cursor(10, 2), 1);
    assert_eq!(step_spawn_cursor(3, 1), 4);
    for _ in 0..50 {
        let c = advance_spawn_cursor(10);
        assert!(c == 0 || c == 1);
    }
}

#[test]
fn debug_names_parse_case_insensitively() {
    assert_eq!(parse_debug_orb(Some("FireRate")), Some(OrbType::FireRate));
    assert_eq!(parse_debug_orb(Some("DRONEREMOTE")), Some(OrbType::DroneRemote));
    assert_eq!(parse_debug_orb(Some("laser")), None);
    assert_eq!(parse_debug_orb(None), None);
    assert_eq!(parse_debug_enemy(Some("Heavy")), Some(EnemyKind::Heavy));
    assert_eq!(parse_debug_enemy(Some("elite")), None);
    assert_eq!(orb_type_named("stagger"), Some(OrbType::Stagger));
    assert_eq!(orb_type_named("Stagger"), None);
    assert_eq!(enemy_kind_named("large"), Some(EnemyKind::Large));
}

#[test]
fn shot_stops_after_pierce_runs_out() {
    let mut s = ShotHits::new(1);
    assert!(!s.has_hit(5));
    s.record_hit(5);
    assert!(s.alive);
    assert_eq!(s.pierce_remaining, 0);
    assert!(s.has_hit(5));
    s.record_hit(6);
    assert!(!s.alive);
    assert_eq!(s.hit_enemies, vec![5, 6]);
}

#[test]
fn shot_without_pierce_stops_on_first_hit() {
    let mut s = ShotHits::new(0);
    s.record_hit(1);
    assert!(!s.alive);
    let mut t = ShotHits::new(3);
    t.stop();
    assert!(!t.alive);
    assert_ne!(ProjectileSource::Player, ProjectileSource::Drone);
    assert_ne!(EliteVariant::Solo, EliteVariant::WithSupport);
}
