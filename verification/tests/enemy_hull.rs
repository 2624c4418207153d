use lastconvoy::enemy::{explosion_pushes_back, mark_staggered, stagger_eligible, EnemyKind, EnemyState, Hull};

#[test]
fn hull_starts_at_full_health() {
    let h = Hull::new(4);
    assert_eq!((h.hp, h.max_hp, h.shield_hp, h.shots_taken, h.damage_taken), (4, 4, 0, 0, 0));
    assert!(!h.shielded && !h.stagger_immune && !h.is_dead());
    assert_ne!(EnemyState::Moving, EnemyState::Breaching);
}

#[test]
fn damage_lowers_hp_and_counts_hits() {
    let mut h = Hull::new(4);
    h.take_damage(1);
    h.take_damage(2);
    assert_eq!(h.hp, 1);
    assert_eq!(h.shots_taken, 2);
    assert_eq!(h.damage_taken, 3);
    assert!(!h.is_dead());
    h.take_damage(1);
    assert!(h.is_dead());
}

#[test]
fn shield_layer_breaks_first() {
    let mut h = Hull::new(2);
    h.shielded = true;
    h.shield_hp = 1;
    h.take_damage(1);
    assert_eq!(h.hp, 2);
    assert_eq!(h.shield_hp, 0);
    assert!(!h.shielded);
    h.take_damage(1);
    assert_eq!(h.hp, 1);
}

#[test]
fn overkill_on_shield_does_not_spill_into_hp() {
    let mut h = Hull::new(3);
    h.shielded = true;
    h.shield_hp = 1;
    h.take_damage(5);
    assert_eq!(h.hp, 3);
    assert_eq!(h.shield_hp, -4);
    assert!(!h.shielded);
}

#[test]
fn stagger_applies_to_small_medium_heavy_only() {
    let h = Hull::new(10);
    assert!(stagger_eligible(EnemyKind::Small, &h, true, 1));
    assert!(stagger_eligible(EnemyKind::Medium, &h, true, 1));
    assert!(stagger_eligible(EnemyKind::Heavy, &h, true, 1));
    assert!(!stagger_eligible(EnemyKind::Large, &h, true, 1));
    assert!(!stagger_eligible(EnemyKind::Elite, &h, true, 1));
    assert!(!stagger_eligible(EnemyKind::Medium, &h, false, 1));
}

#[test]
fn nearly_dead_small_is_not_staggered() {
    let h = Hull::new(3);
    assert!(!stagger_eligible(EnemyKind::Small, &h, true, 1));
    let h = Hull::new(4);
    assert!(stagger_eligible(EnemyKind::Small, &h, true, 1));
    let dead = Hull::new(0);
    assert!(!stagger_eligible(EnemyKind::Heavy, &dead, true, 1));
}

#[test]
fn stagger_happens_once() {
    let mut h = Hull::new(10);
    assert!(mark_staggered(&mut h));
    assert!(!mark_staggered(&mut h));
    assert!(!stagger_eligible(EnemyKind::Medium, &h, true, 1));
}

#[test]
fn explosion_pushes_large_and_elite_back() {
    assert!(!explosion_pushes_back(EnemyKind::Large));
    assert!(explosion_pushes_back(EnemyKind::Elite));
    assert!(!explosion_pushes_back(EnemyKind::Small));
    assert!(!explosion_pushes_back(EnemyKind::Medium));
    assert!(!explosion_pushes_back(EnemyKind::Heavy));
}
