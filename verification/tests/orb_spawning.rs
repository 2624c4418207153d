use lastconvoy::orb::{
    collect_orb, orb_pool, pick_weighted, plan_orb_spawn, pool_total, roll_orb_type, single_orb_lane,
    OrbPhase, OrbPoolGates, OrbType, PickupTag, UpgradeLane,
};
use lastconvoy::shield::ShieldSystem;

fn gates() -> OrbPoolGates {
    OrbPoolGates {
        burst_buff_active: false,
        damage_buff_active: false,
        fire_rate_buff_active: false,
        pierce_buff_active: false,
        stagger_buff_active: false,
        shield_count: 0,
        has_explosive: false,
        drone_count: 0,
        forced: None,
    }
}

#[test]
fn full_pool_in_roll_order() {
    let pool = orb_pool(&gates());
    assert_eq!(
        pool,
        vec![
            (OrbType::Burst, 1),
            (OrbType::Damage, 1),
            (OrbType::Shield, 1),
            (OrbType::Drone, 2),
            (OrbType::DroneRemote, 1),
            (OrbType::FireRate, 1),
            (OrbType::Pierce, 1),
            (OrbType::Stagger, 1),
            (OrbType::Explosive, 1),
        ]
    );
    assert_eq!(pool_total(&pool), 10);
}

#[test]
fn active_buffs_and_caps_gate_the_pool() {
    let mut g = gates();
    g.burst_buff_active = true;
    g.damage_buff_active = true;
    g.fire_rate_buff_active = true;
    g.pierce_buff_active = true;
    g.stagger_buff_active = true;
    g.shield_count = 3;
    g.has_explosive = true;
    g.drone_count = 1;
    assert_eq!(orb_pool(&g), vec![(OrbType::Drone, 1), (OrbType::DroneRemote, 1)]);
    g.drone_count = 2;
    assert_eq!(orb_pool(&g), vec![(OrbType::DroneRemote, 1)]);
}

#[test]
fn forced_type_replaces_pool() {
    let mut g = gates();
    g.forced = Some(OrbType::Pierce);
    g.pierce_buff_active = true;
    assert_eq!(orb_pool(&g), vec![(OrbType::Pierce, 1)]);
}

#[test]
fn weighted_pick_walks_cumulative_weights() {
    let pool = vec![(OrbType::Burst, 1), (OrbType::Drone, 2), (OrbType::Shield, 1)];
    assert_eq!(pick_weighted(&pool, 0), OrbType::Burst);
    assert_eq!(pick_weighted(&pool, 1), OrbType::Drone);
    assert_eq!(pick_weighted(&pool, 2), OrbType::Drone);
    assert_eq!(pick_weighted(&pool, 3), OrbType::Shield);
    // Past the end the first entry is used.
    assert_eq!(pick_weighted(&pool, 9), OrbType::Burst);
}

#[test]
fn rolled_type_comes_from_pool() {
    let pool = vec![(OrbType::Stagger, 0), (OrbType::Pierce, 3)];
    for _ in 0..50 {
        assert_eq!(roll_orb_type(&pool), OrbType::Pierce);
    }
}

#[test]
fn single_orb_goes_to_emptier_lane() {
    assert_eq!(single_orb_lane(0, 1, 1), UpgradeLane::Top);
    assert_eq!(single_orb_lane(1, 0, 0), UpgradeLane::Bottom);
    assert_eq!(single_orb_lane(1, 1, 0), UpgradeLane::Top);
    assert_eq!(single_orb_lane(1, 1, 1), UpgradeLane::Bottom);
}

#[test]
fn spawn_plan_respects_cap() {
    let g = gates();
    assert!(plan_orb_spawn(&g, 2, 2, 1, 1).is_empty());
    let both = plan_orb_spawn(&g, 2, 0, 0, 0);
    assert_eq!(both.len(), 2);
    assert_eq!(both[0].0, UpgradeLane::Top);
    assert_eq!(both[1].0, UpgradeLane::Bottom);
    let one = plan_orb_spawn(&g, 2, 1, 1, 0);
    assert_eq!(one.len(), 1);
    assert_eq!(one[0].0, UpgradeLane::Bottom);
}

#[test]
fn spawn_plan_types_respect_gates() {
    let mut g = gates();
    g.burst_buff_active = true;
    g.shield_count = 3;
    for _ in 0..100 {
        for (_, t) in plan_orb_spawn(&g, 2, 0, 0, 0) {
            assert_ne!(t, OrbType::Burst);
            assert_ne!(t, OrbType::Shield);
        }
    }
}

#[test]
fn pickup_tags_and_texts() {
    let mut s = ShieldSystem::new(0);
    assert_eq!(collect_orb(&mut s, 0, OrbType::Damage), Some(PickupTag::Damage));
    assert_eq!(collect_orb(&mut s, 0, OrbType::FireRate), Some(PickupTag::Rate));
    assert_eq!(collect_orb(&mut s, 0, OrbType::DroneRemote), Some(PickupTag::Remote));
    assert_eq!(s.count(), 0);
    assert_eq!(PickupTag::Damage.text(), "+DMG");
    assert_eq!(PickupTag::Explosive.text(), "+EXPLOSIVE");
    assert_eq!(PickupTag::Remote.text(), "+REMOTE");
    assert_ne!(OrbPhase::Inactive, OrbPhase::Active);
}

#[test]
fn shield_pickup_tag_only_when_shield_grows() {
    let mut s = ShieldSystem::new(2);
    assert_eq!(collect_orb(&mut s, 0, OrbType::Shield), Some(PickupTag::Shield));
    assert_eq!(s.count(), 3);
    assert_eq!(collect_orb(&mut s, 0, OrbType::Shield), None);
    assert_eq!(s.count(), 3);
}

#[test]
fn explosive_pickup_tags() {
    let mut s = ShieldSystem::new(0);
    assert_eq!(collect_orb(&mut s, 0, OrbType::Explosive), Some(PickupTag::Explosive));
    assert_eq!(collect_orb(&mut s, 0, OrbType::Explosive), Some(PickupTag::Shield));
    assert_eq!(collect_orb(&mut s, 0, OrbType::Explosive), Some(PickupTag::Shield));
    assert_eq!(collect_orb(&mut s, 0, OrbType::Explosive), None);
    assert_eq!(s.count(), 3);
}

#[test]
fn drone_pickup_needs_free_slot() {
    let mut s = ShieldSystem::new(0);
    assert_eq!(collect_orb(&mut s, 1, OrbType::Drone), Some(PickupTag::Drone));
    assert_eq!(collect_orb(&mut s, 2, OrbType::Drone), None);
}
