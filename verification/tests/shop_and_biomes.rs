use lastconvoy::biome::{advance_biome, biome_drone_cap, biome_ordinal, biome_shield_cap, Biome, BiomeProgress};
use lastconvoy::save::SaveData;
use lastconvoy::shield::ShieldSystem;
use lastconvoy::upgrade_catalog::{effect_index, grant_starting_shields, step_cursor, try_purchase, EffectType};

#[test]
fn purchase_deducts_cost_and_raises_level() {
    let mut save = SaveData::default();
    save.meta_points = 10;
    let costs = vec![3, 5];
    assert!(try_purchase(&mut save, "starting_shields", 2, &costs));
    assert_eq!(save.meta_points, 7);
    assert_eq!(save.permanent_upgrades.get_level("starting_shields"), 1);
    assert!(try_purchase(&mut save, "starting_shields", 2, &costs));
    assert_eq!(save.meta_points, 2);
    assert_eq!(save.permanent_upgrades.get_level("starting_shields"), 2);
    // Maxed out.
    assert!(!try_purchase(&mut save, "starting_shields", 2, &costs));
    assert_eq!(save.meta_points, 2);
}

#[test]
fn purchase_refused_without_points() {
    let mut save = SaveData::default();
    save.meta_points = 2;
    assert!(!try_purchase(&mut save, "starting_drones", 1, &vec![3]));
    assert_eq!(save.meta_points, 2);
    assert_eq!(save.permanent_upgrades.get_level("starting_drones"), 0);
}

#[test]
fn cursor_wraps_both_ways() {
    assert_eq!(step_cursor(0, 6, true), 1);
    assert_eq!(step_cursor(5, 6, true), 0);
    assert_eq!(step_cursor(0, 6, false), 5);
    assert_eq!(step_cursor(3, 6, false), 2);
}

#[test]
fn effect_index_clamps_to_table() {
    assert_eq!(effect_index(1, 3), 0);
    assert_eq!(effect_index(3, 3), 2);
    assert_eq!(effect_index(7, 3), 2);
    assert_ne!(EffectType::StartingShields, EffectType::StartingDrones);
}

#[test]
fn starting_shields_respect_biome_cap() {
    let mut s = ShieldSystem::new(0);
    grant_starting_shields(&mut s, 3, biome_shield_cap(Biome::InfectedAtmosphere, 0));
    assert_eq!(s.count(), 1);
    let mut s = ShieldSystem::new(1);
    grant_starting_shields(&mut s, 5, 3);
    assert_eq!(s.count(), 3);
    let mut s = ShieldSystem::new(2);
    grant_starting_shields(&mut s, 1, 1);
    assert_eq!(s.count(), 2);
}

#[test]
fn biome_caps() {
    assert_eq!(biome_shield_cap(Biome::InfectedAtmosphere, 0), 1);
    assert_eq!(biome_shield_cap(Biome::LowOrbit, 0), 2);
    assert_eq!(biome_shield_cap(Biome::OuterSystem, 0), 3);
    assert_eq!(biome_shield_cap(Biome::InfectedAtmosphere, 1), 2);
    assert_eq!(biome_shield_cap(Biome::LowOrbit, 7), 3);
    assert_eq!(biome_drone_cap(Biome::InfectedAtmosphere), 0);
    assert_eq!(biome_drone_cap(Biome::LowOrbit), 1);
    assert_eq!(biome_drone_cap(Biome::DeepSpace), 2);
}

#[test]
fn biomes_loop_in_order() {
    assert_eq!(biome_ordinal(Biome::OuterSystem), 3);
    assert_eq!(Biome::DeepSpace.next(), None);
    assert_eq!(advance_biome(Biome::InfectedAtmosphere), (Biome::LowOrbit, false));
    assert_eq!(advance_biome(Biome::DeepSpace), (Biome::InfectedAtmosphere, true));
    let mut b = Biome::LowOrbit;
    for _ in 0..4 {
        b = advance_biome(b).0;
    }
    assert_eq!(b, Biome::LowOrbit);
}

#[test]
fn progress_tracks_furthest_and_loops() {
    let mut p = BiomeProgress::new(Biome::InfectedAtmosphere);
    assert_eq!(p.furthest, 1);
    p.boss_active = true;
    p.advance();
    assert!(!p.boss_active);
    assert_eq!((p.current, p.furthest, p.loop_count), (Biome::LowOrbit, 2, 0));
    p.advance();
    p.advance();
    assert_eq!((p.current, p.furthest), (Biome::DeepSpace, 4));
    p.advance();
    assert_eq!((p.current, p.furthest, p.loop_count), (Biome::InfectedAtmosphere, 4, 1));
}
