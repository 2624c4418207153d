use lastconvoy::save::{
    current_timestamp, migrate, push_run_history, record_run, OrbStats, PermanentUpgrades, RunRecord,
    SaveData, StoryProgress, MAX_RUN_HISTORY, SAVE_VERSION,
};

fn stats(n: u32) -> OrbStats {
    OrbStats {
        burst: n,
        damage: n + 1,
        shield: n + 2,
        drone: n + 3,
        drone_remote: n + 4,
        explosive: n + 5,
        fire_rate: n + 6,
        pierce: n + 7,
        stagger: n + 8,
    }
}

#[test]
fn orb_stats_add_fieldwise() {
    let mut a = stats(1);
    a.add(&stats(10));
    assert_eq!(
        (a.burst, a.damage, a.shield, a.drone, a.drone_remote, a.explosive, a.fire_rate, a.pierce, a.stagger),
        (11, 13, 15, 17, 19, 21, 23, 25, 27)
    );
    let z = OrbStats::default();
    assert_eq!(z.burst + z.stagger + z.pierce, 0);
}

#[test]
fn levels_default_to_zero_and_can_be_set() {
    let mut p = PermanentUpgrades::default();
    assert_eq!(p.get_level("starting_shields"), 0);
    p.set_level("starting_shields", 2);
    p.set_level("starting_drones", 1);
    assert_eq!(p.get_level("starting_shields"), 2);
    assert_eq!(p.get_level("starting_drones"), 1);
    p.set_level("starting_shields", 3);
    assert_eq!(p.get_level("starting_shields"), 3);
    assert_eq!(p.levels.len(), 2);
    assert_eq!(p.get_level("unknown"), 0);
}

#[test]
fn record_run_updates_totals_and_bests() {
    let mut save = SaveData::default();
    assert_eq!(save.version, SAVE_VERSION);
    let mut rec = RunRecord::default();
    rec.kills = 12;
    rec.breaches = 3;
    rec.loop_count = 1;
    rec.furthest_biome = 2;
    rec.orbs_collected = stats(0);
    record_run(&mut save, &rec);
    assert_eq!(save.total_runs, 1);
    assert_eq!(save.lifetime_kills, 12);
    assert_eq!(save.lifetime_breaches, 3);
    assert_eq!((save.best_kills, save.best_loop_count, save.best_biome_reached), (12, 1, 2));
    assert_eq!(save.lifetime_orbs_collected.stagger, 8);
    let mut worse = RunRecord::default();
    worse.kills = 5;
    worse.furthest_biome = 4;
    worse.orbs_collected = stats(0);
    record_run(&mut save, &worse);
    assert_eq!(save.total_runs, 2);
    assert_eq!(save.lifetime_kills, 17);
    assert_eq!((save.best_kills, save.best_loop_count, save.best_biome_reached), (12, 1, 4));
    assert_eq!(save.lifetime_orbs_collected.stagger, 16);
}

#[test]
fn history_is_newest_first_and_bounded() {
    let mut h: Vec<u32> = Vec::new();
    for i in 0..60u32 {
        push_run_history(&mut h, i);
    }
    assert_eq!(h.len(), MAX_RUN_HISTORY);
    assert_eq!(h[0], 59);
    assert_eq!(h[49], 10);
}

#[test]
fn migrate_moves_legacy_levels() {
    let mut save = SaveData::default();
    save.version = 1;
    save.permanent_upgrades.starting_shields = 2;
    save.permanent_upgrades.orb_drop_frequency = 1;
    migrate(&mut save);
    assert_eq!(save.version, 2);
    assert_eq!(save.permanent_upgrades.get_level("starting_shields"), 2);
    assert_eq!(save.permanent_upgrades.get_level("starting_drones"), 0);
    assert_eq!(save.permanent_upgrades.get_level("orb_drop_frequency"), 1);
}

#[test]
fn migrate_leaves_current_saves_alone() {
    let mut save = SaveData::default();
    save.permanent_upgrades.starting_shields = 2;
    migrate(&mut save);
    assert_eq!(save.permanent_upgrades.get_level("starting_shields"), 0);
    assert_eq!(save.version, SAVE_VERSION);
}

#[test]
fn story_progress_starts_empty() {
    let s = StoryProgress::default();
    assert!(s.seen_beats.is_empty() && s.unlocked_characters.is_empty());
}

#[test]
fn timestamp_keeps_clock_seconds() {
    assert_eq!(current_timestamp(Some(1_700_000_000)), 1_700_000_000);
}

#[test]
fn timestamp_is_zero_without_clock() {
    assert_eq!(current_timestamp(None), 0);
}

#[test]
fn first_run_on_default_save() {
    let mut s = SaveData::default();
    let r = RunRecord {
        run_id: 1,
        kills: 5,
        breaches: 2,
        furthest_biome: 2,
        loop_count: 1,
        ..Default::default()
    };
    record_run(&mut s, &r);
    assert_eq!(s.total_runs, 1);
    assert_eq!(s.best_kills, 5);
    assert_eq!(s.best_loop_count, 1);
    assert_eq!(s.best_biome_reached, 2);
    assert_eq!(s.lifetime_breaches, 2);
    assert_eq!(s.lifetime_kills, 5);
    assert_eq!(s.lifetime_orbs_collected.burst, 0);
}
