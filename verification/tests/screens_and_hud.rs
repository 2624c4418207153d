use lastconvoy::animation::{tag_table, FrameTag};
use lastconvoy::biome::{Biome, BiomeProgress, BiomeStep};
use lastconvoy::hud::{hud_icons, run_timer_text, HudIcon, HudState};
use lastconvoy::render::tile_column;
use lastconvoy::screen::{step_screen, FrameAction, MenuInput, Screen};

fn no_input() -> MenuInput {
    MenuInput {
        up: false,
        down: false,
        confirm: false,
        back: false,
        restart: false,
        pause: false,
        event_ready: false,
    }
}

#[test]
fn title_down_then_confirm_opens_shop() {
    let mut input = no_input();
    input.down = true;
    let (s, a) = step_screen(Screen::Title { cursor: 0 }, input);
    assert_eq!(s, Screen::Title { cursor: 1 });
    assert_eq!(a, FrameAction::Idle);
    let mut input = no_input();
    input.confirm = true;
    assert_eq!(step_screen(s, input), (Screen::Shop, FrameAction::Idle));
}

#[test]
fn title_up_wins_over_down_and_starts_run() {
    let mut input = no_input();
    input.down = true;
    input.up = true;
    input.confirm = true;
    assert_eq!(
        step_screen(Screen::Title { cursor: 1 }, input),
        (Screen::Playing, FrameAction::StartRun)
    );
}

#[test]
fn shop_runs_until_back() {
    assert_eq!(step_screen(Screen::Shop, no_input()), (Screen::Shop, FrameAction::Shop));
    let mut input = no_input();
    input.back = true;
    assert_eq!(
        step_screen(Screen::Shop, input),
        (Screen::Title { cursor: 1 }, FrameAction::Idle)
    );
}

#[test]
fn pause_toggles_and_resumes_same_frame() {
    let mut input = no_input();
    input.pause = true;
    let (s, a) = step_screen(Screen::Playing, input);
    assert_eq!((s, a), (Screen::Paused, FrameAction::Idle));
    assert_eq!(step_screen(s, no_input()), (Screen::Paused, FrameAction::Idle));
    assert_eq!(step_screen(s, input), (Screen::Playing, FrameAction::RunFrame));
    assert_eq!(step_screen(Screen::Playing, no_input()), (Screen::Playing, FrameAction::RunFrame));
}

#[test]
fn event_card_needs_ready_and_pause() {
    let mut input = no_input();
    input.pause = true;
    assert_eq!(
        step_screen(Screen::EventPaused, input),
        (Screen::EventPaused, FrameAction::Idle)
    );
    input.event_ready = true;
    assert_eq!(
        step_screen(Screen::EventPaused, input),
        (Screen::Playing, FrameAction::RunFrame)
    );
}

#[test]
fn game_over_restarts_only_on_restart() {
    let mut input = no_input();
    input.pause = true;
    input.confirm = true;
    assert_eq!(step_screen(Screen::GameOver, input), (Screen::GameOver, FrameAction::Idle));
    input.restart = true;
    assert_eq!(
        step_screen(Screen::GameOver, input),
        (Screen::Playing, FrameAction::RestartRun)
    );
}

#[test]
fn first_biome_boss_spawns_then_blocks_until_dead() {
    let mut p = BiomeProgress::new(Biome::InfectedAtmosphere);
    assert_eq!(p.tick(false, false, false), BiomeStep::Wait);
    assert_eq!(p.tick(true, false, false), BiomeStep::SpawnBoss);
    assert!(p.boss_active);
    assert_eq!(p.tick(true, true, false), BiomeStep::Wait);
    assert_eq!(p.current, Biome::InfectedAtmosphere);
    assert_eq!(p.tick(true, false, false), BiomeStep::Advanced);
    assert_eq!(p.current, Biome::LowOrbit);
    assert_eq!(p.furthest, 2);
    assert!(!p.boss_active);
}

#[test]
fn later_biome_announces_then_advances() {
    let mut p = BiomeProgress::new(Biome::LowOrbit);
    assert_eq!(
        p.tick(true, false, false),
        BiomeStep::Announce { next: Some(Biome::OuterSystem) }
    );
    assert!(p.transition_pending);
    assert_eq!(p.tick(true, false, true), BiomeStep::Wait);
    assert_eq!(p.tick(true, false, false), BiomeStep::Advanced);
    assert_eq!(p.current, Biome::OuterSystem);
    assert!(!p.transition_pending);
    assert!(!p.boss_active);
}

#[test]
fn last_biome_announces_new_loop() {
    let mut p = BiomeProgress::new(Biome::DeepSpace);
    assert_eq!(p.tick(true, false, false), BiomeStep::Announce { next: None });
    assert_eq!(p.tick(true, false, false), BiomeStep::Advanced);
    assert_eq!(p.current, Biome::InfectedAtmosphere);
    assert_eq!(p.loop_count, 1);
    assert_eq!(p.furthest, 4);
}

fn text(v: Vec<u8>) -> String {
    String::from_utf8(v).unwrap()
}

#[test]
fn run_timer_pads_minutes_and_seconds() {
    assert_eq!(text(run_timer_text(0)), "00:00");
    assert_eq!(text(run_timer_text(65)), "01:05");
    assert_eq!(text(run_timer_text(600)), "10:00");
    assert_eq!(text(run_timer_text(3599)), "59:59");
    assert_eq!(text(run_timer_text(6000)), "100:00");
    assert_eq!(text(run_timer_text(u32::MAX)), format!("{:02}:{:02}", u32::MAX / 60, u32::MAX % 60));
}

fn hud(damage: bool, stagger: bool, shields: usize, starting: u32, explosive: bool, drones: usize) -> HudState {
    HudState {
        damage,
        fire_rate: false,
        burst: true,
        pierce: false,
        stagger,
        shield_count: shields,
        starting_shields: starting,
        has_explosive: explosive,
        drone_count: drones,
    }
}

#[test]
fn hud_icons_in_bar_order() {
    let icons = hud_icons(&hud(true, true, 2, 1, true, 1));
    assert_eq!(
        icons,
        vec![
            HudIcon::Damage,
            HudIcon::Burst,
            HudIcon::Stagger,
            HudIcon::Shield,
            HudIcon::Explosive,
            HudIcon::Drone
        ]
    );
    assert!(icons[0].timed());
    assert!(!icons[3].timed());
    let icons = hud_icons(&hud(false, false, 1, 1, false, 0));
    assert_eq!(icons, vec![HudIcon::Burst]);
}

#[test]
fn rail_tiles_fill_column() {
    let tiles = tile_column(21, 180, 36);
    assert_eq!(tiles, vec![(21, 36), (57, 36), (93, 36), (129, 36), (165, 15)]);
    assert_eq!(tile_column(0, 72, 36), vec![(0, 36), (36, 36)]);
    assert!(tile_column(10, 10, 36).is_empty());
    assert!(tile_column(20, 10, 36).is_empty());
}

#[test]
fn tag_table_counts_frames() {
    let tags = vec![
        FrameTag { from: 0, to: 3, pingpong: false },
        FrameTag { from: 4, to: 4, pingpong: true },
    ];
    assert_eq!(tag_table(&tags, 5), vec![(4, false), (1, true)]);
    assert_eq!(tag_table(&Vec::new(), 7), vec![(7, false)]);
}
