use vstd::prelude::*;

use crate::enemy::EnemyKind;
use crate::orb::OrbType;

verus! {

// Integer tuning defaults. The fractional tuning values (speeds, timers,
// scaling rates) live with the float-based simulation outside this crate.

pub const SCREEN_W: u32 = 320;
pub const SCREEN_H: u32 = 180;
/// Default window size is 960x540.
pub const WINDOW_SCALE: u32 = 3;
pub const MIN_SCALE: u32 = 1;
pub const MAX_SCALE: u32 = 6;

pub const ROTATE_INPUT: bool = false;

// Lane row bounds (inclusive).
pub const TOP_BORDER_TOP: u32 = 0;
pub const TOP_BORDER_BOTTOM: u32 = 20;
pub const TOP_UPGRADE_LANE_TOP: u32 = 21;
pub const TOP_UPGRADE_LANE_BOTTOM: u32 = 42;
pub const ENEMY_LANE_TOP: u32 = 43;
pub const ENEMY_LANE_BOTTOM: u32 = 157;
pub const UPGRADE_LANE_TOP: u32 = 158;
pub const UPGRADE_LANE_BOTTOM: u32 = 179;

pub const PLAYER_STARTING_SHIELDS: u32 = 0;

// Enemy hit points.
pub const ENEMY_SMALL_HP: i32 = 1;
pub const ENEMY_MEDIUM_HP: i32 = 4;
pub const ENEMY_HEAVY_HP: i32 = 7;
pub const ENEMY_LARGE_HP: i32 = 14;
pub const ELITE_HP: i32 = 20;
pub const MINIBOSS_HP: i32 = 30;

/// Global cap on active orbs across both upgrade lanes.
pub const MAX_ACTIVE_ORBS: usize = 2;

// Spawn placement.
pub const SPAWN_SLOT_COUNT: usize = 11;
pub const SPAWN_MAX_RETRIES: usize = 5;

pub const BUFF_PIERCE_VALUE: i32 = 1;
pub const BUFF_STAGGER_ENABLED: bool = true;
pub const DAMAGE_UPGRADE_APPLIES_TO_DRONES: bool = true;
pub const FIRE_RATE_UPGRADE_APPLIES_TO_DRONES: bool = true;

/// Most attached drones the player can hold.
pub const MAX_ATTACHED_DRONES: usize = 2;

pub const DEBUG_LOG_GAMEPLAY: bool = false;

/// The lowercase form of a string, as Rust's `str::to_lowercase` computes it.
pub uninterp spec fn lowercase_of(s: Seq<char>) -> Seq<char>;

/// `c` is an ASCII character.
pub open spec fn is_ascii_char(c: char) -> bool {
    (c as u32) < 128
}

/// ASCII lowercase of one character: `A`..`Z` become `a`..`z`, every other
/// character stays.
pub open spec fn ascii_lower_char(c: char) -> char {
    if 'A' <= c && c <= 'Z' {
        ((c as u32) + 32) as char
    } else {
        c
    }
}

/// ASCII lowercase of a text, character by character.
pub open spec fn ascii_lowercase(s: Seq<char>) -> Seq<char> {
    Seq::new(s.len(), |i: int| ascii_lower_char(s[i]))
}

/// `str::to_lowercase`: its result is the Unicode lowercase mapping of the
/// argument, a function of the argument alone, named `lowercase_of` here.
/// On ASCII text the Unicode mapping is the ASCII one (`A`..`Z` to
/// `a`..`z`, all else unchanged), and the contract says so.
#[verifier::external_body]
fn lowercased(s: &str) -> (r: String)
    ensures
        r@ == lowercase_of(s@),
        (forall|i: int| 0 <= i < s@.len() ==> is_ascii_char(#[trigger] s@[i])) ==> r@
            == ascii_lowercase(s@),
{
    s.to_lowercase()
}

pub open spec fn spec_orb_type_named(name: Seq<char>) -> Option<OrbType> {
    if name == "burst"@ {
        Some(OrbType::Burst)
    } else if name == "damage"@ {
        Some(OrbType::Damage)
    } else if name == "shield"@ {
        Some(OrbType::Shield)
    } else if name == "drone"@ {
        Some(OrbType::Drone)
    } else if name == "firerate"@ {
        Some(OrbType::FireRate)
    } else if name == "pierce"@ {
        Some(OrbType::Pierce)
    } else if name == "stagger"@ {
        Some(OrbType::Stagger)
    } else if name == "explosive"@ {
        Some(OrbType::Explosive)
    } else if name == "droneremote"@ {
        Some(OrbType::DroneRemote)
    } else {
        None
    }
}

pub open spec fn spec_enemy_kind_named(name: Seq<char>) -> Option<EnemyKind> {
    if name == "small"@ {
        Some(EnemyKind::Small)
    } else if name == "medium"@ {
        Some(EnemyKind::Medium)
    } else if name == "heavy"@ {
        Some(EnemyKind::Heavy)
    } else if name == "large"@ {
        Some(EnemyKind::Large)
    } else {
        None
    }
}

fn same_text(a: &String, b: &str) -> (r: bool)
    ensures
        r == (a@ == b@),
{
    *a == b.to_owned()
}

/// The orb type a lowercase debug name selects (`debug_force_orb`).
pub fn orb_type_named(name: &str) -> (r: Option<OrbType>)
    ensures
        r == spec_orb_type_named(name@),
{
    let n = name.to_owned();
    if same_text(&n, "burst") {
        Some(OrbType::Burst)
    } else if same_text(&n, "damage") {
        Some(OrbType::Damage)
    } else if same_text(&n, "shield") {
        Some(OrbType::Shield)
    } else if same_text(&n, "drone") {
        Some(OrbType::Drone)
    } else if same_text(&n, "firerate") {
        Some(OrbType::FireRate)
    } else if same_text(&n, "pierce") {
        Some(OrbType::Pierce)
    } else if same_text(&n, "stagger") {
        Some(OrbType::Stagger)
    } else if same_text(&n, "explosive") {
        Some(OrbType::Explosive)
    } else if same_text(&n, "droneremote") {
        Some(OrbType::DroneRemote)
    } else {
        None
    }
}

/// The enemy kind a lowercase debug name selects (`debug_force_enemy`).
pub fn enemy_kind_named(name: &str) -> (r: Option<EnemyKind>)
    ensures
        r == spec_enemy_kind_named(name@),
{
    let n = name.to_owned();
    if same_text(&n, "small") {
        Some(EnemyKind::Small)
    } else if same_text(&n, "medium") {
        Some(EnemyKind::Medium)
    } else if same_text(&n, "heavy") {
        Some(EnemyKind::Heavy)
    } else if same_text(&n, "large") {
        Some(EnemyKind::Large)
    } else {
        None
    }
}

/// Reads the `debug_force_orb` setting: the name is matched without regard
/// to case.
pub fn parse_debug_orb(setting: Option<&str>) -> (r: Option<OrbType>)
    ensures
        setting is None ==> r is None,
        setting matches Some(s) ==> r == spec_orb_type_named(lowercase_of(s@)),
        setting matches Some(s) ==> ((forall|i: int|
            0 <= i < s@.len() ==> is_ascii_char(#[trigger] s@[i])) ==> r == spec_orb_type_named(
            ascii_lowercase(s@),
        )),
{
    match setting {
        Some(s) => {
            let lower = lowercased(s);
            orb_type_named(lower.as_str())
        },
        None => None,
    }
}

/// Reads the `debug_force_enemy` setting: the name is matched without
/// regard to case.
pub fn parse_debug_enemy(setting: Option<&str>) -> (r: Option<EnemyKind>)
    ensures
        setting is None ==> r is None,
        setting matches Some(s) ==> r == spec_enemy_kind_named(lowercase_of(s@)),
        setting matches Some(s) ==> ((forall|i: int|
            0 <= i < s@.len() ==> is_ascii_char(#[trigger] s@[i])) ==> r == spec_enemy_kind_named(
            ascii_lowercase(s@),
        )),
{
    match setting {
        Some(s) => {
            let lower = lowercased(s);
            enemy_kind_named(lower.as_str())
        },
        None => None,
    }
}

} // verus!
