use vstd::prelude::*;

use crate::save::SaveData;
use crate::shield::{MAX_SHIELD_SEGMENTS, ShieldSystem, is_normal_run};

verus! {

/// What a permanent upgrade changes at run start.
#[derive(Debug, Clone, Copy, PartialEq, Eq, Structural)]
pub enum EffectType {
    StartingShields,
    StartingDrones,
    OrbDropFrequency,
    StartingDamageLevel,
    MaxShieldCapBonus,
    ProjectileSpeedBonus,
}

/// Index into an upgrade's per-level effects for a bought `level` (at least
/// 1): level `n` uses entry `n - 1`, and levels past the table use its last
/// entry.
pub fn effect_index(level: u32, n_effects: usize) -> (i: usize)
    requires
        level >= 1,
        n_effects >= 1,
    ensures
        i == if level - 1 < n_effects - 1 {
            level - 1
        } else {
            n_effects - 1
        },
        i < n_effects,
{
    let lvl = (level - 1) as usize;
    if lvl < n_effects - 1 {
        lvl
    } else {
        n_effects - 1
    }
}

/// The next level of an upgrade at `level` can be bought: it is below
/// `max_level` and the next level's cost is within `meta_points`. The shop
/// marks a row affordable exactly when this holds, so a purchase attempt on
/// an affordable row succeeds.
pub open spec fn spec_can_buy(level: u32, max_level: u32, costs: Seq<u32>, meta_points: u32) -> bool {
    level < max_level && costs[level as int] <= meta_points
}

/// Buys the next level of upgrade `id` when it is below `max_level` and the
/// save holds enough meta points for that level's cost; the cost is
/// deducted and the level rises by one. Otherwise nothing changes. Returns
/// whether the purchase happened.
pub fn try_purchase(save: &mut SaveData, id: &str, max_level: u32, cost_per_level: &Vec<u32>) -> (bought: bool)
    requires
        old(save).permanent_upgrades.wf(),
        old(save).permanent_upgrades.level_of(id@) < max_level ==> old(save).permanent_upgrades.level_of(
            id@,
        ) < cost_per_level@.len(),
    ensures
        final(save).permanent_upgrades.wf(),
        bought == spec_can_buy(
            old(save).permanent_upgrades.level_of(id@),
            max_level,
            cost_per_level@,
            old(save).meta_points,
        ),
        bought ==> {
            let level = old(save).permanent_upgrades.level_of(id@);
            &&& final(save).meta_points == old(save).meta_points - cost_per_level@[level as int]
            &&& final(save).permanent_upgrades.level_of(id@) == level + 1
            &&& forall|other: Seq<char>|
                other != id@ ==> #[trigger] final(save).permanent_upgrades.level_of(other)
                    == old(save).permanent_upgrades.level_of(other)
        },
        !bought ==> *final(save) == *old(save),
        final(save).permanent_upgrades.starting_shields == old(save).permanent_upgrades.starting_shields,
        final(save).permanent_upgrades.starting_drones == old(save).permanent_upgrades.starting_drones,
        final(save).permanent_upgrades.orb_drop_frequency
            == old(save).permanent_upgrades.orb_drop_frequency,
        final(save).version == old(save).version,
        final(save).total_runs == old(save).total_runs,
        final(save).best_kills == old(save).best_kills,
        final(save).best_loop_count == old(save).best_loop_count,
        final(save).best_biome_reached == old(save).best_biome_reached,
        final(save).lifetime_kills == old(save).lifetime_kills,
        final(save).lifetime_breaches == old(save).lifetime_breaches,
        final(save).lifetime_orbs_collected == old(save).lifetime_orbs_collected,
        final(save).meta_points_lifetime == old(save).meta_points_lifetime,
        final(save).story_progress == old(save).story_progress,
        final(save).tutorial_dismissed == old(save).tutorial_dismissed,
{
    let current_level = save.permanent_upgrades.get_level(id);
    if current_level >= max_level {
        return false;
    }
    let cost = cost_per_level[current_level as usize];
    if save.meta_points < cost {
        return false;
    }
    save.meta_points = save.meta_points - cost;
    save.permanent_upgrades.set_level(id, current_level + 1);
    true
}

/// Moves the shop cursor one row down (`down`) or up, wrapping around a
/// list of `len` rows.
pub fn step_cursor(cursor: usize, len: usize, down: bool) -> (r: usize)
    requires
        cursor < len,
    ensures
        r < len,
        down ==> r == (cursor + 1) % (len as int),
        !down ==> r == (cursor + len - 1) % (len as int),
{
    if down {
        (cursor + 1) % len
    } else {
        proof {
            if cursor == 0 {
                vstd::arithmetic::div_mod::lemma_small_mod((len - 1) as nat, len as nat);
            } else {
                vstd::arithmetic::div_mod::lemma_mod_add_multiples_vanish(cursor - 1, len as int);
                vstd::arithmetic::div_mod::lemma_small_mod((cursor - 1) as nat, len as nat);
            }
        }
        if cursor == 0 {
            len - 1
        } else {
            cursor - 1
        }
    }
}

/// How one row of the upgrade shop shows: whether the upgrade is maxed, the
/// price of its next level (none when maxed), whether the save can afford
/// it, and how many of its level pips are filled.
pub struct ShopRow {
    pub maxed: bool,
    pub next_cost: Option<u32>,
    pub affordable: bool,
    pub filled_pips: u32,
}

pub fn shop_row(level: u32, max_level: u32, cost_per_level: &Vec<u32>, meta_points: u32) -> (row: ShopRow)
    requires
        level < max_level ==> level < cost_per_level@.len(),
    ensures
        row.maxed == (level >= max_level),
        row.maxed ==> row.next_cost is None && !row.affordable,
        !row.maxed ==> row.next_cost == Some(cost_per_level@[level as int]),
        row.affordable == spec_can_buy(level, max_level, cost_per_level@, meta_points),
        row.filled_pips == if level < max_level {
            level
        } else {
            max_level
        },
{
    let maxed = level >= max_level;
    let filled_pips = if level < max_level {
        level
    } else {
        max_level
    };
    if maxed {
        ShopRow { maxed, next_cost: None, affordable: false, filled_pips }
    } else {
        let cost = cost_per_level[level as usize];
        ShopRow { maxed, next_cost: Some(cost), affordable: meta_points >= cost, filled_pips }
    }
}

/// Number of starting shields a run start grants: the upgrade's `extra`,
/// limited to the room left under `cap`.
pub open spec fn spec_shields_granted(extra: u32, cap: usize, count: nat) -> nat {
    let room: nat = if count < cap {
        (cap - count) as nat
    } else {
        0
    };
    if extra < room {
        extra as nat
    } else {
        room
    }
}

/// Grants the permanent upgrade's extra starting shield segments at run
/// start, never filling the shield beyond `cap` (the biome's cap).
pub fn grant_starting_shields(shields: &mut ShieldSystem, extra: u32, cap: usize)
    requires
        old(shields).wf(),
        cap <= MAX_SHIELD_SEGMENTS,
    ensures
        final(shields).wf(),
        final(shields)@.len() == old(shields)@.len() + spec_shields_granted(extra, cap, old(shields)@.len()),
        final(shields)@.subrange(0, old(shields)@.len() as int) == old(shields)@,
        is_normal_run(final(shields)@.subrange(old(shields)@.len() as int, final(shields)@.len() as int)),
{
    let count = shields.count();
    let room: usize = if count < cap {
        cap - count
    } else {
        0
    };
    let to_add: usize = if (extra as usize) < room {
        extra as usize
    } else {
        room
    };
    if to_add > 0 {
        shields.add_segments(to_add as u32);
    } else {
        proof {
            assert(shields@.subrange(0, shields@.len() as int) =~= shields@);
            assert(shields@.subrange(shields@.len() as int, shields@.len() as int).len() == 0);
        }
    }
}

/// Stepping the cursor down and then up returns it to where it was.
pub proof fn cursor_down_then_up(cursor: int, len: int)
    requires
        0 <= cursor < len,
    ensures
        (((cursor + 1) % len) + len - 1) % len == cursor,
{
    vstd::arithmetic::div_mod::lemma_small_mod(cursor as nat, len as nat);
    if cursor + 1 < len {
        vstd::arithmetic::div_mod::lemma_small_mod((cursor + 1) as nat, len as nat);
        vstd::arithmetic::div_mod::lemma_mod_add_multiples_vanish(cursor, len);
    } else {
        vstd::arithmetic::div_mod::lemma_mod_self_0(len);
        vstd::arithmetic::div_mod::lemma_small_mod((len - 1) as nat, len as nat);
    }
}

} // verus!
