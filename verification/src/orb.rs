use vstd::prelude::*;

use crate::config::MAX_ATTACHED_DRONES;
use crate::rng::random_below;
use crate::shield::{
    ShieldSegment,
    MAX_SHIELD_SEGMENTS, ShieldSystem, any_explosive, segments_added, is_normal_run,
};

verus! {

/// Upgrade carried by an orb; fixed when the orb spawns.
#[derive(Debug, Clone, Copy, PartialEq, Eq, Structural)]
pub enum OrbType {
    Burst,
    Damage,
    Shield,
    Drone,
    DroneRemote,
    Explosive,
    FireRate,
    Pierce,
    Stagger,
}

/// Two-phase orb state.
#[derive(Debug, Clone, Copy, PartialEq, Eq, Structural)]
pub enum OrbPhase {
    /// Progress fills as shots hit; decays when not hit.
    Inactive,
    /// Activation complete; collected by touching the ship.
    Active,
}

/// The upgrade lane an orb spawns in.
#[derive(Debug, Clone, Copy, PartialEq, Eq, Structural)]
pub enum UpgradeLane {
    Top,
    Bottom,
}

/// What the orb pool depends on at spawn time.
pub struct OrbPoolGates {
    pub burst_buff_active: bool,
    pub damage_buff_active: bool,
    pub fire_rate_buff_active: bool,
    pub pierce_buff_active: bool,
    pub stagger_buff_active: bool,
    pub shield_count: usize,
    pub has_explosive: bool,
    pub drone_count: usize,
    /// Debug override: only this type spawns.
    pub forced: Option<OrbType>,
}

/// Drone slots still free.
pub open spec fn drones_remaining(drone_count: usize) -> nat {
    if drone_count < MAX_ATTACHED_DRONES {
        (MAX_ATTACHED_DRONES - drone_count) as nat
    } else {
        0
    }
}

pub open spec fn push_if(s: Seq<(OrbType, u32)>, cond: bool, e: (OrbType, u32)) -> Seq<(OrbType, u32)> {
    if cond {
        s.push(e)
    } else {
        s
    }
}

/// The weighted spawn pool, in roll order. Each offense type is left out
/// while its buff is active, Shield while the shield is full, Drone while no
/// drone slot is free (and weighted by the free slots otherwise), Explosive
/// while an explosive segment exists; DroneRemote is always in.
pub open spec fn spec_orb_pool(g: OrbPoolGates) -> Seq<(OrbType, u32)> {
    match g.forced {
        Some(t) => seq![(t, 1u32)],
        None => {
            let s1 = push_if(Seq::empty(), !g.burst_buff_active, (OrbType::Burst, 1u32));
            let s2 = push_if(s1, !g.damage_buff_active, (OrbType::Damage, 1u32));
            let s3 = push_if(s2, g.shield_count < MAX_SHIELD_SEGMENTS, (OrbType::Shield, 1u32));
            let s4 = push_if(
                s3,
                drones_remaining(g.drone_count) > 0,
                (OrbType::Drone, drones_remaining(g.drone_count) as u32),
            );
            let s5 = s4.push((OrbType::DroneRemote, 1u32));
            let s6 = push_if(s5, !g.fire_rate_buff_active, (OrbType::FireRate, 1u32));
            let s7 = push_if(s6, !g.pierce_buff_active, (OrbType::Pierce, 1u32));
            let s8 = push_if(s7, !g.stagger_buff_active, (OrbType::Stagger, 1u32));
            push_if(s8, !g.has_explosive, (OrbType::Explosive, 1u32))
        },
    }
}

/// Whether orb type `t` may be offered given the gates.
pub open spec fn orb_allowed(g: OrbPoolGates, t: OrbType) -> bool {
    match g.forced {
        Some(f) => t == f,
        None => match t {
            OrbType::Burst => !g.burst_buff_active,
            OrbType::Damage => !g.damage_buff_active,
            OrbType::Shield => g.shield_count < MAX_SHIELD_SEGMENTS,
            OrbType::Drone => g.drone_count < MAX_ATTACHED_DRONES,
            OrbType::DroneRemote => true,
            OrbType::Explosive => !g.has_explosive,
            OrbType::FireRate => !g.fire_rate_buff_active,
            OrbType::Pierce => !g.pierce_buff_active,
            OrbType::Stagger => !g.stagger_buff_active,
        },
    }
}

/// Sum of the pool's weights.
pub open spec fn total_weight(pool: Seq<(OrbType, u32)>) -> nat
    decreases pool.len(),
{
    if pool.len() == 0 {
        0
    } else {
        pool[0].1 as nat + total_weight(pool.drop_first())
    }
}

/// Walks the pool subtracting weights until `roll` falls inside an entry.
pub open spec fn pick_in(pool: Seq<(OrbType, u32)>, roll: int) -> Option<OrbType>
    decreases pool.len(),
{
    if pool.len() == 0 {
        None
    } else if roll < pool[0].1 {
        Some(pool[0].0)
    } else {
        pick_in(pool.drop_first(), roll - pool[0].1)
    }
}

/// The type a roll selects; the first entry when the roll runs past the end.
pub open spec fn weighted_pick(pool: Seq<(OrbType, u32)>, roll: int) -> OrbType
    recommends
        pool.len() > 0,
{
    match pick_in(pool, roll) {
        Some(t) => t,
        None => pool[0].0,
    }
}

/// Builds the weighted spawn pool.
pub fn orb_pool(g: &OrbPoolGates) -> (pool: Vec<(OrbType, u32)>)
    ensures
        pool@ == spec_orb_pool(*g),
{
    let mut pool: Vec<(OrbType, u32)> = Vec::new();
    if !g.burst_buff_active {
        pool.push((OrbType::Burst, 1));
    }
    if !g.damage_buff_active {
        pool.push((OrbType::Damage, 1));
    }
    if g.shield_count < MAX_SHIELD_SEGMENTS {
        pool.push((OrbType::Shield, 1));
    }
    let drone_remaining: usize = if g.drone_count < MAX_ATTACHED_DRONES {
        MAX_ATTACHED_DRONES - g.drone_count
    } else {
        0
    };
    if drone_remaining > 0 {
        pool.push((OrbType::Drone, drone_remaining as u32));
    }
    pool.push((OrbType::DroneRemote, 1));
    if !g.fire_rate_buff_active {
        pool.push((OrbType::FireRate, 1));
    }
    if !g.pierce_buff_active {
        pool.push((OrbType::Pierce, 1));
    }
    if !g.stagger_buff_active {
        pool.push((OrbType::Stagger, 1));
    }
    if !g.has_explosive {
        pool.push((OrbType::Explosive, 1));
    }
    match g.forced {
        Some(t) => {
            let mut forced_pool: Vec<(OrbType, u32)> = Vec::new();
            forced_pool.push((t, 1));
            proof {
                assert(forced_pool@ =~= seq![(t, 1u32)]);
            }
            forced_pool
        },
        None => pool,
    }
}

/// Sums the pool's weights.
pub fn pool_total(pool: &Vec<(OrbType, u32)>) -> (total: u32)
    requires
        total_weight(pool@) <= u32::MAX,
    ensures
        total == total_weight(pool@),
{
    let n = pool.len();
    let mut total: u32 = 0;
    let mut k: usize = n;
    // Sum from the back so the running total matches a suffix.
    while k > 0
        invariant
            k <= n,
            n == pool@.len(),
            total_weight(pool@) <= u32::MAX,
            total == total_weight(pool@.skip(k as int)),
            total_weight(pool@.skip(k as int)) <= total_weight(pool@),
        decreases k,
    {
        proof {
            assert(pool@.skip(k - 1).drop_first() =~= pool@.skip(k as int));
            lemma_total_weight_suffix(pool@, k - 1);
        }
        total = total + pool[k - 1].1;
        k = k - 1;
    }
    proof {
        assert(pool@.skip(0) =~= pool@);
    }
    total
}

/// A suffix never weighs more than the whole pool.
pub proof fn lemma_total_weight_suffix(pool: Seq<(OrbType, u32)>, k: int)
    requires
        0 <= k <= pool.len(),
    ensures
        total_weight(pool.skip(k)) <= total_weight(pool),
    decreases k,
{
    if k > 0 {
        assert(pool.skip(k) =~= pool.drop_first().skip(k - 1));
        lemma_total_weight_suffix(pool.drop_first(), k - 1);
    } else {
        assert(pool.skip(0) =~= pool);
    }
}

/// Picks the type that `roll` selects from a non-empty pool.
pub fn pick_weighted(pool: &Vec<(OrbType, u32)>, roll: u32) -> (t: OrbType)
    requires
        pool@.len() > 0,
    ensures
        t == weighted_pick(pool@, roll as int),
{
    let n = pool.len();
    let mut rest: u32 = roll;
    let mut k: usize = 0;
    proof {
        assert(pool@.skip(0) =~= pool@);
    }
    while k < n
        invariant
            k <= n,
            n == pool@.len(),
            pick_in(pool@, roll as int) == pick_in(pool@.skip(k as int), rest as int),
        decreases n - k,
    {
        proof {
            assert(pool@.skip(k as int).drop_first() =~= pool@.skip(k + 1));
        }
        let (t, w) = pool[k];
        if rest < w {
            return t;
        }
        rest = rest - w;
        k = k + 1;
    }
    pool[0].0
}

/// Rolls a type from a non-empty pool with macroquad's generator.
pub fn roll_orb_type(pool: &Vec<(OrbType, u32)>) -> (t: OrbType)
    requires
        pool@.len() > 0,
        total_weight(pool@) <= u32::MAX,
    ensures
        exists|roll: int|
            {
                &&& (total_weight(pool@) > 0 ==> 0 <= roll < total_weight(pool@))
                &&& (total_weight(pool@) == 0 ==> roll == 0)
                &&& t == weighted_pick(pool@, roll)
            },
{
    let total = pool_total(pool);
    let roll = random_below(total);
    pick_weighted(pool, roll)
}

/// Lane for a single orb: the lane holding fewer orbs, or, on a tie, the
/// top lane when `coin == 0` and the bottom lane otherwise.
pub open spec fn spec_single_orb_lane(top_count: usize, bottom_count: usize, coin: u32) -> UpgradeLane {
    if top_count < bottom_count {
        UpgradeLane::Top
    } else if bottom_count < top_count {
        UpgradeLane::Bottom
    } else if coin == 0 {
        UpgradeLane::Top
    } else {
        UpgradeLane::Bottom
    }
}

pub fn single_orb_lane(top_count: usize, bottom_count: usize, coin: u32) -> (l: UpgradeLane)
    ensures
        l == spec_single_orb_lane(top_count, bottom_count, coin),
{
    if top_count < bottom_count {
        UpgradeLane::Top
    } else if bottom_count < top_count {
        UpgradeLane::Bottom
    } else if coin == 0 {
        UpgradeLane::Top
    } else {
        UpgradeLane::Bottom
    }
}

/// `t` is a type that some admissible roll selects from `pool`.
pub open spec fn rollable(pool: Seq<(OrbType, u32)>, t: OrbType) -> bool {
    exists|roll: int|
        {
            &&& (total_weight(pool) > 0 ==> 0 <= roll < total_weight(pool))
            &&& (total_weight(pool) == 0 ==> roll == 0)
            &&& t == weighted_pick(pool, roll)
        }
}

/// One orb-spawn tick: with `active` orbs of the global cap `max_active`
/// already out, spawns nothing at the cap, one orb in each lane when two or
/// more slots are free, and otherwise one orb in the emptier lane (a coin
/// decides a tie). Each type is rolled independently from the gated pool.
pub fn plan_orb_spawn(
    g: &OrbPoolGates,
    max_active: usize,
    active: usize,
    top_count: usize,
    bottom_count: usize,
) -> (plan: Vec<(UpgradeLane, OrbType)>)
    ensures
        active >= max_active ==> plan@.len() == 0,
        active < max_active ==> active + plan@.len() <= max_active,
        active < max_active && max_active - active >= 2 ==> {
            &&& plan@.len() == 2
            &&& plan@[0].0 == UpgradeLane::Top
            &&& plan@[1].0 == UpgradeLane::Bottom
        },
        active < max_active && max_active - active == 1 ==> {
            &&& plan@.len() == 1
            &&& exists|coin: u32|
                coin < 2 && plan@[0].0 == spec_single_orb_lane(top_count, bottom_count, coin)
        },
        forall|i: int| 0 <= i < plan@.len() ==> rollable(spec_orb_pool(*g), (#[trigger] plan@[i]).1),
{
    let mut plan: Vec<(UpgradeLane, OrbType)> = Vec::new();
    if active >= max_active {
        return plan;
    }
    let pool = orb_pool(g);
    proof {
        lemma_orb_pool_small(*g);
    }
    let remaining = max_active - active;
    if remaining >= 2 {
        let top_type = roll_orb_type(&pool);
        let bottom_type = roll_orb_type(&pool);
        plan.push((UpgradeLane::Top, top_type));
        plan.push((UpgradeLane::Bottom, bottom_type));
        proof {
            assert(rollable(pool@, top_type));
            assert(rollable(pool@, bottom_type));
        }
    } else {
        let lane = if top_count < bottom_count {
            UpgradeLane::Top
        } else if bottom_count < top_count {
            UpgradeLane::Bottom
        } else {
            let coin = random_below(2);
            single_orb_lane(top_count, bottom_count, coin)
        };
        proof {
            if top_count < bottom_count {
                assert(lane == spec_single_orb_lane(top_count, bottom_count, 0));
            } else if bottom_count < top_count {
                assert(lane == spec_single_orb_lane(top_count, bottom_count, 0));
            }
        }
        let t = roll_orb_type(&pool);
        plan.push((lane, t));
        proof {
            assert(rollable(pool@, t));
        }
    }
    plan
}

/// The pool is never empty and its weights are small.
pub proof fn lemma_orb_pool_small(g: OrbPoolGates)
    ensures
        spec_orb_pool(g).len() > 0,
        spec_orb_pool(g).len() <= 9,
        forall|i: int| 0 <= i < spec_orb_pool(g).len() ==> (#[trigger] spec_orb_pool(g)[i]).1 <= 2,
        total_weight(spec_orb_pool(g)) <= 18,
{
    let p = spec_orb_pool(g);
    lemma_total_weight_bounded(p, 2);
}

/// Every entry weighing at most `c` bounds the total by `c` per entry.
pub proof fn lemma_total_weight_bounded(pool: Seq<(OrbType, u32)>, c: nat)
    requires
        forall|i: int| 0 <= i < pool.len() ==> (#[trigger] pool[i]).1 <= c,
    ensures
        total_weight(pool) <= c * pool.len(),
    decreases pool.len(),
{
    if pool.len() > 0 {
        let rest = pool.drop_first();
        assert forall|i: int| 0 <= i < rest.len() implies (#[trigger] rest[i]).1 <= c by {
            assert(rest[i] == pool[i + 1]);
        }
        lemma_total_weight_bounded(rest, c);
        assert(c * pool.len() == c * rest.len() + c) by (nonlinear_arith)
            requires
                pool.len() == rest.len() + 1,
        ;
    }
}

/// Floating text shown after a pickup.
#[derive(Debug, Clone, Copy, PartialEq, Eq, Structural)]
pub enum PickupTag {
    Damage,
    Rate,
    Burst,
    Pierce,
    Stagger,
    Shield,
    Explosive,
    Drone,
    Remote,
}

pub open spec fn spec_tag_text(t: PickupTag) -> Seq<char> {
    match t {
        PickupTag::Damage => "+DMG"@,
        PickupTag::Rate => "+RATE"@,
        PickupTag::Burst => "+BURST"@,
        PickupTag::Pierce => "+PIERCE"@,
        PickupTag::Stagger => "+STAGGER"@,
        PickupTag::Shield => "+SHIELD"@,
        PickupTag::Explosive => "+EXPLOSIVE"@,
        PickupTag::Drone => "+DRONE"@,
        PickupTag::Remote => "+REMOTE"@,
    }
}

impl PickupTag {
    /// The popup text for this pickup.
    pub fn text(&self) -> (r: &'static str)
        ensures
            r@ == spec_tag_text(*self),
    {
        match self {
            PickupTag::Damage => "+DMG",
            PickupTag::Rate => "+RATE",
            PickupTag::Burst => "+BURST",
            PickupTag::Pierce => "+PIERCE",
            PickupTag::Stagger => "+STAGGER",
            PickupTag::Shield => "+SHIELD",
            PickupTag::Explosive => "+EXPLOSIVE",
            PickupTag::Drone => "+DRONE",
            PickupTag::Remote => "+REMOTE",
        }
    }
}

/// The shield-and-drone side of collecting an orb, and the popup it earns.
/// Buff orbs always earn their tag and leave the shield alone. A shield orb
/// adds one segment (tag only if the shield grew). An explosive orb converts
/// a segment (tag `Explosive` when none was explosive before, `Shield` when it
/// acted as a plain shield that grew, none otherwise). A drone orb earns its
/// tag, and a new drone, only while a drone slot is free.
pub fn collect_orb(shields: &mut ShieldSystem, drone_count: usize, orb_type: OrbType) -> (tag: Option<PickupTag>)
    requires
        old(shields).wf(),
    ensures
        final(shields).wf(),
        orb_type != OrbType::Shield && orb_type != OrbType::Explosive ==> final(shields)@ == old(shields)@,
        orb_type == OrbType::Damage ==> tag == Some(PickupTag::Damage),
        orb_type == OrbType::FireRate ==> tag == Some(PickupTag::Rate),
        orb_type == OrbType::Burst ==> tag == Some(PickupTag::Burst),
        orb_type == OrbType::Pierce ==> tag == Some(PickupTag::Pierce),
        orb_type == OrbType::Stagger ==> tag == Some(PickupTag::Stagger),
        orb_type == OrbType::DroneRemote ==> tag == Some(PickupTag::Remote),
        orb_type == OrbType::Drone ==> tag == (if drone_count < MAX_ATTACHED_DRONES {
            Some(PickupTag::Drone)
        } else {
            None
        }),
        orb_type == OrbType::Shield ==> {
            &&& final(shields)@.len() == old(shields)@.len() + segments_added(old(shields)@.len(), 1)
            &&& final(shields)@.subrange(0, old(shields)@.len() as int) == old(shields)@
            &&& is_normal_run(final(shields)@.subrange(old(shields)@.len() as int, final(shields)@.len() as int))
            &&& tag == (if old(shields)@.len() < MAX_SHIELD_SEGMENTS {
                Some(PickupTag::Shield)
            } else {
                None
            })
        },
        orb_type == OrbType::Explosive ==> {
            &&& any_explosive(final(shields)@)
            &&& any_explosive(old(shields)@) ==> {
                &&& final(shields)@.len() == old(shields)@.len() + segments_added(
                    old(shields)@.len(),
                    1,
                )
                &&& final(shields)@.subrange(0, old(shields)@.len() as int) == old(shields)@
                &&& is_normal_run(
                    final(shields)@.subrange(old(shields)@.len() as int, final(shields)@.len() as int),
                )
            }
            &&& !any_explosive(old(shields)@) && old(shields)@.len() > 0 ==> final(shields)@
                == old(shields)@.update(
                old(shields)@.len() - 1,
                ShieldSegment { active: old(shields)@.last().active, explosive: true },
            )
            &&& !any_explosive(old(shields)@) && old(shields)@.len() == 0 ==> final(shields)@
                == seq![ShieldSegment { active: true, explosive: true }]
            &&& tag == (if !any_explosive(old(shields)@) {
                Some(PickupTag::Explosive)
            } else if old(shields)@.len() < MAX_SHIELD_SEGMENTS {
                Some(PickupTag::Shield)
            } else {
                None
            })
        },
{
    match orb_type {
        OrbType::Damage => Some(PickupTag::Damage),
        OrbType::FireRate => Some(PickupTag::Rate),
        OrbType::Burst => Some(PickupTag::Burst),
        OrbType::Pierce => Some(PickupTag::Pierce),
        OrbType::Stagger => Some(PickupTag::Stagger),
        OrbType::Shield => {
            let before = shields.count();
            shields.add_segments(1);
            let after = shields.count();
            if after > before {
                Some(PickupTag::Shield)
            } else {
                None
            }
        },
        OrbType::Explosive => {
            let before_has = shields.has_explosive();
            let before_count = shields.count();
            shields.convert_to_explosive();
            let after_has = shields.has_explosive();
            let after_count = shields.count();
            if after_has && !before_has {
                Some(PickupTag::Explosive)
            } else if after_count > before_count {
                Some(PickupTag::Shield)
            } else {
                None
            }
        },
        OrbType::Drone => {
            if drone_count < MAX_ATTACHED_DRONES {
                Some(PickupTag::Drone)
            } else {
                None
            }
        },
        OrbType::DroneRemote => Some(PickupTag::Remote),
    }
}

/// A pick that lands inside the pool names one of the pool's entries.
pub proof fn lemma_pick_in_member(pool: Seq<(OrbType, u32)>, roll: int)
    requires
        pick_in(pool, roll) is Some,
    ensures
        exists|i: int| 0 <= i < pool.len() && (#[trigger] pool[i]).0 == pick_in(pool, roll)->0,
    decreases pool.len(),
{
    if roll < pool[0].1 {
        assert(pool[0].0 == pick_in(pool, roll)->0);
    } else {
        let rest = pool.drop_first();
        lemma_pick_in_member(rest, roll - pool[0].1);
        let i = choose|i: int| 0 <= i < rest.len() && (#[trigger] rest[i]).0 == pick_in(rest, roll - pool[0].1)->0;
        assert(pool[i + 1] == rest[i]);
    }
}

/// Every rollable type is an entry of the pool.
pub proof fn lemma_rollable_member(pool: Seq<(OrbType, u32)>, t: OrbType)
    requires
        pool.len() > 0,
        rollable(pool, t),
    ensures
        exists|i: int| 0 <= i < pool.len() && (#[trigger] pool[i]).0 == t,
{
    let roll = choose|roll: int|
        {
            &&& (total_weight(pool) > 0 ==> 0 <= roll < total_weight(pool))
            &&& (total_weight(pool) == 0 ==> roll == 0)
            &&& t == weighted_pick(pool, roll)
        };
    if pick_in(pool, roll) is Some {
        lemma_pick_in_member(pool, roll);
    } else {
        assert(pool[0].0 == t);
    }
}

/// Every entry of the pool is allowed by the gates.
pub proof fn lemma_pool_entries_allowed(g: OrbPoolGates)
    ensures
        forall|i: int| 0 <= i < spec_orb_pool(g).len() ==> orb_allowed(g, (#[trigger] spec_orb_pool(g)[i]).0),
{
}

/// Gated spawning: a type that a spawn tick can produce is never one whose
/// buff is active, never Shield at the shield cap, never Drone with no free
/// drone slot, never Explosive while an explosive segment exists, and only
/// the forced type under the debug override.
pub proof fn spawned_orbs_respect_gates(g: OrbPoolGates, t: OrbType)
    requires
        rollable(spec_orb_pool(g), t),
    ensures
        orb_allowed(g, t),
{
    lemma_orb_pool_small(g);
    lemma_rollable_member(spec_orb_pool(g), t);
    lemma_pool_entries_allowed(g);
}

/// A roll in `[w0 + ... + w(i-1), w0 + ... + wi)` selects entry `i`.
pub proof fn weighted_pick_bands(pool: Seq<(OrbType, u32)>, i: int, roll: int)
    requires
        0 <= i < pool.len(),
        total_weight(pool.take(i)) <= roll < total_weight(pool.take(i)) + pool[i].1,
    ensures
        pick_in(pool, roll) == Some(pool[i].0),
        weighted_pick(pool, roll) == pool[i].0,
    decreases i,
{
    if i == 0 {
        assert(pool.take(0) =~= Seq::<(OrbType, u32)>::empty());
    } else {
        let rest = pool.drop_first();
        assert(pool.take(i).drop_first() =~= rest.take(i - 1));
        assert(pool.take(i)[0] == pool[0]);
        assert(rest[i - 1] == pool[i]);
        weighted_pick_bands(rest, i - 1, roll - pool[0].1);
    }
}


proof fn lemma_push_if_contains(s: Seq<(OrbType, u32)>, c: bool, e: (OrbType, u32), x: (OrbType, u32))
    ensures
        push_if(s, c, e).contains(x) <==> (s.contains(x) || (c && x == e)),
{
    if c {
        if s.contains(x) {
            let i = choose|i: int| 0 <= i < s.len() && s[i] == x;
            assert(s.push(e)[i] == x);
        }
        if x == e {
            assert(s.push(e)[s.len() as int] == e);
        }
        if s.push(e).contains(x) {
            let i = choose|i: int| 0 <= i < s.push(e).len() && s.push(e)[i] == x;
            if i < s.len() {
                assert(s[i] == x);
            }
        }
    }
}

/// Each orb type is offered exactly when its own gate allows it, whatever
/// the other gates say: with no forced type, a buff orb (Burst, Damage,
/// FireRate, Pierce, Stagger) is in the pool with weight 1 exactly while its
/// own buff is off; Shield with weight 1 exactly while the shield is below
/// its cap; Explosive with weight 1 exactly while no segment is explosive;
/// Drone, weighted by the free drone slots, exactly while a slot is free;
/// DroneRemote with weight 1 always; and no other entry is in the pool.
pub proof fn each_orb_type_follows_its_own_gate(g: OrbPoolGates, t: OrbType, w: u32)
    requires
        g.forced is None,
    ensures
        spec_orb_pool(g).contains((t, w)) <==> match t {
            OrbType::Burst => w == 1 && !g.burst_buff_active,
            OrbType::Damage => w == 1 && !g.damage_buff_active,
            OrbType::FireRate => w == 1 && !g.fire_rate_buff_active,
            OrbType::Pierce => w == 1 && !g.pierce_buff_active,
            OrbType::Stagger => w == 1 && !g.stagger_buff_active,
            OrbType::Shield => w == 1 && g.shield_count < MAX_SHIELD_SEGMENTS,
            OrbType::Explosive => w == 1 && !g.has_explosive,
            OrbType::DroneRemote => w == 1,
            OrbType::Drone => g.drone_count < MAX_ATTACHED_DRONES && w == MAX_ATTACHED_DRONES
                - g.drone_count,
        },
{
    let x = (t, w);
    let s0 = Seq::<(OrbType, u32)>::empty();
    let s1 = push_if(s0, !g.burst_buff_active, (OrbType::Burst, 1u32));
    let s2 = push_if(s1, !g.damage_buff_active, (OrbType::Damage, 1u32));
    let s3 = push_if(s2, g.shield_count < MAX_SHIELD_SEGMENTS, (OrbType::Shield, 1u32));
    let dw = drones_remaining(g.drone_count) as u32;
    let s4 = push_if(s3, drones_remaining(g.drone_count) > 0, (OrbType::Drone, dw));
    let s5 = s4.push((OrbType::DroneRemote, 1u32));
    let s6 = push_if(s5, !g.fire_rate_buff_active, (OrbType::FireRate, 1u32));
    let s7 = push_if(s6, !g.pierce_buff_active, (OrbType::Pierce, 1u32));
    let s8 = push_if(s7, !g.stagger_buff_active, (OrbType::Stagger, 1u32));
    let s9 = push_if(s8, !g.has_explosive, (OrbType::Explosive, 1u32));
    assert(spec_orb_pool(g) == s9);
    assert(!s0.contains(x));
    lemma_push_if_contains(s0, !g.burst_buff_active, (OrbType::Burst, 1u32), x);
    lemma_push_if_contains(s1, !g.damage_buff_active, (OrbType::Damage, 1u32), x);
    lemma_push_if_contains(s2, g.shield_count < MAX_SHIELD_SEGMENTS, (OrbType::Shield, 1u32), x);
    lemma_push_if_contains(s3, drones_remaining(g.drone_count) > 0, (OrbType::Drone, dw), x);
    lemma_push_if_contains(s4, true, (OrbType::DroneRemote, 1u32), x);
    lemma_push_if_contains(s5, !g.fire_rate_buff_active, (OrbType::FireRate, 1u32), x);
    lemma_push_if_contains(s6, !g.pierce_buff_active, (OrbType::Pierce, 1u32), x);
    lemma_push_if_contains(s7, !g.stagger_buff_active, (OrbType::Stagger, 1u32), x);
    lemma_push_if_contains(s8, !g.has_explosive, (OrbType::Explosive, 1u32), x);
}

/// Position of each orb type in the roll order of the pool.
pub open spec fn roll_rank(t: OrbType) -> int {
    match t {
        OrbType::Burst => 0,
        OrbType::Damage => 1,
        OrbType::Shield => 2,
        OrbType::Drone => 3,
        OrbType::DroneRemote => 4,
        OrbType::FireRate => 5,
        OrbType::Pierce => 6,
        OrbType::Stagger => 7,
        OrbType::Explosive => 8,
    }
}

/// The pool always lists its types in one fixed order (Burst, Damage,
/// Shield, Drone, DroneRemote, FireRate, Pierce, Stagger, Explosive), so a
/// weighted roll reaches the same type for the same roll and gates; no type
/// is listed twice.
pub proof fn pool_keeps_roll_order(g: OrbPoolGates, i: int, j: int)
    requires
        g.forced is None,
        0 <= i < j < spec_orb_pool(g).len(),
    ensures
        roll_rank(spec_orb_pool(g)[i].0) < roll_rank(spec_orb_pool(g)[j].0),
{
}

} // verus!
