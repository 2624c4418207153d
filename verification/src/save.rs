use vstd::prelude::*;

verus! {

/// Current save format version.
pub const SAVE_VERSION: u32 = 2;
/// Most runs kept in the run history.
pub const MAX_RUN_HISTORY: usize = 50;

/// Orbs collected, per orb type.
#[derive(Debug, Clone)]
pub struct OrbStats {
    pub burst: u32,
    pub damage: u32,
    pub shield: u32,
    pub drone: u32,
    pub drone_remote: u32,
    pub explosive: u32,
    pub fire_rate: u32,
    pub pierce: u32,
    pub stagger: u32,
}

impl Default for OrbStats {
    fn default() -> (r: Self)
        ensures
            r.is_zero(),
    {
        OrbStats {
            burst: 0,
            damage: 0,
            shield: 0,
            drone: 0,
            drone_remote: 0,
            explosive: 0,
            fire_rate: 0,
            pierce: 0,
            stagger: 0,
        }
    }
}

impl OrbStats {
    /// No orb of any type.
    pub open spec fn is_zero(&self) -> bool {
        &&& self.burst == 0
        &&& self.damage == 0
        &&& self.shield == 0
        &&& self.drone == 0
        &&& self.drone_remote == 0
        &&& self.explosive == 0
        &&& self.fire_rate == 0
        &&& self.pierce == 0
        &&& self.stagger == 0
    }

    /// `self + other` fits in `u32` in every field.
    pub open spec fn can_add(&self, other: &OrbStats) -> bool {
        &&& self.burst + other.burst <= u32::MAX
        &&& self.damage + other.damage <= u32::MAX
        &&& self.shield + other.shield <= u32::MAX
        &&& self.drone + other.drone <= u32::MAX
        &&& self.drone_remote + other.drone_remote <= u32::MAX
        &&& self.explosive + other.explosive <= u32::MAX
        &&& self.fire_rate + other.fire_rate <= u32::MAX
        &&& self.pierce + other.pierce <= u32::MAX
        &&& self.stagger + other.stagger <= u32::MAX
    }

    /// `a` is the field-wise sum of `b` and `c`.
    pub open spec fn is_sum(a: OrbStats, b: OrbStats, c: OrbStats) -> bool {
        &&& a.burst == b.burst + c.burst
        &&& a.damage == b.damage + c.damage
        &&& a.shield == b.shield + c.shield
        &&& a.drone == b.drone + c.drone
        &&& a.drone_remote == b.drone_remote + c.drone_remote
        &&& a.explosive == b.explosive + c.explosive
        &&& a.fire_rate == b.fire_rate + c.fire_rate
        &&& a.pierce == b.pierce + c.pierce
        &&& a.stagger == b.stagger + c.stagger
    }

    /// Adds `other` field by field.
    pub fn add(&mut self, other: &OrbStats)
        requires
            old(self).can_add(other),
        ensures
            OrbStats::is_sum(*final(self), *old(self), *other),
    {
        self.burst = self.burst + other.burst;
        self.damage = self.damage + other.damage;
        self.shield = self.shield + other.shield;
        self.drone = self.drone + other.drone;
        self.drone_remote = self.drone_remote + other.drone_remote;
        self.explosive = self.explosive + other.explosive;
        self.fire_rate = self.fire_rate + other.fire_rate;
        self.pierce = self.pierce + other.pierce;
        self.stagger = self.stagger + other.stagger;
    }
}

/// Level of upgrade `id` in the list `levels`: the first entry with that id,
/// 0 when there is none.
pub open spec fn spec_level(levels: Seq<(String, u32)>, id: Seq<char>) -> u32
    decreases levels.len(),
{
    if levels.len() == 0 {
        0
    } else if levels[0].0@ == id {
        levels[0].1
    } else {
        spec_level(levels.drop_first(), id)
    }
}

/// No id occurs twice.
pub open spec fn unique_ids(levels: Seq<(String, u32)>) -> bool {
    forall|i: int, j: int|
        0 <= i < levels.len() && 0 <= j < levels.len() && i != j ==> (#[trigger] levels[i]).0@
            != (#[trigger] levels[j]).0@
}

pub open spec fn has_id(levels: Seq<(String, u32)>, id: Seq<char>) -> bool {
    exists|i: int| 0 <= i < levels.len() && (#[trigger] levels[i]).0@ == id
}

/// With unique ids, the level of the id at `i` is the value at `i`.
pub proof fn lemma_level_at(levels: Seq<(String, u32)>, i: int)
    requires
        unique_ids(levels),
        0 <= i < levels.len(),
    ensures
        spec_level(levels, levels[i].0@) == levels[i].1,
    decreases i,
{
    if i > 0 {
        let rest = levels.drop_first();
        assert(levels[0].0@ != levels[i].0@);
        assert(rest[i - 1] == levels[i]);
        assert forall|a: int, b: int|
            0 <= a < rest.len() && 0 <= b < rest.len() && a != b implies (#[trigger] rest[a]).0@
            != (#[trigger] rest[b]).0@ by {
            assert(rest[a] == levels[a + 1]);
            assert(rest[b] == levels[b + 1]);
        }
        lemma_level_at(rest, i - 1);
    }
}

/// An id not in the list has level 0.
pub proof fn lemma_level_absent(levels: Seq<(String, u32)>, id: Seq<char>)
    requires
        !has_id(levels, id),
    ensures
        spec_level(levels, id) == 0,
    decreases levels.len(),
{
    if levels.len() > 0 {
        assert(levels[0].0@ != id);
        let rest = levels.drop_first();
        assert forall|i: int| 0 <= i < rest.len() implies (#[trigger] rest[i]).0@ != id by {
            assert(rest[i] == levels[i + 1]);
        }
        lemma_level_absent(rest, id);
    }
}

/// Purchased levels of the permanent upgrades, keyed by upgrade id. The
/// three plain counters are the pre-version-2 save format, read only to
/// migrate old saves.
#[derive(Debug, Clone)]
pub struct PermanentUpgrades {
    pub levels: Vec<(String, u32)>,
    pub starting_shields: u32,
    pub starting_drones: u32,
    pub orb_drop_frequency: u32,
}

impl Default for PermanentUpgrades {
    fn default() -> (r: Self)
        ensures
            r.levels@.len() == 0,
            r.starting_shields == 0,
            r.starting_drones == 0,
            r.orb_drop_frequency == 0,
    {
        PermanentUpgrades {
            levels: Vec::new(),
            starting_shields: 0,
            starting_drones: 0,
            orb_drop_frequency: 0,
        }
    }
}

impl PermanentUpgrades {
    pub open spec fn wf(&self) -> bool {
        unique_ids(self.levels@)
    }

    /// Level of upgrade `id` as a function of its id.
    pub open spec fn level_of(&self, id: Seq<char>) -> u32 {
        spec_level(self.levels@, id)
    }

    /// Level of upgrade `id`; 0 when it was never bought.
    pub fn get_level(&self, id: &str) -> (r: u32)
        ensures
            r == self.level_of(id@),
    {
        let key = id.to_owned();
        let n = self.levels.len();
        let mut k: usize = 0;
        proof {
            assert(self.levels@.skip(0) =~= self.levels@);
        }
        while k < n
            invariant
                k <= n,
                n == self.levels@.len(),
                key@ == id@,
                spec_level(self.levels@, id@) == spec_level(self.levels@.skip(k as int), id@),
            decreases n - k,
        {
            proof {
                assert(self.levels@.skip(k as int).drop_first() =~= self.levels@.skip(k + 1));
            }
            if self.levels[k].0 == key {
                return self.levels[k].1;
            }
            k = k + 1;
        }
        0
    }

    /// Sets the level of upgrade `id`, adding the id if it is new.
    pub fn set_level(&mut self, id: &str, level: u32)
        requires
            old(self).wf(),
        ensures
            final(self).wf(),
            final(self).level_of(id@) == level,
            forall|other: Seq<char>|
                other != id@ ==> #[trigger] final(self).level_of(other) == old(self).level_of(other),
            forall|other: Seq<char>|
                #[trigger] has_id(final(self).levels@, other) <==> (has_id(old(self).levels@, other)
                    || other == id@),
            final(self).starting_shields == old(self).starting_shields,
            final(self).starting_drones == old(self).starting_drones,
            final(self).orb_drop_frequency == old(self).orb_drop_frequency,
    {
        let key = id.to_owned();
        let n = self.levels.len();
        let mut k: usize = 0;
        while k < n && !(self.levels[k].0 == key)
            invariant
                k <= n,
                n == self.levels@.len(),
                self.levels@ == old(self).levels@,
                key@ == id@,
                forall|j: int| 0 <= j < k ==> (#[trigger] self.levels@[j]).0@ != id@,
            decreases n - k,
        {
            k = k + 1;
        }
        let ghost before = self.levels@;
        if k < n && self.levels[k].0 == key {
            self.levels.set(k, (key, level));
            proof {
                let after = self.levels@;
                assert(before[k as int].0@ == id@);
                assert forall|a: int, b: int|
                    0 <= a < after.len() && 0 <= b < after.len() && a != b implies (#[trigger] after[a]).0@
                    != (#[trigger] after[b]).0@ by {
                    assert(after[a].0@ == before[a].0@);
                    assert(after[b].0@ == before[b].0@);
                }
                lemma_level_at(after, k as int);
                assert forall|other: Seq<char>| other != id@ implies #[trigger] spec_level(after, other)
                    == spec_level(before, other) by {
                    if has_id(before, other) {
                        let j = choose|j: int| 0 <= j < before.len() && (#[trigger] before[j]).0@ == other;
                        assert(after[j] == before[j]);
                        lemma_level_at(before, j);
                        lemma_level_at(after, j);
                    } else {
                        assert forall|j: int| 0 <= j < after.len() implies (#[trigger] after[j]).0@ != other by {
                            assert(after[j].0@ == before[j].0@);
                        }
                        lemma_level_absent(before, other);
                        lemma_level_absent(after, other);
                    }
                }
                assert forall|other: Seq<char>| #[trigger] has_id(after, other) <==> (has_id(before, other)
                    || other == id@) by {
                    if has_id(after, other) {
                        let j = choose|j: int| 0 <= j < after.len() && (#[trigger] after[j]).0@ == other;
                        assert(before[j].0@ == after[j].0@);
                    }
                    if has_id(before, other) {
                        let j = choose|j: int| 0 <= j < before.len() && (#[trigger] before[j]).0@ == other;
                        assert(before[j].0@ == after[j].0@);
                    }
                    if other == id@ {
                        assert(after[k as int].0@ == other);
                    }
                }
            }
        } else {
            self.levels.push((key, level));
            proof {
                let after = self.levels@;
                assert(!has_id(before, id@));
                assert forall|a: int, b: int|
                    0 <= a < after.len() && 0 <= b < after.len() && a != b implies (#[trigger] after[a]).0@
                    != (#[trigger] after[b]).0@ by {
                    if a < n as int {
                        assert(after[a] == before[a]);
                    }
                    if b < n as int {
                        assert(after[b] == before[b]);
                    }
                }
                lemma_level_at(after, n as int);
                assert forall|other: Seq<char>| other != id@ implies #[trigger] spec_level(after, other)
                    == spec_level(before, other) by {
                    if has_id(before, other) {
                        let j = choose|j: int| 0 <= j < before.len() && (#[trigger] before[j]).0@ == other;
                        assert(after[j] == before[j]);
                        lemma_level_at(before, j);
                        lemma_level_at(after, j);
                    } else {
                        assert forall|j: int| 0 <= j < after.len() implies (#[trigger] after[j]).0@ != other by {
                            if j < n as int {
                                assert(after[j] == before[j]);
                            }
                        }
                        lemma_level_absent(before, other);
                        lemma_level_absent(after, other);
                    }
                }
                assert forall|other: Seq<char>| #[trigger] has_id(after, other) <==> (has_id(before, other)
                    || other == id@) by {
                    if has_id(after, other) {
                        let j = choose|j: int| 0 <= j < after.len() && (#[trigger] after[j]).0@ == other;
                        if j < n as int {
                            assert(before[j] == after[j]);
                        }
                    }
                    if has_id(before, other) {
                        let j = choose|j: int| 0 <= j < before.len() && (#[trigger] before[j]).0@ == other;
                        assert(before[j] == after[j]);
                    }
                    if other == id@ {
                        assert(after[n as int].0@ == other);
                    }
                }
            }
        }
    }
}

/// Story beats seen and characters unlocked.
#[derive(Debug, Clone)]
pub struct StoryProgress {
    pub seen_beats: Vec<String>,
    pub unlocked_characters: Vec<String>,
}

impl Default for StoryProgress {
    fn default() -> (r: Self)
        ensures
            r.seen_beats@.len() == 0,
            r.unlocked_characters@.len() == 0,
    {
        StoryProgress { seen_beats: Vec::new(), unlocked_characters: Vec::new() }
    }
}

/// One finished run, as far as the save's counters are concerned.
#[derive(Debug, Clone)]
pub struct RunRecord {
    pub run_id: u32,
    pub kills: u32,
    pub breaches: u32,
    pub furthest_biome: u32,
    pub loop_count: u32,
    pub orbs_collected: OrbStats,
    pub timestamp: u64,
}

impl Default for RunRecord {
    fn default() -> (r: Self)
        ensures
            r.run_id == 0 && r.kills == 0 && r.breaches == 0 && r.furthest_biome == 0
                && r.loop_count == 0 && r.timestamp == 0,
            r.orbs_collected.is_zero(),
    {
        RunRecord {
            run_id: 0,
            kills: 0,
            breaches: 0,
            furthest_biome: 0,
            loop_count: 0,
            orbs_collected: OrbStats::default(),
            timestamp: 0,
        }
    }
}

/// Cross-run persistent counters: totals, personal bests, meta currency,
/// permanent upgrades and story progress.
#[derive(Debug, Clone)]
pub struct SaveData {
    pub version: u32,
    pub total_runs: u32,
    pub best_kills: u32,
    pub best_loop_count: u32,
    pub best_biome_reached: u32,
    pub lifetime_kills: u32,
    pub lifetime_breaches: u32,
    pub lifetime_orbs_collected: OrbStats,
    pub meta_points: u32,
    pub meta_points_lifetime: u32,
    pub permanent_upgrades: PermanentUpgrades,
    pub story_progress: StoryProgress,
    pub tutorial_dismissed: bool,
}

impl Default for SaveData {
    fn default() -> (r: Self)
        ensures
            r.version == SAVE_VERSION,
            r.total_runs == 0 && r.best_kills == 0 && r.best_loop_count == 0
                && r.best_biome_reached == 0 && r.lifetime_kills == 0 && r.lifetime_breaches == 0
                && r.meta_points == 0 && r.meta_points_lifetime == 0,
            r.lifetime_orbs_collected.is_zero(),
            r.permanent_upgrades.levels@.len() == 0,
            r.permanent_upgrades.starting_shields == 0,
            r.permanent_upgrades.starting_drones == 0,
            r.permanent_upgrades.orb_drop_frequency == 0,
            r.permanent_upgrades.wf(),
            r.story_progress.seen_beats@.len() == 0,
            r.story_progress.unlocked_characters@.len() == 0,
            !r.tutorial_dismissed,
    {
        SaveData {
            version: SAVE_VERSION,
            total_runs: 0,
            best_kills: 0,
            best_loop_count: 0,
            best_biome_reached: 0,
            lifetime_kills: 0,
            lifetime_breaches: 0,
            lifetime_orbs_collected: OrbStats::default(),
            meta_points: 0,
            meta_points_lifetime: 0,
            permanent_upgrades: PermanentUpgrades::default(),
            story_progress: StoryProgress::default(),
            tutorial_dismissed: false,
        }
    }
}

pub open spec fn max_u32(a: u32, b: u32) -> u32 {
    if a > b {
        a
    } else {
        b
    }
}

/// Folds a finished run into the save: one more run, lifetime totals grow
/// by the run's numbers, and each personal best becomes the larger of the
/// old best and the run's value.
pub fn record_run(save: &mut SaveData, record: &RunRecord)
    requires
        old(save).total_runs < u32::MAX,
        old(save).lifetime_kills + record.kills <= u32::MAX,
        old(save).lifetime_breaches + record.breaches <= u32::MAX,
        old(save).lifetime_orbs_collected.can_add(&record.orbs_collected),
    ensures
        final(save).total_runs == old(save).total_runs + 1,
        final(save).lifetime_kills == old(save).lifetime_kills + record.kills,
        final(save).lifetime_breaches == old(save).lifetime_breaches + record.breaches,
        OrbStats::is_sum(
            final(save).lifetime_orbs_collected,
            old(save).lifetime_orbs_collected,
            record.orbs_collected,
        ),
        final(save).best_kills == max_u32(old(save).best_kills, record.kills),
        final(save).best_loop_count == max_u32(old(save).best_loop_count, record.loop_count),
        final(save).best_biome_reached == max_u32(old(save).best_biome_reached, record.furthest_biome),
        final(save).version == old(save).version,
        final(save).meta_points == old(save).meta_points,
        final(save).meta_points_lifetime == old(save).meta_points_lifetime,
        final(save).permanent_upgrades == old(save).permanent_upgrades,
        final(save).story_progress == old(save).story_progress,
        final(save).tutorial_dismissed == old(save).tutorial_dismissed,
{
    save.total_runs = save.total_runs + 1;
    save.lifetime_kills = save.lifetime_kills + record.kills;
    save.lifetime_breaches = save.lifetime_breaches + record.breaches;
    save.lifetime_orbs_collected.add(&record.orbs_collected);
    if record.kills > save.best_kills {
        save.best_kills = record.kills;
    }
    if record.loop_count > save.best_loop_count {
        save.best_loop_count = record.loop_count;
    }
    if record.furthest_biome > save.best_biome_reached {
        save.best_biome_reached = record.furthest_biome;
    }
}

/// The run history after adding `record`: newest first, at most
/// `MAX_RUN_HISTORY` entries.
pub open spec fn spec_push_history<T>(history: Seq<T>, record: T) -> Seq<T> {
    let h = history.insert(0, record);
    if h.len() > MAX_RUN_HISTORY {
        h.subrange(0, MAX_RUN_HISTORY as int)
    } else {
        h
    }
}

/// Puts `record` at the front of the run history and drops the oldest runs
/// beyond `MAX_RUN_HISTORY`.
pub fn push_run_history<T>(history: &mut Vec<T>, record: T)
    ensures
        final(history)@ == spec_push_history(old(history)@, record),
{
    history.insert(0, record);
    history.truncate(MAX_RUN_HISTORY);
}

/// Brings a save of an older format up to `SAVE_VERSION`: saves before
/// version 2 kept three upgrade levels as plain counters; each non-zero one
/// moves into the keyed level list.
pub fn migrate(data: &mut SaveData)
    requires
        old(data).permanent_upgrades.wf(),
    ensures
        final(data).permanent_upgrades.wf(),
        final(data).version == SAVE_VERSION,
        old(data).version >= 2 ==> final(data).permanent_upgrades == old(data).permanent_upgrades,
        old(data).version < 2 ==> {
            let before = old(data).permanent_upgrades;
            let after = final(data).permanent_upgrades;
            &&& after.level_of("starting_shields"@) == (if before.starting_shields > 0 {
                before.starting_shields
            } else {
                before.level_of("starting_shields"@)
            })
            &&& after.level_of("starting_drones"@) == (if before.starting_drones > 0 {
                before.starting_drones
            } else {
                before.level_of("starting_drones"@)
            })
            &&& after.level_of("orb_drop_frequency"@) == (if before.orb_drop_frequency > 0 {
                before.orb_drop_frequency
            } else {
                before.level_of("orb_drop_frequency"@)
            })
            &&& forall|other: Seq<char>|
                other != "starting_shields"@ && other != "starting_drones"@ && other
                    != "orb_drop_frequency"@ ==> #[trigger] after.level_of(other) == before.level_of(
                    other,
                )
        },
        final(data).permanent_upgrades.starting_shields == old(data).permanent_upgrades.starting_shields,
        final(data).permanent_upgrades.starting_drones == old(data).permanent_upgrades.starting_drones,
        final(data).permanent_upgrades.orb_drop_frequency
            == old(data).permanent_upgrades.orb_drop_frequency,
        final(data).total_runs == old(data).total_runs,
        final(data).best_kills == old(data).best_kills,
        final(data).best_loop_count == old(data).best_loop_count,
        final(data).best_biome_reached == old(data).best_biome_reached,
        final(data).lifetime_kills == old(data).lifetime_kills,
        final(data).lifetime_breaches == old(data).lifetime_breaches,
        final(data).lifetime_orbs_collected == old(data).lifetime_orbs_collected,
        final(data).meta_points == old(data).meta_points,
        final(data).meta_points_lifetime == old(data).meta_points_lifetime,
        final(data).story_progress == old(data).story_progress,
        final(data).tutorial_dismissed == old(data).tutorial_dismissed,
        old(data).version == SAVE_VERSION ==> *final(data) == *old(data),
{
    proof {
        reveal_strlit("starting_shields");
        reveal_strlit("starting_drones");
        reveal_strlit("orb_drop_frequency");
    }
    assert("starting_shields"@.len() == 16);
    assert("starting_drones"@.len() == 15);
    assert("orb_drop_frequency"@.len() == 18);
    assert("starting_shields"@ != "starting_drones"@);
    assert("starting_shields"@ != "orb_drop_frequency"@);
    assert("starting_drones"@ != "orb_drop_frequency"@);
    if data.version < 2 {
        let shields = data.permanent_upgrades.starting_shields;
        let drones = data.permanent_upgrades.starting_drones;
        let orb_freq = data.permanent_upgrades.orb_drop_frequency;
        if shields > 0 {
            data.permanent_upgrades.set_level("starting_shields", shields);
        }
        if drones > 0 {
            data.permanent_upgrades.set_level("starting_drones", drones);
        }
        if orb_freq > 0 {
            data.permanent_upgrades.set_level("orb_drop_frequency", orb_freq);
        }
    }
    data.version = SAVE_VERSION;
}

/// The timestamp stored for a finished run, given the whole seconds elapsed
/// since the Unix epoch as the platform's clock reports them (`None` where
/// there is no clock, or it reads before the epoch): those seconds, else 0.
pub fn current_timestamp(since_epoch: Option<u64>) -> (t: u64)
    ensures
        t == match since_epoch {
            Some(secs) => secs,
            None => 0,
        },
{
    match since_epoch {
        Some(secs) => secs,
        None => 0,
    }
}

/// The run history stays bounded and newest first: after adding a run it
/// holds at most `MAX_RUN_HISTORY` runs, the new run first, followed by the
/// previous runs in their order.
pub proof fn history_newest_first<T>(history: Seq<T>, record: T)
    ensures
        spec_push_history(history, record).len() <= MAX_RUN_HISTORY,
        spec_push_history(history, record)[0] == record,
        forall|i: int|
            1 <= i < spec_push_history(history, record).len() ==> #[trigger] spec_push_history(
                history,
                record,
            )[i] == history[i - 1],
{
}

/// Recording a run never lowers a personal best.
pub proof fn bests_never_drop(old_best: u32, value: u32)
    ensures
        max_u32(old_best, value) >= old_best,
        max_u32(old_best, value) >= value,
{
}

} // verus!
