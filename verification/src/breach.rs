use vstd::prelude::*;

verus! {

broadcast use vstd::seq_lib::group_seq_properties;

/// The breach lock: ids of the enemies winding up at the boundary together,
/// and whether the lock is engaged.
pub struct BreachGroup {
    pub members: Vec<u64>,
    pub locked: bool,
}

pub open spec fn not_id(id: u64) -> spec_fn(u64) -> bool {
    |x: u64| x != id
}

pub open spec fn in_seq(alive: Seq<u64>) -> spec_fn(u64) -> bool {
    |x: u64| alive.contains(x)
}

/// Keeps the members other than `id`.
fn without(members: &Vec<u64>, id: u64) -> (r: Vec<u64>)
    ensures
        r@ == members@.filter(not_id(id)),
{
    let n = members.len();
    let mut r: Vec<u64> = Vec::new();
    let mut k: usize = 0;
    while k < n
        invariant
            k <= n,
            n == members@.len(),
            r@ == members@.take(k as int).filter(not_id(id)),
        decreases n - k,
    {
        proof {
            assert(members@.take(k + 1) =~= members@.take(k as int).push(members@[k as int]));
            members@.take(k as int).lemma_filter_push(members@[k as int], not_id(id));
        }
        if members[k] != id {
            r.push(members[k]);
        }
        k = k + 1;
    }
    proof {
        assert(members@.take(n as int) =~= members@);
    }
    r
}

fn contains_id(v: &Vec<u64>, id: u64) -> (r: bool)
    ensures
        r == v@.contains(id),
{
    let n = v.len();
    let mut k: usize = 0;
    while k < n
        invariant
            k <= n,
            n == v@.len(),
            forall|j: int| 0 <= j < k ==> v@[j] != id,
        decreases n - k,
    {
        if v[k] == id {
            proof {
                assert(v@[k as int] == id);
            }
            return true;
        }
        k = k + 1;
    }
    false
}

impl BreachGroup {
    /// Well-formed: members present only while the lock is engaged.
    pub open spec fn wf(&self) -> bool {
        self.members@.len() > 0 ==> self.locked
    }

    /// Settled: the lock is engaged exactly while the group has members.
    pub open spec fn settled(&self) -> bool {
        self.locked <==> self.members@.len() > 0
    }

    /// An empty, unlocked group.
    pub fn new() -> (g: Self)
        ensures
            g.members@.len() == 0,
            !g.locked,
            g.wf(),
            g.settled(),
    {
        BreachGroup { members: Vec::new(), locked: false }
    }

    /// Clears the group and releases the lock.
    pub fn reset(&mut self)
        ensures
            final(self).members@.len() == 0,
            !final(self).locked,
    {
        self.members = Vec::new();
        self.locked = false;
    }

    /// Whether an enemy reaching the boundary starts (or joins) a breach: the
    /// lock must be free and the re-breach cooldown over, or the lock engaged
    /// and the arrival within the simultaneous-breach window of its start.
    pub open spec fn spec_admits(&self, cooldown_expired: bool, within_window: bool) -> bool {
        (!self.locked && cooldown_expired) || (self.locked && within_window)
    }

    pub fn admits(&self, cooldown_expired: bool, within_window: bool) -> (r: bool)
        ensures
            r == self.spec_admits(cooldown_expired, within_window),
    {
        (!self.locked && cooldown_expired) || (self.locked && within_window)
    }

    /// Adds `id` to the group, engaging the lock. Returns true when this
    /// arrival engaged the lock (the breach window starts now).
    pub fn join(&mut self, id: u64) -> (opened: bool)
        requires
            old(self).wf(),
        ensures
            final(self).wf(),
            final(self).settled(),
            final(self).members@ == old(self).members@.push(id),
            final(self).locked,
            opened == !old(self).locked,
    {
        self.members.push(id);
        if !self.locked {
            self.locked = true;
            true
        } else {
            false
        }
    }

    /// Drops `id` from the group without touching the lock (a resolved
    /// breacher; the lock is settled once all resolutions are done).
    pub fn remove(&mut self, id: u64)
        requires
            old(self).wf(),
        ensures
            final(self).wf(),
            final(self).members@ == old(self).members@.filter(not_id(id)),
            final(self).locked == old(self).locked,
    {
        self.members = without(&self.members, id);
        proof {
            old(self).members@.lemma_filter_len(not_id(id));
        }
    }

    /// A breacher knocked back (stagger or explosion) leaves the group; the
    /// lock is released at once if the group empties, and no re-breach
    /// cooldown follows.
    pub fn release(&mut self, id: u64)
        requires
            old(self).wf(),
        ensures
            final(self).wf(),
            final(self).members@ == old(self).members@.filter(not_id(id)),
            final(self).locked == (old(self).locked && final(self).members@.len() > 0),
    {
        self.remove(id);
        if self.members.len() == 0 {
            self.locked = false;
        }
    }

    /// Drops members that are no longer alive (killed mid wind-up); the lock
    /// is released if the group empties.
    pub fn retain_alive(&mut self, alive: &Vec<u64>)
        requires
            old(self).wf(),
        ensures
            final(self).wf(),
            final(self).members@ == old(self).members@.filter(in_seq(alive@)),
            final(self).locked == (old(self).locked && final(self).members@.len() > 0),
    {
        let n = self.members.len();
        let mut r: Vec<u64> = Vec::new();
        let mut k: usize = 0;
        while k < n
            invariant
                k <= n,
                n == self.members@.len(),
                self.members@ == old(self).members@,
                r@ == self.members@.take(k as int).filter(in_seq(alive@)),
            decreases n - k,
        {
            proof {
                assert(self.members@.take(k + 1) =~= self.members@.take(k as int).push(
                    self.members@[k as int],
                ));
                self.members@.take(k as int).lemma_filter_push(
                    self.members@[k as int],
                    in_seq(alive@),
                );
            }
            let id = self.members[k];
            if contains_id(alive, id) {
                r.push(id);
            }
            k = k + 1;
        }
        proof {
            assert(self.members@.take(n as int) =~= self.members@);
            self.members@.lemma_filter_len(in_seq(alive@));
        }
        self.members = r;
        if self.members.len() == 0 {
            self.locked = false;
        }
    }

    /// After a frame's breach resolutions: releases the lock if the group is
    /// empty, and returns whether the re-breach cooldown must start, which is
    /// only when the lock was released after at least one natural resolution.
    pub fn settle(&mut self, had_resolution: bool) -> (start_cooldown: bool)
        requires
            old(self).wf(),
        ensures
            final(self).wf(),
            final(self).settled(),
            final(self).members@ == old(self).members@,
            start_cooldown == (old(self).locked && old(self).members@.len() == 0 && had_resolution),
    {
        if self.locked && self.members.len() == 0 {
            self.locked = false;
            had_resolution
        } else {
            false
        }
    }
}

/// Knocking a breacher back never leaves the lock engaged with nobody in
/// the group.
pub proof fn release_keeps_lock_settled(before: BreachGroup, after: BreachGroup, id: u64)
    requires
        before.wf(),
        after.members@ == before.members@.filter(not_id(id)),
        after.locked == (before.locked && after.members@.len() > 0),
    ensures
        after.wf(),
        after.settled(),
{
    if !before.locked {
        assert(before.members@.len() == 0);
        assert(after.members@.len() <= before.members@.len()) by {
            before.members@.lemma_filter_len(not_id(id));
        }
    }
}

/// While one breach group holds the lock, an arrival outside its
/// simultaneous window never joins: enemies break through one group at a time.
pub proof fn one_breach_group_at_a_time(g: BreachGroup, cooldown_expired: bool)
    requires
        g.locked,
    ensures
        !g.spec_admits(cooldown_expired, false),
{
}

/// During the re-breach cooldown no new breach starts.
pub proof fn cooldown_blocks_new_breach(g: BreachGroup, within_window: bool)
    requires
        !g.locked,
    ensures
        !g.spec_admits(false, within_window),
{
}


/// What the boundary knows of an enemy: its id, whether it is winding up at
/// the boundary, and whether it is still alive.
pub struct EnemyMark {
    pub id: u64,
    pub breaching: bool,
    pub alive: bool,
}

/// Every live enemy that is winding up at the boundary belongs to the
/// breach group.
pub open spec fn group_covers(enemies: Seq<EnemyMark>, members: Seq<u64>) -> bool {
    forall|i: int|
        0 <= i < enemies.len() && (#[trigger] enemies[i]).breaching && enemies[i].alive
            ==> members.contains(enemies[i].id)
}

/// No two enemies share an id.
pub open spec fn ids_distinct(enemies: Seq<EnemyMark>) -> bool {
    forall|i: int, j: int|
        0 <= i < j < enemies.len() ==> (#[trigger] enemies[i]).id != (#[trigger] enemies[j]).id
}

/// An enemy reaching the boundary starts to wind up and `join` adds its id:
/// every live winding-up enemy is still in the group.
pub proof fn join_keeps_group_covering(
    enemies: Seq<EnemyMark>,
    members: Seq<u64>,
    k: int,
)
    requires
        group_covers(enemies, members),
        0 <= k < enemies.len(),
    ensures
        group_covers(
            enemies.update(
                k,
                EnemyMark { id: enemies[k].id, breaching: true, alive: enemies[k].alive },
            ),
            members.push(enemies[k].id),
        ),
{
    let after = enemies.update(
        k,
        EnemyMark { id: enemies[k].id, breaching: true, alive: enemies[k].alive },
    );
    let m = members.push(enemies[k].id);
    assert forall|i: int|
        0 <= i < after.len() && (#[trigger] after[i]).breaching && after[i].alive implies m.contains(
        after[i].id,
    ) by {
        if i == k {
            assert(m[members.len() as int] == enemies[k].id);
        } else {
            let j = choose|j: int| 0 <= j < members.len() && members[j] == enemies[i].id;
            assert(m[j] == members[j]);
        }
    }
}

/// A winding-up enemy that is staggered back (`release`) or whose breach
/// resolves and kills it (`remove`) stops counting, and its id leaves the
/// group: every other live winding-up enemy is still in the group.
pub proof fn leaving_keeps_group_covering(
    enemies: Seq<EnemyMark>,
    members: Seq<u64>,
    k: int,
    breaching: bool,
    alive: bool,
)
    requires
        group_covers(enemies, members),
        ids_distinct(enemies),
        0 <= k < enemies.len(),
        !(breaching && alive),
    ensures
        group_covers(
            enemies.update(k, EnemyMark { id: enemies[k].id, breaching, alive }),
            members.filter(not_id(enemies[k].id)),
        ),
{
    let id = enemies[k].id;
    let after = enemies.update(k, EnemyMark { id, breaching, alive });
    let m = members.filter(not_id(id));
    assert forall|i: int|
        0 <= i < after.len() && (#[trigger] after[i]).breaching && after[i].alive implies m.contains(
        after[i].id,
    ) by {
        assert(i != k);
        assert(enemies[i].id != id);
        let j = choose|j: int| 0 <= j < members.len() && members[j] == enemies[i].id;
        members.filter_lemma(not_id(id));
        assert(not_id(id)(members[j]));
    }
}

/// Dropping the members that are no longer alive (`retain_alive`) keeps
/// every live winding-up enemy in the group.
pub proof fn retain_alive_keeps_group_covering(
    enemies: Seq<EnemyMark>,
    members: Seq<u64>,
    alive: Seq<u64>,
)
    requires
        group_covers(enemies, members),
        forall|i: int| 0 <= i < enemies.len() && (#[trigger] enemies[i]).alive ==> alive.contains(
            enemies[i].id,
        ),
    ensures
        group_covers(enemies, members.filter(in_seq(alive))),
{
    let m = members.filter(in_seq(alive));
    assert forall|i: int|
        0 <= i < enemies.len() && (#[trigger] enemies[i]).breaching && enemies[i].alive implies m.contains(
        enemies[i].id,
    ) by {
        let j = choose|j: int| 0 <= j < members.len() && members[j] == enemies[i].id;
        members.filter_lemma(in_seq(alive));
        assert(in_seq(alive)(members[j]));
    }
}


/// One step of a frame's boundary work, on the enemy at index `k` where it
/// names one.
pub enum FrameStep {
    /// The enemy reaches the boundary, starts winding up, and `join`s.
    Join(usize),
    /// The enemy is knocked back to moving and `release`d.
    Release(usize),
    /// The enemy's breach resolves: it dies and is `remove`d.
    Resolve(usize),
    /// The enemy dies elsewhere (shot down, blown up); the group is untouched.
    Kill(usize),
    /// `retain_alive` with the listed ids, which hold every live enemy's id.
    RetainAlive(Ghost<Seq<u64>>),
    /// `settle`: the lock follows the group.
    Settle,
}

/// The enemies, the group's members and the lock.
pub type BoundaryState = (Seq<EnemyMark>, Seq<u64>, bool);

pub open spec fn marked(e: EnemyMark, breaching: bool, alive: bool) -> EnemyMark {
    EnemyMark { id: e.id, breaching, alive }
}

/// The state after one step, as the group operations' contracts give it.
pub open spec fn step_state(s: BoundaryState, step: FrameStep) -> BoundaryState {
    match step {
        FrameStep::Join(k) => (
            s.0.update(k as int, marked(s.0[k as int], true, s.0[k as int].alive)),
            s.1.push(s.0[k as int].id),
            true,
        ),
        FrameStep::Release(k) => {
            let m = s.1.filter(not_id(s.0[k as int].id));
            (s.0.update(k as int, marked(s.0[k as int], false, s.0[k as int].alive)), m, s.2 && m.len() > 0)
        },
        FrameStep::Resolve(k) => (
            s.0.update(k as int, marked(s.0[k as int], s.0[k as int].breaching, false)),
            s.1.filter(not_id(s.0[k as int].id)),
            s.2,
        ),
        FrameStep::Kill(k) => (
            s.0.update(k as int, marked(s.0[k as int], s.0[k as int].breaching, false)),
            s.1,
            s.2,
        ),
        FrameStep::RetainAlive(alive) => {
            let m = s.1.filter(in_seq(alive@));
            (s.0, m, s.2 && m.len() > 0)
        },
        FrameStep::Settle => (s.0, s.1, s.1.len() > 0),
    }
}

/// The step names an enemy that exists, and a `retain_alive` list holds
/// every live enemy's id.
pub open spec fn step_valid(s: BoundaryState, step: FrameStep) -> bool {
    match step {
        FrameStep::Join(k) => k < s.0.len(),
        FrameStep::Release(k) => k < s.0.len(),
        FrameStep::Resolve(k) => k < s.0.len(),
        FrameStep::Kill(k) => k < s.0.len(),
        FrameStep::RetainAlive(alive) => forall|i: int|
            0 <= i < s.0.len() && (#[trigger] s.0[i]).alive ==> alive@.contains(s.0[i].id),
        FrameStep::Settle => true,
    }
}

/// The state after the steps of a frame, in order.
pub open spec fn frame_state(s: BoundaryState, steps: Seq<FrameStep>) -> BoundaryState
    decreases steps.len(),
{
    if steps.len() == 0 {
        s
    } else {
        step_state(frame_state(s, steps.drop_last()), steps.last())
    }
}

/// Every step of the frame is valid where it happens.
pub open spec fn frame_valid(s: BoundaryState, steps: Seq<FrameStep>) -> bool
    decreases steps.len(),
{
    if steps.len() == 0 {
        true
    } else {
        frame_valid(s, steps.drop_last()) && step_valid(frame_state(s, steps.drop_last()), steps.last())
    }
}

/// The boundary's invariant: ids are distinct, every live winding-up enemy is
/// in the group, and the group only has members while the lock is held.
pub open spec fn boundary_inv(s: BoundaryState) -> bool {
    &&& ids_distinct(s.0)
    &&& group_covers(s.0, s.1)
    &&& (s.1.len() > 0 ==> s.2)
}

proof fn lemma_update_keeps_ids(enemies: Seq<EnemyMark>, k: int, e: EnemyMark)
    requires
        ids_distinct(enemies),
        0 <= k < enemies.len(),
        e.id == enemies[k].id,
    ensures
        ids_distinct(enemies.update(k, e)),
{
    let after = enemies.update(k, e);
    assert forall|i: int, j: int| 0 <= i < j < after.len() implies (#[trigger] after[i]).id
        != (#[trigger] after[j]).id by {
        assert(after[i].id == enemies[i].id);
        assert(after[j].id == enemies[j].id);
    }
}

proof fn lemma_step_keeps_inv(s: BoundaryState, step: FrameStep)
    requires
        boundary_inv(s),
        step_valid(s, step),
    ensures
        boundary_inv(step_state(s, step)),
{
    match step {
        FrameStep::Join(k) => {
            let ki = k as int;
            join_keeps_group_covering(s.0, s.1, ki);
            lemma_update_keeps_ids(s.0, ki, marked(s.0[ki], true, s.0[ki].alive));
        },
        FrameStep::Release(k) => {
            let ki = k as int;
            leaving_keeps_group_covering(s.0, s.1, ki, false, s.0[ki].alive);
            lemma_update_keeps_ids(s.0, ki, marked(s.0[ki], false, s.0[ki].alive));
            s.1.lemma_filter_len(not_id(s.0[ki].id));
        },
        FrameStep::Resolve(k) => {
            let ki = k as int;
            leaving_keeps_group_covering(s.0, s.1, ki, s.0[ki].breaching, false);
            lemma_update_keeps_ids(s.0, ki, marked(s.0[ki], s.0[ki].breaching, false));
            s.1.lemma_filter_len(not_id(s.0[ki].id));
        },
        FrameStep::Kill(k) => {
            let ki = k as int;
            let after = s.0.update(ki, marked(s.0[ki], s.0[ki].breaching, false));
            lemma_update_keeps_ids(s.0, ki, marked(s.0[ki], s.0[ki].breaching, false));
            assert forall|i: int|
                0 <= i < after.len() && (#[trigger] after[i]).breaching && after[i].alive implies s.1.contains(
                after[i].id,
            ) by {
                assert(i != ki);
                assert(after[i] == s.0[i]);
            }
        },
        FrameStep::RetainAlive(alive) => {
            retain_alive_keeps_group_covering(s.0, s.1, alive@);
            s.1.lemma_filter_len(in_seq(alive@));
        },
        FrameStep::Settle => {},
    }
}

/// The whole frame at the boundary keeps the breach invariant: whatever
/// sequence of joins, releases, resolutions, deaths, `retain_alive` and
/// `settle` a frame performs, ids stay distinct, every live winding-up enemy
/// stays in the group, and the group has members only while the lock is
/// held. A frame that ends with `settle` leaves the lock held exactly while
/// the group has members.
pub proof fn frame_keeps_breach_invariant(s: BoundaryState, steps: Seq<FrameStep>)
    requires
        boundary_inv(s),
        frame_valid(s, steps),
    ensures
        boundary_inv(frame_state(s, steps)),
        steps.len() > 0 && steps.last() is Settle ==> (frame_state(s, steps).2 <==> frame_state(
            s,
            steps,
        ).1.len() > 0),
    decreases steps.len(),
{
    if steps.len() > 0 {
        frame_keeps_breach_invariant(s, steps.drop_last());
        lemma_step_keeps_inv(frame_state(s, steps.drop_last()), steps.last());
    }
}

} // verus!
