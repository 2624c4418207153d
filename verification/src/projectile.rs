use vstd::prelude::*;

verus! {

/// Who fired a shot.
#[derive(Debug, Clone, Copy, PartialEq, Eq, Structural)]
pub enum ProjectileSource {
    Player,
    Drone,
    RemoteDrone,
}

/// The hit bookkeeping of one shot: whether it still flies, how many more
/// enemies it may pass through, and the enemies it has already hit.
pub struct ShotHits {
    pub alive: bool,
    pub pierce_remaining: i32,
    pub hit_enemies: Vec<u64>,
}

/// Enemies the shot can still hit: its pierce allowance plus the hit that
/// stops it, none once it is gone.
pub open spec fn hits_left(s: ShotHits) -> int {
    if !s.alive {
        0
    } else if s.pierce_remaining > 0 {
        s.pierce_remaining + 1
    } else {
        1
    }
}

/// No enemy id occurs twice.
pub open spec fn distinct_ids(ids: Seq<u64>) -> bool {
    forall|i: int, j: int| 0 <= i < ids.len() && 0 <= j < ids.len() && i != j ==> ids[i] != ids[j]
}

impl ShotHits {
    pub open spec fn wf(&self) -> bool {
        distinct_ids(self.hit_enemies@)
    }

    /// A fresh shot that may pass through `pierce_remaining` enemies.
    pub fn new(pierce_remaining: i32) -> (s: Self)
        ensures
            s.wf(),
            s.alive,
            s.pierce_remaining == pierce_remaining,
            s.hit_enemies@.len() == 0,
    {
        ShotHits { alive: true, pierce_remaining, hit_enemies: Vec::new() }
    }

    /// Whether the shot has already hit enemy `id`.
    pub fn has_hit(&self, id: u64) -> (r: bool)
        ensures
            r == self.hit_enemies@.contains(id),
    {
        let n = self.hit_enemies.len();
        let mut k: usize = 0;
        while k < n
            invariant
                k <= n,
                n == self.hit_enemies@.len(),
                forall|j: int| 0 <= j < k ==> self.hit_enemies@[j] != id,
            decreases n - k,
        {
            if self.hit_enemies[k] == id {
                proof {
                    assert(self.hit_enemies@[k as int] == id);
                }
                return true;
            }
            k = k + 1;
        }
        false
    }

    /// Records a hit on enemy `id`: the shot stops when no pierce is left,
    /// and otherwise spends one pierce.
    pub fn record_hit(&mut self, id: u64)
        requires
            old(self).wf(),
            old(self).alive,
            !old(self).hit_enemies@.contains(id),
        ensures
            final(self).wf(),
            final(self).hit_enemies@ == old(self).hit_enemies@.push(id),
            old(self).pierce_remaining <= 0 ==> !final(self).alive && final(self).pierce_remaining
                == old(self).pierce_remaining,
            old(self).pierce_remaining > 0 ==> final(self).alive && final(self).pierce_remaining
                == old(self).pierce_remaining - 1,
            hits_left(*final(self)) == hits_left(*old(self)) - 1,
    {
        self.hit_enemies.push(id);
        proof {
            let h = self.hit_enemies@;
            assert forall|i: int, j: int| 0 <= i < h.len() && 0 <= j < h.len() && i != j implies h[i]
                != h[j] by {
                if i < h.len() - 1 && j < h.len() - 1 {
                    assert(h[i] == old(self).hit_enemies@[i]);
                    assert(h[j] == old(self).hit_enemies@[j]);
                } else if i == h.len() - 1 {
                    assert(h[j] == old(self).hit_enemies@[j]);
                } else {
                    assert(h[i] == old(self).hit_enemies@[i]);
                }
            }
        }
        if self.pierce_remaining <= 0 {
            self.alive = false;
        } else {
            self.pierce_remaining = self.pierce_remaining - 1;
        }
    }

    /// Removes the shot (blocked by a lane barrier or absorbed by an orb).
    pub fn stop(&mut self)
        ensures
            !final(self).alive,
            final(self).pierce_remaining == old(self).pierce_remaining,
            final(self).hit_enemies@ == old(self).hit_enemies@,
    {
        self.alive = false;
    }
}

/// A shot with `p` pierce never hits more than `max(p, 0) + 1` enemies:
/// every recorded hit spends one of its `hits_left`, which start there.
pub proof fn pierce_bounds_hits(s: ShotHits)
    requires
        s.alive,
    ensures
        hits_left(s) == if s.pierce_remaining > 0 {
            s.pierce_remaining + 1
        } else {
            1
        },
        hits_left(s) >= 1,
{
}

/// A shot that can no longer hit anything is gone.
pub proof fn spent_shot_is_gone(s: ShotHits)
    requires
        hits_left(s) == 0,
    ensures
        !s.alive,
{
}

} // verus!
