use vstd::prelude::*;

verus! {

/// Most shield segments the player can hold.
pub const MAX_SHIELD_SEGMENTS: usize = 3;

/// One shield layer. An explosive segment breaks last and detonates.
pub struct ShieldSegment {
    pub active: bool,
    pub explosive: bool,
}

impl ShieldSegment {
    pub fn new(active: bool) -> (s: Self)
        ensures
            s.active == active,
            !s.explosive,
    {
        ShieldSegment { active, explosive: false }
    }

    pub fn new_explosive() -> (s: Self)
        ensures
            s.active,
            s.explosive,
    {
        ShieldSegment { active: true, explosive: true }
    }
}

/// Result of absorbing one hit.
pub enum ShieldHitResult {
    /// No segments: the player dies.
    NoShield,
    /// A normal segment was consumed.
    NormalAbsorbed,
    /// The explosive segment was consumed: trigger the explosion.
    ExplosiveBreak,
}

/// True when some segment of `s` is explosive.
pub open spec fn any_explosive(s: Seq<ShieldSegment>) -> bool {
    exists|i: int| 0 <= i < s.len() && (#[trigger] s[i]).explosive
}

/// At most one segment of `s` is explosive.
pub open spec fn at_most_one_explosive(s: Seq<ShieldSegment>) -> bool {
    forall|i: int, j: int|
        0 <= i < s.len() && 0 <= j < s.len() && (#[trigger] s[i]).explosive && (#[trigger] s[j]).explosive
            ==> i == j
}

/// Every segment of `s` is normal (not explosive) and active.
pub open spec fn is_normal_run(s: Seq<ShieldSegment>) -> bool {
    forall|i: int| 0 <= i < s.len() ==> (#[trigger] s[i]).active && !s[i].explosive
}

/// Number of segments `add_segments(count)` adds to a shield of `len` segments.
pub open spec fn segments_added(len: nat, count: nat) -> nat {
    if len >= MAX_SHIELD_SEGMENTS {
        0
    } else if count <= MAX_SHIELD_SEGMENTS - len {
        count
    } else {
        (MAX_SHIELD_SEGMENTS - len) as nat
    }
}

/// `i` is the segment a hit removes: the last normal segment, or the last
/// segment when every segment is explosive.
pub open spec fn is_hit_index(s: Seq<ShieldSegment>, i: int) -> bool {
    &&& 0 <= i < s.len()
    &&& forall|j: int| i < j < s.len() ==> (#[trigger] s[j]).explosive
    &&& s[i].explosive ==> i == s.len() - 1 && forall|j: int|
        0 <= j < s.len() ==> (#[trigger] s[j]).explosive
}

/// The segment a hit removes from a non-empty shield.
pub open spec fn hit_index(s: Seq<ShieldSegment>) -> int {
    choose|i: int| is_hit_index(s, i)
}

/// The index that a hit removes is unique.
pub proof fn lemma_hit_index_unique(s: Seq<ShieldSegment>, i: int)
    requires
        is_hit_index(s, i),
    ensures
        hit_index(s) == i,
{
    let k = hit_index(s);
    assert(is_hit_index(s, k));
    if k < i {
        assert(s[i].explosive);
        assert(s[k].explosive);
    } else if i < k {
        assert(s[k].explosive);
        assert(s[i].explosive);
    }
}

/// The player's shield layers.
pub struct ShieldSystem {
    pub segments: Vec<ShieldSegment>,
}

impl View for ShieldSystem {
    type V = Seq<ShieldSegment>;

    open spec fn view(&self) -> Seq<ShieldSegment> {
        self.segments@
    }
}

impl ShieldSystem {
    /// Well-formed: at most one explosive segment.
    pub open spec fn wf(&self) -> bool {
        at_most_one_explosive(self@)
    }

    /// A shield of `starting` normal, active segments.
    pub fn new(starting: u32) -> (s: Self)
        ensures
            s.wf(),
            s@.len() == starting,
            is_normal_run(s@),
    {
        let mut segments: Vec<ShieldSegment> = Vec::new();
        let mut k: u32 = 0;
        while k < starting
            invariant
                k <= starting,
                segments@.len() == k,
                is_normal_run(segments@),
            decreases starting - k,
        {
            segments.push(ShieldSegment::new(true));
            k = k + 1;
        }
        ShieldSystem { segments }
    }

    /// Adds `count` normal, active segments, but never beyond
    /// `MAX_SHIELD_SEGMENTS` in all.
    pub fn add_segments(&mut self, count: u32)
        requires
            old(self).wf(),
        ensures
            final(self).wf(),
            final(self)@.len() == old(self)@.len() + segments_added(old(self)@.len(), count as nat),
            final(self)@.subrange(0, old(self)@.len() as int) == old(self)@,
            is_normal_run(final(self)@.subrange(old(self)@.len() as int, final(self)@.len() as int)),
    {
        let len = self.segments.len();
        let space: usize = if len >= MAX_SHIELD_SEGMENTS {
            0
        } else {
            MAX_SHIELD_SEGMENTS - len
        };
        let to_add: usize = if (count as usize) < space {
            count as usize
        } else {
            space
        };
        let ghost before = self@;
        let mut k: usize = 0;
        while k < to_add
            invariant
                k <= to_add,
                to_add <= MAX_SHIELD_SEGMENTS,
                self@.len() == before.len() + k,
                self@.subrange(0, before.len() as int) == before,
                is_normal_run(self@.subrange(before.len() as int, self@.len() as int)),
            decreases to_add - k,
        {
            let ghost prev = self@;
            self.segments.push(ShieldSegment::new(true));
            proof {
                assert(self@.subrange(0, before.len() as int) =~= prev.subrange(
                    0,
                    before.len() as int,
                ));
                let tail = self@.subrange(before.len() as int, self@.len() as int);
                let prev_tail = prev.subrange(before.len() as int, prev.len() as int);
                assert forall|i: int| 0 <= i < tail.len() implies (#[trigger] tail[i]).active
                    && !tail[i].explosive by {
                    if i < prev_tail.len() {
                        assert(tail[i] == prev_tail[i]);
                    }
                }
            }
            k = k + 1;
        }
        proof {
            let after = self@;
            assert forall|i: int, j: int|
                0 <= i < after.len() && 0 <= j < after.len() && (#[trigger] after[i]).explosive
                    && (#[trigger] after[j]).explosive implies i == j by {
                let tail = after.subrange(before.len() as int, after.len() as int);
                if i >= before.len() {
                    assert(tail[i - before.len()] == after[i]);
                }
                if j >= before.len() {
                    assert(tail[j - before.len()] == after[j]);
                }
                assert(after.subrange(0, before.len() as int)[i] == after[i]);
                assert(after.subrange(0, before.len() as int)[j] == after[j]);
            }
        }
    }

    /// True when any segment is explosive.
    pub fn has_explosive(&self) -> (r: bool)
        ensures
            r == any_explosive(self@),
    {
        let n = self.segments.len();
        let mut k: usize = 0;
        while k < n
            invariant
                k <= n,
                n == self@.len(),
                forall|j: int| 0 <= j < k ==> !(#[trigger] self@[j]).explosive,
            decreases n - k,
        {
            if self.segments[k].explosive {
                return true;
            }
            k = k + 1;
        }
        false
    }

    /// Applies an explosive-shield pickup. With an explosive segment already
    /// present the pickup acts as a plain shield (`add_segments(1)`);
    /// otherwise the last segment turns explosive, or, with no segments, one
    /// fresh explosive segment is granted.
    pub fn convert_to_explosive(&mut self)
        requires
            old(self).wf(),
        ensures
            final(self).wf(),
            any_explosive(final(self)@),
            any_explosive(old(self)@) ==> {
                &&& final(self)@.len() == old(self)@.len() + segments_added(old(self)@.len(), 1)
                &&& final(self)@.subrange(0, old(self)@.len() as int) == old(self)@
                &&& is_normal_run(
                    final(self)@.subrange(old(self)@.len() as int, final(self)@.len() as int),
                )
            },
            !any_explosive(old(self)@) && old(self)@.len() > 0 ==> final(self)@ == old(self)@.update(
                old(self)@.len() - 1,
                ShieldSegment { active: old(self)@.last().active, explosive: true },
            ),
            !any_explosive(old(self)@) && old(self)@.len() == 0 ==> final(self)@ == seq![
                ShieldSegment { active: true, explosive: true },
            ],
    {
        if self.has_explosive() {
            self.add_segments(1);
            return ;
        }
        let n = self.segments.len();
        if n > 0 {
            let active = self.segments[n - 1].active;
            self.segments.set(n - 1, ShieldSegment { active, explosive: true });
            proof {
                assert(self@[n - 1].explosive);
                assert forall|i: int, j: int|
                    0 <= i < self@.len() && 0 <= j < self@.len() && (#[trigger] self@[i]).explosive
                        && (#[trigger] self@[j]).explosive implies i == j by {
                    if i != n - 1 {
                        assert(old(self)@[i] == self@[i]);
                    }
                    if j != n - 1 {
                        assert(old(self)@[j] == self@[j]);
                    }
                }
            }
        } else {
            self.segments.push(ShieldSegment::new_explosive());
            proof {
                assert(self@[0].explosive);
                assert(self@ =~= seq![ShieldSegment { active: true, explosive: true }]);
            }
        }
    }

    /// Absorbs one hit. With no segment the result is `NoShield` and nothing
    /// changes; otherwise the last normal segment is removed (the explosive one
    /// only when no normal segment is left).
    pub fn take_hit(&mut self) -> (r: ShieldHitResult)
        requires
            old(self).wf(),
        ensures
            final(self).wf(),
            old(self)@.len() == 0 ==> r is NoShield && final(self)@ == old(self)@,
            old(self)@.len() > 0 ==> {
                &&& is_hit_index(old(self)@, hit_index(old(self)@))
                &&& final(self)@ == old(self)@.remove(hit_index(old(self)@))
                &&& (r is ExplosiveBreak <==> old(self)@[hit_index(old(self)@)].explosive)
                &&& (r is NormalAbsorbed <==> !old(self)@[hit_index(old(self)@)].explosive)
            },
    {
        let n = self.segments.len();
        if n == 0 {
            return ShieldHitResult::NoShield;
        }
        // Search backwards for the last normal segment.
        let mut k: usize = n;
        while k > 0 && self.segments[k - 1].explosive
            invariant
                k <= n,
                n == self@.len(),
                self@ == old(self)@,
                forall|j: int| k <= j < n ==> (#[trigger] self@[j]).explosive,
            decreases k,
        {
            k = k - 1;
        }
        let idx: usize = if k > 0 {
            k - 1
        } else {
            n - 1
        };
        proof {
            if k > 0 {
                assert(!self@[idx as int].explosive);
            } else {
                assert forall|j: int| 0 <= j < n implies (#[trigger] self@[j]).explosive by {}
            }
            assert(is_hit_index(old(self)@, idx as int));
            lemma_hit_index_unique(old(self)@, idx as int);
        }
        let seg = self.segments.remove(idx);
        proof {
            let s = old(self)@;
            let t = self@;
            assert forall|i: int, j: int|
                0 <= i < t.len() && 0 <= j < t.len() && (#[trigger] t[i]).explosive
                    && (#[trigger] t[j]).explosive implies i == j by {
                let ii = if i < idx { i } else { i + 1 };
                let jj = if j < idx { j } else { j + 1 };
                assert(t[i] == s[ii]);
                assert(t[j] == s[jj]);
            }
        }
        if seg.explosive {
            ShieldHitResult::ExplosiveBreak
        } else {
            ShieldHitResult::NormalAbsorbed
        }
    }

    /// Number of segments remaining.
    pub fn count(&self) -> (r: usize)
        ensures
            r == self@.len(),
    {
        self.segments.len()
    }
}

/// The explosive segment always breaks last: in a well-formed shield a hit
/// consumes the explosive segment only when it is the last segment left.
pub proof fn explosive_breaks_last(s: Seq<ShieldSegment>)
    requires
        at_most_one_explosive(s),
        s.len() > 0,
        s[hit_index(s)].explosive,
    ensures
        s.len() == 1,
{
    hit_index_exists(s);
    if s.len() > 1 {
        assert(s[0].explosive);
        assert(s[1].explosive);
    }
}

/// Scanning down from `k`, some index qualifies as the hit index.
proof fn lemma_hit_index_found(s: Seq<ShieldSegment>, k: int)
    requires
        s.len() > 0,
        -1 <= k < s.len(),
        forall|j: int| k < j < s.len() ==> (#[trigger] s[j]).explosive,
    ensures
        exists|i: int| is_hit_index(s, i),
    decreases k + 1,
{
    if k == -1 {
        assert(is_hit_index(s, s.len() - 1));
    } else if !s[k].explosive {
        assert(is_hit_index(s, k));
    } else {
        lemma_hit_index_found(s, k - 1);
    }
}

/// A non-empty shield always has a segment for the next hit to remove.
pub proof fn hit_index_exists(s: Seq<ShieldSegment>)
    requires
        s.len() > 0,
    ensures
        is_hit_index(s, hit_index(s)),
{
    lemma_hit_index_found(s, s.len() - 1);
}

/// Shield orbs never push the shield past the cap: adding segments to a
/// shield at or under `MAX_SHIELD_SEGMENTS` leaves it at or under the cap.
pub proof fn add_segments_respects_cap(len: nat, count: nat)
    requires
        len <= MAX_SHIELD_SEGMENTS,
    ensures
        len + segments_added(len, count) <= MAX_SHIELD_SEGMENTS,
{
}

} // verus!
