use vstd::prelude::*;

verus! {

/// True when some slot of `slots` is free.
pub open spec fn has_free(slots: Seq<bool>) -> bool {
    exists|i: int| 0 <= i < slots.len() && !#[trigger] slots[i]
}

/// `i` is the first free slot of `slots`.
pub open spec fn is_first_free(slots: Seq<bool>, i: int) -> bool {
    &&& 0 <= i < slots.len()
    &&& !slots[i]
    &&& forall|j: int| 0 <= j < i ==> #[trigger] slots[j]
}

/// Left-boundary occupancy tracker: one flag per slot, `true` when occupied.
pub struct Boundary {
    pub slots: Vec<bool>,
}

impl View for Boundary {
    type V = Seq<bool>;

    open spec fn view(&self) -> Seq<bool> {
        self.slots@
    }
}

impl Boundary {
    /// A tracker with `slot_count` slots, all free.
    pub fn new(slot_count: usize) -> (b: Self)
        ensures
            b@.len() == slot_count,
            forall|i: int| 0 <= i < slot_count ==> !#[trigger] b@[i],
    {
        let mut slots: Vec<bool> = Vec::new();
        let mut k: usize = 0;
        while k < slot_count
            invariant
                k <= slot_count,
                slots@.len() == k,
                forall|i: int| 0 <= i < k ==> !#[trigger] slots@[i],
            decreases slot_count - k,
        {
            slots.push(false);
            k = k + 1;
        }
        Boundary { slots }
    }

    /// Occupies the first free slot and returns its index, or returns `None`
    /// (changing nothing) when every slot is occupied.
    pub fn occupy_slot(&mut self) -> (r: Option<usize>)
        ensures
            r is None <==> !has_free(old(self)@),
            match r {
                Some(i) => is_first_free(old(self)@, i as int) && final(self)@ == old(self)@.update(
                    i as int,
                    true,
                ),
                None => final(self)@ == old(self)@,
            },
    {
        let n = self.slots.len();
        let mut k: usize = 0;
        while k < n
            invariant
                k <= n,
                n == self.slots@.len(),
                self.slots@ == old(self).slots@,
                forall|j: int| 0 <= j < k ==> #[trigger] self.slots@[j],
            decreases n - k,
        {
            if !self.slots[k] {
                self.slots.set(k, true);
                return Some(k);
            }
            k = k + 1;
        }
        proof {
            assert forall|i: int| 0 <= i < self.slots@.len() implies #[trigger] self.slots@[i] by {}
        }
        None
    }

    /// Frees the slot at `slot_idx`; an index past the end changes nothing.
    pub fn release_slot(&mut self, slot_idx: usize)
        ensures
            final(self)@ == if slot_idx < old(self)@.len() {
                old(self)@.update(slot_idx as int, false)
            } else {
                old(self)@
            },
    {
        if slot_idx < self.slots.len() {
            self.slots.set(slot_idx, false);
        }
    }

    /// True when at least one slot is free.
    pub fn has_free_slot(&self) -> (r: bool)
        ensures
            r == has_free(self@),
    {
        let n = self.slots.len();
        let mut k: usize = 0;
        while k < n
            invariant
                k <= n,
                n == self.slots@.len(),
                forall|j: int| 0 <= j < k ==> #[trigger] self.slots@[j],
            decreases n - k,
        {
            if !self.slots[k] {
                return true;
            }
            k = k + 1;
        }
        false
    }
}

/// Releasing the slot that `occupy_slot` just took gives back the tracker
/// as it was before.
pub proof fn occupy_then_release_restores(slots: Seq<bool>, i: int)
    requires
        is_first_free(slots, i),
    ensures
        slots.update(i, true).update(i, false) == slots,
{
    assert(slots.update(i, true).update(i, false) =~= slots);
}

/// After occupying the first free slot, that slot is no longer free, and the
/// next occupation (if any) lands strictly after it.
pub proof fn occupy_moves_forward(slots: Seq<bool>, i: int, k: int)
    requires
        is_first_free(slots, i),
        is_first_free(slots.update(i, true), k),
    ensures
        i < k,
{
    if k <= i {
        assert(slots.update(i, true)[i]);
        assert(slots[k]);
    }
}

} // verus!
