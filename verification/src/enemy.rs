use vstd::prelude::*;

verus! {

/// Enemy classes of the continuous spawn pool, plus the event-only elite.
#[derive(Debug, Clone, Copy, PartialEq, Eq, Structural)]
pub enum EnemyKind {
    Small,
    Medium,
    Heavy,
    Large,
    Elite,
}

/// Movement state at the boundary.
#[derive(Debug, Clone, Copy, PartialEq, Eq, Structural)]
pub enum EnemyState {
    Moving,
    Breaching,
}

/// The integer combat state of one enemy: hit points, the optional shield
/// layer that must be broken first, hit statistics and the one-shot stagger
/// immunity.
pub struct Hull {
    pub hp: i32,
    pub max_hp: i32,
    pub shielded: bool,
    pub shield_hp: i32,
    pub shots_taken: i32,
    pub damage_taken: i32,
    /// True once the enemy has been knocked back; prevents repeated knockback.
    pub stagger_immune: bool,
}

impl Hull {
    /// A fresh, unshielded enemy hull with `hp` hit points.
    pub fn new(hp: i32) -> (h: Self)
        ensures
            h.hp == hp,
            h.max_hp == hp,
            !h.shielded,
            h.shield_hp == 0,
            h.shots_taken == 0,
            h.damage_taken == 0,
            !h.stagger_immune,
    {
        Hull {
            hp,
            max_hp: hp,
            shielded: false,
            shield_hp: 0,
            shots_taken: 0,
            damage_taken: 0,
            stagger_immune: false,
        }
    }

    /// True while the shield layer still absorbs damage.
    pub open spec fn shield_up(&self) -> bool {
        self.shielded && self.shield_hp > 0
    }

    /// Applies one hit of `amount`. A standing shield layer takes the hit
    /// (and drops once its points reach zero); otherwise the hit points do.
    pub fn take_damage(&mut self, amount: i32)
        requires
            old(self).shots_taken < i32::MAX,
            i32::MIN <= old(self).damage_taken + amount <= i32::MAX,
            old(self).shield_up() ==> i32::MIN <= old(self).shield_hp - amount <= i32::MAX,
            !old(self).shield_up() ==> i32::MIN <= old(self).hp - amount <= i32::MAX,
        ensures
            final(self).shots_taken == old(self).shots_taken + 1,
            final(self).damage_taken == old(self).damage_taken + amount,
            final(self).max_hp == old(self).max_hp,
            final(self).stagger_immune == old(self).stagger_immune,
            old(self).shield_up() ==> {
                &&& final(self).hp == old(self).hp
                &&& final(self).shield_hp == old(self).shield_hp - amount
                &&& final(self).shielded == (final(self).shield_hp > 0)
            },
            !old(self).shield_up() ==> {
                &&& final(self).hp == old(self).hp - amount
                &&& final(self).shield_hp == old(self).shield_hp
                &&& final(self).shielded == old(self).shielded
            },
    {
        self.shots_taken = self.shots_taken + 1;
        self.damage_taken = self.damage_taken + amount;
        if self.shielded && self.shield_hp > 0 {
            self.shield_hp = self.shield_hp - amount;
            if self.shield_hp <= 0 {
                self.shielded = false;
            }
        } else {
            self.hp = self.hp - amount;
        }
    }

    pub fn is_dead(&self) -> (r: bool)
        ensures
            r == (self.hp <= 0),
    {
        self.hp <= 0
    }
}

/// Whether a projectile hit of `damage` on a surviving enemy knocks it back:
/// the stagger buff must be on, the enemy not yet staggered, of kind
/// Small/Medium/Heavy, and a Small one only while it has more than three
/// hits' worth of points left.
pub open spec fn spec_stagger_eligible(kind: EnemyKind, hull: Hull, stagger_enabled: bool, damage: i32) -> bool {
    &&& hull.hp > 0
    &&& !hull.stagger_immune
    &&& stagger_enabled
    &&& (kind == EnemyKind::Small || kind == EnemyKind::Medium || kind == EnemyKind::Heavy)
    &&& !(kind == EnemyKind::Small && hull.hp <= 3 * damage)
}

pub fn stagger_eligible(kind: EnemyKind, hull: &Hull, stagger_enabled: bool, damage: i32) -> (r: bool)
    ensures
        r == spec_stagger_eligible(kind, *hull, stagger_enabled, damage),
{
    let small_and_low = match kind {
        EnemyKind::Small => (hull.hp as i64) <= 3 * (damage as i64),
        _ => false,
    };
    let kind_ok = match kind {
        EnemyKind::Small | EnemyKind::Medium | EnemyKind::Heavy => true,
        _ => false,
    };
    hull.hp > 0 && !hull.stagger_immune && stagger_enabled && kind_ok && !small_and_low
}

/// An explosive-shield detonation pushes only Elite enemies back; every
/// other enemy in its zone is destroyed.
pub fn explosion_pushes_back(kind: EnemyKind) -> (r: bool)
    ensures
        r <==> kind == EnemyKind::Elite,
{
    match kind {
        EnemyKind::Elite => true,
        _ => false,
    }
}

/// Marks a hull as staggered. Returns false, changing nothing, when it was
/// already immune: an enemy is knocked back at most once.
pub fn mark_staggered(hull: &mut Hull) -> (applied: bool)
    ensures
        applied == !old(hull).stagger_immune,
        final(hull).stagger_immune,
        final(hull).hp == old(hull).hp,
        final(hull).shield_hp == old(hull).shield_hp,
        final(hull).shielded == old(hull).shielded,
        final(hull).shots_taken == old(hull).shots_taken,
        final(hull).damage_taken == old(hull).damage_taken,
        final(hull).max_hp == old(hull).max_hp,
{
    if hull.stagger_immune {
        return false;
    }
    hull.stagger_immune = true;
    true
}

/// Knockback applies at most once: once `mark_staggered` has run on a hull,
/// no later hit makes that enemy eligible for stagger again.
pub proof fn stagger_at_most_once(kind: EnemyKind, hull: Hull, stagger_enabled: bool, damage: i32)
    requires
        hull.stagger_immune,
    ensures
        !spec_stagger_eligible(kind, hull, stagger_enabled, damage),
{
}

/// Stagger eligibility by kind: a Medium or Heavy hit by the running stagger
/// buff is knocked back whenever it is alive and not yet staggered, however
/// few hit points it has left; a Small is, except when the hit nearly kills
/// it (at most three times the damage left); a Large or Elite never is.
pub proof fn stagger_by_kind(kind: EnemyKind, hull: Hull, enabled: bool, damage: i32)
    ensures
        (kind == EnemyKind::Medium || kind == EnemyKind::Heavy) ==> (spec_stagger_eligible(
            kind,
            hull,
            enabled,
            damage,
        ) <==> (hull.hp > 0 && !hull.stagger_immune && enabled)),
        kind == EnemyKind::Small ==> (spec_stagger_eligible(kind, hull, enabled, damage) <==> (
        hull.hp > 0 && !hull.stagger_immune && enabled && hull.hp > 3 * damage)),
        (kind == EnemyKind::Large || kind == EnemyKind::Elite) ==> !spec_stagger_eligible(
            kind,
            hull,
            enabled,
            damage,
        ),
{
}

} // verus!
