use vstd::prelude::*;

use crate::config::MAX_ATTACHED_DRONES;
use crate::shield::MAX_SHIELD_SEGMENTS;

verus! {

/// The four biomes a run loops through, in order.
#[derive(Debug, Clone, Copy, PartialEq, Eq, Structural)]
pub enum Biome {
    InfectedAtmosphere,
    LowOrbit,
    OuterSystem,
    DeepSpace,
}

pub open spec fn spec_ordinal(b: Biome) -> u32 {
    match b {
        Biome::InfectedAtmosphere => 1,
        Biome::LowOrbit => 2,
        Biome::OuterSystem => 3,
        Biome::DeepSpace => 4,
    }
}

pub open spec fn spec_next(b: Biome) -> Option<Biome> {
    match b {
        Biome::InfectedAtmosphere => Some(Biome::LowOrbit),
        Biome::LowOrbit => Some(Biome::OuterSystem),
        Biome::OuterSystem => Some(Biome::DeepSpace),
        Biome::DeepSpace => None,
    }
}

/// The biome after `b` once its boss falls: the next one, or the first again
/// (starting a new loop) after the last.
pub open spec fn spec_advance(b: Biome) -> Biome {
    match spec_next(b) {
        Some(n) => n,
        None => Biome::InfectedAtmosphere,
    }
}

impl Biome {
    /// The following biome; `None` after the last one.
    pub fn next(&self) -> (r: Option<Biome>)
        ensures
            r == spec_next(*self),
    {
        match self {
            Biome::InfectedAtmosphere => Some(Biome::LowOrbit),
            Biome::LowOrbit => Some(Biome::OuterSystem),
            Biome::OuterSystem => Some(Biome::DeepSpace),
            Biome::DeepSpace => None,
        }
    }
}

/// 1-based position of `biome` in the loop.
pub fn biome_ordinal(biome: Biome) -> (r: u32)
    ensures
        r == spec_ordinal(biome),
        1 <= r <= 4,
{
    match biome {
        Biome::InfectedAtmosphere => 1,
        Biome::LowOrbit => 2,
        Biome::OuterSystem => 3,
        Biome::DeepSpace => 4,
    }
}

/// Advances to the next biome, wrapping to the first. Returns the new biome
/// and whether a new loop began.
pub fn advance_biome(current: Biome) -> (r: (Biome, bool))
    ensures
        r.0 == spec_advance(current),
        r.1 == (spec_next(current) is None),
{
    match current.next() {
        Some(next) => (next, false),
        None => (Biome::InfectedAtmosphere, true),
    }
}

/// Shield segments allowed in `biome`: one in the first biome, two in the
/// second, the global cap afterwards; a permanent bonus adds to the biome
/// value, never beyond the global cap.
pub open spec fn spec_shield_cap(biome: Biome, bonus: u32) -> nat {
    let base: nat = match biome {
        Biome::InfectedAtmosphere => 1,
        Biome::LowOrbit => 2,
        _ => MAX_SHIELD_SEGMENTS as nat,
    };
    if base + bonus < MAX_SHIELD_SEGMENTS {
        (base + bonus) as nat
    } else {
        MAX_SHIELD_SEGMENTS as nat
    }
}

pub fn biome_shield_cap(biome: Biome, shield_cap_bonus: u32) -> (r: usize)
    ensures
        r == spec_shield_cap(biome, shield_cap_bonus),
        r <= MAX_SHIELD_SEGMENTS,
{
    let base: usize = match biome {
        Biome::InfectedAtmosphere => 1,
        Biome::LowOrbit => 2,
        _ => MAX_SHIELD_SEGMENTS,
    };
    if (shield_cap_bonus as usize) < MAX_SHIELD_SEGMENTS - base {
        base + shield_cap_bonus as usize
    } else {
        MAX_SHIELD_SEGMENTS
    }
}

/// Attached drones allowed in `biome`: none in the first, one in the
/// second, the global cap afterwards.
pub fn biome_drone_cap(biome: Biome) -> (r: usize)
    ensures
        biome == Biome::InfectedAtmosphere ==> r == 0,
        biome == Biome::LowOrbit ==> r == 1,
        biome == Biome::OuterSystem || biome == Biome::DeepSpace ==> r == MAX_ATTACHED_DRONES,
        r <= MAX_ATTACHED_DRONES,
{
    match biome {
        Biome::InfectedAtmosphere => 0,
        Biome::LowOrbit => 1,
        _ => MAX_ATTACHED_DRONES,
    }
}

/// Where a run stands in the biome loop.
pub struct BiomeProgress {
    pub current: Biome,
    /// Highest biome ordinal reached this run.
    pub furthest: u32,
    pub loop_count: u32,
    /// The biome's boss has appeared (the first biome's fight, or a later
    /// biome's boss event).
    pub boss_active: bool,
    /// The card announcing the next biome has been shown; the next expired
    /// tick after it is dismissed moves on.
    pub transition_pending: bool,
}

impl BiomeProgress {
    /// The furthest biome is never behind the current one.
    pub open spec fn wf(&self) -> bool {
        spec_ordinal(self.current) <= self.furthest
    }

    /// A run starting in `start`.
    pub fn new(start: Biome) -> (p: Self)
        ensures
            p.wf(),
            p.current == start,
            p.furthest == spec_ordinal(start),
            p.loop_count == 0,
            !p.boss_active,
            !p.transition_pending,
    {
        BiomeProgress {
            current: start,
            furthest: biome_ordinal(start),
            loop_count: 0,
            boss_active: false,
            transition_pending: false,
        }
    }

    /// Moves on after a biome's boss: to the next biome (raising the furthest
    /// biome reached), or back to the first biome with one more loop counted.
    /// The boss flag clears either way.
    pub fn advance(&mut self)
        requires
            old(self).wf(),
            spec_next(old(self).current) is None ==> old(self).loop_count < u32::MAX,
        ensures
            final(self).wf(),
            *final(self) == spec_advanced(*old(self)),
            final(self).current == spec_advance(old(self).current),
            !final(self).boss_active,
            final(self).transition_pending == old(self).transition_pending,
            spec_next(old(self).current) is Some ==> {
                &&& final(self).loop_count == old(self).loop_count
                &&& final(self).furthest == crate::save::max_u32(
                    old(self).furthest,
                    spec_ordinal(final(self).current),
                )
            },
            spec_next(old(self).current) is None ==> {
                &&& final(self).loop_count == old(self).loop_count + 1
                &&& final(self).furthest == old(self).furthest
            },
    {
        match self.current.next() {
            Some(next) => {
                self.current = next;
                let ord = biome_ordinal(next);
                if ord > self.furthest {
                    self.furthest = ord;
                }
                self.boss_active = false;
            },
            None => {
                self.loop_count = self.loop_count + 1;
                self.current = Biome::InfectedAtmosphere;
                self.boss_active = false;
            },
        }
    }
}

/// What a biome tick asks of the rest of the game.
#[derive(Debug, Clone, Copy, PartialEq, Eq, Structural)]
pub enum BiomeStep {
    /// Nothing changes.
    Wait,
    /// The first biome's time is up: its boss enters the lane.
    SpawnBoss,
    /// The run moved to the next biome, or back to the first for a new loop:
    /// clear the lane and restart spawning.
    Advanced,
    /// Pause on a card that announces `next` (`None`: a new loop begins).
    Announce { next: Option<Biome> },
}

/// `p` after moving on to the next biome.
pub open spec fn spec_advanced(p: BiomeProgress) -> BiomeProgress {
    match spec_next(p.current) {
        Some(n) => BiomeProgress {
            current: n,
            furthest: crate::save::max_u32(p.furthest, spec_ordinal(n)),
            boss_active: false,
            ..p
        },
        None => BiomeProgress {
            current: Biome::InfectedAtmosphere,
            loop_count: (p.loop_count + 1) as u32,
            boss_active: false,
            ..p
        },
    }
}

/// One tick of the biome clock. `expired`: the biome's time is used up;
/// `boss_alive`: the first biome's boss is still in the lane; `card_up`: an
/// event card is on screen.
///
/// The first biome ends in a boss fight: when its time is up the boss
/// spawns, and the run moves on once it is dead. Every later biome ends in a
/// boss event: when its time is up, the card for the next biome is shown, and
/// once it is dismissed the run moves on.
pub open spec fn spec_tick(p: BiomeProgress, expired: bool, boss_alive: bool, card_up: bool) -> (
    BiomeProgress,
    BiomeStep,
) {
    let first = p.current == Biome::InfectedAtmosphere;
    if p.boss_active && first {
        if boss_alive {
            (p, BiomeStep::Wait)
        } else {
            (spec_advanced(p), BiomeStep::Advanced)
        }
    } else if p.boss_active && card_up {
        (p, BiomeStep::Wait)
    } else if !expired {
        (p, BiomeStep::Wait)
    } else if first {
        (BiomeProgress { boss_active: true, ..p }, BiomeStep::SpawnBoss)
    } else if p.transition_pending {
        (
            spec_advanced(BiomeProgress { boss_active: true, transition_pending: false, ..p }),
            BiomeStep::Advanced,
        )
    } else {
        (
            BiomeProgress { boss_active: true, transition_pending: true, ..p },
            BiomeStep::Announce { next: spec_next(p.current) },
        )
    }
}

impl BiomeProgress {
    /// Runs one tick of the biome clock (see `spec_tick`).
    pub fn tick(&mut self, expired: bool, boss_alive: bool, card_up: bool) -> (r: BiomeStep)
        requires
            old(self).wf(),
            spec_next(old(self).current) is None ==> old(self).loop_count < u32::MAX,
        ensures
            final(self).wf(),
            (*final(self), r) == spec_tick(*old(self), expired, boss_alive, card_up),
    {
        let first = self.current == Biome::InfectedAtmosphere;
        if self.boss_active && first {
            if boss_alive {
                return BiomeStep::Wait;
            }
            self.advance();
            return BiomeStep::Advanced;
        }
        if self.boss_active && card_up {
            return BiomeStep::Wait;
        }
        if !expired {
            return BiomeStep::Wait;
        }
        if first {
            self.boss_active = true;
            return BiomeStep::SpawnBoss;
        }
        self.boss_active = true;
        if self.transition_pending {
            self.transition_pending = false;
            self.advance();
            BiomeStep::Advanced
        } else {
            self.transition_pending = true;
            BiomeStep::Announce { next: self.current.next() }
        }
    }
}

/// The first biome's boss blocks the way: while it lives, ticks change nothing.
pub proof fn boss_blocks_first_biome(p: BiomeProgress, expired: bool, card_up: bool)
    requires
        p.current == Biome::InfectedAtmosphere,
        p.boss_active,
    ensures
        spec_tick(p, expired, true, card_up) == (p, BiomeStep::Wait),
        spec_tick(p, expired, false, card_up).1 == BiomeStep::Advanced,
        spec_tick(p, expired, false, card_up).0.current == Biome::LowOrbit,
{
}

/// Before a biome's time is up and before its boss appears, ticks change nothing.
pub proof fn nothing_happens_before_time(p: BiomeProgress, boss_alive: bool, card_up: bool)
    requires
        !p.boss_active,
    ensures
        spec_tick(p, false, boss_alive, card_up) == (p, BiomeStep::Wait),
{
}

/// In a later biome, once its time is up, the run announces the next biome,
/// then waits while the card is up, and moves on at the first tick after the
/// card is dismissed.
pub proof fn later_biome_announces_then_advances(p: BiomeProgress, boss_alive: bool)
    requires
        p.wf(),
        p.current != Biome::InfectedAtmosphere,
        !p.boss_active,
        !p.transition_pending,
    ensures
        spec_tick(p, true, boss_alive, false).1 == (BiomeStep::Announce { next: spec_next(p.current) }),
        spec_tick(spec_tick(p, true, boss_alive, false).0, true, boss_alive, true).1
            == BiomeStep::Wait,
        spec_tick(spec_tick(p, true, boss_alive, false).0, true, boss_alive, false).1
            == BiomeStep::Advanced,
        spec_tick(spec_tick(p, true, boss_alive, false).0, true, boss_alive, false).0.current
            == spec_advance(p.current),
        !spec_tick(spec_tick(p, true, boss_alive, false).0, true, boss_alive, false).0.boss_active,
        !spec_tick(
            spec_tick(p, true, boss_alive, false).0,
            true,
            boss_alive,
            false,
        ).0.transition_pending,
{
}

pub open spec fn advance_n(b: Biome, n: nat) -> Biome
    decreases n,
{
    if n == 0 {
        b
    } else {
        advance_n(spec_advance(b), (n - 1) as nat)
    }
}

/// The run loops: four biome advances bring any biome back to itself.
pub proof fn four_advances_loop(b: Biome)
    ensures
        advance_n(b, 4) == b,
{
    reveal_with_fuel(advance_n, 5);
}

/// Advancing moves one step along the loop's order, wrapping after the last.
pub proof fn advance_steps_ordinal(b: Biome)
    ensures
        spec_ordinal(spec_advance(b)) == if spec_ordinal(b) == 4 {
            1
        } else {
            spec_ordinal(b) + 1
        },
{
}

/// Shield caps never decrease along a loop, and never exceed the global cap.
pub proof fn shield_cap_grows_along_loop(b: Biome, bonus: u32)
    ensures
        spec_next(b) matches Some(n) ==> spec_shield_cap(b, bonus) <= spec_shield_cap(n, bonus),
        spec_shield_cap(b, bonus) <= MAX_SHIELD_SEGMENTS,
{
}

} // verus!
