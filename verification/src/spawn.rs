use vstd::prelude::*;

use crate::config::SPAWN_SLOT_COUNT;
use crate::enemy::EnemyKind;
use crate::rng::random_below;

verus! {

/// How far the run has progressed through the enemy introductions (the
/// Medium, Heavy and Large intro times).
#[derive(Debug, Clone, Copy, PartialEq, Eq, Structural)]
pub enum IntroStage {
    /// Before the Medium intro time.
    Opening,
    /// Mediums introduced.
    Medium,
    /// Heavies introduced.
    Heavy,
    /// Larges introduced (or every kind enabled by the debug flag).
    Large,
}

/// The kind of a "big" injected enemy: the forced debug kind if any;
/// otherwise Small in the opening, Medium once Mediums are in, and a roll
/// among the introduced bigger kinds (`roll` indexes Medium, Heavy, Large).
pub open spec fn spec_inject_kind(forced: Option<EnemyKind>, stage: IntroStage, roll: u32) -> EnemyKind {
    match forced {
        Some(k) => k,
        None => match stage {
            IntroStage::Opening => EnemyKind::Small,
            IntroStage::Medium => EnemyKind::Medium,
            IntroStage::Heavy => if roll == 0 {
                EnemyKind::Medium
            } else {
                EnemyKind::Heavy
            },
            IntroStage::Large => if roll == 0 {
                EnemyKind::Medium
            } else if roll == 1 {
                EnemyKind::Heavy
            } else {
                EnemyKind::Large
            },
        },
    }
}

/// Number of kinds a stage rolls among (0 when no roll is made).
pub open spec fn spec_roll_span(forced: Option<EnemyKind>, stage: IntroStage) -> u32 {
    match forced {
        Some(_) => 0,
        None => match stage {
            IntroStage::Heavy => 2,
            IntroStage::Large => 3,
            _ => 0,
        },
    }
}

pub fn inject_kind(forced: Option<EnemyKind>, stage: IntroStage, roll: u32) -> (k: EnemyKind)
    ensures
        k == spec_inject_kind(forced, stage, roll),
{
    match forced {
        Some(k) => k,
        None => match stage {
            IntroStage::Opening => EnemyKind::Small,
            IntroStage::Medium => EnemyKind::Medium,
            IntroStage::Heavy => if roll == 0 {
                EnemyKind::Medium
            } else {
                EnemyKind::Heavy
            },
            IntroStage::Large => if roll == 0 {
                EnemyKind::Medium
            } else if roll == 1 {
                EnemyKind::Heavy
            } else {
                EnemyKind::Large
            },
        },
    }
}

/// Chooses the kind of the next injected enemy, drawing from macroquad's
/// generator only when the stage offers a choice.
pub fn roll_inject_kind(forced: Option<EnemyKind>, stage: IntroStage) -> (k: EnemyKind)
    ensures
        exists|roll: u32|
            (spec_roll_span(forced, stage) > 0 ==> roll < spec_roll_span(forced, stage)) && k
                == spec_inject_kind(forced, stage, roll),
{
    let span: u32 = match forced {
        Some(_) => 0,
        None => match stage {
            IntroStage::Heavy => 2,
            IntroStage::Large => 3,
            _ => 0,
        },
    };
    let roll = if span > 0 {
        random_below(span)
    } else {
        0
    };
    inject_kind(forced, stage, roll)
}

/// An injected enemy is never of a kind not yet introduced, and never Elite
/// (elites come only from elite events).
pub proof fn inject_respects_intro(stage: IntroStage, roll: u32)
    ensures
        spec_inject_kind(None, stage, roll) != EnemyKind::Elite,
        stage == IntroStage::Opening ==> spec_inject_kind(None, stage, roll) == EnemyKind::Small,
        stage == IntroStage::Medium ==> spec_inject_kind(None, stage, roll) == EnemyKind::Medium,
        stage == IntroStage::Heavy ==> spec_inject_kind(None, stage, roll) != EnemyKind::Large,
{
}

/// Moves the spawn-slot cursor forward by `advance` slots, wrapping around
/// the slot row.
pub fn step_spawn_cursor(cursor: usize, advance: usize) -> (r: usize)
    requires
        cursor < SPAWN_SLOT_COUNT,
        advance <= SPAWN_SLOT_COUNT,
    ensures
        r == (cursor + advance) % (SPAWN_SLOT_COUNT as int),
        r < SPAWN_SLOT_COUNT,
{
    (cursor + advance) % SPAWN_SLOT_COUNT
}

/// Advances the spawn-slot cursor by one or two slots, drawn from
/// macroquad's generator.
pub fn advance_spawn_cursor(cursor: usize) -> (r: usize)
    requires
        cursor < SPAWN_SLOT_COUNT,
    ensures
        r < SPAWN_SLOT_COUNT,
        r == (cursor + 1) % (SPAWN_SLOT_COUNT as int) || r == (cursor + 2) % (SPAWN_SLOT_COUNT as int),
{
    let advance = 1 + random_below(2) as usize;
    step_spawn_cursor(cursor, advance)
}

/// The roll chooses fairly among the kinds introduced so far: once Larges
/// are in, the three rolls below the span give three different kinds,
/// Medium, Heavy and Large, so each is reachable; once Heavies are in, the
/// two rolls give Medium and Heavy. Before that no roll is made: Small in the
/// opening, Medium once Mediums are in; a forced kind always wins.
pub proof fn rolls_cover_introduced_kinds(roll: u32, other: u32, forced: EnemyKind)
    ensures
        roll < 3 && other < 3 && roll != other ==> spec_inject_kind(None, IntroStage::Large, roll)
            != spec_inject_kind(None, IntroStage::Large, other),
        roll < 3 ==> {
            let k = spec_inject_kind(None, IntroStage::Large, roll);
            k == EnemyKind::Medium || k == EnemyKind::Heavy || k == EnemyKind::Large
        },
        roll < 2 && other < 2 && roll != other ==> spec_inject_kind(None, IntroStage::Heavy, roll)
            != spec_inject_kind(None, IntroStage::Heavy, other),
        roll < 2 ==> {
            let k = spec_inject_kind(None, IntroStage::Heavy, roll);
            k == EnemyKind::Medium || k == EnemyKind::Heavy
        },
        spec_inject_kind(None, IntroStage::Opening, roll) == EnemyKind::Small,
        spec_inject_kind(None, IntroStage::Medium, roll) == EnemyKind::Medium,
        spec_roll_span(None, IntroStage::Large) == 3,
        spec_roll_span(None, IntroStage::Heavy) == 2,
        forall|stage: IntroStage| spec_inject_kind(Some(forced), stage, roll) == forced,
{
}

} // verus!
