use lastconvoy::shield::{ShieldHitResult, ShieldSegment, ShieldSystem, MAX_SHIELD_SEGMENTS};

fn explosive_flags(s: &ShieldSystem) -> Vec<bool> {
    s.segments.iter().map(|seg| seg.explosive).collect()
}

#[test]
fn new_shield_has_starting_normal_segments() {
    let s = ShieldSystem::new(2);
    assert_eq!(s.count(), 2);
    assert!(!s.has_explosive());
    assert!(s.segments.iter().all(|seg| seg.active));
}

#[test]
fn segment_constructors() {
    let a = ShieldSegment::new(false);
    assert!(!a.active && !a.explosive);
    let b = ShieldSegment::new_explosive();
    assert!(b.active && b.explosive);
}

#[test]
fn add_segments_is_capped() {
    let mut s = ShieldSystem::new(0);
    s.add_segments(1);
    assert_eq!(s.count(), 1);
    s.add_segments(10);
    assert_eq!(s.count(), MAX_SHIELD_SEGMENTS);
    s.add_segments(1);
    assert_eq!(s.count(), 3);
}

#[test]
fn take_hit_without_shield_is_death() {
    let mut s = ShieldSystem::new(0);
    assert!(matches!(s.take_hit(), ShieldHitResult::NoShield));
    assert_eq!(s.count(), 0);
}

#[test]
fn take_hit_removes_one_normal_segment() {
    let mut s = ShieldSystem::new(3);
    assert!(matches!(s.take_hit(), ShieldHitResult::NormalAbsorbed));
    assert_eq!(s.count(), 2);
}

#[test]
fn convert_makes_last_segment_explosive() {
    let mut s = ShieldSystem::new(2);
    s.convert_to_explosive();
    assert_eq!(explosive_flags(&s), vec![false, true]);
}

#[test]
fn convert_with_no_segments_grants_explosive_segment() {
    let mut s = ShieldSystem::new(0);
    s.convert_to_explosive();
    assert_eq!(explosive_flags(&s), vec![true]);
}

#[test]
fn second_explosive_acts_as_plain_shield() {
    let mut s = ShieldSystem::new(1);
    s.convert_to_explosive();
    s.convert_to_explosive();
    assert_eq!(explosive_flags(&s), vec![true, false]);
    s.convert_to_explosive();
    assert_eq!(explosive_flags(&s), vec![true, false, false]);
    // At the cap the extra pickup changes nothing.
    s.convert_to_explosive();
    assert_eq!(explosive_flags(&s), vec![true, false, false]);
}

#[test]
fn explosive_segment_breaks_last() {
    let mut s = ShieldSystem::new(1);
    s.convert_to_explosive();
    s.add_segments(2);
    assert_eq!(explosive_flags(&s), vec![true, false, false]);
    assert!(matches!(s.take_hit(), ShieldHitResult::NormalAbsorbed));
    assert!(matches!(s.take_hit(), ShieldHitResult::NormalAbsorbed));
    assert!(s.has_explosive());
    assert!(matches!(s.take_hit(), ShieldHitResult::ExplosiveBreak));
    assert_eq!(s.count(), 0);
    assert!(matches!(s.take_hit(), ShieldHitResult::NoShield));
}
