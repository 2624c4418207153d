use lastconvoy::breach::BreachGroup;

#[test]
fn first_arrival_engages_lock() {
    let mut g = BreachGroup::new();
    assert!(g.admits(true, false));
    assert!(g.join(7));
    assert!(g.locked);
    assert_eq!(g.members, vec![7]);
}

#[test]
fn lock_blocks_arrivals_outside_window() {
    let mut g = BreachGroup::new();
    g.join(1);
    assert!(!g.admits(true, false));
    assert!(g.admits(true, true));
    assert!(!g.join(2));
    assert_eq!(g.members, vec![1, 2]);
}

#[test]
fn cooldown_blocks_new_breach() {
    let g = BreachGroup::new();
    assert!(!g.admits(false, true));
    assert!(g.admits(true, true));
}

#[test]
fn natural_resolution_starts_cooldown() {
    let mut g = BreachGroup::new();
    g.join(1);
    g.join(2);
    g.remove(1);
    assert!(g.locked);
    assert!(!g.settle(true));
    g.remove(2);
    assert!(g.locked);
    assert!(g.settle(true));
    assert!(!g.locked);
    assert!(g.members.is_empty());
}

#[test]
fn settle_without_resolution_releases_without_cooldown() {
    let mut g = BreachGroup::new();
    g.join(3);
    g.remove(3);
    assert!(!g.settle(false));
    assert!(!g.locked);
}

#[test]
fn knockback_releases_lock_without_cooldown() {
    let mut g = BreachGroup::new();
    g.join(4);
    g.join(5);
    g.release(4);
    assert!(g.locked);
    assert_eq!(g.members, vec![5]);
    g.release(5);
    assert!(!g.locked);
    assert!(!g.settle(true));
}

#[test]
fn dead_breachers_leave_the_group() {
    let mut g = BreachGroup::new();
    g.join(1);
    g.join(2);
    g.join(3);
    g.retain_alive(&vec![3, 1, 9]);
    assert_eq!(g.members, vec![1, 3]);
    assert!(g.locked);
    g.retain_alive(&vec![]);
    assert!(g.members.is_empty());
    assert!(!g.locked);
}

#[test]
fn reset_clears_group() {
    let mut g = BreachGroup::new();
    g.join(1);
    g.reset();
    assert!(g.members.is_empty() && !g.locked);
}

#[test]
fn breaching_enemies_stay_in_group() {
    // enemies 1 and 2 wind up; 2 is staggered back; 3 dies elsewhere
    let mut g = BreachGroup::new();
    g.join(1);
    g.join(2);
    g.release(2);
    assert_eq!(g.members, vec![1]);
    g.retain_alive(&vec![1, 2]);
    assert_eq!(g.members, vec![1]);
    assert!(g.locked);
    g.remove(1);
    assert!(g.members.is_empty());
}
