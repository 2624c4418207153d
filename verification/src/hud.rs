use vstd::prelude::*;

verus! {

/// ASCII decimal digits of `n`, most significant first, without padding.
pub open spec fn spec_digits(n: nat) -> Seq<u8>
    decreases n,
{
    if n < 10 {
        seq![(48 + n) as u8]
    } else {
        spec_digits(n / 10).push((48 + n % 10) as u8)
    }
}

/// `n` written with at least two digits (`{:02}`).
pub open spec fn spec_two_digits(n: nat) -> Seq<u8> {
    if n < 10 {
        seq![48u8] + spec_digits(n)
    } else {
        spec_digits(n)
    }
}

/// The run clock `MM:SS` for a run of `total` whole seconds; minutes keep
/// counting past 99.
pub open spec fn spec_timer_text(total: nat) -> Seq<u8> {
    spec_two_digits(total / 60) + seq![58u8] + spec_two_digits(total % 60)
}

fn push_digits(out: &mut Vec<u8>, n: u32)
    ensures
        final(out)@ == old(out)@ + spec_digits(n as nat),
    decreases n,
{
    if n >= 10 {
        push_digits(out, n / 10);
    }
    let d: u8 = (n % 10) as u8;
    out.push(48 + d);
    proof {
        assert(out@ =~= old(out)@ + spec_digits(n as nat));
    }
}

fn push_two_digits(out: &mut Vec<u8>, n: u32)
    ensures
        final(out)@ == old(out)@ + spec_two_digits(n as nat),
{
    if n < 10 {
        out.push(48);
        push_digits(out, n);
        proof {
            assert(out@ =~= old(out)@ + spec_two_digits(n as nat));
        }
    } else {
        push_digits(out, n);
    }
}

/// The HUD run clock for `total_secs` whole seconds, as ASCII text: minutes
/// and seconds, each at least two digits, separated by a colon.
pub fn run_timer_text(total_secs: u32) -> (t: Vec<u8>)
    ensures
        t@ == spec_timer_text(total_secs as nat),
{
    let mut out: Vec<u8> = Vec::new();
    push_two_digits(&mut out, total_secs / 60);
    out.push(58);
    push_two_digits(&mut out, total_secs % 60);
    proof {
        assert(out@ =~= spec_timer_text(total_secs as nat));
    }
    out
}

/// An icon of the upgrade bar at the top of the screen.
#[derive(Debug, Clone, Copy, PartialEq, Eq, Structural)]
pub enum HudIcon {
    Damage,
    FireRate,
    Burst,
    Pierce,
    Stagger,
    Shield,
    Explosive,
    Drone,
}

/// What the upgrade bar shows: the five timed buffs that are running, then
/// the lasting pickups.
#[derive(Debug, Clone, Copy, PartialEq, Eq, Structural)]
pub struct HudState {
    pub damage: bool,
    pub fire_rate: bool,
    pub burst: bool,
    pub pierce: bool,
    pub stagger: bool,
    pub shield_count: usize,
    pub starting_shields: u32,
    pub has_explosive: bool,
    pub drone_count: usize,
}

pub open spec fn push_if(s: Seq<HudIcon>, cond: bool, icon: HudIcon) -> Seq<HudIcon> {
    if cond {
        s.push(icon)
    } else {
        s
    }
}

/// The icons, left to right: damage, fire rate, burst, pierce and stagger
/// while those buffs run; the shield icon once there are more segments than
/// the run started with; the explosive icon while an explosive segment
/// stands; the drone icon while a drone is attached.
pub open spec fn spec_hud_icons(h: HudState) -> Seq<HudIcon> {
    let s0 = push_if(Seq::empty(), h.damage, HudIcon::Damage);
    let s1 = push_if(s0, h.fire_rate, HudIcon::FireRate);
    let s2 = push_if(s1, h.burst, HudIcon::Burst);
    let s3 = push_if(s2, h.pierce, HudIcon::Pierce);
    let s4 = push_if(s3, h.stagger, HudIcon::Stagger);
    let s5 = push_if(s4, h.shield_count > h.starting_shields, HudIcon::Shield);
    let s6 = push_if(s5, h.has_explosive, HudIcon::Explosive);
    push_if(s6, h.drone_count > 0, HudIcon::Drone)
}

impl HudIcon {
    /// The five buffs carry a bar under the icon showing the time left.
    pub open spec fn spec_timed(self) -> bool {
        match self {
            HudIcon::Damage | HudIcon::FireRate | HudIcon::Burst | HudIcon::Pierce
            | HudIcon::Stagger => true,
            _ => false,
        }
    }

    pub fn timed(&self) -> (r: bool)
        ensures
            r == self.spec_timed(),
    {
        match self {
            HudIcon::Damage | HudIcon::FireRate | HudIcon::Burst | HudIcon::Pierce
            | HudIcon::Stagger => true,
            _ => false,
        }
    }
}

fn push_icon(out: &mut Vec<HudIcon>, cond: bool, icon: HudIcon)
    ensures
        final(out)@ == push_if(old(out)@, cond, icon),
{
    if cond {
        out.push(icon);
    }
}

/// The icons of the upgrade bar, in drawing order (see `spec_hud_icons`).
pub fn hud_icons(h: &HudState) -> (r: Vec<HudIcon>)
    ensures
        r@ == spec_hud_icons(*h),
{
    let mut out: Vec<HudIcon> = Vec::new();
    push_icon(&mut out, h.damage, HudIcon::Damage);
    push_icon(&mut out, h.fire_rate, HudIcon::FireRate);
    push_icon(&mut out, h.burst, HudIcon::Burst);
    push_icon(&mut out, h.pierce, HudIcon::Pierce);
    push_icon(&mut out, h.stagger, HudIcon::Stagger);
    push_icon(&mut out, h.shield_count > h.starting_shields as usize, HudIcon::Shield);
    push_icon(&mut out, h.has_explosive, HudIcon::Explosive);
    push_icon(&mut out, h.drone_count > 0, HudIcon::Drone);
    out
}

/// Timed buffs always come before the lasting pickups on the bar, and no
/// icon shows twice.
pub proof fn hud_timed_first_no_repeats(h: HudState)
    ensures
        forall|i: int, j: int|
            0 <= i < j < spec_hud_icons(h).len() ==> spec_hud_icons(h)[i] != spec_hud_icons(h)[j],
        forall|i: int, j: int|
            0 <= i < j < spec_hud_icons(h).len() && spec_hud_icons(h)[j].spec_timed()
                ==> spec_hud_icons(h)[i].spec_timed(),
        spec_hud_icons(h).len() <= 8,
{
}

/// The clock always ends in a colon and the two digits of the seconds within
/// the minute, so it reads `MM:SS` whatever the minutes.
pub proof fn timer_ends_with_seconds(total: nat)
    ensures
        spec_timer_text(total).len() >= 5,
        spec_timer_text(total)[spec_timer_text(total).len() - 3] == 58u8,
        spec_timer_text(total)[spec_timer_text(total).len() - 2] == (48 + (total % 60) / 10) as u8,
        spec_timer_text(total)[spec_timer_text(total).len() - 1] == (48 + (total % 60) % 10) as u8,
{
    let s = total % 60;
    let m = total / 60;
    lemma_digits_len(m);
    reveal_with_fuel(spec_digits, 2);
    assert(spec_two_digits(s).len() == 2);
    let t = spec_timer_text(total);
    let head = spec_two_digits(m);
    assert(t == head + seq![58u8] + spec_two_digits(s));
    assert(t[t.len() - 3] == 58u8);
}

/// Every number has at least one digit.
proof fn lemma_digits_len(n: nat)
    ensures
        spec_digits(n).len() >= 1,
        spec_two_digits(n).len() >= 2,
    decreases n,
{
    if n >= 10 {
        lemma_digits_len(n / 10);
    }
}

/// Each icon is on the bar exactly when its own state holds: a buff icon
/// while that buff runs, the shield icon while there are more segments than
/// the run started with, the explosive icon while an explosive segment
/// stands, the drone icon while a drone is attached.
pub proof fn each_icon_follows_its_own_state(h: HudState)
    ensures
        spec_hud_icons(h).contains(HudIcon::Damage) <==> h.damage,
        spec_hud_icons(h).contains(HudIcon::FireRate) <==> h.fire_rate,
        spec_hud_icons(h).contains(HudIcon::Burst) <==> h.burst,
        spec_hud_icons(h).contains(HudIcon::Pierce) <==> h.pierce,
        spec_hud_icons(h).contains(HudIcon::Stagger) <==> h.stagger,
        spec_hud_icons(h).contains(HudIcon::Shield) <==> h.shield_count > h.starting_shields,
        spec_hud_icons(h).contains(HudIcon::Explosive) <==> h.has_explosive,
        spec_hud_icons(h).contains(HudIcon::Drone) <==> h.drone_count > 0,
{
    let s0 = Seq::<HudIcon>::empty();
    let s1 = push_if(s0, h.damage, HudIcon::Damage);
    let s2 = push_if(s1, h.fire_rate, HudIcon::FireRate);
    let s3 = push_if(s2, h.burst, HudIcon::Burst);
    let s4 = push_if(s3, h.pierce, HudIcon::Pierce);
    let s5 = push_if(s4, h.stagger, HudIcon::Stagger);
    let s6 = push_if(s5, h.shield_count > h.starting_shields, HudIcon::Shield);
    let s7 = push_if(s6, h.has_explosive, HudIcon::Explosive);
    let s8 = push_if(s7, h.drone_count > 0, HudIcon::Drone);
    assert(spec_hud_icons(h) == s8);
    assert forall|x: HudIcon| #[trigger] s8.contains(x) <==> ((x == HudIcon::Damage && h.damage)
        || (x == HudIcon::FireRate && h.fire_rate) || (x == HudIcon::Burst && h.burst) || (x
        == HudIcon::Pierce && h.pierce) || (x == HudIcon::Stagger && h.stagger) || (x
        == HudIcon::Shield && h.shield_count > h.starting_shields) || (x == HudIcon::Explosive
        && h.has_explosive) || (x == HudIcon::Drone && h.drone_count > 0)) by {
        lemma_icon_push_if(s0, h.damage, HudIcon::Damage, x);
        lemma_icon_push_if(s1, h.fire_rate, HudIcon::FireRate, x);
        lemma_icon_push_if(s2, h.burst, HudIcon::Burst, x);
        lemma_icon_push_if(s3, h.pierce, HudIcon::Pierce, x);
        lemma_icon_push_if(s4, h.stagger, HudIcon::Stagger, x);
        lemma_icon_push_if(s5, h.shield_count > h.starting_shields, HudIcon::Shield, x);
        lemma_icon_push_if(s6, h.has_explosive, HudIcon::Explosive, x);
        lemma_icon_push_if(s7, h.drone_count > 0, HudIcon::Drone, x);
    }
}

proof fn lemma_icon_push_if(s: Seq<HudIcon>, c: bool, e: HudIcon, x: HudIcon)
    ensures
        push_if(s, c, e).contains(x) <==> (s.contains(x) || (c && x == e)),
{
    if c {
        if s.contains(x) {
            let i = choose|i: int| 0 <= i < s.len() && s[i] == x;
            assert(s.push(e)[i] == x);
        }
        if x == e {
            assert(s.push(e)[s.len() as int] == e);
        }
        if s.push(e).contains(x) {
            let i = choose|i: int| 0 <= i < s.push(e).len() && s.push(e)[i] == x;
            if i < s.len() {
                assert(s[i] == x);
            }
        }
    }
}

} // verus!
