use vstd::prelude::*;

verus! {

/// The frame after `frame` in an animation of `count` frames: forward
/// animations wrap around; ping-pong animations bounce at either end
/// (`dir` is +1 forward, -1 backward). Returns the new frame and direction.
pub open spec fn spec_step_frame(frame: u32, count: u32, dir: i8, pingpong: bool) -> (u32, i8) {
    if pingpong {
        let next = frame + dir;
        if next >= count {
            (if count >= 2 {
                (count - 2) as u32
            } else {
                0
            }, -1i8)
        } else if next < 0 {
            (if count - 1 < 1 {
                (count - 1) as u32
            } else {
                1
            }, 1i8)
        } else {
            (next as u32, dir)
        }
    } else {
        (((frame + 1) % (count as int)) as u32, dir)
    }
}

/// Advances an animation by one frame.
pub fn step_frame(frame: u32, count: u32, dir: i8, pingpong: bool) -> (r: (u32, i8))
    requires
        count > 0,
        frame < count,
        dir == 1 || dir == -1,
    ensures
        r == spec_step_frame(frame, count, dir, pingpong),
        r.0 < count,
        r.1 == 1 || r.1 == -1,
{
    if pingpong {
        let next: i64 = frame as i64 + dir as i64;
        if next >= count as i64 {
            let f = if count >= 2 {
                count - 2
            } else {
                0
            };
            (f, -1)
        } else if next < 0 {
            let f = if count - 1 < 1 {
                count - 1
            } else {
                1
            };
            (f, 1)
        } else {
            (next as u32, dir)
        }
    } else {
        ((frame + 1) % count, dir)
    }
}

/// A forward animation of `count` frames comes back to its first frame
/// after exactly `count` steps from frame 0 (it visits each frame once).
pub proof fn forward_wraps_to_start(count: u32)
    requires
        count > 0,
    ensures
        spec_step_frame((count - 1) as u32, count, 1, false).0 == 0,
{
    vstd::arithmetic::div_mod::lemma_mod_self_0(count as int);
}

/// A ping-pong animation of two or more frames turns around at its ends:
/// from the last frame moving forward it steps back to the one before, and
/// from the first frame moving backward it steps on to the second.
pub proof fn pingpong_bounces(count: u32)
    requires
        count >= 2,
    ensures
        spec_step_frame((count - 1) as u32, count, 1, true) == ((count - 2) as u32, -1i8),
        spec_step_frame(0, count, -1i8, true) == (1u32, 1i8),
{
}

/// A frame tag of a sprite sheet: the frames `from..=to`, played forward or
/// ping-pong.
#[derive(Debug, Clone, Copy, PartialEq, Eq, Structural)]
pub struct FrameTag {
    pub from: u32,
    pub to: u32,
    pub pingpong: bool,
}

/// The animations of a sheet as (frame count, ping-pong): one per tag, in tag
/// order; a sheet without tags is a single forward animation over all
/// `total_frames` frames.
pub open spec fn spec_tag_table(tags: Seq<FrameTag>, total_frames: u32) -> Seq<(u32, bool)> {
    if tags.len() == 0 {
        seq![(total_frames, false)]
    } else {
        Seq::new(tags.len(), |i: int| ((tags[i].to - tags[i].from + 1) as u32, tags[i].pingpong))
    }
}

/// Builds the animation table of a sheet (see `spec_tag_table`). Each tag must
/// run forward through the sheet (`from <= to`), and its length must fit a `u32`.
pub fn tag_table(tags: &Vec<FrameTag>, total_frames: u32) -> (r: Vec<(u32, bool)>)
    requires
        forall|i: int|
            0 <= i < tags@.len() ==> #[trigger] tags@[i].from <= tags@[i].to && tags@[i].to
                - tags@[i].from < u32::MAX,
    ensures
        r@ == spec_tag_table(tags@, total_frames),
{
    let mut r: Vec<(u32, bool)> = Vec::new();
    if tags.len() == 0 {
        r.push((total_frames, false));
        proof {
            assert(r@ =~= spec_tag_table(tags@, total_frames));
        }
        return r;
    }
    let mut i: usize = 0;
    while i < tags.len()
        invariant
            i <= tags@.len(),
            tags@.len() > 0,
            r@.len() == i,
            forall|j: int|
                0 <= j < tags@.len() ==> #[trigger] tags@[j].from <= tags@[j].to && tags@[j].to
                    - tags@[j].from < u32::MAX,
            forall|j: int|
                0 <= j < i ==> #[trigger] r@[j] == ((tags@[j].to - tags@[j].from + 1) as u32,
                tags@[j].pingpong),
        decreases tags@.len() - i,
    {
        let t = tags[i];
        r.push((t.to - t.from + 1, t.pingpong));
        i = i + 1;
    }
    proof {
        assert(r@ =~= spec_tag_table(tags@, total_frames));
    }
    r
}

/// Every animation of a sheet whose tags are well formed has at least one
/// frame, so stepping through it is always defined.
pub proof fn tag_animations_are_nonempty(tags: Seq<FrameTag>, total_frames: u32)
    requires
        total_frames > 0,
        forall|i: int|
            0 <= i < tags.len() ==> #[trigger] tags[i].from <= tags[i].to && tags[i].to
                - tags[i].from < u32::MAX,
    ensures
        forall|i: int|
            0 <= i < spec_tag_table(tags, total_frames).len() ==> #[trigger] spec_tag_table(
                tags,
                total_frames,
            )[i].0 > 0,
{
}

} // verus!
