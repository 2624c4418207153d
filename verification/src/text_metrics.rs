use vstd::prelude::*;

verus! {

/// One character of a string, as the bitmap font sees it.
#[derive(Debug, Clone, Copy, PartialEq, Eq, Structural)]
pub enum TextItem {
    /// `'\n'`: starts a new line.
    Newline,
    /// A character the font draws (itself, or the fallback glyph), moving the
    /// pen by `advance` pixels before scaling.
    Glyph { advance: i32 },
    /// A character the font cannot draw at all; it takes no room.
    Missing,
}

/// Pen movement of one item at the given scale and spacing.
pub open spec fn item_width(it: TextItem, scale: int, spacing: int) -> int {
    match it {
        TextItem::Glyph { advance } => advance * scale + spacing,
        _ => 0,
    }
}

/// Pen movement over the items `a..b`.
pub open spec fn run_width(items: Seq<TextItem>, a: int, b: int, scale: int, spacing: int) -> int
    decreases b - a,
{
    if b <= a {
        0
    } else {
        run_width(items, a, b - 1, scale, spacing) + item_width(items[b - 1], scale, spacing)
    }
}

/// `a..b` is one whole line of `items`: it starts at the beginning or just
/// after a newline, ends at the end or just before a newline, and holds none.
pub open spec fn is_line(items: Seq<TextItem>, a: int, b: int) -> bool {
    &&& 0 <= a <= b <= items.len()
    &&& (a == 0 || items[a - 1] is Newline)
    &&& (b == items.len() || items[b] is Newline)
    &&& forall|k: int| a <= k < b ==> !(#[trigger] items[k] is Newline)
}

/// Newlines among the first `n` items.
pub open spec fn newlines(items: Seq<TextItem>, n: int) -> nat
    decreases n,
{
    if n <= 0 {
        0
    } else {
        newlines(items, n - 1) + if items[n - 1] is Newline {
            1nat
        } else {
            0nat
        }
    }
}

/// The scale and spacing the font draws with: at least 1, and at least 0.
pub open spec fn eff_scale(scale: i32) -> int {
    if scale < 1 {
        1
    } else {
        scale as int
    }
}

pub open spec fn eff_spacing(spacing: i32) -> int {
    if spacing < 0 {
        0
    } else {
        spacing as int
    }
}

/// The size of a text block: its width is that of its widest line (never
/// below 0), and it has one more line than it has newlines.
pub open spec fn measures(items: Seq<TextItem>, scale: i32, spacing: i32, w: int, lines: int) -> bool {
    let s = eff_scale(scale);
    let sp = eff_spacing(spacing);
    &&& w >= 0
    &&& forall|a: int, b: int| #[trigger] is_line(items, a, b) ==> w >= run_width(items, a, b, s, sp)
    &&& (w == 0 || exists|a: int, b: int| #[trigger]
        is_line(items, a, b) && w == run_width(items, a, b, s, sp))
    &&& lines == 1 + newlines(items, items.len() as int)
}

proof fn lemma_run_width_step(items: Seq<TextItem>, a: int, b: int, s: int, sp: int)
    requires
        a <= b,
    ensures
        run_width(items, a, b + 1, s, sp) == run_width(items, a, b, s, sp) + item_width(
            items[b],
            s,
            sp,
        ),
{
}

/// The line holding position `k` (no newline between `a` and `k`) starts at `a`.
proof fn lemma_line_start(items: Seq<TextItem>, a: int, b: int, start: int, i: int)
    requires
        is_line(items, a, b),
        start == 0 || items[start - 1] is Newline,
        0 <= start <= i <= items.len(),
        forall|k: int| start <= k < i ==> !(#[trigger] items[k] is Newline),
        start <= b,
        a <= i,
    ensures
        a == start,
{
    if a < start {
        assert(!(items[start - 1] is Newline));
    } else if a > start {
        assert(!(items[a - 1] is Newline));
    }
}

/// Measures a text block in pixels: the widest line's width and the number of
/// lines (see `measures`). The line height is the caller's to multiply in.
pub fn measure_text(items: &Vec<TextItem>, scale: i32, spacing: i32) -> (r: (i128, u64))
    requires
        items@.len() < u64::MAX,
    ensures
        measures(items@, scale, spacing, r.0 as int, r.1 as int),
{
    let s: i128 = if scale < 1 {
        1
    } else {
        scale as i128
    };
    let sp: i128 = if spacing < 0 {
        0
    } else {
        spacing as i128
    };
    let ghost gs = eff_scale(scale);
    let ghost gsp = eff_spacing(spacing);
    let mut max_w: i128 = 0;
    let mut line_w: i128 = 0;
    let mut lines: u64 = 1;
    let mut i: usize = 0;
    let ghost mut start: int = 0;
    let n = items.len();
    while i < n
        invariant
            n == items@.len(),
            n < u64::MAX,
            s == gs,
            sp == gsp,
            1 <= s < 0x8000_0000,
            0 <= sp < 0x8000_0000,
            0 <= start <= i <= n,
            start == 0 || items@[start - 1] is Newline,
            forall|k: int| start <= k < i ==> !(#[trigger] items@[k] is Newline),
            line_w == run_width(items@, start, i as int, gs, gsp),
            -(i - start) * 0x8000_0000_0000_0000 <= line_w <= (i - start) * 0x8000_0000_0000_0000,
            max_w >= 0,
            max_w <= i * 0x8000_0000_0000_0000,
            forall|a: int, b: int|
                #[trigger] is_line(items@, a, b) && b < start ==> max_w >= run_width(
                    items@,
                    a,
                    b,
                    gs,
                    gsp,
                ),
            max_w == 0 || exists|a: int, b: int| #[trigger]
                is_line(items@, a, b) && b < start && max_w == run_width(items@, a, b, gs, gsp),
            lines == 1 + newlines(items@, i as int),
            lines <= i + 1,
        decreases n - i,
    {
        let it = items[i];
        proof {
            lemma_run_width_step(items@, start, i as int, gs, gsp);
        }
        match it {
            TextItem::Newline => {
                proof {
                    let b = i as int;
                    assert(is_line(items@, start, b));
                    assert forall|a: int, bb: int|
                        #[trigger] is_line(items@, a, bb) && bb < b + 1 implies (if line_w
                        > max_w {
                        line_w as int
                    } else {
                        max_w as int
                    }) >= run_width(items@, a, bb, gs, gsp) by {
                        if bb >= start {
                            if bb < b {
                                assert(!(items@[bb] is Newline));
                            }
                            lemma_line_start(items@, a, bb, start, b);
                        }
                    }
                }
                if line_w > max_w {
                    max_w = line_w;
                }
                line_w = 0;
                lines = lines + 1;
                proof {
                    start = i as int + 1;
                }
            },
            TextItem::Glyph { advance } => {
                proof {
                    assert(-0x8000_0000 <= advance < 0x8000_0000);
                    assert(-0x4000_0000_0000_0000 <= advance * s <= 0x4000_0000_0000_0000)
                        by (nonlinear_arith)
                        requires
                            -0x8000_0000 <= advance < 0x8000_0000,
                            1 <= s < 0x8000_0000,
                    ;
                }
                line_w = line_w + (advance as i128) * s + sp;
            },
            TextItem::Missing => {},
        }
        i = i + 1;
    }
    proof {
        let len = n as int;
        assert(is_line(items@, start, len));
        assert forall|a: int, b: int| #[trigger] is_line(items@, a, b) implies (if line_w
            > max_w {
            line_w as int
        } else {
            max_w as int
        }) >= run_width(items@, a, b, gs, gsp) by {
            if b >= start {
                if b < len {
                    assert(!(items@[b] is Newline));
                }
                lemma_line_start(items@, a, b, start, len);
            }
        }
    }
    if line_w > max_w {
        max_w = line_w;
    }
    (max_w, lines)
}

/// Where the line holding item `k` begins: just after the last newline
/// before `k`, or at the start.
pub open spec fn line_start(items: Seq<TextItem>, k: int) -> int
    decreases k,
{
    if k <= 0 {
        0
    } else if items[k - 1] is Newline {
        k
    } else {
        line_start(items, k - 1)
    }
}

/// Where the pen stands before each item when a text block is drawn from
/// its top-left corner: the pixels moved along the current line so far, and
/// the index of that line.
pub open spec fn pen_at(items: Seq<TextItem>, k: int, scale: i32, spacing: i32) -> (int, int) {
    (
        run_width(items, line_start(items, k), k, eff_scale(scale), eff_spacing(spacing)),
        newlines(items, k) as int,
    )
}

/// The pen position before every item of a text block (see `pen_at`); the
/// glyph of item `k` is drawn there, offset by its own bearing.
pub fn pen_positions(items: &Vec<TextItem>, scale: i32, spacing: i32) -> (r: Vec<(i128, u64)>)
    requires
        items@.len() < u64::MAX,
    ensures
        r@.len() == items@.len(),
        forall|k: int|
            0 <= k < items@.len() ==> (#[trigger] r@[k].0 as int, r@[k].1 as int) == pen_at(
                items@,
                k,
                scale,
                spacing,
            ),
{
    let s: i128 = if scale < 1 {
        1
    } else {
        scale as i128
    };
    let sp: i128 = if spacing < 0 {
        0
    } else {
        spacing as i128
    };
    let ghost gs = eff_scale(scale);
    let ghost gsp = eff_spacing(spacing);
    let mut r: Vec<(i128, u64)> = Vec::new();
    let mut pen_x: i128 = 0;
    let mut line: u64 = 0;
    let mut i: usize = 0;
    let ghost mut start: int = 0;
    let n = items.len();
    while i < n
        invariant
            n == items@.len(),
            n < u64::MAX,
            s == gs,
            sp == gsp,
            1 <= s < 0x8000_0000,
            0 <= sp < 0x8000_0000,
            i <= n,
            r@.len() == i,
            gs == eff_scale(scale),
            gsp == eff_spacing(spacing),
            start == line_start(items@, i as int),
            0 <= start <= i,
            pen_x == run_width(items@, start, i as int, gs, gsp),
            -(i - start) * 0x8000_0000_0000_0000 <= pen_x <= (i - start) * 0x8000_0000_0000_0000,
            line == newlines(items@, i as int),
            line <= i,
            forall|k: int|
                0 <= k < i ==> (#[trigger] r@[k].0 as int, r@[k].1 as int) == pen_at(
                    items@,
                    k,
                    scale,
                    spacing,
                ),
        decreases n - i,
    {
        let ghost before = r@;
        r.push((pen_x, line));
        proof {
            assert forall|k: int| 0 <= k < i + 1 implies (#[trigger] r@[k].0 as int, r@[k].1 as int)
                == pen_at(items@, k, scale, spacing) by {
                if k == i {
                    assert(r@[k] == (pen_x, line));
                } else {
                    assert(r@[k] == before[k]);
                    assert((before[k].0 as int, before[k].1 as int) == pen_at(items@, k, scale, spacing));
                }
            }
        }
        let it = items[i];
        proof {
            lemma_run_width_step(items@, start, i as int, gs, gsp);
        }
        match it {
            TextItem::Newline => {
                pen_x = 0;
                line = line + 1;
                proof {
                    start = i + 1;
                }
            },
            TextItem::Glyph { advance } => {
                proof {
                    assert(-0x4000_0000_0000_0000 <= advance * s <= 0x4000_0000_0000_0000)
                        by (nonlinear_arith)
                        requires
                            -0x8000_0000 <= advance < 0x8000_0000,
                            1 <= s < 0x8000_0000,
                    ;
                }
                pen_x = pen_x + (advance as i128) * s + sp;
            },
            TextItem::Missing => {},
        }
        i = i + 1;
    }
    r
}

/// Where the line holding item `k` ends: at the first newline from `k` on,
/// or at the end.
pub open spec fn line_end(items: Seq<TextItem>, k: int) -> int
    decreases items.len() - k,
{
    if k >= items.len() {
        items.len() as int
    } else if k >= 0 && items[k] is Newline {
        k
    } else {
        line_end(items, k + 1)
    }
}

proof fn lemma_line_start_props(items: Seq<TextItem>, k: int)
    requires
        0 <= k <= items.len(),
    ensures
        0 <= line_start(items, k) <= k,
        line_start(items, k) == 0 || items[line_start(items, k) - 1] is Newline,
        forall|j: int| line_start(items, k) <= j < k ==> !(#[trigger] items[j] is Newline),
    decreases k,
{
    if k > 0 && !(items[k - 1] is Newline) {
        lemma_line_start_props(items, k - 1);
    }
}

proof fn lemma_line_end_props(items: Seq<TextItem>, k: int)
    requires
        0 <= k <= items.len(),
    ensures
        k <= line_end(items, k) <= items.len(),
        line_end(items, k) == items.len() || items[line_end(items, k)] is Newline,
        forall|j: int| k <= j < line_end(items, k) ==> !(#[trigger] items[j] is Newline),
    decreases items.len() - k,
{
    if k < items.len() && !(items[k] is Newline) {
        lemma_line_end_props(items, k + 1);
    }
}

/// With no negative advance, a run only grows as it goes on.
proof fn lemma_run_width_monotone(items: Seq<TextItem>, a: int, b: int, c: int, s: int, sp: int)
    requires
        a <= b <= c,
        s >= 1,
        sp >= 0,
        forall|j: int|
            0 <= j < items.len() ==> (#[trigger] items[j] matches TextItem::Glyph { advance }
                ==> advance >= 0),
        c <= items.len(),
        0 <= a,
    ensures
        run_width(items, a, b, s, sp) <= run_width(items, a, c, s, sp),
    decreases c - b,
{
    if b < c {
        lemma_run_width_monotone(items, a, b, c - 1, s, sp);
        let it = items[c - 1];
        if let TextItem::Glyph { advance } = it {
            assert(advance * s >= 0) by (nonlinear_arith)
                requires
                    advance >= 0,
                    s >= 1,
            ;
        }
    }
}

/// When no glyph moves the pen backwards, every glyph of a text block is
/// drawn within the width that `measure_text` reports for it.
pub proof fn glyphs_within_measured_width(
    items: Seq<TextItem>,
    scale: i32,
    spacing: i32,
    w: int,
    lines: int,
    k: int,
)
    requires
        measures(items, scale, spacing, w, lines),
        forall|j: int|
            0 <= j < items.len() ==> (#[trigger] items[j] matches TextItem::Glyph { advance }
                ==> advance >= 0),
        0 <= k < items.len(),
        items[k] is Glyph,
    ensures
        pen_at(items, k, scale, spacing).0 + item_width(items[k], eff_scale(scale), eff_spacing(spacing))
            <= w,
{
    let s = eff_scale(scale);
    let sp = eff_spacing(spacing);
    let a = line_start(items, k);
    let b = line_end(items, k);
    lemma_line_start_props(items, k);
    lemma_line_end_props(items, k);
    assert forall|j: int| a <= j < b implies !(#[trigger] items[j] is Newline) by {
        if j < k {
        } else {
        }
    }
    assert(is_line(items, a, b));
    lemma_run_width_step(items, a, k, s, sp);
    lemma_run_width_monotone(items, a, k + 1, b, s, sp);
}

} // verus!
