use vstd::prelude::*;

verus! {

broadcast use vstd::seq_lib::group_seq_properties;

/// Glyphs per row of a generated monogram atlas.
pub const MONOGRAM_COLS: u32 = 32;

/// Number of significant bits of `v` (`32 - v.leading_zeros()`).
pub open spec fn bit_len(v: u32) -> nat
    decreases v,
{
    if v == 0 {
        0
    } else {
        1 + bit_len(v / 2)
    }
}

pub open spec fn pow2(k: nat) -> nat
    decreases k,
{
    if k == 0 {
        1
    } else {
        2 * pow2((k - 1) as nat)
    }
}

/// Values below `2^k` have at most `k` bits.
pub proof fn lemma_bit_len_pow(v: u32, k: nat)
    requires
        v < pow2(k),
    ensures
        bit_len(v) <= k,
    decreases v,
{
    if v > 0 {
        assert(k > 0);
        assert((v / 2) < pow2((k - 1) as nat));
        lemma_bit_len_pow((v / 2) as u32, (k - 1) as nat);
    }
}

pub proof fn lemma_bit_len_bound(v: u32)
    ensures
        bit_len(v) <= 32,
{
    reveal_with_fuel(pow2, 33);
    assert(pow2(32) == 0x1_0000_0000);
    lemma_bit_len_pow(v, 32);
}

/// Counts the significant bits of `v`.
pub fn bit_length(v: u32) -> (n: u32)
    ensures
        n == bit_len(v),
        n <= 32,
{
    let mut x: u32 = v;
    let mut n: u32 = 0;
    proof {
        lemma_bit_len_bound(v);
    }
    while x > 0
        invariant
            bit_len(v) == n + bit_len(x),
            bit_len(v) <= 32,
        decreases x,
    {
        x = x / 2;
        n = n + 1;
    }
    n
}

pub open spec fn nat_max(a: nat, b: nat) -> nat {
    if a >= b {
        a
    } else {
        b
    }
}

/// Widest row of a glyph bitmap, in bits (0 with no rows).
pub open spec fn rows_bits(rows: Seq<u32>) -> nat
    decreases rows.len(),
{
    if rows.len() == 0 {
        0
    } else {
        nat_max(rows_bits(rows.drop_last()), bit_len(rows.last()))
    }
}

/// Width of a glyph in the atlas: its widest row, at least one pixel.
pub open spec fn glyph_width(rows: Seq<u32>) -> nat {
    nat_max(rows_bits(rows), 1)
}

/// Height of a glyph in the atlas: its row count, at least one pixel.
pub open spec fn glyph_height(rows: Seq<u32>) -> nat {
    nat_max(rows.len(), 1)
}

pub proof fn lemma_rows_bits_bound(rows: Seq<u32>)
    ensures
        rows_bits(rows) <= 32,
    decreases rows.len(),
{
    if rows.len() > 0 {
        lemma_rows_bits_bound(rows.drop_last());
        lemma_bit_len_bound(rows.last());
    }
}

/// The widest row of `rows`.
pub fn row_bits(rows: &Vec<u32>) -> (n: u32)
    ensures
        n == rows_bits(rows@),
        n <= 32,
{
    let len = rows.len();
    let mut n: u32 = 0;
    let mut k: usize = 0;
    while k < len
        invariant
            k <= len,
            len == rows@.len(),
            n == rows_bits(rows@.take(k as int)),
            n <= 32,
        decreases len - k,
    {
        proof {
            assert(rows@.take(k + 1).drop_last() =~= rows@.take(k as int));
            lemma_rows_bits_bound(rows@.take(k + 1));
        }
        let b = bit_length(rows[k]);
        if b > n {
            n = b;
        }
        k = k + 1;
    }
    proof {
        assert(rows@.take(len as int) =~= rows@);
    }
    n
}

/// Tallest glyph of the entries, in rows.
pub open spec fn tallest(entries: Seq<(char, Vec<u32>)>) -> nat
    decreases entries.len(),
{
    if entries.len() == 0 {
        0
    } else {
        nat_max(tallest(entries.drop_last()), entries.last().1@.len())
    }
}

/// Widest row among all entries, in bits.
pub open spec fn widest(entries: Seq<(char, Vec<u32>)>) -> nat
    decreases entries.len(),
{
    if entries.len() == 0 {
        0
    } else {
        nat_max(widest(entries.drop_last()), rows_bits(entries.last().1@))
    }
}

/// Some entry has at least one row.
pub open spec fn any_rows(entries: Seq<(char, Vec<u32>)>) -> bool {
    exists|i: int| 0 <= i < entries.len() && (#[trigger] entries[i]).1@.len() > 0
}

/// Atlas cell width: the widest row (5 when no glyph has rows, at least 1)
/// plus one pixel of spacing.
pub open spec fn spec_cell_w(entries: Seq<(char, Vec<u32>)>) -> nat {
    (if any_rows(entries) {
        nat_max(widest(entries), 1)
    } else {
        5
    }) + 1
}

/// Atlas cell height: the tallest glyph, at least one row.
pub open spec fn spec_cell_h(entries: Seq<(char, Vec<u32>)>) -> nat {
    nat_max(tallest(entries), 1)
}

/// Rows of cells the atlas needs for `n` glyphs.
pub open spec fn atlas_rows(n: nat) -> nat {
    ((n + MONOGRAM_COLS - 1) / (MONOGRAM_COLS as int)) as nat
}

/// Placement of one glyph in a generated atlas.
pub struct GlyphCell {
    pub ch: char,
    pub ox: u32,
    pub oy: u32,
    pub width: u32,
    pub height: u32,
    /// Horizontal advance in pixels: 4 for a space, 6 otherwise.
    pub advance: u32,
}

/// Layout of a monogram font atlas built from per-glyph row bitmasks.
pub struct MonogramLayout {
    pub cell_w: u32,
    pub cell_h: u32,
    pub atlas_w: u32,
    pub atlas_h: u32,
    pub glyphs: Vec<GlyphCell>,
    /// `?` when the font has it, else space.
    pub fallback: char,
}

/// Glyph `i` of the entries, placed in cell `i` of a grid of
/// `MONOGRAM_COLS` columns.
pub open spec fn spec_cell(entries: Seq<(char, Vec<u32>)>, i: int) -> GlyphCell {
    GlyphCell {
        ch: entries[i].0,
        ox: ((i % (MONOGRAM_COLS as int)) * spec_cell_w(entries)) as u32,
        oy: ((i / (MONOGRAM_COLS as int)) * spec_cell_h(entries)) as u32,
        width: glyph_width(entries[i].1@) as u32,
        height: glyph_height(entries[i].1@) as u32,
        advance: if entries[i].0 == ' ' {
            4
        } else {
            6
        },
    }
}

/// The atlas fits in `u32` coordinates.
pub open spec fn layout_fits(entries: Seq<(char, Vec<u32>)>) -> bool {
    &&& entries.len() + MONOGRAM_COLS <= u32::MAX
    &&& forall|i: int| 0 <= i < entries.len() ==> (#[trigger] entries[i]).1@.len() <= u32::MAX
    &&& atlas_rows(entries.len() as nat) * spec_cell_h(entries) <= u32::MAX
}

/// The font's fallback glyph: `?` when present, else space.
pub open spec fn spec_fallback(entries: Seq<(char, Vec<u32>)>) -> char {
    if exists|i: int| 0 <= i < entries.len() && (#[trigger] entries[i]).0 == '?' {
        '?'
    } else {
        ' '
    }
}

/// Lays out a monogram atlas: every glyph gets a cell of the common cell
/// size, in entry order, `MONOGRAM_COLS` to a row. `None` when there is no
/// glyph.
pub fn monogram_layout(entries: &Vec<(char, Vec<u32>)>) -> (r: Option<MonogramLayout>)
    requires
        layout_fits(entries@),
    ensures
        entries@.len() == 0 <==> r is None,
        r matches Some(l) ==> {
            &&& l.cell_w == spec_cell_w(entries@)
            &&& l.cell_h == spec_cell_h(entries@)
            &&& l.atlas_w == MONOGRAM_COLS * spec_cell_w(entries@)
            &&& l.atlas_h == atlas_rows(entries@.len() as nat) * spec_cell_h(entries@)
            &&& l.glyphs@.len() == entries@.len()
            &&& forall|i: int| 0 <= i < entries@.len() ==> #[trigger] l.glyphs@[i] == spec_cell(entries@, i)
            &&& l.fallback == spec_fallback(entries@)
        },
{
    let n = entries.len();
    if n == 0 {
        return None;
    }
    // Tallest glyph, widest row, and whether any glyph has rows.
    let mut tall: u32 = 0;
    let mut wide: u32 = 0;
    let mut some_rows = false;
    let mut k: usize = 0;
    while k < n
        invariant
            k <= n,
            n == entries@.len(),
            layout_fits(entries@),
            tall == tallest(entries@.take(k as int)),
            wide == widest(entries@.take(k as int)),
            wide <= 32,
            some_rows == any_rows(entries@.take(k as int)),
            tall <= tallest(entries@),
        decreases n - k,
    {
        proof {
            let t = entries@.take(k + 1);
            assert(t.drop_last() =~= entries@.take(k as int));
            assert(t.last() == entries@[k as int]);
            if any_rows(t) && !any_rows(entries@.take(k as int)) {
                let i = choose|i: int| 0 <= i < t.len() && (#[trigger] t[i]).1@.len() > 0;
                if i < k {
                    assert(entries@.take(k as int)[i] == t[i]);
                }
            }
            if any_rows(entries@.take(k as int)) {
                let i = choose|i: int| 0 <= i < k && (#[trigger] entries@.take(k as int)[i]).1@.len() > 0;
                assert(t[i] == entries@.take(k as int)[i]);
            }
            if entries@[k as int].1@.len() > 0 {
                assert(t[k as int] == entries@[k as int]);
            }
            lemma_tallest_prefix(entries@, k + 1);
        }
        let rows = &entries[k].1;
        let h = rows.len() as u32;
        if h > tall {
            tall = h;
        }
        let b = row_bits(rows);
        if b > wide {
            wide = b;
        }
        if rows.len() > 0 {
            some_rows = true;
        }
        k = k + 1;
    }
    proof {
        assert(entries@.take(n as int) =~= entries@);
    }
    let max_bits: u32 = if some_rows {
        if wide > 1 {
            wide
        } else {
            1
        }
    } else {
        5
    };
    let cell_w = max_bits + 1;
    let cell_h = if tall > 1 {
        tall
    } else {
        1
    };
    let rows_count = (n as u32 + (MONOGRAM_COLS - 1)) / MONOGRAM_COLS;
    proof {
        assert(rows_count >= 1);
        assert(cell_h <= rows_count * cell_h) by (nonlinear_arith)
            requires
                rows_count >= 1,
        ;
    }
    let atlas_w = MONOGRAM_COLS * cell_w;
    let atlas_h = rows_count * cell_h;
    let mut glyphs: Vec<GlyphCell> = Vec::new();
    let mut has_question = false;
    let mut i: usize = 0;
    while i < n
        invariant
            i <= n,
            n == entries@.len(),
            layout_fits(entries@),
            cell_w == spec_cell_w(entries@),
            cell_h == spec_cell_h(entries@),
            cell_w <= 34,
            rows_count == atlas_rows(n as nat),
            rows_count * cell_h <= u32::MAX,
            glyphs@.len() == i,
            forall|j: int| 0 <= j < i ==> #[trigger] glyphs@[j] == spec_cell(entries@, j),
            has_question == exists|j: int| 0 <= j < i && (#[trigger] entries@[j]).0 == '?',
        decreases n - i,
    {
        let ch = entries[i].0;
        let rows = &entries[i].1;
        let col = (i as u32) % MONOGRAM_COLS;
        let row = (i as u32) / MONOGRAM_COLS;
        proof {
            assert(row < rows_count);
            assert(row * cell_h <= rows_count * cell_h) by (nonlinear_arith)
                requires
                    row < rows_count,
            ;
            assert(col * cell_w <= 31 * 34) by (nonlinear_arith)
                requires
                    col < 32,
                    cell_w <= 34,
            ;
        }
        let ox = col * cell_w;
        let oy = row * cell_h;
        let b = row_bits(rows);
        let width = if b > 1 {
            b
        } else {
            1
        };
        let len = rows.len() as u32;
        let height = if len > 1 {
            len
        } else {
            1
        };
        let advance: u32 = if ch == ' ' {
            4
        } else {
            6
        };
        glyphs.push(GlyphCell { ch, ox, oy, width, height, advance });
        if ch == '?' {
            has_question = true;
        }
        proof {
            assert(glyphs@[i as int] == spec_cell(entries@, i as int));
        }
        i = i + 1;
    }
    let fallback = if has_question {
        '?'
    } else {
        ' '
    };
    Some(MonogramLayout { cell_w, cell_h, atlas_w, atlas_h, glyphs, fallback })
}

/// A prefix is never taller than the whole list.
pub proof fn lemma_tallest_prefix(entries: Seq<(char, Vec<u32>)>, k: int)
    requires
        0 <= k <= entries.len(),
    ensures
        tallest(entries.take(k)) <= tallest(entries),
    decreases entries.len() - k,
{
    if k < entries.len() {
        lemma_tallest_prefix(entries, k + 1);
        assert(entries.take(k + 1).drop_last() =~= entries.take(k));
    } else {
        assert(entries.take(k) =~= entries);
    }
}

/// Pixel (`px`, `py`) of a glyph is lit: row `py` exists and has bit `px`
/// set, within the glyph's width.
pub open spec fn lit(rows: Seq<u32>, width: u32, px: u32, py: u32) -> bool {
    &&& py < rows.len()
    &&& px < width
    &&& rows[py as int] & (1u32 << px) != 0
}

/// The lit pixels of a glyph bitmap of the given width (at most 32), each
/// once, as (x, y) offsets within the glyph's cell.
pub fn glyph_pixels(rows: &Vec<u32>, width: u32) -> (pixels: Vec<(u32, u32)>)
    requires
        width <= 32,
        rows@.len() <= u32::MAX,
    ensures
        forall|px: u32, py: u32| pixels@.contains((px, py)) <==> lit(rows@, width, px, py),
        forall|a: int, b: int|
            0 <= a < pixels@.len() && 0 <= b < pixels@.len() && a != b ==> pixels@[a] != pixels@[b],
{
    let mut pixels: Vec<(u32, u32)> = Vec::new();
    let n = rows.len();
    let mut py: usize = 0;
    while py < n
        invariant
            py <= n,
            n == rows@.len(),
            n <= u32::MAX,
            width <= 32,
            forall|x: u32, y: u32| pixels@.contains((x, y)) <==> (lit(rows@, width, x, y) && y < py),
            forall|a: int, b: int|
                0 <= a < pixels@.len() && 0 <= b < pixels@.len() && a != b ==> pixels@[a] != pixels@[b],
            forall|a: int| 0 <= a < pixels@.len() ==> pixels@[a].1 < py,
        decreases n - py,
    {
        let bits = rows[py];
        let mut px: u32 = 0;
        while px < width
            invariant
                px <= width,
                width <= 32,
                py < n,
                n == rows@.len(),
                n <= u32::MAX,
                bits == rows@[py as int],
                forall|x: u32, y: u32|
                    pixels@.contains((x, y)) <==> (lit(rows@, width, x, y) && (y < py || (y == py
                        && x < px))),
                forall|a: int, b: int|
                    0 <= a < pixels@.len() && 0 <= b < pixels@.len() && a != b ==> pixels@[a]
                        != pixels@[b],
                forall|a: int|
                    0 <= a < pixels@.len() ==> pixels@[a].1 < py || (pixels@[a].1 == py
                        && pixels@[a].0 < px),
            decreases width - px,
        {
            if bits & (1u32 << px) != 0 {
                let ghost before = pixels@;
                pixels.push((px, py as u32));
                proof {
                    assert(!before.contains((px, py as u32))) by {
                        if before.contains((px, py as u32)) {
                            let a = choose|a: int| 0 <= a < before.len() && before[a] == (px, py as u32);
                            assert(before[a].1 < py || (before[a].1 == py && before[a].0 < px));
                        }
                    }
                    assert forall|x: u32, y: u32|
                        pixels@.contains((x, y)) <==> (lit(rows@, width, x, y) && (y < py || (y
                            == py && x < px + 1))) by {
                        if pixels@.contains((x, y)) && (x, y) != (px, py as u32) {
                            let a = choose|a: int| 0 <= a < pixels@.len() && pixels@[a] == (x, y);
                            assert(before[a] == (x, y));
                        }
                        if before.contains((x, y)) {
                            let a = choose|a: int| 0 <= a < before.len() && before[a] == (x, y);
                            assert(pixels@[a] == (x, y));
                        }
                        if (x, y) == (px, py as u32) {
                            assert(pixels@[before.len() as int] == (x, y));
                        }
                    }
                }
            } else {
                proof {
                    assert forall|x: u32, y: u32|
                        pixels@.contains((x, y)) <==> (lit(rows@, width, x, y) && (y < py || (y
                            == py && x < px + 1))) by {}
                }
            }
            px = px + 1;
        }
        py = py + 1;
    }
    pixels
}

/// The single character a font-metrics key names, `None` for keys of any
/// other length.
pub fn single_char_key(key: &str) -> (r: Option<char>)
    ensures
        key@.len() == 1 ==> r == Some(key@[0]),
        key@.len() != 1 ==> r is None,
{
    if key.unicode_len() == 1 {
        Some(key.get_char(0))
    } else {
        None
    }
}

/// The entries are ordered by character.
pub open spec fn sorted_by_char(s: Seq<(char, Vec<u32>)>) -> bool {
    forall|i: int, j: int| 0 <= i < j < s.len() ==> (#[trigger] s[i]).0 <= (#[trigger] s[j]).0
}

/// Orders glyph entries by character.
pub fn sort_glyph_entries(entries: Vec<(char, Vec<u32>)>) -> (sorted: Vec<(char, Vec<u32>)>)
    ensures
        sorted_by_char(sorted@),
        sorted@.to_multiset() == entries@.to_multiset(),
{
    let mut rest = entries;
    let mut sorted: Vec<(char, Vec<u32>)> = Vec::new();
    while rest.len() > 0
        invariant
            sorted_by_char(sorted@),
            sorted@.to_multiset().add(rest@.to_multiset()) == entries@.to_multiset(),
        decreases rest@.len(),
    {
        let ghost rest_before = rest@;
        let e = rest.pop().unwrap();
        proof {
            assert(rest_before == rest@.push(e));
            vstd::seq_lib::to_multiset_build(rest@, e);
        }
        let n = sorted.len();
        let mut j: usize = 0;
        while j < n && sorted[j].0 <= e.0
            invariant
                j <= n,
                n == sorted@.len(),
                forall|a: int| 0 <= a < j ==> (#[trigger] sorted@[a]).0 <= e.0,
            decreases n - j,
        {
            j = j + 1;
        }
        let ghost before = sorted@;
        proof {
            vstd::seq_lib::to_multiset_insert(before, j as int, e);
        }
        sorted.insert(j, e);
        proof {
            let s = sorted@;
            assert forall|a: int, b: int| 0 <= a < b < s.len() implies (#[trigger] s[a]).0 <= (
            #[trigger] s[b]).0 by {
                if b < j {
                    assert(s[a] == before[a] && s[b] == before[b]);
                } else if b == j {
                    assert(s[a] == before[a]);
                } else if a > j {
                    assert(s[a] == before[a - 1] && s[b] == before[b - 1]);
                } else if a == j {
                    assert(s[b] == before[b - 1]);
                    assert(j < n);
                    assert(!(before[j as int].0 <= e.0));
                    assert(before[j as int].0 <= before[b - 1].0);
                } else {
                    assert(s[a] == before[a] && s[b] == before[b - 1]);
                }
            }
        }
    }
    sorted
}

pub proof fn lemma_widest_bound(entries: Seq<(char, Vec<u32>)>)
    ensures
        widest(entries) <= 32,
    decreases entries.len(),
{
    if entries.len() > 0 {
        lemma_widest_bound(entries.drop_last());
        lemma_rows_bits_bound(entries.last().1@);
    }
}

/// Each entry is within the list's widest row and tallest glyph.
pub proof fn lemma_entry_within_extremes(entries: Seq<(char, Vec<u32>)>, i: int)
    requires
        0 <= i < entries.len(),
    ensures
        rows_bits(entries[i].1@) <= widest(entries),
        entries[i].1@.len() <= tallest(entries),
    decreases entries.len(),
{
    if i < entries.len() - 1 {
        let init = entries.drop_last();
        assert(init[i] == entries[i]);
        lemma_entry_within_extremes(init, i);
    }
}

/// Every glyph cell lies inside the atlas, so painting a glyph's lit
/// pixels at its cell offset never leaves the image.
pub proof fn glyph_cells_inside_atlas(entries: Seq<(char, Vec<u32>)>, i: int)
    requires
        layout_fits(entries),
        0 <= i < entries.len(),
    ensures
        spec_cell(entries, i).ox + spec_cell(entries, i).width <= MONOGRAM_COLS * spec_cell_w(entries),
        spec_cell(entries, i).oy + spec_cell(entries, i).height <= atlas_rows(entries.len() as nat)
            * spec_cell_h(entries),
{
    lemma_entry_within_extremes(entries, i);
    lemma_rows_bits_bound(entries[i].1@);
    lemma_widest_bound(entries);
    let cw = spec_cell_w(entries);
    let ch = spec_cell_h(entries);
    let col = i % 32;
    let row = i / 32;
    let rows_n = atlas_rows(entries.len() as nat);
    if !any_rows(entries) {
        assert(entries[i].1@.len() == 0);
    }
    assert(glyph_width(entries[i].1@) <= cw - 1);
    assert(glyph_height(entries[i].1@) <= ch);
    assert(row < rows_n);
    assert(col * cw + cw <= 32 * cw) by (nonlinear_arith)
        requires
            0 <= col < 32,
    ;
    assert(row * ch + ch <= rows_n * ch) by (nonlinear_arith)
        requires
            0 <= row < rows_n,
    ;
    assert(0 <= col * cw) by (nonlinear_arith)
        requires
            0 <= col,
            cw >= 0,
    ;
    assert(0 <= row * ch) by (nonlinear_arith)
        requires
            0 <= row,
            ch >= 0,
    ;
    assert(rows_n * ch <= u32::MAX);
    assert(32 * cw <= 32 * 34);
}


/// What `serde_json::from_str::<HashMap<String, Vec<u32>>>` reads from the
/// text of a monogram metrics file: each key (a glyph) with its row
/// bitmasks, or `None` when the text is not such a JSON object. A later
/// duplicate key replaces an earlier one.
pub uninterp spec fn monogram_metrics_of(text: Seq<char>) -> Option<Map<Seq<char>, Seq<u32>>>;

/// `pairs` lists the entries of `m`: each key once, every key of `m`, each
/// with its rows, in some order.
pub open spec fn lists_metrics(pairs: Seq<(String, Vec<u32>)>, m: Map<Seq<char>, Seq<u32>>) -> bool {
    &&& forall|i: int, j: int|
        0 <= i < j < pairs.len() ==> (#[trigger] pairs[i]).0@ != (#[trigger] pairs[j]).0@
    &&& forall|i: int|
        0 <= i < pairs.len() ==> m.contains_key((#[trigger] pairs[i]).0@) && m[pairs[i].0@]
            == pairs[i].1@
    &&& forall|k: Seq<char>|
        #[trigger] m.contains_key(k) ==> exists|i: int|
            0 <= i < pairs.len() && (#[trigger] pairs[i]).0@ == k
}

/// Parses the text of a monogram metrics file with
/// `serde_json::from_str::<HashMap<String, Vec<u32>>>` and lists the map's
/// entries. The claim: the result is `Some` exactly when the parse succeeds,
/// and then lists each entry of the parsed map once (`monogram_metrics_of`).
/// The order of the list is the map's iteration order and is not stated.
#[verifier::external_body]
fn parse_monogram_metrics(text: &str) -> (r: Option<Vec<(String, Vec<u32>)>>)
    ensures
        r is Some <==> monogram_metrics_of(text@) is Some,
        r matches Some(v) ==> lists_metrics(v@, monogram_metrics_of(text@)->0),
{
    serde_json::from_str::<std::collections::HashMap<String, Vec<u32>>>(text).ok().map(
        |m| m.into_iter().collect(),
    )
}

/// The entries whose key is a single character, as (character, rows), in
/// the order of `pairs`.
pub open spec fn single_char_entries(pairs: Seq<(String, Vec<u32>)>) -> Seq<(char, Vec<u32>)>
    decreases pairs.len(),
{
    if pairs.len() == 0 {
        Seq::empty()
    } else {
        let rest = single_char_entries(pairs.drop_last());
        if pairs.last().0@.len() == 1 {
            rest.push((pairs.last().0@[0], pairs.last().1))
        } else {
            rest
        }
    }
}

proof fn lemma_no_single_char_entries(pairs: Seq<(String, Vec<u32>)>)
    ensures
        single_char_entries(pairs).len() == 0 <==> forall|i: int|
            0 <= i < pairs.len() ==> (#[trigger] pairs[i]).0@.len() != 1,
    decreases pairs.len(),
{
    if pairs.len() > 0 {
        let rest = pairs.drop_last();
        lemma_no_single_char_entries(rest);
        if single_char_entries(pairs).len() == 0 {
            assert forall|i: int| 0 <= i < pairs.len() implies (#[trigger] pairs[i]).0@.len()
                != 1 by {
                if i < pairs.len() - 1 {
                    assert(pairs[i] == rest[i]);
                }
            }
        } else {
            if pairs.last().0@.len() != 1 {
                let i = choose|i: int| 0 <= i < rest.len() && (#[trigger] rest[i]).0@.len() == 1;
                assert(pairs[i] == rest[i]);
            }
        }
    }
}

/// The glyphs of a monogram metrics map: the entries whose key is a single
/// character (as `single_char_key` reads it), ordered by character; `None`
/// when no key is a single character.
pub fn monogram_entries(pairs: Vec<(String, Vec<u32>)>) -> (r: Option<Vec<(char, Vec<u32>)>>)
    ensures
        r is None <==> single_char_entries(pairs@).len() == 0,
        r matches Some(v) ==> sorted_by_char(v@) && v@.to_multiset() == single_char_entries(
            pairs@,
        ).to_multiset(),
{
    let ghost all = pairs@;
    let mut rest = pairs;
    let mut found: Vec<(char, Vec<u32>)> = Vec::new();
    while rest.len() > 0
        invariant
            found@.to_multiset().add(single_char_entries(rest@).to_multiset())
                == single_char_entries(all).to_multiset(),
        decreases rest@.len(),
    {
        let ghost before = rest@;
        let (key, rows) = rest.pop().unwrap();
        proof {
            assert(rest@ =~= before.drop_last());
        }
        match single_char_key(key.as_str()) {
            Some(ch) => {
                let ghost found_before = found@;
                found.push((ch, rows));
                proof {
                    vstd::seq_lib::to_multiset_build(found_before, (ch, rows));
                    vstd::seq_lib::to_multiset_build(single_char_entries(rest@), (ch, rows));
                    assert(found@ =~= found_before.push((ch, rows)));
                }
            },
            None => {},
        }
    }
    proof {
        assert(single_char_entries(rest@) =~= Seq::<(char, Vec<u32>)>::empty());
        assert(single_char_entries(rest@).to_multiset() =~= vstd::multiset::Multiset::empty());
        assert(found@.to_multiset() =~= single_char_entries(all).to_multiset());
        vstd::seq_lib::to_multiset_len(found@);
        vstd::seq_lib::to_multiset_len(single_char_entries(all));
    }
    if found.len() == 0 {
        return None;
    }
    Some(sort_glyph_entries(found))
}

/// Whether the atlas for `entries` fits `u32` coordinates (`layout_fits`).
pub fn atlas_fits(entries: &Vec<(char, Vec<u32>)>) -> (b: bool)
    ensures
        b == layout_fits(entries@),
{
    let n = entries.len();
    if n > (u32::MAX - MONOGRAM_COLS) as usize {
        return false;
    }
    let mut tall: usize = 0;
    let mut k: usize = 0;
    while k < n
        invariant
            k <= n,
            n == entries@.len(),
            n + MONOGRAM_COLS <= u32::MAX,
            tall == tallest(entries@.take(k as int)),
            tall <= u32::MAX,
            forall|j: int| 0 <= j < k ==> (#[trigger] entries@[j]).1@.len() <= u32::MAX,
        decreases n - k,
    {
        proof {
            let t = entries@.take(k + 1);
            assert(t.drop_last() =~= entries@.take(k as int));
            assert(t.last() == entries@[k as int]);
        }
        let h = entries[k].1.len();
        if h > u32::MAX as usize {
            return false;
        }
        if h > tall {
            tall = h;
        }
        k = k + 1;
    }
    proof {
        assert(entries@.take(n as int) =~= entries@);
    }
    let cell_h: u64 = if tall > 1 {
        tall as u64
    } else {
        1
    };
    let rows: u64 = (n as u64 + 31) / 32;
    proof {
        assert(rows * cell_h <= 0x800_0000u64 * 0x1_0000_0000u64) by (nonlinear_arith)
            requires
                rows <= 0x800_0000u64,
                cell_h <= 0x1_0000_0000u64,
        ;
    }
    rows * cell_h <= u32::MAX as u64
}

/// Why a monogram metrics text gives no font.
#[derive(Debug, Clone, Copy, PartialEq, Eq, Structural)]
pub enum MonogramError {
    /// The text is not a JSON object of row lists.
    Unreadable,
    /// No key is a single character.
    NoGlyphs,
    /// The atlas would not fit `u32` coordinates.
    TooLarge,
}

/// The glyphs of a monogram font, ordered by character, and their atlas.
pub struct MonogramFont {
    pub entries: Vec<(char, Vec<u32>)>,
    pub layout: MonogramLayout,
}

/// `l` is the atlas `monogram_layout` builds for `entries`.
pub open spec fn is_layout_of(l: MonogramLayout, entries: Seq<(char, Vec<u32>)>) -> bool {
    &&& l.cell_w == spec_cell_w(entries)
    &&& l.cell_h == spec_cell_h(entries)
    &&& l.atlas_w == MONOGRAM_COLS * spec_cell_w(entries)
    &&& l.atlas_h == atlas_rows(entries.len() as nat) * spec_cell_h(entries)
    &&& l.glyphs@.len() == entries.len()
    &&& forall|i: int| 0 <= i < entries.len() ==> #[trigger] l.glyphs@[i] == spec_cell(entries, i)
    &&& l.fallback == spec_fallback(entries)
}

/// `entries` are the glyphs read from the metrics listed in `pairs`: the
/// single-character keys, ordered by character.
pub open spec fn glyphs_of(pairs: Seq<(String, Vec<u32>)>, entries: Seq<(char, Vec<u32>)>) -> bool {
    sorted_by_char(entries) && entries.to_multiset() == single_char_entries(pairs).to_multiset()
}

/// The metrics map has a key of one character.
pub open spec fn has_glyph_key(m: Map<Seq<char>, Seq<u32>>) -> bool {
    exists|k: Seq<char>| #[trigger] m.contains_key(k) && k.len() == 1
}

/// Builds a monogram font from the text of its metrics file: parses the JSON
/// map of glyph rows, keeps the single-character keys ordered by character,
/// and lays out their atlas. Fails when the text is not such a map, when no
/// key is a single character, or when the atlas would not fit `u32`
/// coordinates.
pub fn monogram_font(text: &str) -> (r: Result<MonogramFont, MonogramError>)
    ensures
        (r matches Err(MonogramError::Unreadable)) <==> monogram_metrics_of(text@) is None,
        (r matches Err(MonogramError::NoGlyphs)) <==> (monogram_metrics_of(text@) matches Some(m)
            && !has_glyph_key(m)),
        r matches Ok(f) ==> exists|pairs: Seq<(String, Vec<u32>)>|
            #![trigger lists_metrics(pairs, monogram_metrics_of(text@)->0)]
            {
                &&& lists_metrics(pairs, monogram_metrics_of(text@)->0)
                &&& glyphs_of(pairs, f.entries@)
                &&& layout_fits(f.entries@)
                &&& is_layout_of(f.layout, f.entries@)
            },
        r matches Err(MonogramError::TooLarge) ==> exists|
            pairs: Seq<(String, Vec<u32>)>,
            entries: Seq<(char, Vec<u32>)>,
        |
            {
                &&& lists_metrics(pairs, monogram_metrics_of(text@)->0)
                &&& glyphs_of(pairs, entries)
                &&& !layout_fits(entries)
            },
{
    let pairs = match parse_monogram_metrics(text) {
        Some(p) => p,
        None => return Err(MonogramError::Unreadable),
    };
    let ghost gp = pairs@;
    let ghost m = monogram_metrics_of(text@)->0;
    proof {
        lemma_no_single_char_entries(gp);
        if has_glyph_key(m) {
            let k = choose|k: Seq<char>| #[trigger] m.contains_key(k) && k.len() == 1;
            let i = choose|i: int| 0 <= i < gp.len() && (#[trigger] gp[i]).0@ == k;
            assert(gp[i].0@.len() == 1);
        }
        if exists|i: int| 0 <= i < gp.len() && (#[trigger] gp[i]).0@.len() == 1 {
            let i = choose|i: int| 0 <= i < gp.len() && (#[trigger] gp[i]).0@.len() == 1;
            assert(m.contains_key(gp[i].0@));
        }
    }
    let entries = match monogram_entries(pairs) {
        Some(e) => e,
        None => return Err(MonogramError::NoGlyphs),
    };
    proof {
        assert(lists_metrics(gp, m));
        assert(glyphs_of(gp, entries@));
    }
    if !atlas_fits(&entries) {
        return Err(MonogramError::TooLarge);
    }
    proof {
        vstd::seq_lib::to_multiset_len(entries@);
        vstd::seq_lib::to_multiset_len(single_char_entries(gp));
    }
    match monogram_layout(&entries) {
        Some(layout) => {
            proof {
                assert(is_layout_of(layout, entries@));
                assert(layout_fits(entries@));
            }
            let f = MonogramFont { entries, layout };
            proof {
                assert(lists_metrics(gp, m) && glyphs_of(gp, f.entries@) && layout_fits(f.entries@)
                    && is_layout_of(f.layout, f.entries@));
            }
            Ok(f)
        },
        None => Err(MonogramError::NoGlyphs),
    }
}


/// The first character of `s`; `None` when `s` is empty.
pub fn first_char(s: &str) -> (r: Option<char>)
    ensures
        s@.len() == 0 <==> r is None,
        r matches Some(c) ==> c == s@[0],
{
    if s.unicode_len() == 0 {
        None
    } else {
        Some(s.get_char(0))
    }
}

/// A glyph as a font metrics file lists it: its rectangle in the atlas and
/// its optional bearings and advance.
#[derive(Debug, Clone, Copy, PartialEq, Eq, Structural)]
pub struct GlyphBox {
    pub x: u32,
    pub y: u32,
    pub w: u32,
    pub h: u32,
    pub x_offset: Option<i32>,
    pub y_offset: Option<i32>,
    pub x_advance: Option<i32>,
}

/// A glyph ready to draw: its character, its rectangle, and its bearings and
/// advance with the defaults filled in.
#[derive(Debug, Clone, Copy, PartialEq, Eq, Structural)]
pub struct GlyphPlacement {
    pub ch: char,
    pub x: u32,
    pub y: u32,
    pub w: u32,
    pub h: u32,
    pub x_offset: i32,
    pub y_offset: i32,
    pub x_advance: i32,
}

/// Places a listed glyph: its character is the first one of `key` (`None`
/// when the key is empty); a missing bearing is 0 and a missing advance is
/// the glyph's width.
pub fn place_glyph(key: &str, b: &GlyphBox) -> (r: Option<GlyphPlacement>)
    ensures
        key@.len() == 0 <==> r is None,
        r matches Some(p) ==> {
            &&& p.ch == key@[0]
            &&& p.x == b.x && p.y == b.y && p.w == b.w && p.h == b.h
            &&& p.x_offset == (match b.x_offset {
                Some(v) => v,
                None => 0,
            })
            &&& p.y_offset == (match b.y_offset {
                Some(v) => v,
                None => 0,
            })
            &&& p.x_advance == (match b.x_advance {
                Some(v) => v,
                None => b.w as i32,
            })
        },
{
    let ch = match first_char(key) {
        Some(c) => c,
        None => return None,
    };
    let x_offset = match b.x_offset {
        Some(v) => v,
        None => 0,
    };
    let y_offset = match b.y_offset {
        Some(v) => v,
        None => 0,
    };
    let x_advance = match b.x_advance {
        Some(v) => v,
        None => b.w as i32,
    };
    Some(GlyphPlacement { ch, x: b.x, y: b.y, w: b.w, h: b.h, x_offset, y_offset, x_advance })
}


proof fn lemma_tallest_bounded(entries: Seq<(char, Vec<u32>)>, b: nat)
    requires
        forall|i: int| 0 <= i < entries.len() ==> (#[trigger] entries[i]).1@.len() <= b,
    ensures
        tallest(entries) <= b,
    decreases entries.len(),
{
    if entries.len() > 0 {
        let rest = entries.drop_last();
        assert forall|i: int| 0 <= i < rest.len() implies (#[trigger] rest[i]).1@.len() <= b by {
            assert(rest[i] == entries[i]);
        }
        lemma_tallest_bounded(rest, b);
    }
}

/// A font of at most 65535 glyphs, none taller than 65535 rows, always fits
/// an atlas in `u32` coordinates, so building it never reports `TooLarge`.
pub proof fn small_fonts_fit(entries: Seq<(char, Vec<u32>)>)
    requires
        entries.len() <= 0xffff,
        forall|i: int| 0 <= i < entries.len() ==> (#[trigger] entries[i]).1@.len() <= 0xffff,
    ensures
        layout_fits(entries),
{
    lemma_tallest_bounded(entries, 0xffff);
    let rows = atlas_rows(entries.len() as nat);
    let h = spec_cell_h(entries);
    assert(rows <= 0x800);
    assert(h <= 0xffff);
    assert(rows * h <= 0x800 * 0xffff) by (nonlinear_arith)
        requires
            rows <= 0x800,
            h <= 0xffff,
    ;
}

} // verus!
