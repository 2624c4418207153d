use lastconvoy::text_metrics::{measure_text, pen_positions, TextItem};
use lastconvoy::animation::step_frame;
use lastconvoy::input::keyboard_axis;
use lastconvoy::render::integer_scale;
use lastconvoy::text::{first_char, place_glyph, GlyphBox, atlas_fits, bit_length, glyph_pixels, monogram_entries, monogram_font, monogram_layout, row_bits, single_char_key, sort_glyph_entries, MonogramError};

#[test]
fn bit_length_counts_significant_bits() {
    assert_eq!(bit_length(0), 0);
    assert_eq!(bit_length(1), 1);
    assert_eq!(bit_length(0b1010), 4);
    assert_eq!(bit_length(u32::MAX), 32);
    assert_eq!(row_bits(&vec![1, 0b111, 0b10]), 3);
    assert_eq!(row_bits(&vec![]), 0);
}

#[test]
fn layout_places_glyphs_in_grid() {
    let entries = vec![('A', vec![0b11, 0b101, 0b1]), (' ', vec![]), ('?', vec![0b1])];
    let l = monogram_layout(&entries).unwrap();
    assert_eq!((l.cell_w, l.cell_h), (4, 3));
    assert_eq!((l.atlas_w, l.atlas_h), (128, 3));
    assert_eq!(l.fallback, '?');
    let a = &l.glyphs[0];
    assert_eq!((a.ch, a.ox, a.oy, a.width, a.height, a.advance), ('A', 0, 0, 3, 3, 6));
    let sp = &l.glyphs[1];
    assert_eq!((sp.ox, sp.width, sp.height, sp.advance), (4, 1, 1, 4));
    assert_eq!(l.glyphs[2].ox, 8);
}

#[test]
fn layout_wraps_after_thirty_two_glyphs() {
    let mut entries = Vec::new();
    for i in 0..33u32 {
        entries.push((char::from_u32('a' as u32 + i).unwrap(), vec![1u32, 1u32]));
    }
    let l = monogram_layout(&entries).unwrap();
    assert_eq!((l.cell_w, l.cell_h), (2, 2));
    assert_eq!(l.atlas_h, 4);
    assert_eq!((l.glyphs[32].ox, l.glyphs[32].oy), (0, 2));
    assert_eq!(l.fallback, ' ');
}

#[test]
fn layout_without_rows_uses_default_width() {
    let l = monogram_layout(&vec![('x', vec![])]).unwrap();
    assert_eq!(l.cell_w, 6);
    assert_eq!(l.cell_h, 1);
    assert!(monogram_layout(&vec![]).is_none());
}

#[test]
fn pixels_follow_bits() {
    let px = glyph_pixels(&vec![0b101, 0b010], 3);
    assert_eq!(px, vec![(0, 0), (2, 0), (1, 1)]);
    assert!(glyph_pixels(&vec![0b1000], 3).is_empty());
}

#[test]
fn keys_and_sorting() {
    assert_eq!(single_char_key("A"), Some('A'));
    assert_eq!(single_char_key("é"), Some('é'));
    assert_eq!(single_char_key("AB"), None);
    assert_eq!(single_char_key(""), None);
    let sorted = sort_glyph_entries(vec![('c', vec![3]), ('a', vec![1]), ('b', vec![2])]);
    assert_eq!(sorted, vec![('a', vec![1]), ('b', vec![2]), ('c', vec![3])]);
}

#[test]
fn frames_advance_and_bounce() {
    assert_eq!(step_frame(0, 4, 1, false), (1, 1));
    assert_eq!(step_frame(3, 4, 1, false), (0, 1));
    assert_eq!(step_frame(2, 4, 1, true), (3, 1));
    assert_eq!(step_frame(3, 4, 1, true), (2, -1));
    assert_eq!(step_frame(0, 4, -1, true), (1, 1));
    assert_eq!(step_frame(0, 1, 1, true), (0, -1));
    assert_eq!(step_frame(0, 1, -1, true), (0, 1));
}

#[test]
fn axis_cancels_opposing_inputs() {
    assert_eq!(keyboard_axis(true, false), -1);
    assert_eq!(keyboard_axis(false, true), 1);
    assert_eq!(keyboard_axis(true, true), 0);
    assert_eq!(keyboard_axis(false, false), 0);
}

#[test]
fn integer_scale_is_clamped() {
    assert_eq!(integer_scale(3, 4), 3);
    assert_eq!(integer_scale(0, 5), 1);
    assert_eq!(integer_scale(10, 9), 6);
}

fn glyph(advance: i32) -> TextItem {
    TextItem::Glyph { advance }
}

#[test]
fn measure_text_widest_line_and_line_count() {
    // "ab\nc": widths 2*(5*1+1)=12 and 1*(5+1)=6
    let items = vec![glyph(5), glyph(5), TextItem::Newline, glyph(5)];
    assert_eq!(measure_text(&items, 1, 1), (12, 2));
    // scale 2, spacing 0: 2*10 = 20
    assert_eq!(measure_text(&items, 2, 0), (20, 2));
    // scale below 1 counts as 1, negative spacing as 0
    assert_eq!(measure_text(&items, 0, -3), (10, 2));
}

#[test]
fn measure_text_empty_and_missing() {
    assert_eq!(measure_text(&Vec::new(), 1, 1), (0, 1));
    let items = vec![TextItem::Missing, TextItem::Newline, TextItem::Newline];
    assert_eq!(measure_text(&items, 3, 2), (0, 3));
    // a line of negative advances never makes the width negative
    let items = vec![glyph(-4), TextItem::Newline, glyph(1)];
    assert_eq!(measure_text(&items, 1, 0), (1, 2));
    assert_eq!(measure_text(&vec![glyph(-4)], 1, 0), (0, 1));
}

#[test]
fn pen_positions_follow_lines() {
    let items = vec![glyph(5), TextItem::Missing, glyph(3), TextItem::Newline, glyph(5)];
    assert_eq!(
        pen_positions(&items, 2, 1),
        vec![(0, 0), (11, 0), (11, 0), (18, 0), (0, 1)]
    );
    assert!(pen_positions(&Vec::new(), 1, 1).is_empty());
}

#[test]
fn monogram_entries_keep_single_chars_sorted() {
    let pairs = vec![
        ("b".to_string(), vec![2]),
        ("name".to_string(), vec![9]),
        ("a".to_string(), vec![1, 1]),
        ("".to_string(), vec![0]),
    ];
    assert_eq!(monogram_entries(pairs), Some(vec![('a', vec![1, 1]), ('b', vec![2])]));
    assert_eq!(monogram_entries(vec![("xy".to_string(), vec![1])]), None);
    assert_eq!(monogram_entries(Vec::new()), None);
}

#[test]
fn atlas_fits_small_fonts() {
    assert!(atlas_fits(&vec![('a', vec![1, 2, 3])]));
    assert!(atlas_fits(&Vec::new()));
}

#[test]
fn monogram_font_from_text() {
    let font = monogram_font(r#"{"B": [3, 1], "A": [1], "long": [7]}"#).ok().unwrap();
    assert_eq!(font.entries, vec![('A', vec![1]), ('B', vec![3, 1])]);
    assert_eq!(font.layout.glyphs.len(), 2);
    assert_eq!(font.layout.cell_h, 2);
    assert_eq!(font.layout.cell_w, 3);
    assert_eq!(font.layout.fallback, ' ');
    assert_eq!(monogram_font("not json").err(), Some(MonogramError::Unreadable));
    assert_eq!(monogram_font(r#"{"ab": [1]}"#).err(), Some(MonogramError::NoGlyphs));
    assert_eq!(monogram_font(r#"{"a": "x"}"#).err(), Some(MonogramError::Unreadable));
}

#[test]
fn place_glyph_fills_defaults() {
    let b = GlyphBox { x: 1, y: 2, w: 5, h: 7, x_offset: None, y_offset: Some(-1), x_advance: None };
    let p = place_glyph("Ab", &b).unwrap();
    assert_eq!((p.ch, p.x, p.y, p.w, p.h), ('A', 1, 2, 5, 7));
    assert_eq!((p.x_offset, p.y_offset, p.x_advance), (0, -1, 5));
    let b2 = GlyphBox { x_advance: Some(6), ..b };
    assert_eq!(place_glyph("?", &b2).unwrap().x_advance, 6);
    assert!(place_glyph("", &b).is_none());
    assert_eq!(first_char("xyz"), Some('x'));
    assert_eq!(first_char(""), None);
}
