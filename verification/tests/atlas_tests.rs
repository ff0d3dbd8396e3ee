use std::collections::HashSet;

use sample_terminal::atlas::{
    pack_glyphs, supported_chars, try_pack_glyphs, AtlasPlacement, GlyphBitmap, ATLAS_PADDING,
};

fn glyph(ch: char, width: usize, height: usize) -> GlyphBitmap {
    GlyphBitmap {
        ch,
        width,
        height,
        bitmap: vec![255; width * height],
    }
}

#[test]
fn atlas_packing_stays_in_bounds_and_non_overlapping() {
    let glyphs = vec![glyph('A', 8, 12), glyph('B', 10, 14), glyph('C', 12, 10)];
    let pack = pack_glyphs(&glyphs, 32);
    let mut occupied = HashSet::new();

    for (index, glyph) in glyphs.iter().enumerate() {
        let AtlasPlacement { x, y } = pack.placements[index];
        assert!(x + glyph.width <= pack.width);
        assert!(y + glyph.height <= pack.height);
        for row in 0..glyph.height {
            for col in 0..glyph.width {
                assert!(occupied.insert((x + col, y + row)));
            }
        }
    }
}

#[test]
fn shelves_wrap_when_a_row_is_full() {
    let glyphs = vec![glyph('A', 8, 12), glyph('B', 10, 14), glyph('C', 12, 10)];
    let pack = pack_glyphs(&glyphs, 32);
    assert_eq!(
        pack.placements,
        vec![
            AtlasPlacement { x: 1, y: 1 },
            AtlasPlacement { x: 10, y: 1 },
            AtlasPlacement { x: 1, y: 16 },
        ]
    );
    assert_eq!(pack.width, 32);
    assert_eq!(pack.height, 27);
    assert_eq!(pack.bytes.len(), 32 * 27);
}

#[test]
fn empty_glyphs_are_placed_at_origin_and_take_no_space() {
    let glyphs = vec![glyph(' ', 0, 0), glyph('x', 2, 2)];
    let pack = pack_glyphs(&glyphs, 8);
    assert_eq!(pack.placements[0], AtlasPlacement { x: 0, y: 0 });
    assert_eq!(pack.placements[1], AtlasPlacement { x: ATLAS_PADDING, y: ATLAS_PADDING });
    assert_eq!(pack.height, 4);

    let nothing = pack_glyphs(&[], 8);
    assert_eq!(nothing.height, 1);
    assert_eq!(nothing.bytes, vec![0; 8]);
}

#[test]
fn glyph_rows_are_flipped_into_the_atlas() {
    let glyphs = vec![GlyphBitmap {
        ch: 'g',
        width: 2,
        height: 2,
        bitmap: vec![1, 2, 3, 4],
    }];
    let pack = pack_glyphs(&glyphs, 4);
    assert_eq!(pack.width, 4);
    assert_eq!(pack.height, 4);
    assert_eq!(
        pack.bytes,
        vec![
            0, 0, 0, 0, //
            0, 3, 4, 0, //
            0, 1, 2, 0, //
            0, 0, 0, 0,
        ]
    );
}

#[test]
fn supported_chars_cover_printable_ascii_and_latin1() {
    let chars = supported_chars();
    assert_eq!(chars.len(), 95 + 96);
    assert_eq!(chars[0], ' ');
    assert_eq!(chars[94], '~');
    assert_eq!(chars[95], '\u{a0}');
    assert_eq!(chars[chars.len() - 1], '\u{ff}');
}

#[test]
fn checked_packing_refuses_what_the_packer_cannot_place() {
    let good = vec![glyph('A', 8, 12), glyph('B', 10, 14), glyph('C', 12, 10)];
    let packed = try_pack_glyphs(&good, 32).expect("packable");
    let direct = pack_glyphs(&good, 32);
    assert_eq!(packed.placements, direct.placements);
    assert_eq!(packed.bytes, direct.bytes);
    assert_eq!((packed.width, packed.height), (direct.width, direct.height));

    assert!(try_pack_glyphs(&good, 0).is_none());
    assert!(try_pack_glyphs(&[glyph('A', 2, 2), glyph('A', 3, 3)], 32).is_none());
    assert!(try_pack_glyphs(&[glyph('W', 32, 2)], 32).is_none());
    assert!(try_pack_glyphs(&[glyph('W', 31, 2)], 32).is_some());
    assert!(try_pack_glyphs(&[glyph(' ', 40, 0)], 32).is_some());
    let short = GlyphBitmap {
        ch: 's',
        width: 2,
        height: 2,
        bitmap: vec![1, 2, 3],
    };
    assert!(try_pack_glyphs(&[short], 32).is_none());
    assert!(try_pack_glyphs(&[glyph('h', 1, 1)], usize::MAX / 2 + 1).is_none());
}
