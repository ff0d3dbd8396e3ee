//! Packing glyph bitmaps into one atlas texture: shelf packing from the top-left, one
//! padding pixel around each glyph, rows of the bitmaps flipped as they are copied.
use vstd::prelude::*;

use crate::cells::lemma_grid_index_bounds;

verus! {

/// The width of the glyph atlas, in pixels.
pub const ATLAS_WIDTH: usize = 512;

/// The empty pixels kept around each glyph.
pub const ATLAS_PADDING: usize = 1;

/// A rasterized glyph: its character, its size, and its coverage bytes, bottom row first.
pub struct GlyphBitmap {
    pub ch: char,
    pub width: usize,
    pub height: usize,
    pub bitmap: Vec<u8>,
}

/// Where a glyph's top-left pixel lies in the atlas.
#[derive(Clone, Copy, Debug, PartialEq, Eq, Structural)]
pub struct AtlasPlacement {
    pub x: usize,
    pub y: usize,
}

/// A packed atlas: its size, its bytes row by row, and one placement per glyph, in the
/// order of the glyphs.
pub struct AtlasPack {
    pub width: usize,
    pub height: usize,
    pub bytes: Vec<u8>,
    pub placements: Vec<AtlasPlacement>,
}

/// The state of the shelf packer: the next free position on the current shelf, the
/// shelf's height, the atlas height so far, and the placements made.
pub struct PackState {
    pub x: int,
    pub y: int,
    pub row_height: int,
    pub height: int,
    pub placements: Seq<(int, int)>,
}

/// The larger of two integers.
pub open spec fn max_int(a: int, b: int) -> int {
    if a >= b {
        a
    } else {
        b
    }
}

/// The glyph sizes, in order.
pub open spec fn glyph_dims(glyphs: Seq<GlyphBitmap>) -> Seq<(int, int)> {
    Seq::new(glyphs.len(), |i: int| (glyphs[i].width as int, glyphs[i].height as int))
}

/// Shelf packing of glyphs of the given sizes into an atlas `width` pixels wide: a glyph
/// goes right of the previous one on the current shelf, or starts a new shelf below the
/// tallest glyph of the current one when it does not fit; empty glyphs get (0, 0).
pub open spec fn pack_state(dims: Seq<(int, int)>, width: int) -> PackState
    decreases dims.len(),
{
    if dims.len() == 0 {
        PackState { x: 1, y: 1, row_height: 0, height: 1, placements: Seq::empty() }
    } else {
        let s = pack_state(dims.drop_last(), width);
        let w = dims.last().0;
        let h = dims.last().1;
        if w == 0 || h == 0 {
            PackState { placements: s.placements.push((0, 0)), ..s }
        } else {
            let new_row = s.x + w + 1 > width;
            let x = if new_row {
                1
            } else {
                s.x
            };
            let y = if new_row {
                s.y + s.row_height + 1
            } else {
                s.y
            };
            let row_height = if new_row {
                0
            } else {
                s.row_height
            };
            PackState {
                x: x + w + 1,
                y,
                row_height: max_int(row_height, h),
                height: max_int(s.height, y + h + 1),
                placements: s.placements.push((x, y)),
            }
        }
    }
}

/// Every glyph is narrower than the atlas by at least the padding.
pub open spec fn glyphs_fit(dims: Seq<(int, int)>, width: int) -> bool {
    forall|i: int|
        0 <= i < dims.len() ==> (#[trigger] dims[i]).0 >= 0 && dims[i].1 >= 0 && (dims[i].0 == 0
            || dims[i].1 == 0 || dims[i].0 + 1 <= width)
}

/// Glyph `i` has pixels.
pub open spec fn non_empty(dims: Seq<(int, int)>, i: int) -> bool {
    dims[i].0 > 0 && dims[i].1 > 0
}

/// The rectangles of glyphs `i` and `j` do not share a pixel.
pub open spec fn disjoint(dims: Seq<(int, int)>, p: Seq<(int, int)>, i: int, j: int) -> bool {
    ||| p[i].0 + dims[i].0 <= p[j].0
    ||| p[j].0 + dims[j].0 <= p[i].0
    ||| p[i].1 + dims[i].1 <= p[j].1
    ||| p[j].1 + dims[j].1 <= p[i].1
}

/// What the packer keeps true: placed glyphs lie inside the atlas, do not overlap, and
/// lie either above the current shelf or on it to the left of the next free position.
pub open spec fn pack_inv(dims: Seq<(int, int)>, width: int, s: PackState) -> bool {
    &&& s.placements.len() == dims.len()
    &&& 1 <= s.x <= width + 1
    &&& 1 <= s.y <= s.height
    &&& 0 <= s.row_height
    &&& (s.row_height > 0 ==> s.y + s.row_height + 1 <= s.height)
    &&& forall|i: int|
        0 <= i < dims.len() && non_empty(dims, i) ==> {
            &&& 1 <= (#[trigger] s.placements[i]).0
            &&& s.placements[i].0 + dims[i].0 <= width
            &&& 1 <= s.placements[i].1
            &&& s.placements[i].1 + dims[i].1 + 1 <= s.height
            &&& (s.placements[i].1 + dims[i].1 + 1 <= s.y || (s.placements[i].1 == s.y
                && s.placements[i].0 + dims[i].0 + 1 <= s.x && dims[i].1 <= s.row_height))
        }
    &&& forall|i: int, j: int|
        0 <= i < j < dims.len() && non_empty(dims, i) && non_empty(dims, j) ==> disjoint(
            dims,
            s.placements,
            i,
            j,
        )
}

/// The packer's invariant holds after every glyph.
pub proof fn lemma_pack_inv(dims: Seq<(int, int)>, width: int)
    requires
        glyphs_fit(dims, width),
        width >= 1,
    ensures
        pack_inv(dims, width, pack_state(dims, width)),
    decreases dims.len(),
{
    if dims.len() > 0 {
        let prev = dims.drop_last();
        assert(glyphs_fit(prev, width)) by {
            assert forall|i: int| 0 <= i < prev.len() implies (#[trigger] prev[i]).0 >= 0
                && prev[i].1 >= 0 && (prev[i].0 == 0 || prev[i].1 == 0 || prev[i].0 + 1
                <= width) by {
                assert(prev[i] == dims[i]);
            }
        }
        lemma_pack_inv(prev, width);
        let s = pack_state(prev, width);
        let n = dims.len() - 1;
        assert(dims[n] == dims.last());
        assert forall|i: int| 0 <= i < n implies #[trigger] dims[i] == prev[i] by {}
        let t = pack_state(dims, width);
        assert(forall|i: int| 0 <= i < n ==> #[trigger] t.placements[i] == s.placements[i]);
        let w = dims[n].0;
        let h = dims[n].1;
        if w == 0 || h == 0 {
            assert(!non_empty(dims, n));
            assert forall|i: int|
                0 <= i < dims.len() && non_empty(dims, i) implies {
                    &&& 1 <= (#[trigger] t.placements[i]).0
                    &&& t.placements[i].0 + dims[i].0 <= width
                    &&& 1 <= t.placements[i].1
                    &&& t.placements[i].1 + dims[i].1 + 1 <= t.height
                    &&& (t.placements[i].1 + dims[i].1 + 1 <= t.y || (t.placements[i].1 == t.y
                        && t.placements[i].0 + dims[i].0 + 1 <= t.x && dims[i].1 <= t.row_height))
                } by {
                assert(non_empty(prev, i));
            }
            assert forall|i: int, j: int|
                0 <= i < j < dims.len() && non_empty(dims, i) && non_empty(dims, j) implies disjoint(
                    dims,
                    t.placements,
                    i,
                    j,
                ) by {
                assert(non_empty(prev, i) && non_empty(prev, j));
                assert(disjoint(prev, s.placements, i, j));
            }
        } else {
            let new_row = s.x + w + 1 > width;
            let x = if new_row {
                1
            } else {
                s.x
            };
            let y = if new_row {
                s.y + s.row_height + 1
            } else {
                s.y
            };
            assert(t.placements[n] == (x, y));
            assert(w + 1 <= width);
            assert forall|i: int|
                0 <= i < dims.len() && non_empty(dims, i) implies {
                    &&& 1 <= (#[trigger] t.placements[i]).0
                    &&& t.placements[i].0 + dims[i].0 <= width
                    &&& 1 <= t.placements[i].1
                    &&& t.placements[i].1 + dims[i].1 + 1 <= t.height
                    &&& (t.placements[i].1 + dims[i].1 + 1 <= t.y || (t.placements[i].1 == t.y
                        && t.placements[i].0 + dims[i].0 + 1 <= t.x && dims[i].1 <= t.row_height))
                } by {
                if i < n {
                    assert(non_empty(prev, i));
                }
            }
            assert forall|i: int, j: int|
                0 <= i < j < dims.len() && non_empty(dims, i) && non_empty(dims, j) implies disjoint(
                    dims,
                    t.placements,
                    i,
                    j,
                ) by {
                assert(non_empty(prev, i));
                if j < n {
                    assert(non_empty(prev, j));
                    assert(disjoint(prev, s.placements, i, j));
                }
            }
        }
    }
}

/// Packing keeps every glyph inside the atlas and no two glyphs overlap.
pub proof fn lemma_pack_in_bounds_and_disjoint(dims: Seq<(int, int)>, width: int)
    requires
        glyphs_fit(dims, width),
        width >= 1,
    ensures
        forall|i: int|
            0 <= i < dims.len() && non_empty(dims, i) ==> {
                let p = #[trigger] pack_state(dims, width).placements[i];
                &&& p.0 >= 1
                &&& p.1 >= 1
                &&& p.0 + dims[i].0 <= width
                &&& p.1 + dims[i].1 <= pack_state(dims, width).height
            },
        forall|i: int, j: int|
            0 <= i < dims.len() && 0 <= j < dims.len() && i != j && non_empty(dims, i)
                && non_empty(dims, j) ==> disjoint(dims, pack_state(dims, width).placements, i, j),
{
    lemma_pack_inv(dims, width);
    let p = pack_state(dims, width).placements;
    assert forall|i: int, j: int|
        0 <= i < dims.len() && 0 <= j < dims.len() && i != j && non_empty(dims, i) && non_empty(
            dims,
            j,
        ) implies disjoint(dims, p, i, j) by {
        if j < i {
            assert(disjoint(dims, p, j, i));
        }
    }
    assert forall|i: int| 0 <= i < dims.len() && non_empty(dims, i) implies {
        let q = #[trigger] pack_state(dims, width).placements[i];
        &&& q.0 >= 1
        &&& q.1 >= 1
        &&& q.0 + dims[i].0 <= width
        &&& q.1 + dims[i].1 <= pack_state(dims, width).height
    } by {
        assert(p[i] == pack_state(dims, width).placements[i]);
    }
}


/// Pixel `k` of an atlas `width` pixels wide lies in the `w` by `h` rectangle at (`x`, `y`).
pub open spec fn in_rect(x: int, y: int, w: int, h: int, width: int, k: int) -> bool {
    y <= k / width < y + h && x <= k % width < x + w
}

/// The atlas byte that a glyph's bitmap puts at row `r`, column `c` of its rectangle:
/// bitmap rows are stored bottom-up, the atlas runs top-down.
pub open spec fn glyph_pixel(bitmap: Seq<u8>, w: int, h: int, r: int, c: int) -> u8 {
    bitmap[(h - 1 - r) * w + c]
}

/// Byte `k` of the atlas after copying the first `n` glyphs: the pixel of the last of them
/// whose rectangle holds `k`, or 0.
pub open spec fn atlas_byte(
    glyphs: Seq<GlyphBitmap>,
    placements: Seq<(int, int)>,
    width: int,
    n: int,
    k: int,
) -> u8
    decreases n,
{
    if n <= 0 {
        0
    } else {
        let g = glyphs[n - 1];
        let p = placements[n - 1];
        if g.width > 0 && g.height > 0 && in_rect(p.0, p.1, g.width as int, g.height as int, width, k) {
            glyph_pixel(g.bitmap@, g.width as int, g.height as int, k / width - p.1, k % width - p.0)
        } else {
            atlas_byte(glyphs, placements, width, n - 1, k)
        }
    }
}

/// Every pixel of a glyph with pixels appears in the packed atlas inside the glyph's
/// rectangle, row `r` of the rectangle holding bitmap row `h - 1 - r`.
pub proof fn lemma_atlas_holds_each_glyph(
    glyphs: Seq<GlyphBitmap>,
    width: int,
    i: int,
    r: int,
    c: int,
)
    requires
        width >= 1,
        glyphs_fit(glyph_dims(glyphs), width),
        0 <= i < glyphs.len(),
        non_empty(glyph_dims(glyphs), i),
        0 <= r < glyphs[i].height,
        0 <= c < glyphs[i].width,
    ensures
        ({
            let p = pack_state(glyph_dims(glyphs), width).placements[i];
            atlas_byte(
                glyphs,
                pack_state(glyph_dims(glyphs), width).placements,
                width,
                glyphs.len() as int,
                (p.1 + r) * width + p.0 + c,
            ) == glyph_pixel(glyphs[i].bitmap@, glyphs[i].width as int, glyphs[i].height as int, r, c)
        }),
{
    let dims = glyph_dims(glyphs);
    let placements = pack_state(dims, width).placements;
    lemma_pack_in_bounds_and_disjoint(dims, width);
    lemma_pack_inv(dims, width);
    let p = placements[i];
    let k = (p.1 + r) * width + p.0 + c;
    vstd::arithmetic::div_mod::lemma_fundamental_div_mod_converse(k, width, p.1 + r, p.0 + c);
    lemma_atlas_byte_from(glyphs, placements, width, i, glyphs.len() as int, k);
}

/// Byte `k` inside the rectangle of glyph `i` keeps glyph `i`'s pixel while glyphs that do
/// not cover `k` are copied after it.
proof fn lemma_atlas_byte_from(
    glyphs: Seq<GlyphBitmap>,
    placements: Seq<(int, int)>,
    width: int,
    i: int,
    n: int,
    k: int,
)
    requires
        width >= 1,
        0 <= i < n <= glyphs.len(),
        placements.len() == glyphs.len(),
        glyphs[i].width > 0 && glyphs[i].height > 0,
        in_rect(placements[i].0, placements[i].1, glyphs[i].width as int, glyphs[i].height as int, width, k),
        forall|j: int|
            i < j < n && non_empty(glyph_dims(glyphs), j) ==> disjoint(
                glyph_dims(glyphs),
                placements,
                i,
                j,
            ),
    ensures
        atlas_byte(glyphs, placements, width, n, k) == glyph_pixel(
            glyphs[i].bitmap@,
            glyphs[i].width as int,
            glyphs[i].height as int,
            k / width - placements[i].1,
            k % width - placements[i].0,
        ),
    decreases n - i,
{
    if n > i + 1 {
        let j = n - 1;
        let dims = glyph_dims(glyphs);
        if glyphs[j].width > 0 && glyphs[j].height > 0 {
            assert(non_empty(dims, j));
            assert(disjoint(dims, placements, i, j));
        }
        lemma_atlas_byte_from(glyphs, placements, width, i, n - 1, k);
    }
}

/// A packing's height never shrinks as glyphs are added.
proof fn lemma_pack_height_monotone(dims: Seq<(int, int)>, width: int, k: int)
    requires
        0 <= k <= dims.len(),
    ensures
        pack_state(dims.subrange(0, k), width).height <= pack_state(dims, width).height,
    decreases dims.len() - k,
{
    if k < dims.len() {
        lemma_pack_height_monotone(dims, width, k + 1);
        assert(dims.subrange(0, k + 1).drop_last() =~= dims.subrange(0, k));
    } else {
        assert(dims.subrange(0, k) =~= dims);
    }
}

/// Copies a glyph bitmap into the atlas bytes at (`x`, `y`), flipping its rows.
fn copy_glyph(bytes: &mut Vec<u8>, width: usize, x: usize, y: usize, w: usize, h: usize, bitmap: &Vec<u8>)
    requires
        width >= 1,
        w >= 1,
        x + w <= width,
        (y + h) * width <= old(bytes)@.len(),
        bitmap@.len() >= h * w,
    ensures
        final(bytes)@.len() == old(bytes)@.len(),
        forall|k: int|
            0 <= k < old(bytes)@.len() ==> #[trigger] final(bytes)@[k] == if in_rect(
                x as int,
                y as int,
                w as int,
                h as int,
                width as int,
                k,
            ) {
                glyph_pixel(bitmap@, w as int, h as int, k / (width as int) - y, k % (width as int) - x)
            } else {
                old(bytes)@[k]
            },
{
    let ghost len = bytes@.len();
    let bytes_len = bytes.len();
    let bitmap_len = bitmap.len();
    let mut row: usize = 0;
    while row < h
        invariant
            width >= 1,
            w >= 1,
            x + w <= width,
            (y + h) * width <= len,
            bitmap@.len() >= h * w,
            bytes@.len() == len,
            len == old(bytes)@.len(),
            bytes_len == len,
            bitmap_len == bitmap@.len(),
            row <= h,
            forall|k: int|
                0 <= k < len ==> #[trigger] bytes@[k] == if in_rect(
                    x as int,
                    y as int,
                    w as int,
                    row as int,
                    width as int,
                    k,
                ) {
                    glyph_pixel(bitmap@, w as int, h as int, k / (width as int) - y, k % (width as int) - x)
                } else {
                    old(bytes)@[k]
                },
        decreases h - row,
    {
        proof {
            lemma_grid_index_bounds((y + row) as int, (x + w - 1) as int, (y + h) as int, width as int);
            lemma_grid_index_bounds((h - 1 - row) as int, (w - 1) as int, h as int, w as int);
        }
        assert((y + h) as int <= (y + h) * width) by (nonlinear_arith)
            requires
                width >= 1,
        ;
        let src_start = (h - 1 - row) * w;
        let dst_start = (y + row) * width + x;
        let mut col: usize = 0;
        while col < w
            invariant
                width >= 1,
                w >= 1,
                x + w <= width,
                (y + h) * width <= len,
                bitmap@.len() >= h * w,
                bytes@.len() == len,
                len == old(bytes)@.len(),
                bytes_len == len,
                bitmap_len == bitmap@.len(),
                row < h,
                col <= w,
                src_start == (h - 1 - row) * w,
                dst_start == (y + row) * width + x,
                src_start + w <= h * w,
                dst_start + w <= (y + h) * width,
                forall|k: int|
                    0 <= k < len ==> #[trigger] bytes@[k] == if in_rect(
                        x as int,
                        y as int,
                        w as int,
                        row as int,
                        width as int,
                        k,
                    ) || (k / (width as int) == y + row && x <= k % (width as int) < x + col) {
                        glyph_pixel(bitmap@, w as int, h as int, k / (width as int) - y, k % (width as int) - x)
                    } else {
                        old(bytes)@[k]
                    },
            decreases w - col,
        {
            let ghost idx = dst_start + col;
            proof {
                vstd::arithmetic::div_mod::lemma_fundamental_div_mod_converse(
                    idx,
                    width as int,
                    (y + row) as int,
                    (x + col) as int,
                );
                assert(idx == (y + row) * width + (x + col));
            }
            let value = bitmap[src_start + col];
            let ghost before = bytes@;
            bytes.set(dst_start + col, value);
            assert forall|k: int| 0 <= k < len implies #[trigger] bytes@[k] == if in_rect(
                x as int,
                y as int,
                w as int,
                row as int,
                width as int,
                k,
            ) || (k / (width as int) == y + row && x <= k % (width as int) < x + col + 1) {
                glyph_pixel(bitmap@, w as int, h as int, k / (width as int) - y, k % (width as int) - x)
            } else {
                old(bytes)@[k]
            } by {
                if k != idx {
                    vstd::arithmetic::div_mod::lemma_fundamental_div_mod(k, width as int);
                    vstd::arithmetic::mul::lemma_mul_is_commutative(width as int, k / (width as int));
                    assert(bytes@[k] == before[k]);
                    if k / (width as int) == y + row && k % (width as int) == x + col {
                        assert(k == (y + row) * width + (x + col));
                        assert(false);
                    }
                } else {
                    assert(value == glyph_pixel(bitmap@, w as int, h as int, k / (width as int) - y, k % (width as int) - x));
                }
            }
            col = col + 1;
        }
        row = row + 1;
        assert forall|k: int| 0 <= k < len implies #[trigger] bytes@[k] == if in_rect(
            x as int,
            y as int,
            w as int,
            row as int,
            width as int,
            k,
        ) {
            glyph_pixel(bitmap@, w as int, h as int, k / (width as int) - y, k % (width as int) - x)
        } else {
            old(bytes)@[k]
        } by {
            vstd::arithmetic::div_mod::lemma_fundamental_div_mod(k, width as int);
        }
    }
}

/// No two glyphs are for the same character: the atlas holds one placement per character.
pub open spec fn distinct_chars(glyphs: Seq<GlyphBitmap>) -> bool {
    forall|i: int, j: int|
        0 <= i < j < glyphs.len() ==> #[trigger] glyphs[i].ch != #[trigger] glyphs[j].ch
}

/// Packs the glyphs, one per character, into an atlas `atlas_width` pixels wide; see
/// `pack_state` for where each glyph goes and `atlas_byte` for the bytes.
pub fn pack_glyphs(glyphs: &[GlyphBitmap], atlas_width: usize) -> (pack: AtlasPack)
    requires
        atlas_width >= 1,
        distinct_chars(glyphs@),
        glyphs_fit(glyph_dims(glyphs@), atlas_width as int),
        forall|i: int|
            0 <= i < glyphs@.len() ==> (#[trigger] glyphs@[i]).bitmap@.len() >= glyphs@[i].width
                * glyphs@[i].height,
        atlas_width * (pack_state(glyph_dims(glyphs@), atlas_width as int).height + 1)
            <= usize::MAX,
    ensures
        ({
            let s = pack_state(glyph_dims(glyphs@), atlas_width as int);
            &&& pack.width == atlas_width
            &&& pack.height == s.height
            &&& pack.placements@.len() == glyphs@.len()
            &&& forall|i: int|
                0 <= i < glyphs@.len() ==> (#[trigger] pack.placements@[i]).x == s.placements[i].0
                    && pack.placements@[i].y == s.placements[i].1
            &&& pack.bytes@.len() == atlas_width * s.height
            &&& forall|k: int|
                0 <= k < pack.bytes@.len() ==> #[trigger] pack.bytes@[k] == atlas_byte(
                    glyphs@,
                    s.placements,
                    atlas_width as int,
                    glyphs@.len() as int,
                    k,
                )
        }),
{
    let ghost dims = glyph_dims(glyphs@);
    let ghost width = atlas_width as int;
    let ghost total = pack_state(dims, width);
    proof {
        lemma_pack_inv(dims, width);
    }
    let mut placements: Vec<AtlasPlacement> = Vec::new();
    let mut cursor_x: usize = ATLAS_PADDING;
    let mut cursor_y: usize = ATLAS_PADDING;
    let mut row_height: usize = 0;
    let mut atlas_height: usize = ATLAS_PADDING;
    let mut i: usize = 0;
    assert(dims.subrange(0, 0) =~= Seq::<(int, int)>::empty());
    while i < glyphs.len()
        invariant
            i <= glyphs@.len(),
            dims == glyph_dims(glyphs@),
            width == atlas_width,
            atlas_width >= 1,
            total == pack_state(dims, width),
            glyphs_fit(dims, width),
            atlas_width * (total.height + 1) <= usize::MAX,
            ({
                let s = pack_state(dims.subrange(0, i as int), width);
                &&& cursor_x == s.x
                &&& cursor_y == s.y
                &&& row_height == s.row_height
                &&& atlas_height == s.height
                &&& placements@.len() == i
                &&& forall|j: int|
                    0 <= j < i ==> (#[trigger] placements@[j]).x == s.placements[j].0
                        && placements@[j].y == s.placements[j].1
            }),
        decreases glyphs@.len() - i,
    {
        let ghost prefix = dims.subrange(0, i as int);
        let ghost next = dims.subrange(0, i + 1);
        assert(next.drop_last() =~= prefix);
        assert(next.last() == dims[i as int]);
        proof {
            assert(glyphs_fit(prefix, width)) by {
                assert forall|j: int| 0 <= j < prefix.len() implies (#[trigger] prefix[j]).0 >= 0
                    && prefix[j].1 >= 0 && (prefix[j].0 == 0 || prefix[j].1 == 0 || prefix[j].0
                    + 1 <= width) by {
                    assert(prefix[j] == dims[j]);
                }
            }
            lemma_pack_inv(prefix, width);
            lemma_pack_height_monotone(dims, width, i as int);
            lemma_pack_height_monotone(dims, width, i + 1);
            assert(total.height >= 1);
            assert(atlas_width + 1 <= atlas_width * (total.height + 1)) by (nonlinear_arith)
                requires
                    atlas_width >= 1,
                    total.height >= 1,
            ;
            assert(atlas_width * (total.height + 1) >= total.height + 1) by (nonlinear_arith)
                requires
                    atlas_width >= 1,
                    total.height + 1 >= 0,
            ;
        }
        let w = glyphs[i].width;
        let h = glyphs[i].height;
        if w == 0 || h == 0 {
            placements.push(AtlasPlacement { x: 0, y: 0 });
        } else {
            let required_width = w + ATLAS_PADDING;
            if cursor_x > atlas_width || required_width > atlas_width - cursor_x {
                cursor_x = ATLAS_PADDING;
                cursor_y = cursor_y + row_height + ATLAS_PADDING;
                row_height = 0;
            }
            placements.push(AtlasPlacement { x: cursor_x, y: cursor_y });
            cursor_x = cursor_x + w + ATLAS_PADDING;
            if h > row_height {
                row_height = h;
            }
            if cursor_y + h + ATLAS_PADDING > atlas_height {
                atlas_height = cursor_y + h + ATLAS_PADDING;
            }
        }
        i = i + 1;
    }
    assert(dims.subrange(0, glyphs@.len() as int) =~= dims);
    assert(atlas_width * atlas_height <= atlas_width * (atlas_height + 1)) by (nonlinear_arith)
        requires
            atlas_width >= 1,
            atlas_height >= 0,
    ;
    let len = atlas_width * atlas_height;
    let mut bytes: Vec<u8> = Vec::new();
    let mut k: usize = 0;
    while k < len
        invariant
            k <= len,
            bytes@ == Seq::new(k as nat, |j: int| 0u8),
        decreases len - k,
    {
        bytes.push(0);
        k = k + 1;
    }
    let ghost p = total.placements;
    let mut g: usize = 0;
    while g < glyphs.len()
        invariant
            g <= glyphs@.len(),
            dims == glyph_dims(glyphs@),
            total == pack_state(dims, width),
            pack_inv(dims, width, total),
            p == total.placements,
            width == atlas_width,
            atlas_width >= 1,
            atlas_height == total.height,
            len == atlas_width * atlas_height,
            bytes@.len() == len,
            placements@.len() == glyphs@.len(),
            forall|j: int|
                0 <= j < glyphs@.len() ==> (#[trigger] placements@[j]).x == p[j].0
                    && placements@[j].y == p[j].1,
            forall|j: int|
                0 <= j < glyphs@.len() ==> (#[trigger] glyphs@[j]).bitmap@.len() >= glyphs@[j].width
                    * glyphs@[j].height,
            forall|k: int| 0 <= k < len ==> #[trigger] bytes@[k] == atlas_byte(glyphs@, p, width, g as int, k),
        decreases glyphs@.len() - g,
    {
        let glyph = &glyphs[g];
        if glyph.width > 0 && glyph.height > 0 {
            let place = placements[g];
            assert(dims[g as int] == (glyph.width as int, glyph.height as int));
            assert(non_empty(dims, g as int));
            proof {
                assert(place.y + glyph.height <= atlas_height);
                assert((place.y + glyph.height) * atlas_width <= atlas_width * atlas_height) by (nonlinear_arith)
                    requires
                        place.y + glyph.height <= atlas_height,
                        atlas_width >= 1,
                ;
                assert(glyph.bitmap@.len() >= glyph.height * glyph.width) by (nonlinear_arith)
                    requires
                        glyph.bitmap@.len() >= glyph.width * glyph.height,
                ;
            }
            let ghost before = bytes@;
            copy_glyph(&mut bytes, atlas_width, place.x, place.y, glyph.width, glyph.height, &glyph.bitmap);
            assert forall|k: int| 0 <= k < len implies #[trigger] bytes@[k] == atlas_byte(
                glyphs@,
                p,
                width,
                g + 1,
                k,
            ) by {
                assert(before[k] == atlas_byte(glyphs@, p, width, g as int, k));
            }
        } else {
            assert forall|k: int| 0 <= k < len implies #[trigger] bytes@[k] == atlas_byte(
                glyphs@,
                p,
                width,
                g + 1,
                k,
            ) by {}
        }
        g = g + 1;
    }
    AtlasPack { width: atlas_width, height: atlas_height, bytes, placements }
}

/// Every glyph's bitmap holds at least its width times its height bytes.
pub open spec fn bitmaps_cover(glyphs: Seq<GlyphBitmap>) -> bool {
    forall|i: int|
        0 <= i < glyphs.len() ==> (#[trigger] glyphs[i]).bitmap@.len() >= glyphs[i].width
            * glyphs[i].height
}

/// What `pack_glyphs` needs: a non-empty width, one glyph per character, glyphs that fit
/// the width, bitmaps as large as their sizes say, and an atlas small enough to address.
pub open spec fn packable(glyphs: Seq<GlyphBitmap>, atlas_width: usize) -> bool {
    &&& atlas_width >= 1
    &&& distinct_chars(glyphs)
    &&& glyphs_fit(glyph_dims(glyphs), atlas_width as int)
    &&& bitmaps_cover(glyphs)
    &&& atlas_width * (pack_state(glyph_dims(glyphs), atlas_width as int).height + 1)
        <= usize::MAX
}

/// Whether no two glyphs are for the same character.
fn chars_are_distinct(glyphs: &[GlyphBitmap]) -> (b: bool)
    ensures
        b == distinct_chars(glyphs@),
{
    let mut j: usize = 0;
    while j < glyphs.len()
        invariant
            j <= glyphs@.len(),
            forall|a: int, c: int| 0 <= a < c < j ==> #[trigger] glyphs@[a].ch != #[trigger] glyphs@[c].ch,
        decreases glyphs@.len() - j,
    {
        let mut i: usize = 0;
        while i < j
            invariant
                i <= j < glyphs@.len(),
                forall|a: int| 0 <= a < i ==> glyphs@[a].ch != glyphs@[j as int].ch,
            decreases j - i,
        {
            if glyphs[i].ch == glyphs[j].ch {
                return false;
            }
            i = i + 1;
        }
        j = j + 1;
    }
    true
}

/// Whether every glyph with pixels leaves room for the padding in the width, and every
/// bitmap is as large as its size says.
fn sizes_are_packable(glyphs: &[GlyphBitmap], atlas_width: usize) -> (b: bool)
    ensures
        b == (glyphs_fit(glyph_dims(glyphs@), atlas_width as int) && bitmaps_cover(glyphs@)),
{
    let ghost dims = glyph_dims(glyphs@);
    let mut i: usize = 0;
    while i < glyphs.len()
        invariant
            i <= glyphs@.len(),
            dims == glyph_dims(glyphs@),
            forall|j: int|
                0 <= j < i ==> (#[trigger] dims[j]).0 >= 0 && dims[j].1 >= 0 && (dims[j].0 == 0
                    || dims[j].1 == 0 || dims[j].0 + 1 <= atlas_width),
            forall|j: int|
                0 <= j < i ==> (#[trigger] glyphs@[j]).bitmap@.len() >= glyphs@[j].width
                    * glyphs@[j].height,
        decreases glyphs@.len() - i,
    {
        let w = glyphs[i].width;
        let h = glyphs[i].height;
        assert(dims[i as int] == (w as int, h as int));
        if w != 0 && h != 0 && (w >= atlas_width) {
            return false;
        }
        match w.checked_mul(h) {
            Some(area) => {
                if glyphs[i].bitmap.len() < area {
                    return false;
                }
            },
            None => {
                let len = glyphs[i].bitmap.len();
                assert(len < w * h);
                return false;
            },
        }
        i = i + 1;
    }
    true
}

/// The height of the shelf packing, when it is at most `usize::MAX`.
fn packed_height(glyphs: &[GlyphBitmap], atlas_width: usize) -> (r: Option<usize>)
    requires
        1 <= atlas_width <= usize::MAX / 2,
        glyphs_fit(glyph_dims(glyphs@), atlas_width as int),
    ensures
        r == (if pack_state(glyph_dims(glyphs@), atlas_width as int).height <= usize::MAX {
            Some(pack_state(glyph_dims(glyphs@), atlas_width as int).height as usize)
        } else {
            None::<usize>
        }),
{
    let ghost dims = glyph_dims(glyphs@);
    let ghost width = atlas_width as int;
    let ghost total = pack_state(dims, width);
    let mut cursor_x: usize = ATLAS_PADDING;
    let mut cursor_y: usize = ATLAS_PADDING;
    let mut row_height: usize = 0;
    let mut atlas_height: usize = ATLAS_PADDING;
    let mut i: usize = 0;
    assert(dims.subrange(0, 0) =~= Seq::<(int, int)>::empty());
    while i < glyphs.len()
        invariant
            i <= glyphs@.len(),
            dims == glyph_dims(glyphs@),
            width == atlas_width,
            1 <= atlas_width <= usize::MAX / 2,
            total == pack_state(dims, width),
            glyphs_fit(dims, width),
            ({
                let s = pack_state(dims.subrange(0, i as int), width);
                &&& cursor_x == s.x
                &&& cursor_y == s.y
                &&& row_height == s.row_height
                &&& atlas_height == s.height
            }),
        decreases glyphs@.len() - i,
    {
        let ghost prefix = dims.subrange(0, i as int);
        let ghost next = dims.subrange(0, i + 1);
        assert(next.drop_last() =~= prefix);
        assert(next.last() == dims[i as int]);
        proof {
            assert(glyphs_fit(prefix, width)) by {
                assert forall|j: int| 0 <= j < prefix.len() implies (#[trigger] prefix[j]).0 >= 0
                    && prefix[j].1 >= 0 && (prefix[j].0 == 0 || prefix[j].1 == 0 || prefix[j].0
                    + 1 <= width) by {
                    assert(prefix[j] == dims[j]);
                }
            }
            lemma_pack_inv(prefix, width);
            lemma_pack_height_monotone(dims, width, i + 1);
        }
        let w = glyphs[i].width;
        let h = glyphs[i].height;
        if w != 0 && h != 0 {
            let mut y: u128 = cursor_y as u128;
            let mut x: usize = cursor_x;
            let mut rh: usize = row_height;
            if cursor_x > atlas_width || w + ATLAS_PADDING > atlas_width - cursor_x {
                x = ATLAS_PADDING;
                y = cursor_y as u128 + row_height as u128 + 1;
                rh = 0;
            }
            let bottom: u128 = y + h as u128 + 1;
            if bottom > usize::MAX as u128 {
                assert(pack_state(next, width).height >= bottom);
                return None;
            }
            cursor_y = y as usize;
            cursor_x = x + w + ATLAS_PADDING;
            row_height = if h > rh {
                h
            } else {
                rh
            };
            if bottom as usize > atlas_height {
                atlas_height = bottom as usize;
            }
        }
        i = i + 1;
    }
    assert(dims.subrange(0, glyphs@.len() as int) =~= dims);
    Some(atlas_height)
}

/// Packs the glyphs when `pack_glyphs` can (see `packable`), and gives `None` otherwise.
pub fn try_pack_glyphs(glyphs: &[GlyphBitmap], atlas_width: usize) -> (r: Option<AtlasPack>)
    ensures
        r is Some <==> packable(glyphs@, atlas_width),
        r matches Some(pack) ==> ({
            let s = pack_state(glyph_dims(glyphs@), atlas_width as int);
            &&& pack.width == atlas_width
            &&& pack.height == s.height
            &&& pack.placements@.len() == glyphs@.len()
            &&& forall|i: int|
                0 <= i < glyphs@.len() ==> (#[trigger] pack.placements@[i]).x == s.placements[i].0
                    && pack.placements@[i].y == s.placements[i].1
            &&& pack.bytes@.len() == atlas_width * s.height
            &&& forall|k: int|
                0 <= k < pack.bytes@.len() ==> #[trigger] pack.bytes@[k] == atlas_byte(
                    glyphs@,
                    s.placements,
                    atlas_width as int,
                    glyphs@.len() as int,
                    k,
                )
        }),
{
    let ghost dims = glyph_dims(glyphs@);
    if atlas_width == 0 || !chars_are_distinct(glyphs) || !sizes_are_packable(glyphs, atlas_width) {
        return None;
    }
    proof {
        lemma_pack_inv(dims, atlas_width as int);
    }
    let ghost height = pack_state(dims, atlas_width as int).height;
    if atlas_width > usize::MAX / 2 {
        assert(atlas_width * (height + 1) > usize::MAX) by (nonlinear_arith)
            requires
                atlas_width > usize::MAX / 2,
                height >= 1,
        ;
        return None;
    }
    match packed_height(glyphs, atlas_width) {
        None => {
            assert(atlas_width * (height + 1) > usize::MAX) by (nonlinear_arith)
                requires
                    atlas_width >= 1,
                    height > usize::MAX,
            ;
            None
        },
        Some(h) => {
            match h.checked_add(1) {
                None => {
                    assert(atlas_width * (height + 1) > usize::MAX) by (nonlinear_arith)
                        requires
                            atlas_width >= 1,
                            height + 1 > usize::MAX,
                    ;
                    None
                },
                Some(h1) => match atlas_width.checked_mul(h1) {
                    None => None,
                    Some(_) => Some(pack_glyphs(glyphs, atlas_width)),
                },
            }
        },
    }
}

/// The characters the atlas holds: printable ASCII and the printable half of Latin-1.
pub open spec fn supported_char_codes() -> Seq<u32> {
    Seq::new(95, |i: int| (0x20 + i) as u32) + Seq::new(96, |i: int| (0xa0 + i) as u32)
}

/// Lists the characters the atlas holds, in code order.
pub fn supported_chars() -> (chars: Vec<char>)
    ensures
        chars@.len() == supported_char_codes().len(),
        forall|i: int| 0 <= i < chars@.len() ==> (#[trigger] chars@[i]) as u32 == supported_char_codes()[i],
{
    let mut chars: Vec<char> = Vec::new();
    let mut code: u8 = 0x20;
    while code <= 0x7e
        invariant
            0x20 <= code <= 0x7f,
            chars@.len() == code - 0x20,
            forall|i: int| 0 <= i < chars@.len() ==> (#[trigger] chars@[i]) as u32 == 0x20 + i,
        decreases 0x7f - code,
    {
        chars.push(code as char);
        code = code + 1;
    }
    let mut code: u16 = 0xa0;
    while code <= 0xff
        invariant
            0xa0 <= code <= 0x100,
            chars@.len() == 95 + (code - 0xa0),
            forall|i: int| 0 <= i < 95 ==> (#[trigger] chars@[i]) as u32 == 0x20 + i,
            forall|i: int| 95 <= i < chars@.len() ==> (#[trigger] chars@[i]) as u32 == 0xa0 + (i - 95),
        decreases 0x100 - code,
    {
        chars.push((code as u8) as char);
        code = code + 1;
    }
    assert forall|i: int| 0 <= i < chars@.len() implies (#[trigger] chars@[i]) as u32 == supported_char_codes()[i] by {
        if i < 95 {
        } else {
        }
    }
    chars
}
} // verus!
