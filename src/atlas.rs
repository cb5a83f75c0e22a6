use vstd::prelude::*;

use vstd::arithmetic::div_mod::{
    lemma_fundamental_div_mod_converse,
    lemma_mod_pos_bound,
    lemma_multiply_divide_lt,
};

verus! {

/// Bytes per pixel of the packed image (RGBA, 8 bits per channel).
pub const BYTES_PER_PIXEL: usize = 4;

/// Whether `t` tiles per side are the fewest whose square grid holds `n`
/// tiles, that is `t == ceil(sqrt(n))`.
pub open spec fn is_tile_count(n: int, t: int) -> bool {
    &&& 0 <= t
    &&& n <= t * t
    &&& (t == 0 || (t - 1) * (t - 1) < n)
}

/// The number of tiles per side of the atlas for `n` tiles.
pub open spec fn tile_count_of(n: int) -> int {
    choose|t: int| is_tile_count(n, t)
}

/// The grid cell of tile `i`: column `i mod t`, row `i div t`.
pub open spec fn cell_of(i: int, tile_count: int) -> (int, int) {
    (i % tile_count, i / tile_count)
}

/// The size in bytes of an atlas of `t * t` tiles of `w * h` pixels.
pub open spec fn atlas_bytes(t: int, w: int, h: int) -> int {
    (t * w) * (t * h) * BYTES_PER_PIXEL
}

/// Whether a tile read from disk has the declared size and can be placed.
pub open spec fn tile_usable(tile: Option<Vec<u8>>, w: int, h: int) -> bool {
    tile is Some && tile->Some_0@.len() == w * h * BYTES_PER_PIXEL
}

/// Channel `c` of atlas pixel (x, y): taken from the tile whose cell covers
/// the pixel when that tile is usable, else 0 (a blank region).
pub open spec fn atlas_channel(
    tiles: Seq<Option<Vec<u8>>>,
    t: int,
    w: int,
    h: int,
    x: int,
    y: int,
    c: int,
) -> u8 {
    let i = (y / h) * t + x / w;
    if i < tiles.len() && tile_usable(tiles[i], w, h) {
        tiles[i]->Some_0@[((y % h) * w + x % w) * BYTES_PER_PIXEL + c]
    } else {
        0
    }
}

/// Byte `k` of the packed image, in row-major pixel order.
pub open spec fn atlas_byte(tiles: Seq<Option<Vec<u8>>>, t: int, w: int, h: int, k: int) -> u8 {
    let p = k / (BYTES_PER_PIXEL as int);
    atlas_channel(tiles, t, w, h, p % (t * w), p / (t * w), k % (BYTES_PER_PIXEL as int))
}

/// At most one tile count fits `n` tiles.
proof fn lemma_tile_count_unique(n: int, a: int, b: int)
    requires
        is_tile_count(n, a),
        is_tile_count(n, b),
    ensures
        a == b,
{
    if a < b {
        assert(a * a <= (b - 1) * (b - 1)) by (nonlinear_arith)
            requires
                0 <= a <= b - 1,
        ;
    } else if b < a {
        assert(b * b <= (a - 1) * (a - 1)) by (nonlinear_arith)
            requires
                0 <= b <= a - 1,
        ;
    }
}

/// The number of tiles per side of a square atlas holding `n` tiles:
/// `ceil(sqrt(n))`.
pub fn atlas_tile_count(n: usize) -> (r: usize)
    ensures
        is_tile_count(n as int, r as int),
        r == tile_count_of(n as int),
{
    let mut t: u64 = 0;
    let mut square: u128 = 0;
    while square < n as u128
        invariant
            square == t * t,
            t == 0 || (t - 1) * (t - 1) < n,
            t <= n,
        decreases n - t,
    {
        assert(t * t < n ==> t + 1 <= n) by (nonlinear_arith);
        assert((t + 1) * (t + 1) == t * t + 2 * t + 1) by (nonlinear_arith);
        square = square + 2 * (t as u128) + 1;
        t = t + 1;
    }
    proof {
        assert(is_tile_count(n as int, t as int));
        assert(is_tile_count(n as int, tile_count_of(n as int)));
        lemma_tile_count_unique(n as int, t as int, tile_count_of(n as int));
    }
    t as usize
}

/// The grid cell `(column, row)` of tile `i` in an atlas of `tile_count`
/// tiles per side.
pub fn tile_cell(i: usize, tile_count: usize) -> (r: (usize, usize))
    requires
        tile_count > 0,
    ensures
        (r.0 as int, r.1 as int) == cell_of(i as int, tile_count as int),
{
    (i % tile_count, i / tile_count)
}

/// A packed texture atlas: `tile_count * tile_count` tiles in a square grid,
/// RGBA pixels in row-major order.
pub struct PackedAtlas {
    pub pixels: Vec<u8>,
    pub width: usize,
    pub height: usize,
    pub tile_count: usize,
}

/// Where byte `k` of the atlas comes from lies inside the grid and inside
/// one tile.
proof fn lemma_pixel_source(k: int, t: int, w: int, h: int)
    requires
        t > 0,
        w > 0,
        h > 0,
        0 <= k < atlas_bytes(t, w, h),
    ensures
        ({
            let p = k / (BYTES_PER_PIXEL as int);
            let x = p % (t * w);
            let y = p / (t * w);
            &&& 0 <= x / w < t
            &&& 0 <= y / h < t
            &&& 0 <= (y / h) * t + x / w < t * t
            &&& 0 <= ((y % h) * w + x % w) * BYTES_PER_PIXEL + k % (BYTES_PER_PIXEL as int) < w * h
                * BYTES_PER_PIXEL
            &&& 0 <= y % h < h
            &&& 0 <= x % w < w
            &&& 0 <= k % (BYTES_PER_PIXEL as int) < BYTES_PER_PIXEL
        }),
        t * t <= atlas_bytes(t, w, h),
        w * h * BYTES_PER_PIXEL <= atlas_bytes(t, w, h),
{
    let ww = t * w;
    let hh = t * h;
    assert(ww > 0 && hh > 0) by (nonlinear_arith)
        requires
            t > 0,
            w > 0,
            h > 0,
            ww == t * w,
            hh == t * h,
    ;
    let p = k / 4;
    assert(k < 4 * (ww * hh));
    lemma_multiply_divide_lt(k, 4, ww * hh);
    assert(0 <= p);
    let x = p % ww;
    let y = p / ww;
    lemma_mod_pos_bound(p, ww);
    lemma_multiply_divide_lt(p, ww, hh);
    assert(0 <= y);
    assert(x < w * t && y < h * t) by (nonlinear_arith)
        requires
            x < t * w,
            y < t * h,
    ;
    lemma_multiply_divide_lt(x, w, t);
    lemma_multiply_divide_lt(y, h, t);
    assert(0 <= x / w && 0 <= y / h);
    let a = y / h;
    let b = x / w;
    assert(0 <= a * t + b < t * t) by (nonlinear_arith)
        requires
            0 <= a < t,
            0 <= b < t,
    ;
    lemma_mod_pos_bound(y, h);
    lemma_mod_pos_bound(x, w);
    lemma_mod_pos_bound(k, 4);
    let ry = y % h;
    let rx = x % w;
    let c = k % 4;
    assert(0 <= (ry * w + rx) * 4 + c < w * h * 4) by (nonlinear_arith)
        requires
            0 <= ry < h,
            0 <= rx < w,
            0 <= c < 4,
    ;
    assert(t * t <= (t * w) * (t * h) * 4) by (nonlinear_arith)
        requires
            t > 0,
            w > 0,
            h > 0,
    ;
    assert(w * h * 4 <= (t * w) * (t * h) * 4) by (nonlinear_arith)
        requires
            t > 0,
            w > 0,
            h > 0,
    ;
}

/// Byte `k` of the atlas, for `k` below the atlas size.
fn atlas_byte_exec(tiles: &Vec<Option<Vec<u8>>>, t: usize, w: usize, h: usize, k: usize) -> (r: u8)
    requires
        t > 0,
        w > 0,
        h > 0,
        atlas_bytes(t as int, w as int, h as int) <= usize::MAX,
        k < atlas_bytes(t as int, w as int, h as int),
    ensures
        r == atlas_byte(tiles@, t as int, w as int, h as int, k as int),
{
    proof {
        lemma_pixel_source(k as int, t as int, w as int, h as int);
        assert(0 < t * w <= atlas_bytes(t as int, w as int, h as int)) by (nonlinear_arith)
            requires
                t > 0,
                w > 0,
                h > 0,
        ;
    }
    let ww: usize = t * w;
    let p: usize = k / BYTES_PER_PIXEL;
    let c: usize = k % BYTES_PER_PIXEL;
    let x: usize = p % ww;
    let y: usize = p / ww;
    let i: usize = (y / h) * t + x / w;
    if i < tiles.len() {
        match &tiles[i] {
            Some(tile) => {
                let tile_len: usize = w * h * BYTES_PER_PIXEL;
                if tile.len() == tile_len {
                    tile[((y % h) * w + x % w) * BYTES_PER_PIXEL + c]
                } else {
                    0
                }
            },
            None => 0,
        }
    } else {
        0
    }
}

/// Whether the atlas of `t * t` tiles of `w * h` pixels, its width, height
/// and byte size all fit in `usize`.
pub open spec fn atlas_fits(t: int, w: int, h: int) -> bool {
    t * w <= usize::MAX && t * h <= usize::MAX && atlas_bytes(t, w, h) <= usize::MAX
}

/// Byte `(y * width + x) * 4 + c` of the atlas is channel `c` of pixel (x, y).
proof fn lemma_byte_position(t: int, w: int, h: int, x: int, y: int, c: int)
    requires
        0 <= x < t * w,
        0 <= y < t * h,
        0 <= c < BYTES_PER_PIXEL,
    ensures
        ({
            let k = (y * (t * w) + x) * BYTES_PER_PIXEL + c;
            &&& 0 <= k < atlas_bytes(t, w, h)
            &&& k / (BYTES_PER_PIXEL as int) == y * (t * w) + x
            &&& k % (BYTES_PER_PIXEL as int) == c
            &&& (k / (BYTES_PER_PIXEL as int)) % (t * w) == x
            &&& (k / (BYTES_PER_PIXEL as int)) / (t * w) == y
        }),
{
    let ww = t * w;
    let hh = t * h;
    let p = y * ww + x;
    let k = p * 4 + c;
    assert(0 <= p < ww * hh) by (nonlinear_arith)
        requires
            0 <= x < ww,
            0 <= y < hh,
            p == y * ww + x,
    ;
    lemma_fundamental_div_mod_converse(k, 4, p, c);
    lemma_fundamental_div_mod_converse(p, ww, y, x);
}

/// Packs equally sized tiles of `tile_width * tile_height` RGBA pixels into a
/// square atlas of `ceil(sqrt(n))` tiles per side; tile `i` goes to cell
/// `(i mod t, i div t)`. A missing tile, or one of another size, leaves its
/// cell blank. Returns `None` when the atlas would not fit in memory.
pub fn pack_tiles(tiles: &Vec<Option<Vec<u8>>>, tile_width: usize, tile_height: usize) -> (r:
    Option<PackedAtlas>)
    ensures
        r is None == !atlas_fits(
            tile_count_of(tiles@.len() as int),
            tile_width as int,
            tile_height as int,
        ),
        r is Some ==> ({
            let a = r->Some_0;
            let t = tile_count_of(tiles@.len() as int);
            &&& a.tile_count == t
            &&& a.width == t * tile_width
            &&& a.height == t * tile_height
            &&& a.pixels@.len() == a.width * a.height * BYTES_PER_PIXEL
            &&& forall|x: int, y: int, c: int|
                0 <= x < a.width && 0 <= y < a.height && 0 <= c < BYTES_PER_PIXEL
                    ==> #[trigger] a.pixels@[(y * a.width + x) * BYTES_PER_PIXEL + c]
                    == atlas_channel(tiles@, t, tile_width as int, tile_height as int, x, y, c)
        }),
{
    let t: usize = atlas_tile_count(tiles.len());
    let w: usize = tile_width;
    let h: usize = tile_height;
    let width: usize = match t.checked_mul(w) {
        Some(v) => v,
        None => {
            return None;
        },
    };
    let height: usize = match t.checked_mul(h) {
        Some(v) => v,
        None => {
            return None;
        },
    };
    let area: usize = match width.checked_mul(height) {
        Some(v) => v,
        None => {
            return None;
        },
    };
    let bytes: usize = match area.checked_mul(BYTES_PER_PIXEL) {
        Some(v) => v,
        None => {
            return None;
        },
    };
    proof {
        if t == 0 || w == 0 || h == 0 {
            assert(bytes == 0) by (nonlinear_arith)
                requires
                    t == 0 || w == 0 || h == 0,
                    bytes == (t * w) * (t * h) * 4,
            ;
        }
    }
    let mut pixels: Vec<u8> = Vec::new();
    let mut k: usize = 0;
    while k < bytes
        invariant
            k <= bytes,
            bytes == atlas_bytes(t as int, w as int, h as int),
            bytes > 0 ==> t > 0 && w > 0 && h > 0,
            pixels@ == Seq::new(k as nat, |j: int| atlas_byte(tiles@, t as int, w as int, h as int, j)),
        decreases bytes - k,
    {
        let b = atlas_byte_exec(tiles, t, w, h, k);
        pixels.push(b);
        k = k + 1;
        proof {
            assert(pixels@ =~= Seq::new(k as nat, |j: int| atlas_byte(tiles@, t as int, w as int, h as int, j)));
        }
    }
    proof {
        assert forall|x: int, y: int, c: int|
            0 <= x < width && 0 <= y < height && 0 <= c < BYTES_PER_PIXEL
                implies #[trigger] pixels@[(y * width + x) * BYTES_PER_PIXEL + c]
                == atlas_channel(tiles@, t as int, w as int, h as int, x, y, c) by {
            lemma_byte_position(t as int, w as int, h as int, x, y, c);
        }
    }
    Some(PackedAtlas { pixels, width, height, tile_count: t })
}

} // verus!
