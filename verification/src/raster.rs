//! The raster and how it is cut into tiles.
//!
//! Pixels are numbered row by row: pixel `id` of a raster `width` pixels wide
//! lies in column `id % width` of row `id / width`. A partition with tile
//! capacity `capacity` hands the pixel ids out in that order, `capacity` at a
//! time; only the last tile may be shorter.

use vstd::prelude::*;
use vstd::arithmetic::div_mod::*;
use vstd::arithmetic::mul::*;

verus! {

/// Column and row of pixel `id` in a raster `width` pixels wide.
pub open spec fn pixel_at(id: nat, width: nat) -> (nat, nat) {
    (id % width, id / width)
}

/// The id of the pixel in column `x` of row `y`.
pub open spec fn pixel_id(x: nat, y: nat, width: nat) -> nat {
    y * width + x
}

/// All pixels of a `width` by `height` raster, row by row, each row from
/// left to right.
pub open spec fn row_major(width: nat, height: nat) -> Seq<(nat, nat)> {
    Seq::new(width * height, |id: int| pixel_at(id as nat, width))
}

/// The pixels with ids `start`, `start + 1`, ..., `start + len - 1`.
pub open spec fn pixel_run(width: nat, start: nat, len: nat) -> Seq<(nat, nat)> {
    Seq::new(len, |i: int| pixel_at((start + i) as nat, width))
}

/// How many pixels the tile that begins at pixel id `start` holds, in a
/// raster of `total` pixels.
pub open spec fn tile_len(total: nat, capacity: nat, start: nat) -> nat {
    if start >= total {
        0
    } else if total - start < capacity {
        (total - start) as nat
    } else {
        capacity
    }
}

/// The pixels of the tile that begins at pixel id `start`.
pub open spec fn tile_pixels(width: nat, total: nat, capacity: nat, start: nat) -> Seq<(nat, nat)> {
    pixel_run(width, start, tile_len(total, capacity, start))
}

/// The tiles that cover the pixel ids from `start` up to `total`, in the
/// order in which they are produced.
pub open spec fn tiles_from(width: nat, total: nat, capacity: nat, start: nat) -> Seq<
    Seq<(nat, nat)>,
>
    decreases total - start,
{
    if start >= total || capacity == 0 {
        Seq::empty()
    } else {
        seq![tile_pixels(width, total, capacity, start)].add(
            tiles_from(width, total, capacity, start + tile_len(total, capacity, start)),
        )
    }
}

/// The tiles of a whole `width` by `height` raster.
pub open spec fn partition(width: nat, height: nat, capacity: nat) -> Seq<Seq<(nat, nat)>> {
    tiles_from(width, width * height, capacity, 0)
}

/// `pixels / capacity`, rounded up: the number of tiles that `pixels` pixels
/// fill.
pub open spec fn tile_count(pixels: nat, capacity: nat) -> nat {
    ((pixels + capacity - 1) / (capacity as int)) as nat
}

/// A pixel id below `width * height` names a pixel inside the raster, and the
/// pixel names the id back.
pub proof fn lemma_pixel_at_in_raster(id: nat, width: nat, height: nat)
    requires
        id < width * height,
    ensures
        pixel_at(id, width).0 < width,
        pixel_at(id, width).1 < height,
        pixel_id(pixel_at(id, width).0, pixel_at(id, width).1, width) == id,
{
    assert(width > 0) by (nonlinear_arith)
        requires
            id < width * height,
    ;
    lemma_fundamental_div_mod(id as int, width as int);
    lemma_mod_pos_bound(id as int, width as int);
    let q = id as int / width as int;
    let r = id as int % width as int;
    assert(id == width * q + r);
    lemma_mul_is_commutative(width as int, q);
    assert(q < height) by (nonlinear_arith)
        requires
            width * q + r < width * height,
            0 <= r,
            width > 0,
    ;
    assert(0 <= q) by (nonlinear_arith)
        requires
            id == width * q + r,
            r < width,
            width > 0,
            id >= 0,
    ;
}

/// The pixel in column `x` of row `y` carries the id `y * width + x`.
pub proof fn lemma_pixel_id_roundtrip(x: nat, y: nat, width: nat, height: nat)
    requires
        x < width,
        y < height,
    ensures
        pixel_id(x, y, width) < width * height,
        pixel_at(pixel_id(x, y, width), width) == (x, y),
{
    lemma_fundamental_div_mod_converse((y * width + x) as int, width as int, y as int, x as int);
    assert(y * width + x < width * height) by (nonlinear_arith)
        requires
            x < width,
            y < height,
    ;
}

/// A run of pixels splits at any point into two runs.
pub proof fn lemma_pixel_run_split(width: nat, start: nat, first: nat, rest: nat)
    ensures
        pixel_run(width, start, first + rest) == pixel_run(width, start, first).add(
            pixel_run(width, start + first, rest),
        ),
{
    assert(pixel_run(width, start, first + rest) =~= pixel_run(width, start, first).add(
        pixel_run(width, start + first, rest),
    ));
}

/// Rounding up: a positive number of pixels that fits in one tile fills one
/// tile, and a whole tile more of pixels fills one tile more.
pub proof fn lemma_tile_count_step(pixels: nat, capacity: nat)
    requires
        capacity > 0,
    ensures
        pixels == 0 ==> tile_count(pixels, capacity) == 0,
        0 < pixels <= capacity ==> tile_count(pixels, capacity) == 1,
        pixels >= capacity ==> tile_count(pixels, capacity) == tile_count(
            (pixels - capacity) as nat,
            capacity,
        ) + 1,
{
    let c = capacity as int;
    if pixels == 0 {
        lemma_small_mod((capacity - 1) as nat, capacity);
        lemma_fundamental_div_mod(c - 1, c);
        assert((c - 1) / c == 0) by (nonlinear_arith)
            requires
                c - 1 == c * ((c - 1) / c) + (c - 1),
                c > 0,
        ;
    }
    if 0 < pixels <= capacity {
        lemma_fundamental_div_mod_converse(pixels + c - 1, c, 1, pixels - 1);
    }
    if pixels >= capacity {
        let rest = pixels - c;
        lemma_fundamental_div_mod(rest + c - 1, c);
        lemma_mod_pos_bound(rest + c - 1, c);
        let q = (rest + c - 1) / c;
        let r = (rest + c - 1) % c;
        assert(pixels + c - 1 == (q + 1) * c + r) by (nonlinear_arith)
            requires
                rest + c - 1 == c * q + r,
                pixels == rest + c,
        ;
        lemma_fundamental_div_mod_converse(pixels + c - 1, c, q + 1, r);
        assert(q >= 0) by (nonlinear_arith)
            requires
                rest + c - 1 == c * q + r,
                r < c,
                rest >= 0,
                c > 0,
        ;
    }
}

/// Rounding up by dividing down: one tile more than the whole quotient
/// exactly when the division leaves a rest.
pub proof fn lemma_tile_count_by_division(pixels: nat, capacity: nat)
    requires
        capacity > 0,
    ensures
        tile_count(pixels, capacity) == if pixels % capacity == 0 {
            pixels / capacity
        } else {
            pixels / capacity + 1
        },
{
    let c = capacity as int;
    let p = pixels as int;
    let q = p / c;
    let r = p % c;
    lemma_fundamental_div_mod(p, c);
    lemma_mod_pos_bound(p, c);
    assert(q >= 0) by (nonlinear_arith)
        requires
            p == c * q + r,
            r < c,
            p >= 0,
            c > 0,
    ;
    if r == 0 {
        assert(p + c - 1 == q * c + (c - 1)) by (nonlinear_arith)
            requires
                p == c * q + r,
                r == 0,
        ;
        lemma_fundamental_div_mod_converse(p + c - 1, c, q, c - 1);
    } else {
        assert(p + c - 1 == (q + 1) * c + (r - 1)) by (nonlinear_arith)
            requires
                p == c * q + r,
        ;
        lemma_fundamental_div_mod_converse(p + c - 1, c, q + 1, r - 1);
    }
}

/// The number of tiles still to come is the number of pixels still to come,
/// divided by the capacity and rounded up.
pub proof fn lemma_tiles_from_len(width: nat, total: nat, capacity: nat, start: nat)
    requires
        capacity > 0,
        start <= total,
    ensures
        tiles_from(width, total, capacity, start).len() == tile_count(
            (total - start) as nat,
            capacity,
        ),
    decreases total - start,
{
    lemma_tile_count_step((total - start) as nat, capacity);
    if start < total {
        let next = start + tile_len(total, capacity, start);
        lemma_tiles_from_len(width, total, capacity, next);
        lemma_tile_count_step((total - next) as nat, capacity);
    }
}

/// The tiles still to come, laid end to end, are the pixels still to come,
/// in the order of their ids.
pub proof fn lemma_tiles_from_flatten(width: nat, total: nat, capacity: nat, start: nat)
    requires
        capacity > 0,
        start <= total,
    ensures
        tiles_from(width, total, capacity, start).flatten() == pixel_run(
            width,
            start,
            (total - start) as nat,
        ),
    decreases total - start,
{
    let tiles = tiles_from(width, total, capacity, start);
    if start < total {
        let len = tile_len(total, capacity, start);
        let next = start + len;
        let rest = tiles_from(width, total, capacity, next);
        lemma_tiles_from_flatten(width, total, capacity, next);
        assert(tiles.first() == tile_pixels(width, total, capacity, start));
        assert(tiles.drop_first() =~= rest);
        lemma_pixel_run_split(width, start, len, (total - next) as nat);
    } else {
        assert(tiles.flatten() =~= pixel_run(width, start, 0));
    }
}

/// Tile number `k` begins at pixel id `start + k * capacity`.
pub proof fn lemma_tiles_from_index(width: nat, total: nat, capacity: nat, start: nat, k: nat)
    requires
        capacity > 0,
        start <= total,
        k < tiles_from(width, total, capacity, start).len(),
    ensures
        start + k * capacity < total,
        tiles_from(width, total, capacity, start)[k as int] == tile_pixels(
            width,
            total,
            capacity,
            start + k * capacity,
        ),
    decreases k,
{
    if k > 0 {
        let next = start + tile_len(total, capacity, start);
        if total - start < capacity {
            assert(tiles_from(width, total, capacity, next).len() == 0);
        }
        lemma_tiles_from_index(width, total, capacity, next, (k - 1) as nat);
        assert(next + (k - 1) * capacity == start + k * capacity) by (nonlinear_arith)
            requires
                next == start + capacity,
                k > 0,
        ;
    }
}

/// The partition law. For every raster and every positive tile capacity (so
/// for every capacity that is the square of a positive number):
///
/// * the number of tiles is the number of pixels divided by the capacity,
///   rounded up;
/// * the tiles laid end to end are the row-major enumeration of the raster;
/// * that enumeration holds only pixels of the raster, holds the pixel of
///   column `x` and row `y` at place `y * width + x`, and holds no pixel
///   twice: every pixel is covered exactly once;
/// * every tile holds at least one pixel, every tile but the last holds
///   exactly `capacity` pixels, and the last holds no more than that.
pub proof fn lemma_partition_covers_raster(width: nat, height: nat, capacity: nat)
    requires
        capacity > 0,
    ensures
        partition(width, height, capacity).len() == tile_count(width * height, capacity),
        partition(width, height, capacity).flatten() == row_major(width, height),
        forall|id: int|
            0 <= id < width * height ==> (#[trigger] row_major(width, height)[id]).0 < width
                && row_major(width, height)[id].1 < height,
        forall|x: nat, y: nat|
            x < width && y < height ==> #[trigger] pixel_id(x, y, width) < width * height
                && row_major(width, height)[pixel_id(x, y, width) as int] == (x, y),
        forall|i: int, j: int|
            0 <= i < j < width * height ==> row_major(width, height)[i] != row_major(
                width,
                height,
            )[j],
        forall|k: int|
            0 <= k < partition(width, height, capacity).len() ==> 0 < (#[trigger] partition(
                width,
                height,
                capacity,
            )[k]).len() <= capacity,
        forall|k: int|
            0 <= k < partition(width, height, capacity).len() - 1 ==> (#[trigger] partition(
                width,
                height,
                capacity,
            )[k]).len() == capacity,
{
    let total = width * height;
    let tiles = partition(width, height, capacity);
    lemma_tiles_from_len(width, total, capacity, 0);
    lemma_tiles_from_flatten(width, total, capacity, 0);
    assert(pixel_run(width, 0, total) =~= row_major(width, height));
    assert forall|id: int| 0 <= id < total implies (#[trigger] row_major(width, height)[id]).0
        < width && row_major(width, height)[id].1 < height by {
        lemma_pixel_at_in_raster(id as nat, width, height);
    }
    assert forall|x: nat, y: nat| x < width && y < height implies #[trigger] pixel_id(x, y, width)
        < total && row_major(width, height)[pixel_id(x, y, width) as int] == (x, y) by {
        lemma_pixel_id_roundtrip(x, y, width, height);
    }
    assert forall|i: int, j: int| 0 <= i < j < total implies row_major(width, height)[i]
        != row_major(width, height)[j] by {
        lemma_pixel_at_in_raster(i as nat, width, height);
        lemma_pixel_at_in_raster(j as nat, width, height);
    }
    assert forall|k: int| 0 <= k < tiles.len() implies 0 < (#[trigger] tiles[k]).len()
        <= capacity by {
        lemma_tiles_from_index(width, total, capacity, 0, k as nat);
    }
    assert forall|k: int| 0 <= k < tiles.len() - 1 implies (#[trigger] tiles[k]).len()
        == capacity by {
        lemma_tiles_from_index(width, total, capacity, 0, k as nat);
        lemma_tiles_from_index(width, total, capacity, 0, (k + 1) as nat);
        assert((k + 1) * capacity == k * capacity + capacity) by (nonlinear_arith);
    }
}

} // verus!
