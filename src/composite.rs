//! The frame compositor: copies finished tiles into the full framebuffer.
use vstd::prelude::*;
use vstd::arithmetic::div_mod::lemma_fundamental_div_mod_converse;
use crate::tile::{Tile, CHANNELS, pixel_index};
use crate::schedule::{RenderConfig, is_grid, lemma_tiles_partition};

verus! {

/// Position in a framebuffer `width` pixels wide of the first channel of
/// image pixel (x, y); the channels of one pixel follow each other.
pub open spec fn frame_index(width: int, x: int, y: int) -> int {
    (x + y * width) * 3
}

/// Channel `c` of image pixel (x, y) in a framebuffer `width` pixels wide.
pub open spec fn frame_at(frame: Seq<u8>, width: int, x: int, y: int, c: int) -> u8 {
    frame[frame_index(width, x, y) + c]
}

/// Channel `c` of image pixel (x, y) as held by `tile`, which covers it.
pub open spec fn tile_value(tile: Tile, x: int, y: int, c: int) -> u8 {
    tile.srgb@[pixel_index(tile.dims.0 as int, x - tile.pos.0, y - tile.pos.1) * 3 + c]
}

/// The channel positions of distinct pixels of an image never meet.
proof fn lemma_frame_index_unique(w: int, h: int, x: int, y: int, c: int, x2: int, y2: int, c2: int)
    requires
        0 <= x < w,
        0 <= y < h,
        0 <= c < 3,
        0 <= x2 < w,
        0 <= y2 < h,
        0 <= c2 < 3,
        frame_index(w, x, y) + c == frame_index(w, x2, y2) + c2,
    ensures
        x == x2,
        y == y2,
        c == c2,
{
    let n = frame_index(w, x, y) + c;
    lemma_fundamental_div_mod_converse(n, 3, x + y * w, c);
    lemma_fundamental_div_mod_converse(n, 3, x2 + y2 * w, c2);
    lemma_fundamental_div_mod_converse(x + y * w, w, y, x);
    lemma_fundamental_div_mod_converse(x2 + y2 * w, w, y2, x2);
}

proof fn lemma_frame_index_in_frame(w: int, h: int, x: int, y: int)
    requires
        0 <= x < w,
        0 <= y < h,
    ensures
        0 <= frame_index(w, x, y),
        frame_index(w, x, y) + 3 <= 3 * (w * h),
{
    assert(0 <= x + y * w && x + y * w + 1 <= w * h) by (nonlinear_arith)
        requires
            0 <= x < w,
            0 <= y < h,
    ;
}

/// Copies each pixel of `tile` into the framebuffer of a `width` by `height`
/// image, tile-local pixel (i, j) going to image pixel
/// `(pos.0 + i, pos.1 + j)`. Pixels that the tile does not cover keep their
/// value.
pub fn composite_tile(frame: &mut Vec<u8>, width: usize, height: usize, tile: &Tile)
    requires
        old(frame).len() == CHANNELS * (width * height),
        tile.wf(),
        tile.pos.0 + tile.dims.0 <= width,
        tile.pos.1 + tile.dims.1 <= height,
    ensures
        final(frame).len() == old(frame).len(),
        forall|x: int, y: int, c: int|
            0 <= x < width && 0 <= y < height && 0 <= c < 3 ==> #[trigger] frame_at(
                final(frame)@,
                width as int,
                x,
                y,
                c,
            ) == if tile.covers(x, y) {
                tile_value(*tile, x, y, c)
            } else {
                frame_at(old(frame)@, width as int, x, y, c)
            },
{
    let tw = tile.dims.0;
    let th = tile.dims.1;
    let ghost w = width as int;
    let ghost h = height as int;
    let ghost start = frame@;
    let mut j: usize = 0;
    while j < th
        invariant
            j <= th,
            tw == tile.dims.0,
            th == tile.dims.1,
            w == width,
            h == height,
            tile.wf(),
            tile.pos.0 + tw <= width,
            tile.pos.1 + th <= height,
            frame.len() == start.len(),
            start.len() == CHANNELS * (width * height),
            forall|x: int, y: int, c: int|
                0 <= x < w && 0 <= y < h && 0 <= c < 3 ==> #[trigger] frame_at(frame@, w, x, y, c)
                    == if tile.covers(x, y) && y < tile.pos.1 + j {
                    tile_value(*tile, x, y, c)
                } else {
                    frame_at(start, w, x, y, c)
                },
        decreases th - j,
    {
        let mut i: usize = 0;
        while i < tw
            invariant
                j < th,
                i <= tw,
                tw == tile.dims.0,
                th == tile.dims.1,
                w == width,
                h == height,
                tile.wf(),
                tile.pos.0 + tw <= width,
                tile.pos.1 + th <= height,
                frame.len() == start.len(),
                start.len() == CHANNELS * (width * height),
                forall|x: int, y: int, c: int|
                    0 <= x < w && 0 <= y < h && 0 <= c < 3 ==> #[trigger] frame_at(
                        frame@,
                        w,
                        x,
                        y,
                        c,
                    ) == if tile.covers(x, y) && (y < tile.pos.1 + j || (y == tile.pos.1 + j
                        && x < tile.pos.0 + i)) {
                        tile_value(*tile, x, y, c)
                    } else {
                        frame_at(start, w, x, y, c)
                    },
            decreases tw - i,
        {
            let x0 = tile.pos.0 + i;
            let y0 = tile.pos.1 + j;
            let src = tile.index_of_pixel(i, j) * 3;
            proof {
                lemma_frame_index_in_frame(w, h, x0 as int, y0 as int);
            }
            let dst = (x0 + y0 * width) * 3;
            let ghost before = frame@;
            frame[dst] = tile.srgb[src];
            frame[dst + 1] = tile.srgb[src + 1];
            frame[dst + 2] = tile.srgb[src + 2];
            proof {
                assert forall|x: int, y: int, c: int|
                    0 <= x < w && 0 <= y < h && 0 <= c < 3 implies #[trigger] frame_at(
                        frame@,
                        w,
                        x,
                        y,
                        c,
                    ) == if tile.covers(x, y) && (y < tile.pos.1 + j || (y == tile.pos.1 + j
                        && x < tile.pos.0 + i + 1)) {
                        tile_value(*tile, x, y, c)
                    } else {
                        frame_at(start, w, x, y, c)
                    } by {
                    if x == x0 && y == y0 {
                        assert(frame_index(w, x, y) == dst);
                    } else {
                        lemma_frame_index_in_frame(w, h, x, y);
                        if frame_index(w, x, y) + c == dst || frame_index(w, x, y) + c == dst + 1
                            || frame_index(w, x, y) + c == dst + 2 {
                            let c0 = frame_index(w, x, y) + c - dst;
                            lemma_frame_index_unique(w, h, x, y, c, x0 as int, y0 as int, c0);
                        }
                        assert(frame_at(frame@, w, x, y, c) == frame_at(before, w, x, y, c));
                    }
                }
            }
            i = i + 1;
        }
        j = j + 1;
    }
}

/// The framebuffer of the whole image, composited from the grid of finished
/// tiles: every pixel comes from the one tile that covers it.
pub fn composite_frame(cfg: &RenderConfig, tiles: &Vec<Tile>) -> (frame: Vec<u8>)
    requires
        cfg.wf(),
        is_grid(*cfg, tiles@),
    ensures
        frame.len() == CHANNELS * (cfg.width * cfg.height),
        forall|x: int, y: int, c: int|
            0 <= x < cfg.width && 0 <= y < cfg.height && 0 <= c < 3 ==> #[trigger] frame_at(
                frame@,
                cfg.width as int,
                x,
                y,
                c,
            ) == tile_value(tiles@[cfg.tile_of(x, y)], x, y, c),
{
    let n: usize = CHANNELS * (cfg.width * cfg.height);
    let mut frame: Vec<u8> = Vec::with_capacity(n);
    let mut k: usize = 0;
    while k < n
        invariant
            k <= n,
            frame.len() == k,
            forall|m: int| 0 <= m < k ==> frame@[m] == 0,
        decreases n - k,
    {
        frame.push(0);
        k = k + 1;
    }
    let ghost w = cfg.width as int;
    let ghost h = cfg.height as int;
    proof {
        assert forall|x: int, y: int, c: int|
            0 <= x < w && 0 <= y < h && 0 <= c < 3 implies #[trigger] frame_at(frame@, w, x, y, c)
                == 0 && !(cfg.tile_of(x, y) < 0) by {
            lemma_tiles_partition(*cfg, x, y, 0);
            lemma_frame_index_in_frame(w, h, x, y);
        }
    }
    let mut t: usize = 0;
    while t < tiles.len()
        invariant
            cfg.wf(),
            is_grid(*cfg, tiles@),
            t <= tiles.len(),
            w == cfg.width,
            h == cfg.height,
            frame.len() == n,
            n == CHANNELS * (cfg.width * cfg.height),
            forall|x: int, y: int, c: int|
                0 <= x < w && 0 <= y < h && 0 <= c < 3 ==> #[trigger] frame_at(frame@, w, x, y, c)
                    == if cfg.tile_of(x, y) < t {
                    tile_value(tiles@[cfg.tile_of(x, y)], x, y, c)
                } else {
                    0
                },
        decreases tiles.len() - t,
    {
        let tile = &tiles[t];
        proof {
            let tp = tile.pos;
            let td = tile.dims;
            if td.0 > 0 && td.1 > 0 {
                lemma_tiles_partition(*cfg, tp.0 + td.0 - 1, tp.1 + td.1 - 1, t as int);
            }
            assert(tiles@[t as int] == *tile);
        }
        composite_tile(&mut frame, cfg.width, cfg.height, tile);
        proof {
            assert forall|x: int, y: int, c: int|
                0 <= x < w && 0 <= y < h && 0 <= c < 3 implies #[trigger] frame_at(frame@, w, x, y, c)
                    == if cfg.tile_of(x, y) < t + 1 {
                    tile_value(tiles@[cfg.tile_of(x, y)], x, y, c)
                } else {
                    0
                } by {
                lemma_tiles_partition(*cfg, x, y, t as int);
            }
        }
        t = t + 1;
    }
    proof {
        assert forall|x: int, y: int, c: int|
            0 <= x < w && 0 <= y < h && 0 <= c < 3 implies #[trigger] frame_at(frame@, w, x, y, c)
                == tile_value(tiles@[cfg.tile_of(x, y)], x, y, c) by {
            lemma_tiles_partition(*cfg, x, y, 0);
        }
    }
    frame
}

} // verus!
