//! The tile scheduler: cuts the image into a regular grid of tiles.
//!
//! Tiles are laid out from the image origin in steps of the tile size, row
//! by row. Where the image size is not a multiple of the tile size, the last
//! column and the last row of tiles are clipped to the image.
use vstd::prelude::*;
use vstd::arithmetic::div_mod::{
    lemma_fundamental_div_mod, lemma_fundamental_div_mod_converse, lemma_div_is_ordered,
};
use crate::tile::{Tile, CHANNELS, pixel_count};

verus! {

/// Image and tile size of one render.
#[derive(Clone, Copy, Debug, PartialEq, Eq, Structural)]
pub struct RenderConfig {
    pub width: usize,
    pub height: usize,
    pub tile_width: usize,
    pub tile_height: usize,
}

/// Number of tiles of size `t` needed along an axis of length `w`.
pub open spec fn grid_len(w: int, t: int) -> int {
    w / t + if w % t == 0 { 0int } else { 1int }
}

/// Length along an axis of length `w` of the `c`-th tile of size `t`,
/// clipped to the image.
pub open spec fn span(w: int, t: int, c: int) -> int {
    if w - c * t < t { w - c * t } else { t }
}

impl RenderConfig {
    /// Tile sizes are positive and the full framebuffer fits in memory.
    pub open spec fn wf(&self) -> bool {
        &&& self.tile_width > 0
        &&& self.tile_height > 0
        &&& CHANNELS * (self.width * self.height) <= usize::MAX
    }

    /// The configuration of a `width` by `height` image cut into tiles of
    /// `tile_width` by `tile_height`, if the tile sizes are positive and the
    /// framebuffer fits in memory.
    pub fn new(width: usize, height: usize, tile_width: usize, tile_height: usize) -> (r: Option<
        RenderConfig,
    >)
        ensures
            r.is_some() <==> tile_width > 0 && tile_height > 0 && CHANNELS * (width * height)
                <= usize::MAX,
            r matches Some(cfg) ==> cfg.wf() && cfg == (RenderConfig {
                width,
                height,
                tile_width,
                tile_height,
            }),
    {
        if tile_width == 0 || tile_height == 0 {
            return None;
        }
        match width.checked_mul(height) {
            None => None,
            Some(area) => match area.checked_mul(CHANNELS) {
                None => None,
                Some(_) => Some(RenderConfig { width, height, tile_width, tile_height }),
            },
        }
    }

    pub open spec fn cols(&self) -> int {
        grid_len(self.width as int, self.tile_width as int)
    }

    pub open spec fn rows(&self) -> int {
        grid_len(self.height as int, self.tile_height as int)
    }

    pub open spec fn tile_count(&self) -> int {
        self.cols() * self.rows()
    }

    /// Offset of the `k`-th tile: tiles go row by row, left to right.
    pub open spec fn tile_pos(&self, k: int) -> (int, int) {
        (
            (k % self.cols()) * self.tile_width,
            (k / self.cols()) * self.tile_height,
        )
    }

    /// Dimensions of the `k`-th tile, clipped to the image.
    pub open spec fn tile_dims(&self, k: int) -> (int, int) {
        (
            span(self.width as int, self.tile_width as int, k % self.cols()),
            span(self.height as int, self.tile_height as int, k / self.cols()),
        )
    }

    /// The `k`-th tile covers pixel (x, y).
    pub open spec fn tile_covers(&self, k: int, x: int, y: int) -> bool {
        &&& self.tile_pos(k).0 <= x < self.tile_pos(k).0 + self.tile_dims(k).0
        &&& self.tile_pos(k).1 <= y < self.tile_pos(k).1 + self.tile_dims(k).1
    }

    /// Index of the tile that holds pixel (x, y).
    pub open spec fn tile_of(&self, x: int, y: int) -> int {
        (y / self.tile_height as int) * self.cols() + x / self.tile_width as int
    }
}

/// `tiles` is the grid of `cfg`: tile `k` sits at `cfg.tile_pos(k)`, has the
/// dimensions `cfg.tile_dims(k)` and both of its buffers.
pub open spec fn is_grid(cfg: RenderConfig, tiles: Seq<Tile>) -> bool {
    &&& tiles.len() == cfg.tile_count()
    &&& forall|k: int| 0 <= k < tiles.len() ==> {
        let t = #[trigger] tiles[k];
        &&& t.wf()
        &&& t.pos.0 == cfg.tile_pos(k).0
        &&& t.pos.1 == cfg.tile_pos(k).1
        &&& t.dims.0 == cfg.tile_dims(k).0
        &&& t.dims.1 == cfg.tile_dims(k).1
    }
}

/// Number of tiles of size `t` along an axis of length `w`.
fn grid_len_of(w: usize, t: usize) -> (r: usize)
    requires
        t > 0,
    ensures
        r == grid_len(w as int, t as int),
        r <= w,
{
    proof {
        lemma_fundamental_div_mod(w as int, t as int);
        assert((w / t) * t == t * (w / t)) by (nonlinear_arith);
        assert(w / t <= w) by (nonlinear_arith)
            requires
                t > 0,
        ;
    }
    if w % t == 0 {
        w / t
    } else {
        assert(w / t < w) by (nonlinear_arith)
            requires
                t > 0,
                w % t != 0,
                w == t * (w / t) + w % t,
        ;
        w / t + 1
    }
}

/// Length of the `c`-th tile of size `t` along an axis of length `w`.
fn span_of(w: usize, t: usize, c: usize) -> (r: usize)
    requires
        t > 0,
        c < grid_len(w as int, t as int),
    ensures
        r == span(w as int, t as int, c as int),
        0 < r <= t,
        r <= w,
        c * t + r <= w,
{
    proof {
        lemma_slot_starts_inside(w as int, t as int, c as int);
    }
    let start = c * t;
    if w - start < t {
        w - start
    } else {
        t
    }
}

/// The tiles that cover the image, row by row and left to right within a
/// row, each with black buffers. Tile `k` sits at `cfg.tile_pos(k)` and has
/// the dimensions `cfg.tile_dims(k)`.
pub fn make_tiles(cfg: &RenderConfig) -> (tiles: Vec<Tile>)
    requires
        cfg.wf(),
    ensures
        is_grid(*cfg, tiles@),
        forall|k: int| 0 <= k < tiles.len() ==> {
            let t = #[trigger] tiles@[k];
            &&& forall|m: int| 0 <= m < t.img.len() ==> t.img@[m] == 0
            &&& forall|m: int| 0 <= m < t.srgb.len() ==> t.srgb@[m] == 0
        },
{
    let cols = grid_len_of(cfg.width, cfg.tile_width);
    let rows = grid_len_of(cfg.height, cfg.tile_height);
    let mut tiles: Vec<Tile> = Vec::new();
    let mut j: usize = 0;
    while j < rows
        invariant
            cfg.wf(),
            cols == cfg.cols(),
            rows == cfg.rows(),
            j <= rows,
            tiles.len() == j * cols,
            forall|k: int| 0 <= k < tiles.len() ==> {
                let t = #[trigger] tiles@[k];
                &&& t.wf()
                &&& t.pos.0 == cfg.tile_pos(k).0
                &&& t.pos.1 == cfg.tile_pos(k).1
                &&& t.dims.0 == cfg.tile_dims(k).0
                &&& t.dims.1 == cfg.tile_dims(k).1
                &&& forall|m: int| 0 <= m < t.img.len() ==> t.img@[m] == 0
                &&& forall|m: int| 0 <= m < t.srgb.len() ==> t.srgb@[m] == 0
            },
        decreases rows - j,
    {
        let th = span_of(cfg.height, cfg.tile_height, j);
        let y = j * cfg.tile_height;
        let mut i: usize = 0;
        while i < cols
            invariant
                cfg.wf(),
                cols == cfg.cols(),
                rows == cfg.rows(),
                j < rows,
                i <= cols,
                th == span(cfg.height as int, cfg.tile_height as int, j as int),
                0 < th <= cfg.height,
                y == j * cfg.tile_height,
                tiles.len() == j * cols + i,
                forall|k: int| 0 <= k < tiles.len() ==> {
                    let t = #[trigger] tiles@[k];
                    &&& t.wf()
                    &&& t.pos.0 == cfg.tile_pos(k).0
                    &&& t.pos.1 == cfg.tile_pos(k).1
                    &&& t.dims.0 == cfg.tile_dims(k).0
                    &&& t.dims.1 == cfg.tile_dims(k).1
                    &&& forall|m: int| 0 <= m < t.img.len() ==> t.img@[m] == 0
                    &&& forall|m: int| 0 <= m < t.srgb.len() ==> t.srgb@[m] == 0
                },
            decreases cols - i,
        {
            let tw = span_of(cfg.width, cfg.tile_width, i);
            let x = i * cfg.tile_width;
            proof {
                let w = cfg.width as int;
                let h = cfg.height as int;
                assert(CHANNELS * pixel_count((tw, th)) <= CHANNELS * (w * h)) by (nonlinear_arith)
                    requires
                        0 < tw <= w,
                        0 < th <= h,
                ;
                lemma_fundamental_div_mod_converse(
                    (j * cols + i) as int,
                    cols as int,
                    j as int,
                    i as int,
                );
            }
            let tile = Tile::new((tw, th), (x, y));
            tiles.push(tile);
            i = i + 1;
        }
        assert(j * cols + cols == (j + 1) * cols) by (nonlinear_arith);
        j = j + 1;
    }
    assert(rows * cols == cols * rows) by (nonlinear_arith);
    tiles
}

/// Every tile along an axis starts inside the axis.
proof fn lemma_slot_starts_inside(w: int, t: int, c: int)
    requires
        w >= 0,
        t > 0,
        0 <= c < grid_len(w, t),
    ensures
        c * t < w,
        0 < span(w, t, c) <= t,
        c * t + span(w, t, c) <= w,
{
    lemma_fundamental_div_mod(w, t);
    if c < w / t {
        assert(c * t + t <= (w / t) * t) by (nonlinear_arith)
            requires
                c < w / t,
                t > 0,
        ;
    } else {
        assert(c == w / t);
        assert(c * t == (w / t) * t) by (nonlinear_arith)
            requires
                c == w / t,
        ;
    }
}

/// Pixel `x` of an axis of length `w` lies in tile `x / t`, and in no other.
proof fn lemma_slot_of(w: int, t: int, x: int, c: int)
    requires
        t > 0,
        0 <= x < w,
    ensures
        0 <= x / t < grid_len(w, t),
        (x / t) * t <= x < (x / t) * t + span(w, t, x / t),
        0 <= c && c * t <= x < c * t + span(w, t, c) ==> c == x / t,
{
    lemma_fundamental_div_mod(x, t);
    lemma_fundamental_div_mod(w, t);
    lemma_div_is_ordered(x, w, t);
    assert(0 <= x / t) by (nonlinear_arith)
        requires
            0 <= x,
            t > 0,
    ;
    if w % t == 0 && x / t == w / t {
        assert((x / t) * t == t * (w / t)) by (nonlinear_arith)
            requires
                x / t == w / t,
        ;
    }
    assert((x / t) * t == t * (x / t)) by (nonlinear_arith);
    if 0 <= c && c * t <= x && x < c * t + span(w, t, c) {
        lemma_fundamental_div_mod_converse(x, t, c, x - c * t);
    }
}

/// The tiles partition the image: every pixel (x, y) of the image lies in
/// exactly one tile, the one at `tile_of(x, y)`, and every pixel of every
/// tile lies in the image.
pub proof fn lemma_tiles_partition(cfg: RenderConfig, x: int, y: int, k: int)
    requires
        cfg.wf(),
    ensures
        0 <= x < cfg.width && 0 <= y < cfg.height ==> {
            &&& 0 <= cfg.tile_of(x, y) < cfg.tile_count()
            &&& cfg.tile_covers(cfg.tile_of(x, y), x, y)
            &&& (0 <= k < cfg.tile_count() && cfg.tile_covers(k, x, y) ==> k == cfg.tile_of(x, y))
        },
        0 <= k < cfg.tile_count() && cfg.tile_covers(k, x, y) ==> {
            &&& 0 <= x < cfg.width
            &&& 0 <= y < cfg.height
        },
{
    let w = cfg.width as int;
    let h = cfg.height as int;
    let tw = cfg.tile_width as int;
    let th = cfg.tile_height as int;
    let cols = cfg.cols();
    let rows = cfg.rows();
    lemma_grid_len_nonneg(w, tw);
    lemma_grid_len_nonneg(h, th);
    if 0 <= k < cfg.tile_count() {
        lemma_grid_index(cols, rows, k);
        lemma_slot_starts_inside(w, tw, k % cols);
        lemma_slot_starts_inside(h, th, k / cols);
    }
    if 0 <= x < w && 0 <= y < h {
        let c = k % cols;
        let r = k / cols;
        lemma_slot_of(w, tw, x, c);
        lemma_slot_of(h, th, y, r);
        let c0 = x / tw;
        let r0 = y / th;
        assert(0 <= r0 * cols + c0 < cols * rows) by (nonlinear_arith)
            requires
                0 <= c0 < cols,
                0 <= r0 < rows,
        ;
        lemma_fundamental_div_mod_converse(r0 * cols + c0, cols, r0, c0);
        if 0 <= k < cfg.tile_count() && cfg.tile_covers(k, x, y) {
            lemma_fundamental_div_mod(k, cols);
            assert(k == r * cols + c) by (nonlinear_arith)
                requires
                    k == cols * (k / cols) + k % cols,
                    r == k / cols,
                    c == k % cols,
            ;
        }
    }
}

proof fn lemma_grid_len_nonneg(w: int, t: int)
    requires
        w >= 0,
        t > 0,
    ensures
        grid_len(w, t) >= 0,
{
    assert(w / t >= 0) by (nonlinear_arith)
        requires
            w >= 0,
            t > 0,
    ;
}

/// Position `k` of a grid of `cols` columns and `rows` rows lies in column
/// `k % cols` and row `k / cols`, both in range.
proof fn lemma_grid_index(cols: int, rows: int, k: int)
    requires
        0 <= cols,
        0 <= rows,
        0 <= k < cols * rows,
    ensures
        cols > 0,
        0 <= k % cols < cols,
        0 <= k / cols < rows,
{
    assert(cols > 0) by (nonlinear_arith)
        requires
            0 <= cols,
            0 <= rows,
            0 <= k < cols * rows,
    ;
    assert(0 <= k / cols < rows) by (nonlinear_arith)
        requires
            0 <= k < cols * rows,
            cols > 0,
    ;
    assert(0 <= k % cols < cols) by (nonlinear_arith)
        requires
            cols > 0,
    ;
}

} // verus!
