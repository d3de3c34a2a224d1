//! An image tile: a rectangle of the output image with its own buffers.
use vstd::prelude::*;
use vstd::arithmetic::div_mod::lemma_fundamental_div_mod_converse;

verus! {

/// Number of channels stored per pixel (red, green, blue).
pub const CHANNELS: usize = 3;

/// An image tile.
///
/// `dims` is (width, height) in pixels and `pos` the offset of its top-left
/// pixel in the full image. `img` holds linear light in fixed point, where
/// `u16::MAX` stands for 1.0, and `srgb` the display-encoded bytes; both hold
/// three channels per pixel, pixels in row-major order.
pub struct Tile {
    pub dims: (usize, usize),
    pub pos: (usize, usize),
    pub img: Vec<u16>,
    pub srgb: Vec<u8>,
}

/// Number of pixels of a tile of the given dimensions.
pub open spec fn pixel_count(dims: (usize, usize)) -> nat {
    (dims.0 * dims.1) as nat
}

/// Row-major position of tile-local pixel (i, j) in a tile of width `w`.
pub open spec fn pixel_index(w: int, i: int, j: int) -> int {
    i + j * w
}

/// Tile-local pixel that the `k`-th entry of a row-major stream stands for.
pub open spec fn index_pixel(w: int, k: int) -> (int, int) {
    (k % w, k / w)
}

impl Tile {
    /// Both buffers hold three channels for every pixel of the tile.
    pub open spec fn wf(&self) -> bool {
        &&& CHANNELS * pixel_count(self.dims) <= usize::MAX
        &&& self.img.len() == CHANNELS * pixel_count(self.dims)
        &&& self.srgb.len() == CHANNELS * pixel_count(self.dims)
    }

    /// The tile covers absolute image pixel (x, y).
    pub open spec fn covers(&self, x: int, y: int) -> bool {
        &&& self.pos.0 <= x < self.pos.0 + self.dims.0
        &&& self.pos.1 <= y < self.pos.1 + self.dims.1
    }

    /// A tile of the given dimensions at the given offset, with both buffers
    /// set to black.
    pub fn new(dims: (usize, usize), pos: (usize, usize)) -> (r: Tile)
        requires
            CHANNELS * pixel_count(dims) <= usize::MAX,
        ensures
            r.dims == dims,
            r.pos == pos,
            r.wf(),
            forall|k: int| 0 <= k < r.img.len() ==> r.img@[k] == 0,
            forall|k: int| 0 <= k < r.srgb.len() ==> r.srgb@[k] == 0,
    {
        let n: usize = dims.0 * dims.1 * CHANNELS;
        let mut img: Vec<u16> = Vec::with_capacity(n);
        let mut srgb: Vec<u8> = Vec::with_capacity(n);
        let mut k: usize = 0;
        while k < n
            invariant
                k <= n,
                n == CHANNELS * pixel_count(dims),
                img.len() == k,
                srgb.len() == k,
                forall|m: int| 0 <= m < k ==> img@[m] == 0,
                forall|m: int| 0 <= m < k ==> srgb@[m] == 0,
            decreases n - k,
        {
            img.push(0);
            srgb.push(0);
            k = k + 1;
        }
        Tile { dims, pos, img, srgb }
    }

    /// Tile-local pixel (i, j) that entry `k` of the tile's row-major ray,
    /// hit and color streams stands for: `(k mod width, k div width)`.
    pub fn pixel_of_index(&self, k: usize) -> (r: (usize, usize))
        requires
            self.wf(),
            k < pixel_count(self.dims),
        ensures
            r.0 as int == index_pixel(self.dims.0 as int, k as int).0,
            r.1 as int == index_pixel(self.dims.0 as int, k as int).1,
            r.0 < self.dims.0,
            r.1 < self.dims.1,
    {
        let w = self.dims.0;
        proof {
            lemma_index_pixel_in_tile(w as int, self.dims.1 as int, k as int);
        }
        (k % w, k / w)
    }

    /// Stores the linear light of the `k`-th pixel of the tile's row-major
    /// stream.
    pub fn store_linear(&mut self, k: usize, rgb: (u16, u16, u16))
        requires
            old(self).wf(),
            k < pixel_count(old(self).dims),
        ensures
            final(self).wf(),
            final(self).dims == old(self).dims,
            final(self).pos == old(self).pos,
            final(self).srgb@ == old(self).srgb@,
            final(self).img@ == old(self).img@.update(3 * k as int, rgb.0).update(
                3 * k + 1,
                rgb.1,
            ).update(3 * k + 2, rgb.2),
    {
        let base = 3 * k;
        self.img.set(base, rgb.0);
        self.img.set(base + 1, rgb.1);
        self.img.set(base + 2, rgb.2);
    }

    /// Row-major stream position of tile-local pixel (i, j).
    pub fn index_of_pixel(&self, i: usize, j: usize) -> (r: usize)
        requires
            self.wf(),
            i < self.dims.0,
            j < self.dims.1,
        ensures
            r as int == pixel_index(self.dims.0 as int, i as int, j as int),
            r < pixel_count(self.dims),
    {
        proof {
            lemma_pixel_index_in_tile(self.dims.0 as int, self.dims.1 as int, i as int, j as int);
        }
        i + j * self.dims.0
    }
}

proof fn lemma_pixel_index_in_tile(w: int, h: int, i: int, j: int)
    requires
        0 <= i < w,
        0 <= j < h,
    ensures
        0 <= pixel_index(w, i, j) < w * h,
{
    assert(0 <= i + j * w < w * h) by (nonlinear_arith)
        requires
            0 <= i < w,
            0 <= j < h,
    ;
}

proof fn lemma_index_pixel_in_tile(w: int, h: int, k: int)
    requires
        0 <= k < w * h,
        w > 0,
    ensures
        0 <= index_pixel(w, k).0 < w,
        0 <= index_pixel(w, k).1 < h,
{
    assert(0 <= k / w < h) by (nonlinear_arith)
        requires
            0 <= k < w * h,
            w > 0,
    ;
    assert(0 <= k % w < w) by (nonlinear_arith)
        requires
            w > 0,
    ;
}

/// Stream position and tile-local pixel are two views of one thing: entry
/// `k` of a row-major stream of a `w`-wide, `h`-high tile is pixel
/// `(k mod w, k div w)`, and that pixel's position is `k` again; likewise
/// every pixel's position leads back to the pixel.
pub proof fn lemma_stream_order(w: int, h: int, k: int, i: int, j: int)
    requires
        w > 0,
        h > 0,
    ensures
        0 <= k < w * h ==> {
            let p = index_pixel(w, k);
            &&& 0 <= p.0 < w
            &&& 0 <= p.1 < h
            &&& pixel_index(w, p.0, p.1) == k
        },
        0 <= i < w && 0 <= j < h ==> {
            let q = pixel_index(w, i, j);
            &&& 0 <= q < w * h
            &&& index_pixel(w, q) == (i, j)
        },
{
    if 0 <= k < w * h {
        lemma_index_pixel_in_tile(w, h, k);
        vstd::arithmetic::div_mod::lemma_fundamental_div_mod(k, w);
        assert(k == k % w + (k / w) * w) by (nonlinear_arith)
            requires
                k == w * (k / w) + k % w,
        ;
    }
    if 0 <= i < w && 0 <= j < h {
        lemma_pixel_index_in_tile(w, h, i, j);
        lemma_fundamental_div_mod_converse(i + j * w, w, j, i);
    }
}

} // verus!
