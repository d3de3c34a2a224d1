//! The ray stream generator: one primary ray per pixel of a tile.
//!
//! The ray through the centre of image pixel (x, y) of a `W` by `H` image
//! has, before normalisation, the camera-space direction
//! `((x + 0.5) / W - 0.5, -((y + 0.5) / H - 0.5), -1)`. Scaled by `2 W H`
//! this direction has integer components, and normalising the scaled
//! vector gives the same unit direction; the stream holds it in that exact
//! form.
use vstd::prelude::*;
use crate::tile::{Tile, index_pixel, pixel_count, pixel_index, lemma_stream_order};
use crate::schedule::RenderConfig;

verus! {

/// The primary ray through the centre of image pixel (x, y); (dx, dy, dz)
/// is its camera-space direction scaled by twice the image area.
#[derive(PartialEq, Eq, Structural, Clone, Copy, Debug)]
pub struct PrimaryRay {
    pub x: usize,
    pub y: usize,
    pub dx: i128,
    pub dy: i128,
    pub dz: i128,
}

/// Scaled camera-space direction of the ray through pixel (x, y) of a
/// `w` by `h` image.
pub open spec fn pixel_direction(w: int, h: int, x: int, y: int) -> (int, int, int) {
    (h * (2 * x + 1 - w), w * (h - 2 * y - 1), -2 * (w * h))
}

/// The ray through image pixel (x, y).
pub open spec fn pixel_ray(cfg: RenderConfig, x: int, y: int) -> PrimaryRay {
    let d = pixel_direction(cfg.width as int, cfg.height as int, x, y);
    PrimaryRay { x: x as usize, y: y as usize, dx: d.0 as i128, dy: d.1 as i128, dz: d.2 as i128 }
}

/// The ray stream of a tile of dimensions `dims` at offset `pos`: entry `k`
/// is the ray through the tile's pixel `(k mod width, k div width)`.
pub open spec fn ray_stream(cfg: RenderConfig, dims: (usize, usize), pos: (usize, usize)) -> Seq<
    PrimaryRay,
> {
    Seq::new(
        pixel_count(dims),
        |k: int|
            pixel_ray(
                cfg,
                pos.0 + index_pixel(dims.0 as int, k).0,
                pos.1 + index_pixel(dims.0 as int, k).1,
            ),
    )
}

/// The tile lies inside the image of `cfg`.
pub open spec fn tile_in_image(cfg: RenderConfig, tile: Tile) -> bool {
    &&& tile.pos.0 + tile.dims.0 <= cfg.width
    &&& tile.pos.1 + tile.dims.1 <= cfg.height
}

/// The ray through image pixel (x, y).
pub fn ray_through_pixel(cfg: &RenderConfig, x: usize, y: usize) -> (r: PrimaryRay)
    requires
        cfg.wf(),
        x < cfg.width,
        y < cfg.height,
    ensures
        r == pixel_ray(*cfg, x as int, y as int),
        r.dx as int == pixel_direction(cfg.width as int, cfg.height as int, x as int, y as int).0,
        r.dy as int == pixel_direction(cfg.width as int, cfg.height as int, x as int, y as int).1,
        r.dz as int == pixel_direction(cfg.width as int, cfg.height as int, x as int, y as int).2,
{
    let w = cfg.width as i128;
    let h = cfg.height as i128;
    let xi = x as i128;
    let yi = y as i128;
    proof {
        let a = cfg.width * cfg.height;
        assert(0 <= a <= usize::MAX);
        assert(-a <= h * (2 * xi + 1 - w) <= a) by (nonlinear_arith)
            requires
                0 <= xi < w,
                0 <= h,
                a == w * h,
        ;
        assert(-a <= w * (h - 2 * yi - 1) <= a) by (nonlinear_arith)
            requires
                0 <= yi < h,
                0 <= w,
                a == w * h,
        ;
        assert(w * h == a);
    }
    let dx = h * (2 * xi + 1 - w);
    let dy = w * (h - 2 * yi - 1);
    let dz = -2 * (w * h);
    PrimaryRay { x, y, dx, dy, dz }
}

/// The tile's stream of primary rays, one per pixel in row-major order:
/// entry `k` is the ray through tile-local pixel `(k mod width, k div width)`.
pub fn generate_rays(cfg: &RenderConfig, tile: &Tile) -> (rays: Vec<PrimaryRay>)
    requires
        cfg.wf(),
        tile.wf(),
        tile_in_image(*cfg, *tile),
    ensures
        rays@ == ray_stream(*cfg, tile.dims, tile.pos),
{
    let n = tile.dims.0 * tile.dims.1;
    let mut rays: Vec<PrimaryRay> = Vec::with_capacity(n);
    let mut k: usize = 0;
    while k < n
        invariant
            cfg.wf(),
            tile.wf(),
            tile_in_image(*cfg, *tile),
            n == pixel_count(tile.dims),
            k <= n,
            rays@ == ray_stream(*cfg, tile.dims, tile.pos).take(k as int),
        decreases n - k,
    {
        let (i, j) = tile.pixel_of_index(k);
        let ray = ray_through_pixel(cfg, tile.pos.0 + i, tile.pos.1 + j);
        rays.push(ray);
        assert(rays@ =~= ray_stream(*cfg, tile.dims, tile.pos).take(k + 1));
        k = k + 1;
    }
    assert(rays@ =~= ray_stream(*cfg, tile.dims, tile.pos));
    rays
}

/// A ray stream depends on the configuration and the tile's place alone:
/// two tiles with the same dimensions and offset get the same rays, entry
/// for entry.
pub proof fn lemma_rays_deterministic(cfg: RenderConfig, a: Tile, b: Tile)
    requires
        a.dims == b.dims,
        a.pos == b.pos,
    ensures
        ray_stream(cfg, a.dims, a.pos) == ray_stream(cfg, b.dims, b.pos),
{
}

/// Entry `k` of a tile's ray stream is the ray through the tile's pixel
/// `(k mod width, k div width)`, that is image pixel
/// `(pos.0 + k mod width, pos.1 + k div width)`, and that pixel's row-major
/// position in the tile is `k`. Hits and colors, which keep the stream's
/// order, stand for the same pixel.
pub proof fn lemma_ray_order(cfg: RenderConfig, dims: (usize, usize), pos: (usize, usize), k: int)
    requires
        dims.0 > 0,
        dims.1 > 0,
        0 <= k < pixel_count(dims),
    ensures
        ({
            let p = index_pixel(dims.0 as int, k);
            let r = ray_stream(cfg, dims, pos)[k];
            &&& 0 <= p.0 < dims.0
            &&& 0 <= p.1 < dims.1
            &&& pixel_index(dims.0 as int, p.0, p.1) == k
            &&& r == pixel_ray(cfg, pos.0 + p.0, pos.1 + p.1)
        }),
{
    lemma_stream_order(dims.0 as int, dims.1 as int, k, 0, 0);
}

} // verus!
