use crescent::{
    composite_frame, composite_tile, encode_buffer, encode_level, generate_rays, make_tiles,
    plan_shading, ray_through_pixel, HitRecord, MeshError, MeshTopology, RenderConfig,
    ShadeError, ShadePlan, Tile, LINEAR_ONE,
};

fn config(w: usize, h: usize, tw: usize, th: usize) -> RenderConfig {
    RenderConfig::new(w, h, tw, th).expect("valid configuration")
}

fn covers(t: &Tile, x: usize, y: usize) -> bool {
    t.pos.0 <= x && x < t.pos.0 + t.dims.0 && t.pos.1 <= y && y < t.pos.1 + t.dims.1
}

#[test]
fn tiles_partition_multiple_of_tile_size() {
    let cfg = config(64, 96, 32, 32);
    let tiles = make_tiles(&cfg);
    assert_eq!(tiles.len(), 6);
    for y in 0..96 {
        for x in 0..64 {
            let n = tiles.iter().filter(|t| covers(t, x, y)).count();
            assert_eq!(n, 1, "pixel ({}, {})", x, y);
        }
    }
    for t in tiles.iter() {
        assert_eq!(t.dims, (32, 32));
        assert_eq!(t.img.len(), 32 * 32 * 3);
        assert_eq!(t.srgb.len(), 32 * 32 * 3);
    }
    assert_eq!(tiles[0].pos, (0, 0));
    assert_eq!(tiles[1].pos, (32, 0));
    assert_eq!(tiles[2].pos, (0, 32));
    assert_eq!(tiles[5].pos, (32, 64));
}

#[test]
fn tiles_clipped_at_image_edge() {
    let cfg = config(5, 3, 2, 2);
    let tiles = make_tiles(&cfg);
    assert_eq!(tiles.len(), 6);
    assert_eq!(tiles[2].pos, (4, 0));
    assert_eq!(tiles[2].dims, (1, 2));
    assert_eq!(tiles[3].pos, (0, 2));
    assert_eq!(tiles[3].dims, (2, 1));
    assert_eq!(tiles[5].dims, (1, 1));
    for y in 0..3 {
        for x in 0..5 {
            assert_eq!(tiles.iter().filter(|t| covers(t, x, y)).count(), 1);
        }
    }
}

#[test]
fn empty_image_has_no_tiles() {
    assert_eq!(make_tiles(&config(0, 8, 4, 4)).len(), 0);
}

#[test]
fn config_rejects_zero_tile_size_and_huge_images() {
    assert!(RenderConfig::new(4, 4, 0, 4).is_none());
    assert!(RenderConfig::new(4, 4, 4, 0).is_none());
    assert!(RenderConfig::new(usize::MAX, 2, 4, 4).is_none());
    assert!(RenderConfig::new(512, 512, 32, 32).is_some());
}

#[test]
fn new_tile_is_black() {
    let t = Tile::new((2, 3), (4, 5));
    assert_eq!(t.dims, (2, 3));
    assert_eq!(t.pos, (4, 5));
    assert_eq!(t.img, vec![0u16; 18]);
    assert_eq!(t.srgb, vec![0u8; 18]);
}

#[test]
fn stream_index_is_row_major_pixel() {
    let t = Tile::new((3, 2), (0, 0));
    assert_eq!(t.pixel_of_index(0), (0, 0));
    assert_eq!(t.pixel_of_index(2), (2, 0));
    assert_eq!(t.pixel_of_index(4), (1, 1));
    for k in 0..6 {
        let (i, j) = t.pixel_of_index(k);
        assert_eq!(t.index_of_pixel(i, j), k);
    }
}

#[test]
fn rays_are_deterministic() {
    let cfg = config(8, 8, 4, 4);
    let t = Tile::new((4, 4), (4, 0));
    let a = generate_rays(&cfg, &t);
    let b = generate_rays(&cfg, &t);
    assert_eq!(a, b);
    let u = Tile::new((4, 4), (4, 0));
    assert_eq!(generate_rays(&cfg, &u), a);
}

#[test]
fn ray_direction_through_pixel_centre() {
    let cfg = config(4, 4, 4, 4);
    let r = ray_through_pixel(&cfg, 0, 0);
    assert_eq!((r.x, r.y), (0, 0));
    assert_eq!((r.dx, r.dy, r.dz), (-12, 12, -32));
    // The scaled direction is (x_ndc, y_ndc, -1) times 2 W H.
    let x_ndc = (0.0f64 + 0.5) / 4.0 - 0.5;
    let y_ndc = -((0.0f64 + 0.5) / 4.0 - 0.5);
    assert_eq!(r.dx as f64, x_ndc * 32.0);
    assert_eq!(r.dy as f64, y_ndc * 32.0);
    let r = ray_through_pixel(&cfg, 3, 2);
    assert_eq!((r.dx, r.dy, r.dz), (12, -4, -32));
}

#[test]
fn ray_order_matches_tile_pixels() {
    let cfg = config(4, 2, 2, 2);
    let t = Tile::new((2, 2), (2, 0));
    let rays = generate_rays(&cfg, &t);
    assert_eq!(rays.len(), 4);
    for (k, r) in rays.iter().enumerate() {
        let (i, j) = t.pixel_of_index(k);
        assert_eq!((r.x, r.y), (2 + i, j));
        assert_eq!(*r, ray_through_pixel(&cfg, 2 + i, j));
    }
    assert_eq!((rays[3].x, rays[3].y), (3, 1));
}

#[test]
fn mesh_arrays_are_checked() {
    assert_eq!(
        MeshTopology::new(0, 7, vec![0, 1, 2], 0).err(),
        Some(MeshError::PositionsNotTriples)
    );
    assert_eq!(
        MeshTopology::new(0, 9, vec![0, 1, 2, 0], 0).err(),
        Some(MeshError::IndicesNotTriples)
    );
    assert_eq!(
        MeshTopology::new(0, 9, vec![0, 1, 2], 6).err(),
        Some(MeshError::NormalCountMismatch)
    );
    assert_eq!(
        MeshTopology::new(0, 9, vec![0, 1, 2, 2, 3, 1], 0).err(),
        Some(MeshError::IndexOutOfRange { at: 4 })
    );
    let m = MeshTopology::new(7, 12, vec![0, 1, 2, 2, 3, 1], 12).unwrap();
    assert_eq!(m.geom_id, 7);
    assert_eq!(m.vertex_count, 4);
    assert!(m.has_normals);
}

fn hit(geom_id: u32, prim_id: u32) -> HitRecord {
    HitRecord { hit: true, geom_id, prim_id }
}

fn miss() -> HitRecord {
    HitRecord { hit: false, geom_id: u32::MAX, prim_id: u32::MAX }
}

#[test]
fn hits_are_planned_in_stream_order() {
    let plain = MeshTopology::new(0, 9, vec![0, 1, 2], 0).unwrap();
    let smooth = MeshTopology::new(5, 12, vec![0, 1, 2, 3, 2, 1], 12).unwrap();
    let meshes = vec![plain, smooth];
    let hits = vec![miss(), hit(0, 0), hit(5, 1), hit(5, 0)];
    let plans = plan_shading(&meshes, &hits).unwrap();
    assert_eq!(
        plans,
        vec![
            ShadePlan::Background,
            ShadePlan::Barycentric,
            ShadePlan::Normals { mesh: 1, v0: 3, v1: 2, v2: 1 },
            ShadePlan::Normals { mesh: 1, v0: 0, v1: 1, v2: 2 },
        ]
    );
    assert_eq!(plan_shading(&meshes, &hits).unwrap(), plans);
}

#[test]
fn unresolvable_hits_are_errors() {
    let meshes = vec![MeshTopology::new(0, 9, vec![0, 1, 2], 0).unwrap()];
    assert_eq!(
        plan_shading(&meshes, &vec![miss(), hit(3, 0)]),
        Err(ShadeError::UnknownGeometry { ray: 1, geom_id: 3 })
    );
    assert_eq!(
        plan_shading(&meshes, &vec![hit(0, 1), hit(3, 0)]),
        Err(ShadeError::PrimitiveOutOfRange { ray: 0, prim_id: 1 })
    );
    assert_eq!(plan_shading(&meshes, &vec![]), Ok(vec![]));
}

fn srgb_reference(n: u16) -> u8 {
    let l = n as f64 / 65535.0;
    let s = if l <= 0.0031308 { 12.92 * l } else { 1.055 * l.powf(1.0 / 2.4) - 0.055 };
    (255.0 * s).round().clamp(0.0, 255.0) as u8
}

#[test]
fn encoder_bounds() {
    assert_eq!(encode_level(0), 0);
    assert_eq!(encode_level(LINEAR_ONE), 255);
    let zero = encode_buffer(&vec![0u16; 12]);
    assert_eq!(zero, vec![0u8; 12]);
    let white = encode_buffer(&vec![LINEAR_ONE; 3]);
    assert_eq!(white, vec![255u8, 255, 255]);
}

#[test]
fn encoder_follows_srgb_curve() {
    let mut last = 0u8;
    for n in 0..=u16::MAX {
        let b = encode_level(n);
        assert_eq!(b, srgb_reference(n), "level {}", n);
        assert!(b >= last);
        last = b;
    }
    assert_eq!(encode_level(32768), 188);
    assert_eq!(encode_level(10), 1);
    assert_eq!(encode_level(9), 0);
}

#[test]
fn tile_encode_fills_srgb() {
    let mut t = Tile::new((2, 1), (0, 0));
    t.store_linear(1, (LINEAR_ONE, 32768, 0));
    assert_eq!(t.img, vec![0, 0, 0, LINEAR_ONE, 32768, 0]);
    t.encode();
    assert_eq!(t.srgb, vec![0, 0, 0, 255, 188, 0]);
}

#[test]
fn compositor_places_second_tile() {
    let mut a = Tile::new((2, 2), (0, 0));
    let mut b = Tile::new((2, 2), (2, 0));
    for k in 0..12 {
        a.srgb[k] = k as u8;
        b.srgb[k] = 100 + k as u8;
    }
    let mut frame = vec![0u8; 4 * 2 * 3];
    composite_tile(&mut frame, 4, 2, &a);
    composite_tile(&mut frame, 4, 2, &b);
    let local = b.index_of_pixel(1, 1) * 3;
    let dst = (3 + 1 * 4) * 3;
    assert_eq!(&frame[dst..dst + 3], &b.srgb[local..local + 3]);
    assert_eq!(&frame[dst..dst + 3], &[109, 110, 111]);
    assert_eq!(&frame[0..3], &[0, 1, 2]);
}

#[test]
fn composite_frame_from_grid() {
    let cfg = config(5, 3, 2, 2);
    let mut tiles = make_tiles(&cfg);
    for (n, t) in tiles.iter_mut().enumerate() {
        for v in t.srgb.iter_mut() {
            *v = n as u8 + 1;
        }
    }
    let frame = composite_frame(&cfg, &tiles);
    assert_eq!(frame.len(), 45);
    for y in 0..3 {
        for x in 0..5 {
            let owner = (y / 2) * 3 + x / 2;
            for c in 0..3 {
                assert_eq!(frame[(x + y * 5) * 3 + c], owner as u8 + 1);
            }
        }
    }
}
