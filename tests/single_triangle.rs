use crescent::{
    check_scene, generate_rays, make_tiles, plan_shading, HitRecord, MeshTopology, RenderConfig,
    ShadePlan,
};

type V3 = [f64; 3];

fn sub(a: V3, b: V3) -> V3 {
    [a[0] - b[0], a[1] - b[1], a[2] - b[2]]
}

fn cross(a: V3, b: V3) -> V3 {
    [a[1] * b[2] - a[2] * b[1], a[2] * b[0] - a[0] * b[2], a[0] * b[1] - a[1] * b[0]]
}

fn dot(a: V3, b: V3) -> f64 {
    a[0] * b[0] + a[1] * b[1] + a[2] * b[2]
}

/// Ray/triangle test standing in for the intersection service: the
/// barycentric (u, v) of the hit, if any.
fn intersect(org: V3, dir: V3, tri: [V3; 3]) -> Option<(f64, f64)> {
    let e1 = sub(tri[1], tri[0]);
    let e2 = sub(tri[2], tri[0]);
    let p = cross(dir, e2);
    let det = dot(e1, p);
    if det.abs() < 1e-12 {
        return None;
    }
    let s = sub(org, tri[0]);
    let u = dot(s, p) / det;
    let q = cross(s, e1);
    let v = dot(dir, q) / det;
    let t = dot(e2, q) / det;
    if u < 0.0 || v < 0.0 || u + v > 1.0 || t <= 0.0 {
        None
    } else {
        Some((u, v))
    }
}

#[test]
fn single_triangle_without_normals() {
    let tri = [[-1.0, 0.0, 0.0], [0.0, 1.0, 0.0], [1.0, 0.0, 0.0]];
    let eye = [0.0, 0.5, 2.0];
    let meshes = vec![MeshTopology::new(0, 9, vec![0, 1, 2], 0).unwrap()];
    assert!(check_scene(&meshes));
    let cfg = RenderConfig::new(4, 4, 4, 4).unwrap();
    let tiles = make_tiles(&cfg);
    assert_eq!(tiles.len(), 1);
    let rays = generate_rays(&cfg, &tiles[0]);
    assert_eq!(rays.len(), 16);

    let mut uvs = Vec::new();
    let hits: Vec<HitRecord> = rays
        .iter()
        .map(|r| {
            let dir = [r.dx as f64, r.dy as f64, r.dz as f64];
            let found = intersect(eye, dir, tri);
            uvs.push(found.unwrap_or((0.0, 0.0)));
            match found {
                Some(_) => HitRecord { hit: true, geom_id: 0, prim_id: 0 },
                None => HitRecord { hit: false, geom_id: u32::MAX, prim_id: u32::MAX },
            }
        })
        .collect();
    let plans = plan_shading(&meshes, &hits).unwrap();

    for (k, plan) in plans.iter().enumerate() {
        let (i, j) = tiles[0].pixel_of_index(k);
        match plan {
            ShadePlan::Barycentric => {
                let (u, v) = uvs[k];
                assert!((0.0..=1.0).contains(&u) && (0.0..=1.0).contains(&v) && u + v <= 1.0);
            }
            ShadePlan::Background => assert!(!hits[k].hit),
            ShadePlan::Normals { .. } => panic!("a mesh without normals"),
        }
        // The top and bottom rows look past the triangle.
        if j == 0 || j == 3 {
            assert_eq!(*plan, ShadePlan::Background, "pixel ({}, {})", i, j);
        }
    }
    // The two middle pixels of the third row look at the triangle's inside.
    assert_eq!(plans[2 * 4 + 1], ShadePlan::Barycentric);
    assert_eq!(plans[2 * 4 + 2], ShadePlan::Barycentric);
}

#[test]
fn scene_check_rejects_shared_ids() {
    let a = MeshTopology::new(3, 9, vec![0, 1, 2], 0).unwrap();
    let b = MeshTopology::new(3, 9, vec![2, 1, 0], 9).unwrap();
    assert!(!check_scene(&vec![a.clone(), b]));
    let mut c = a.clone();
    c.indices[1] = 9;
    assert!(!check_scene(&vec![c]));
    assert!(check_scene(&vec![a]));
}
