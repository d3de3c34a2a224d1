//! The shading stage's decisions: which surface data each hit is shaded
//! with.
//!
//! A miss is shaded with the background. A hit on a mesh with per-vertex
//! normals is shaded from the normals of the three vertices of the triangle
//! that was hit, blended by the hit's barycentric weights; a hit on a mesh
//! without normals is shaded from the barycentric coordinates themselves.
//! The arithmetic on those values is done by the caller; this module
//! resolves each hit against the scene's meshes, keeping the stream order.
use vstd::prelude::*;

verus! {

/// The index structure of one triangle mesh of the scene: `geom_id` is the
/// id the scene gave it, `indices` holds three vertex indices per triangle.
#[derive(Clone, Debug)]
pub struct MeshTopology {
    pub geom_id: u32,
    pub vertex_count: usize,
    pub indices: Vec<u32>,
    pub has_normals: bool,
}

/// Why mesh arrays do not form a mesh.
#[derive(PartialEq, Eq, Structural, Clone, Copy, Debug)]
pub enum MeshError {
    /// The position array does not hold whole (x, y, z) triples.
    PositionsNotTriples,
    /// The index array does not hold whole triangles.
    IndicesNotTriples,
    /// A normal array is present but does not hold one normal per vertex.
    NormalCountMismatch,
    /// The index at this position of the index array names no vertex.
    IndexOutOfRange { at: usize },
}

/// One entry of a hit stream: whether the ray hit, and if so which
/// geometry and which triangle of it.
#[derive(PartialEq, Eq, Structural, Clone, Copy, Debug)]
pub struct HitRecord {
    pub hit: bool,
    pub geom_id: u32,
    pub prim_id: u32,
}

/// How one pixel is shaded.
#[derive(PartialEq, Eq, Structural, Clone, Copy, Debug)]
pub enum ShadePlan {
    /// The ray missed: background color.
    Background,
    /// Blend the normals of vertices `v0`, `v1`, `v2` of mesh `mesh`.
    Normals { mesh: usize, v0: u32, v1: u32, v2: u32 },
    /// Show the hit's barycentric coordinates.
    Barycentric,
}

/// A hit that the scene cannot account for.
#[derive(PartialEq, Eq, Structural, Clone, Copy, Debug)]
pub enum ShadeError {
    /// Entry `ray` of the stream hit a geometry id that no mesh has.
    UnknownGeometry { ray: usize, geom_id: u32 },
    /// Entry `ray` of the stream hit a triangle that its mesh does not have.
    PrimitiveOutOfRange { ray: usize, prim_id: u32 },
}

impl MeshTopology {
    pub open spec fn triangle_count(&self) -> int {
        (self.indices@.len() / 3) as int
    }

    /// Whole triangles only, and every index names a vertex.
    pub open spec fn wf(&self) -> bool {
        &&& self.indices.len() % 3 == 0
        &&& forall|k: int| 0 <= k < self.indices.len() ==> #[trigger] self.indices@[k] < self.vertex_count
    }

    /// Checks mesh arrays and keeps their index structure: `position_len`
    /// and `normal_len` are the lengths of the flat position and normal
    /// arrays (three values per vertex; no normals at all is allowed).
    pub fn new(geom_id: u32, position_len: usize, indices: Vec<u32>, normal_len: usize) -> (r: Result<
        MeshTopology,
        MeshError,
    >)
        ensures
            position_len % 3 != 0 ==> r == Err::<MeshTopology, MeshError>(MeshError::PositionsNotTriples),
            position_len % 3 == 0 && indices.len() % 3 != 0 ==> r == Err::<MeshTopology, MeshError>(
                MeshError::IndicesNotTriples,
            ),
            position_len % 3 == 0 && indices.len() % 3 == 0 && normal_len != 0 && normal_len
                != position_len ==> r == Err::<MeshTopology, MeshError>(MeshError::NormalCountMismatch),
            r.is_ok() <==> {
                &&& position_len % 3 == 0
                &&& indices.len() % 3 == 0
                &&& (normal_len == 0 || normal_len == position_len)
                &&& forall|k: int| 0 <= k < indices.len() ==> indices@[k] < position_len / 3
            },
            r matches Err(MeshError::IndexOutOfRange { at }) ==> {
                &&& position_len % 3 == 0
                &&& indices.len() % 3 == 0
                &&& (normal_len == 0 || normal_len == position_len)
                &&& at < indices.len()
                &&& indices@[at as int] >= position_len / 3
                &&& forall|k: int| 0 <= k < at ==> indices@[k] < position_len / 3
            },
            r matches Ok(m) ==> {
                &&& m.wf()
                &&& m.geom_id == geom_id
                &&& m.vertex_count == position_len / 3
                &&& m.indices@ == indices@
                &&& m.has_normals == (normal_len != 0)
            },
    {
        if position_len % 3 != 0 {
            return Err(MeshError::PositionsNotTriples);
        }
        if indices.len() % 3 != 0 {
            return Err(MeshError::IndicesNotTriples);
        }
        if normal_len != 0 && normal_len != position_len {
            return Err(MeshError::NormalCountMismatch);
        }
        let vertex_count = position_len / 3;
        let mut k: usize = 0;
        while k < indices.len()
            invariant
                k <= indices.len(),
                position_len % 3 == 0,
                indices.len() % 3 == 0,
                normal_len == 0 || normal_len == position_len,
                vertex_count == position_len / 3,
                forall|m: int| 0 <= m < k ==> indices@[m] < vertex_count,
            decreases indices.len() - k,
        {
            if indices[k] as usize >= vertex_count {
                return Err(MeshError::IndexOutOfRange { at: k });
            }
            k = k + 1;
        }
        Ok(MeshTopology { geom_id, vertex_count, indices, has_normals: normal_len != 0 })
    }
}

/// Every mesh is well formed and no two share a geometry id.
pub open spec fn scene_wf(meshes: Seq<MeshTopology>) -> bool {
    &&& forall|m: int| 0 <= m < meshes.len() ==> (#[trigger] meshes[m]).wf()
    &&& forall|a: int, b: int|
        0 <= a < meshes.len() && 0 <= b < meshes.len() && (#[trigger] meshes[a]).geom_id
            == (#[trigger] meshes[b]).geom_id ==> a == b
}

/// Whether every mesh is well formed and no two share a geometry id.
pub fn check_scene(meshes: &Vec<MeshTopology>) -> (r: bool)
    ensures
        r == scene_wf(meshes@),
{
    let mut a: usize = 0;
    while a < meshes.len()
        invariant
            a <= meshes.len(),
            forall|m: int| 0 <= m < a ==> (#[trigger] meshes@[m]).wf(),
            forall|i: int, j: int|
                0 <= i < a && 0 <= j < meshes.len() && i != j ==> (#[trigger] meshes@[i]).geom_id
                    != (#[trigger] meshes@[j]).geom_id,
        decreases meshes.len() - a,
    {
        let mesh = &meshes[a];
        if mesh.indices.len() % 3 != 0 {
            return false;
        }
        let mut k: usize = 0;
        while k < mesh.indices.len()
            invariant
                a < meshes.len(),
                *mesh == meshes@[a as int],
                k <= mesh.indices.len(),
                forall|m: int| 0 <= m < k ==> #[trigger] mesh.indices@[m] < mesh.vertex_count,
            decreases mesh.indices.len() - k,
        {
            if mesh.indices[k] as usize >= mesh.vertex_count {
                return false;
            }
            k = k + 1;
        }
        let mut b: usize = 0;
        while b < meshes.len()
            invariant
                a < meshes.len(),
                *mesh == meshes@[a as int],
                b <= meshes.len(),
                forall|j: int|
                    0 <= j < b && j != a ==> (#[trigger] meshes@[j]).geom_id != meshes@[a as int].geom_id,
            decreases meshes.len() - b,
        {
            if b != a && meshes[b].geom_id == mesh.geom_id {
                assert(meshes@[b as int].geom_id == meshes@[a as int].geom_id);
                return false;
            }
            b = b + 1;
        }
        a = a + 1;
    }
    proof {
        assert forall|i: int, j: int|
            0 <= i < meshes.len() && 0 <= j < meshes.len() && (#[trigger] meshes@[i]).geom_id
                == (#[trigger] meshes@[j]).geom_id implies i == j by {
            if i != j {
                assert(meshes@[i].geom_id != meshes@[j].geom_id);
            }
        }
    }
    true
}

/// Some mesh carries geometry id `g`.
pub open spec fn has_geometry(meshes: Seq<MeshTopology>, g: u32) -> bool {
    exists|m: int| 0 <= m < meshes.len() && (#[trigger] meshes[m]).geom_id == g
}

/// The mesh that carries geometry id `g`.
pub open spec fn mesh_of(meshes: Seq<MeshTopology>, g: u32) -> int {
    choose|m: int| 0 <= m < meshes.len() && (#[trigger] meshes[m]).geom_id == g
}

/// The hit names a mesh of the scene and a triangle of that mesh (a miss
/// always does).
pub open spec fn resolves(meshes: Seq<MeshTopology>, h: HitRecord) -> bool {
    !h.hit || (has_geometry(meshes, h.geom_id) && h.prim_id < meshes[mesh_of(
        meshes,
        h.geom_id,
    )].triangle_count())
}

/// How the pixel of hit `h` is shaded.
pub open spec fn plan_of(meshes: Seq<MeshTopology>, h: HitRecord) -> ShadePlan {
    if !h.hit {
        ShadePlan::Background
    } else {
        let m = mesh_of(meshes, h.geom_id);
        let mesh = meshes[m];
        let p = h.prim_id as int;
        if mesh.has_normals {
            ShadePlan::Normals {
                mesh: m as usize,
                v0: mesh.indices@[3 * p],
                v1: mesh.indices@[3 * p + 1],
                v2: mesh.indices@[3 * p + 2],
            }
        } else {
            ShadePlan::Barycentric
        }
    }
}

/// The shading plans of a hit stream, in the stream's order.
pub open spec fn plans_of(meshes: Seq<MeshTopology>, hits: Seq<HitRecord>) -> Seq<ShadePlan> {
    hits.map_values(|h: HitRecord| plan_of(meshes, h))
}

/// The error that entry `ray` of a hit stream, hit `h`, gives when it does
/// not resolve.
pub open spec fn error_of(meshes: Seq<MeshTopology>, h: HitRecord, ray: usize) -> ShadeError {
    if !has_geometry(meshes, h.geom_id) {
        ShadeError::UnknownGeometry { ray, geom_id: h.geom_id }
    } else {
        ShadeError::PrimitiveOutOfRange { ray, prim_id: h.prim_id }
    }
}

impl ShadeError {
    /// The stream entry the error is about.
    pub open spec fn ray_of(&self) -> usize {
        match *self {
            ShadeError::UnknownGeometry { ray, .. } => ray,
            ShadeError::PrimitiveOutOfRange { ray, .. } => ray,
        }
    }
}

/// Position in `meshes` of the mesh with geometry id `g`, if there is one.
pub fn find_mesh(meshes: &Vec<MeshTopology>, g: u32) -> (r: Option<usize>)
    requires
        scene_wf(meshes@),
    ensures
        r.is_some() <==> has_geometry(meshes@, g),
        r matches Some(m) ==> m == mesh_of(meshes@, g) && m < meshes.len(),
{
    let mut m: usize = 0;
    while m < meshes.len()
        invariant
            scene_wf(meshes@),
            m <= meshes.len(),
            forall|a: int| 0 <= a < m ==> (#[trigger] meshes@[a]).geom_id != g,
        decreases meshes.len() - m,
    {
        if meshes[m].geom_id == g {
            proof {
                assert(meshes@[m as int].geom_id == g);
                assert(has_geometry(meshes@, g));
                let c = mesh_of(meshes@, g);
                assert(0 <= c < meshes.len() && meshes@[c].geom_id == g);
                assert(meshes@[c].geom_id == meshes@[m as int].geom_id);
            }
            return Some(m);
        }
        m = m + 1;
    }
    None
}

/// How the pixel of entry `ray` of a hit stream, hit `h`, is shaded, or
/// the error that the hit gives when the scene cannot account for it.
pub fn plan_hit(meshes: &Vec<MeshTopology>, h: HitRecord, ray: usize) -> (r: Result<ShadePlan, ShadeError>)
    requires
        scene_wf(meshes@),
    ensures
        r.is_ok() <==> resolves(meshes@, h),
        r matches Ok(p) ==> p == plan_of(meshes@, h),
        r matches Err(e) ==> e == error_of(meshes@, h, ray),
{
    if !h.hit {
        return Ok(ShadePlan::Background);
    }
    match find_mesh(meshes, h.geom_id) {
        None => Err(ShadeError::UnknownGeometry { ray, geom_id: h.geom_id }),
        Some(m) => {
            let mesh = &meshes[m];
            let p = h.prim_id as usize;
            if p >= mesh.indices.len() / 3 {
                return Err(ShadeError::PrimitiveOutOfRange { ray, prim_id: h.prim_id });
            }
            if mesh.has_normals {
                Ok(
                    ShadePlan::Normals {
                        mesh: m,
                        v0: mesh.indices[3 * p],
                        v1: mesh.indices[3 * p + 1],
                        v2: mesh.indices[3 * p + 2],
                    },
                )
            } else {
                Ok(ShadePlan::Barycentric)
            }
        },
    }
}

/// The shading plans of a hit stream, entry for entry in the stream's
/// order. It fails on the first hit that the scene cannot account for:
/// one on a geometry id that no mesh has, or on a triangle that its mesh
/// does not have.
pub fn plan_shading(meshes: &Vec<MeshTopology>, hits: &Vec<HitRecord>) -> (r: Result<
    Vec<ShadePlan>,
    ShadeError,
>)
    requires
        scene_wf(meshes@),
    ensures
        r.is_ok() <==> forall|k: int| 0 <= k < hits.len() ==> resolves(meshes@, #[trigger] hits@[k]),
        r matches Ok(plans) ==> plans@ == plans_of(meshes@, hits@),
        r matches Err(e) ==> {
            let k = e.ray_of() as int;
            &&& 0 <= k < hits.len()
            &&& !resolves(meshes@, hits@[k])
            &&& e == error_of(meshes@, hits@[k], k as usize)
            &&& forall|j: int| 0 <= j < k ==> resolves(meshes@, #[trigger] hits@[j])
        },
{
    let mut plans: Vec<ShadePlan> = Vec::with_capacity(hits.len());
    let mut k: usize = 0;
    while k < hits.len()
        invariant
            scene_wf(meshes@),
            k <= hits.len(),
            plans@ == plans_of(meshes@, hits@).take(k as int),
            forall|j: int| 0 <= j < k ==> resolves(meshes@, #[trigger] hits@[j]),
        decreases hits.len() - k,
    {
        match plan_hit(meshes, hits[k], k) {
            Ok(p) => {
                plans.push(p);
                assert(plans@ =~= plans_of(meshes@, hits@).take(k + 1));
            },
            Err(e) => {
                return Err(e);
            },
        }
        k = k + 1;
    }
    assert(plans@ =~= plans_of(meshes@, hits@));
    Ok(plans)
}

/// Plans keep the hit stream's order: plan `k` is made from hit `k` alone,
/// so it stands for the same pixel as ray `k`.
pub proof fn lemma_plans_keep_order(meshes: Seq<MeshTopology>, hits: Seq<HitRecord>, k: int)
    requires
        0 <= k < hits.len(),
    ensures
        plans_of(meshes, hits).len() == hits.len(),
        plans_of(meshes, hits)[k] == plan_of(meshes, hits[k]),
{
}

/// Shading has no hidden state: the same hit stream against the same
/// meshes always gets the same plans, entry for entry.
pub proof fn lemma_shading_deterministic(
    meshes_a: Seq<MeshTopology>,
    meshes_b: Seq<MeshTopology>,
    hits_a: Seq<HitRecord>,
    hits_b: Seq<HitRecord>,
)
    requires
        meshes_a == meshes_b,
        hits_a == hits_b,
    ensures
        plans_of(meshes_a, hits_a) == plans_of(meshes_b, hits_b),
{
}

} // verus!
