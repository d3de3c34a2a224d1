//! A tile-parallel ray-stream renderer core.
//!
//! The image is cut into tiles; for each tile a stream of primary rays is
//! generated in row-major order, the hits that come back are turned into a
//! shading plan, the shaded linear light is gamma encoded, and the encoded
//! tiles are composited into one framebuffer.
pub mod composite;
pub mod encode;
pub mod rays;
pub mod schedule;
pub mod shading;
pub mod tile;

pub use composite::{composite_frame, composite_tile};
pub use encode::{encode_buffer, encode_level, LINEAR_ONE};
pub use rays::{generate_rays, ray_through_pixel, PrimaryRay};
pub use schedule::{make_tiles, RenderConfig};
pub use shading::{
    check_scene, find_mesh, plan_hit, plan_shading, HitRecord, MeshError, MeshTopology, ShadeError, ShadePlan,
};
pub use tile::{Tile, CHANNELS};
