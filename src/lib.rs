//! Rendering support for dense voxel maps: integer bounds and their walk,
//! coordinate encoders, dense voxel storage, neighbour culling and the
//! assembly of per-texture face batches.

pub mod batch;
pub mod bounds;
pub mod encoder;
pub mod map;
pub mod point;
pub mod storage;

pub use batch::{map_runs, pool_len, BatchEntry, FaceInstance, TextureGroup, VoxelBatch};
pub use bounds::{
    clamp_render_bounds, compute_render_bounds, Bounds, BoundsLinearIter, DrawVoxelsBounds,
    DrawVoxelsBoundsDefault,
};
pub use encoder::{CoordinateEncoder, FlatEncoder, MortonEncoder};
pub use map::{BlockVoxel, Voxel, VoxelMap};
pub use point::{Dimensions, Point3};
pub use storage::{VecStorage, VoxelStorage};
