pub mod depth_snapshot;

pub use depth_snapshot::DepthSnapshot;
