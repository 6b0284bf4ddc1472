//! A software wireframe renderer: a framebuffer with a depth buffer, a
//! fixed-point geometry pipeline, a depth-tested line rasterizer and a scene
//! graph of meshes whose edges are extracted from indexed triangles.
pub mod asset;
pub mod color;
pub mod fixed;
pub mod framebuffer;
pub mod geometry;
pub mod mesh;
pub mod model;
pub mod pipeline;
pub mod raster;
pub mod transform;
pub mod user;
