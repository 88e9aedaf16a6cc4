//! Asset-to-GPU pipeline and camera decisions of a small real-time renderer.
//!
//! The library turns a parsed mesh asset into validated meshes that share one
//! texture per distinct source path, decides GPU pixel formats and vertex
//! layouts, names the sampler uniforms a draw binds, and makes the discrete
//! decisions of a first-person camera. Everything that touches the GPU, the
//! file system or floating-point math is left to the caller.

mod error;
pub use error::AssetError;

pub mod camera;
pub mod texture;
pub mod mesh;
pub mod model;
pub mod render;
