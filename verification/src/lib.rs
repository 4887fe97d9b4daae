//! A verified core for a small real-time 3D rendering engine.
//!
//! The library holds the engine's decision logic: the asset dictionary and
//! its typed accessors, mesh validation and assembly, texture format
//! selection, the camera's orientation state, the scene object collection
//! with unique naming, the console command language, the shader build
//! protocol, and the per-frame draw ordering. Everything that talks to the
//! GPU, the window system or the file system lives outside the library and
//! hands it plain values.

pub mod assets_manager;
pub mod camera;
pub mod command;
pub mod decimal;
pub mod engine;
pub mod material;
pub mod object;
pub mod model;
pub mod rat_cfg;
pub mod renderer;
pub mod shader;
pub mod text;
pub mod texture;
