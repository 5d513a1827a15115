//! Frame scheduling, resource, asset and scene lifecycle for a small game engine.

pub mod app;
pub mod assets;
pub mod buffer;
pub mod image;
pub mod index;
pub mod input;
pub mod logger;
pub mod physics;
pub mod renderable;
pub mod resources;
pub mod scene;
pub mod slab;
pub mod system;
pub mod window;
