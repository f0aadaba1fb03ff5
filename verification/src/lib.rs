//! A glTF scene-graph viewer core: decoded resources are validated, flattened
//! into an entity graph with world transforms, and turned into GPU-ready
//! buffer contents, bind-group descriptions and an ordered draw-command list.
//! Floating-point scalars are carried as IEEE-754 bit patterns (`u32` words);
//! the arithmetic on them is done by `glam` behind trusted wrappers.
pub mod camera;
pub mod entity;
pub mod error;
pub mod linalg;
pub mod material;
pub mod model;
pub mod resources;
pub mod scene;
pub mod texture;
pub mod uniform;
pub mod vertex;
