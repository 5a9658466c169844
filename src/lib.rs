//! Graphics-resource ownership and instanced-draw batching for a hex-grid
//! tabletop renderer, verified with Verus.
pub mod context;
pub mod glenum;
pub mod buffer;
pub mod texture;
pub mod framebuffer;
pub mod program;
pub mod hex;
pub mod grid;
pub mod batch;
pub mod token;
pub mod compose;
pub mod gui;
