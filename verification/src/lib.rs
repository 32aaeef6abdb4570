//! Verified core of the museum scene viewer: mesh topology, the Wavefront OBJ
//! face assembler, resource libraries, off-screen buffer bookkeeping, the
//! scene-hierarchy text and the control-panel state.

pub mod basic;
pub mod text;
pub mod mesh_loader;
pub mod hierarchy;
pub mod resources;
pub mod offscreen;
pub mod camera;
pub mod museum;
pub mod uniforms;
pub mod texture_image;
