//! Writing glTF documents.

pub mod animation;
pub mod curve;
pub mod gltf;
pub mod materials;
pub mod mesh;
pub mod primitive;
