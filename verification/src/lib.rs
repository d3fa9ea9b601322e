//! Core of a converter for Nintendo DS model files: bit-level helpers, the
//! NDS texture formats and decoder, the GPU command parser, LZ77
//! decompression, the heuristics that tie models to their textures and
//! animations, the pieces of the glTF and COLLADA writers, ROM extraction
//! and the command line.

pub mod util;
pub mod cli;
pub mod errors;
pub mod nitro;
pub mod nds;
pub mod decompress;
pub mod geometry;
pub mod db;
pub mod connection;
pub mod convert;
pub mod extract;
pub mod info;
pub mod logger;
