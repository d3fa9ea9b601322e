//! NDS hardware functions.

pub mod texture_params;
pub mod gpu_cmds;
pub mod texture_formats;
pub mod decode_texture;

pub use self::texture_formats::{TextureFormat, Alpha};
pub use self::texture_params::TextureParams;
pub use self::decode_texture::decode_texture;
