//! NDS texture formats info.

use vstd::prelude::*;
use super::texture_params::TextureParams;
use crate::util::bits::bit_field;

verus! {

#[derive(Copy, Clone)]
pub struct TextureFormat(pub u8);

pub enum Alpha {
    /// Alpha = 1
    Opaque,
    /// Alpha = 0 or 1
    Transparent,
    /// 0 <= Alpha <= 1
    Translucent,
}

/// Describes properties of an NDS texture format.
pub struct FormatDesc {
    pub name: &'static str,
    pub requires_palette: bool,
    pub bpp: u8,
    pub alpha_desc: AlphaDesc,
}

pub enum AlphaDesc {
    Opaque,
    Transparent,
    TransparentDependingOnParams,
    Translucent,
}

/// Whether format `f` stores indices into a palette (all but 0 and 7).
pub open spec fn spec_requires_palette(f: u8) -> bool {
    1 <= f <= 6
}

/// Bits per texel of format `f`.
pub open spec fn spec_bpp(f: u8) -> u8 {
    if f == 0 { 0 }
    else if f == 1 || f == 4 || f == 6 { 8 }
    else if f == 2 || f == 5 { 2 }
    else if f == 3 { 4 }
    else { 16 }
}

/// How format `f` can be transparent: 0 opaque, 1 transparent, 2 transparent
/// depending on the parameters, 3 translucent.
pub open spec fn spec_alpha_kind(f: u8) -> int {
    if f == 0 { 0 }
    else if f == 1 || f == 6 { 3 }
    else if 2 <= f <= 4 { 2 }
    else { 1 }
}

/// How a texture of format `f` with parameters `params` can be transparent,
/// as `alpha_kind` numbers it: format 2, 3 or 4 is transparent exactly when
/// its parameters make color 0 transparent, and opaque otherwise.
pub open spec fn spec_alpha_type(f: u8, params: TextureParams) -> int {
    if spec_alpha_kind(f) == 2 {
        if bit_field(params.0 as nat, 29, 30) != 0 { 1 } else { 0 }
    } else {
        spec_alpha_kind(f)
    }
}

pub open spec fn alpha_desc_kind(a: AlphaDesc) -> int {
    match a {
        AlphaDesc::Opaque => 0,
        AlphaDesc::Transparent => 1,
        AlphaDesc::TransparentDependingOnParams => 2,
        AlphaDesc::Translucent => 3,
    }
}

pub open spec fn alpha_kind(a: Alpha) -> int {
    match a {
        Alpha::Opaque => 0,
        Alpha::Transparent => 1,
        Alpha::Translucent => 3,
    }
}

impl TextureFormat {
    pub fn desc(self) -> (d: FormatDesc)
        requires
            self.0 < 8,
        ensures
            d.requires_palette == spec_requires_palette(self.0),
            d.bpp == spec_bpp(self.0),
            alpha_desc_kind(d.alpha_desc) == spec_alpha_kind(self.0),
            self.0 == 0 ==> d.name@ == "None"@,
            self.0 == 1 ==> d.name@ == "A3I5 Translucent Texture"@,
            self.0 == 2 ==> d.name@ == "4-Color Palette Texture"@,
            self.0 == 3 ==> d.name@ == "16-Color Palette Texture"@,
            self.0 == 4 ==> d.name@ == "256-Color Palette Texture"@,
            self.0 == 5 ==> d.name@ == "Block-Compressed Texture"@,
            self.0 == 6 ==> d.name@ == "A5I3 Translucent Texture"@,
            self.0 == 7 ==> d.name@ == "Direct RGBA Texture"@,
    {
        match self.0 {
            0 => FormatDesc {
                name: "None",
                requires_palette: false,
                bpp: 0,
                alpha_desc: AlphaDesc::Opaque,
            },
            1 => FormatDesc {
                name: "A3I5 Translucent Texture",
                requires_palette: true,
                bpp: 8,
                alpha_desc: AlphaDesc::Translucent,
            },
            2 => FormatDesc {
                name: "4-Color Palette Texture",
                requires_palette: true,
                bpp: 2,
                alpha_desc: AlphaDesc::TransparentDependingOnParams,
            },
            3 => FormatDesc {
                name: "16-Color Palette Texture",
                requires_palette: true,
                bpp: 4,
                alpha_desc: AlphaDesc::TransparentDependingOnParams,
            },
            4 => FormatDesc {
                name: "256-Color Palette Texture",
                requires_palette: true,
                bpp: 8,
                alpha_desc: AlphaDesc::TransparentDependingOnParams,
            },
            5 => FormatDesc {
                name: "Block-Compressed Texture",
                requires_palette: true,
                bpp: 2,
                alpha_desc: AlphaDesc::Transparent,
            },
            6 => FormatDesc {
                name: "A5I3 Translucent Texture",
                requires_palette: true,
                bpp: 8,
                alpha_desc: AlphaDesc::Translucent,
            },
            _ => FormatDesc {
                name: "Direct RGBA Texture",
                requires_palette: false,
                bpp: 16,
                alpha_desc: AlphaDesc::Transparent,
            },
        }
    }

    /// How many bytes a texture of the given size takes up in this format.
    pub fn byte_len(self, dim: (u32, u32)) -> (r: usize)
        requires
            self.0 < 8,
            dim.0 * dim.1 <= u32::MAX,
            dim.0 * dim.1 * spec_bpp(self.0) <= u32::MAX,
        ensures
            r == dim.0 * dim.1 * spec_bpp(self.0) / 8,
    {
        let (width, height) = dim;
        let bpp = self.desc().bpp as u32;
        let bit_len = width * height * bpp;
        bit_len as usize / 8
    }

    /// Whether this format can have transparent or translucent texels when
    /// drawn with the given parameters.
    pub fn alpha_type(self, params: TextureParams) -> (a: Alpha)
        requires
            self.0 < 8,
        ensures
            alpha_kind(a) == spec_alpha_type(self.0, params),
    {
        let is_color0_transparent = params.is_color0_transparent();
        match self.desc().alpha_desc {
            AlphaDesc::Opaque => Alpha::Opaque,
            AlphaDesc::Transparent => Alpha::Transparent,
            AlphaDesc::Translucent => Alpha::Translucent,
            AlphaDesc::TransparentDependingOnParams => {
                if is_color0_transparent {
                    Alpha::Transparent
                } else {
                    Alpha::Opaque
                }
            }
        }
    }
}

} // verus!
