//! The notes the `info` command prints about how a material's texture and
//! palette were resolved.

use vstd::prelude::*;
use crate::connection::{MaterialConnection, Match};
use crate::db::TextureId;
use crate::util::fmt::{dec_str, push_dec};

verus! {

/// `(matched <what> <id>)`, with `, but tentatively` before the closing
/// parenthesis when the match was not the only candidate.
pub open spec fn matched_note(what: Seq<char>, id: usize, best: bool) -> Seq<char> {
    "(matched "@ + what + " "@ + dec_str(id as nat) + (if best { ""@ } else { ", but tentatively"@ }) + ")"@
}

fn push_matched_note(s: &mut String, what: &str, id: usize, best: bool)
    ensures
        final(s)@ == old(s)@ + matched_note(what@, id, best),
{
    s.append("(matched ");
    s.append(what);
    s.append(" ");
    push_dec(s, id as u64);
    if !best {
        s.append(", but tentatively");
    }
    s.append(")");
    proof {
        reveal_strlit("");
    }
    assert(s@ =~= old(s)@ + matched_note(what@, id, best));
}

/// What is printed after a material's texture name: whether, and how
/// surely, the texture was found.
pub open spec fn texture_note(texture: Option<Match<TextureId>>) -> Seq<char> {
    match texture {
        None => "(not found)"@,
        Some(m) => matched_note("texture"@, m.id, m.best),
    }
}

pub fn texture_note_text(mat: &MaterialConnection) -> (s: String)
    ensures
        s@ == texture_note(mat.spec_texture()),
{
    match mat.texture() {
        None => String::from_str("(not found)"),
        Some(m) => {
            let mut s = String::new();
            push_matched_note(&mut s, "texture", m.id, m.best);
            s
        },
    }
}

/// What is printed after a material's palette name: whether, and how
/// surely, the palette was found.
pub open spec fn palette_note(mat: MaterialConnection) -> Seq<char> {
    match mat {
        MaterialConnection::NoTexture => "(palette but no texture!?)"@,
        MaterialConnection::TextureMissing => "(skipped; texture missing)"@,
        MaterialConnection::TextureOkNoPalette { .. } => Seq::empty(),
        MaterialConnection::TextureOkPaletteMissing { .. } => "(not found)"@,
        MaterialConnection::TextureOkPaletteOk { palette, .. } => matched_note("palette"@, palette.id, palette.best),
    }
}

/// The palette note for a material that names a palette (so its texture,
/// if found, was resolved with a palette).
pub fn palette_note_text(mat: &MaterialConnection) -> (s: String)
    requires
        !(*mat is TextureOkNoPalette),
    ensures
        s@ == palette_note(*mat),
{
    match mat {
        MaterialConnection::NoTexture => String::from_str("(palette but no texture!?)"),
        MaterialConnection::TextureMissing => String::from_str("(skipped; texture missing)"),
        MaterialConnection::TextureOkNoPalette { .. } => String::new(),
        MaterialConnection::TextureOkPaletteMissing { .. } => String::from_str("(not found)"),
        MaterialConnection::TextureOkPaletteOk { palette, .. } => {
            let mut s = String::new();
            push_matched_note(&mut s, "palette", palette.id, palette.best);
            s
        },
    }
}

/// Which faces a material culls.
pub open spec fn cull_text(cull_backface: bool, cull_frontface: bool) -> Seq<char> {
    match (cull_backface, cull_frontface) {
        (true, true) => "All (y tho?)"@,
        (true, false) => "Backfacing"@,
        (false, true) => "Frontfacing"@,
        (false, false) => "None"@,
    }
}

pub fn cull_description(cull_backface: bool, cull_frontface: bool) -> (s: &'static str)
    ensures
        s@ == cull_text(cull_backface, cull_frontface),
{
    match (cull_backface, cull_frontface) {
        (true, true) => "All (y tho?)",
        (true, false) => "Backfacing",
        (false, true) => "Frontfacing",
        (false, false) => "None",
    }
}

} // verus!
