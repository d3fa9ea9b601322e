//! Converting models to other formats.

pub mod collada;
pub mod gltf;
pub mod image_namer;
pub mod image_names;
pub mod images;

use vstd::prelude::*;
use crate::util::fmt::{dec_str, push_dec};
use crate::extract::plural;
use crate::nitro::{Model, print_safe_text};
use crate::util::namers::{UniqueNamer, free_name};

verus! {

/// The name of the kind of model file a format writes.
pub open spec fn model_file_kind(format: Seq<char>) -> Seq<char> {
    if format == "dae"@ {
        "DAE"@
    } else if format == "glb"@ {
        "GLB"@
    } else {
        "glTF"@
    }
}

/// The line that reports how many model files and PNGs were written.
pub open spec fn convert_report_text(models_written: u32, format: Seq<char>, pngs_written: u32) -> Seq<char> {
    "Wrote "@ + dec_str(models_written as nat) + " "@ + model_file_kind(format) + plural(models_written)
        + ", "@ + dec_str(pngs_written as nat) + " PNG"@ + plural(pngs_written) + "."@
}

/// The line that reports how many model files (of format `format`: `dae`,
/// `glb` or `gltf`) and PNGs were written.
pub fn convert_report(models_written: u32, format: &str, pngs_written: u32) -> (s: String)
    requires
        format@ == "dae"@ || format@ == "glb"@ || format@ == "gltf"@,
    ensures
        s@ == convert_report_text(models_written, format@, pngs_written),
{
    let kind = if format.unicode_len() == 3 && format.get_char(0) == 'd' {
        "DAE"
    } else if format.unicode_len() == 3 {
        "GLB"
    } else {
        "glTF"
    };
    proof {
        reveal_strlit("dae");
        reveal_strlit("glb");
        reveal_strlit("gltf");
    }
    let mut s = String::from_str("Wrote ");
    push_dec(&mut s, models_written as u64);
    s.append(" ");
    s.append(kind);
    s.append(if models_written != 1 { "s" } else { "" });
    s.append(", ");
    push_dec(&mut s, pngs_written as u64);
    s.append(" PNG");
    s.append(if pngs_written != 1 { "s" } else { "" });
    s.append(".");
    s
}

/// The names of the files the first `n` models are written to (without
/// extension), and the names taken by then: each model is named after
/// itself, made unique.
pub open spec fn model_file_names_spec(models: Seq<Model>, n: nat) -> (Seq<Seq<char>>, Seq<Seq<char>>)
    decreases n,
{
    if n == 0 || n > models.len() {
        (Seq::empty(), Seq::empty())
    } else {
        let (names, taken) = model_file_names_spec(models, (n - 1) as nat);
        let name = free_name(print_safe_text(models[n - 1].name.0@), taken);
        (names.push(name), taken.push(name))
    }
}

/// Gives unique names to each model file to avoid name clashes.
pub fn model_file_names(models: &Vec<Model>) -> (names: Vec<String>)
    ensures
        names@.map_values(|s: String| s@) == model_file_names_spec(models@, models@.len()).0,
{
    let mut model_file_namer = UniqueNamer::new();
    let mut names: Vec<String> = Vec::new();
    let mut i: usize = 0;
    while i < models.len()
        invariant
            i <= models@.len(),
            names@.len() == i,
            names@.map_values(|s: String| s@) == model_file_names_spec(models@, i as nat).0,
            model_file_namer.taken() == model_file_names_spec(models@, i as nat).1,
        decreases models@.len() - i,
    {
        let ghost prev = names@.map_values(|s: String| s@);
        let name = model_file_namer.get_fresh_name(models[i].name.print_safe());
        let ghost nv = name@;
        names.push(name);
        assert(names@.map_values(|s: String| s@) =~= prev.push(nv));
        i += 1;
    }
    names
}

} // verus!
