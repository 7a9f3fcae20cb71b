//! An editor project on disk: its manifest, and the names of the files the
//! editor keeps in it.

use vstd::prelude::*;

use crate::text::{is_ascii_alnum, is_ascii_alnum_exec, string_push};

verus! {

/// What `shiloh.project.json` records.
#[derive(Debug, Clone)]
pub struct ProjectManifest {
    pub name: String,
    pub engine_version: String,
    pub default_scene: String,
}

/// A project: its root folder and manifest.
#[derive(Debug)]
pub struct Project {
    pub root: std::path::PathBuf,
    pub manifest: ProjectManifest,
}

/// The manifest's file name, under the project root.
pub const PROJECT_FILE_NAME: &'static str = "shiloh.project.json";

impl ProjectManifest {
    /// The manifest of a new project: its scene is `scenes/main.json`.
    pub fn new_project(name: &str, engine_version: &str) -> (m: Self)
        ensures
            m.name@ == name@,
            m.engine_version@ == engine_version@,
            m.default_scene@ == "scenes/main.json"@,
    {
        ProjectManifest {
            name: String::from_str(name),
            engine_version: String::from_str(engine_version),
            default_scene: String::from_str("scenes/main.json"),
        }
    }
}

/// Characters kept in a layout file name; any other becomes `_`.
pub open spec fn layout_name_char(c: char) -> char {
    if is_ascii_alnum(c) || c == '-' || c == '_' {
        c
    } else {
        '_'
    }
}

/// The file an editor layout named `name` is saved in, under the project's
/// layouts folder.
pub open spec fn layout_file(name: Seq<char>) -> Seq<char> {
    name.map_values(|c: char| layout_name_char(c)) + ".json"@
}

/// File name of the layout `name` (see [`layout_file`]).
pub fn layout_file_name(name: &str) -> (r: String)
    ensures
        r@ == layout_file(name@),
{
    let n = name.unicode_len();
    let mut out = String::new();
    let mut i: usize = 0;
    while i < n
        invariant
            n == name@.len(),
            i <= n,
            out@ == name@.take(i as int).map_values(|c: char| layout_name_char(c)),
        decreases n - i,
    {
        let c = name.get_char(i);
        let keep = is_ascii_alnum_exec(c) || c == '-' || c == '_';
        string_push(&mut out, if keep { c } else { '_' });
        assert(name@.take(i + 1).map_values(|c: char| layout_name_char(c)) =~= name@.take(
            i as int,
        ).map_values(|c: char| layout_name_char(c)).push(layout_name_char(c)));
        i += 1;
    }
    assert(name@.take(n as int) =~= name@);
    let ghost safe = out@;
    let ext = ".json";
    let m = ext.unicode_len();
    let mut j: usize = 0;
    while j < m
        invariant
            m == ext@.len(),
            j <= m,
            out@ == safe + ext@.take(j as int),
        decreases m - j,
    {
        string_push(&mut out, ext.get_char(j));
        assert(ext@.take(j + 1) =~= ext@.take(j as int).push(ext@[j as int]));
        j += 1;
    }
    assert(ext@.take(m as int) =~= ext@);
    out
}

} // verus!
