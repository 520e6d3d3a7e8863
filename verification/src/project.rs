//! Phantom projects: the project file, where the entry world lives, and the
//! files a new project starts with.
use vstd::prelude::*;

use crate::path::{join, spec_extension, spec_join, split_file_name};
use crate::text::{chars_of, extend_chars, string_from_chars, text_eq};

verus! {

/// A project's description, stored in its `.pproject` file.
pub struct PhantomProject {
    pub name: String,
    pub version: String,
    /// Path of the world opened first, relative to the project root or absolute.
    pub entry_world: String,
}

/// Loading and saving a project's files.
pub struct ProjectManager {}

/// `name` has the extension `ext`.
pub open spec fn has_extension(name: Seq<char>, ext: Seq<char>) -> bool {
    spec_extension(name) == Some(ext)
}

/// Whether `name` has the extension `ext`.
pub fn extension_is(name: &str, ext: &str) -> (r: bool)
    ensures
        r == has_extension(name@, ext@),
{
    let (_, e) = split_file_name(name);
    match e {
        Some(x) => text_eq(x.as_str(), ext),
        None => false,
    }
}

/// Index of the first name in `names` with extension `ext`.
pub fn first_with_extension(names: &Vec<String>, ext: &str) -> (r: Option<usize>)
    ensures
        r matches Some(i) ==> i < names@.len() && has_extension(names@[i as int]@, ext@)
            && forall|k: int| 0 <= k < i ==> !has_extension(#[trigger] names@[k]@, ext@),
        r is None ==> forall|k: int| 0 <= k < names@.len() ==> !has_extension(#[trigger] names@[k]@, ext@),
{
    let mut i: usize = 0;
    while i < names.len()
        invariant
            i <= names@.len(),
            forall|k: int| 0 <= k < i ==> !has_extension(#[trigger] names@[k]@, ext@),
        decreases names.len() - i,
    {
        if extension_is(names[i].as_str(), ext) {
            return Some(i);
        }
        i = i + 1;
    }
    None
}

/// Text of a new project's `Cargo.toml`: a `cdylib` crate named `name`
/// depending on the engine's core crate under `engine_path`.
pub open spec fn cargo_manifest_spec(name: Seq<char>, engine_path: Seq<char>) -> Seq<char> {
    "[package]\nname = \""@ + name + "\"\nversion = \"0.1.0\"\nedition = \"2024\"\n\n[dependencies]\nphantom_core = { path = \""@
        + engine_path
        + "/phantom_core\" }\n\n[lib]\ncrate-type = [\"cdylib\"]\n"@
}

/// Text of a new project's `src/lib.rs`: it registers no component yet.
pub const DEFAULT_LIB_RS: &'static str = "use phantom_core::phantom_macros::phantom_register;\n\nphantom_register!();\n";

impl ProjectManager {
    /// Which directory entry is the project file: the first named `*.pproject`.
    pub fn find_project_file(names: &Vec<String>) -> (r: Option<usize>)
        ensures
            r matches Some(i) ==> i < names@.len() && has_extension(names@[i as int]@, "pproject"@)
                && forall|k: int| 0 <= k < i ==> !has_extension(#[trigger] names@[k]@, "pproject"@),
            r is None ==> forall|k: int|
                0 <= k < names@.len() ==> !has_extension(#[trigger] names@[k]@, "pproject"@),
    {
        first_with_extension(names, "pproject")
    }

    /// Path of the entry world: the project root joined with the project's
    /// entry-world path.
    pub fn entry_world_path(root: &str, project: &PhantomProject) -> (r: String)
        ensures
            r@ == spec_join(root@, project.entry_world@),
    {
        join(root, project.entry_world.as_str())
    }

    /// Name of the project file of a project called `name`: `name.pproject`.
    pub fn project_file_name(name: &str) -> (r: String)
        ensures
            r@ == name@ + ".pproject"@,
    {
        let mut v = chars_of(name);
        extend_chars(&mut v, ".pproject");
        string_from_chars(&v)
    }

    /// Path of a new project's first world: `worlds/initial_world.pworld`
    /// under the project directory.
    pub fn initial_world_path(project_dir: &str) -> (r: String)
        ensures
            r@ == spec_join(spec_join(project_dir@, "worlds"@), "initial_world.pworld"@),
    {
        let worlds = join(project_dir, "worlds");
        join(worlds.as_str(), "initial_world.pworld")
    }

    /// Text of a new project's `Cargo.toml`.
    pub fn cargo_manifest(name: &str, engine_path: &str) -> (r: String)
        ensures
            r@ == cargo_manifest_spec(name@, engine_path@),
    {
        let mut v = chars_of("[package]\nname = \"");
        extend_chars(&mut v, name);
        extend_chars(
            &mut v,
            "\"\nversion = \"0.1.0\"\nedition = \"2024\"\n\n[dependencies]\nphantom_core = { path = \"",
        );
        extend_chars(&mut v, engine_path);
        extend_chars(&mut v, "/phantom_core\" }\n\n[lib]\ncrate-type = [\"cdylib\"]\n");
        string_from_chars(&v)
    }
}

} // verus!
