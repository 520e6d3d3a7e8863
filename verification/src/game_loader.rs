//! Finding a built game's world and library, and the shadow copies the
//! editor loads so that the game can be rebuilt while it runs.
use vstd::prelude::*;

use crate::path::spec_extension;
use crate::project::{extension_is, first_with_extension, has_extension};
use crate::text::{chars_of, decimal, decimal_chars, ends_with, extend_chars, has_prefix, has_suffix, starts_with, string_from_chars, text_eq};

verus! {

/// Locating the files of a built game.
pub struct GameLoader {}

/// Prefix of the editor's shadow copies of the game library.
pub open spec fn hot_prefix() -> Seq<char> {
    "_hot_"@
}

/// A file name the player loads as the game library: `*.so` or `*.dll`.
pub open spec fn is_player_library(name: Seq<char>) -> bool {
    has_extension(name, "so"@) || has_extension(name, "dll"@)
}

/// The player's library is found by extension alone: a name is a player
/// library exactly when its extension is `so` or `dll`.
pub proof fn lemma_player_library_extensions(name: Seq<char>)
    ensures
        is_player_library(name) <==> (spec_extension(name) == Some("so"@) || spec_extension(name)
            == Some("dll"@)),
{
}

/// A file name the editor loads as the game library: a `*.so`, `*.dll` or
/// `*.dylib` that is not one of its own shadow copies.
pub open spec fn is_editor_library(name: Seq<char>) -> bool {
    !has_prefix(name, hot_prefix()) && (has_extension(name, "so"@) || has_extension(name, "dll"@)
        || has_extension(name, "dylib"@))
}

/// Name of the shadow copy made at `millis` (milliseconds since the epoch).
pub open spec fn shadow_name(millis: nat) -> Seq<char> {
    hot_prefix() + decimal(millis) + ".so"@
}

/// A shadow copy left from an earlier load: a `_hot_*.so` other than the
/// current one.
pub open spec fn is_stale_shadow(name: Seq<char>, current: Seq<char>) -> bool {
    has_prefix(name, hot_prefix()) && has_suffix(name, ".so"@) && name != current
}

impl GameLoader {
    /// Which data-directory entry is the world the player starts: the first
    /// `*.pworld`.
    pub fn find_world_file(names: &Vec<String>) -> (r: Option<usize>)
        ensures
            r matches Some(i) ==> i < names@.len() && has_extension(names@[i as int]@, "pworld"@)
                && forall|k: int| 0 <= k < i ==> !has_extension(#[trigger] names@[k]@, "pworld"@),
            r is None ==> forall|k: int|
                0 <= k < names@.len() ==> !has_extension(#[trigger] names@[k]@, "pworld"@),
    {
        first_with_extension(names, "pworld")
    }

    /// Which data-directory entry is the game library the player loads: the
    /// first `*.so` or `*.dll`.
    pub fn find_game_library(names: &Vec<String>) -> (r: Option<usize>)
        ensures
            r matches Some(i) ==> i < names@.len() && is_player_library(names@[i as int]@)
                && forall|k: int| 0 <= k < i ==> !is_player_library(#[trigger] names@[k]@),
            r is None ==> forall|k: int| 0 <= k < names@.len() ==> !is_player_library(#[trigger] names@[k]@),
    {
        let mut i: usize = 0;
        while i < names.len()
            invariant
                i <= names@.len(),
                forall|k: int| 0 <= k < i ==> !is_player_library(#[trigger] names@[k]@),
            decreases names.len() - i,
        {
            let n = names[i].as_str();
            if extension_is(n, "so") || extension_is(n, "dll") {
                return Some(i);
            }
            i = i + 1;
        }
        None
    }

    /// Which build-directory entry the editor loads as the game library: the
    /// first `*.so`, `*.dll` or `*.dylib` that is not a shadow copy.
    pub fn find_editor_library(names: &Vec<String>) -> (r: Option<usize>)
        ensures
            r matches Some(i) ==> i < names@.len() && is_editor_library(names@[i as int]@)
                && forall|k: int| 0 <= k < i ==> !is_editor_library(#[trigger] names@[k]@),
            r is None ==> forall|k: int| 0 <= k < names@.len() ==> !is_editor_library(#[trigger] names@[k]@),
    {
        let mut i: usize = 0;
        while i < names.len()
            invariant
                i <= names@.len(),
                forall|k: int| 0 <= k < i ==> !is_editor_library(#[trigger] names@[k]@),
            decreases names.len() - i,
        {
            let n = names[i].as_str();
            proof {
                reveal_strlit("_hot_");
            }
            if !starts_with(n, "_hot_") && (extension_is(n, "so") || extension_is(n, "dll")
                || extension_is(n, "dylib")) {
                return Some(i);
            }
            i = i + 1;
        }
        None
    }

    /// Name of the shadow copy the editor makes of the game library at
    /// `millis` milliseconds since the epoch: `_hot_<millis>.so`.
    pub fn shadow_copy_name(millis: u128) -> (r: String)
        ensures
            r@ == shadow_name(millis as nat),
    {
        let mut v = chars_of("_hot_");
        let d = decimal_chars(millis);
        let s = string_from_chars(&d);
        extend_chars(&mut v, s.as_str());
        extend_chars(&mut v, ".so");
        string_from_chars(&v)
    }

    /// Whether the entry `name` is an earlier shadow copy to delete, given
    /// the name of the copy just loaded.
    pub fn is_stale_shadow_copy(name: &str, current: &str) -> (r: bool)
        ensures
            r == is_stale_shadow(name@, current@),
    {
        starts_with(name, "_hot_") && ends_with(name, ".so") && !text_eq(name, current)
    }
}

/// The copy just made is never deleted as stale, and every stale copy is a
/// shadow copy, so the real game library is never deleted.
pub proof fn lemma_cleanup_spares_library(name: Seq<char>, millis: nat)
    ensures
        !is_stale_shadow(shadow_name(millis), shadow_name(millis)),
        is_stale_shadow(name, shadow_name(millis)) ==> !is_editor_library(name),
{
}

} // verus!
