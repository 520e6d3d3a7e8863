//! Decisions of the `#[component]`, `#[script]` and `phantom_register!`
//! macros: which field types can be inspected, and the names of the
//! functions they generate.
use vstd::prelude::*;

use crate::text::{
    ascii_lower_text, chars_of, extend_chars, has_prefix, is_ascii_text, replace_all, replace_text, string_from_chars,
    text_eq,
};

verus! {

/// The inspector field a Rust type is shown as.
#[derive(PartialEq, Eq, Structural, Debug, Clone, Copy)]
pub enum FieldKind {
    F32,
    Bool,
    I32,
    U32,
    String,
    Vec2,
    Vec3,
    UVec2,
    TransQuat,
}

/// The field kind for a type written (without spaces) as `t`.
pub open spec fn field_kind_of(t: Seq<char>) -> Option<FieldKind> {
    if t == "f32"@ {
        Some(FieldKind::F32)
    } else if t == "bool"@ {
        Some(FieldKind::Bool)
    } else if t == "i32"@ {
        Some(FieldKind::I32)
    } else if t == "u32"@ {
        Some(FieldKind::U32)
    } else if t == "String"@ {
        Some(FieldKind::String)
    } else if t == "Vec2"@ || t == "glam::Vec2"@ {
        Some(FieldKind::Vec2)
    } else if t == "Vec3"@ || t == "glam::Vec3"@ {
        Some(FieldKind::Vec3)
    } else if t == "UVec2"@ || t == "glam::UVec2"@ {
        Some(FieldKind::UVec2)
    } else if t == "Quat"@ || t == "glam::Quat"@ {
        Some(FieldKind::TransQuat)
    } else {
        None
    }
}

/// The field kind of an `#[inspectable]` field whose type prints as
/// `type_text`; spaces in the printed type are ignored. `None` for a type the
/// inspector cannot show, which the macros report as an error.
pub fn inspectable_field_kind(type_text: &str) -> (r: Option<FieldKind>)
    ensures
        r == field_kind_of(replace_all(type_text@, " "@, ""@)),
{
    proof {
        reveal_strlit(" ");
    }
    let compact = replace_text(type_text, " ", "");
    let t = compact.as_str();
    if text_eq(t, "f32") {
        Some(FieldKind::F32)
    } else if text_eq(t, "bool") {
        Some(FieldKind::Bool)
    } else if text_eq(t, "i32") {
        Some(FieldKind::I32)
    } else if text_eq(t, "u32") {
        Some(FieldKind::U32)
    } else if text_eq(t, "String") {
        Some(FieldKind::String)
    } else if text_eq(t, "Vec2") || text_eq(t, "glam::Vec2") {
        Some(FieldKind::Vec2)
    } else if text_eq(t, "Vec3") || text_eq(t, "glam::Vec3") {
        Some(FieldKind::Vec3)
    } else if text_eq(t, "UVec2") || text_eq(t, "glam::UVec2") {
        Some(FieldKind::UVec2)
    } else if text_eq(t, "Quat") || text_eq(t, "glam::Quat") {
        Some(FieldKind::TransQuat)
    } else {
        None
    }
}

/// The `Field` variant a field kind is reflected as.
pub fn variant_name(kind: FieldKind) -> (r: &'static str)
    ensures
        r@ == variant_name_of(kind),
{
    match kind {
        FieldKind::F32 => "F32",
        FieldKind::Bool => "Bool",
        FieldKind::I32 => "I32",
        FieldKind::U32 => "U32",
        FieldKind::String => "String",
        FieldKind::Vec2 => "Vec2",
        FieldKind::Vec3 => "Vec3",
        FieldKind::UVec2 => "UVec2",
        FieldKind::TransQuat => "TransQuat",
    }
}

/// Name of the `Field` variant of a kind.
pub open spec fn variant_name_of(kind: FieldKind) -> Seq<char> {
    match kind {
        FieldKind::F32 => "F32"@,
        FieldKind::Bool => "Bool"@,
        FieldKind::I32 => "I32"@,
        FieldKind::U32 => "U32"@,
        FieldKind::String => "String"@,
        FieldKind::Vec2 => "Vec2"@,
        FieldKind::Vec3 => "Vec3"@,
        FieldKind::UVec2 => "UVec2"@,
        FieldKind::TransQuat => "TransQuat"@,
    }
}

/// An inspectable type is reflected as the `Field` variant of the same
/// type: with ASCII case ignored, the variant's name is the type's name, or
/// the type is that name under `glam::`; quaternions (`Quat`, `glam::Quat`)
/// are the one exception and become `TransQuat`.
pub proof fn lemma_field_kind_matches_type(t: Seq<char>)
    requires
        field_kind_of(t) is Some,
    ensures
        field_kind_of(t) == Some(FieldKind::TransQuat) ==> (t == "Quat"@ || t == "glam::Quat"@),
        field_kind_of(t) != Some(FieldKind::TransQuat) ==> ({
            let v = variant_name_of(field_kind_of(t).unwrap());
            ascii_lower_text(v) == ascii_lower_text(t) || t == "glam::"@ + v
        }),
{
    reveal_strlit("f32");
    reveal_strlit("F32");
    reveal_strlit("bool");
    reveal_strlit("Bool");
    reveal_strlit("i32");
    reveal_strlit("I32");
    reveal_strlit("u32");
    reveal_strlit("U32");
    reveal_strlit("String");
    reveal_strlit("Vec2");
    reveal_strlit("Vec3");
    reveal_strlit("UVec2");
    reveal_strlit("glam::");
    reveal_strlit("glam::Vec2");
    reveal_strlit("glam::Vec3");
    reveal_strlit("glam::UVec2");
    let v = variant_name_of(field_kind_of(t).unwrap());
    if t == "f32"@ {
        assert(ascii_lower_text(v) =~= ascii_lower_text(t));
    } else if t == "bool"@ {
        assert(ascii_lower_text(v) =~= ascii_lower_text(t));
    } else if t == "i32"@ {
        assert(ascii_lower_text(v) =~= ascii_lower_text(t));
    } else if t == "u32"@ {
        assert(ascii_lower_text(v) =~= ascii_lower_text(t));
    } else if t == "String"@ {
        assert(v == t);
    } else if t == "Vec2"@ || t == "Vec3"@ || t == "UVec2"@ {
        assert(v == t);
    } else if t == "glam::Vec2"@ {
        assert(t =~= "glam::"@ + v);
    } else if t == "glam::Vec3"@ {
        assert(t =~= "glam::"@ + v);
    } else if t == "glam::UVec2"@ {
        assert(t =~= "glam::"@ + v);
    }
}

/// What std's `str::to_lowercase` yields for `s`.
pub uninterp spec fn lowercase_of(s: Seq<char>) -> Seq<char>;

/// std's `str::to_lowercase`. The contract names the result
/// `lowercase_of(s)` and states, as std documents, that an ASCII string is
/// lower-cased letter by letter; the Unicode rules for other text are left
/// unsaid.
#[verifier::external_body]
pub(crate) fn to_lowercase(s: &str) -> (r: String)
    ensures
        r@ == lowercase_of(s@),
        (forall|i: int| 0 <= i < s@.len() ==> (#[trigger] s@[i] as u32) < 128) ==> r@
            == crate::text::ascii_lower_text(s@),
{
    s.to_lowercase()
}

/// A function the component and script macros generate for a type.
#[derive(PartialEq, Eq, Structural, Debug, Clone, Copy)]
pub enum GeneratedFn {
    Deserialize,
    AddDefault,
    Remove,
    StartAll,
    UpdateAll,
    Register,
}

/// The name prefix of a generated function.
pub open spec fn generated_prefix(f: GeneratedFn) -> Seq<char> {
    match f {
        GeneratedFn::Deserialize => "__phantom_deserialize_"@,
        GeneratedFn::AddDefault => "__phantom_add_default_"@,
        GeneratedFn::Remove => "__phantom_remove_"@,
        GeneratedFn::StartAll => "__phantom_start_all_"@,
        GeneratedFn::UpdateAll => "__phantom_update_all_"@,
        GeneratedFn::Register => "__phantom_register_"@,
    }
}

proof fn lemma_distinct_prefixes_stay_distinct(a: Seq<char>, b: Seq<char>, s: Seq<char>)
    requires
        a != b,
    ensures
        a + s != b + s,
{
    if a + s == b + s {
        assert((a + s).len() == (b + s).len());
        assert(a.len() == b.len());
        assert forall|i: int| 0 <= i < a.len() implies a[i] == b[i] by {
            assert((a + s)[i] == a[i]);
            assert((b + s)[i] == b[i]);
        }
        assert(a =~= b);
    }
}

/// The functions generated for one type all have different names, each
/// made of `__phantom_`, the function's role and the type's name: no two of
/// them can clash in the generated code.
pub proof fn lemma_generated_names_distinct(f: GeneratedFn, g: GeneratedFn, ty_name: Seq<char>)
    requires
        f != g,
    ensures
        generated_prefix(f) + lowercase_of(ty_name) != generated_prefix(g) + lowercase_of(ty_name),
        generated_prefix(f) + ascii_lower_text(ty_name) != generated_prefix(g) + ascii_lower_text(ty_name),
        has_prefix(generated_prefix(f) + lowercase_of(ty_name), "__phantom_"@),
{
    reveal_strlit("__phantom_");
    reveal_strlit("__phantom_deserialize_");
    reveal_strlit("__phantom_add_default_");
    reveal_strlit("__phantom_remove_");
    reveal_strlit("__phantom_start_all_");
    reveal_strlit("__phantom_update_all_");
    reveal_strlit("__phantom_register_");
    let a = generated_prefix(f);
    let b = generated_prefix(g);
    if a.len() == b.len() {
        assert(a[10] != b[10]);
    }
    assert(a != b);
    lemma_distinct_prefixes_stay_distinct(a, b, lowercase_of(ty_name));
    lemma_distinct_prefixes_stay_distinct(a, b, ascii_lower_text(ty_name));
    assert((a + lowercase_of(ty_name)).take(10) =~= "__phantom_"@);
}

/// Name of the function `f` generated for the type `ty_name`: its prefix
/// followed by the type name in lower case.
pub fn generated_fn_name(f: GeneratedFn, ty_name: &str) -> (r: String)
    ensures
        r@ == generated_prefix(f) + lowercase_of(ty_name@),
        is_ascii_text(ty_name@) ==> r@ == generated_prefix(f) + ascii_lower_text(ty_name@),
{
    let prefix = match f {
        GeneratedFn::Deserialize => "__phantom_deserialize_",
        GeneratedFn::AddDefault => "__phantom_add_default_",
        GeneratedFn::Remove => "__phantom_remove_",
        GeneratedFn::StartAll => "__phantom_start_all_",
        GeneratedFn::UpdateAll => "__phantom_update_all_",
        GeneratedFn::Register => "__phantom_register_",
    };
    let lower = to_lowercase(ty_name);
    let mut v = chars_of(prefix);
    extend_chars(&mut v, lower.as_str());
    string_from_chars(&v)
}

/// The text `phantom_register!` calls a type's registration function by:
/// the type's module path, `::`-separated and ending in `::`, then the
/// function's name; a type without a module path is called by the name alone.
pub open spec fn register_call_path(modules: Seq<Seq<char>>, fn_name: Seq<char>) -> Seq<char>
    decreases modules.len(),
{
    if modules.len() == 0 {
        fn_name
    } else {
        modules[0] + "::"@ + register_call_path(modules.drop_first(), fn_name)
    }
}

/// The call path of the registration function of the type named by
/// `segments` (its path, the type last).
pub fn register_call(segments: &Vec<String>) -> (r: String)
    requires
        segments@.len() > 0,
    ensures
        r@ == register_call_path(
            segments@.take(segments@.len() - 1).map_values(|s: String| s@),
            generated_prefix(GeneratedFn::Register) + lowercase_of(segments@.last()@),
        ),
        is_ascii_text(segments@.last()@) ==> r@ == register_call_path(
            segments@.take(segments@.len() - 1).map_values(|s: String| s@),
            generated_prefix(GeneratedFn::Register) + ascii_lower_text(segments@.last()@),
        ),
{
    let n = segments.len();
    let fn_name = generated_fn_name(GeneratedFn::Register, segments[n - 1].as_str());
    let ghost tail = fn_name@;
    let ghost mods = segments@.take(n - 1).map_values(|s: String| s@);
    let mut v: Vec<char> = Vec::new();
    let mut i: usize = 0;
    assert(mods.skip(0) =~= mods);
    assert(v@ + register_call_path(mods.skip(0), tail) =~= register_call_path(mods, tail));
    while i < n - 1
        invariant
            n == segments@.len(),
            i <= n - 1,
            mods == segments@.take(n - 1).map_values(|s: String| s@),
            v@ + register_call_path(mods.skip(i as int), tail) == register_call_path(mods, tail),
        decreases n - 1 - i,
    {
        let ghost before = v@;
        assert(mods.skip(i as int)[0] == segments@[i as int]@);
        assert(mods.skip(i as int).drop_first() =~= mods.skip(i + 1));
        extend_chars(&mut v, segments[i].as_str());
        extend_chars(&mut v, "::");
        assert(v@ + register_call_path(mods.skip(i + 1), tail) =~= before + register_call_path(
            mods.skip(i as int),
            tail,
        ));
        i = i + 1;
    }
    assert(mods.skip(i as int).len() == 0);
    extend_chars(&mut v, fn_name.as_str());
    string_from_chars(&v)
}

} // verus!
