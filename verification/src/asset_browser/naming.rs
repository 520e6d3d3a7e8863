//! Names the asset browser makes up: Rust type names for new scripts and
//! components, their source text from templates, and free names for new
//! folders and pasted files.
use vstd::prelude::*;

use super::crud::AssetBrowserCRUD;
use crate::path::{join, spec_extension, spec_file_name, spec_file_stem, spec_join, split_file_name, file_name};
use crate::text::{
    char_to_upper, chars_of, decimal, decimal_chars, extend_chars, lemma_decimal_injective,
    lemma_decimal_len, replace_all, replace_text, string_from_chars, upper_of, ascii_upper,
    is_ascii_text,
};

verus! {

/// Upper-cases the first character of every `_`-separated word and drops the
/// `_`s; `at_start` tells whether `s` begins a word.
pub open spec fn pascal_from(s: Seq<char>, at_start: bool) -> Seq<char>
    decreases s.len(),
{
    if s.len() == 0 {
        Seq::empty()
    } else if s[0] == '_' {
        pascal_from(s.drop_first(), true)
    } else if at_start {
        upper_of(s[0]) + pascal_from(s.drop_first(), false)
    } else {
        seq![s[0]] + pascal_from(s.drop_first(), false)
    }
}

/// `pascal_from` for ASCII text, where upper-casing is ASCII upper-casing.
pub open spec fn ascii_pascal_from(s: Seq<char>, at_start: bool) -> Seq<char>
    decreases s.len(),
{
    if s.len() == 0 {
        Seq::empty()
    } else if s[0] == '_' {
        ascii_pascal_from(s.drop_first(), true)
    } else if at_start {
        seq![ascii_upper(s[0])] + ascii_pascal_from(s.drop_first(), false)
    } else {
        seq![s[0]] + ascii_pascal_from(s.drop_first(), false)
    }
}

/// `snake_case` to `PascalCase`: the words between `_`s, each with its first
/// character upper-cased, joined with nothing between them.
pub open spec fn pascal_case(s: Seq<char>) -> Seq<char> {
    pascal_from(s, true)
}


/// Source text of a new component: the template with every `{NAME}`
/// replaced by the type name.
pub open spec fn component_source_spec(template: Seq<char>, name: Seq<char>) -> Seq<char> {
    replace_all(template, "{NAME}"@, pascal_case(name))
}

/// Source text of a new script: the template with every `{NAME}`, then every
/// `{Name}`, replaced by the type name.
pub open spec fn script_source_spec(template: Seq<char>, name: Seq<char>) -> Seq<char> {
    replace_all(replace_all(template, "{NAME}"@, pascal_case(name)), "{Name}"@, pascal_case(name))
}

/// Renders the component template for the file name `name`.
pub fn component_source(template: &str, name: &str) -> (r: String)
    ensures
        r@ == component_source_spec(template@, name@),
{
    let ty = AssetBrowserCRUD::to_pascal_case(name);
    proof {
        reveal_strlit("{NAME}");
    }
    replace_text(template, "{NAME}", ty.as_str())
}

/// Renders the script template for the file name `name`.
pub fn script_source(template: &str, name: &str) -> (r: String)
    ensures
        r@ == script_source_spec(template@, name@),
{
    let ty = AssetBrowserCRUD::to_pascal_case(name);
    proof {
        reveal_strlit("{NAME}");
        reveal_strlit("{Name}");
    }
    let first = replace_text(template, "{NAME}", ty.as_str());
    replace_text(first.as_str(), "{Name}", ty.as_str())
}

/// Path of the Rust source file `name.rs` in `dir`.
pub fn source_file_path(dir: &str, name: &str) -> (r: String)
    ensures
        r@ == spec_join(dir@, name@ + ".rs"@),
{
    let mut v = chars_of(name);
    extend_chars(&mut v, ".rs");
    let file = string_from_chars(&v);
    join(dir, file.as_str())
}

/// The names of a list of strings.
pub open spec fn names_of(v: Seq<String>) -> Seq<Seq<char>> {
    v.map_values(|s: String| s@)
}

/// Whether `name` is one of `names`.
pub fn contains_name(names: &Vec<String>, name: &String) -> (r: bool)
    ensures
        r == names_of(names@).contains(name@),
{
    let mut i: usize = 0;
    while i < names.len()
        invariant
            i <= names.len(),
            forall|k: int| 0 <= k < i ==> names@[k]@ != name@,
        decreases names.len() - i,
    {
        if names[i] == *name {
            assert(names_of(names@)[i as int] == name@);
            return true;
        }
        i = i + 1;
    }
    proof {
        if names_of(names@).contains(name@) {
            let k = choose|k: int| 0 <= k < names@.len() && names_of(names@)[k] == name@;
            assert(names@[k]@ == name@);
        }
    }
    false
}

/// No more distinct values than there are entries can all be entries of a
/// list: if `f` is one-to-one on `[lo, hi)` and each `f(j)` is in `taken`,
/// then `hi - lo <= taken.len()`.
pub proof fn lemma_pigeonhole(taken: Seq<Seq<char>>, f: spec_fn(int) -> Seq<char>, lo: int, hi: int)
    requires
        lo <= hi,
        forall|i: int, j: int| lo <= i < hi && lo <= j < hi && #[trigger] f(i) == #[trigger] f(j) ==> i == j,
        forall|j: int| lo <= j < hi ==> taken.contains(#[trigger] f(j)),
    ensures
        hi - lo <= taken.len(),
{
    let dom = vstd::set_lib::set_int_range(lo, hi);
    vstd::set_lib::lemma_int_range(lo, hi);
    let img = dom.map(f);
    assert(vstd::relations::injective_on(f, dom));
    vstd::set_lib::lemma_map_size(dom, img, f);
    let all = taken.to_set();
    assert(img.subset_of(all)) by {
        assert forall|x: Seq<char>| img.contains(x) implies all.contains(x) by {
            let j = choose|j: int| dom.contains(j) && f(j) == x;
            assert(taken.contains(f(j)));
        }
    }
    taken.lemma_cardinality_of_set();
    vstd::seq_lib::seq_to_set_is_finite(taken);
    vstd::set_lib::lemma_len_subset(img, all);
}

/// The name tried for a new folder on attempt `i` (from 1): `New Folder`,
/// then `New Folder 2`, `New Folder 3`, …
pub open spec fn folder_candidate(i: int) -> Seq<char> {
    if i <= 1 {
        "New Folder"@
    } else {
        "New Folder "@ + decimal(i as nat)
    }
}

proof fn lemma_folder_candidates_distinct(i: int, j: int)
    requires
        1 <= i,
        1 <= j,
        folder_candidate(i) == folder_candidate(j),
    ensures
        i == j,
{
    reveal_strlit("New Folder");
    reveal_strlit("New Folder ");
    lemma_decimal_len(i as nat);
    lemma_decimal_len(j as nat);
    assert("New Folder"@.len() == 10);
    assert("New Folder "@.len() == 11);
    if i > 1 && j > 1 {
        let p = "New Folder "@;
        assert(decimal(i as nat) =~= folder_candidate(i).skip(p.len() as int));
        assert(decimal(j as nat) =~= folder_candidate(j).skip(p.len() as int));
        lemma_decimal_injective(i as nat, j as nat);
    }
}

/// The characters of `folder_candidate(i)`.
fn folder_candidate_chars(i: u128) -> (r: Vec<char>)
    requires
        i >= 1,
    ensures
        r@ == folder_candidate(i as int),
{
    if i == 1 {
        chars_of("New Folder")
    } else {
        let mut v = chars_of("New Folder ");
        let d = decimal_chars(i);
        let ghost base = v@;
        let mut k: usize = 0;
        while k < d.len()
            invariant
                k <= d.len(),
                v@ == base + d@.take(k as int),
            decreases d.len() - k,
        {
            v.push(d[k]);
            k = k + 1;
            assert(v@ =~= base + d@.take(k as int));
        }
        assert(d@.take(d.len() as int) =~= d@);
        v
    }
}


/// The name tried for a pasted copy on attempt `i` (from 0): the stem, then
/// `_i` for `i >= 1`, then `.` and the extension when there is one.
pub open spec fn paste_candidate(stem: Seq<char>, ext: Option<Seq<char>>, i: int) -> Seq<char> {
    let suffix = if i <= 0 {
        Seq::<char>::empty()
    } else {
        seq!['_'] + decimal(i as nat)
    };
    match ext {
        Some(e) => stem + suffix + seq!['.'] + e,
        None => stem + suffix,
    }
}

proof fn lemma_paste_candidates_distinct(stem: Seq<char>, ext: Option<Seq<char>>, i: int, j: int)
    requires
        0 <= i,
        0 <= j,
        paste_candidate(stem, ext, i) == paste_candidate(stem, ext, j),
    ensures
        i == j,
{
    lemma_decimal_len(i as nat);
    lemma_decimal_len(j as nat);
    let tail = match ext {
        Some(e) => seq!['.'] + e,
        None => Seq::<char>::empty(),
    };
    let ci = paste_candidate(stem, ext, i);
    let cj = paste_candidate(stem, ext, j);
    if i > 0 && j > 0 {
        let di = decimal(i as nat);
        let dj = decimal(j as nat);
        assert(ci =~= stem + seq!['_'] + di + tail);
        assert(cj =~= stem + seq!['_'] + dj + tail);
        assert(di.len() == dj.len());
        let a: int = stem.len() as int + 1;
        assert(di =~= ci.subrange(a, a + di.len() as int));
        assert(dj =~= cj.subrange(a, a + dj.len() as int));
        lemma_decimal_injective(i as nat, j as nat);
    } else if i > 0 || j > 0 {
        assert(ci.len() != cj.len());
    }
}

/// The characters held by an optional character vector.
pub open spec fn opt_chars(o: Option<Vec<char>>) -> Option<Seq<char>> {
    match o {
        Some(e) => Some(e@),
        None => None,
    }
}

/// The characters of `paste_candidate(stem, ext, i)`.
fn paste_candidate_chars(stem: &Vec<char>, ext: &Option<Vec<char>>, i: u128) -> (r: Vec<char>)
    ensures
        r@ == paste_candidate(stem@, opt_chars(*ext), i as int),
{
    let mut v = stem.clone();
    if i > 0 {
        v.push('_');
        let d = decimal_chars(i);
        let ghost base = v@;
        let mut k: usize = 0;
        while k < d.len()
            invariant
                k <= d.len(),
                v@ == base + d@.take(k as int),
            decreases d.len() - k,
        {
            v.push(d[k]);
            k = k + 1;
            assert(v@ =~= base + d@.take(k as int));
        }
        assert(d@.take(d.len() as int) =~= d@);
    }
    let ghost body = v@;
    match ext {
        Some(e) => {
            v.push('.');
            let mut k: usize = 0;
            let ghost base = v@;
            while k < e.len()
                invariant
                    k <= e.len(),
                    v@ == base + e@.take(k as int),
                decreases e.len() - k,
            {
                v.push(e[k]);
                k = k + 1;
                assert(v@ =~= base + e@.take(k as int));
            }
            assert(e@.take(e.len() as int) =~= e@);
            assert(v@ =~= body + seq!['.'] + e@);
        },
        None => {},
    }
    if i > 0 {
        assert(body =~= stem@ + (seq!['_'] + decimal(i as nat)));
    } else {
        assert(body =~= stem@ + Seq::<char>::empty());
    }
    v
}

/// Stem of the pasted file's name: the stem of `src`'s file name, or all of
/// `src` when it has no file name.
pub open spec fn paste_stem(src: Seq<char>) -> Seq<char> {
    match spec_file_name(src) {
        Some(n) => spec_file_stem(n),
        None => src,
    }
}

/// Extension of the pasted file's name.
pub open spec fn paste_extension(src: Seq<char>) -> Option<Seq<char>> {
    match spec_file_name(src) {
        Some(n) => spec_extension(n),
        None => None,
    }
}


impl AssetBrowserCRUD {
    /// Converts a `snake_case` file name into the `PascalCase` type name.
    pub fn to_pascal_case(name: &str) -> (r: String)
        ensures
            r@ == pascal_case(name@),
            is_ascii_text(name@) ==> r@ == ascii_pascal_from(name@, true),
    {
        let s = chars_of(name);
        let mut out: Vec<char> = Vec::new();
        let mut at_start = true;
        let mut i: usize = 0;
        assert(s@.skip(0) =~= s@);
        while i < s.len()
            invariant
                i <= s.len(),
                out@ + pascal_from(s@.skip(i as int), at_start) == pascal_case(s@),
                is_ascii_text(s@) ==> out@ + ascii_pascal_from(s@.skip(i as int), at_start)
                    == ascii_pascal_from(s@, true),
            decreases s.len() - i,
        {
            let c = s[i];
            let ghost rest = s@.skip(i as int);
            let ghost before = out@;
            assert(rest[0] == c);
            assert(rest.drop_first() =~= s@.skip(i + 1));
            if c == '_' {
                at_start = true;
            } else if at_start {
                let up = char_to_upper(c);
                extend_chars(&mut out, up.as_str());
                at_start = false;
                assert(out@ + pascal_from(s@.skip(i + 1), at_start) =~= before + (upper_of(c)
                    + pascal_from(rest.drop_first(), false)));
                proof {
                    if is_ascii_text(s@) {
                        assert((s@[i as int] as u32) < 128);
                        assert(out@ + ascii_pascal_from(s@.skip(i + 1), at_start) =~= before + (seq![
                            ascii_upper(c),
                        ] + ascii_pascal_from(rest.drop_first(), false)));
                    }
                }
            } else {
                out.push(c);
                assert(out@ + pascal_from(s@.skip(i + 1), at_start) =~= before + (seq![c]
                    + pascal_from(rest.drop_first(), false)));
                assert(out@ + ascii_pascal_from(s@.skip(i + 1), at_start) =~= before + (seq![c]
                    + ascii_pascal_from(rest.drop_first(), false)));
            }
            i = i + 1;
        }
        assert(out@ + pascal_from(s@.skip(i as int), at_start) =~= out@);
        assert(out@ + ascii_pascal_from(s@.skip(i as int), at_start) =~= out@);
        string_from_chars(&out)
    }

    /// Path for a new folder in `dir`: the first of `New Folder`, `New Folder 2`,
    /// `New Folder 3`, … that is not among `taken`, the names already in `dir`.
    pub fn unique_folder_path(dir: &str, taken: &Vec<String>) -> (r: String)
        ensures
            exists|k: int|
                k >= 1 && r@ == spec_join(dir@, #[trigger] folder_candidate(k)) && !names_of(
                    taken@,
                ).contains(folder_candidate(k)) && forall|j: int|
                    1 <= j < k ==> names_of(taken@).contains(#[trigger] folder_candidate(j)),
    {
        let ghost names = names_of(taken@);
        let mut i: u128 = 1;
        let mut cand = string_from_chars(&folder_candidate_chars(1));
        while contains_name(taken, &cand)
            invariant
                1 <= i <= taken.len() + 1,
                cand@ == folder_candidate(i as int),
                names == names_of(taken@),
                forall|j: int| 1 <= j < i ==> names.contains(#[trigger] folder_candidate(j)),
            decreases taken.len() + 1 - i,
        {
            proof {
                assert forall|a: int, b: int|
                    1 <= a < i + 1 && 1 <= b < i + 1 && folder_candidate(a) == folder_candidate(
                        b,
                    ) implies a == b by {
                    lemma_folder_candidates_distinct(a, b);
                }
                assert forall|j: int| 1 <= j < i + 1 implies names.contains(
                    #[trigger] folder_candidate(j),
                ) by {
                    if j == i {
                    }
                }
                lemma_pigeonhole(names, |j: int| folder_candidate(j), 1, i + 1);
            }
            i = i + 1;
            cand = string_from_chars(&folder_candidate_chars(i));
        }
        join(dir, cand.as_str())
    }

    /// Path in `dest_dir` for a copy of `src`: the first of `stem.ext`,
    /// `stem_1.ext`, `stem_2.ext`, … that is not among `taken`, the names
    /// already in `dest_dir` (without `.ext` when `src` has no extension).
    pub fn unique_paste_path(src: &str, dest_dir: &str, taken: &Vec<String>) -> (r: String)
        ensures
            exists|k: int|
                k >= 0 && r@ == spec_join(
                    dest_dir@,
                    #[trigger] paste_candidate(paste_stem(src@), paste_extension(src@), k),
                ) && !names_of(taken@).contains(
                    paste_candidate(paste_stem(src@), paste_extension(src@), k),
                ) && forall|j: int|
                    0 <= j < k ==> names_of(taken@).contains(
                        #[trigger] paste_candidate(paste_stem(src@), paste_extension(src@), j),
                    ),
    {
        let (stem, ext) = match file_name(src) {
            Some(n) => {
                let (s, e) = split_file_name(n.as_str());
                let ev = match e {
                    Some(x) => Some(chars_of(x.as_str())),
                    None => None,
                };
                (chars_of(s.as_str()), ev)
            },
            None => (chars_of(src), None),
        };
        let ghost gext: Option<Seq<char>> = opt_chars(ext);
        assert(stem@ == paste_stem(src@));
        assert(gext == paste_extension(src@));
        let ghost names = names_of(taken@);
        let mut i: u128 = 0;
        let mut cand = string_from_chars(&paste_candidate_chars(&stem, &ext, 0));
        while contains_name(taken, &cand)
            invariant
                i <= taken.len(),
                cand@ == paste_candidate(stem@, gext, i as int),
                gext == opt_chars(ext),
                names == names_of(taken@),
                forall|j: int| 0 <= j < i ==> names.contains(#[trigger] paste_candidate(stem@, gext, j)),
            decreases taken.len() - i,
        {
            proof {
                assert forall|a: int, b: int|
                    0 <= a < i + 1 && 0 <= b < i + 1 && paste_candidate(stem@, gext, a)
                        == paste_candidate(stem@, gext, b) implies a == b by {
                    lemma_paste_candidates_distinct(stem@, gext, a, b);
                }
                assert forall|j: int| 0 <= j < i + 1 implies names.contains(
                    #[trigger] paste_candidate(stem@, gext, j),
                ) by {
                    if j == i {
                    }
                }
                lemma_pigeonhole(names, |j: int| paste_candidate(stem@, gext, j), 0, i + 1);
            }
            i = i + 1;
            cand = string_from_chars(&paste_candidate_chars(&stem, &ext, i));
        }
        join(dest_dir, cand.as_str())
    }
}

} // verus!
