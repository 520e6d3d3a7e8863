//! File-system paths as `/`-separated text: the file name, the parent, joining,
//! and the split of a file name into stem and extension.
use vstd::prelude::*;

use crate::text::{chars_of, string_from_chars};

verus! {

/// Whether `s` ends in a `/`, or in a `.` component after a `/`.
pub open spec fn ends_in_empty_component(s: Seq<char>) -> bool {
    s.len() > 0 && (s.last() == '/' || (s.len() >= 2 && s.last() == '.' && s[s.len() - 2] == '/'))
}

/// `s` with its trailing separators and `.` components removed, as std's
/// `Path` skips them: `a/./` and `a/.` both end at `a`.
pub open spec fn strip_trailing_slashes(s: Seq<char>) -> Seq<char>
    decreases s.len(),
{
    if ends_in_empty_component(s) {
        strip_trailing_slashes(s.drop_last())
    } else {
        s
    }
}

/// Index of the last occurrence of `c` in `s`, or -1.
pub open spec fn last_index_of(s: Seq<char>, c: char) -> int
    decreases s.len(),
{
    if s.len() == 0 {
        -1
    } else if s.last() == c {
        s.len() - 1
    } else {
        last_index_of(s.drop_last(), c)
    }
}

/// The last component of a path: the text after the last `/` once trailing
/// `/`s and `.` components are dropped; none when that text is empty, `.`
/// or `..`.
pub open spec fn spec_file_name(p: Seq<char>) -> Option<Seq<char>> {
    let t = strip_trailing_slashes(p);
    let name = t.skip(last_index_of(t, '/') + 1);
    if name.len() == 0 || name == seq!['.'] || name == seq!['.', '.'] {
        None
    } else {
        Some(name)
    }
}

/// The path without its last component (trailing `/`s and `.` components
/// are dropped first, and again from what is left): none for the empty path
/// and for the root; the empty path for a bare name; `/` for a name directly
/// under the root.
pub open spec fn spec_parent(p: Seq<char>) -> Option<Seq<char>> {
    let t = strip_trailing_slashes(p);
    let k = last_index_of(t, '/');
    if t.len() == 0 {
        None
    } else if k < 0 {
        Some(Seq::empty())
    } else {
        let head = strip_trailing_slashes(t.take(k));
        if head.len() == 0 {
            Some(seq!['/'])
        } else {
            Some(head)
        }
    }
}

/// `name` appended to `dir`: `name` itself when it is absolute or `dir` is
/// empty; otherwise `dir`, a `/` unless `dir` already ends in one, and `name`.
pub open spec fn spec_join(dir: Seq<char>, name: Seq<char>) -> Seq<char> {
    if (name.len() > 0 && name[0] == '/') || dir.len() == 0 {
        name
    } else if dir.last() == '/' {
        dir + name
    } else {
        dir + seq!['/'] + name
    }
}

/// The stem of a file name: all of it when it holds no `.` after its first
/// character, else the text before its last `.`.
pub open spec fn spec_file_stem(name: Seq<char>) -> Seq<char> {
    let k = last_index_of(name, '.');
    if k <= 0 {
        name
    } else {
        name.take(k)
    }
}

/// The extension of a file name: none when it holds no `.` after its first
/// character, else the text after its last `.`.
pub open spec fn spec_extension(name: Seq<char>) -> Option<Seq<char>> {
    let k = last_index_of(name, '.');
    if k <= 0 {
        None
    } else {
        Some(name.skip(k + 1))
    }
}

/// Length of `s` once trailing `/`s and `.` components are dropped.
fn stripped_len(s: &Vec<char>) -> (n: usize)
    ensures
        n <= s.len(),
        s@.take(n as int) == strip_trailing_slashes(s@),
{
    let mut n = s.len();
    assert(s@.take(n as int) =~= s@);
    while n > 0 && (s[n - 1] == '/' || (n >= 2 && s[n - 1] == '.' && s[n - 2] == '/'))
        invariant
            n <= s.len(),
            strip_trailing_slashes(s@.take(n as int)) == strip_trailing_slashes(s@),
        decreases n,
    {
        assert(s@.take(n as int).drop_last() =~= s@.take(n - 1));
        n = n - 1;
    }
    n
}

/// Index of the last `c` among the first `n` characters of `s`, or `n` when
/// there is none (so that `r < n` tells whether one was found).
fn find_last(s: &Vec<char>, n: usize, c: char) -> (r: usize)
    requires
        n <= s.len(),
    ensures
        r <= n,
        r < n ==> r as int == last_index_of(s@.take(n as int), c),
        r == n ==> last_index_of(s@.take(n as int), c) == -1,
{
    let mut i = n;
    while i > 0
        invariant
            i <= n <= s.len(),
            last_index_of(s@.take(n as int), c) == last_index_of(s@.take(i as int), c),
        decreases i,
    {
        assert(s@.take(i as int).drop_last() =~= s@.take(i - 1));
        if s[i - 1] == c {
            return i - 1;
        }
        i = i - 1;
    }
    n
}

/// Copy of `s[from..to]`.
fn slice_chars(s: &Vec<char>, from: usize, to: usize) -> (r: Vec<char>)
    requires
        from <= to <= s.len(),
    ensures
        r@ == s@.subrange(from as int, to as int),
{
    let mut r: Vec<char> = Vec::new();
    let mut i = from;
    while i < to
        invariant
            from <= i <= to <= s.len(),
            r@ == s@.subrange(from as int, i as int),
        decreases to - i,
    {
        r.push(s[i]);
        i = i + 1;
        assert(r@ =~= s@.subrange(from as int, i as int));
    }
    r
}

/// The last component of `path`.
pub fn file_name(path: &str) -> (r: Option<String>)
    ensures
        r matches Some(n) ==> spec_file_name(path@) == Some(n@),
        r is None ==> spec_file_name(path@) is None,
{
    let s = chars_of(path);
    let n = stripped_len(&s);
    let k = find_last(&s, n, '/');
    let start = if k < n { k + 1 } else { 0 };
    let name = slice_chars(&s, start, n);
    proof {
        let t = strip_trailing_slashes(path@);
        assert(t == s@.take(n as int));
        assert(name@ =~= t.skip(last_index_of(t, '/') + 1));
    }
    if name.len() == 0 || (name.len() == 1 && name[0] == '.') || (name.len() == 2 && name[0] == '.'
        && name[1] == '.') {
        proof {
            if name.len() == 1 {
                assert(name@ =~= seq!['.']);
            }
            if name.len() == 2 {
                assert(name@ =~= seq!['.', '.']);
            }
        }
        None
    } else {
        proof {
            if name@ == seq!['.'] {
                assert(name@.len() == 1 && name@[0] == '.');
            }
            if name@ == seq!['.', '.'] {
                assert(name@.len() == 2 && name@[0] == '.' && name@[1] == '.');
            }
        }
        Some(string_from_chars(&name))
    }
}

/// `path` without its last component.
pub fn parent(path: &str) -> (r: Option<String>)
    ensures
        r matches Some(n) ==> spec_parent(path@) == Some(n@),
        r is None ==> spec_parent(path@) is None,
{
    let s = chars_of(path);
    let n = stripped_len(&s);
    if n == 0 {
        return None;
    }
    let k = find_last(&s, n, '/');
    if k == n {
        return Some(String::new());
    }
    let m = stripped_len(&slice_chars(&s, 0, k));
    let head = slice_chars(&s, 0, m);
    proof {
        let t = strip_trailing_slashes(path@);
        assert(t == s@.take(n as int));
        assert(t.take(k as int) =~= s@.subrange(0, k as int));
    }
    if m == 0 {
        let mut root = String::new();
        crate::text::push_char(&mut root, '/');
        proof {
            assert(root@ =~= seq!['/']);
        }
        Some(root)
    } else {
        proof {
            assert(head@ =~= s@.subrange(0, k as int).take(m as int));
        }
        Some(string_from_chars(&head))
    }
}

/// `name` appended to `dir`.
pub fn join(dir: &str, name: &str) -> (r: String)
    ensures
        r@ == spec_join(dir@, name@),
{
    let d = chars_of(dir);
    let n = chars_of(name);
    if (n.len() > 0 && n[0] == '/') || d.len() == 0 {
        return string_from_chars(&n);
    }
    let mut out = d.clone();
    if d[d.len() - 1] != '/' {
        out.push('/');
    }
    let mut i: usize = 0;
    let ghost base = out@;
    while i < n.len()
        invariant
            i <= n.len(),
            out@ == base + n@.take(i as int),
        decreases n.len() - i,
    {
        out.push(n[i]);
        i = i + 1;
        assert(out@ =~= base + n@.take(i as int));
    }
    proof {
        assert(n@.take(n.len() as int) =~= n@);
        if d@.last() != '/' {
            assert(base =~= d@ + seq!['/']);
        } else {
            assert(base =~= d@);
        }
    }
    string_from_chars(&out)
}

/// Stem and extension of a file name.
pub fn split_file_name(name: &str) -> (r: (String, Option<String>))
    ensures
        r.0@ == spec_file_stem(name@),
        r.1 matches Some(e) ==> spec_extension(name@) == Some(e@),
        r.1 is None ==> spec_extension(name@) is None,
{
    let s = chars_of(name);
    let k = find_last(&s, s.len(), '.');
    assert(s@.take(s.len() as int) =~= s@);
    if k == s.len() || k == 0 {
        (string_from_chars(&s), None)
    } else {
        let stem = slice_chars(&s, 0, k);
        let ext = slice_chars(&s, k + 1, s.len());
        assert(stem@ =~= s@.take(k as int));
        assert(ext@ =~= s@.skip(k + 1));
        (string_from_chars(&stem), Some(string_from_chars(&ext)))
    }
}

} // verus!

verus! {

/// A single path component as a directory listing yields it: non-empty,
/// without `/`, and neither `.` nor `..`.
pub open spec fn is_plain_name(n: Seq<char>) -> bool {
    n.len() > 0 && !n.contains('/') && n != seq!['.'] && n != seq!['.', '.']
}

proof fn lemma_last_index_of_append(a: Seq<char>, b: Seq<char>, c: char)
    requires
        !b.contains(c),
    ensures
        last_index_of(a + b, c) == last_index_of(a, c),
    decreases b.len(),
{
    if b.len() > 0 {
        assert((a + b).last() == b.last());
        assert((a + b).drop_last() =~= a + b.drop_last());
        assert(!b.drop_last().contains(c)) by {
            if b.drop_last().contains(c) {
                let k = choose|k: int| 0 <= k < b.drop_last().len() && b.drop_last()[k] == c;
                assert(b[k] == c);
            }
        }
        lemma_last_index_of_append(a, b.drop_last(), c);
    } else {
        assert(a + b =~= a);
    }
}

/// Joining a plain name to a directory gives a path whose file name is that
/// name.
pub proof fn lemma_join_plain_name(dir: Seq<char>, n: Seq<char>)
    requires
        is_plain_name(n),
    ensures
        spec_file_name(spec_join(dir, n)) == Some(n),
{
    let j = spec_join(dir, n);
    let pre = if dir.len() == 0 {
        Seq::<char>::empty()
    } else if dir.last() == '/' {
        dir
    } else {
        dir + seq!['/']
    };
    assert(n[0] != '/') by {
        assert(n.contains(n[0]));
    }
    assert(j =~= pre + n);
    assert(n.last() != '/') by {
        assert(n.contains(n.last()));
    }
    if n.last() == '.' && j.len() >= 2 {
        if n.len() >= 2 {
            assert(j[j.len() - 2] == n[n.len() - 2]);
            assert(n.contains(n[n.len() - 2]));
        } else {
            assert(n =~= seq!['.']);
        }
    }
    assert(!ends_in_empty_component(j));
    assert(strip_trailing_slashes(j) == j);
    lemma_last_index_of_append(pre, n, '/');
    if pre.len() > 0 {
        assert(pre.last() == '/');
        assert(last_index_of(pre, '/') == pre.len() - 1);
    } else {
        assert(last_index_of(pre, '/') == -1);
    }
    assert(j.skip(last_index_of(j, '/') + 1) =~= n);
}

} // verus!
