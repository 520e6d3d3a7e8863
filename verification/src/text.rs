//! Character-level string helpers shared by the rest of the library.
use vstd::prelude::*;

verus! {

/// Appends one character to a string: std's `String::push`.
/// The contract claims that the string's characters afterwards are the old
/// ones followed by `c`.
#[verifier::external_body]
pub(crate) fn push_char(s: &mut String, c: char)
    ensures
        final(s)@ == old(s)@.push(c),
{
    s.push(c);
}

/// The characters of `s`, in order.
pub fn chars_of(s: &str) -> (v: Vec<char>)
    ensures
        v@ == s@,
{
    let mut v: Vec<char> = Vec::new();
    for c in it: s.chars()
        invariant
            v@ == it.seq().take(it.index() as int),
            it.seq() == s@,
    {
        v.push(c);
    }
    v
}

/// A string made of the given characters.
pub fn string_from_chars(v: &Vec<char>) -> (s: String)
    ensures
        s@ == v@,
{
    let mut s = String::new();
    let mut i: usize = 0;
    while i < v.len()
        invariant
            i <= v.len(),
            s@ == v@.take(i as int),
        decreases v.len() - i,
    {
        push_char(&mut s, v[i]);
        i = i + 1;
        assert(s@ =~= v@.take(i as int));
    }
    assert(v@.take(v.len() as int) =~= v@);
    s
}

} // verus!

verus! {

/// Strict lexicographic order on character sequences, character by
/// character on the Unicode scalar value (which is also the byte order of
/// their UTF-8 encodings).
pub open spec fn text_lt(a: Seq<char>, b: Seq<char>) -> bool
    decreases a.len(),
{
    if a.len() == 0 {
        b.len() > 0
    } else if b.len() == 0 {
        false
    } else if a[0] != b[0] {
        a[0] < b[0]
    } else {
        text_lt(a.drop_first(), b.drop_first())
    }
}

/// No sequence is below itself.
pub proof fn lemma_text_lt_irreflexive(a: Seq<char>)
    ensures
        !text_lt(a, a),
    decreases a.len(),
{
    if a.len() > 0 {
        lemma_text_lt_irreflexive(a.drop_first());
    }
}

/// Two sequences are equal or one is below the other, and never both ways.
pub proof fn lemma_text_lt_trichotomy(a: Seq<char>, b: Seq<char>)
    ensures
        text_lt(a, b) || a == b || text_lt(b, a),
        !(text_lt(a, b) && text_lt(b, a)),
    decreases a.len(),
{
    if a.len() > 0 && b.len() > 0 {
        if a[0] == b[0] {
            lemma_text_lt_trichotomy(a.drop_first(), b.drop_first());
            if a.drop_first() == b.drop_first() {
                assert(a =~= seq![a[0]] + a.drop_first());
                assert(b =~= seq![b[0]] + b.drop_first());
            }
        }
    } else if a.len() == 0 && b.len() == 0 {
        assert(a =~= b);
    }
}

/// The order is transitive.
pub proof fn lemma_text_lt_transitive(a: Seq<char>, b: Seq<char>, c: Seq<char>)
    requires
        text_lt(a, b),
        text_lt(b, c),
    ensures
        text_lt(a, c),
    decreases a.len(),
{
    if a.len() > 0 && a[0] == b[0] && b[0] == c[0] {
        lemma_text_lt_transitive(a.drop_first(), b.drop_first(), c.drop_first());
    }
}

/// The outcome of comparing two values.
#[derive(PartialEq, Eq, Structural, Debug, Clone, Copy)]
pub enum Comparison {
    Less,
    Equal,
    Greater,
}

/// Compares two character sequences lexicographically.
pub fn compare_text(a: &Vec<char>, b: &Vec<char>) -> (r: Comparison)
    ensures
        r == Comparison::Less <==> text_lt(a@, b@),
        r == Comparison::Equal <==> a@ == b@,
        r == Comparison::Greater <==> text_lt(b@, a@),
{
    proof {
        lemma_text_lt_trichotomy(a@, b@);
    }
    let mut i: usize = 0;
    assert(a@.skip(0) =~= a@);
    assert(b@.skip(0) =~= b@);
    while i < a.len() && i < b.len()
        invariant
            i <= a.len(),
            i <= b.len(),
            a@.take(i as int) == b@.take(i as int),
            text_lt(a@, b@) == text_lt(a@.skip(i as int), b@.skip(i as int)),
            text_lt(b@, a@) == text_lt(b@.skip(i as int), a@.skip(i as int)),
        decreases a.len() - i,
    {
        let x = a[i];
        let y = b[i];
        assert(a@.skip(i as int)[0] == x);
        assert(b@.skip(i as int)[0] == y);
        if x < y {
            proof {
                lemma_text_lt_trichotomy(a@, b@);
            }
            return Comparison::Less;
        }
        if y < x {
            proof {
                lemma_text_lt_trichotomy(a@, b@);
            }
            return Comparison::Greater;
        }
        assert(x == y);
        assert(a@.skip(i as int).drop_first() =~= a@.skip(i + 1));
        assert(b@.skip(i as int).drop_first() =~= b@.skip(i + 1));
        assert(a@.take(i + 1) =~= a@.take(i as int).push(x));
        assert(b@.take(i + 1) =~= b@.take(i as int).push(y));
        i = i + 1;
    }
    proof {
        lemma_text_lt_trichotomy(a@, b@);
    }
    if a.len() < b.len() {
        assert(a@.skip(i as int).len() == 0);
        Comparison::Less
    } else if b.len() < a.len() {
        assert(b@.skip(i as int).len() == 0);
        Comparison::Greater
    } else {
        assert(a@ =~= a@.take(i as int));
        assert(b@ =~= b@.take(i as int));
        Comparison::Equal
    }
}

/// ASCII lower-casing of one character: `A`..`Z` become `a`..`z`, every
/// other character is unchanged (std's `to_ascii_lowercase`).
pub open spec fn ascii_lower(c: char) -> char {
    if 'A' <= c && c <= 'Z' {
        ((c as u32) + 32) as char
    } else {
        c
    }
}

/// Every character of `s` is ASCII.
pub open spec fn is_ascii_text(s: Seq<char>) -> bool {
    forall|i: int| 0 <= i < s.len() ==> (#[trigger] s[i] as u32) < 128
}

/// ASCII lower-casing of a whole sequence.
pub open spec fn ascii_lower_text(s: Seq<char>) -> Seq<char> {
    s.map_values(|c: char| ascii_lower(c))
}

/// Lower-cases one character the ASCII way.
pub fn to_ascii_lower(c: char) -> (r: char)
    ensures
        r == ascii_lower(c),
{
    if 'A' <= c && c <= 'Z' {
        let code: u8 = (c as u8) + 32;
        code as char
    } else {
        c
    }
}

} // verus!

verus! {

/// The decimal digit character for `d < 10`.
pub open spec fn digit_char(d: int) -> char {
    seq!['0', '1', '2', '3', '4', '5', '6', '7', '8', '9'][d]
}

/// The decimal notation of `n`, without leading zeros.
pub open spec fn decimal(n: nat) -> Seq<char>
    decreases n,
{
    if n < 10 {
        seq![digit_char(n as int)]
    } else {
        decimal(n / 10).push(digit_char((n % 10) as int))
    }
}

/// A decimal notation is never empty, and has two digits or more from ten on.
pub proof fn lemma_decimal_len(n: nat)
    ensures
        decimal(n).len() >= 1,
        n >= 10 ==> decimal(n).len() >= 2,
        decimal(n).last() == digit_char((n % 10) as int),
    decreases n,
{
    if n >= 10 {
        lemma_decimal_len(n / 10);
    }
}

/// Distinct numbers have distinct decimal notations.
pub proof fn lemma_decimal_injective(a: nat, b: nat)
    requires
        decimal(a) == decimal(b),
    ensures
        a == b,
    decreases a,
{
    lemma_decimal_len(a);
    lemma_decimal_len(b);
    let da = (a % 10) as int;
    let db = (b % 10) as int;
    assert(digit_char(da) == digit_char(db));
    assert(da == db) by {
        let digits = seq!['0', '1', '2', '3', '4', '5', '6', '7', '8', '9'];
        assert(forall|i: int, j: int|
            0 <= i < 10 && 0 <= j < 10 && i != j ==> digits[i] != digits[j]);
    }
    if a >= 10 && b >= 10 {
        assert(decimal(a / 10) =~= decimal(a).drop_last());
        assert(decimal(b / 10) =~= decimal(b).drop_last());
        lemma_decimal_injective(a / 10, b / 10);
    }
}

/// The decimal notation of `n` as characters.
pub fn decimal_chars(n: u128) -> (r: Vec<char>)
    ensures
        r@ == decimal(n as nat),
    decreases n,
{
    let digits = ['0', '1', '2', '3', '4', '5', '6', '7', '8', '9'];
    assert(digits@ =~= seq!['0', '1', '2', '3', '4', '5', '6', '7', '8', '9']);
    if n < 10 {
        let mut v: Vec<char> = Vec::new();
        v.push(digits[n as usize]);
        assert(v@ =~= seq![digit_char(n as int)]);
        v
    } else {
        let mut v = decimal_chars(n / 10);
        v.push(digits[(n % 10) as usize]);
        v
    }
}

/// `p` is a prefix of `s`.
pub open spec fn has_prefix(s: Seq<char>, p: Seq<char>) -> bool {
    p.len() <= s.len() && s.take(p.len() as int) == p
}

/// `p` is a suffix of `s`.
pub open spec fn has_suffix(s: Seq<char>, p: Seq<char>) -> bool {
    p.len() <= s.len() && s.skip(s.len() - p.len()) == p
}

/// Whether `pat` occurs in `s` at index `at`.
fn occurs_at(s: &Vec<char>, at: usize, pat: &Vec<char>) -> (r: bool)
    requires
        at <= s.len(),
    ensures
        r == has_prefix(s@.skip(at as int), pat@),
{
    if pat.len() > s.len() - at {
        return false;
    }
    let mut i: usize = 0;
    while i < pat.len()
        invariant
            i <= pat.len(),
            at + pat.len() <= s.len(),
            forall|k: int| 0 <= k < i ==> s@[at + k] == pat@[k],
        decreases pat.len() - i,
    {
        if s[at + i] != pat[i] {
            assert(s@.skip(at as int).take(pat.len() as int)[i as int] != pat@[i as int]);
            return false;
        }
        i = i + 1;
    }
    assert(s@.skip(at as int).take(pat.len() as int) =~= pat@);
    true
}

/// Whether `s` starts with `p`.
pub fn starts_with(s: &str, p: &str) -> (r: bool)
    ensures
        r == has_prefix(s@, p@),
{
    let sv = chars_of(s);
    let pv = chars_of(p);
    assert(sv@.skip(0) =~= sv@);
    occurs_at(&sv, 0, &pv)
}

/// Whether `s` ends with `p`.
pub fn ends_with(s: &str, p: &str) -> (r: bool)
    ensures
        r == has_suffix(s@, p@),
{
    let sv = chars_of(s);
    let pv = chars_of(p);
    if pv.len() > sv.len() {
        return false;
    }
    let at = sv.len() - pv.len();
    let r = occurs_at(&sv, at, &pv);
    assert(sv@.skip(at as int).take(pv.len() as int) =~= sv@.skip(at as int));
    r
}

/// Every non-overlapping occurrence of `pat` in `s`, scanning from the left,
/// replaced by `rep` (std's `str::replace`, for a non-empty pattern).
pub open spec fn replace_all(s: Seq<char>, pat: Seq<char>, rep: Seq<char>) -> Seq<char>
    decreases s.len(),
{
    if s.len() == 0 || pat.len() == 0 {
        s
    } else if has_prefix(s, pat) {
        rep + replace_all(s.skip(pat.len() as int), pat, rep)
    } else {
        seq![s[0]] + replace_all(s.drop_first(), pat, rep)
    }
}

/// `s` with every occurrence of `pat` replaced by `rep`.
pub fn replace_text(s: &str, pat: &str, rep: &str) -> (r: String)
    requires
        pat@.len() > 0,
    ensures
        r@ == replace_all(s@, pat@, rep@),
{
    let sv = chars_of(s);
    let pv = chars_of(pat);
    let rv = chars_of(rep);
    let mut out: Vec<char> = Vec::new();
    let mut i: usize = 0;
    assert(sv@.skip(0) =~= sv@);
    while i < sv.len()
        invariant
            i <= sv.len(),
            pv@.len() > 0,
            out@ + replace_all(sv@.skip(i as int), pv@, rv@) == replace_all(sv@, pv@, rv@),
        decreases sv.len() - i,
    {
        let ghost rest = sv@.skip(i as int);
        if occurs_at(&sv, i, &pv) {
            let ghost before = out@;
            let mut j: usize = 0;
            while j < rv.len()
                invariant
                    j <= rv.len(),
                    out@ == before + rv@.take(j as int),
                decreases rv.len() - j,
            {
                out.push(rv[j]);
                j = j + 1;
                assert(out@ =~= before + rv@.take(j as int));
            }
            assert(rv@.take(rv.len() as int) =~= rv@);
            assert(rest.skip(pv.len() as int) =~= sv@.skip(i + pv.len()));
            i = i + pv.len();
            assert(out@ + replace_all(sv@.skip(i as int), pv@, rv@) =~= before + (rv@
                + replace_all(rest.skip(pv@.len() as int), pv@, rv@)));
        } else {
            let ghost before = out@;
            out.push(sv[i]);
            assert(rest.drop_first() =~= sv@.skip(i + 1));
            i = i + 1;
            assert(out@ + replace_all(sv@.skip(i as int), pv@, rv@) =~= before + (seq![rest[0]]
                + replace_all(rest.drop_first(), pv@, rv@)));
        }
    }
    assert(sv@.skip(i as int).len() == 0);
    assert(out@ + replace_all(sv@.skip(i as int), pv@, rv@) =~= out@);
    string_from_chars(&out)
}

/// `c` is a white-space character in Unicode's sense (std's `char::is_whitespace`).
pub open spec fn is_white_space(c: char) -> bool {
    let u = c as u32;
    (0x09 <= u <= 0x0d) || u == 0x20 || u == 0x85 || u == 0xa0 || u == 0x1680 || (0x2000 <= u
        <= 0x200a) || u == 0x2028 || u == 0x2029 || u == 0x202f || u == 0x205f || u == 0x3000
}

/// Decides `is_white_space(c)`.
pub fn white_space(c: char) -> (r: bool)
    ensures
        r == is_white_space(c),
{
    let u = c as u32;
    (0x09 <= u && u <= 0x0d) || u == 0x20 || u == 0x85 || u == 0xa0 || u == 0x1680 || (0x2000 <= u
        && u <= 0x200a) || u == 0x2028 || u == 0x2029 || u == 0x202f || u == 0x205f || u == 0x3000
}

/// `s` without leading white space.
pub open spec fn trim_start_spec(s: Seq<char>) -> Seq<char>
    decreases s.len(),
{
    if s.len() > 0 && is_white_space(s[0]) {
        trim_start_spec(s.drop_first())
    } else {
        s
    }
}

/// `s` without trailing white space.
pub open spec fn trim_end_spec(s: Seq<char>) -> Seq<char>
    decreases s.len(),
{
    if s.len() > 0 && is_white_space(s.last()) {
        trim_end_spec(s.drop_last())
    } else {
        s
    }
}

/// `s` without leading or trailing white space (std's `str::trim`).
pub open spec fn trim_spec(s: Seq<char>) -> Seq<char> {
    trim_end_spec(trim_start_spec(s))
}

/// `s` without leading or trailing white space.
pub fn trim_text(s: &str) -> (r: String)
    ensures
        r@ == trim_spec(s@),
{
    let v = chars_of(s);
    let mut a: usize = 0;
    assert(v@.skip(0) =~= v@);
    while a < v.len() && white_space(v[a])
        invariant
            a <= v.len(),
            trim_start_spec(v@.skip(a as int)) == trim_start_spec(v@),
        decreases v.len() - a,
    {
        assert(v@.skip(a as int).drop_first() =~= v@.skip(a + 1));
        a = a + 1;
    }
    let ghost front = v@.skip(a as int);
    assert(trim_start_spec(front) == front);
    let mut b: usize = v.len();
    assert(front.take(b - a) =~= front);
    while b > a && white_space(v[b - 1])
        invariant
            a <= b <= v.len(),
            front == v@.skip(a as int),
            trim_end_spec(front.take(b - a)) == trim_end_spec(front),
        decreases b,
    {
        assert(front.take(b - a).drop_last() =~= front.take(b - 1 - a));
        b = b - 1;
    }
    let mut out: Vec<char> = Vec::new();
    let mut i = a;
    while i < b
        invariant
            a <= i <= b <= v.len(),
            out@ == v@.subrange(a as int, i as int),
        decreases b - i,
    {
        out.push(v[i]);
        i = i + 1;
        assert(out@ =~= v@.subrange(a as int, i as int));
    }
    assert(out@ =~= front.take(b - a));
    string_from_chars(&out)
}

/// What std's `char::to_uppercase` yields for `c`.
pub uninterp spec fn upper_of(c: char) -> Seq<char>;

/// ASCII upper-casing of one character: `a`..`z` become `A`..`Z`.
pub open spec fn ascii_upper(c: char) -> char {
    if 'a' <= c && c <= 'z' {
        ((c as u32) - 32) as char
    } else {
        c
    }
}

/// std's `char::to_uppercase`, collected into a string. The contract names
/// the result `upper_of(c)` and states, as std documents for ASCII, that an
/// ASCII character maps to its ASCII upper case; for other characters the
/// Unicode case tables are left unsaid.
#[verifier::external_body]
pub(crate) fn char_to_upper(c: char) -> (r: String)
    ensures
        r@ == upper_of(c),
        (c as u32) < 128 ==> r@ == seq![ascii_upper(c)],
{
    c.to_uppercase().collect::<String>()
}

/// Appends the characters of `t` to `v`.
pub fn extend_chars(v: &mut Vec<char>, t: &str)
    ensures
        final(v)@ == old(v)@ + t@,
{
    let tv = chars_of(t);
    let ghost base = v@;
    let mut i: usize = 0;
    while i < tv.len()
        invariant
            i <= tv.len(),
            v@ == base + tv@.take(i as int),
        decreases tv.len() - i,
    {
        v.push(tv[i]);
        i = i + 1;
        assert(v@ =~= base + tv@.take(i as int));
    }
    assert(tv@.take(tv.len() as int) =~= tv@);
}

} // verus!

verus! {

/// Whether two strings have the same characters.
pub fn text_eq(a: &str, b: &str) -> (r: bool)
    ensures
        r == (a@ == b@),
{
    let av = chars_of(a);
    let bv = chars_of(b);
    compare_text(&av, &bv) == Comparison::Equal
}

} // verus!
