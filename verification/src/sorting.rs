//! Ordering of browser entries and inspector components by a rank-then-text key.
use vstd::prelude::*;

use crate::text::{compare_text, lemma_text_lt_transitive, lemma_text_lt_trichotomy, text_lt, Comparison};

verus! {

broadcast use vstd::seq_lib::group_to_multiset_ensures;

/// Strict order on keys: a smaller rank comes first, equal ranks are ordered
/// by their text.
pub open spec fn key_lt(a: (int, Seq<char>), b: (int, Seq<char>)) -> bool {
    a.0 < b.0 || (a.0 == b.0 && text_lt(a.1, b.1))
}

/// A value with a sort key made of a small rank and a text.
pub trait Keyed {
    spec fn key_rank(&self) -> int;

    spec fn key_text(&self) -> Seq<char>;

    fn rank(&self) -> (r: u8)
        ensures
            r as int == self.key_rank(),
    ;

    fn text_key(&self) -> (t: Vec<char>)
        ensures
            t@ == self.key_text(),
    ;
}

/// The sort key of a value.
pub open spec fn key_of<T: Keyed>(x: T) -> (int, Seq<char>) {
    (x.key_rank(), x.key_text())
}

/// `a` sorts strictly before `b`.
pub open spec fn keyed_lt<T: Keyed>(a: T, b: T) -> bool {
    key_lt(key_of(a), key_of(b))
}

/// Every element's key is at most the keys of the elements after it.
pub open spec fn sorted_by_key<T: Keyed>(s: Seq<T>) -> bool {
    forall|i: int, j: int| 0 <= i < j < s.len() ==> !keyed_lt(#[trigger] s[j], #[trigger] s[i])
}

/// Holds of the values whose key is `k`.
pub open spec fn has_key<T: Keyed>(k: (int, Seq<char>)) -> spec_fn(T) -> bool {
    |x: T| key_of(x) == k
}

/// The values of `s` whose key is `k`, in their order in `s`.
pub open spec fn with_key<T: Keyed>(s: Seq<T>, k: (int, Seq<char>)) -> Seq<T> {
    s.filter(has_key(k))
}

/// Values with equal keys come in `r` in the order they come in `s`.
pub open spec fn keeps_order_of_equals<T: Keyed>(r: Seq<T>, s: Seq<T>) -> bool {
    forall|k: (int, Seq<char>)| #[trigger] with_key(r, k) == with_key(s, k)
}

proof fn lemma_filter_none<A>(s: Seq<A>, pred: spec_fn(A) -> bool)
    requires
        forall|i: int| 0 <= i < s.len() ==> !pred(#[trigger] s[i]),
    ensures
        s.filter(pred) =~= Seq::<A>::empty(),
    decreases s.len(),
{
    if s.len() > 0 {
        lemma_filter_none(s.drop_last(), pred);
        s.drop_last().lemma_filter_push(s.last(), pred);
        assert(s.drop_last().push(s.last()) =~= s);
    } else {
        reveal(Seq::filter);
    }
}

/// Inserting `x` before values whose keys are all above its own groups it
/// with its equals as appending it would.
proof fn lemma_with_key_insert<T: Keyed>(s: Seq<T>, p: int, x: T, k: (int, Seq<char>))
    requires
        0 <= p <= s.len(),
        forall|j: int| p <= j < s.len() ==> key_lt(key_of(x), key_of(#[trigger] s[j])),
    ensures
        with_key(s.insert(p, x), k) == with_key(s.push(x), k),
{
    let pred = has_key::<T>(k);
    let a = s.take(p);
    let b = s.skip(p);
    let one = seq![x];
    assert(s.insert(p, x) =~= (a + one) + b);
    assert(s.push(x) =~= (a + b) + one);
    assert(s =~= a + b);
    Seq::filter_distributes_over_add(a + one, b, pred);
    Seq::filter_distributes_over_add(a, one, pred);
    Seq::filter_distributes_over_add(a + b, one, pred);
    Seq::filter_distributes_over_add(a, b, pred);
    Seq::<T>::empty().lemma_filter_push(x, pred);
    assert(Seq::<T>::empty().push(x) =~= one);
    lemma_filter_none(Seq::<T>::empty(), pred);
    if key_of(x) == k {
        assert forall|i: int| 0 <= i < b.len() implies !pred(#[trigger] b[i]) by {
            assert(b[i] == s[p + i]);
            lemma_text_lt_trichotomy(key_of(x).1, key_of(b[i]).1);
        }
        lemma_filter_none(b, pred);
        assert(b.filter(pred) =~= Seq::<T>::empty());
        assert(a.filter(pred) + one.filter(pred) + b.filter(pred) =~= a.filter(pred) + b.filter(pred)
            + one.filter(pred));
    } else {
        assert(one.filter(pred) =~= Seq::<T>::empty());
        assert(a.filter(pred) + one.filter(pred) + b.filter(pred) =~= a.filter(pred) + b.filter(pred)
            + one.filter(pred));
    }
}

proof fn lemma_key_lt_chain(a: (int, Seq<char>), b: (int, Seq<char>), c: (int, Seq<char>))
    requires
        key_lt(a, b),
        !key_lt(c, b),
    ensures
        key_lt(a, c),
{
    lemma_text_lt_trichotomy(b.1, c.1);
    if key_lt(b, c) {
        lemma_key_lt_transitive(a, b, c);
    } else {
        assert(b == c);
    }
}

proof fn lemma_key_lt_transitive(a: (int, Seq<char>), b: (int, Seq<char>), c: (int, Seq<char>))
    requires
        key_lt(a, b),
        key_lt(b, c),
    ensures
        key_lt(a, c),
{
    if a.0 == b.0 && b.0 == c.0 {
        lemma_text_lt_transitive(a.1, b.1, c.1);
    }
}

proof fn lemma_key_lt_asymmetric(a: (int, Seq<char>), b: (int, Seq<char>))
    ensures
        !(key_lt(a, b) && key_lt(b, a)),
{
    lemma_text_lt_trichotomy(a.1, b.1);
}

/// Decides `keyed_lt(*a, *b)`.
pub fn keyed_less<T: Keyed>(a: &T, b: &T) -> (r: bool)
    ensures
        r == keyed_lt(*a, *b),
{
    let ra = a.rank();
    let rb = b.rank();
    if ra < rb {
        true
    } else if rb < ra {
        false
    } else {
        let ta = a.text_key();
        let tb = b.text_key();
        compare_text(&ta, &tb) == Comparison::Less
    }
}

/// The same elements, ordered by key; elements with equal keys keep their
/// order (a stable sort).
pub fn sort_by_key<T: Keyed>(items: Vec<T>) -> (r: Vec<T>)
    ensures
        r@.to_multiset() == items@.to_multiset(),
        sorted_by_key(r@),
        keeps_order_of_equals(r@, items@),
{
    let ghost orig = items@;
    let mut input = items;
    let mut out: Vec<T> = Vec::new();
    let ghost mut taken: int = 0;
    proof {
        assert(input@ =~= orig.skip(0));
        assert forall|k: (int, Seq<char>)| #[trigger] with_key(out@, k) == with_key(orig.take(0), k) by {
            assert(out@ =~= orig.take(0));
        }
    }
    while input.len() > 0
        invariant
            out@.to_multiset().add(input@.to_multiset()) == orig.to_multiset(),
            sorted_by_key(out@),
            0 <= taken <= orig.len(),
            input@ == orig.skip(taken),
            forall|k: (int, Seq<char>)| #[trigger] with_key(out@, k) == with_key(orig.take(taken), k),
        decreases input.len(),
    {
        let ghost before_in = input@;
        let x = input.remove(0);
        proof {
            assert(x == orig[taken]);
            assert(input@ =~= orig.skip(taken + 1));
        }
        assert(before_in.remove(0).to_multiset() == before_in.to_multiset().remove(x));
        let mut p: usize = 0;
        while p < out.len() && !keyed_less(&x, &out[p])
            invariant
                p <= out.len(),
                forall|k: int| 0 <= k < p ==> !keyed_lt(x, #[trigger] out@[k]),
            decreases out.len() - p,
        {
            p = p + 1;
        }
        let ghost before_out = out@;
        proof {
            assert forall|j: int| p <= j < before_out.len() implies key_lt(
                key_of(x),
                key_of(#[trigger] before_out[j]),
            ) by {
                if j > p {
                    lemma_key_lt_chain(key_of(x), key_of(before_out[p as int]), key_of(before_out[j]));
                }
            }
            assert forall|j: int| p <= j < before_out.len() implies !keyed_lt(
                #[trigger] before_out[j],
                x,
            ) by {
                lemma_key_lt_asymmetric(key_of(x), key_of(before_out[p as int]));
                if keyed_lt(before_out[j], x) {
                    lemma_key_lt_transitive(
                        key_of(before_out[j]),
                        key_of(x),
                        key_of(before_out[p as int]),
                    );
                }
            }
        }
        out.insert(p, x);
        proof {
            let s = out@;
            assert(s == before_out.insert(p as int, x));
            assert forall|i: int, j: int| 0 <= i < j < s.len() implies !keyed_lt(
                #[trigger] s[j],
                #[trigger] s[i],
            ) by {
                if j < p {
                } else if j == p {
                } else if i < p {
                    assert(s[j] == before_out[j - 1]);
                } else if i == p {
                    assert(s[j] == before_out[j - 1]);
                } else {
                    assert(s[j] == before_out[j - 1]);
                    assert(s[i] == before_out[i - 1]);
                }
            }
            assert(s.to_multiset() == before_out.to_multiset().insert(x));
            assert(orig.take(taken + 1) =~= orig.take(taken).push(x));
            assert forall|k: (int, Seq<char>)| #[trigger] with_key(s, k) == with_key(orig.take(taken + 1), k) by {
                lemma_with_key_insert(before_out, p as int, x, k);
                before_out.lemma_filter_push(x, has_key::<T>(k));
                orig.take(taken).lemma_filter_push(x, has_key::<T>(k));
                assert(with_key(before_out, k) == with_key(orig.take(taken), k));
                assert(with_key(s, k) == with_key(before_out.push(x), k));
            }
            taken = taken + 1;
        }
    }
    proof {
        assert(orig.take(taken) =~= orig);
    }
    out
}

} // verus!
