//! The entries the browser shows for a directory: sidecar files hidden,
//! folders first, then by name ignoring ASCII case; and the grid they fill.
use vstd::prelude::*;

use crate::path::{spec_extension, split_file_name};
use crate::sorting::{keeps_order_of_equals, sort_by_key, sorted_by_key, Keyed};
use crate::text::{ascii_lower_text, chars_of, compare_text, to_ascii_lower, Comparison};

verus! {

/// Extension of the metadata sidecar the engine keeps next to every asset.
pub const PHANTOM_ASSET_EXTENSION: &'static str = "passet";

/// One entry of a directory listing.
pub struct DirItem {
    pub name: String,
    pub is_dir: bool,
}

impl Keyed for DirItem {
    open spec fn key_rank(&self) -> int {
        if self.is_dir {
            0
        } else {
            1
        }
    }

    open spec fn key_text(&self) -> Seq<char> {
        ascii_lower_text(self.name@)
    }

    fn rank(&self) -> (r: u8) {
        if self.is_dir {
            0
        } else {
            1
        }
    }

    fn text_key(&self) -> (t: Vec<char>) {
        let s = chars_of(self.name.as_str());
        let mut t: Vec<char> = Vec::new();
        let mut i: usize = 0;
        while i < s.len()
            invariant
                i <= s.len(),
                t@ == ascii_lower_text(s@.take(i as int)),
            decreases s.len() - i,
        {
            t.push(to_ascii_lower(s[i]));
            i = i + 1;
            assert(t@ =~= ascii_lower_text(s@.take(i as int)));
        }
        assert(s@.take(s.len() as int) =~= s@);
        t
    }
}

/// A name whose extension marks an asset sidecar.
pub open spec fn is_sidecar_name(name: Seq<char>) -> bool {
    spec_extension(name) == Some("passet"@)
}

/// The listing entries the browser shows: all but the sidecars.
pub open spec fn is_shown(e: DirItem) -> bool {
    !is_sidecar_name(e.name@)
}

/// Whether `name` is a sidecar file name.
pub fn is_sidecar(name: &str) -> (r: bool)
    ensures
        r == is_sidecar_name(name@),
{
    proof {
        reveal_strlit("passet");
    }
    let (_, ext) = split_file_name(name);
    match ext {
        Some(e) => {
            let ev = chars_of(e.as_str());
            let sv = chars_of(PHANTOM_ASSET_EXTENSION);
            compare_text(&ev, &sv) == Comparison::Equal
        },
        None => false,
    }
}

/// The entries to show for a directory listing: every entry but the asset
/// sidecars, folders before files, each group ordered by name with ASCII
/// letters compared case-insensitively; entries with equal keys keep their
/// listing order.
pub fn visible_entries(listing: Vec<DirItem>) -> (r: Vec<DirItem>)
    ensures
        r@.to_multiset() == listing@.filter(|e: DirItem| is_shown(e)).to_multiset(),
        sorted_by_key(r@),
        keeps_order_of_equals(r@, listing@.filter(|e: DirItem| is_shown(e))),
{
    let ghost all = listing@;
    assert(all.len() == listing.len());
    let mut rest = listing;
    let mut kept: Vec<DirItem> = Vec::new();
    let ghost pred = |e: DirItem| is_shown(e);
    let mut taken: usize = 0;
    assert(rest@ =~= all.skip(0));
    while rest.len() > 0
        invariant
            taken <= all.len(),
            all.len() == taken + rest.len(),
            all.len() <= usize::MAX,
            pred == (|e: DirItem| is_shown(e)),
            rest@ == all.skip(taken as int),
            kept@ == all.take(taken as int).filter(pred),
        decreases rest.len(),
    {
        let e = rest.remove(0);
        proof {
            assert(e == all[taken as int]);
            assert(all.take(taken + 1) =~= all.take(taken as int).push(e));
            all.take(taken as int).lemma_filter_push(e, pred);
            assert(rest@ =~= all.skip(taken + 1));
        }
        let ghost before = kept@;
        let side = is_sidecar(e.name.as_str());
        assert(is_shown(e) == !side);
        assert(pred(e) == is_shown(e));
        if !side {
            kept.push(e);
            assert(kept@ == before.push(e));
        } else {
            assert(kept@ == before);
        }
        taken = taken + 1;
        assert(kept@ == all.take(taken as int).filter(pred));
    }
    assert(all.take(taken as int) =~= all);
    sort_by_key(kept)
}

/// Number of grid rows `entries` items fill with `columns` per row (std's
/// `usize::div_ceil`; a zero column count would divide by zero).
pub fn grid_rows(entries: usize, columns: usize) -> (r: usize)
    requires
        columns > 0,
    ensures
        r * columns >= entries,
        r == 0 || (r - 1) * columns < entries,
{
    let q = entries / columns;
    let r = if entries % columns == 0 {
        q
    } else {
        assert(q < usize::MAX) by (nonlinear_arith)
            requires
                q == entries / columns,
                entries % columns != 0,
                columns > 0,
                entries <= usize::MAX,
        ;
        q + 1
    };
    proof {
        assert(q * columns + entries % columns == entries) by (nonlinear_arith)
            requires
                q == entries / columns,
                columns > 0,
        ;
        assert(r * columns >= entries) by (nonlinear_arith)
            requires
                q * columns + entries % columns == entries,
                r == q || r == q + 1,
                r == q ==> entries % columns == 0,
                entries % columns < columns,
        ;
        if r > 0 {
            assert((r - 1) * columns < entries) by (nonlinear_arith)
                requires
                    q * columns + entries % columns == entries,
                    r == q || r == q + 1,
                    r == q ==> entries % columns == 0,
                    r == q + 1 ==> entries % columns > 0,
                    r > 0,
                    columns > 0,
            ;
        }
    }
    r
}

} // verus!

verus! {

/// In the browser's order every folder comes before every file.
pub proof fn lemma_folders_before_files(s: Seq<DirItem>, i: int, j: int)
    requires
        sorted_by_key(s),
        0 <= i < s.len(),
        0 <= j < s.len(),
        s[i].is_dir,
        !s[j].is_dir,
    ensures
        i < j,
{
    if j < i {
        assert(!crate::sorting::keyed_lt(s[i], s[j]));
    }
}

} // verus!
