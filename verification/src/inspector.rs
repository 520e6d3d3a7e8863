//! The inspector's ordering of an entity's components, which of them can be
//! removed or added, and the editing of an animator's clip list.
use vstd::prelude::*;

use crate::sorting::{keeps_order_of_equals, sort_by_key, sorted_by_key, Keyed};
use crate::text::{chars_of, string_from_chars, text_eq};

verus! {

broadcast use vstd::seq_lib::group_to_multiset_ensures;

/// A component of the selected entity: its type name and its fields.
pub struct ComponentEntry<T> {
    pub name: String,
    pub fields: T,
}

/// Place of a component in the inspector: `Transform` first, `Name` second,
/// every other component after them.
pub open spec fn component_rank(name: Seq<char>) -> int {
    if name == "Transform"@ {
        0
    } else if name == "Name"@ {
        1
    } else {
        2
    }
}

impl<T> Keyed for ComponentEntry<T> {
    open spec fn key_rank(&self) -> int {
        component_rank(self.name@)
    }

    open spec fn key_text(&self) -> Seq<char> {
        self.name@
    }

    fn rank(&self) -> (r: u8) {
        if text_eq(self.name.as_str(), "Transform") {
            0
        } else if text_eq(self.name.as_str(), "Name") {
            1
        } else {
            2
        }
    }

    fn text_key(&self) -> (t: Vec<char>) {
        chars_of(self.name.as_str())
    }
}

/// The components in the order the inspector lists them: `Transform`, then
/// `Name`, then the others by name; components with equal keys keep their
/// order.
pub fn order_components<T>(components: Vec<ComponentEntry<T>>) -> (r: Vec<ComponentEntry<T>>)
    ensures
        r@.to_multiset() == components@.to_multiset(),
        sorted_by_key(r@),
        keeps_order_of_equals(r@, components@),
{
    sort_by_key(components)
}

/// Whether a component can be removed from its entity: every one but
/// `Transform` and `Name`.
pub fn is_removable(name: &str) -> (r: bool)
    ensures
        r == (component_rank(name@) == 2),
{
    !text_eq(name, "Transform") && !text_eq(name, "Name")
}

/// The registered components offered by "ADD COMPONENT": all but
/// `Transform` and `Name`, in registration order.
pub fn addable_components(registered: Vec<String>) -> (r: Vec<String>)
    ensures
        r@ == registered@.filter(|n: String| component_rank(n@) == 2),
{
    let ghost all = registered@;
    let ghost pred = |n: String| component_rank(n@) == 2;
    let mut out: Vec<String> = Vec::new();
    let mut i: usize = 0;
    while i < registered.len()
        invariant
            i <= registered@.len(),
            all == registered@,
            pred == (|n: String| component_rank(n@) == 2),
            out@ == all.take(i as int).filter(pred),
        decreases registered.len() - i,
    {
        let n = registered[i].clone();
        proof {
            assert(all.take(i + 1) =~= all.take(i as int).push(all[i as int]));
            all.take(i as int).lemma_filter_push(all[i as int], pred);
        }
        if is_removable(n.as_str()) {
            out.push(n);
        }
        i = i + 1;
    }
    assert(all.take(i as int) =~= all);
    out
}

/// Which editor the inspector draws for a component.
#[derive(PartialEq, Eq, Structural, Debug, Clone, Copy)]
pub enum ComponentEditor {
    /// The animator's clip editor.
    Animator,
    /// A note that the component exposes no field.
    NoFields,
    /// One widget per exposed field.
    Fields,
}

/// The editor for the component `name` with `field_count` exposed fields.
pub fn component_editor(name: &str, field_count: usize) -> (r: ComponentEditor)
    ensures
        name@ == "Animator"@ ==> r == ComponentEditor::Animator,
        name@ != "Animator"@ && field_count == 0 ==> r == ComponentEditor::NoFields,
        name@ != "Animator"@ && field_count > 0 ==> r == ComponentEditor::Fields,
{
    if text_eq(name, "Animator") {
        ComponentEditor::Animator
    } else if field_count == 0 {
        ComponentEditor::NoFields
    } else {
        ComponentEditor::Fields
    }
}

/// Largest clip index for `clip_count` clips (0 when there is none).
pub open spec fn last_clip(clip_count: nat) -> nat {
    if clip_count == 0 {
        0
    } else {
        (clip_count - 1) as nat
    }
}

/// Removes the clip column entry at `index` when there is one; the animator
/// keeps one such column per clip property.
pub fn remove_clip_column<T>(column: &mut Vec<T>, index: usize)
    ensures
        index < old(column)@.len() ==> final(column)@ == old(column)@.remove(index as int),
        index >= old(column)@.len() ==> final(column)@ == old(column)@,
{
    if index < column.len() {
        let _ = column.remove(index);
    }
}

/// `s` without its element at `i`, or `s` itself when there is none.
pub open spec fn removed_at<T>(s: Seq<T>, i: int) -> Seq<T> {
    if 0 <= i < s.len() {
        s.remove(i)
    } else {
        s
    }
}

/// The clips of an animator, one column per clip property: the sprite, the
/// frame width and height, the number of frames, the frame rate and whether
/// the clip loops. Clip `i` is made of the `i`-th entry of every column.
pub struct AnimatorClips<S, F> {
    pub sprite_ids: Vec<S>,
    pub frame_widths: Vec<u32>,
    pub frame_heights: Vec<u32>,
    pub frame_counts: Vec<u32>,
    pub fps: Vec<F>,
    pub looping: Vec<bool>,
}

impl<S, F> AnimatorClips<S, F> {
    /// The number of clips: the length of the sprite column.
    pub open spec fn clip_count(&self) -> nat {
        self.sprite_ids@.len()
    }

    /// Every column holds one entry per clip.
    pub open spec fn aligned(&self) -> bool {
        &&& self.frame_widths@.len() == self.clip_count()
        &&& self.frame_heights@.len() == self.clip_count()
        &&& self.frame_counts@.len() == self.clip_count()
        &&& self.fps@.len() == self.clip_count()
        &&& self.looping@.len() == self.clip_count()
    }

    /// "+ Add Clip": appends a clip with the sprite `nil_sprite`, frames of
    /// size 0 by 0, one frame, the frame rate `default_fps`, looping. Aligned
    /// columns stay aligned, with one clip more.
    pub fn add_clip(&mut self, nil_sprite: S, default_fps: F)
        ensures
            final(self).sprite_ids@ == old(self).sprite_ids@.push(nil_sprite),
            final(self).frame_widths@ == old(self).frame_widths@.push(0),
            final(self).frame_heights@ == old(self).frame_heights@.push(0),
            final(self).frame_counts@ == old(self).frame_counts@.push(1),
            final(self).fps@ == old(self).fps@.push(default_fps),
            final(self).looping@ == old(self).looping@.push(true),
            old(self).aligned() ==> final(self).aligned() && final(self).clip_count()
                == old(self).clip_count() + 1,
    {
        self.sprite_ids.push(nil_sprite);
        self.frame_widths.push(0);
        self.frame_heights.push(0);
        self.frame_counts.push(1);
        self.fps.push(default_fps);
        self.looping.push(true);
    }

    /// A clip's remove button: drops the entry at `index` from every column
    /// that has one. The other clips keep their order, and aligned columns
    /// stay aligned, with one clip fewer when `index` named a clip.
    pub fn remove_clip(&mut self, index: usize)
        ensures
            final(self).sprite_ids@ == removed_at(old(self).sprite_ids@, index as int),
            final(self).frame_widths@ == removed_at(old(self).frame_widths@, index as int),
            final(self).frame_heights@ == removed_at(old(self).frame_heights@, index as int),
            final(self).frame_counts@ == removed_at(old(self).frame_counts@, index as int),
            final(self).fps@ == removed_at(old(self).fps@, index as int),
            final(self).looping@ == removed_at(old(self).looping@, index as int),
            old(self).aligned() ==> final(self).aligned() && final(self).clip_count() == if index
                < old(self).clip_count() {
                old(self).clip_count() - 1
            } else {
                old(self).clip_count() as int
            },
    {
        remove_clip_column(&mut self.sprite_ids, index);
        remove_clip_column(&mut self.frame_widths, index);
        remove_clip_column(&mut self.frame_heights, index);
        remove_clip_column(&mut self.frame_counts, index);
        remove_clip_column(&mut self.fps, index);
        remove_clip_column(&mut self.looping, index);
    }
}

/// The current clip after an edit: the chosen one, clamped to the last
/// clip; and whether playback restarts from the first frame, which it does
/// when the current clip changed.
pub fn select_clip(chosen: usize, previous: usize, clip_count: usize) -> (r: (usize, bool))
    ensures
        r.0 == if chosen <= last_clip(clip_count as nat) {
            chosen as nat
        } else {
            last_clip(clip_count as nat)
        },
        r.1 == (r.0 != previous),
{
    let last = if clip_count == 0 {
        0
    } else {
        clip_count - 1
    };
    let current = if chosen <= last {
        chosen
    } else {
        last
    };
    (current, current != previous)
}

/// Ordering puts `Transform` before every other component, and `Name`
/// before every component but `Transform`.
pub proof fn lemma_transform_and_name_first<T>(s: Seq<ComponentEntry<T>>, i: int, j: int)
    requires
        sorted_by_key(s),
        0 <= i < s.len(),
        0 <= j < s.len(),
        s[i].name@ == "Transform"@ || (s[i].name@ == "Name"@ && s[j].name@ != "Transform"@),
        s[j].name@ != s[i].name@,
    ensures
        i < j,
{
    if j < i {
        assert(!crate::sorting::keyed_lt(s[i], s[j]));
        if s[i].name@ == "Transform"@ {
            assert(component_rank(s[i].name@) == 0);
            assert(component_rank(s[j].name@) >= 1);
        } else {
            assert(component_rank(s[i].name@) == 1);
            assert(component_rank(s[j].name@) == 2);
        }
    }
}

} // verus!

verus! {

/// The lower-case hexadecimal digit for `d < 16`.
pub open spec fn hex_digit(d: int) -> char {
    seq!['0', '1', '2', '3', '4', '5', '6', '7', '8', '9', 'a', 'b', 'c', 'd', 'e', 'f'][d]
}

/// The last `n` hexadecimal digits of `v`, most significant first.
pub open spec fn hex_digits(v: nat, n: nat) -> Seq<char>
    decreases n,
{
    if n == 0 {
        Seq::empty()
    } else {
        hex_digits(v / 16, (n - 1) as nat).push(hex_digit((v % 16) as int))
    }
}

/// The hyphenated form of the UUID whose 128-bit big-endian value is `id`:
/// its 32 lower-case hexadecimal digits grouped 8-4-4-4-12.
pub open spec fn uuid_text(id: u128) -> Seq<char> {
    let h = hex_digits(id as nat, 32);
    h.subrange(0, 8) + seq!['-'] + h.subrange(8, 12) + seq!['-'] + h.subrange(12, 16) + seq!['-']
        + h.subrange(16, 20) + seq!['-'] + h.subrange(20, 32)
}

proof fn lemma_hex_digits_len(v: nat, n: nat)
    ensures
        hex_digits(v, n).len() == n,
    decreases n,
{
    if n > 0 {
        lemma_hex_digits_len(v / 16, (n - 1) as nat);
    }
}

/// `uuid::Uuid::from_u128(id).to_string()`. The contract claims what the
/// crate's source shows: `from_u128` takes `id` as the big-endian value of
/// the UUID, and its `Display` writes the hyphenated lower-case form.
#[verifier::external_body]
fn uuid_string(id: u128) -> (r: String)
    ensures
        r@ == uuid_text(id),
{
    uuid::Uuid::from_u128(id).to_string()
}

/// The label of a sprite field: `None (Sprite)` for the nil id, else the
/// file stem of the sprite's asset when the asset manager knows it, else
/// `Sprite ` and the first eight digits of the id.
pub open spec fn sprite_label_spec(id: u128, asset_stem: Option<Seq<char>>) -> Seq<char> {
    if id == 0 {
        "None (Sprite)"@
    } else {
        match asset_stem {
            Some(s) => s,
            None => "Sprite "@ + uuid_text(id).take(8),
        }
    }
}

/// The label of a sprite field (the sprite's id is `id`, 0 being nil).
pub fn sprite_label(id: u128, asset_stem: Option<String>) -> (r: String)
    ensures
        r@ == sprite_label_spec(
            id,
            match asset_stem {
                Some(s) => Some(s@),
                None => None,
            },
        ),
{
    if id == 0 {
        return String::from_str("None (Sprite)");
    }
    match asset_stem {
        Some(s) => s,
        None => {
            let text = chars_of(uuid_string(id).as_str());
            proof {
                lemma_hex_digits_len(id as nat, 32);
                assert(text@.len() == 36);
            }
            let mut v = chars_of("Sprite ");
            let ghost base = v@;
            let mut i: usize = 0;
            while i < 8
                invariant
                    i <= 8,
                    text@.len() == 36,
                    v@ == base + text@.take(i as int),
                decreases 8 - i,
            {
                v.push(text[i]);
                i = i + 1;
                assert(v@ =~= base + text@.take(i as int));
            }
            string_from_chars(&v)
        },
    }
}

/// The label of an animator clip's sprite: `None (Sprite)` for the nil id,
/// else the file stem of the sprite's asset, else `Unknown`.
pub fn clip_sprite_label(id: u128, asset_stem: Option<String>) -> (r: String)
    ensures
        id == 0 ==> r@ == "None (Sprite)"@,
        id != 0 ==> match asset_stem {
            Some(s) => r@ == s@,
            None => r@ == "Unknown"@,
        },
{
    if id == 0 {
        return String::from_str("None (Sprite)");
    }
    match asset_stem {
        Some(s) => s,
        None => String::from_str("Unknown"),
    }
}

} // verus!
