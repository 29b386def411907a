//! Detection of hotkey slots that share one chord.
use vstd::prelude::*;
use crate::config::{Hotkeys, KeyChord};

verus! {

/// What `str::to_lowercase` returns for a text.
pub uninterp spec fn lower_of(s: Seq<char>) -> Seq<char>;

/// Relies on `str::to_lowercase`: its result depends on the characters alone.
#[verifier::external_body]
fn lowercase(s: &str) -> (r: String)
    ensures
        r@ == lower_of(s@),
{
    s.to_lowercase()
}

/// A chord in the form used for comparison: modifiers as they are, key lowercased.
#[derive(Clone, Debug)]
pub struct NormChord {
    pub ctrl: bool,
    pub alt: bool,
    pub shift: bool,
    pub key: String,
}

impl View for NormChord {
    type V = (bool, bool, bool, Seq<char>);

    open spec fn view(&self) -> (bool, bool, bool, Seq<char>) {
        (self.ctrl, self.alt, self.shift, self.key@)
    }
}

/// The comparison form of a chord.
pub open spec fn norm_of(c: KeyChord) -> (bool, bool, bool, Seq<char>) {
    (c.ctrl, c.alt, c.shift, lower_of(c.key@))
}

/// The four chords, in slot order.
pub open spec fn chords_of(h: Hotkeys) -> Seq<KeyChord> {
    seq![h.edit_title, h.edit_description, h.toggle_overlay, h.snap_position]
}

/// Two distinct positions of `s` hold equal values.
pub open spec fn has_equal_pair<T>(s: Seq<T>) -> bool {
    exists|i: int, j: int| 0 <= i < j < s.len() && s[i] == s[j]
}

/// Two of the four slots normalize to the same chord.
pub open spec fn hotkeys_collide(h: Hotkeys) -> bool {
    has_equal_pair(chords_of(h).map_values(|c: KeyChord| norm_of(c)))
}

/// The comparison form of `c`.
pub fn normalize(c: &KeyChord) -> (r: NormChord)
    ensures
        r@ == norm_of(*c),
{
    NormChord { ctrl: c.ctrl, alt: c.alt, shift: c.shift, key: lowercase(c.key.as_str()) }
}

/// Whether two normalized chords are the same.
pub fn same_chord(a: &NormChord, b: &NormChord) -> (r: bool)
    ensures
        r == (a@ == b@),
{
    a.ctrl == b.ctrl && a.alt == b.alt && a.shift == b.shift && a.key == b.key
}

/// Whether two of the given normalized chords are the same.
pub fn any_equal(ns: &Vec<NormChord>) -> (r: bool)
    ensures
        r == has_equal_pair(ns@.map_values(|n: NormChord| n@)),
{
    let ghost vs = ns@.map_values(|n: NormChord| n@);
    let mut i: usize = 0;
    while i < ns.len()
        invariant
            vs == ns@.map_values(|n: NormChord| n@),
            i <= ns.len(),
            forall|a: int, b: int| 0 <= a < b < vs.len() && a < i ==> vs[a] != vs[b],
        decreases ns.len() - i,
    {
        let mut j: usize = i + 1;
        while j < ns.len()
            invariant
                vs == ns@.map_values(|n: NormChord| n@),
                i < j <= ns.len(),
                i < ns.len(),
                forall|a: int, b: int| 0 <= a < b < vs.len() && a < i ==> vs[a] != vs[b],
                forall|b: int| i < b < j ==> vs[i as int] != vs[b],
            decreases ns.len() - j,
        {
            if same_chord(&ns[i], &ns[j]) {
                assert(vs[i as int] == vs[j as int]);
                return true;
            }
            j = j + 1;
        }
        i = i + 1;
    }
    false
}

/// Whether two of the four hotkey slots share a chord, comparing modifiers
/// exactly and keys without regard to case.
pub fn has_duplicates(hotkeys: &Hotkeys) -> (r: bool)
    ensures
        r == hotkeys_collide(*hotkeys),
{
    let mut ns: Vec<NormChord> = Vec::new();
    ns.push(normalize(&hotkeys.edit_title));
    ns.push(normalize(&hotkeys.edit_description));
    ns.push(normalize(&hotkeys.toggle_overlay));
    ns.push(normalize(&hotkeys.snap_position));
    let r = any_equal(&ns);
    assert(ns@.map_values(|n: NormChord| n@) =~= chords_of(*hotkeys).map_values(
        |c: KeyChord| norm_of(c),
    ));
    r
}

/// Four chords that are pairwise distinct after normalization do not collide,
/// and any two slots that normalize alike make the set collide.
pub proof fn lemma_collision_exact(h: Hotkeys)
    ensures
        hotkeys_collide(h) <==> exists|i: int, j: int|
            0 <= i < j < 4 && norm_of(chords_of(h)[i]) == norm_of(chords_of(h)[j]),
{
    let ns = chords_of(h).map_values(|c: KeyChord| norm_of(c));
    assert(ns.len() == 4);
    assert forall|i: int| 0 <= i < 4 implies ns[i] == norm_of(#[trigger] chords_of(h)[i]) by {}
}

} // verus!
