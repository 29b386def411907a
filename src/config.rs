//! The persisted configuration document: desktop labels, hotkeys and
//! appearance, with the schema migration applied on load.
use vstd::prelude::*;

verus! {

/// The schema version stamped by migration.
pub const CURRENT_VERSION: u32 = 1;

/// A user-defined title and description for one virtual desktop.
#[derive(Clone, Debug)]
pub struct DesktopLabel {
    pub title: String,
    pub description: String,
}

impl View for DesktopLabel {
    type V = (Seq<char>, Seq<char>);

    open spec fn view(&self) -> (Seq<char>, Seq<char>) {
        (self.title@, self.description@)
    }
}

impl DesktopLabel {
    /// A label with an empty title and an empty description.
    pub fn empty() -> (r: DesktopLabel)
        ensures
            r@ == (Seq::<char>::empty(), Seq::<char>::empty()),
    {
        DesktopLabel { title: String::new(), description: String::new() }
    }

    /// A copy of the label with the same title and description.
    pub fn duplicate(&self) -> (r: DesktopLabel)
        ensures
            r@ == self@,
    {
        DesktopLabel { title: self.title.clone(), description: self.description.clone() }
    }
}

impl Default for DesktopLabel {
    fn default() -> (r: DesktopLabel)
        ensures
            r@ == (Seq::<char>::empty(), Seq::<char>::empty()),
    {
        DesktopLabel::empty()
    }
}

/// The model of an entry list: each key maps to the label of its last entry.
pub open spec fn map_of(s: Seq<(Seq<char>, (Seq<char>, Seq<char>))>) -> Map<
    Seq<char>,
    (Seq<char>, Seq<char>),
>
    decreases s.len(),
{
    if s.len() == 0 {
        Map::empty()
    } else {
        map_of(s.drop_last()).insert(s.last().0, s.last().1)
    }
}

/// `i` is the last index of `s` whose entry has key `k`.
pub open spec fn last_index_of(s: Seq<(Seq<char>, (Seq<char>, Seq<char>))>, k: Seq<char>, i: int) -> bool {
    &&& 0 <= i < s.len()
    &&& s[i].0 == k
    &&& forall|j: int| i < j < s.len() ==> s[j].0 != k
}

proof fn lemma_map_of_absent(s: Seq<(Seq<char>, (Seq<char>, Seq<char>))>, k: Seq<char>)
    requires
        forall|j: int| 0 <= j < s.len() ==> s[j].0 != k,
    ensures
        !map_of(s).contains_key(k),
    decreases s.len(),
{
    if s.len() > 0 {
        lemma_map_of_absent(s.drop_last(), k);
    }
}

proof fn lemma_map_of_last(s: Seq<(Seq<char>, (Seq<char>, Seq<char>))>, k: Seq<char>, i: int)
    requires
        last_index_of(s, k, i),
    ensures
        map_of(s).contains_key(k),
        map_of(s)[k] == s[i].1,
    decreases s.len(),
{
    if i < s.len() - 1 {
        lemma_map_of_last(s.drop_last(), k, i);
    }
}

/// Every key of an entry is a key of the model.
pub proof fn lemma_map_of_has(s: Seq<(Seq<char>, (Seq<char>, Seq<char>))>, i: int)
    requires
        0 <= i < s.len(),
    ensures
        map_of(s).contains_key(s[i].0),
    decreases s.len(),
{
    if i < s.len() - 1 {
        lemma_map_of_has(s.drop_last(), i);
    }
}

proof fn lemma_map_of_update(
    s: Seq<(Seq<char>, (Seq<char>, Seq<char>))>,
    k: Seq<char>,
    i: int,
    v: (Seq<char>, Seq<char>),
)
    requires
        last_index_of(s, k, i),
    ensures
        map_of(s.update(i, (k, v))) =~= map_of(s).insert(k, v),
    decreases s.len(),
{
    let t = s.update(i, (k, v));
    if i == s.len() - 1 {
        assert(t.drop_last() =~= s.drop_last());
    } else {
        assert(t.drop_last() =~= s.drop_last().update(i, (k, v)));
        lemma_map_of_update(s.drop_last(), k, i, v);
    }
}

/// No two entries of `s` have the same key.
pub open spec fn keys_distinct(s: Seq<(Seq<char>, (Seq<char>, Seq<char>))>) -> bool {
    forall|i: int, j: int| 0 <= i < j < s.len() ==> s[i].0 != s[j].0
}

proof fn lemma_map_of_len(s: Seq<(Seq<char>, (Seq<char>, Seq<char>))>)
    requires
        keys_distinct(s),
    ensures
        map_of(s).dom().finite(),
        map_of(s).dom().len() == s.len(),
    decreases s.len(),
{
    if s.len() > 0 {
        let t = s.drop_last();
        assert(keys_distinct(t));
        lemma_map_of_len(t);
        lemma_map_of_absent(t, s.last().0);
    }
}

/// Labels keyed by text: by desktop key in the configuration, by GUID in a listing.
#[derive(Clone, Debug)]
pub struct LabelMap {
    items: Vec<(String, DesktopLabel)>,
}

impl View for LabelMap {
    type V = Map<Seq<char>, (Seq<char>, Seq<char>)>;

    open spec fn view(&self) -> Map<Seq<char>, (Seq<char>, Seq<char>)> {
        map_of(self.entries())
    }
}

impl LabelMap {
    /// Every key is held by one entry only.
    pub open spec fn wf(&self) -> bool {
        keys_distinct(self.entries())
    }

    /// The entries in the order they are held.
    pub closed spec fn entries(&self) -> Seq<(Seq<char>, (Seq<char>, Seq<char>))> {
        self.items@.map_values(|e: (String, DesktopLabel)| (e.0@, e.1@))
    }

    /// A map with no desktops.
    pub fn new() -> (r: LabelMap)
        ensures
            r.entries() == Seq::<(Seq<char>, (Seq<char>, Seq<char>))>::empty(),
            r@ == Map::<Seq<char>, (Seq<char>, Seq<char>)>::empty(),
            r.wf(),
    {
        let r = LabelMap { items: Vec::new() };
        assert(r.entries() =~= Seq::<(Seq<char>, (Seq<char>, Seq<char>))>::empty());
        r
    }

    /// The number of entries held, which is the number of keys.
    pub fn len(&self) -> (r: usize)
        ensures
            r == self.entries().len(),
            self.wf() ==> r == self@.dom().len(),
    {
        proof {
            if self.wf() {
                lemma_map_of_len(self.entries());
            }
        }
        self.items.len()
    }

    /// Whether no desktop has a label.
    pub fn is_empty(&self) -> (r: bool)
        ensures
            r == (self.entries().len() == 0),
            r == (self@ == Map::<Seq<char>, (Seq<char>, Seq<char>)>::empty()),
    {
        if self.items.len() == 0 {
            assert(self.entries().len() == 0);
            assert(self@ =~= Map::<Seq<char>, (Seq<char>, Seq<char>)>::empty());
            true
        } else {
            let ghost s = self.entries();
            proof {
                let k = s.last().0;
                assert(last_index_of(s, k, s.len() - 1));
                lemma_map_of_last(s, k, s.len() - 1);
                assert(self@.contains_key(k));
            }
            false
        }
    }

    /// The key of the entry at index `i`.
    pub fn key_at(&self, i: usize) -> (r: &String)
        requires
            i < self.entries().len(),
        ensures
            r@ == self.entries()[i as int].0,
    {
        &self.items[i].0
    }

    /// The label of the entry at index `i`.
    pub fn label_at(&self, i: usize) -> (r: &DesktopLabel)
        requires
            i < self.entries().len(),
        ensures
            r@ == self.entries()[i as int].1,
    {
        &self.items[i].1
    }

    /// The index of the last entry with key `k`.
    fn last_index(&self, k: &String) -> (r: Option<usize>)
        ensures
            r matches Some(i) ==> last_index_of(self.entries(), k@, i as int),
            r is None ==> forall|j: int|
                0 <= j < self.entries().len() ==> self.entries()[j].0 != k@,
    {
        let mut i: usize = self.items.len();
        while i > 0
            invariant
                i <= self.items.len(),
                self.entries().len() == self.items.len(),
                forall|j: int| i <= j < self.entries().len() ==> self.entries()[j].0 != k@,
            decreases i,
        {
            i = i - 1;
            if self.items[i].0 == *k {
                return Some(i);
            }
        }
        None
    }

    /// The label stored under `key`, if any.
    pub fn get(&self, key: &str) -> (r: Option<&DesktopLabel>)
        ensures
            r matches Some(l) ==> self@.contains_key(key@) && self@[key@] == l@,
            r is None ==> !self@.contains_key(key@),
    {
        let k = key.to_owned();
        match self.last_index(&k) {
            Some(i) => {
                proof {
                    lemma_map_of_last(self.entries(), k@, i as int);
                }
                Some(&self.items[i].1)
            },
            None => {
                proof {
                    lemma_map_of_absent(self.entries(), k@);
                }
                None
            },
        }
    }

    /// Whether a label is stored under `key`.
    pub fn contains_key(&self, key: &str) -> (r: bool)
        ensures
            r == self@.contains_key(key@),
    {
        self.get(key).is_some()
    }

    /// Stores `label` under `key`, replacing any label held there.
    pub fn insert(&mut self, key: String, label: DesktopLabel)
        ensures
            final(self)@ == old(self)@.insert(key@, label@),
            old(self).wf() ==> final(self).wf(),
    {
        let ghost s = self.entries();
        match self.last_index(&key) {
            Some(i) => {
                let ghost kv = (key@, label@);
                self.items.set(i, (key, label));
                proof {
                    assert(self.entries() =~= s.update(i as int, kv));
                    lemma_map_of_update(s, kv.0, i as int, kv.1);
                }
            },
            None => {
                let ghost kv = (key@, label@);
                self.items.push((key, label));
                proof {
                    assert(self.entries() =~= s.push(kv));
                    assert(self.entries().drop_last() =~= s);
                }
            },
        }
    }
}

/// A keyboard shortcut: modifier flags and a base key.
#[derive(Clone, Debug)]
pub struct KeyChord {
    pub ctrl: bool,
    pub alt: bool,
    pub shift: bool,
    pub key: String,
}

impl KeyChord {
    /// Ctrl+Alt plus the given key, without Shift.
    pub fn ctrl_alt(key: &str) -> (r: KeyChord)
        ensures
            r.ctrl && r.alt && !r.shift,
            r.key@ == key@,
    {
        KeyChord { ctrl: true, alt: true, shift: false, key: key.to_owned() }
    }
}

/// The four hotkey slots.
#[derive(Clone, Debug)]
pub struct Hotkeys {
    pub edit_title: KeyChord,
    pub edit_description: KeyChord,
    pub toggle_overlay: KeyChord,
    pub snap_position: KeyChord,
}

/// A chord with Ctrl+Alt, no Shift, and the one-character key `c`.
pub open spec fn is_default_chord(k: KeyChord, c: char) -> bool {
    k.ctrl && k.alt && !k.shift && k.key@ == seq![c]
}

impl Default for Hotkeys {
    fn default() -> (r: Hotkeys)
        ensures
            is_default_chord(r.edit_title, 'T'),
            is_default_chord(r.edit_description, 'D'),
            is_default_chord(r.toggle_overlay, 'O'),
            is_default_chord(r.snap_position, 'L'),
    {
        proof {
            reveal_strlit("T");
            reveal_strlit("D");
            reveal_strlit("O");
            reveal_strlit("L");
        }
        let r = Hotkeys {
            edit_title: KeyChord::ctrl_alt("T"),
            edit_description: KeyChord::ctrl_alt("D"),
            toggle_overlay: KeyChord::ctrl_alt("O"),
            snap_position: KeyChord::ctrl_alt("L"),
        };
        assert(r.edit_title.key@ =~= seq!['T']);
        assert(r.edit_description.key@ =~= seq!['D']);
        assert(r.toggle_overlay.key@ =~= seq!['O']);
        assert(r.snap_position.key@ =~= seq!['L']);
        r
    }
}

/// Display settings of the overlay.
#[derive(Clone, Debug)]
pub struct Appearance {
    pub font_family: String,
    pub font_size_dip: u32,
    pub margin_px: u32,
    pub hide_on_fullscreen: bool,
}

/// The name of the default font family.
pub open spec fn default_font() -> Seq<char> {
    seq!['S', 'e', 'g', 'o', 'e', ' ', 'U', 'I']
}

impl Default for Appearance {
    fn default() -> (r: Appearance)
        ensures
            r.font_family@ == default_font(),
            r.font_size_dip == 16,
            r.margin_px == 8,
            !r.hide_on_fullscreen,
    {
        proof {
            reveal_strlit("Segoe UI");
        }
        let r = Appearance {
            font_family: "Segoe UI".to_owned(),
            font_size_dip: 16,
            margin_px: 8,
            hide_on_fullscreen: false,
        };
        assert(r.font_family@ =~= default_font());
        r
    }
}

/// The whole persisted document.
#[derive(Clone, Debug)]
pub struct Config {
    /// The schema version; absent on a document that was never migrated.
    pub version: Option<u32>,
    pub desktops: LabelMap,
    pub hotkeys: Hotkeys,
    pub appearance: Appearance,
}

/// The freshly made document: no version, no desktops, default hotkeys and appearance.
pub open spec fn is_default_config(c: Config) -> bool {
    &&& c.version is None
    &&& c.desktops.entries().len() == 0
    &&& is_default_chord(c.hotkeys.edit_title, 'T')
    &&& is_default_chord(c.hotkeys.edit_description, 'D')
    &&& is_default_chord(c.hotkeys.toggle_overlay, 'O')
    &&& is_default_chord(c.hotkeys.snap_position, 'L')
    &&& c.appearance.font_family@ == default_font()
    &&& c.appearance.font_size_dip == 16
    &&& c.appearance.margin_px == 8
    &&& !c.appearance.hide_on_fullscreen
}

impl Default for Config {
    fn default() -> (r: Config)
        ensures
            is_default_config(r),
            r.desktops@ == Map::<Seq<char>, (Seq<char>, Seq<char>)>::empty(),
            r.desktops.wf(),
    {
        Config {
            version: None,
            desktops: LabelMap::new(),
            hotkeys: Hotkeys::default(),
            appearance: Appearance::default(),
        }
    }
}

/// A legacy document (no version) whose snap-position key is still the old default `S`.
pub open spec fn needs_migration(c: Config) -> bool {
    c.version is None && c.hotkeys.snap_position.key@ == seq!['S']
}

/// `r` is what migrating `c` gives, and `did` tells whether anything was rewritten:
/// a document that needs migration gets the snap-position key `L` and the current
/// version, all else kept; any other document is kept whole.
pub open spec fn migrated_from(r: Config, c: Config, did: bool) -> bool {
    &&& did == needs_migration(c)
    &&& if did {
        &&& r.version == Some(CURRENT_VERSION)
        &&& r.hotkeys.snap_position.key@ == seq!['L']
        &&& r.hotkeys.snap_position.ctrl == c.hotkeys.snap_position.ctrl
        &&& r.hotkeys.snap_position.alt == c.hotkeys.snap_position.alt
        &&& r.hotkeys.snap_position.shift == c.hotkeys.snap_position.shift
        &&& r.hotkeys.edit_title == c.hotkeys.edit_title
        &&& r.hotkeys.edit_description == c.hotkeys.edit_description
        &&& r.hotkeys.toggle_overlay == c.hotkeys.toggle_overlay
        &&& r.desktops == c.desktops
        &&& r.appearance == c.appearance
    } else {
        r == c
    }
}

impl Config {
    /// Applies the schema migration in place and reports whether it rewrote anything.
    pub fn migrate(&mut self) -> (did: bool)
        ensures
            migrated_from(*final(self), *old(self), did),
    {
        let legacy = self.version.is_none();
        let k = self.hotkeys.snap_position.key.as_str();
        let is_s = k.unicode_len() == 1 && k.get_char(0) == 'S';
        proof {
            if is_s {
                assert(k@ =~= seq!['S']);
            }
        }
        if legacy && is_s {
            let l = "L".to_owned();
            proof {
                reveal_strlit("L");
                assert(l@ =~= seq!['L']);
            }
            self.hotkeys.snap_position.key = l;
            self.version = Some(CURRENT_VERSION);
            true
        } else {
            false
        }
    }
}

/// Settles what was read from storage into the document to use: a fresh default
/// when nothing was stored, else the stored document after migration, with
/// whether migration rewrote it.
pub fn from_stored(stored: Option<Config>) -> (r: (Config, bool))
    ensures
        stored is None ==> is_default_config(r.0) && !r.1,
        stored matches Some(c) ==> migrated_from(r.0, c, r.1),
{
    match stored {
        None => (Config::default(), false),
        Some(c) => {
            let mut c = c;
            let did = c.migrate();
            (c, did)
        },
    }
}

/// Reading back a stored document that needs no migration gives that document unchanged.
pub proof fn lemma_stored_round_trip(c: Config, r: Config, did: bool)
    requires
        !needs_migration(c),
        migrated_from(r, c, did),
    ensures
        r == c,
        !did,
{
}

/// Migrating twice rewrites nothing the second time: a migrated document keeps
/// its version and its snap-position key.
pub proof fn lemma_migration_settles(c: Config, r: Config, did: bool)
    requires
        migrated_from(r, c, did),
    ensures
        !needs_migration(r),
        c.version is Some ==> r.hotkeys.snap_position == c.hotkeys.snap_position,
{
}

} // verus!
