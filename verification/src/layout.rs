//! The layout builder: from the OS's responses for one locale — a scancode,
//! a locale-independent preliminary resolution and sixteen composition
//! probes per virtual key — it builds the complete table from (modifier
//! combination, logical key code) to resolved key, detecting AltGr and
//! patching the right-Alt slot in a second pass.

use vstd::prelude::*;
use crate::cache::{get_or_insert_str, intern_index, intern_pool, StringPool};
use crate::compose::{spec_to_unicode, to_unicode_string, ComposedText, Composition, ToUnicodeResult};
use crate::winmods::{spec_from_bits, WindowsModifiers, FLAGS_END};

verus! {

/// The number of virtual keys: one composition probe per modifier
/// combination exists for each of them.
pub const NUM_VKEYS: usize = 256;

/// A layout-independent logical key code, derived by the caller from the
/// native scancode.  Only the two codes the builder itself must recognize
/// are distinguished; every other code is carried through opaquely.
#[derive(Clone, Copy, Debug, Eq, PartialEq, Structural, Hash)]
pub enum KeyCode {
    /// The right Alt key, rewritten to AltGraph in the second pass.
    AltRight,
    /// The numeric keypad divide key, subject to the slash workaround.
    NumpadDivide,
    /// Any other logical key code, by its numeric tag.
    Other(u16),
}

/// The resolved logical identity of a key press.
#[derive(Clone, Copy, Debug, Eq, PartialEq)]
pub enum ResolvedKey {
    /// A key that composes text; the handle indexes the cache's string pool.
    Character(usize),
    /// A dead key, with its combining character if one could be captured.
    Dead(Option<char>),
    /// No information; carries the native scancode.
    Unidentified(u16),
    /// The dedicated third-level shift marker.
    AltGraph,
    /// A named non-printable key (arrows, function keys, navigation),
    /// by its numeric tag.
    Named(u16),
}

/// The OS's responses for one virtual key under one locale.
pub struct KeyProbe {
    /// The native scancode the OS maps this virtual key to; zero means the
    /// key does not exist under this locale.
    pub scancode: u32,
    /// The logical key code derived from the scancode.
    pub key_code: KeyCode,
    /// The locale-independent, non-printable resolution, already carrying
    /// `Unidentified` with this key's scancode when there is none.
    pub preliminary: ResolvedKey,
    /// One composition probe per modifier combination, indexed by the
    /// combination's numeric encoding.
    pub compositions: Vec<Composition>,
}

impl KeyProbe {
    /// One well-formed probe per combination, and a preliminary resolution
    /// that never claims composed text.
    pub open spec fn wf(&self) -> bool {
        &&& self.compositions@.len() == FLAGS_END
        &&& forall|i: int| 0 <= i < self.compositions@.len()
            ==> (#[trigger] self.compositions@[i]).wf()
        &&& !(self.preliminary is Character)
    }
}

/// The OS's responses for every virtual key under one locale: everything
/// the builder reads.
pub struct LayoutSource {
    pub keys: Vec<KeyProbe>,
}

impl LayoutSource {
    pub open spec fn wf(&self) -> bool {
        &&& self.keys@.len() == NUM_VKEYS
        &&& forall|i: int| 0 <= i < self.keys@.len() ==> (#[trigger] self.keys@[i]).wf()
    }
}

/// One modifier combination's key table: later entries supersede earlier
/// ones for the same code, so a lookup scans from the end.
pub type KeyTable = Vec<(KeyCode, ResolvedKey)>;

/// The value the latest entry for `code` holds, if any.
pub open spec fn table_lookup(t: Seq<(KeyCode, ResolvedKey)>, code: KeyCode) -> Option<ResolvedKey>
    decreases t.len(),
{
    if t.len() == 0 {
        None
    } else if t.last().0 == code {
        Some(t.last().1)
    } else {
        table_lookup(t.drop_last(), code)
    }
}

/// If no entry at index `i` or later matches `code`, the lookup is decided
/// by the first `i` entries.
proof fn lemma_lookup_prefix(t: Seq<(KeyCode, ResolvedKey)>, code: KeyCode, i: int)
    requires
        0 <= i <= t.len(),
        forall|j: int| i <= j < t.len() ==> (#[trigger] t[j]).0 != code,
    ensures
        table_lookup(t, code) == table_lookup(t.take(i), code),
    decreases t.len() - i,
{
    if i < t.len() {
        assert(t.take(t.len() as int) =~= t);
        assert(t.take(t.len() as int).drop_last() =~= t.take(t.len() - 1));
        lemma_lookup_prefix(t, code, i + 1);
        assert(t.take(i + 1).drop_last() =~= t.take(i));
        assert(t[t.len() - 1].0 != code);
        if i + 1 == t.len() {
            assert(table_lookup(t, code) == table_lookup(t.drop_last(), code));
            assert(t.drop_last() =~= t.take(i));
        } else {
            assert(table_lookup(t.take(i + 1), code) == table_lookup(t.take(i), code));
        }
    } else {
        assert(t.take(i) =~= t);
    }
}

/// Looks `code` up in a table, returning the latest entry's value.
pub fn table_get(t: &KeyTable, code: KeyCode) -> (r: Option<ResolvedKey>)
    ensures
        r == table_lookup(t@, code),
{
    let mut i = t.len();
    while i > 0
        invariant
            i <= t@.len(),
            forall|j: int| i <= j < t@.len() ==> (#[trigger] t@[j]).0 != code,
        decreases i,
    {
        i = i - 1;
        let (c, k) = t[i];
        if c == code {
            proof {
                lemma_lookup_prefix(t@, code, i + 1);
                assert(t@.take(i + 1).last() == t@[i as int]);
                assert(t@.take(i + 1).len() == i + 1);
            }
            return Some(k);
        }
    }
    proof {
        lemma_lookup_prefix(t@, code, 0);
        assert(t@.take(0) =~= Seq::<(KeyCode, ResolvedKey)>::empty());
    }
    None
}

/// The full key table for one locale.
pub struct Layout {
    /// One key table per modifier combination, indexed by the combination's
    /// numeric encoding.
    pub keys: Vec<KeyTable>,
    /// Whether this locale was found to have an AltGr (third-level shift)
    /// function.
    pub has_alt_graph: bool,
}

/// What `get_key` returns: the stored entry for the combination and code,
/// or `Unidentified` with the native scancode when nothing is stored.
pub open spec fn spec_get_key(l: Layout, mods: WindowsModifiers, scancode: u16, keycode: KeyCode) -> ResolvedKey {
    let b = crate::winmods::spec_bits(mods);
    if 0 <= b < l.keys@.len() && table_lookup(l.keys@[b]@, keycode) is Some {
        table_lookup(l.keys@[b]@, keycode).unwrap()
    } else {
        ResolvedKey::Unidentified(scancode)
    }
}

impl Layout {
    /// Resolves a key: the table entry for this modifier combination and
    /// logical key code, or `Unidentified` carrying the native scancode.
    pub fn get_key(&self, mods: WindowsModifiers, scancode: u16, keycode: KeyCode) -> (r: ResolvedKey)
        ensures
            r == spec_get_key(*self, mods, scancode, keycode),
    {
        let b = mods.bits() as usize;
        if b < self.keys.len() {
            match table_get(&self.keys[b], keycode) {
                Some(k) => k,
                None => ResolvedKey::Unidentified(scancode),
            }
        } else {
            ResolvedKey::Unidentified(scancode)
        }
    }
}

/// The slash label the numpad-divide workaround assigns.
pub open spec fn slash_text() -> Seq<char> {
    seq!['/']
}

/// A fresh `"/"` string.
fn slash_string() -> (r: String)
    ensures
        r@ == slash_text(),
{
    let s: String = "/".to_owned();
    proof {
        reveal_strlit("/");
        assert(s@ =~= slash_text());
    }
    s
}

/// The key the composition path resolves, together with the pool after any
/// interning it performs.  Text is interned and becomes a `Character`
/// handle; a dead probe keeps its combining character; with no information
/// the numpad-divide workaround assigns an interned "/" when neither
/// Control nor Alt is active, and everything else falls back to the
/// preliminary resolution.
pub open spec fn spec_composed_key(probe: KeyProbe, mbits: u8, pool: Seq<Seq<char>>) -> (ResolvedKey, Seq<Seq<char>>) {
    let mods = spec_from_bits(mbits);
    match spec_to_unicode(probe.compositions@[mbits as int]) {
        ComposedText::Text(t) => (
            ResolvedKey::Character(intern_index(pool, t) as usize),
            intern_pool(pool, t),
        ),
        ComposedText::Dead(o) => (ResolvedKey::Dead(o), pool),
        ComposedText::Nothing => {
            if !mods.alt && !mods.control && probe.key_code == KeyCode::NumpadDivide {
                (
                    ResolvedKey::Character(intern_index(pool, slash_text()) as usize),
                    intern_pool(pool, slash_text()),
                )
            } else {
                (probe.preliminary, pool)
            }
        },
    }
}

/// Whether the key just resolved under Control+Alt differs, as composed
/// text, from the key the empty combination resolved for the same code:
/// the signature of an AltGr function.  Interned handles are compared;
/// equal handles hold equal text and distinct handles distinct text.
pub open spec fn alt_graph_detected(table0: Seq<(KeyCode, ResolvedKey)>, code: KeyCode, key: ResolvedKey) -> bool {
    match (table_lookup(table0, code), key) {
        (Some(ResolvedKey::Character(h0)), ResolvedKey::Character(h)) => h != h0,
        _ => false,
    }
}

/// The numeric encoding of the Control+Alt combination, the one under which
/// AltGr detection compares.
pub const CTRL_ALT_BITS: u8 = 6;

/// The in-progress state of one combination's table.
pub struct BuildRow {
    pub table: Seq<(KeyCode, ResolvedKey)>,
    pub pool: Seq<Seq<char>>,
    pub hag: bool,
}

/// One virtual key's contribution to one combination's table.  A zero
/// scancode contributes nothing; a non-`Unidentified` preliminary
/// resolution is stored as is, composition not consulted; otherwise the
/// composition path resolves the key, and — only under Control+Alt — the
/// AltGr check compares it against the empty combination's table.
pub open spec fn spec_key_step(probe: KeyProbe, mbits: u8, table0: Seq<(KeyCode, ResolvedKey)>, st: BuildRow) -> BuildRow {
    if probe.scancode == 0 {
        st
    } else if !(probe.preliminary is Unidentified) {
        BuildRow { table: st.table.push((probe.key_code, probe.preliminary)), ..st }
    } else {
        let (key, pool2) = spec_composed_key(probe, mbits, st.pool);
        let hag2 = st.hag || (mbits == CTRL_ALT_BITS && alt_graph_detected(table0, probe.key_code, key));
        BuildRow { table: st.table.push((probe.key_code, key)), pool: pool2, hag: hag2 }
    }
}

/// The table for combination `mbits` after the first `n` virtual keys,
/// starting from pool `pool` and AltGr flag `hag`, with `table0` the empty
/// combination's finished table.
pub open spec fn spec_row(keys: Seq<KeyProbe>, mbits: u8, table0: Seq<(KeyCode, ResolvedKey)>, pool: Seq<Seq<char>>, hag: bool, n: int) -> BuildRow
    decreases n,
{
    if n <= 0 {
        BuildRow { table: Seq::empty(), pool, hag }
    } else {
        spec_key_step(keys[n - 1], mbits, table0, spec_row(keys, mbits, table0, pool, hag, n - 1))
    }
}

/// The whole first pass after the first `n` modifier combinations.
pub struct BuildState {
    pub tables: Seq<Seq<(KeyCode, ResolvedKey)>>,
    pub pool: Seq<Seq<char>>,
    pub hag: bool,
}

/// Builds the tables for combinations `0..n` in ascending numeric order —
/// the empty combination therefore precedes Control+Alt, whose AltGr check
/// reads the empty combination's finished table.
pub open spec fn spec_build(keys: Seq<KeyProbe>, pool0: Seq<Seq<char>>, n: int) -> BuildState
    decreases n,
{
    if n <= 0 {
        BuildState { tables: Seq::empty(), pool: pool0, hag: false }
    } else {
        let prev = spec_build(keys, pool0, n - 1);
        let table0 = if n - 1 == 0 { Seq::empty() } else { prev.tables[0] };
        let row = spec_row(keys, (n - 1) as u8, table0, prev.pool, prev.hag, NUM_VKEYS as int);
        BuildState { tables: prev.tables.push(row.table), pool: row.pool, hag: row.hag }
    }
}

/// The second pass on one table: if it has an entry in the right-Alt slot,
/// that slot is overwritten with the AltGraph marker.
pub open spec fn spec_patch_table(t: Seq<(KeyCode, ResolvedKey)>) -> Seq<(KeyCode, ResolvedKey)> {
    if table_lookup(t, KeyCode::AltRight) is Some {
        t.push((KeyCode::AltRight, ResolvedKey::AltGraph))
    } else {
        t
    }
}

/// The finished build: the first pass over all sixteen combinations and,
/// only when AltGr was detected, the right-Alt patch pass over every table.
pub open spec fn spec_prepare_layout(source: LayoutSource, pool0: Seq<Seq<char>>) -> BuildState {
    let b = spec_build(source.keys@, pool0, FLAGS_END as int);
    if b.hag {
        BuildState {
            tables: Seq::new(b.tables.len(), |i: int| spec_patch_table(b.tables[i])),
            pool: b.pool,
            hag: true,
        }
    } else {
        b
    }
}

/// What `prepare_layout` guarantees: the layout and the pool it leaves
/// behind are exactly the build determined by the source and the pool it
/// started from.
pub open spec fn builds_to(source: LayoutSource, pool0: Seq<Seq<char>>, l: Layout, pool1: Seq<Seq<char>>) -> bool {
    let b = spec_prepare_layout(source, pool0);
    &&& l.keys@.len() == FLAGS_END
    &&& forall|i: int| 0 <= i < l.keys@.len() ==> (#[trigger] l.keys@[i])@ == b.tables[i]
    &&& l.has_alt_graph == b.hag
    &&& pool1 == b.pool
}

/// Copies a table entry for entry.
fn clone_table(t: &KeyTable) -> (r: KeyTable)
    ensures
        r@ == t@,
{
    let mut r: KeyTable = Vec::new();
    let mut i: usize = 0;
    while i < t.len()
        invariant
            i <= t@.len(),
            r@ == t@.take(i as int),
        decreases t@.len() - i,
    {
        r.push(t[i]);
        proof {
            assert(t@.take(i + 1) =~= t@.take(i as int).push(t@[i as int]));
        }
        i += 1;
    }
    proof {
        assert(t@.take(t@.len() as int) =~= t@);
    }
    r
}

/// Builds the complete layout for one locale from the OS's recorded
/// responses, interning every composed label in `strings`.
///
/// The first pass walks the modifier combinations in ascending numeric
/// order and, per combination, every virtual key; the second pass, run only
/// when AltGr was detected, overwrites the right-Alt slot of every table
/// with the AltGraph marker.  Every per-key absence of information becomes
/// a placeholder entry, never an error.
pub fn prepare_layout(strings: &mut StringPool, source: &LayoutSource) -> (l: Layout)
    requires
        source.wf(),
    ensures
        builds_to(*source, old(strings)@, l, final(strings)@),
{
    let ghost pool0 = strings@;
    let mut tables: Vec<KeyTable> = Vec::new();
    let mut has_alt_graph = false;
    let mut mbits: u8 = 0;
    while mbits < FLAGS_END
        invariant
            source.wf(),
            mbits <= FLAGS_END,
            tables@.len() == mbits,
            strings@ == spec_build(source.keys@, pool0, mbits as int).pool,
            has_alt_graph == spec_build(source.keys@, pool0, mbits as int).hag,
            forall|i: int| 0 <= i < mbits
                ==> (#[trigger] tables@[i])@ == spec_build(source.keys@, pool0, mbits as int).tables[i],
        decreases FLAGS_END - mbits,
    {
        let ghost prev = spec_build(source.keys@, pool0, mbits as int);
        let mut row: KeyTable = Vec::new();
        let ghost table0 = if mbits == 0 { Seq::<(KeyCode, ResolvedKey)>::empty() } else { tables@[0]@ };
        let ghost pool_in = strings@;
        let ghost hag_in = has_alt_graph;
        let mut vk: usize = 0;
        while vk < NUM_VKEYS
            invariant
                source.wf(),
                vk <= NUM_VKEYS,
                mbits < FLAGS_END,
                mbits > 0 ==> tables@.len() == mbits && table0 == tables@[0]@,
                row@ == spec_row(source.keys@, mbits, table0, pool_in, hag_in, vk as int).table,
                strings@ == spec_row(source.keys@, mbits, table0, pool_in, hag_in, vk as int).pool,
                has_alt_graph == spec_row(source.keys@, mbits, table0, pool_in, hag_in, vk as int).hag,
            decreases NUM_VKEYS - vk,
        {
            let ghost st = spec_row(source.keys@, mbits, table0, pool_in, hag_in, vk as int);
            let probe = &source.keys[vk];
            proof {
                assert(source.keys@[vk as int].wf());
            }
            if probe.scancode != 0 {
                let mut stored_preliminary = false;
                match probe.preliminary {
                    ResolvedKey::Unidentified(_) => {},
                    _ => {
                        row.push((probe.key_code, probe.preliminary));
                        stored_preliminary = true;
                    },
                }
                if !stored_preliminary {
                    let comp = &probe.compositions[mbits as usize];
                    let uni = to_unicode_string(comp);
                    let ghost pool_before = strings@;
                    let key: ResolvedKey = match uni {
                        ToUnicodeResult::Str(s) => {
                            let h = get_or_insert_str(strings, s);
                            ResolvedKey::Character(h)
                        },
                        ToUnicodeResult::Dead(o) => ResolvedKey::Dead(o),
                        ToUnicodeResult::Nothing => {
                            let mods = WindowsModifiers::from_bits(mbits);
                            let is_divide = match probe.key_code {
                                KeyCode::NumpadDivide => true,
                                _ => false,
                            };
                            if !mods.alt && !mods.control && is_divide {
                                let h = get_or_insert_str(strings, slash_string());
                                ResolvedKey::Character(h)
                            } else {
                                probe.preliminary
                            }
                        },
                    };
                    proof {
                        assert((key, strings@) == spec_composed_key(source.keys@[vk as int], mbits, pool_before));
                    }
                    if !has_alt_graph && mbits == CTRL_ALT_BITS {
                        match table_get(&tables[0], probe.key_code) {
                            Some(k0) => {
                                match (k0, key) {
                                    (ResolvedKey::Character(h0), ResolvedKey::Character(h)) => {
                                        if h != h0 {
                                            has_alt_graph = true;
                                        }
                                    },
                                    _ => {},
                                }
                            },
                            None => {},
                        }
                    }
                    row.push((probe.key_code, key));
                }
            }
            vk += 1;
            proof {
                let st2 = spec_row(source.keys@, mbits, table0, pool_in, hag_in, vk as int);
                assert(st2 == spec_key_step(source.keys@[vk - 1], mbits, table0, st));
                assert(row@ == st2.table && strings@ == st2.pool && has_alt_graph == st2.hag);
            }
        }
        let ghost tables_before = tables@;
        tables.push(row);
        mbits += 1;
        proof {
            let n = mbits as int;
            lemma_build_len(source.keys@, pool0, n - 1);
            let t0 = if n - 1 == 0 {
                Seq::<(KeyCode, ResolvedKey)>::empty()
            } else {
                prev.tables[0]
            };
            assert(t0 == table0);
            let rowspec = spec_row(source.keys@, (n - 1) as u8, t0, prev.pool, prev.hag, NUM_VKEYS as int);
            assert(rowspec.table == row@ && rowspec.pool == strings@ && rowspec.hag == has_alt_graph);
            let b2 = spec_build(source.keys@, pool0, n);
            assert(b2.tables == prev.tables.push(rowspec.table));
            assert(b2.pool == rowspec.pool && b2.hag == rowspec.hag);
            assert forall|i: int| 0 <= i < n implies (#[trigger] tables@[i])@ == b2.tables[i] by {
                if i < n - 1 {
                    assert(tables@[i] == tables_before[i]);
                    assert(tables_before[i]@ == prev.tables[i]);
                    assert(b2.tables[i] == prev.tables[i]);
                } else {
                    assert(tables@[i] == row);
                    assert(b2.tables[i] == rowspec.table);
                }
            }
        }
    }

    proof {
        lemma_build_len(source.keys@, pool0, FLAGS_END as int);
    }
    if has_alt_graph {
        let mut patched: Vec<KeyTable> = Vec::new();
        let mut i: usize = 0;
        while i < tables.len()
            invariant
                tables@.len() == FLAGS_END,
                i <= tables@.len(),
                patched@.len() == i,
                forall|j: int| 0 <= j < tables@.len()
                    ==> (#[trigger] tables@[j])@ == spec_build(source.keys@, pool0, FLAGS_END as int).tables[j],
                forall|j: int| 0 <= j < i
                    ==> (#[trigger] patched@[j])@
                        == spec_patch_table(spec_build(source.keys@, pool0, FLAGS_END as int).tables[j]),
            decreases tables@.len() - i,
        {
            let mut nt = clone_table(&tables[i]);
            match table_get(&nt, KeyCode::AltRight) {
                Some(_) => {
                    nt.push((KeyCode::AltRight, ResolvedKey::AltGraph));
                },
                None => {},
            }
            patched.push(nt);
            i += 1;
        }
        Layout { keys: patched, has_alt_graph }
    } else {
        Layout { keys: tables, has_alt_graph }
    }
}

/// One build step leaves every existing pool entry in place: it interns at
/// most one label, and interning only appends.
proof fn lemma_key_step_pool_extends(probe: KeyProbe, mbits: u8, table0: Seq<(KeyCode, ResolvedKey)>, st: BuildRow)
    ensures
        crate::cache::pool_extends(st.pool, spec_key_step(probe, mbits, table0, st).pool),
{
    if probe.scancode != 0 && probe.preliminary is Unidentified {
        match spec_to_unicode(probe.compositions@[mbits as int]) {
            ComposedText::Text(t) => {
                crate::cache::lemma_intern_extends(st.pool, t);
            },
            ComposedText::Dead(_) => {},
            ComposedText::Nothing => {
                crate::cache::lemma_intern_extends(st.pool, slash_text());
            },
        }
    }
}

/// One combination's pass only appends to the pool.
proof fn lemma_row_pool_extends(keys: Seq<KeyProbe>, mbits: u8, table0: Seq<(KeyCode, ResolvedKey)>, pool: Seq<Seq<char>>, hag: bool, n: int)
    ensures
        crate::cache::pool_extends(pool, spec_row(keys, mbits, table0, pool, hag, n).pool),
    decreases n,
{
    if n > 0 {
        lemma_row_pool_extends(keys, mbits, table0, pool, hag, n - 1);
        lemma_key_step_pool_extends(keys[n - 1], mbits, table0, spec_row(keys, mbits, table0, pool, hag, n - 1));
    }
}

/// Building a layout only appends to the shared pool: every label interned
/// before the build keeps its handle and its storage, which is what lets
/// equal labels composed under different locales or combinations share one
/// stored string.
pub proof fn lemma_build_pool_extends(source: LayoutSource, pool0: Seq<Seq<char>>)
    ensures
        crate::cache::pool_extends(pool0, spec_prepare_layout(source, pool0).pool),
{
    lemma_build_pool_extends_rec(source.keys@, pool0, FLAGS_END as int);
}

/// The first pass only appends to the pool, combination by combination.
proof fn lemma_build_pool_extends_rec(keys: Seq<KeyProbe>, pool0: Seq<Seq<char>>, n: int)
    ensures
        crate::cache::pool_extends(pool0, spec_build(keys, pool0, n).pool),
    decreases n,
{
    if n > 0 {
        lemma_build_pool_extends_rec(keys, pool0, n - 1);
        let prev = spec_build(keys, pool0, n - 1);
        let table0 = if n - 1 == 0 { Seq::<(KeyCode, ResolvedKey)>::empty() } else { prev.tables[0] };
        lemma_row_pool_extends(keys, (n - 1) as u8, table0, prev.pool, prev.hag, NUM_VKEYS as int);
    }
}

/// One build step keeps the pool's entries pairwise distinct.
proof fn lemma_key_step_pool_distinct(probe: KeyProbe, mbits: u8, table0: Seq<(KeyCode, ResolvedKey)>, st: BuildRow)
    requires
        crate::cache::pool_distinct(st.pool),
    ensures
        crate::cache::pool_distinct(spec_key_step(probe, mbits, table0, st).pool),
{
    if probe.scancode != 0 && probe.preliminary is Unidentified {
        match spec_to_unicode(probe.compositions@[mbits as int]) {
            ComposedText::Text(t) => {
                crate::cache::lemma_intern_distinct(st.pool, t);
            },
            ComposedText::Dead(_) => {},
            ComposedText::Nothing => {
                crate::cache::lemma_intern_distinct(st.pool, slash_text());
            },
        }
    }
}

/// One combination's pass keeps the pool's entries pairwise distinct.
proof fn lemma_row_pool_distinct(keys: Seq<KeyProbe>, mbits: u8, table0: Seq<(KeyCode, ResolvedKey)>, pool: Seq<Seq<char>>, hag: bool, n: int)
    requires
        crate::cache::pool_distinct(pool),
    ensures
        crate::cache::pool_distinct(spec_row(keys, mbits, table0, pool, hag, n).pool),
    decreases n,
{
    if n > 0 {
        lemma_row_pool_distinct(keys, mbits, table0, pool, hag, n - 1);
        lemma_key_step_pool_distinct(keys[n - 1], mbits, table0, spec_row(keys, mbits, table0, pool, hag, n - 1));
    }
}

/// A build started from a pairwise distinct pool leaves a pairwise distinct
/// pool: every label is stored once, so the handle comparison the AltGr
/// check performs coincides with comparing composed text
/// (`lemma_handles_decide_text`).
pub proof fn lemma_build_pool_distinct(source: LayoutSource, pool0: Seq<Seq<char>>)
    requires
        crate::cache::pool_distinct(pool0),
    ensures
        crate::cache::pool_distinct(spec_prepare_layout(source, pool0).pool),
{
    lemma_build_pool_distinct_rec(source.keys@, pool0, FLAGS_END as int);
}

/// The first pass keeps the pool distinct, combination by combination.
proof fn lemma_build_pool_distinct_rec(keys: Seq<KeyProbe>, pool0: Seq<Seq<char>>, n: int)
    requires
        crate::cache::pool_distinct(pool0),
    ensures
        crate::cache::pool_distinct(spec_build(keys, pool0, n).pool),
    decreases n,
{
    if n > 0 {
        lemma_build_pool_distinct_rec(keys, pool0, n - 1);
        let prev = spec_build(keys, pool0, n - 1);
        let table0 = if n - 1 == 0 { Seq::<(KeyCode, ResolvedKey)>::empty() } else { prev.tables[0] };
        lemma_row_pool_distinct(keys, (n - 1) as u8, table0, prev.pool, prev.hag, NUM_VKEYS as int);
    }
}

/// Once set within a combination's pass, the AltGr flag stays set.
proof fn lemma_row_hag_monotone(keys: Seq<KeyProbe>, mbits: u8, table0: Seq<(KeyCode, ResolvedKey)>, pool: Seq<Seq<char>>, hag: bool, m: int, n: int)
    requires
        0 <= m <= n,
        spec_row(keys, mbits, table0, pool, hag, m).hag,
    ensures
        spec_row(keys, mbits, table0, pool, hag, n).hag,
    decreases n - m,
{
    if n > m {
        lemma_row_hag_monotone(keys, mbits, table0, pool, hag, m, n - 1);
    }
}

/// Once set, the AltGr flag survives every later combination's pass.
proof fn lemma_build_hag_monotone(keys: Seq<KeyProbe>, pool0: Seq<Seq<char>>, m: int, n: int)
    requires
        0 <= m <= n,
        spec_build(keys, pool0, m).hag,
    ensures
        spec_build(keys, pool0, n).hag,
    decreases n - m,
{
    if n > m {
        lemma_build_hag_monotone(keys, pool0, m, n - 1);
        let prev = spec_build(keys, pool0, n - 1);
        let table0 = if n - 1 == 0 { Seq::<(KeyCode, ResolvedKey)>::empty() } else { prev.tables[0] };
        lemma_row_hag_monotone(keys, (n - 1) as u8, table0, prev.pool, prev.hag, 0, NUM_VKEYS as int);
    }
}

/// The state of the Control+Alt combination's pass just before virtual key
/// `k` is processed: its table so far, the pool, and the AltGr flag.
pub open spec fn ctrl_alt_row_state(keys: Seq<KeyProbe>, pool0: Seq<Seq<char>>, k: int) -> BuildRow {
    let prev = spec_build(keys, pool0, CTRL_ALT_BITS as int);
    spec_row(keys, CTRL_ALT_BITS, prev.tables[0], prev.pool, prev.hag, k)
}

/// AltGr detection: in a built layout, if some virtual key exists under
/// this locale, has no non-printable resolution, and resolves under
/// Control+Alt to a `Character` whose interned handle differs from the
/// `Character` the finished empty-combination table holds for the same key
/// code — distinct handles hold distinct text — then the layout carries
/// `has_alt_graph`.
pub proof fn lemma_alt_graph_detection(source: LayoutSource, pool0: Seq<Seq<char>>, l: Layout, pool1: Seq<Seq<char>>, k: int)
    requires
        builds_to(source, pool0, l, pool1),
        0 <= k < NUM_VKEYS,
        source.keys@[k].scancode != 0,
        source.keys@[k].preliminary is Unidentified,
        alt_graph_detected(
            spec_build(source.keys@, pool0, CTRL_ALT_BITS as int).tables[0],
            source.keys@[k].key_code,
            spec_composed_key(source.keys@[k], CTRL_ALT_BITS, ctrl_alt_row_state(source.keys@, pool0, k).pool).0,
        ),
    ensures
        l.has_alt_graph,
{
    let keys = source.keys@;
    let prev = spec_build(keys, pool0, CTRL_ALT_BITS as int);
    let table0 = prev.tables[0];
    let st = spec_row(keys, CTRL_ALT_BITS, table0, prev.pool, prev.hag, k);
    assert(spec_row(keys, CTRL_ALT_BITS, table0, prev.pool, prev.hag, k + 1)
        == spec_key_step(keys[k], CTRL_ALT_BITS, table0, st));
    assert(spec_row(keys, CTRL_ALT_BITS, table0, prev.pool, prev.hag, k + 1).hag);
    lemma_row_hag_monotone(keys, CTRL_ALT_BITS, table0, prev.pool, prev.hag, k + 1, NUM_VKEYS as int);
    assert(spec_build(keys, pool0, CTRL_ALT_BITS as int + 1).hag);
    lemma_build_hag_monotone(keys, pool0, CTRL_ALT_BITS as int + 1, FLAGS_END as int);
}

/// The first pass yields one table per combination processed.
pub proof fn lemma_build_len(keys: Seq<KeyProbe>, pool0: Seq<Seq<char>>, n: int)
    requires
        n >= 0,
    ensures
        spec_build(keys, pool0, n).tables.len() == n,
    decreases n,
{
    if n > 0 {
        lemma_build_len(keys, pool0, n - 1);
    }
}

/// Looking a code up after one push: the new entry answers for its own
/// code and every other code is unaffected.
proof fn lemma_lookup_push(t: Seq<(KeyCode, ResolvedKey)>, e: (KeyCode, ResolvedKey), c: KeyCode)
    ensures
        table_lookup(t.push(e), c) == if e.0 == c {
            Some(e.1)
        } else {
            table_lookup(t, c)
        },
{
    assert(t.push(e).last() == e);
    assert(t.push(e).drop_last() =~= t);
}

/// The right-Alt patch pass leaves every other code's lookup unchanged.
proof fn lemma_patch_lookup_other(t: Seq<(KeyCode, ResolvedKey)>, c: KeyCode)
    requires
        c != KeyCode::AltRight,
    ensures
        table_lookup(spec_patch_table(t), c) == table_lookup(t, c),
{
    if table_lookup(t, KeyCode::AltRight) is Some {
        lemma_lookup_push(t, (KeyCode::AltRight, ResolvedKey::AltGraph), c);
    }
}

/// A finished combination's table never changes as later combinations are
/// processed.
proof fn lemma_build_prefix(keys: Seq<KeyProbe>, pool0: Seq<Seq<char>>, i: int, m: int, n: int)
    requires
        0 <= i < m <= n,
    ensures
        spec_build(keys, pool0, n).tables[i] == spec_build(keys, pool0, m).tables[i],
    decreases n - m,
{
    if n > m {
        lemma_build_prefix(keys, pool0, i, m, n - 1);
        lemma_build_len(keys, pool0, n - 1);
    }
}

/// The key one virtual key's step stores, given the pool it runs on.
pub open spec fn spec_step_key(probe: KeyProbe, mbits: u8, pool: Seq<Seq<char>>) -> ResolvedKey {
    if !(probe.preliminary is Unidentified) {
        probe.preliminary
    } else {
        spec_composed_key(probe, mbits, pool).0
    }
}

/// When no later virtual key of the pass stores the same key code, the
/// pass's finished table answers for that code with exactly the key stored
/// at step `k`.
proof fn lemma_row_lookup_from_step(keys: Seq<KeyProbe>, mbits: u8, table0: Seq<(KeyCode, ResolvedKey)>, pool: Seq<Seq<char>>, hag: bool, k: int, n: int)
    requires
        0 <= k < n,
        keys[k].scancode != 0,
        forall|j: int| k < j < n
            ==> !((#[trigger] keys[j]).scancode != 0 && keys[j].key_code == keys[k].key_code),
    ensures
        table_lookup(spec_row(keys, mbits, table0, pool, hag, n).table, keys[k].key_code)
            == Some(spec_step_key(keys[k], mbits, spec_row(keys, mbits, table0, pool, hag, k).pool)),
    decreases n - k,
{
    let code = keys[k].key_code;
    if n == k + 1 {
        let st = spec_row(keys, mbits, table0, pool, hag, k);
        lemma_lookup_push(st.table, (code, spec_step_key(keys[k], mbits, st.pool)), code);
    } else {
        lemma_row_lookup_from_step(keys, mbits, table0, pool, hag, k, n - 1);
        let st = spec_row(keys, mbits, table0, pool, hag, n - 1);
        let probe = keys[n - 1];
        if probe.scancode != 0 {
            let key = spec_step_key(probe, mbits, st.pool);
            lemma_lookup_push(st.table, (probe.key_code, key), code);
        }
    }
}

/// One pass interns at most one label per virtual key.
proof fn lemma_row_pool_len(keys: Seq<KeyProbe>, mbits: u8, table0: Seq<(KeyCode, ResolvedKey)>, pool: Seq<Seq<char>>, hag: bool, n: int)
    requires
        n >= 0,
    ensures
        spec_row(keys, mbits, table0, pool, hag, n).pool.len() <= pool.len() + n,
    decreases n,
{
    if n > 0 {
        lemma_row_pool_len(keys, mbits, table0, pool, hag, n - 1);
        let st = spec_row(keys, mbits, table0, pool, hag, n - 1);
        lemma_key_step_pool_len(keys[n - 1], mbits, table0, st);
    }
}

/// One step grows the pool by at most one entry.
proof fn lemma_key_step_pool_len(probe: KeyProbe, mbits: u8, table0: Seq<(KeyCode, ResolvedKey)>, st: BuildRow)
    ensures
        spec_key_step(probe, mbits, table0, st).pool.len() <= st.pool.len() + 1,
{
}

/// The whole first pass interns at most one label per virtual key and
/// combination.
proof fn lemma_build_pool_len(keys: Seq<KeyProbe>, pool0: Seq<Seq<char>>, n: int)
    requires
        n >= 0,
    ensures
        spec_build(keys, pool0, n).pool.len() <= pool0.len() + n * (NUM_VKEYS as int),
    decreases n,
{
    if n > 0 {
        lemma_build_pool_len(keys, pool0, n - 1);
        let prev = spec_build(keys, pool0, n - 1);
        let table0 = if n - 1 == 0 { Seq::<(KeyCode, ResolvedKey)>::empty() } else { prev.tables[0] };
        lemma_row_pool_len(keys, (n - 1) as u8, table0, prev.pool, prev.hag, NUM_VKEYS as int);
    }
}

/// Within one pass, a later step's pool extends an earlier step's pool.
proof fn lemma_row_pool_extends_between(keys: Seq<KeyProbe>, mbits: u8, table0: Seq<(KeyCode, ResolvedKey)>, pool: Seq<Seq<char>>, hag: bool, m: int, n: int)
    requires
        0 <= m <= n,
    ensures
        crate::cache::pool_extends(
            spec_row(keys, mbits, table0, pool, hag, m).pool,
            spec_row(keys, mbits, table0, pool, hag, n).pool,
        ),
    decreases n - m,
{
    if n > m {
        lemma_row_pool_extends_between(keys, mbits, table0, pool, hag, m, n - 1);
        lemma_key_step_pool_extends(keys[n - 1], mbits, table0, spec_row(keys, mbits, table0, pool, hag, n - 1));
    }
}

/// Across combinations, a later pool extends an earlier one.
proof fn lemma_build_pool_extends_between(keys: Seq<KeyProbe>, pool0: Seq<Seq<char>>, m: int, n: int)
    requires
        0 <= m <= n,
    ensures
        crate::cache::pool_extends(
            spec_build(keys, pool0, m).pool,
            spec_build(keys, pool0, n).pool,
        ),
    decreases n - m,
{
    if n > m {
        lemma_build_pool_extends_between(keys, pool0, m, n - 1);
        let prev = spec_build(keys, pool0, n - 1);
        let table0 = if n - 1 == 0 { Seq::<(KeyCode, ResolvedKey)>::empty() } else { prev.tables[0] };
        lemma_row_pool_extends(keys, (n - 1) as u8, table0, prev.pool, prev.hag, NUM_VKEYS as int);
    }
}

/// The numpad-divide workaround, seen in the finished layout: when the
/// numpad divide key exists under this locale, has no non-printable
/// resolution, its composition probe under a combination with Control and
/// Alt both clear reports nothing, and no later virtual key stores the
/// same key code, then that combination's table resolves the numpad divide
/// code to a `Character` whose interned text is `"/"`.  (The bound on the
/// starting pool only keeps every handle within the machine's index range.)
pub proof fn lemma_layout_numpad_divide(source: LayoutSource, pool0: Seq<Seq<char>>, l: Layout, pool1: Seq<Seq<char>>, mbits: u8, k: int)
    requires
        builds_to(source, pool0, l, pool1),
        pool0.len() + (FLAGS_END as int) * (NUM_VKEYS as int) <= usize::MAX,
        mbits < FLAGS_END,
        !spec_from_bits(mbits).alt,
        !spec_from_bits(mbits).control,
        0 <= k < NUM_VKEYS,
        source.keys@[k].scancode != 0,
        source.keys@[k].preliminary is Unidentified,
        source.keys@[k].key_code == KeyCode::NumpadDivide,
        spec_to_unicode(source.keys@[k].compositions@[mbits as int]) is Nothing,
        forall|j: int| k < j < NUM_VKEYS
            ==> !((#[trigger] source.keys@[j]).scancode != 0
                && source.keys@[j].key_code == KeyCode::NumpadDivide),
    ensures
        ({
            let entry = table_lookup(l.keys@[mbits as int]@, KeyCode::NumpadDivide);
            &&& entry is Some
            &&& entry.unwrap() is Character
            &&& entry.unwrap()->Character_0 < pool1.len()
            &&& pool1[entry.unwrap()->Character_0 as int] == slash_text()
        }),
{
    let keys = source.keys@;
    let prev = spec_build(keys, pool0, mbits as int);
    let table0 = if mbits == 0 { Seq::<(KeyCode, ResolvedKey)>::empty() } else { prev.tables[0] };
    let st = spec_row(keys, mbits, table0, prev.pool, prev.hag, k);
    let row = spec_row(keys, mbits, table0, prev.pool, prev.hag, NUM_VKEYS as int);

    // The key stored at step k is an interned slash.
    let h = intern_index(st.pool, slash_text());
    crate::cache::lemma_intern_index(st.pool, slash_text());
    lemma_build_pool_len(keys, pool0, mbits as int);
    lemma_row_pool_len(keys, mbits, table0, prev.pool, prev.hag, k);
    assert(st.pool.len() <= pool0.len() + (mbits as int) * (NUM_VKEYS as int) + k);
    assert((mbits as int) * (NUM_VKEYS as int) + (NUM_VKEYS as int)
        <= (FLAGS_END as int) * (NUM_VKEYS as int)) by (nonlinear_arith)
        requires mbits < FLAGS_END;
    assert(0 <= h <= st.pool.len() <= usize::MAX);
    let key = spec_step_key(keys[k], mbits, st.pool);
    assert(key == ResolvedKey::Character(h as usize));

    // The finished pass's table answers NumpadDivide with that key.
    lemma_row_lookup_from_step(keys, mbits, table0, prev.pool, prev.hag, k, NUM_VKEYS as int);
    assert(table_lookup(row.table, KeyCode::NumpadDivide) == Some(key));

    // That pass's table is what the finished build holds for `mbits`.
    lemma_build_len(keys, pool0, mbits as int);
    assert(spec_build(keys, pool0, mbits as int + 1).tables[mbits as int] == row.table);
    lemma_build_prefix(keys, pool0, mbits as int, mbits as int + 1, FLAGS_END as int);
    let b = spec_build(keys, pool0, FLAGS_END as int);
    assert(b.tables[mbits as int] == row.table);

    // The patch pass touches only the right-Alt slot.
    lemma_build_len(keys, pool0, FLAGS_END as int);
    if b.hag {
        lemma_patch_lookup_other(b.tables[mbits as int], KeyCode::NumpadDivide);
    }
    assert(table_lookup(l.keys@[mbits as int]@, KeyCode::NumpadDivide) == Some(key));

    // The interned slash is still at handle `h` in the final pool.
    let after = spec_row(keys, mbits, table0, prev.pool, prev.hag, k + 1);
    assert(after == spec_key_step(keys[k], mbits, table0, st));
    assert(after.pool == intern_pool(st.pool, slash_text()));
    assert(0 <= h < after.pool.len() && after.pool[h] == slash_text());
    lemma_row_pool_extends_between(keys, mbits, table0, prev.pool, prev.hag, k + 1, NUM_VKEYS as int);
    assert(spec_build(keys, pool0, mbits as int + 1).pool == row.pool);
    lemma_build_pool_extends_between(keys, pool0, mbits as int + 1, FLAGS_END as int);
    crate::cache::lemma_pool_extends_trans(after.pool, row.pool, b.pool);
    assert(pool1 == b.pool);
    assert(pool1[h] == slash_text());
}

/// Layout construction is deterministic: two layouts built from the same
/// source and the same starting pool have identical tables entry for entry,
/// the same AltGr flag, and leave identical pools behind.
pub proof fn lemma_build_deterministic(source: LayoutSource, pool0: Seq<Seq<char>>, l1: Layout, pool1: Seq<Seq<char>>, l2: Layout, pool2: Seq<Seq<char>>)
    requires
        builds_to(source, pool0, l1, pool1),
        builds_to(source, pool0, l2, pool2),
    ensures
        l1.keys@.len() == l2.keys@.len(),
        forall|i: int| 0 <= i < l1.keys@.len() ==> (#[trigger] l1.keys@[i])@ == l2.keys@[i]@,
        l1.has_alt_graph == l2.has_alt_graph,
        pool1 == pool2,
{
}

/// When AltGr was detected, the second pass leaves the right-Alt slot of
/// every table resolving to the AltGraph marker wherever that slot is
/// occupied at all, superseding whatever the first pass inferred.
pub proof fn lemma_alt_graph_patch(source: LayoutSource, pool0: Seq<Seq<char>>, l: Layout, pool1: Seq<Seq<char>>, i: int)
    requires
        builds_to(source, pool0, l, pool1),
        l.has_alt_graph,
        0 <= i < l.keys@.len(),
        table_lookup(l.keys@[i]@, KeyCode::AltRight) is Some,
    ensures
        table_lookup(l.keys@[i]@, KeyCode::AltRight) == Some(ResolvedKey::AltGraph),
{
    lemma_build_len(source.keys@, pool0, FLAGS_END as int);
    let b = spec_build(source.keys@, pool0, FLAGS_END as int);
    let t = b.tables[i];
    assert(l.keys@[i]@ == spec_patch_table(t));
    if table_lookup(t, KeyCode::AltRight) is Some {
        let p = t.push((KeyCode::AltRight, ResolvedKey::AltGraph));
        assert(p.last() == (KeyCode::AltRight, ResolvedKey::AltGraph));
        assert(table_lookup(p, KeyCode::AltRight) == Some(ResolvedKey::AltGraph));
    }
}

/// The numpad-divide workaround: when the composition probe reports nothing
/// for the numpad divide key under a combination with both Control and Alt
/// clear, the key resolves to a `Character` whose interned text is `"/"`.
pub proof fn lemma_numpad_divide(probe: KeyProbe, mbits: u8, pool: Seq<Seq<char>>)
    requires
        probe.wf(),
        pool.len() <= usize::MAX,
        mbits < FLAGS_END,
        !spec_from_bits(mbits).alt,
        !spec_from_bits(mbits).control,
        probe.key_code == KeyCode::NumpadDivide,
        spec_to_unicode(probe.compositions@[mbits as int]) is Nothing,
    ensures
        ({
            let (key, pool2) = spec_composed_key(probe, mbits, pool);
            &&& key is Character
            &&& pool2[key->Character_0 as int] == slash_text()
        }),
{
    crate::cache::lemma_intern_index(pool, slash_text());
}

} // verus!
