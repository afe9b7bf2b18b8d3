//! The process-wide layout cache: a memoizing, never-evicting store of built
//! layouts keyed by locale identifier, and an append-only string-interning
//! pool that owns every composed character label for the cache's lifetime.

use vstd::prelude::*;
use std::collections::HashMap;
use crate::layout::{builds_to, prepare_layout, Layout, LayoutSource};
use crate::modifiers::ModifiersState;

verus! {

broadcast use vstd::std_specs::hash::group_hash_axioms;

/// The index at which `s` stands in `pool`: the first index holding `s`, or
/// `pool.len()` if `s` is absent (where an insertion would put it).
pub open spec fn intern_index(pool: Seq<Seq<char>>, s: Seq<char>) -> int
    decreases pool.len(),
{
    if pool.len() == 0 {
        0
    } else if pool[0] == s {
        0
    } else {
        1 + intern_index(pool.skip(1), s)
    }
}

/// The pool after interning `s`: unchanged if `s` is already present, else
/// extended by `s` at the end.
pub open spec fn intern_pool(pool: Seq<Seq<char>>, s: Seq<char>) -> Seq<Seq<char>> {
    if intern_index(pool, s) < pool.len() {
        pool
    } else {
        pool.push(s)
    }
}

/// The interning index is the first occurrence of `s`, or the length when
/// `s` is absent.
pub proof fn lemma_intern_index(pool: Seq<Seq<char>>, s: Seq<char>)
    ensures
        0 <= intern_index(pool, s) <= pool.len(),
        intern_index(pool, s) < pool.len() ==> pool[intern_index(pool, s)] == s,
        forall|j: int| 0 <= j < intern_index(pool, s) && j < pool.len() ==> pool[j] != s,
    decreases pool.len(),
{
    if pool.len() > 0 && pool[0] != s {
        lemma_intern_index(pool.skip(1), s);
        assert forall|j: int| 0 <= j < intern_index(pool, s) && j < pool.len() implies pool[j] != s by {
            if j > 0 {
                assert(pool.skip(1)[j - 1] == pool[j]);
                assert(pool.skip(1)[j - 1] != s);
            }
        }
    }
}

/// `p2` keeps every entry of `p1` at its index and only appends.
pub open spec fn pool_extends(p1: Seq<Seq<char>>, p2: Seq<Seq<char>>) -> bool {
    p2.len() >= p1.len() && forall|i: int| 0 <= i < p1.len() ==> p1[i] == p2[i]
}

/// Extension of pools is transitive.
pub proof fn lemma_pool_extends_trans(a: Seq<Seq<char>>, b: Seq<Seq<char>>, c: Seq<Seq<char>>)
    requires
        pool_extends(a, b),
        pool_extends(b, c),
    ensures
        pool_extends(a, c),
{
}

/// Interning only appends, so a pool extends itself through any interning.
pub proof fn lemma_intern_extends(pool: Seq<Seq<char>>, s: Seq<char>)
    ensures
        pool_extends(pool, intern_pool(pool, s)),
{
    lemma_intern_index(pool, s);
}

/// String interning is stable: once `s` has been interned, interning it
/// again — after any number of further insertions — returns the same index
/// and leaves the pool untouched, so two equal composed labels always share
/// one underlying stored string.
pub proof fn lemma_intern_twice(p0: Seq<Seq<char>>, s: Seq<char>, p2: Seq<Seq<char>>)
    requires
        pool_extends(intern_pool(p0, s), p2),
    ensures
        intern_index(p2, s) == intern_index(p0, s),
        intern_pool(p2, s) == p2,
    decreases p0.len() + p2.len(),
{
    let h = intern_index(p0, s);
    lemma_intern_index(p0, s);
    lemma_intern_index(intern_pool(p0, s), s);
    lemma_intern_index(p2, s);
    let p1 = intern_pool(p0, s);
    assert(p1[h] == s);
    assert(p2[h] == s);
    if intern_index(p2, s) < h {
        assert(p2[intern_index(p2, s)] == s);
        assert(p0[intern_index(p2, s)] != s);
        assert(p0[intern_index(p2, s)] == p1[intern_index(p2, s)]);
        assert(p1[intern_index(p2, s)] == p2[intern_index(p2, s)]);
        assert(false);
    }
    if intern_index(p2, s) > h {
        assert(forall|j: int| 0 <= j < intern_index(p2, s) && j < p2.len() ==> p2[j] != s);
        assert(false);
    }
    assert(intern_index(p2, s) < p2.len());
}

/// No two entries of the pool hold the same text.
pub open spec fn pool_distinct(p: Seq<Seq<char>>) -> bool {
    forall|i: int, j: int| 0 <= i < j < p.len() ==> p[i] != p[j]
}

/// Interning keeps the pool's entries pairwise distinct: a new entry is
/// appended only when no equal entry exists.
pub proof fn lemma_intern_distinct(pool: Seq<Seq<char>>, s: Seq<char>)
    requires
        pool_distinct(pool),
    ensures
        pool_distinct(intern_pool(pool, s)),
{
    lemma_intern_index(pool, s);
    let p2 = intern_pool(pool, s);
    if intern_index(pool, s) == pool.len() {
        assert forall|i: int, j: int| 0 <= i < j < p2.len() implies p2[i] != p2[j] by {
            if j == pool.len() {
                assert(pool[i] != s);
            }
        }
    }
}

/// In a pairwise distinct pool, two handles are equal exactly when the
/// texts they refer to are equal — which is what lets the builder compare
/// interned handles in place of composed text.
pub proof fn lemma_handles_decide_text(pool: Seq<Seq<char>>, h0: int, h: int)
    requires
        pool_distinct(pool),
        0 <= h0 < pool.len(),
        0 <= h < pool.len(),
    ensures
        (h == h0) <==> (pool[h] == pool[h0]),
{
}

/// An append-only pool of interned strings.  Once a string is inserted it is
/// never removed or relocated, so the handle (its index) stays valid for the
/// pool's entire lifetime.
pub struct StringPool {
    strings: Vec<String>,
}

impl View for StringPool {
    type V = Seq<Seq<char>>;

    closed spec fn view(&self) -> Seq<Seq<char>> {
        self.strings@.map_values(|s: String| s@)
    }
}

impl StringPool {
    /// An empty pool.
    pub fn new() -> (r: StringPool)
        ensures
            r@ == Seq::<Seq<char>>::empty(),
    {
        let r = StringPool { strings: Vec::new() };
        proof {
            assert(r@ =~= Seq::<Seq<char>>::empty());
        }
        r
    }

    /// How many distinct strings the pool holds.
    pub fn len(&self) -> (n: usize)
        ensures
            n == self@.len(),
    {
        self.strings.len()
    }

    /// The string a handle refers to.
    pub fn get_str(&self, h: usize) -> (r: &String)
        requires
            h < self@.len(),
        ensures
            r@ == self@[h as int],
    {
        &self.strings[h]
    }
}

/// Interns `string`: returns the handle of an already stored equal string if
/// one exists, else appends `string` and returns its new handle.  Handles
/// are stable: the pool only ever grows at the end.
pub fn get_or_insert_str(strings: &mut StringPool, string: String) -> (h: usize)
    ensures
        h as int == intern_index(old(strings)@, string@),
        final(strings)@ == intern_pool(old(strings)@, string@),
        h < final(strings)@.len(),
        final(strings)@[h as int] == string@,
{
    proof {
        lemma_intern_index(old(strings)@, string@);
    }
    let n = strings.strings.len();
    let mut i: usize = 0;
    while i < n
        invariant
            i <= n,
            n == strings@.len(),
            strings@ == old(strings)@,
            forall|j: int| 0 <= j < i ==> strings@[j] != string@,
            forall|j: int| 0 <= j < strings.strings@.len()
                ==> (#[trigger] strings.strings@[j])@ == strings@[j],
        decreases n - i,
    {
        if strings.strings[i] == string {
            proof {
                lemma_intern_index(old(strings)@, string@);
                let idx = intern_index(old(strings)@, string@);
                assert(strings@[i as int] == string@);
                if idx < i {
                    assert(old(strings)@[idx] == string@);
                    assert(false);
                }
                if idx > i {
                    assert(old(strings)@[i as int] != string@);
                    assert(false);
                }
                assert(intern_pool(old(strings)@, string@) == old(strings)@);
            }
            return i;
        }
        i += 1;
    }
    proof {
        lemma_intern_index(old(strings)@, string@);
        if intern_index(old(strings)@, string@) < n {
            assert(old(strings)@[intern_index(old(strings)@, string@)] == string@);
            assert(false);
        }
    }
    strings.strings.push(string);
    proof {
        assert(strings@ =~= intern_pool(old(strings)@, string@));
    }
    n
}

/// Which physical modifier keys are currently reported down, as queried
/// from the OS at the moment of the call.
#[derive(Clone, Copy, Debug, Eq, PartialEq, Structural)]
pub struct RealModKeys {
    pub shift: bool,
    pub control: bool,
    pub alt: bool,
    pub right_alt: bool,
    pub lwin: bool,
    pub rwin: bool,
}

/// The simplified "real" modifier bitset: when the active layout has AltGr
/// and the right Alt key is down, the hardware is reporting the AltGr chord,
/// so Control and Alt are suppressed; Shift and Logo pass through.
pub open spec fn spec_agnostic_mods(has_alt_graph: bool, k: RealModKeys) -> ModifiersState {
    let filter_out_altgr = has_alt_graph && k.right_alt;
    ModifiersState {
        shift: k.shift,
        ctrl: k.control && !filter_out_altgr,
        alt: k.alt && !filter_out_altgr,
        logo: k.lwin || k.rwin,
    }
}

/// The process-wide store of built layouts, keyed by locale identifier,
/// together with the string pool that owns every composed label.  A pure
/// memoizing cache: it never evicts, and a locale switch is a new key,
/// never a mutation of an existing entry.
pub struct LayoutCache {
    layouts: HashMap<u64, Layout>,
    strings: StringPool,
}

impl LayoutCache {
    /// The cached layouts, for contracts.
    pub closed spec fn spec_layouts(&self) -> Map<u64, Layout> {
        self.layouts@
    }

    /// The interning pool's contents, for contracts.
    pub closed spec fn spec_pool(&self) -> Seq<Seq<char>> {
        self.strings@
    }

    /// An empty cache.
    pub fn new() -> (r: LayoutCache)
        ensures
            r.spec_layouts() == Map::<u64, Layout>::empty(),
            r.spec_pool() == Seq::<Seq<char>>::empty(),
    {
        LayoutCache { layouts: HashMap::new(), strings: StringPool::new() }
    }

    /// The interning pool, to resolve `Character` handles.
    pub fn pool(&self) -> (r: &StringPool)
        ensures
            r@ == self.spec_pool(),
    {
        &self.strings
    }

    /// The cached layout for a locale, if one was built.
    pub fn get_layout(&self, locale_id: u64) -> (r: Option<&Layout>)
        ensures
            r is Some <==> self.spec_layouts().contains_key(locale_id),
            r matches Some(l) ==> *l == self.spec_layouts()[locale_id],
    {
        self.layouts.get(&locale_id)
    }

    /// Checks whether the layout for `locale_id` is already known and builds
    /// it from `source` if it is not; afterwards the layout is cached.
    /// Returns whether it was already cached: a hit changes nothing, and a
    /// miss inserts exactly the layout the source determines, growing the
    /// shared pool by whatever labels the build interned.
    pub fn get_current_layout(&mut self, locale_id: u64, source: &LayoutSource) -> (cached: bool)
        requires
            source.wf(),
        ensures
            final(self).spec_layouts().contains_key(locale_id),
            cached == old(self).spec_layouts().contains_key(locale_id),
            cached ==> final(self).spec_layouts() == old(self).spec_layouts()
                && final(self).spec_pool() == old(self).spec_pool(),
            !cached ==> {
                &&& builds_to(*source, old(self).spec_pool(),
                        final(self).spec_layouts()[locale_id], final(self).spec_pool())
                &&& final(self).spec_layouts()
                    == old(self).spec_layouts().insert(locale_id, final(self).spec_layouts()[locale_id])
            },
    {
        if self.layouts.contains_key(&locale_id) {
            true
        } else {
            let layout = prepare_layout(&mut self.strings, source);
            self.layouts.insert(locale_id, layout);
            false
        }
    }

    /// Derives the simplified "real" modifier bitset from the currently
    /// pressed physical keys: if the active layout has AltGr and the right
    /// Alt key is down, Control and Alt are suppressed.  A locale without a
    /// cached layout is treated as having no AltGr.
    pub fn get_agnostic_mods(&self, locale_id: u64, keys: RealModKeys) -> (r: ModifiersState)
        ensures
            r == spec_agnostic_mods(
                self.spec_layouts().contains_key(locale_id)
                    && self.spec_layouts()[locale_id].has_alt_graph,
                keys,
            ),
    {
        let filter_out_altgr = match self.layouts.get(&locale_id) {
            Some(l) => l.has_alt_graph && keys.right_alt,
            None => false,
        };
        ModifiersState {
            shift: keys.shift,
            ctrl: keys.control && !filter_out_altgr,
            alt: keys.alt && !filter_out_altgr,
            logo: keys.lwin || keys.rwin,
        }
    }
}

} // verus!
