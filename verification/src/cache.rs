//! The content cache: a lazily populated map from logical path to the pair
//! of raw text and rendered markup.
//!
//! Entries appear on the first successful read of a path and are removed
//! when an upload overwrites that path; nothing refreshes them of its own
//! accord, so an out-of-band edit on disk stays invisible until the path is
//! uploaded again or the process restarts — an accepted staleness window.

use vstd::prelude::*;

use crate::strings::str_eq;

verus! {

/// The mathematical content of one cache entry.
pub struct CacheEntryView {
    pub raw: Seq<char>,
    pub rendered: Seq<char>,
}

struct CacheSlot {
    key: String,
    raw: String,
    rendered: String,
}

spec fn slot_view(s: CacheSlot) -> CacheEntryView {
    CacheEntryView { raw: s.raw@, rendered: s.rendered@ }
}

spec fn slots_map(s: Seq<CacheSlot>) -> Map<Seq<char>, CacheEntryView>
    decreases s.len(),
{
    if s.len() == 0 {
        Map::empty()
    } else {
        slots_map(s.drop_last()).insert(s.last().key@, slot_view(s.last()))
    }
}

spec fn keys_unique(s: Seq<CacheSlot>) -> bool {
    forall|i: int, j: int|
        0 <= i < j < s.len() ==> (#[trigger] s[i].key@) != (#[trigger] s[j].key@)
}

proof fn lemma_slots_map_index(s: Seq<CacheSlot>, k: Seq<char>)
    requires
        keys_unique(s),
    ensures
        slots_map(s).contains_key(k) <==> (exists|i: int|
            0 <= i < s.len() && #[trigger] s[i].key@ == k),
        forall|i: int|
            0 <= i < s.len() && #[trigger] s[i].key@ == k ==> slots_map(s)[k] == slot_view(
                s[i],
            ),
    decreases s.len(),
{
    if s.len() > 0 {
        assert(forall|i: int| 0 <= i < s.len() - 1 ==> s[i] == #[trigger] s.drop_last()[i]);
        assert(keys_unique(s.drop_last()));
        lemma_slots_map_index(s.drop_last(), k);
        if s.last().key@ == k {
            assert(slots_map(s)[k] == slot_view(s.last()));
            assert forall|i: int|
                0 <= i < s.len() && #[trigger] s[i].key@ == k implies slots_map(s)[k]
                == slot_view(s[i]) by {
                if i < s.len() - 1 {
                    assert(s[i].key@ != s[s.len() - 1].key@);
                    assert(false);
                }
            }
        } else {
            if slots_map(s).contains_key(k) {
                assert(slots_map(s.drop_last()).contains_key(k));
                let w = choose|i: int|
                    0 <= i < s.drop_last().len() && #[trigger] s.drop_last()[i].key@ == k;
                assert(s[w].key@ == k);
            }
            if exists|i: int| 0 <= i < s.len() && #[trigger] s[i].key@ == k {
                let w = choose|i: int| 0 <= i < s.len() && #[trigger] s[i].key@ == k;
                assert(w < s.len() - 1);
                assert(s.drop_last()[w].key@ == k);
                assert(slots_map(s.drop_last()).contains_key(k));
            }
            assert forall|i: int|
                0 <= i < s.len() && #[trigger] s[i].key@ == k implies slots_map(s)[k]
                == slot_view(s[i]) by {
                assert(i < s.len() - 1);
                assert(s.drop_last()[i].key@ == k);
                assert(slots_map(s.drop_last())[k] == slot_view(s.drop_last()[i]));
            }
        }
    }
}

/// With unique keys, the slot found at `i` settles the map.
proof fn lemma_slots_map_at(s: Seq<CacheSlot>, i: int)
    requires
        keys_unique(s),
        0 <= i < s.len(),
    ensures
        slots_map(s).contains_key(s[i].key@),
        slots_map(s)[s[i].key@] == slot_view(s[i]),
{
    lemma_slots_map_index(s, s[i].key@);
}

proof fn lemma_slots_map_absent(s: Seq<CacheSlot>, k: Seq<char>)
    requires
        keys_unique(s),
        forall|i: int| 0 <= i < s.len() ==> (#[trigger] s[i].key@) != k,
    ensures
        !slots_map(s).contains_key(k),
{
    lemma_slots_map_index(s, k);
}

proof fn lemma_slots_map_update(s: Seq<CacheSlot>, i: int, slot: CacheSlot)
    requires
        keys_unique(s),
        0 <= i < s.len(),
        slot.key@ == s[i].key@,
    ensures
        slots_map(s.update(i, slot)) == slots_map(s).insert(slot.key@, slot_view(slot)),
        keys_unique(s.update(i, slot)),
    decreases s.len(),
{
    let s2 = s.update(i, slot);
    assert(forall|j: int| 0 <= j < s.len() && j != i ==> #[trigger] s2[j] == s[j]);
    if i == s.len() - 1 {
        assert(s2.drop_last() =~= s.drop_last());
        assert(slots_map(s2) == slots_map(s.drop_last()).insert(slot.key@, slot_view(slot)));
        assert(slots_map(s) == slots_map(s.drop_last()).insert(
            s.last().key@,
            slot_view(s.last()),
        ));
        assert(slots_map(s.drop_last()).insert(s.last().key@, slot_view(s.last())).insert(
            slot.key@,
            slot_view(slot),
        ) =~= slots_map(s.drop_last()).insert(slot.key@, slot_view(slot)));
    } else {
        assert(s2.drop_last() =~= s.drop_last().update(i, slot));
        assert(forall|j: int|
            0 <= j < s.len() - 1 ==> #[trigger] s.drop_last()[j] == s[j]);
        lemma_slots_map_update(s.drop_last(), i, slot);
        assert(s2.last() == s.last());
        assert(slots_map(s2) == slots_map(s.drop_last()).insert(
            slot.key@,
            slot_view(slot),
        ).insert(s.last().key@, slot_view(s.last())));
        assert(slot.key@ != s.last().key@);
        assert(slots_map(s.drop_last()).insert(slot.key@, slot_view(slot)).insert(
            s.last().key@,
            slot_view(s.last()),
        ) =~= slots_map(s.drop_last()).insert(s.last().key@, slot_view(s.last())).insert(
            slot.key@,
            slot_view(slot),
        ));
    }
}

proof fn lemma_slots_map_push(s: Seq<CacheSlot>, slot: CacheSlot)
    ensures
        slots_map(s.push(slot)) == slots_map(s).insert(slot.key@, slot_view(slot)),
{
    assert(s.push(slot).drop_last() =~= s);
    assert(s.push(slot).last() == slot);
}

proof fn lemma_slots_map_remove(s: Seq<CacheSlot>, i: int)
    requires
        keys_unique(s),
        0 <= i < s.len(),
    ensures
        slots_map(s.remove(i)) == slots_map(s).remove(s[i].key@),
        keys_unique(s.remove(i)),
    decreases s.len(),
{
    let s2 = s.remove(i);
    assert(forall|j: int| 0 <= j < i ==> #[trigger] s2[j] == s[j]);
    assert(forall|j: int| i <= j < s2.len() ==> #[trigger] s2[j] == s[j + 1]);
    if i == s.len() - 1 {
        assert(s2 =~= s.drop_last());
        lemma_slots_map_absent(s.drop_last(), s[i].key@);
        assert(slots_map(s.drop_last()).insert(s.last().key@, slot_view(s.last())).remove(
            s[i].key@,
        ) =~= slots_map(s.drop_last()));
    } else {
        assert(s2.drop_last() =~= s.drop_last().remove(i));
        assert(forall|j: int|
            0 <= j < s.len() - 1 ==> #[trigger] s.drop_last()[j] == s[j]);
        lemma_slots_map_remove(s.drop_last(), i);
        assert(s2.last() == s.last());
        assert(slots_map(s2) == slots_map(s.drop_last()).remove(s[i].key@).insert(
            s.last().key@,
            slot_view(s.last()),
        ));
        assert(s[i].key@ != s.last().key@);
        assert(slots_map(s.drop_last()).remove(s[i].key@).insert(
            s.last().key@,
            slot_view(s.last()),
        ) =~= slots_map(s.drop_last()).insert(s.last().key@, slot_view(s.last())).remove(
            s[i].key@,
        ));
    }
}

/// The convergence law of redundant loads: two concurrent misses for one
/// path may both run the loader, but over the same disk content they store
/// the same pair, and the cache ends in the same state whichever write
/// wins.
pub proof fn lemma_redundant_store_converges(
    m: Map<Seq<char>, CacheEntryView>,
    k: Seq<char>,
    v: CacheEntryView,
)
    ensures
        m.insert(k, v).insert(k, v) == m.insert(k, v),
{
    assert(m.insert(k, v).insert(k, v) =~= m.insert(k, v));
}

/// The cache itself. Its view is the map it represents.
pub struct ContentCache {
    entries: Vec<CacheSlot>,
}

impl View for ContentCache {
    type V = Map<Seq<char>, CacheEntryView>;

    closed spec fn view(&self) -> Map<Seq<char>, CacheEntryView> {
        slots_map(self.entries@)
    }
}

impl ContentCache {
    /// The cache keeps one entry per logical path.
    pub closed spec fn wf(&self) -> bool {
        keys_unique(self.entries@)
    }

    /// An empty cache.
    pub fn new() -> (r: Self)
        ensures
            r.wf(),
            r@ == Map::<Seq<char>, CacheEntryView>::empty(),
    {
        ContentCache { entries: Vec::new() }
    }

    /// Decide at run time whether the cache invariant holds: one entry per
    /// logical path.
    pub fn check_wf(&self) -> (r: bool)
        ensures
            r == self.wf(),
    {
        let mut i: usize = 0;
        while i < self.entries.len()
            invariant
                i <= self.entries@.len(),
                forall|a: int, b: int|
                    0 <= a < b < self.entries@.len() && a < i ==> (
                    #[trigger] self.entries@[a].key@) != (#[trigger] self.entries@[b].key@),
            decreases self.entries@.len() - i,
        {
            let mut j: usize = i + 1;
            while j < self.entries.len()
                invariant
                    i < j,
                    j <= self.entries@.len(),
                    i < self.entries@.len(),
                    forall|b: int|
                        i < b < j ==> (#[trigger] self.entries@[b].key@)
                            != self.entries@[i as int].key@,
                decreases self.entries@.len() - j,
            {
                if str_eq(self.entries[i].key.as_str(), self.entries[j].key.as_str()) {
                    proof {
                        assert(self.entries@[i as int].key@ == self.entries@[j as int].key@);
                        assert(!keys_unique(self.entries@));
                    }
                    return false;
                }
                j = j + 1;
            }
            i = i + 1;
        }
        true
    }

    /// The cached pair of raw text and rendered markup for a logical path,
    /// cloned out, or nothing on a miss.
    pub fn get(&self, name: &str) -> (r: Option<(String, String)>)
        requires
            self.wf(),
        ensures
            r matches Some(e) ==> self@.contains_key(name@) && self@[name@]
                == (CacheEntryView { raw: e.0@, rendered: e.1@ }),
            r is None ==> !self@.contains_key(name@),
    {
        let mut i: usize = 0;
        while i < self.entries.len()
            invariant
                i <= self.entries@.len(),
                self.wf(),
                forall|j: int| 0 <= j < i ==> (#[trigger] self.entries@[j].key@) != name@,
            decreases self.entries@.len() - i,
        {
            if str_eq(self.entries[i].key.as_str(), name) {
                proof {
                    lemma_slots_map_at(self.entries@, i as int);
                }
                let slot = &self.entries[i];
                return Some((slot.raw.clone(), slot.rendered.clone()));
            }
            i = i + 1;
        }
        proof {
            lemma_slots_map_absent(self.entries@, name@);
        }
        None
    }

    /// Record the pair read and rendered for a logical path, replacing any
    /// entry that was there.
    pub fn store(&mut self, name: String, raw: String, rendered: String)
        requires
            old(self).wf(),
        ensures
            final(self).wf(),
            final(self)@ == old(self)@.insert(
                name@,
                CacheEntryView { raw: raw@, rendered: rendered@ },
            ),
    {
        let ghost olds = self.entries@;
        let mut i: usize = 0;
        while i < self.entries.len()
            invariant
                i <= self.entries@.len(),
                self.entries@ == olds,
                olds == old(self).entries@,
                keys_unique(olds),
                forall|j: int| 0 <= j < i ==> (#[trigger] self.entries@[j].key@) != name@,
            decreases self.entries@.len() - i,
        {
            if str_eq(self.entries[i].key.as_str(), name.as_str()) {
                let slot = CacheSlot { key: name, raw, rendered };
                let ghost gslot = slot;
                let _ = self.entries.remove(i);
                self.entries.insert(i, slot);
                proof {
                    assert(self.entries@ =~= olds.update(i as int, gslot));
                    lemma_slots_map_update(olds, i as int, gslot);
                }
                return ;
            }
            i = i + 1;
        }
        let slot = CacheSlot { key: name, raw, rendered };
        let ghost gslot = slot;
        self.entries.push(slot);
        proof {
            assert(self.entries@ =~= olds.push(gslot));
            lemma_slots_map_push(olds, gslot);
            assert(keys_unique(self.entries@)) by {
                assert(forall|j: int| 0 <= j < olds.len() ==> #[trigger] self.entries@[j]
                    == olds[j]);
            }
        }
    }

    /// Remove the entry for a logical path if one is there; otherwise do
    /// nothing.
    pub fn invalidate(&mut self, name: &str)
        requires
            old(self).wf(),
        ensures
            final(self).wf(),
            final(self)@ == old(self)@.remove(name@),
    {
        let ghost olds = self.entries@;
        let mut i: usize = 0;
        while i < self.entries.len()
            invariant
                i <= self.entries@.len(),
                self.entries@ == olds,
                olds == old(self).entries@,
                keys_unique(olds),
                forall|j: int| 0 <= j < i ==> (#[trigger] self.entries@[j].key@) != name@,
            decreases self.entries@.len() - i,
        {
            if str_eq(self.entries[i].key.as_str(), name) {
                let _ = self.entries.remove(i);
                proof {
                    lemma_slots_map_remove(olds, i as int);
                }
                return ;
            }
            i = i + 1;
        }
        proof {
            lemma_slots_map_absent(olds, name@);
            assert(old(self)@.remove(name@) =~= old(self)@);
        }
    }
}

} // verus!
