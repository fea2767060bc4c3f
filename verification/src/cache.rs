//! The unwind cache: a bounded store of decoded recipes keyed by the
//! function start address an exidx entry covers, so that samples landing in
//! an already-decoded function pay no re-decoding cost.

use vstd::prelude::*;
use crate::types::UnwindOperation;

verus! {

/// How many recipes the cache holds before the oldest is evicted.
pub const CACHE_CAPACITY: usize = 1000;

/// One cached recipe: the covered range `[start, end)` (an open end when
/// the entry is the table's last) and the decoded operations.
pub struct CacheEntry {
    pub start: u32,
    pub end: Option<u32>,
    pub recipe: Vec<UnwindOperation>,
}

/// Ghost mirror of a cached recipe.
pub struct CacheEntryModel {
    pub start: u32,
    pub end: Option<u32>,
    pub recipe: Seq<UnwindOperation>,
}

impl View for CacheEntry {
    type V = CacheEntryModel;

    open spec fn view(&self) -> CacheEntryModel {
        CacheEntryModel { start: self.start, end: self.end, recipe: self.recipe@ }
    }
}

/// Does the cached entry cover this program counter?
pub open spec fn entry_covers(e: CacheEntryModel, pc: u32) -> bool {
    e.start <= pc && match e.end {
        Some(en) => pc < en,
        None => true,
    }
}

/// The first cached entry covering `pc`, scanning from index `i`.
#[verifier::opaque]
pub open spec fn cache_lookup_from(c: Seq<CacheEntryModel>, pc: u32, i: int) -> Option<int>
    decreases c.len() - i,
{
    if i < 0 || i >= c.len() {
        None
    } else if entry_covers(c[i], pc) {
        Some(i)
    } else {
        cache_lookup_from(c, pc, i + 1)
    }
}

/// The first cached entry covering `pc`, if any.
pub open spec fn spec_cache_lookup(c: Seq<CacheEntryModel>, pc: u32) -> Option<int> {
    cache_lookup_from(c, pc, 0)
}

/// Inserting evicts the oldest entry once the cache is full, then appends.
pub open spec fn spec_cache_insert(c: Seq<CacheEntryModel>, e: CacheEntryModel) -> Seq<
    CacheEntryModel,
> {
    if c.len() >= CACHE_CAPACITY {
        c.drop_first().push(e)
    } else {
        c.push(e)
    }
}

/// The bounded recipe store.
pub struct UnwindInfoCache {
    entries: Vec<CacheEntry>,
}

impl View for UnwindInfoCache {
    type V = Seq<CacheEntryModel>;

    closed spec fn view(&self) -> Seq<CacheEntryModel> {
        Seq::new(self.entries@.len(), |i: int| self.entries@[i]@)
    }
}

impl UnwindInfoCache {
    /// An empty cache.
    pub fn new() -> (r: UnwindInfoCache)
        ensures
            r@ == Seq::<CacheEntryModel>::empty(),
    {
        let r = UnwindInfoCache { entries: Vec::new() };
        proof {
            assert(r@ =~= Seq::<CacheEntryModel>::empty());
        }
        r
    }

    /// Drop every cached recipe.
    pub fn clear(&mut self)
        ensures
            final(self)@ == Seq::<CacheEntryModel>::empty(),
    {
        self.entries.clear();
        proof {
            assert(self@ =~= Seq::<CacheEntryModel>::empty());
        }
    }

    /// The first cached recipe whose covered range includes `pc`.
    pub fn lookup(&self, pc: u32) -> (r: Option<&CacheEntry>)
        ensures
            match r {
                Some(e) => {
                    &&& spec_cache_lookup(self@, pc) matches Some(j)
                    &&& spec_cache_lookup(self@, pc) == Some(j) ==> 0 <= j < self@.len() && e@
                        == self@[j]
                },
                None => spec_cache_lookup(self@, pc) is None,
            },
    {
        proof {
            reveal(cache_lookup_from);
        }
        let n = self.entries.len();
        let mut i: usize = 0;
        while i < n
            invariant
                n == self.entries@.len(),
                0 <= i <= n,
                cache_lookup_from(self@, pc, 0) == cache_lookup_from(self@, pc, i as int),
            decreases n - i,
        {
            let e = &self.entries[i];
            let covered = e.start <= pc && match e.end {
                Some(en) => pc < en,
                None => true,
            };
            proof {
                reveal(cache_lookup_from);
                assert(self@[i as int] == self.entries@[i as int]@);
            }
            if covered {
                return Some(e);
            }
            i = i + 1;
        }
        proof {
            reveal(cache_lookup_from);
        }
        None
    }

    /// Cache a decoded recipe for the range `[start, end)`.
    pub fn insert(&mut self, start: u32, end: Option<u32>, recipe: Vec<UnwindOperation>)
        ensures
            final(self)@ == spec_cache_insert(
                old(self)@,
                CacheEntryModel { start, end, recipe: recipe@ },
            ),
    {
        let ghost c0 = self@;
        let ghost e = CacheEntryModel { start, end, recipe: recipe@ };
        if self.entries.len() >= CACHE_CAPACITY {
            self.entries.remove(0);
            let ghost c1 = self@;
            proof {
                assert(c1 =~= c0.drop_first());
            }
        }
        self.entries.push(CacheEntry { start, end, recipe });
        proof {
            if c0.len() >= CACHE_CAPACITY {
                assert(self@ =~= c0.drop_first().push(e));
            } else {
                assert(self@ =~= c0.push(e));
            }
        }
    }
}

/// When the scan finds nothing, no entry from `i` on covers `pc`.
pub proof fn lemma_lookup_from_none(c: Seq<CacheEntryModel>, pc: u32, i: int)
    requires
        i >= 0,
    ensures
        cache_lookup_from(c, pc, i) is None ==> forall|k: int|
            i <= k < c.len() ==> !entry_covers(c[k], pc),
    decreases c.len() - i,
{
    reveal(cache_lookup_from);
    if i < c.len() {
        lemma_lookup_from_none(c, pc, i + 1);
    }
}

/// When no entry from `i` on covers `pc`, the scan finds nothing.
pub proof fn lemma_lookup_from_all_uncovered(c: Seq<CacheEntryModel>, pc: u32, i: int)
    requires
        i >= 0,
        forall|k: int| i <= k < c.len() ==> !entry_covers(c[k], pc),
    ensures
        cache_lookup_from(c, pc, i) is None,
    decreases c.len() - i,
{
    reveal(cache_lookup_from);
    if i < c.len() {
        lemma_lookup_from_all_uncovered(c, pc, i + 1);
    }
}

/// The scan returns the first covering entry.
pub proof fn lemma_lookup_from_finds(c: Seq<CacheEntryModel>, pc: u32, i: int, k: int)
    requires
        0 <= i <= k < c.len(),
        entry_covers(c[k], pc),
        forall|j: int| i <= j < k ==> !entry_covers(c[j], pc),
    ensures
        cache_lookup_from(c, pc, i) == Some(k),
    decreases k - i,
{
    reveal(cache_lookup_from);
    if i < k {
        lemma_lookup_from_finds(c, pc, i + 1, k);
    }
}

} // verus!
