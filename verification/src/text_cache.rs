//! The renderer's shaped-text cache: entries keyed by text, font size key and
//! style, with least-recently-used eviction once the cache grows past its
//! bound.
use vstd::prelude::*;

use crate::text::str_eq;

verus! {

/// Maximum entries in the text shaping cache.
pub const TEXT_CACHE_MAX_ENTRIES: usize = 512;

/// Size the cache is cut back to when it overflows (three quarters of the bound).
pub const TEXT_CACHE_TARGET_ENTRIES: usize = 384;

/// Key of a cached shaping: text, font size in tenths, bold, italic.
pub struct TextCacheKey {
    pub text: String,
    pub size_key: u32,
    pub bold: bool,
    pub italic: bool,
}

/// Plain-value view of a cache key.
pub type KeyView = (Seq<char>, u32, bool, bool);

impl TextCacheKey {
    pub open spec fn view_key(&self) -> KeyView {
        (self.text@, self.size_key, self.bold, self.italic)
    }
}

/// One cache entry: its key, the cached value and the access stamp of its
/// last use.
pub struct CachedText<V> {
    pub key: TextCacheKey,
    pub value: V,
    pub last_used: u64,
}

/// Shaped-text cache with least-recently-used eviction.
pub struct TextCache<V> {
    entries: Vec<CachedText<V>>,
    access_counter: u64,
}

/// Keys of a sequence of entries are pairwise distinct.
pub open spec fn keys_distinct<V>(s: Seq<CachedText<V>>) -> bool {
    forall|i: int, j: int|
        0 <= i < s.len() && 0 <= j < s.len() && i != j ==> s[i].key.view_key() != s[j].key.view_key()
}

/// Access stamps of a sequence of entries are pairwise distinct.
pub open spec fn stamps_distinct<V>(s: Seq<CachedText<V>>) -> bool {
    forall|i: int, j: int|
        0 <= i < s.len() && 0 <= j < s.len() && i != j ==> s[i].last_used != s[j].last_used
}

/// No stamp exceeds `bound`.
pub open spec fn stamps_at_most<V>(s: Seq<CachedText<V>>, bound: u64) -> bool {
    forall|i: int| 0 <= i < s.len() ==> s[i].last_used <= bound
}

/// `kept` is what is left of `old` when the `old.len() - kept.len()` least
/// recently used entries are dropped: every kept entry comes from `old`, and
/// every dropped entry was used before every kept one.
pub open spec fn keeps_most_recent<V>(old: Seq<CachedText<V>>, kept: Seq<CachedText<V>>) -> bool {
    &&& forall|i: int| 0 <= i < kept.len() ==> old.contains(#[trigger] kept[i])
    &&& forall|i: int, j: int|
        0 <= i < old.len() && 0 <= j < kept.len() && !kept.contains(#[trigger] old[i])
            ==> old[i].last_used < #[trigger] kept[j].last_used
}

/// Index of the entry with key `k`, if any.
pub open spec fn index_of_key<V>(s: Seq<CachedText<V>>, k: KeyView) -> int {
    choose|i: int| 0 <= i < s.len() && s[i].key.view_key() == k
}

/// Whether some entry has key `k`.
pub open spec fn has_key<V>(s: Seq<CachedText<V>>, k: KeyView) -> bool {
    exists|i: int| 0 <= i < s.len() && s[i].key.view_key() == k
}

/// What a lookup gives back of a store: keys being distinct, the entry found
/// under a key is the one entry held under it, so once `value` is stored
/// under `k`, any entry a lookup of `k` reports holds `value`.
pub proof fn lemma_lookup_finds_stored<V>(s: Seq<CachedText<V>>, k: KeyView, value: V, i: int)
    requires
        keys_distinct(s),
        has_key(s, k),
        s[index_of_key(s, k)].value == value,
        0 <= i < s.len(),
        s[i].key.view_key() == k,
    ensures
        s[i].value == value,
{
    let j = index_of_key(s, k);
    assert(0 <= j < s.len() && s[j].key.view_key() == k);
    assert(i == j);
}

/// Looking the same key up twice gives the same value: a hit only restamps
/// the entry it finds, so the entry a second lookup of the key finds is the
/// same entry, holding what the first lookup found.
pub proof fn lemma_repeated_lookup_same_value<V>(
    s0: Seq<CachedText<V>>,
    i: int,
    stamp: u64,
    s1: Seq<CachedText<V>>,
    j: int,
    k: KeyView,
)
    requires
        keys_distinct(s0),
        0 <= i < s0.len(),
        s0[i].key.view_key() == k,
        s1 == s0.update(i, CachedText { key: s0[i].key, value: s0[i].value, last_used: stamp }),
        0 <= j < s1.len(),
        s1[j].key.view_key() == k,
    ensures
        j == i,
        s1[j].value == s0[i].value,
{
    if j != i {
        assert(s1[j] == s0[j]);
    }
}

/// What storing `value` under `k` with stamp `now` makes of `old`: keys and
/// stamps stay distinct, the entry under `k` holds `value` stamped `now`, the
/// other entries are exactly the old entries with other keys, and the length
/// grows by one exactly when `k` was new.
pub open spec fn put_result<V>(old: Seq<CachedText<V>>, new: Seq<CachedText<V>>, k: KeyView, value: V, now: u64) -> bool {
    &&& keys_distinct(new)
    &&& stamps_distinct(new)
    &&& stamps_at_most(new, now)
    &&& has_key(new, k)
    &&& new[index_of_key(new, k)].value == value
    &&& new[index_of_key(new, k)].last_used == now
    &&& forall|i: int| 0 <= i < new.len() && new[i].key.view_key() != k ==> old.contains(#[trigger] new[i])
    &&& forall|i: int| 0 <= i < old.len() && old[i].key.view_key() != k ==> new.contains(#[trigger] old[i])
    &&& has_key(old, k) ==> new.len() == old.len()
    &&& !has_key(old, k) ==> new.len() == old.len() + 1
}

/// What storing `value` under `k` with stamp `now`, and evicting the least
/// recently used entries if the cache then overflows, makes of `old`:
/// - the entry under `k` holds `value` stamped `now`;
/// - every other entry is an old one, and each old entry under another key
///   stays unless eviction ran, in which case only entries older than every
///   kept one are dropped;
/// - the length grows by one for a new key, stays for a known key, and falls
///   to `TEXT_CACHE_TARGET_ENTRIES` when a new key overflows a full cache.
pub open spec fn stored<V>(old: Seq<CachedText<V>>, new: Seq<CachedText<V>>, k: KeyView, value: V, now: u64) -> bool {
    &&& has_key(new, k)
    &&& new[index_of_key(new, k)].value == value
    &&& new[index_of_key(new, k)].last_used == now
    &&& forall|i: int| 0 <= i < new.len() && new[i].key.view_key() != k ==> old.contains(#[trigger] new[i])
    &&& (has_key(old, k) || old.len() < TEXT_CACHE_MAX_ENTRIES) ==> forall|i: int|
        0 <= i < old.len() && old[i].key.view_key() != k ==> new.contains(#[trigger] old[i])
    &&& forall|i: int, j: int|
        0 <= i < old.len() && 0 <= j < new.len() && old[i].key.view_key() != k && !new.contains(#[trigger] old[i])
            ==> old[i].last_used < #[trigger] new[j].last_used
    &&& has_key(old, k) ==> new.len() == old.len()
    &&& !has_key(old, k) && old.len() < TEXT_CACHE_MAX_ENTRIES ==> new.len() == old.len() + 1
    &&& !has_key(old, k) && old.len() == TEXT_CACHE_MAX_ENTRIES ==> new.len() == TEXT_CACHE_TARGET_ENTRIES
}

/// Evicting after a put keeps the freshly stored entry (it is the most
/// recent one), and only drops old entries that are older than every kept one.
proof fn lemma_put_then_evict<V>(
    orig: Seq<CachedText<V>>,
    mid: Seq<CachedText<V>>,
    s: Seq<CachedText<V>>,
    k: KeyView,
    value: V,
    now: u64,
)
    requires
        put_result(orig, mid, k, value, now),
        keeps_most_recent(mid, s),
        keys_distinct(s),
        mid.len() <= TEXT_CACHE_MAX_ENTRIES ==> s == mid,
        mid.len() > TEXT_CACHE_MAX_ENTRIES ==> s.len() == TEXT_CACHE_TARGET_ENTRIES,
        orig.len() <= TEXT_CACHE_MAX_ENTRIES,
    ensures
        (has_key(orig, k) || orig.len() < TEXT_CACHE_MAX_ENTRIES) ==> forall|i: int|
            0 <= i < orig.len() && orig[i].key.view_key() != k ==> s.contains(#[trigger] orig[i]),
        has_key(s, k),
        s[index_of_key(s, k)].value == value,
        s[index_of_key(s, k)].last_used == now,
        forall|i: int| 0 <= i < s.len() && s[i].key.view_key() != k ==> orig.contains(#[trigger] s[i]),
        forall|i: int, j: int|
            0 <= i < orig.len() && 0 <= j < s.len() && orig[i].key.view_key() != k && !s.contains(
                #[trigger] orig[i],
            ) ==> orig[i].last_used < #[trigger] s[j].last_used,
{
    let wi = index_of_key(mid, k);
    assert(0 <= wi < mid.len() && mid[wi].key.view_key() == k);
    if !s.contains(mid[wi]) {
        assert(s.len() > 0);
        assert(mid.contains(s[0]));
        let z = choose|z: int| 0 <= z < mid.len() && mid[z] == s[0];
        assert(mid[wi].last_used < s[0].last_used);
        assert(mid[z].last_used <= now);
    }
    assert(s.contains(mid[wi]));
    let t = choose|t: int| 0 <= t < s.len() && s[t] == mid[wi];
    assert(s[t].key.view_key() == k);
    assert(has_key(s, k));
    let c = index_of_key(s, k);
    assert(c == t);
    assert forall|a: int|
        0 <= a < s.len() && s[a].key.view_key() != k implies orig.contains(#[trigger] s[a]) by {
        assert(mid.contains(s[a]));
        let b = choose|b: int| 0 <= b < mid.len() && mid[b] == s[a];
        assert(mid[b].key.view_key() != k);
    }
    assert forall|a: int, b: int|
        0 <= a < orig.len() && 0 <= b < s.len() && orig[a].key.view_key() != k && !s.contains(
            #[trigger] orig[a],
        ) implies orig[a].last_used < #[trigger] s[b].last_used by {
        assert(mid.contains(orig[a]));
        let p = choose|p: int| 0 <= p < mid.len() && mid[p] == orig[a];
        assert(!s.contains(mid[p]));
    }
}

/// Removing the entry with the smallest stamp keeps the eviction loop's
/// invariant: keys and stamps stay distinct and bounded, and every entry of
/// `orig` that is gone is older than every entry left.
proof fn lemma_remove_oldest<V>(orig: Seq<CachedText<V>>, before: Seq<CachedText<V>>, m: int, counter: u64)
    requires
        0 <= m < before.len(),
        forall|j: int| 0 <= j < before.len() ==> before[m].last_used <= #[trigger] before[j].last_used,
        keys_distinct(before),
        stamps_distinct(before),
        stamps_at_most(before, counter),
        keeps_most_recent(orig, before),
    ensures
        keys_distinct(before.remove(m)),
        stamps_distinct(before.remove(m)),
        stamps_at_most(before.remove(m), counter),
        keeps_most_recent(orig, before.remove(m)),
{
    let after = before.remove(m);
    assert forall|i: int| 0 <= i < after.len() implies orig.contains(#[trigger] after[i]) by {
        let ib = if i < m { i } else { i + 1 };
        assert(after[i] == before[ib]);
        assert(before.contains(before[ib]));
    }
    assert forall|i: int, j: int|
        0 <= i < orig.len() && 0 <= j < after.len() && !after.contains(#[trigger] orig[i])
            implies orig[i].last_used < #[trigger] after[j].last_used by {
        let jb = if j < m { j } else { j + 1 };
        assert(after[j] == before[jb]);
        assert(before.contains(after[j]));
        if before.contains(orig[i]) {
            let p = choose|p: int| 0 <= p < before.len() && before[p] == orig[i];
            if p != m {
                let pa = if p < m { p } else { p - 1 };
                assert(after[pa] == before[p]);
                assert(after.contains(orig[i]));
            }
            assert(before[m].last_used <= before[jb].last_used);
            assert(before[m].last_used != before[jb].last_used);
        }
    }
    assert forall|i: int, j: int|
        0 <= i < after.len() && 0 <= j < after.len() && i != j implies after[i].key.view_key()
        != after[j].key.view_key() by {
        let ib = if i < m { i } else { i + 1 };
        let jb = if j < m { j } else { j + 1 };
        assert(after[i] == before[ib]);
        assert(after[j] == before[jb]);
    }
    assert forall|i: int, j: int|
        0 <= i < after.len() && 0 <= j < after.len() && i != j implies after[i].last_used
        != after[j].last_used by {
        let ib = if i < m { i } else { i + 1 };
        let jb = if j < m { j } else { j + 1 };
        assert(after[i] == before[ib]);
        assert(after[j] == before[jb]);
    }
    assert forall|i: int| 0 <= i < after.len() implies after[i].last_used <= counter by {
        let ib = if i < m { i } else { i + 1 };
        assert(after[i] == before[ib]);
    }
}

impl<V> TextCache<V> {
    /// The cached entries.
    pub closed spec fn entries(&self) -> Seq<CachedText<V>> {
        self.entries@
    }

    /// The access counter (stamp of the most recent access).
    pub closed spec fn counter(&self) -> u64 {
        self.access_counter
    }

    /// Well-formedness: keys and stamps are distinct, no stamp is ahead of
    /// the counter, and the cache never exceeds its bound.
    pub open spec fn wf(&self) -> bool {
        &&& keys_distinct(self.entries())
        &&& stamps_distinct(self.entries())
        &&& stamps_at_most(self.entries(), self.counter())
        &&& self.entries().len() <= TEXT_CACHE_MAX_ENTRIES
    }

    /// An empty cache.
    pub fn new() -> (r: Self)
        ensures
            r.wf(),
            r.entries() == Seq::<CachedText<V>>::empty(),
            r.counter() == 0,
    {
        TextCache { entries: Vec::new(), access_counter: 0 }
    }

    /// The access counter.
    pub fn access_count(&self) -> (r: u64)
        ensures
            r == self.counter(),
    {
        self.access_counter
    }

    /// Number of cached entries.
    pub fn len(&self) -> (r: usize)
        ensures
            r == self.entries().len(),
    {
        self.entries.len()
    }

    /// Drop every entry (the font family changed). The counter is kept.
    pub fn clear(&mut self)
        requires
            old(self).wf(),
        ensures
            final(self).wf(),
            final(self).entries() == Seq::<CachedText<V>>::empty(),
            final(self).counter() == old(self).counter(),
    {
        self.entries.clear();
    }

    /// The value of the entry at `i`.
    pub fn value_at(&self, i: usize) -> (r: &V)
        requires
            i < self.entries().len(),
        ensures
            *r == self.entries()[i as int].value,
    {
        &self.entries[i].value
    }

    /// Index of the entry cached under the given key, if any.
    pub fn find(&self, text: &str, size_key: u32, bold: bool, italic: bool) -> (r: Option<usize>)
        requires
            self.wf(),
        ensures
            match r {
                Some(i) => i < self.entries().len() && self.entries()[i as int].key.view_key() == (
                text@,
                size_key,
                bold,
                italic,
                ),
                None => !has_key(self.entries(), (text@, size_key, bold, italic)),
            },
    {
        let n = self.entries.len();
        let mut i: usize = 0;
        while i < n
            invariant
                n == self.entries@.len(),
                i <= n,
                forall|j: int|
                    0 <= j < i ==> self.entries@[j].key.view_key() != (text@, size_key, bold, italic),
            decreases n - i,
        {
            let k = &self.entries[i].key;
            if k.size_key == size_key && k.bold == bold && k.italic == italic && str_eq(
                k.text.as_str(),
                text,
            ) {
                return Some(i);
            }
            i = i + 1;
        }
        None
    }

    /// Start a lookup: advance the access counter and, on a hit, stamp the
    /// entry with the new counter value. Returns the entry's index on a hit.
    pub fn access(&mut self, text: &str, size_key: u32, bold: bool, italic: bool) -> (r: Option<
        usize,
    >)
        requires
            old(self).wf(),
            old(self).counter() < u64::MAX,
        ensures
            final(self).wf(),
            final(self).counter() == old(self).counter() + 1,
            final(self).entries().len() == old(self).entries().len(),
            match r {
                Some(i) => {
                    &&& i < old(self).entries().len()
                    &&& old(self).entries()[i as int].key.view_key() == (text@, size_key, bold, italic)
                    &&& final(self).entries() == old(self).entries().update(
                        i as int,
                        CachedText {
                            key: old(self).entries()[i as int].key,
                            value: old(self).entries()[i as int].value,
                            last_used: final(self).counter(),
                        },
                    )
                },
                None => {
                    &&& !has_key(old(self).entries(), (text@, size_key, bold, italic))
                    &&& final(self).entries() == old(self).entries()
                },
            },
    {
        self.access_counter = self.access_counter + 1;
        let found = self.find(text, size_key, bold, italic);
        match found {
            Some(i) => {
                let ghost before = self.entries@;
                let now = self.access_counter;
                self.entries[i].last_used = now;
                assert(self.entries@ =~= before.update(
                    i as int,
                    CachedText { key: before[i as int].key, value: before[i as int].value, last_used: now },
                ));
                Some(i)
            },
            None => None,
        }
    }

    /// Cache `value` under the given key, stamped with the current counter,
    /// replacing an entry with the same key; then evict least recently used
    /// entries if the cache grew past its bound.
    pub fn insert(&mut self, key: TextCacheKey, value: V)
        requires
            old(self).wf(),
            forall|i: int|
                0 <= i < old(self).entries().len() ==> old(self).entries()[i].last_used < old(self).counter(),
        ensures
            final(self).wf(),
            final(self).counter() == old(self).counter(),
            stored(old(self).entries(), final(self).entries(), key.view_key(), value, old(self).counter()),
    {
        let ghost k = key.view_key();
        let ghost orig = self.entries@;
        let ghost now = self.access_counter;
        self.put(key, value);
        let ghost mid = self.entries@;
        self.evict_lru_if_needed();
        proof {
            lemma_put_then_evict(orig, mid, self.entries@, k, value, now);
        }
    }

    /// Store `value` under `key` with the current stamp, replacing an entry
    /// with the same key or appending a new one.
    fn put(&mut self, key: TextCacheKey, value: V)
        requires
            old(self).wf(),
            forall|i: int|
                0 <= i < old(self).entries().len() ==> old(self).entries()[i].last_used < old(self).counter(),
        ensures
            final(self).counter() == old(self).counter(),
            put_result(old(self).entries(), final(self).entries(), key.view_key(), value, old(self).counter()),
    {
        let ghost k = key.view_key();
        let now = self.access_counter;
        let found = self.find(key.text.as_str(), key.size_key, key.bold, key.italic);
        let entry = CachedText { key, value, last_used: now };
        let ghost before = self.entries@;
        match found {
            Some(i) => {
                self.entries.set(i, entry);
                proof {
                    let s = self.entries@;
                    assert(s == before.update(i as int, entry));
                    assert forall|a: int|
                        0 <= a < s.len() && s[a].key.view_key() != k implies before.contains(#[trigger] s[a]) by {
                        assert(a != i);
                        assert(s[a] == before[a]);
                    }
                    assert forall|a: int|
                        0 <= a < before.len() && before[a].key.view_key() != k implies s.contains(#[trigger] before[a]) by {
                        assert(s[a] == before[a]);
                    }
                    assert(s[i as int].key.view_key() == k);
                }
            },
            None => {
                self.entries.push(entry);
                proof {
                    let s = self.entries@;
                    let n = before.len();
                    assert(s == before.push(entry));
                    assert(s[n as int].key.view_key() == k);
                    assert forall|a: int|
                        0 <= a < s.len() && s[a].key.view_key() != k implies before.contains(#[trigger] s[a]) by {
                        assert(a < n);
                        assert(s[a] == before[a]);
                    }
                    assert forall|a: int|
                        0 <= a < before.len() && before[a].key.view_key() != k implies s.contains(#[trigger] before[a]) by {
                        assert(s[a] == before[a]);
                    }
                }
            },
        }
    }

    /// If the cache holds more than `TEXT_CACHE_MAX_ENTRIES` entries, drop the
    /// least recently used ones until `TEXT_CACHE_TARGET_ENTRIES` remain;
    /// otherwise leave it unchanged.
    pub fn evict_lru_if_needed(&mut self)
        requires
            keys_distinct(old(self).entries()),
            stamps_distinct(old(self).entries()),
            stamps_at_most(old(self).entries(), old(self).counter()),
        ensures
            final(self).wf(),
            final(self).counter() == old(self).counter(),
            old(self).entries().len() <= TEXT_CACHE_MAX_ENTRIES ==> final(self).entries() == old(self).entries(),
            old(self).entries().len() > TEXT_CACHE_MAX_ENTRIES ==> final(self).entries().len()
                == TEXT_CACHE_TARGET_ENTRIES,
            keeps_most_recent(old(self).entries(), final(self).entries()),
    {
        let ghost orig = self.entries@;
        if self.entries.len() <= TEXT_CACHE_MAX_ENTRIES {
            proof {
                assert forall|i: int| 0 <= i < orig.len() implies orig.contains(#[trigger] orig[i]) by {}
            }
            return;
        }
        while self.entries.len() > TEXT_CACHE_TARGET_ENTRIES
            invariant
                TEXT_CACHE_TARGET_ENTRIES <= self.entries@.len() <= orig.len(),
                keys_distinct(self.entries@),
                stamps_distinct(self.entries@),
                stamps_at_most(self.entries@, self.access_counter),
                keeps_most_recent(orig, self.entries@),
                self.access_counter == old(self).access_counter,
            decreases self.entries@.len(),
        {
            let ghost before = self.entries@;
            let m = self.index_of_oldest();
            let _removed = self.entries.remove(m);
            proof {
                lemma_remove_oldest(orig, before, m as int, self.access_counter);
                assert(self.entries@ =~= before.remove(m as int));
            }
        }
    }

    /// Index of the entry with the smallest access stamp.
    fn index_of_oldest(&self) -> (r: usize)
        requires
            self.entries@.len() > 0,
        ensures
            r < self.entries@.len(),
            forall|j: int|
                0 <= j < self.entries@.len() ==> self.entries@[r as int].last_used
                    <= self.entries@[j].last_used,
    {
        let n = self.entries.len();
        let mut best: usize = 0;
        let mut i: usize = 1;
        while i < n
            invariant
                n == self.entries@.len(),
                1 <= i <= n,
                best < n,
                forall|j: int|
                    0 <= j < i ==> self.entries@[best as int].last_used <= self.entries@[j].last_used,
            decreases n - i,
        {
            if self.entries[i].last_used < self.entries[best].last_used {
                best = i;
            }
            i = i + 1;
        }
        best
    }
}

} // verus!
