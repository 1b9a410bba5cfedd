//! The screenshot cache: a bounded, time-expiring store mapping a capture
//! rectangle to its encoded image payload.
//!
//! Keys match structurally on all four rectangle fields. Entries expire after
//! a fixed time-to-live; when an insertion would exceed the byte budget,
//! entries are evicted oldest-first (by capture age, not access recency)
//! until enough space is freed or the store is empty. Time enters every
//! operation as an explicit millisecond reading of the process's monotonic
//! clock, so the logic is checked for every possible clock value.

use vstd::prelude::*;
use crate::encode::is_data_uri_payload;
use crate::geometry::CaptureBounds;

verus! {

/// Byte budget for all cached payloads together.
pub const DEFAULT_MAX_CACHE_BYTES: usize = 50 * 1024 * 1024;

/// How long a cached capture stays fresh, in milliseconds.
pub const DEFAULT_CACHE_TTL_MS: u64 = 30 * 1000;

/// How long the cached screen-geometry snapshot stays fresh: a longer window
/// than the entry TTL, because monitor geometry changes far less often.
pub const SCREEN_INFO_TTL_MS: u64 = 60 * 1000;

/// Initial reserved capacity of the reusable encode buffer.
pub const INITIAL_BUFFER_CAPACITY: usize = 1024 * 1024;

/// One cached capture: the encoded payload, when it was produced, and how
/// many bytes it holds. Never partially updated — always replaced wholesale.
#[derive(Debug)]
pub struct CacheEntry {
    pub key: CaptureBounds,
    pub payload: String,
    pub captured_at: u64,
    pub size_bytes: usize,
}

/// The last-queried screen geometry, kept with its own freshness window.
#[derive(Clone, Copy, Debug, PartialEq, Eq, Structural)]
pub struct ScreenGeom {
    pub width: u32,
    pub height: u32,
    pub cached_at: u64,
}

/// Total payload bytes of a sequence of entries.
pub open spec fn sum_sizes(s: Seq<CacheEntry>) -> int
    decreases s.len(),
{
    if s.len() == 0 {
        0
    } else {
        s[0].size_bytes + sum_sizes(s.skip(1))
    }
}

/// No two entries share a key.
pub open spec fn keys_unique(s: Seq<CacheEntry>) -> bool {
    forall|i: int, j: int| 0 <= i < j < s.len() ==> s[i].key != s[j].key
}

/// Capture times never decrease along the sequence: position order is age
/// order, which is what eviction relies on.
pub open spec fn times_sorted(s: Seq<CacheEntry>) -> bool {
    forall|i: int, j: int| 0 <= i <= j < s.len() ==> s[i].captured_at <= s[j].captured_at
}

/// Every recorded size is the byte length of its payload.
pub open spec fn sizes_consistent(s: Seq<CacheEntry>) -> bool {
    forall|i: int| 0 <= i < s.len() ==> (#[trigger] s[i]).size_bytes == payload_bytes(s[i].payload)
}

/// Every entry was captured at or before `now`: the clock is monotonic.
pub open spec fn all_at_most(s: Seq<CacheEntry>, now: u64) -> bool {
    forall|i: int| 0 <= i < s.len() ==> (#[trigger] s[i]).captured_at <= now
}

/// Every stored payload is a well-formed image payload (the fixed tag
/// followed by base64 text). The capture path preserves this; it holds of
/// any cache driven only through it.
pub open spec fn payloads_shaped(s: Seq<CacheEntry>) -> bool {
    forall|i: int| 0 <= i < s.len() ==> is_data_uri_payload((#[trigger] s[i]).payload@)
}

/// Some entry carries this key.
pub open spec fn has_key(s: Seq<CacheEntry>, k: CaptureBounds) -> bool {
    exists|i: int| 0 <= i < s.len() && (#[trigger] s[i]).key == k
}

/// The position of the entry with this key (meaningful when `has_key` holds
/// and keys are unique).
pub open spec fn key_index(s: Seq<CacheEntry>, k: CaptureBounds) -> int {
    choose|i: int| 0 <= i < s.len() && (#[trigger] s[i]).key == k
}

/// What a cache probe returns: the stored payload if an entry with this key
/// exists and is younger than the TTL, otherwise nothing.
pub open spec fn lookup_fresh(s: Seq<CacheEntry>, k: CaptureBounds, now: u64, ttl: u64) -> Option<
    String,
> {
    if has_key(s, k) && now - s[key_index(s, k)].captured_at < ttl {
        Some(s[key_index(s, k)].payload)
    } else {
        None
    }
}

/// What a cache probe leaves behind: an entry with this key that has outlived
/// the TTL is removed; everything else stays.
pub open spec fn drop_stale_key(
    s: Seq<CacheEntry>,
    k: CaptureBounds,
    now: u64,
    ttl: u64,
) -> Seq<CacheEntry> {
    if has_key(s, k) && now - s[key_index(s, k)].captured_at >= ttl {
        s.remove(key_index(s, k))
    } else {
        s
    }
}

/// The sequence with the entry of this key removed, if present.
pub open spec fn remove_key(s: Seq<CacheEntry>, k: CaptureBounds) -> Seq<CacheEntry> {
    if has_key(s, k) {
        s.remove(key_index(s, k))
    } else {
        s
    }
}

/// How many oldest entries must leave so that at least `needed` bytes are
/// freed: the shortest prefix whose sizes sum to `needed` or more, or the
/// whole sequence when even that is not enough.
pub open spec fn evict_count(s: Seq<CacheEntry>, needed: int) -> int
    decreases s.len(),
{
    if s.len() == 0 {
        0
    } else if s[0].size_bytes >= needed {
        1
    } else {
        1 + evict_count(s.skip(1), needed - s[0].size_bytes)
    }
}

/// The state after inserting a capture. The budget is tested over the whole
/// store first — an entry about to be replaced under the same key still
/// counts — and when the payload would push that total past the budget, the
/// oldest entries are evicted until enough is freed. Only then is the
/// surviving same-key entry, if any, dropped and the new entry appended.
pub open spec fn insert_spec(
    s: Seq<CacheEntry>,
    k: CaptureBounds,
    p: String,
    t: u64,
    max: int,
) -> Seq<CacheEntry> {
    let s1 = if sum_sizes(s) + payload_bytes(p) > max {
        s.skip(evict_count(s, payload_bytes(p)))
    } else {
        s
    };
    remove_key(s1, k).push(
        CacheEntry { key: k, payload: p, captured_at: t, size_bytes: payload_bytes(p) as usize },
    )
}

/// The entries that a TTL sweep retains: those younger than the TTL.
pub open spec fn keep_fresh(s: Seq<CacheEntry>, now: u64, ttl: u64) -> Seq<CacheEntry>
    decreases s.len(),
{
    if s.len() == 0 {
        Seq::empty()
    } else if now - s[0].captured_at < ttl {
        seq![s[0]] + keep_fresh(s.skip(1), now, ttl)
    } else {
        keep_fresh(s.skip(1), now, ttl)
    }
}

/// How many entries have outlived the TTL strictly (age greater than TTL),
/// as reported by the statistics query.
pub open spec fn count_expired(s: Seq<CacheEntry>, now: u64, ttl: u64) -> int
    decreases s.len(),
{
    if s.len() == 0 {
        0
    } else {
        (if now - s[0].captured_at > ttl {
            1int
        } else {
            0int
        }) + count_expired(s.skip(1), now, ttl)
    }
}

/// Byte length of a payload string (UTF-8 encoding; the capture path only
/// produces ASCII data URIs, for which this equals the character count).
pub open spec fn payload_bytes(p: String) -> int {
    (vstd::utf8::encode_utf8(p@).len() as usize) as int
}

pub proof fn lemma_sum_nonneg(s: Seq<CacheEntry>)
    ensures
        sum_sizes(s) >= 0,
    decreases s.len(),
{
    if s.len() > 0 {
        lemma_sum_nonneg(s.skip(1));
    }
}

pub proof fn lemma_sum_remove(s: Seq<CacheEntry>, i: int)
    requires
        0 <= i < s.len(),
    ensures
        sum_sizes(s.remove(i)) == sum_sizes(s) - s[i].size_bytes,
    decreases s.len(),
{
    if i == 0 {
        assert(s.remove(0) =~= s.skip(1));
    } else {
        assert(s.remove(i).skip(1) =~= s.skip(1).remove(i - 1));
        lemma_sum_remove(s.skip(1), i - 1);
    }
}

pub proof fn lemma_evict_count_bounds(s: Seq<CacheEntry>, needed: int)
    ensures
        0 <= evict_count(s, needed) <= s.len(),
        s.len() > 0 ==> evict_count(s, needed) >= 1,
    decreases s.len(),
{
    if s.len() > 0 && s[0].size_bytes < needed {
        lemma_evict_count_bounds(s.skip(1), needed - s[0].size_bytes);
    }
}

/// Eviction frees what was asked of it, unless it empties the store.
pub proof fn lemma_evict_frees(s: Seq<CacheEntry>, needed: int)
    ensures
        evict_count(s, needed) == s.len() || sum_sizes(s) - sum_sizes(
            s.skip(evict_count(s, needed)),
        ) >= needed,
    decreases s.len(),
{
    if s.len() == 0 {
    } else if s[0].size_bytes >= needed {
        assert(sum_sizes(s) == s[0].size_bytes + sum_sizes(s.skip(1)));
    } else {
        let c = evict_count(s.skip(1), needed - s[0].size_bytes);
        lemma_evict_count_bounds(s.skip(1), needed - s[0].size_bytes);
        lemma_evict_frees(s.skip(1), needed - s[0].size_bytes);
        assert(s.skip(1 + c) =~= s.skip(1).skip(c));
        assert(sum_sizes(s) == s[0].size_bytes + sum_sizes(s.skip(1)));
    }
}

/// The bounded, time-expiring screenshot store, together with the cached
/// screen-geometry snapshot and the reusable encode buffer. Constructed once
/// at process start; concurrent access is serialized by the caller's lock.
pub struct ScreenshotCache {
    entries: Vec<CacheEntry>,
    screen_info: Option<ScreenGeom>,
    png_buffer: Vec<u8>,
    max_cache_size: usize,
    cache_ttl_ms: u64,
}

impl ScreenshotCache {
    /// The cached entries, oldest first.
    pub closed spec fn entries_seq(self) -> Seq<CacheEntry> {
        self.entries@
    }

    /// The cached screen-geometry snapshot, if any.
    pub closed spec fn geom(self) -> Option<ScreenGeom> {
        self.screen_info
    }

    /// The bytes held by the reusable encode buffer.
    pub closed spec fn buffer(self) -> Seq<u8> {
        self.png_buffer@
    }

    /// The byte budget.
    pub closed spec fn max_bytes(self) -> int {
        self.max_cache_size as int
    }

    /// The entry time-to-live in milliseconds.
    pub closed spec fn ttl_ms(self) -> u64 {
        self.cache_ttl_ms
    }

    /// Well-formedness: unique keys, entries ordered by capture age,
    /// recorded sizes equal to payload sizes, and the byte budget respected —
    /// except that one single entry is allowed to exceed the budget alone
    /// (returning the image outranks strict budget adherence).
    pub open spec fn wf(self) -> bool {
        &&& keys_unique(self.entries_seq())
        &&& times_sorted(self.entries_seq())
        &&& sizes_consistent(self.entries_seq())
        &&& (sum_sizes(self.entries_seq()) <= self.max_bytes() || self.entries_seq().len() <= 1)
    }

    /// The clock reading `now` is not earlier than anything recorded: what a
    /// monotonic clock guarantees to every caller.
    pub open spec fn time_ok(self, now: u64) -> bool {
        &&& all_at_most(self.entries_seq(), now)
        &&& (self.geom() matches Some(g) ==> g.cached_at <= now)
    }

    /// Whether the screen-geometry snapshot is absent or has outlived its
    /// freshness window at this clock reading.
    pub open spec fn geom_stale_at(self, now: u64) -> bool {
        match self.geom() {
            Option::None => true,
            Option::Some(g) => now - g.cached_at > SCREEN_INFO_TTL_MS,
        }
    }

    /// An empty cache with the default budget and time-to-live and a
    /// pre-reserved encode buffer.
    pub fn new() -> (r: ScreenshotCache)
        ensures
            r.wf(),
            r.entries_seq() == Seq::<CacheEntry>::empty(),
            r.geom() is None,
            r.buffer() == Seq::<u8>::empty(),
            r.max_bytes() == DEFAULT_MAX_CACHE_BYTES as int,
            r.ttl_ms() == DEFAULT_CACHE_TTL_MS,
            forall|t: u64| r.time_ok(t),
            payloads_shaped(r.entries_seq()),
    {
        ScreenshotCache {
            entries: Vec::new(),
            screen_info: None,
            png_buffer: Vec::with_capacity(INITIAL_BUFFER_CAPACITY),
            max_cache_size: DEFAULT_MAX_CACHE_BYTES,
            cache_ttl_ms: DEFAULT_CACHE_TTL_MS,
        }
    }

    /// An empty cache with explicit policy constants, for hosts that need a
    /// different byte budget or time-to-live.
    pub fn with_policy(max_total_bytes: usize, ttl_ms: u64) -> (r: ScreenshotCache)
        ensures
            r.wf(),
            r.entries_seq() == Seq::<CacheEntry>::empty(),
            r.geom() is None,
            r.buffer() == Seq::<u8>::empty(),
            r.max_bytes() == max_total_bytes as int,
            r.ttl_ms() == ttl_ms,
            forall|t: u64| r.time_ok(t),
            payloads_shaped(r.entries_seq()),
    {
        ScreenshotCache {
            entries: Vec::new(),
            screen_info: None,
            png_buffer: Vec::with_capacity(INITIAL_BUFFER_CAPACITY),
            max_cache_size: max_total_bytes,
            cache_ttl_ms: ttl_ms,
        }
    }

    /// The position of the entry with this key, if any.
    fn find_key(&self, bounds: &CaptureBounds) -> (r: Option<usize>)
        ensures
            match r {
                Some(i) => i < self.entries_seq().len() && self.entries_seq()[i as int].key
                    == *bounds,
                None => !has_key(self.entries_seq(), *bounds),
            },
    {
        let n = self.entries.len();
        let mut i: usize = 0;
        while i < n
            invariant
                0 <= i <= n,
                n == self.entries@.len(),
                forall|j: int| 0 <= j < i ==> (#[trigger] self.entries@[j]).key != *bounds,
            decreases n - i,
        {
            if self.entries[i].key == *bounds {
                return Some(i);
            }
            i += 1;
        }
        None
    }

    /// With unique keys, any position holding the key is `key_index`.
    proof fn lemma_key_index_is(s: Seq<CacheEntry>, k: CaptureBounds, i: int)
        requires
            keys_unique(s),
            0 <= i < s.len(),
            s[i].key == k,
        ensures
            has_key(s, k),
            key_index(s, k) == i,
    {
        assert(has_key(s, k));
        let ki = key_index(s, k);
        assert(0 <= ki < s.len() && s[ki].key == k);
        if ki < i {
            assert(s[ki].key != s[i].key);
            assert(false);
        } else if i < ki {
            assert(s[i].key != s[ki].key);
            assert(false);
        }
    }

    /// Probe the cache for this exact rectangle. A fresh entry's payload is
    /// returned and the store is left untouched; an entry that has outlived
    /// the time-to-live is removed and nothing is returned, so the caller
    /// performs a fresh capture.
    pub fn get_fresh(&mut self, bounds: &CaptureBounds, now_ms: u64) -> (r: Option<String>)
        requires
            old(self).wf(),
            old(self).time_ok(now_ms),
        ensures
            final(self).wf(),
            final(self).time_ok(now_ms),
            r == lookup_fresh(old(self).entries_seq(), *bounds, now_ms, old(self).ttl_ms()),
            final(self).entries_seq() == drop_stale_key(
                old(self).entries_seq(),
                *bounds,
                now_ms,
                old(self).ttl_ms(),
            ),
            final(self).geom() == old(self).geom(),
            final(self).buffer() == old(self).buffer(),
            final(self).max_bytes() == old(self).max_bytes(),
            final(self).ttl_ms() == old(self).ttl_ms(),
            payloads_shaped(old(self).entries_seq()) ==> payloads_shaped(
                final(self).entries_seq(),
            ),
            payloads_shaped(old(self).entries_seq()) ==> (r matches Some(p)
                ==> is_data_uri_payload(p@)),
    {
        let found = self.find_key(bounds);
        match found {
            Some(i) => {
                proof {
                    Self::lemma_key_index_is(self.entries@, *bounds, i as int);
                    assert(self.entries@[i as int].captured_at <= now_ms);
                }
                if now_ms - self.entries[i].captured_at < self.cache_ttl_ms {
                    Some(self.entries[i].payload.clone())
                } else {
                    proof {
                        lemma_sum_remove(self.entries@, i as int);
                    }
                    self.entries.remove(i);
                    None
                }
            },
            None => None,
        }
    }

    /// Total payload bytes currently held.
    fn total_size(&self) -> (r: usize)
        requires
            sum_sizes(self.entries_seq()) <= usize::MAX,
        ensures
            r == sum_sizes(self.entries_seq()),
    {
        let s = Ghost(self.entries@);
        let n = self.entries.len();
        let mut total: usize = 0;
        let mut i: usize = 0;
        proof {
            assert(s@.skip(0) =~= s@);
        }
        while i < n
            invariant
                0 <= i <= n,
                n == s@.len(),
                s@ == self.entries@,
                sum_sizes(s@) <= usize::MAX,
                total + sum_sizes(s@.skip(i as int)) == sum_sizes(s@),
            decreases n - i,
        {
            proof {
                assert(s@.skip(i as int).skip(1) =~= s@.skip(i as int + 1));
                lemma_sum_nonneg(s@.skip(i as int + 1));
                lemma_sum_nonneg(s@.skip(i as int));
            }
            total = total + self.entries[i].size_bytes;
            i += 1;
        }
        proof {
            assert(s@.skip(n as int) =~= Seq::<CacheEntry>::empty());
        }
        total
    }

    /// Remove oldest entries until at least `needed` bytes are freed or the
    /// store is empty.
    fn evict_for(&mut self, needed: usize)
        requires
            sum_sizes(old(self).entries_seq()) <= usize::MAX,
        ensures
            final(self).entries_seq() == old(self).entries_seq().skip(
                evict_count(old(self).entries_seq(), needed as int),
            ),
            final(self).geom() == old(self).geom(),
            final(self).buffer() == old(self).buffer(),
            final(self).max_bytes() == old(self).max_bytes(),
            final(self).ttl_ms() == old(self).ttl_ms(),
    {
        let ghost orig = self.entries@;
        let ghost g_geom = self.screen_info;
        let ghost g_buf = self.png_buffer@;
        let ghost g_max = self.max_cache_size;
        let ghost g_ttl = self.cache_ttl_ms;
        if self.entries.len() == 0 {
            proof {
                assert(orig.skip(0) =~= orig);
            }
            return ;
        }
        // The first removal is unconditional: once eviction triggers, at
        // least the oldest entry leaves.
        proof {
            assert(orig.skip(0) =~= orig);
            assert(orig.skip(0).skip(1) =~= orig.skip(1));
            lemma_sum_nonneg(orig.skip(1));
        }
        let sz0 = self.entries[0].size_bytes;
        self.entries.remove(0);
        let mut freed: usize = sz0;
        let ghost mut j: int = 1;
        while freed < needed && self.entries.len() > 0
            invariant
                1 <= j <= orig.len(),
                self.entries@ == orig.skip(j),
                freed + sum_sizes(orig.skip(j)) == sum_sizes(orig),
                sum_sizes(orig) <= usize::MAX,
                if freed >= needed {
                    evict_count(orig, needed as int) == j
                } else {
                    evict_count(orig, needed as int) == j + evict_count(
                        orig.skip(j),
                        needed - freed,
                    )
                },
                self.screen_info == g_geom,
                self.png_buffer@ == g_buf,
                self.max_cache_size == g_max,
                self.cache_ttl_ms == g_ttl,
            decreases orig.len() - j,
        {
            let sz = self.entries[0].size_bytes;
            proof {
                assert(orig.skip(j).skip(1) =~= orig.skip(j + 1));
                lemma_sum_nonneg(orig.skip(j + 1));
            }
            freed = freed + sz;
            self.entries.remove(0);
            proof {
                j = j + 1;
            }
        }
        proof {
            if freed < needed {
                assert(self.entries@.len() == 0);
                assert(evict_count(orig.skip(j), needed - freed) == 0);
            }
            assert(self.entries@ == orig.skip(evict_count(orig, needed as int)));
        }
    }

    /// Store a freshly captured payload under its rectangle. The byte
    /// budget is tested over the whole store — a previous entry under the
    /// same key still counts — and when it would be exceeded the oldest
    /// entries are evicted first, by capture age, never by access recency.
    /// Any surviving entry under the key is then replaced.
    pub fn add_capture(&mut self, bounds: CaptureBounds, payload: String, now_ms: u64)
        requires
            old(self).wf(),
            old(self).time_ok(now_ms),
        ensures
            final(self).wf(),
            final(self).time_ok(now_ms),
            final(self).entries_seq() == insert_spec(
                old(self).entries_seq(),
                bounds,
                payload,
                now_ms,
                old(self).max_bytes(),
            ),
            final(self).geom() == old(self).geom(),
            final(self).buffer() == old(self).buffer(),
            final(self).max_bytes() == old(self).max_bytes(),
            final(self).ttl_ms() == old(self).ttl_ms(),
            payloads_shaped(old(self).entries_seq()) && is_data_uri_payload(payload@)
                ==> payloads_shaped(final(self).entries_seq()),
    {
        let ghost s0 = self.entries@;
        proof {
            lemma_wf_sum_fits(s0, old(self).max_bytes());
            lemma_sum_nonneg(s0);
        }
        let need = payload.as_str().len();
        proof {
            assert(need == payload_bytes(payload));
        }
        // The budget is tested over the whole store: an entry about to be
        // replaced under the same key still counts, as does the one entry
        // allowed to exceed the budget alone.
        let total = self.total_size();
        let evicted = total > self.max_cache_size || need > self.max_cache_size - total;
        let ghost s1 = if sum_sizes(s0) + payload_bytes(payload) > old(self).max_bytes() {
            s0.skip(evict_count(s0, payload_bytes(payload)))
        } else {
            s0
        };
        if evicted {
            self.evict_for(need);
            proof {
                lemma_evict_count_bounds(s0, need as int);
                lemma_evict_frees(s0, need as int);
                lemma_sum_skip_total(s0, evict_count(s0, need as int));
                lemma_skip_props(s0, evict_count(s0, need as int));
            }
        }
        proof {
            assert(self.entries@ == s1);
            lemma_sum_nonneg(s1);
            lemma_remove_key_props(s1, bounds);
        }
        // Replace any surviving entry under this key.
        let found = self.find_key(&bounds);
        match found {
            Some(i) => {
                proof {
                    Self::lemma_key_index_is(s1, bounds, i as int);
                    lemma_sum_remove(s1, i as int);
                }
                self.entries.remove(i);
            },
            None => {},
        }
        let ghost s2 = self.entries@;
        proof {
            assert(s2 == remove_key(s1, bounds));
            lemma_sum_nonneg(s2);
        }
        let entry = CacheEntry { key: bounds, payload, captured_at: now_ms, size_bytes: need };
        self.entries.push(entry);
        proof {
            lemma_sum_push(s2, entry);
            let f = s2.push(entry);
            assert(final(self).entries_seq() == f);
            assert(f == insert_spec(s0, bounds, payload, now_ms, old(self).max_bytes()));
            // Key uniqueness: the appended key is absent from what remains.
            assert(!has_key(s2, bounds));
            lemma_push_unique(s2, entry);
            // Age order: the new entry is at least as young as everything kept.
            assert(all_at_most(s0, now_ms));
            assert(all_at_most(s1, now_ms));
            assert(all_at_most(s2, now_ms));
            assert forall|i: int, j: int|
                0 <= i <= j < f.len() implies f[i].captured_at <= f[j].captured_at by {
                if j < f.len() - 1 {
                    assert(f[i] == s2[i] && f[j] == s2[j]);
                } else if i < f.len() - 1 {
                    assert(f[i] == s2[i]);
                }
            }
            assert(times_sorted(f));
            // Budget: either eviction freed at least the new entry's size, or
            // the store was emptied and the lone new entry may stand alone.
            if sum_sizes(s0) + payload_bytes(payload) > old(self).max_bytes() {
                lemma_evict_frees(s0, payload_bytes(payload));
                lemma_evict_count_bounds(s0, payload_bytes(payload));
                if evict_count(s0, payload_bytes(payload)) == s0.len() {
                    assert(s1 =~= Seq::<CacheEntry>::empty());
                    assert(final(self).entries_seq().len() == 1);
                } else {
                    // More than the prefix remained, so the store held at
                    // least two entries, hence its total was within budget.
                    assert(s0.len() >= 2);
                    assert(sum_sizes(s0) <= old(self).max_bytes());
                    assert(sum_sizes(s1) + payload_bytes(payload) <= sum_sizes(s0));
                    assert(sum_sizes(s2) <= sum_sizes(s1));
                    assert(sum_sizes(final(self).entries_seq()) <= old(self).max_bytes());
                }
            }
            // Payload shape is preserved when the incoming payload is shaped.
            if payloads_shaped(s0) && is_data_uri_payload(payload@) {
                assert(payloads_shaped(s1));
                assert(payloads_shaped(s2));
                assert forall|i: int| 0 <= i < f.len() implies is_data_uri_payload(
                    (#[trigger] f[i]).payload@,
                ) by {
                    if i < f.len() - 1 {
                        assert(f[i] == s2[i]);
                    } else {
                        assert(f[i] == entry);
                    }
                }
            }
        }
    }

    /// Drop all entries unconditionally.
    pub fn clear_cache(&mut self)
        ensures
            final(self).wf(),
            final(self).entries_seq() == Seq::<CacheEntry>::empty(),
            final(self).geom() == old(self).geom(),
            final(self).buffer() == old(self).buffer(),
            final(self).max_bytes() == old(self).max_bytes(),
            final(self).ttl_ms() == old(self).ttl_ms(),
            forall|t: u64| old(self).time_ok(t) ==> #[trigger] final(self).time_ok(t),
    {
        self.entries.clear();
    }

    /// Entry count, total payload bytes, and how many entries have outlived
    /// the time-to-live. The reported total always equals the sum of all
    /// entries' recorded sizes.
    pub fn get_cache_stats(&self, now_ms: u64) -> (r: (usize, usize, usize))
        requires
            self.wf(),
            self.time_ok(now_ms),
        ensures
            r.0 == self.entries_seq().len(),
            r.1 == sum_sizes(self.entries_seq()),
            r.2 == count_expired(self.entries_seq(), now_ms, self.ttl_ms()),
    {
        let ghost s = self.entries@;
        proof {
            lemma_wf_sum_fits(s, self.max_bytes());
            assert(s.skip(0) =~= s);
        }
        let total_entries = self.entries.len();
        let total_size = self.total_size();
        let mut expired: usize = 0;
        let mut i: usize = 0;
        while i < total_entries
            invariant
                0 <= i <= total_entries,
                total_entries == s.len(),
                s == self.entries@,
                self.wf(),
                self.time_ok(now_ms),
                expired <= i,
                expired + count_expired(s.skip(i as int), now_ms, self.ttl_ms()) == count_expired(
                    s,
                    now_ms,
                    self.cache_ttl_ms,
                ),
            decreases total_entries - i,
        {
            proof {
                assert(s.skip(i as int).skip(1) =~= s.skip(i as int + 1));
                assert(s[i as int].captured_at <= now_ms);
            }
            if now_ms - self.entries[i].captured_at > self.cache_ttl_ms {
                expired = expired + 1;
            }
            i += 1;
        }
        proof {
            assert(s.skip(total_entries as int) =~= Seq::<CacheEntry>::empty());
        }
        (total_entries, total_size, expired)
    }

    /// Remove every entry whose age has reached the time-to-live; afterwards
    /// no remaining entry is expired.
    pub fn cleanup_expired(&mut self, now_ms: u64)
        requires
            old(self).wf(),
            old(self).time_ok(now_ms),
        ensures
            final(self).wf(),
            final(self).time_ok(now_ms),
            final(self).entries_seq() == keep_fresh(
                old(self).entries_seq(),
                now_ms,
                old(self).ttl_ms(),
            ),
            forall|i: int| 0 <= i < final(self).entries_seq().len() ==> now_ms - (
            #[trigger] final(self).entries_seq()[i]).captured_at < old(self).ttl_ms(),
            payloads_shaped(old(self).entries_seq()) ==> payloads_shaped(
                final(self).entries_seq(),
            ),
            final(self).geom() == old(self).geom(),
            final(self).buffer() == old(self).buffer(),
            final(self).max_bytes() == old(self).max_bytes(),
            final(self).ttl_ms() == old(self).ttl_ms(),
    {
        let ghost orig = self.entries@;
        let ttl = self.cache_ttl_ms;
        proof {
            lemma_keep_fresh_props(orig, now_ms, ttl);
            if payloads_shaped(orig) {
                lemma_keep_fresh_shaped(orig, now_ms, ttl);
            }
        }
        let mut pending: Vec<CacheEntry> = Vec::new();
        core::mem::swap(&mut self.entries, &mut pending);
        let ghost g_geom = self.screen_info;
        let ghost g_buf = self.png_buffer@;
        let ghost g_max = self.max_cache_size;
        let ghost g_ttl = self.cache_ttl_ms;
        let ghost mut j: int = 0;
        proof {
            assert(orig.skip(0) =~= orig);
            assert(keep_fresh(orig, now_ms, ttl) =~= self.entries@ + keep_fresh(
                orig.skip(0),
                now_ms,
                ttl,
            ));
        }
        while pending.len() > 0
            invariant
                0 <= j <= orig.len(),
                pending@ == orig.skip(j),
                all_at_most(orig, now_ms),
                keep_fresh(orig, now_ms, ttl) == self.entries@ + keep_fresh(
                    pending@,
                    now_ms,
                    ttl,
                ),
                self.screen_info == g_geom,
                self.png_buffer@ == g_buf,
                self.max_cache_size == g_max,
                self.cache_ttl_ms == g_ttl,
                g_ttl == ttl,
            decreases pending@.len(),
        {
            proof {
                assert(pending@.skip(1) =~= orig.skip(j + 1));
            }
            let ghost pre = pending@;
            let ghost kept = self.entries@;
            let e = pending.remove(0);
            if now_ms - e.captured_at < ttl {
                self.entries.push(e);
                proof {
                    assert(kept + keep_fresh(pre, now_ms, ttl) =~= (kept + seq![pre[0]])
                        + keep_fresh(pre.skip(1), now_ms, ttl));
                    assert(self.entries@ =~= kept + seq![pre[0]]);
                }
            }
            proof {
                j = j + 1;
            }
        }
        proof {
            assert(pending@ =~= Seq::<CacheEntry>::empty());
            assert(keep_fresh(pending@, now_ms, ttl) =~= Seq::<CacheEntry>::empty());
            assert(self.entries@ =~= keep_fresh(orig, now_ms, ttl));
        }
    }

    /// Adjust the reusable encode buffer's reserved capacity without touching
    /// cache policy or contents. The buffer is emptied.
    pub fn resize_buffer(&mut self, new_capacity: usize)
        ensures
            final(self).buffer() == Seq::<u8>::empty(),
            final(self).entries_seq() == old(self).entries_seq(),
            final(self).geom() == old(self).geom(),
            final(self).max_bytes() == old(self).max_bytes(),
            final(self).ttl_ms() == old(self).ttl_ms(),
    {
        self.png_buffer.clear();
        self.png_buffer.reserve(new_capacity);
    }

    /// Whether the screen-geometry snapshot is absent or older than its
    /// freshness window.
    pub fn screen_geom_stale(&self, now_ms: u64) -> (r: bool)
        requires
            self.time_ok(now_ms),
        ensures
            r == self.geom_stale_at(now_ms),
    {
        match &self.screen_info {
            None => true,
            Some(g) => now_ms - g.cached_at > SCREEN_INFO_TTL_MS,
        }
    }

    /// Record a fresh screen-geometry snapshot.
    pub fn set_screen_geom(&mut self, width: u32, height: u32, now_ms: u64)
        ensures
            final(self).geom() == Some(ScreenGeom { width, height, cached_at: now_ms }),
            final(self).entries_seq() == old(self).entries_seq(),
            final(self).buffer() == old(self).buffer(),
            final(self).max_bytes() == old(self).max_bytes(),
            final(self).ttl_ms() == old(self).ttl_ms(),
    {
        self.screen_info = Some(ScreenGeom { width, height, cached_at: now_ms });
    }

    /// Replace the reusable buffer's contents with this capture's bytes.
    pub fn store_in_buffer(&mut self, data: &Vec<u8>)
        ensures
            final(self).buffer() == data@,
            final(self).entries_seq() == old(self).entries_seq(),
            final(self).geom() == old(self).geom(),
            final(self).max_bytes() == old(self).max_bytes(),
            final(self).ttl_ms() == old(self).ttl_ms(),
    {
        self.png_buffer.clear();
        self.png_buffer.extend_from_slice(data.as_slice());
    }
}

/// Appending one entry adds its size to the total.
pub proof fn lemma_sum_push(s: Seq<CacheEntry>, e: CacheEntry)
    ensures
        sum_sizes(s.push(e)) == sum_sizes(s) + e.size_bytes,
    decreases s.len(),
{
    let p = s.push(e);
    assert(p.len() > 0);
    assert(sum_sizes(p) == p[0].size_bytes + sum_sizes(p.skip(1)));
    if s.len() == 0 {
        assert(p[0] == e);
        assert(p.skip(1) =~= Seq::<CacheEntry>::empty());
        assert(sum_sizes(p.skip(1)) == 0);
    } else {
        assert(p[0] == s[0]);
        assert(p.skip(1) =~= s.skip(1).push(e));
        lemma_sum_push(s.skip(1), e);
    }
}

/// Dropping a prefix never increases the total.
pub proof fn lemma_sum_skip_total(s: Seq<CacheEntry>, c: int)
    requires
        0 <= c <= s.len(),
    ensures
        sum_sizes(s.skip(c)) <= sum_sizes(s),
    decreases c,
{
    if c == 0 {
        assert(s.skip(0) =~= s);
    } else {
        assert(s.len() > 0);
        assert(sum_sizes(s) == s[0].size_bytes + sum_sizes(s.skip(1)));
        assert(s.skip(1).skip(c - 1) =~= s.skip(c));
        lemma_sum_skip_total(s.skip(1), c - 1);
    }
}

/// Under a bounded budget the total fits in a machine word.
pub proof fn lemma_wf_sum_fits(s: Seq<CacheEntry>, max: int)
    requires
        sum_sizes(s) <= max || s.len() <= 1,
        max <= usize::MAX,
    ensures
        sum_sizes(s) <= usize::MAX,
{
    if s.len() == 0 {
        assert(sum_sizes(s) == 0);
    } else if s.len() == 1 {
        assert(sum_sizes(s) == s[0].size_bytes + sum_sizes(s.skip(1)));
        assert(s.skip(1).len() == 0);
        assert(sum_sizes(s.skip(1)) == 0);
    }
}

/// Removing the entry under a key removes the key entirely (keys are unique)
/// and preserves every structural property of the store.
pub proof fn lemma_remove_key_props(s: Seq<CacheEntry>, k: CaptureBounds)
    requires
        keys_unique(s),
    ensures
        !has_key(remove_key(s, k), k),
        keys_unique(remove_key(s, k)),
        times_sorted(s) ==> times_sorted(remove_key(s, k)),
        sizes_consistent(s) ==> sizes_consistent(remove_key(s, k)),
        sum_sizes(remove_key(s, k)) <= sum_sizes(s),
        remove_key(s, k).len() <= s.len(),
        forall|t: u64| all_at_most(s, t) ==> #[trigger] all_at_most(remove_key(s, k), t),
        payloads_shaped(s) ==> payloads_shaped(remove_key(s, k)),
{
    if has_key(s, k) {
        let i = key_index(s, k);
        assert(0 <= i < s.len() && s[i].key == k);
        lemma_sum_remove(s, i);
        lemma_sum_nonneg(s);
        let r = s.remove(i);
        assert forall|a: int| 0 <= a < r.len() implies (#[trigger] r[a]).key != k by {
            if a < i {
                assert(r[a] == s[a]);
                assert(s[a].key != s[i].key);
            } else {
                assert(r[a] == s[a + 1]);
                assert(s[i].key != s[a + 1].key);
            }
        }
    }
}

/// Skipping a prefix preserves every structural property of the store, and
/// what remains holds only keys the whole held.
pub proof fn lemma_skip_props(s: Seq<CacheEntry>, c: int)
    requires
        0 <= c <= s.len(),
    ensures
        keys_unique(s) ==> keys_unique(s.skip(c)),
        times_sorted(s) ==> times_sorted(s.skip(c)),
        sizes_consistent(s) ==> sizes_consistent(s.skip(c)),
        forall|t: u64| all_at_most(s, t) ==> #[trigger] all_at_most(s.skip(c), t),
        forall|k: CaptureBounds| !has_key(s, k) ==> !#[trigger] has_key(s.skip(c), k),
        payloads_shaped(s) ==> payloads_shaped(s.skip(c)),
{
    assert forall|k: CaptureBounds| !has_key(s, k) implies !#[trigger] has_key(s.skip(c), k) by {
        if has_key(s.skip(c), k) {
            let a = choose|a: int| 0 <= a < s.skip(c).len() && (#[trigger] s.skip(c)[a]).key == k;
            assert(s[a + c].key == k);
            assert(has_key(s, k));
        }
    }
}

/// Appending an entry under an absent key keeps keys unique.
pub proof fn lemma_push_unique(s: Seq<CacheEntry>, e: CacheEntry)
    requires
        keys_unique(s),
        !has_key(s, e.key),
    ensures
        keys_unique(s.push(e)),
{
    let f = s.push(e);
    assert forall|i: int, j: int| 0 <= i < j < f.len() implies f[i].key != f[j].key by {
        if j < f.len() - 1 {
            assert(f[i] == s[i] && f[j] == s[j]);
        } else {
            assert(f[i] == s[i]);
            if f[i].key == e.key {
                assert(has_key(s, e.key));
            }
        }
    }
}

/// Cache idempotence: after a capture for rectangle `k` is stored at time
/// `t1`, a probe for the same rectangle at any time `t2` within the
/// time-to-live returns exactly the stored payload, byte for byte, and
/// leaves the store unchanged — so the second of two consecutive identical
/// requests inside the window performs no new screen read.
pub proof fn lemma_cache_idempotent(
    s: Seq<CacheEntry>,
    k: CaptureBounds,
    p: String,
    t1: u64,
    t2: u64,
    max: int,
    ttl: u64,
)
    requires
        keys_unique(s),
        t1 <= t2,
        t2 - t1 < ttl,
    ensures
        lookup_fresh(insert_spec(s, k, p, t1, max), k, t2, ttl) == Some(p),
        drop_stale_key(insert_spec(s, k, p, t1, max), k, t2, ttl) == insert_spec(
            s,
            k,
            p,
            t1,
            max,
        ),
{
    let f = lemma_inserted_key_is_last(s, k, p, t1, max);
}

/// Cache expiry: once the time-to-live has elapsed since a capture for
/// rectangle `k` was stored, a probe for the same rectangle finds nothing
/// and removes the stale entry — so the next identical request performs
/// exactly one new screen read.
pub proof fn lemma_cache_expiry(
    s: Seq<CacheEntry>,
    k: CaptureBounds,
    p: String,
    t1: u64,
    t2: u64,
    max: int,
    ttl: u64,
)
    requires
        keys_unique(s),
        t1 <= t2,
        t2 - t1 >= ttl,
    ensures
        lookup_fresh(insert_spec(s, k, p, t1, max), k, t2, ttl) is None,
        drop_stale_key(insert_spec(s, k, p, t1, max), k, t2, ttl) == insert_spec(
            s,
            k,
            p,
            t1,
            max,
        ).drop_last(),
{
    let f = lemma_inserted_key_is_last(s, k, p, t1, max);
    assert(f.remove(f.len() - 1) =~= f.drop_last());
}

/// After an insertion the new entry sits at the end and is the only entry
/// under its key. Returns the inserted sequence for the callers' use.
proof fn lemma_inserted_key_is_last(
    s: Seq<CacheEntry>,
    k: CaptureBounds,
    p: String,
    t1: u64,
    max: int,
) -> (f: Seq<CacheEntry>)
    requires
        keys_unique(s),
    ensures
        f == insert_spec(s, k, p, t1, max),
        f.len() >= 1,
        keys_unique(f),
        has_key(f, k),
        key_index(f, k) == f.len() - 1,
        f.last().key == k,
        f.last().payload == p,
        f.last().captured_at == t1,
{
    let pb = payload_bytes(p);
    let s1 = if sum_sizes(s) + pb > max {
        s.skip(evict_count(s, pb))
    } else {
        s
    };
    if sum_sizes(s) + pb > max {
        lemma_evict_count_bounds(s, pb);
        lemma_skip_props(s, evict_count(s, pb));
    }
    assert(keys_unique(s1));
    lemma_remove_key_props(s1, k);
    let s2 = remove_key(s1, k);
    assert(!has_key(s2, k));
    let e = CacheEntry { key: k, payload: p, captured_at: t1, size_bytes: pb as usize };
    lemma_push_unique(s2, e);
    let f = s2.push(e);
    ScreenshotCache::lemma_key_index_is(f, k, f.len() - 1);
    f
}

/// Eviction invariant: one insertion step keeps the total within the byte
/// budget, provided the incoming payload alone fits the budget. Applied
/// after each insertion in turn, this gives: after any sequence of
/// insertions whose individual sizes are each at most the budget, the
/// reported total stays at most the budget.
pub proof fn lemma_insert_respects_budget(
    s: Seq<CacheEntry>,
    k: CaptureBounds,
    p: String,
    t: u64,
    max: int,
)
    requires
        keys_unique(s),
        sum_sizes(s) <= max,
        payload_bytes(p) <= max,
    ensures
        sum_sizes(insert_spec(s, k, p, t, max)) <= max,
{
    let pb = payload_bytes(p);
    let e = CacheEntry { key: k, payload: p, captured_at: t, size_bytes: pb as usize };
    if sum_sizes(s) + pb > max {
        let c = evict_count(s, pb);
        lemma_evict_count_bounds(s, pb);
        lemma_evict_frees(s, pb);
        lemma_sum_skip_total(s, c);
        lemma_skip_props(s, c);
        let s1 = s.skip(c);
        lemma_remove_key_props(s1, k);
        let s2 = remove_key(s1, k);
        lemma_sum_push(s2, e);
        if c == s.len() {
            assert(s1 =~= Seq::<CacheEntry>::empty());
            assert(sum_sizes(s2) == 0);
        } else {
            assert(sum_sizes(s1) + pb <= sum_sizes(s));
            assert(sum_sizes(s2) <= sum_sizes(s1));
        }
    } else {
        lemma_remove_key_props(s, k);
        let s2 = remove_key(s, k);
        lemma_sum_push(s2, e);
    }
}

/// The TTL sweep preserves payload shape: everything it keeps stems from
/// the swept store.
proof fn lemma_keep_fresh_shaped(s: Seq<CacheEntry>, now: u64, ttl: u64)
    requires
        payloads_shaped(s),
    ensures
        payloads_shaped(keep_fresh(s, now, ttl)),
{
    lemma_keep_fresh_props(s, now, ttl);
    let kf = keep_fresh(s, now, ttl);
    assert forall|a: int| 0 <= a < kf.len() implies is_data_uri_payload(
        (#[trigger] kf[a]).payload@,
    ) by {
        let b = choose|b: int| 0 <= b < s.len() && #[trigger] kf[a] == s[b];
        assert(is_data_uri_payload(s[b].payload@));
    }
}

/// The TTL sweep keeps a subsequence: it is never longer or heavier than the
/// original, it preserves key uniqueness, age order and size consistency,
/// every element it keeps stems from the original, and everything it keeps is
/// younger than the time-to-live.
pub proof fn lemma_keep_fresh_props(s: Seq<CacheEntry>, now: u64, ttl: u64)
    ensures
        keep_fresh(s, now, ttl).len() <= s.len(),
        sum_sizes(keep_fresh(s, now, ttl)) <= sum_sizes(s),
        forall|a: int|
            0 <= a < keep_fresh(s, now, ttl).len() ==> exists|b: int|
                0 <= b < s.len() && #[trigger] keep_fresh(s, now, ttl)[a] == s[b],
        keys_unique(s) ==> keys_unique(keep_fresh(s, now, ttl)),
        times_sorted(s) ==> times_sorted(keep_fresh(s, now, ttl)),
        sizes_consistent(s) ==> sizes_consistent(keep_fresh(s, now, ttl)),
        forall|a: int|
            0 <= a < keep_fresh(s, now, ttl).len() ==> now - (#[trigger] keep_fresh(
                s,
                now,
                ttl,
            )[a]).captured_at < ttl,
        forall|t: u64|
            all_at_most(s, t) ==> #[trigger] all_at_most(keep_fresh(s, now, ttl), t),
    decreases s.len(),
{
    if s.len() == 0 {
    } else {
        let rest = s.skip(1);
        lemma_keep_fresh_props(rest, now, ttl);
        let kf_rest = keep_fresh(rest, now, ttl);
        if now - s[0].captured_at < ttl {
            let kf = seq![s[0]] + kf_rest;
            assert(keep_fresh(s, now, ttl) =~= kf);
            assert(kf.skip(1) =~= kf_rest);
            assert(sum_sizes(kf) == s[0].size_bytes + sum_sizes(kf_rest));
            assert(forall|a: int|
                0 <= a < kf.len() ==> exists|b: int| 0 <= b < s.len() && #[trigger] kf[a] == s[b])
                by {
                assert forall|a: int| 0 <= a < kf.len() implies exists|b: int|
                    0 <= b < s.len() && #[trigger] kf[a] == s[b] by {
                    if a == 0 {
                        assert(kf[0] == s[0]);
                    } else {
                        assert(kf[a] == kf_rest[a - 1]);
                        let b0 = choose|b0: int|
                            0 <= b0 < rest.len() && #[trigger] kf_rest[a - 1] == rest[b0];
                        assert(kf[a] == s[b0 + 1]);
                    }
                }
            }
            if keys_unique(s) {
                assert forall|i: int, j: int| 0 <= i < j < kf.len() implies kf[i].key
                    != kf[j].key by {
                    if i == 0 {
                        let b = choose|b: int|
                            0 <= b < rest.len() && #[trigger] kf_rest[j - 1] == rest[b];
                        assert(kf[j] == s[b + 1]);
                        assert(s[0].key != s[b + 1].key);
                    } else {
                        assert(kf_rest[i - 1].key != kf_rest[j - 1].key);
                    }
                }
            }
            if times_sorted(s) {
                assert forall|i: int, j: int| 0 <= i <= j < kf.len() implies kf[i].captured_at
                    <= kf[j].captured_at by {
                    if i == 0 && j > 0 {
                        let b = choose|b: int|
                            0 <= b < rest.len() && #[trigger] kf_rest[j - 1] == rest[b];
                        assert(kf[j] == s[b + 1]);
                        assert(s[0].captured_at <= s[b + 1].captured_at);
                    } else if i > 0 {
                        assert(kf_rest[i - 1].captured_at <= kf_rest[j - 1].captured_at);
                    }
                }
            }
            if sizes_consistent(s) {
                assert forall|i: int| 0 <= i < kf.len() implies (#[trigger] kf[i]).size_bytes
                    == payload_bytes(kf[i].payload) by {
                    if i > 0 {
                        assert(kf[i] == kf_rest[i - 1]);
                    }
                }
            }
            assert forall|t: u64| all_at_most(s, t) implies #[trigger] all_at_most(kf, t) by {
                assert forall|a: int| 0 <= a < kf.len() implies (#[trigger] kf[a]).captured_at
                    <= t by {
                    if a == 0 {
                        assert(s[0].captured_at <= t);
                    } else {
                        assert(all_at_most(rest, t));
                        assert(all_at_most(kf_rest, t));
                        assert(kf[a] == kf_rest[a - 1]);
                    }
                }
            }
        } else {
            lemma_sum_nonneg(rest);
            assert(sum_sizes(s) == s[0].size_bytes + sum_sizes(rest));
            assert forall|a: int|
                0 <= a < keep_fresh(s, now, ttl).len() implies exists|b: int|
                0 <= b < s.len() && #[trigger] keep_fresh(s, now, ttl)[a] == s[b] by {
                let b0 = choose|b0: int|
                    0 <= b0 < rest.len() && #[trigger] kf_rest[a] == rest[b0];
                assert(keep_fresh(s, now, ttl)[a] == s[b0 + 1]);
            }
            if keys_unique(s) {
                assert forall|i: int, j: int|
                    0 <= i < j < rest.len() implies rest[i].key != rest[j].key by {
                    assert(s[i + 1].key != s[j + 1].key);
                }
            }
            if times_sorted(s) {
                assert forall|i: int, j: int|
                    0 <= i <= j < rest.len() implies rest[i].captured_at
                    <= rest[j].captured_at by {
                    assert(s[i + 1].captured_at <= s[j + 1].captured_at);
                }
            }
            assert forall|t: u64|
                all_at_most(s, t) implies #[trigger] all_at_most(keep_fresh(s, now, ttl), t) by {
                assert(all_at_most(rest, t));
            }
        }
    }
}

} // verus!
