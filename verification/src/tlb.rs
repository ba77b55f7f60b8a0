use vstd::prelude::*;

verus! {

/// Validity window a fresh [`CacheConfig`] starts with, in milliseconds.
pub const DEFAULT_MEM_CACHE_TIME: usize = 1000;

/// The process-wide translation-cache tuning knob: for how many
/// milliseconds a cached translation or snapshot page stays trusted before
/// the next access is forced to walk the page tables again.
///
/// Higher values favour throughput; any value above zero accepts the risk
/// of acting on a stale translation if the guest's page tables change
/// within the window — most dangerous when writes are performed. The
/// setting never affects which descriptors a commit submits, only how fresh
/// their translations are. Embedders that share one setting between threads
/// may let writers race: the last write wins.
pub struct CacheConfig {
    window_ms: u64,
}

impl CacheConfig {
    /// The validity window, in milliseconds.
    pub closed spec fn spec_window_ms(self) -> u64 {
        self.window_ms
    }

    /// A configuration holding the default validity window.
    pub fn new() -> (r: CacheConfig)
        ensures
            r.spec_window_ms() == DEFAULT_MEM_CACHE_TIME as u64,
    {
        CacheConfig { window_ms: DEFAULT_MEM_CACHE_TIME as u64 }
    }

    /// Set the validity window to `new_time` milliseconds.
    pub fn set_mem_cache_time(&mut self, new_time: usize)
        ensures
            final(self).spec_window_ms() == new_time as u64,
    {
        self.window_ms = new_time as u64;
    }

    /// The validity window currently set, in milliseconds.
    pub fn mem_cache_time(&self) -> (r: u64)
        ensures
            r == self.spec_window_ms(),
    {
        self.window_ms
    }

    /// The default validity window, in milliseconds.
    pub fn get_default_mem_cache_time() -> (r: usize)
        ensures
            r == DEFAULT_MEM_CACHE_TIME,
    {
        DEFAULT_MEM_CACHE_TIME
    }
}

/// One cached translation: the page it covers, the physical page it
/// resolved to, and when the backend walked the page tables for it.
#[derive(Clone, Copy, PartialEq, Eq, Structural, Debug)]
pub struct TlbEntry {
    /// Page number of the translated virtual page.
    pub page: u64,
    /// Page number of the physical page it maps to.
    pub phys: u64,
    /// Time of the page-table walk that produced it, in milliseconds.
    pub stamp_ms: u64,
}

/// A cached translation is fresh while the validity window has not elapsed
/// since the walk that produced it.
pub open spec fn is_fresh(stamp_ms: u64, now_ms: u64, window_ms: u64) -> bool {
    now_ms <= stamp_ms + window_ms
}

/// Whether some cached entry covers `page`.
pub open spec fn has_page(s: Seq<TlbEntry>, page: u64) -> bool {
    exists|i: int| 0 <= i < s.len() && #[trigger] s[i].page == page
}

/// The cached entry covering `page` (meaningful only when [`has_page`]
/// holds and pages are unique).
pub open spec fn entry_for(s: Seq<TlbEntry>, page: u64) -> TlbEntry {
    s[choose|i: int| 0 <= i < s.len() && #[trigger] s[i].page == page]
}

/// Each page is cached at most once.
pub open spec fn pages_unique(s: Seq<TlbEntry>) -> bool {
    forall|i: int, j: int|
        0 <= i < j < s.len() ==> (#[trigger] s[i].page) != (#[trigger] s[j].page)
}

/// What one bounded re-validation sweep leaves in the cache: walking the
/// entries front to back, each entry whose window has elapsed is evicted,
/// until `budget` entries have been evicted or the end is reached.
pub open spec fn sweep(s: Seq<TlbEntry>, now_ms: u64, window_ms: u64, budget: nat) -> Seq<TlbEntry>
    decreases s.len(),
{
    if s.len() == 0 {
        s
    } else if budget > 0 && !is_fresh(s.first().stamp_ms, now_ms, window_ms) {
        sweep(s.drop_first(), now_ms, window_ms, (budget - 1) as nat)
    } else {
        seq![s.first()] + sweep(s.drop_first(), now_ms, window_ms, budget)
    }
}

/// A bounded re-validation sweep only ever evicts entries whose validity
/// window has elapsed: every entry still fresh at `now_ms` survives it.
pub proof fn lemma_sweep_keeps_fresh(
    s: Seq<TlbEntry>,
    now_ms: u64,
    window_ms: u64,
    budget: nat,
    i: int,
)
    requires
        0 <= i < s.len(),
        is_fresh(s[i].stamp_ms, now_ms, window_ms),
    ensures
        sweep(s, now_ms, window_ms, budget).contains(s[i]),
    decreases s.len(),
{
    let out = sweep(s, now_ms, window_ms, budget);
    if budget > 0 && !is_fresh(s.first().stamp_ms, now_ms, window_ms) {
        lemma_sweep_keeps_fresh(s.drop_first(), now_ms, window_ms, (budget - 1) as nat, i - 1);
    } else {
        if i == 0 {
            assert(out[0] == s[0]);
            assert(out.contains(s[0]));
        } else {
            lemma_sweep_keeps_fresh(s.drop_first(), now_ms, window_ms, budget, i - 1);
            let rest = sweep(s.drop_first(), now_ms, window_ms, budget);
            let k = choose|k: int| 0 <= k < rest.len() && rest[k] == s.drop_first()[i - 1];
            assert(out[k + 1] == rest[k]);
            assert(out.contains(s[i]));
        }
    }
}

/// What a cache lookup reports about a page, following the life of a
/// cached entry: never cached (or already evicted), cached and fresh, or
/// cached but past the validity window — usable only after a new walk.
#[derive(Clone, Copy, PartialEq, Eq, Structural, Debug)]
pub enum TlbState {
    /// No entry covers the page; the backend must walk the page tables.
    Absent,
    /// A fresh translation to this physical page is cached.
    Valid { phys: u64 },
    /// A translation to this physical page is cached but its validity
    /// window has elapsed; it must not be used before a new walk.
    Stale { phys: u64 },
}

/// One thread's translation cache. Every thread owns its own instance so
/// that the hot path takes no lock; a handle must never be shared with or
/// passed to another thread. The cache only records what the backend's
/// page-table walks returned and when; the walks themselves are the
/// backend's work, and their results enter through [`Tlb::insert`].
pub struct Tlb {
    entries: Vec<TlbEntry>,
}

impl Tlb {
    /// The cached entries, in storage order.
    pub closed spec fn entries_seq(self) -> Seq<TlbEntry> {
        self.entries@
    }

    /// Every page is cached at most once.
    pub open spec fn inv(self) -> bool {
        pages_unique(self.entries_seq())
    }

    /// The calling thread's cache handle starts out empty: the first access
    /// to any page walks the page tables. Embedders keep one instance per
    /// thread (created on first use) and never move it across threads.
    pub fn from_current_thread() -> (r: Tlb)
        ensures
            r.entries_seq().len() == 0,
            r.inv(),
    {
        Tlb { entries: Vec::new() }
    }

    /// Discard every cached translation: all entries go straight to
    /// evicted, and the next access to any page walks the page tables.
    pub fn flush_tlb(&mut self)
        ensures
            final(self).entries_seq().len() == 0,
            forall|p: u64| !has_page(final(self).entries_seq(), p),
            final(self).inv(),
    {
        self.entries.clear();
    }

    /// What the cache knows about `page` at time `now_ms` under the given
    /// validity window: absent, fresh, or stale. A stale answer carries the
    /// old physical page but obliges the caller to walk again before use.
    pub fn lookup(&self, page: u64, now_ms: u64, window_ms: u64) -> (r: TlbState)
        requires
            self.inv(),
        ensures
            !has_page(self.entries_seq(), page) ==> r == TlbState::Absent,
            has_page(self.entries_seq(), page) ==> {
                let e = entry_for(self.entries_seq(), page);
                if is_fresh(e.stamp_ms, now_ms, window_ms) {
                    r == (TlbState::Valid { phys: e.phys })
                } else {
                    r == (TlbState::Stale { phys: e.phys })
                }
            },
    {
        let ghost s = self.entries@;
        let mut i: usize = 0;
        while i < self.entries.len()
            invariant
                i <= s.len(),
                s == self.entries@,
                pages_unique(s),
                forall|k: int| 0 <= k < i ==> (#[trigger] s[k].page) != page,
            decreases s.len() - i,
        {
            let e = self.entries[i];
            if e.page == page {
                proof {
                    assert(has_page(s, page));
                    let j = choose|j: int| 0 <= j < s.len() && #[trigger] s[j].page == page;
                    assert(j == i);
                }
                if now_ms <= saturating_add(e.stamp_ms, window_ms) {
                    return TlbState::Valid { phys: e.phys };
                } else {
                    return TlbState::Stale { phys: e.phys };
                }
            }
            i = i + 1;
        }
        TlbState::Absent
    }

    /// Record the outcome of a page-table walk: the translation of `page`
    /// to `phys` observed at `now_ms`. A page already cached is replaced in
    /// place — there is no way back from stale to valid except through such
    /// a new walk; a page not cached is appended.
    pub fn insert(&mut self, page: u64, phys: u64, now_ms: u64)
        requires
            old(self).inv(),
        ensures
            final(self).inv(),
            !has_page(old(self).entries_seq(), page) ==> final(self).entries_seq() == old(
                self,
            ).entries_seq().push(TlbEntry { page, phys, stamp_ms: now_ms }),
            has_page(old(self).entries_seq(), page) ==> {
                let j = choose|j: int|
                    0 <= j < old(self).entries_seq().len() && #[trigger] old(
                        self,
                    ).entries_seq()[j].page == page;
                final(self).entries_seq() == old(self).entries_seq().update(
                    j,
                    TlbEntry { page, phys, stamp_ms: now_ms },
                )
            },
            has_page(final(self).entries_seq(), page),
            entry_for(final(self).entries_seq(), page) == (TlbEntry {
                page,
                phys,
                stamp_ms: now_ms,
            }),
    {
        let ghost s = self.entries@;
        let mut i: usize = 0;
        while i < self.entries.len()
            invariant
                i <= s.len(),
                s == self.entries@,
                s == old(self).entries@,
                pages_unique(s),
                forall|k: int| 0 <= k < i ==> (#[trigger] s[k].page) != page,
            decreases s.len() - i,
        {
            let cur = self.entries[i];
            if cur.page == page {
                proof {
                    assert(has_page(s, page));
                    let j = choose|j: int| 0 <= j < s.len() && #[trigger] s[j].page == page;
                    assert(j == i);
                }
                let e = TlbEntry { page, phys, stamp_ms: now_ms };
                self.entries[i] = e;
                proof {
                    lemma_unique_update(s, i as int, e);
                    lemma_entry_for_witness(self.entries@, i as int);
                }
                return ;
            }
            i = i + 1;
        }
        proof {
            assert(!has_page(s, page));
        }
        self.entries.push(TlbEntry { page, phys, stamp_ms: now_ms });
        proof {
            assert forall|x: int, y: int| 0 <= x < y < self.entries@.len() implies (
            #[trigger] self.entries@[x].page) != (#[trigger] self.entries@[y].page) by {
                if y < s.len() {
                } else {
                    assert(self.entries@[y] == (TlbEntry { page, phys, stamp_ms: now_ms }));
                }
            }
            lemma_entry_for_witness(self.entries@, s.len() as int);
        }
    }

    /// Re-validate the cache proactively, bounded by `count`: sweep the
    /// entries front to back and evict those whose validity window has
    /// elapsed at `now_ms`, stopping once `count` entries have been
    /// evicted. Returns how many were evicted; fresh entries stay put, and
    /// an evicted page walks the page tables on its next access.
    pub fn verify_tlb(&mut self, now_ms: u64, window_ms: u64, count: usize) -> (r: usize)
        requires
            old(self).inv(),
        ensures
            final(self).inv(),
            final(self).entries_seq() == sweep(
                old(self).entries_seq(),
                now_ms,
                window_ms,
                count as nat,
            ),
            r == old(self).entries_seq().len() - final(self).entries_seq().len(),
            r <= count,
    {
        let ghost orig = self.entries@;
        let mut i: usize = 0;
        let mut removed: usize = 0;
        proof {
            assert(orig.skip(0int) =~= orig);
            assert(orig.take(0int) + sweep(orig, now_ms, window_ms, count as nat) =~= sweep(
                orig,
                now_ms,
                window_ms,
                count as nat,
            ));
        }
        while i < self.entries.len()
            invariant
                orig == old(self).entries@,
                pages_unique(self.entries@),
                i <= self.entries@.len(),
                removed <= count,
                removed == orig.len() - self.entries@.len(),
                sweep(orig, now_ms, window_ms, count as nat) == self.entries@.take(i as int)
                    + sweep(
                    self.entries@.skip(i as int),
                    now_ms,
                    window_ms,
                    (count - removed) as nat,
                ),
            decreases self.entries@.len() - i,
        {
            let ghost s = self.entries@;
            let e = self.entries[i];
            let stale = now_ms > saturating_add(e.stamp_ms, window_ms);
            if stale && removed < count {
                proof {
                    assert(s.skip(i as int).first() == s[i as int]);
                    assert(s.skip(i as int).drop_first() =~= s.skip(i as int + 1));
                    assert(sweep(s.skip(i as int), now_ms, window_ms, (count - removed) as nat)
                        == sweep(
                        s.skip(i as int + 1),
                        now_ms,
                        window_ms,
                        (count - removed - 1) as nat,
                    ));
                    assert(s.remove(i as int).take(i as int) =~= s.take(i as int));
                    assert(s.remove(i as int).skip(i as int) =~= s.skip(i as int + 1));
                    lemma_unique_remove(s, i as int);
                }
                let _ = self.entries.remove(i);
                removed = removed + 1;
            } else {
                proof {
                    let suf = s.skip(i as int);
                    assert(suf.first() == s[i as int]);
                    assert(suf.drop_first() =~= s.skip(i as int + 1));
                    assert(sweep(suf, now_ms, window_ms, (count - removed) as nat) == seq![
                        s[i as int],
                    ] + sweep(s.skip(i as int + 1), now_ms, window_ms, (count - removed) as nat));
                    assert(s.take(i as int + 1) =~= s.take(i as int) + seq![s[i as int]]);
                    assert(s.take(i as int) + (seq![s[i as int]] + sweep(
                        s.skip(i as int + 1),
                        now_ms,
                        window_ms,
                        (count - removed) as nat,
                    )) =~= s.take(i as int + 1) + sweep(
                        s.skip(i as int + 1),
                        now_ms,
                        window_ms,
                        (count - removed) as nat,
                    ));
                }
                i = i + 1;
            }
        }
        proof {
            assert(self.entries@.skip(i as int) =~= Seq::<TlbEntry>::empty());
            assert(sweep(
                Seq::<TlbEntry>::empty(),
                now_ms,
                window_ms,
                (count - removed) as nat,
            ) =~= Seq::<TlbEntry>::empty());
            assert(self.entries@.take(i as int) + Seq::<TlbEntry>::empty() =~= self.entries@);
        }
        removed
    }
}

/// `stamp + window` without overflow: a window so large that the sum
/// leaves `u64` keeps an entry fresh forever, which the saturated value
/// also does.
fn saturating_add(a: u64, b: u64) -> (r: u64)
    ensures
        a + b <= u64::MAX ==> r == a + b,
        a + b > u64::MAX ==> r == u64::MAX,
{
    if a <= u64::MAX - b {
        a + b
    } else {
        u64::MAX
    }
}

proof fn lemma_unique_update(s: Seq<TlbEntry>, i: int, e: TlbEntry)
    requires
        pages_unique(s),
        0 <= i < s.len(),
        s[i].page == e.page,
    ensures
        pages_unique(s.update(i, e)),
{
    assert forall|x: int, y: int| 0 <= x < y < s.update(i, e).len() implies (#[trigger] s.update(
        i,
        e,
    )[x].page) != (#[trigger] s.update(i, e)[y].page) by {
        assert(s[x].page != s[y].page);
    }
}

proof fn lemma_unique_remove(s: Seq<TlbEntry>, i: int)
    requires
        pages_unique(s),
        0 <= i < s.len(),
    ensures
        pages_unique(s.remove(i)),
{
    s.remove_ensures(i);
    assert forall|x: int, y: int| 0 <= x < y < s.remove(i).len() implies (#[trigger] s.remove(
        i,
    )[x].page) != (#[trigger] s.remove(i)[y].page) by {
        let sx: int = if x < i {
            x
        } else {
            x + 1
        };
        let sy: int = if y < i {
            y
        } else {
            y + 1
        };
        assert(s.remove(i)[x] == s[sx]);
        assert(s.remove(i)[y] == s[sy]);
        assert(s[sx].page != s[sy].page);
    }
}

proof fn lemma_entry_for_witness(s: Seq<TlbEntry>, i: int)
    requires
        pages_unique(s),
        0 <= i < s.len(),
    ensures
        has_page(s, s[i].page),
        entry_for(s, s[i].page) == s[i],
{
    let page = s[i].page;
    assert(has_page(s, page));
    let j = choose|j: int| 0 <= j < s.len() && #[trigger] s[j].page == page;
    assert(j == i);
}

} // verus!
