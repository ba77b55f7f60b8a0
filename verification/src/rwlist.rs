use vstd::prelude::*;

use smallvec::SmallVec;

verus! {

/// One queued unit of transfer work: `local` identifies the caller-side
/// buffer, `remote` is the target address in the bound address space, and
/// `size` is the byte count to move.
#[derive(Clone, Copy, PartialEq, Eq, Structural, Debug)]
pub struct RWInfo {
    pub local: u64,
    pub remote: u64,
    pub size: u64,
}

/// A list of transfer descriptors, backed by a `smallvec::SmallVec` with
/// inline room for eight of them, so that short bursts of queued
/// operations stay free of heap traffic. Verus sees the storage only
/// through [`desc_seq`] and the accessors below.
#[verifier::external_body]
pub struct DescList {
    inner: SmallVec<[RWInfo; 8]>,
}

/// The descriptors a backing list holds, in order.
pub uninterp spec fn desc_seq(v: DescList) -> Seq<RWInfo>;

/// Relies on smallvec::SmallVec::new: constructs an empty vector.
#[verifier::external_body]
fn desc_new() -> (r: DescList)
    ensures
        desc_seq(r) == Seq::<RWInfo>::empty(),
{
    DescList { inner: SmallVec::new() }
}

/// Relies on smallvec::SmallVec::len: the number of elements stored.
#[verifier::external_body]
fn desc_len(v: &DescList) -> (r: usize)
    ensures
        r == desc_seq(*v).len(),
{
    v.inner.len()
}

/// Relies on smallvec::SmallVec::push: appends one element at the end.
#[verifier::external_body]
fn desc_push(v: &mut DescList, d: RWInfo)
    ensures
        desc_seq(*final(v)) == desc_seq(*old(v)).push(d),
{
    v.inner.push(d)
}

/// Relies on smallvec's `Index` impl (through its slice view): element `i`.
#[verifier::external_body]
fn desc_get(v: &DescList, i: usize) -> (r: RWInfo)
    requires
        i < desc_seq(*v).len(),
    ensures
        r == desc_seq(*v)[i as int],
{
    v.inner[i]
}

/// Relies on smallvec::SmallVec::truncate: keeps the first `n` elements and
/// drops the rest; an `n` at or past the length leaves the vector unchanged.
#[verifier::external_body]
fn desc_truncate(v: &mut DescList, n: usize)
    ensures
        n <= desc_seq(*old(v)).len() ==> desc_seq(*final(v)) == desc_seq(*old(v)).take(n as int),
        n > desc_seq(*old(v)).len() ==> desc_seq(*final(v)) == desc_seq(*old(v)),
{
    v.inner.truncate(n)
}

/// The page a remote address falls in, as a page number: commits group
/// descriptors by this value so that the backend's translation cache can
/// serve neighbours in one page without walking the page tables again.
pub open spec fn page_of(remote: u64) -> u64 {
    remote / 0x1000
}

/// Descriptors appear in ascending page order; descriptors of one page may
/// stand in any relative order.
pub open spec fn sorted_by_page(s: Seq<RWInfo>) -> bool {
    forall|i: int, j: int|
        0 <= i < j < s.len() ==> page_of(#[trigger] s[i].remote) <= page_of(#[trigger] s[j].remote)
}

/// Total byte count a sequence of descriptors asks to transfer.
pub open spec fn sum_sizes(s: Seq<RWInfo>) -> int
    decreases s.len(),
{
    if s.len() == 0 {
        0
    } else {
        sum_sizes(s.drop_last()) + s.last().size
    }
}

proof fn lemma_sum_nonneg(s: Seq<RWInfo>)
    ensures
        sum_sizes(s) >= 0,
    decreases s.len(),
{
    if s.len() > 0 {
        lemma_sum_nonneg(s.drop_last());
    }
}

proof fn lemma_sum_push(s: Seq<RWInfo>, d: RWInfo)
    ensures
        sum_sizes(s.push(d)) == sum_sizes(s) + d.size,
{
    assert(s.push(d).drop_last() =~= s);
}

proof fn lemma_sum_add(a: Seq<RWInfo>, b: Seq<RWInfo>)
    ensures
        sum_sizes(a + b) == sum_sizes(a) + sum_sizes(b),
    decreases b.len(),
{
    if b.len() == 0 {
        assert(a + b =~= a);
    } else {
        lemma_sum_add(a, b.drop_last());
        assert((a + b).drop_last() =~= a + b.drop_last());
        assert((a + b).last() == b.last());
    }
}

proof fn lemma_sum_split(s: Seq<RWInfo>, j: int)
    requires
        0 <= j <= s.len(),
    ensures
        sum_sizes(s) == sum_sizes(s.take(j)) + sum_sizes(s.skip(j)),
{
    lemma_sum_add(s.take(j), s.skip(j));
    assert(s.take(j) + s.skip(j) =~= s);
}

proof fn lemma_sum_insert(s: Seq<RWInfo>, i: int, d: RWInfo)
    requires
        0 <= i <= s.len(),
    ensures
        sum_sizes(s.insert(i, d)) == sum_sizes(s) + d.size,
{
    lemma_sum_add(s.subrange(0, i).push(d), s.subrange(i, s.len() as int));
    lemma_sum_push(s.subrange(0, i), d);
    lemma_sum_split(s, i);
    assert(s.take(i) == s.subrange(0, i));
    assert(s.skip(i) == s.subrange(i, s.len() as int));
}

proof fn lemma_sum_take_one(s: Seq<RWInfo>, j: int)
    requires
        0 <= j < s.len(),
    ensures
        sum_sizes(s.take(j + 1)) == sum_sizes(s.take(j)) + s[j].size,
{
    assert(s.take(j + 1).drop_last() =~= s.take(j));
    assert(s.take(j + 1).last() == s[j]);
}

/// Copy the descriptors of `src` into a fresh vector in ascending page
/// order. The result holds exactly the same descriptors — only their order
/// changes, and descriptors of one page keep no particular relative order.
fn sort_by_page(src: &Vec<RWInfo>) -> (out: Vec<RWInfo>)
    ensures
        out@.to_multiset() == src@.to_multiset(),
        sorted_by_page(out@),
        sum_sizes(out@) == sum_sizes(src@),
        out@.len() == src@.len(),
{
    let mut out: Vec<RWInfo> = Vec::new();
    let mut i: usize = 0;
    proof {
        assert(out@ =~= src@.take(0int));
    }
    while i < src.len()
        invariant
            i <= src@.len(),
            out@.to_multiset() == src@.take(i as int).to_multiset(),
            sorted_by_page(out@),
            sum_sizes(out@) == sum_sizes(src@.take(i as int)),
            out@.len() == i,
        decreases src@.len() - i,
    {
        let d = src[i];
        let mut pos: usize = 0;
        while pos < out.len() && page_le(out[pos].remote, d.remote)
            invariant
                pos <= out@.len(),
                forall|k: int| 0 <= k < pos ==> page_of(#[trigger] out@[k].remote) <= page_of(d.remote),
            decreases out@.len() - pos,
        {
            pos = pos + 1;
        }
        let ghost pre = out@;
        proof {
            lemma_sum_insert(pre, pos as int, d);
            lemma_sum_take_one(src@, i as int);
            assert(src@.take(i as int + 1) =~= src@.take(i as int).push(d));
            let ins = pre.insert(pos as int, d);
            pre.insert_ensures(pos as int, d);
            assert forall|x: int, y: int|
                0 <= x < y < ins.len() implies page_of(ins[x].remote) <= page_of(ins[y].remote) by {
                if pos < pre.len() {
                    assert(page_of(pre[pos as int].remote) > page_of(d.remote));
                }
            }
            assert(sorted_by_page(ins));
        }
        out.insert(pos, d);
        proof {
            vstd::seq_lib::to_multiset_insert(pre, pos as int, d);
            vstd::seq_lib::to_multiset_build(src@.take(i as int), d);
            assert(out@ == pre.insert(pos as int, d));
            assert(out@.to_multiset() == pre.to_multiset().insert(d));
            assert(src@.take(i as int).push(d).to_multiset() == src@.take(
                i as int,
            ).to_multiset().insert(d));
        }
        i = i + 1;
    }
    proof {
        assert(src@.take(src@.len() as int) =~= src@);
    }
    out
}

/// Whether the page of `a` is at or before the page of `b`.
fn page_le(a: u64, b: u64) -> (r: bool)
    ensures
        r == (page_of(a) <= page_of(b)),
{
    a / 0x1000 <= b / 0x1000
}

/// Sum the sizes of the descriptors in `v`.
fn sum_of(v: &Vec<RWInfo>) -> (r: u64)
    requires
        sum_sizes(v@) <= u64::MAX,
    ensures
        r == sum_sizes(v@),
{
    let mut acc: u64 = 0;
    let mut j: usize = 0;
    proof {
        assert(v@.take(0int) =~= Seq::<RWInfo>::empty());
    }
    while j < v.len()
        invariant
            j <= v@.len(),
            acc == sum_sizes(v@.take(j as int)),
            sum_sizes(v@) <= u64::MAX,
        decreases v@.len() - j,
    {
        proof {
            lemma_sum_take_one(v@, j as int);
            lemma_sum_split(v@, j as int + 1);
            lemma_sum_nonneg(v@.skip(j as int + 1));
            assert(v@.take(v@.len() as int) =~= v@);
        }
        acc = acc + v[j].size;
        j = j + 1;
    }
    proof {
        assert(v@.take(v@.len() as int) =~= v@);
    }
    acc
}

/// Sum the sizes of the descriptors in `list`.
fn desc_sum(list: &DescList) -> (r: u64)
    requires
        sum_sizes(desc_seq(*list)) <= u64::MAX,
    ensures
        r == sum_sizes(desc_seq(*list)),
{
    let ghost s = desc_seq(*list);
    let n = desc_len(list);
    let mut acc: u64 = 0;
    let mut j: usize = 0;
    proof {
        assert(s.take(0int) =~= Seq::<RWInfo>::empty());
    }
    while j < n
        invariant
            j <= s.len(),
            n == s.len(),
            s == desc_seq(*list),
            acc == sum_sizes(s.take(j as int)),
            sum_sizes(s) <= u64::MAX,
        decreases n - j,
    {
        proof {
            lemma_sum_take_one(s, j as int);
            lemma_sum_split(s, j as int + 1);
            lemma_sum_nonneg(s.skip(j as int + 1));
            assert(s.take(s.len() as int) =~= s);
        }
        let d = desc_get(list, j);
        acc = acc + d.size;
        j = j + 1;
    }
    proof {
        assert(s.take(s.len() as int) =~= s);
    }
    acc
}

/// Pull the suffix of `list` that starts at `start` out of the list, leaving
/// only the prefix behind, and return that suffix in ascending page order.
fn drain_sorted(list: &mut DescList, start: usize) -> (out: Vec<RWInfo>)
    requires
        start <= desc_seq(*old(list)).len(),
    ensures
        desc_seq(*final(list)) == desc_seq(*old(list)).take(start as int),
        out@.to_multiset() == desc_seq(*old(list)).skip(start as int).to_multiset(),
        sorted_by_page(out@),
        sum_sizes(out@) == sum_sizes(desc_seq(*old(list)).skip(start as int)),
        out@.len() == desc_seq(*old(list)).len() - start,
{
    let ghost orig = desc_seq(*list);
    let mut suffix: Vec<RWInfo> = Vec::new();
    let n = desc_len(list);
    let mut i: usize = start;
    proof {
        assert(suffix@ =~= orig.subrange(start as int, start as int));
    }
    while i < n
        invariant
            start <= i <= n,
            n == desc_seq(*list).len(),
            desc_seq(*list) == orig,
            suffix@ == orig.subrange(start as int, i as int),
        decreases n - i,
    {
        let d = desc_get(list, i);
        suffix.push(d);
        proof {
            assert(orig.subrange(start as int, i as int + 1) =~= orig.subrange(
                start as int,
                i as int,
            ).push(orig[i as int]));
        }
        i = i + 1;
    }
    desc_truncate(list, start);
    proof {
        assert(suffix@ =~= orig.skip(start as int));
    }
    sort_by_page(&suffix)
}

/// The operation queue: two ordered lists of transfer descriptors bound to
/// one target address space. Queuing performs no transfer; a commit hands a
/// page-sorted batch to the translation/I-O backend and empties the
/// committed suffix, never leaving it half-applied.
pub struct RWList {
    dir_base: u64,
    read_list: DescList,
    write_list: DescList,
}

/// What a commit hands to the translation/I-O backend: the committed read
/// and write descriptors, each in ascending page order, the address-space
/// root they are to be resolved under, and the byte total they ask for.
///
/// The caller performs one bulk backend call per non-empty direction and
/// learns from [`CommitBatch::complete`] how much of the request the backend
/// honoured; the queue itself never retries and never hides a short count.
pub struct CommitBatch {
    /// Root descriptor for virtual address translation; `0` means the
    /// batch addresses physical memory directly.
    pub dir_base: u64,
    /// Read descriptors, sorted by page.
    pub reads: Vec<RWInfo>,
    /// Write descriptors, sorted by page.
    pub writes: Vec<RWInfo>,
    /// Total bytes the batch asks to transfer, over both directions.
    pub queued_len: u64,
}

impl CommitBatch {
    /// The byte total named by the batch matches its descriptors.
    pub open spec fn wf(self) -> bool {
        self.queued_len == sum_sizes(self.reads@) + sum_sizes(self.writes@)
    }

    /// Fold the byte counts the backend reported for the two bulk calls into
    /// the `(queued_len, done_len)` pair the caller checks: a `done_len`
    /// short of `queued_len` means one or more descriptors failed.
    pub fn complete(&self, done_read: u64, done_write: u64) -> (r: (u64, u64))
        requires
            done_read + done_write <= u64::MAX,
        ensures
            r.0 == self.queued_len,
            r.1 == done_read + done_write,
    {
        (self.queued_len, done_read + done_write)
    }
}

/// As long as each bulk backend call reports at most the bytes that were
/// asked of it — which the backend interface promises — the transferred
/// total never exceeds the queued total.
pub proof fn lemma_done_within_queued(b: CommitBatch, done_read: u64, done_write: u64)
    requires
        b.wf(),
        done_read <= sum_sizes(b.reads@),
        done_write <= sum_sizes(b.writes@),
    ensures
        done_read + done_write <= b.queued_len,
{
}

impl RWList {
    /// The address-space binding: `0` for physical mode, otherwise the root
    /// descriptor used for virtual address translation.
    pub closed spec fn spec_dir_base(self) -> u64 {
        self.dir_base
    }

    /// The queued read descriptors, in insertion order.
    pub closed spec fn read_seq(self) -> Seq<RWInfo> {
        desc_seq(self.read_list)
    }

    /// The queued write descriptors, in insertion order.
    pub closed spec fn write_seq(self) -> Seq<RWInfo> {
        desc_seq(self.write_list)
    }

    /// Bytes asked for by everything currently queued, over both lists.
    pub open spec fn total_bytes(self) -> int {
        sum_sizes(self.read_seq()) + sum_sizes(self.write_seq())
    }

    /// The queue stays committable: one batch's byte total always fits the
    /// count the backend reports transfers in.
    pub open spec fn inv(self) -> bool {
        self.total_bytes() <= u64::MAX
    }

    /// Bind a fresh, empty queue to an address space: physical when
    /// `dir_base` is `0`, otherwise virtual under that translation root.
    /// No transfer is performed.
    pub fn new(dir_base: u64) -> (r: RWList)
        ensures
            r.spec_dir_base() == dir_base,
            r.read_seq() == Seq::<RWInfo>::empty(),
            r.write_seq() == Seq::<RWInfo>::empty(),
            r.total_bytes() == 0,
            r.inv(),
    {
        RWList { dir_base, read_list: desc_new(), write_list: desc_new() }
    }

    /// Number of queued read descriptors.
    pub fn read_len(&self) -> (r: usize)
        ensures
            r == self.read_seq().len(),
    {
        desc_len(&self.read_list)
    }

    /// Number of queued write descriptors.
    pub fn write_len(&self) -> (r: usize)
        ensures
            r == self.write_seq().len(),
    {
        desc_len(&self.write_list)
    }

    /// The address-space binding of this queue.
    pub fn dir_base(&self) -> (r: u64)
        ensures
            r == self.spec_dir_base(),
    {
        self.dir_base
    }

    /// Bytes asked for by everything currently queued, over both lists:
    /// what a commit of everything would hand the backend. Callers about
    /// to queue more can check here that the total stays representable.
    pub fn queued_bytes(&self) -> (r: u64)
        requires
            self.inv(),
        ensures
            r == self.total_bytes(),
    {
        proof {
            lemma_sum_nonneg(self.read_seq());
            lemma_sum_nonneg(self.write_seq());
        }
        let r = desc_sum(&self.read_list);
        let w = desc_sum(&self.write_list);
        r + w
    }

    /// Queue one read of `size` bytes from the remote `address` into the
    /// caller buffer named by `local`. Nothing is transferred until a
    /// commit; the buffer must stay valid until then.
    pub fn read(&mut self, address: u64, local: u64, size: u64)
        requires
            old(self).inv(),
            size > 0,
            old(self).total_bytes() + size <= u64::MAX,
        ensures
            final(self).read_seq() == old(self).read_seq().push(
                RWInfo { local, remote: address, size },
            ),
            final(self).write_seq() == old(self).write_seq(),
            final(self).spec_dir_base() == old(self).spec_dir_base(),
            final(self).total_bytes() == old(self).total_bytes() + size,
            final(self).inv(),
    {
        proof {
            lemma_sum_push(self.read_seq(), RWInfo { local, remote: address, size });
        }
        desc_push(&mut self.read_list, RWInfo { local, remote: address, size });
    }

    /// Queue one read of an array of `count` elements of `elem_size` bytes
    /// each, as a single descriptor of `elem_size * count` bytes.
    pub fn read_arr(&mut self, address: u64, local: u64, elem_size: u64, count: u64)
        requires
            old(self).inv(),
            elem_size > 0,
            count > 0,
            elem_size * count <= u64::MAX,
            old(self).total_bytes() + elem_size * count <= u64::MAX,
        ensures
            final(self).read_seq() == old(self).read_seq().push(
                RWInfo { local, remote: address, size: (elem_size * count) as u64 },
            ),
            final(self).write_seq() == old(self).write_seq(),
            final(self).spec_dir_base() == old(self).spec_dir_base(),
            final(self).total_bytes() == old(self).total_bytes() + elem_size * count,
            final(self).inv(),
    {
        let size = elem_size * count;
        proof {
            lemma_sum_push(self.read_seq(), RWInfo { local, remote: address, size });
        }
        desc_push(&mut self.read_list, RWInfo { local, remote: address, size });
    }

    /// Queue one write of `size` bytes from the caller buffer named by
    /// `local` to the remote `address`. Nothing is transferred until a
    /// commit; the buffer must stay valid until then.
    pub fn write(&mut self, address: u64, local: u64, size: u64)
        requires
            old(self).inv(),
            size > 0,
            old(self).total_bytes() + size <= u64::MAX,
        ensures
            final(self).write_seq() == old(self).write_seq().push(
                RWInfo { local, remote: address, size },
            ),
            final(self).read_seq() == old(self).read_seq(),
            final(self).spec_dir_base() == old(self).spec_dir_base(),
            final(self).total_bytes() == old(self).total_bytes() + size,
            final(self).inv(),
    {
        proof {
            lemma_sum_push(self.write_seq(), RWInfo { local, remote: address, size });
        }
        desc_push(&mut self.write_list, RWInfo { local, remote: address, size });
    }

    /// Queue one write of an array of `count` elements of `elem_size` bytes
    /// each, as a single descriptor of `elem_size * count` bytes.
    pub fn write_arr(&mut self, address: u64, local: u64, elem_size: u64, count: u64)
        requires
            old(self).inv(),
            elem_size > 0,
            count > 0,
            elem_size * count <= u64::MAX,
            old(self).total_bytes() + elem_size * count <= u64::MAX,
        ensures
            final(self).write_seq() == old(self).write_seq().push(
                RWInfo { local, remote: address, size: (elem_size * count) as u64 },
            ),
            final(self).read_seq() == old(self).read_seq(),
            final(self).spec_dir_base() == old(self).spec_dir_base(),
            final(self).total_bytes() == old(self).total_bytes() + elem_size * count,
            final(self).inv(),
    {
        let size = elem_size * count;
        proof {
            lemma_sum_push(self.write_seq(), RWInfo { local, remote: address, size });
        }
        desc_push(&mut self.write_list, RWInfo { local, remote: address, size });
    }

    /// Commit the suffixes of both lists that start at `read_start` and
    /// `write_start`: each suffix leaves the queue entirely — whatever the
    /// backend later reports — and is returned sorted by page as one batch,
    /// ready for a single bulk backend call per direction. An empty suffix
    /// yields an empty direction, for which no backend call is owed.
    pub fn commit(&mut self, read_start: usize, write_start: usize) -> (b: CommitBatch)
        requires
            old(self).inv(),
            read_start <= old(self).read_seq().len(),
            write_start <= old(self).write_seq().len(),
        ensures
            final(self).read_seq() == old(self).read_seq().take(read_start as int),
            final(self).write_seq() == old(self).write_seq().take(write_start as int),
            final(self).spec_dir_base() == old(self).spec_dir_base(),
            final(self).inv(),
            b.dir_base == old(self).spec_dir_base(),
            b.reads@.to_multiset() == old(self).read_seq().skip(read_start as int).to_multiset(),
            b.writes@.to_multiset() == old(self).write_seq().skip(
                write_start as int,
            ).to_multiset(),
            sorted_by_page(b.reads@),
            sorted_by_page(b.writes@),
            b.reads@.len() == old(self).read_seq().len() - read_start,
            b.writes@.len() == old(self).write_seq().len() - write_start,
            b.queued_len == sum_sizes(old(self).read_seq().skip(read_start as int)) + sum_sizes(
                old(self).write_seq().skip(write_start as int),
            ),
            b.wf(),
            final(self).total_bytes() == old(self).total_bytes() - b.queued_len,
            read_start == old(self).read_seq().len() && write_start == old(self).write_seq().len()
                ==> b.queued_len == 0 && b.reads@.len() == 0 && b.writes@.len() == 0
                && final(self).read_seq() == old(self).read_seq()
                && final(self).write_seq() == old(self).write_seq(),
    {
        let ghost pre = *self;
        proof {
            if read_start == pre.read_seq().len() {
                assert(pre.read_seq().skip(read_start as int) =~= Seq::<RWInfo>::empty());
                assert(pre.read_seq().take(read_start as int) =~= pre.read_seq());
            }
            if write_start == pre.write_seq().len() {
                assert(pre.write_seq().skip(write_start as int) =~= Seq::<RWInfo>::empty());
                assert(pre.write_seq().take(write_start as int) =~= pre.write_seq());
            }
            lemma_sum_split(self.read_seq(), read_start as int);
            lemma_sum_split(self.write_seq(), write_start as int);
            lemma_sum_nonneg(self.read_seq().take(read_start as int));
            lemma_sum_nonneg(self.read_seq().skip(read_start as int));
            lemma_sum_nonneg(self.write_seq().take(write_start as int));
            lemma_sum_nonneg(self.write_seq().skip(write_start as int));
        }
        let reads = drain_sorted(&mut self.read_list, read_start);
        let writes = drain_sorted(&mut self.write_list, write_start);
        let queued_reads = sum_of(&reads);
        let queued_writes = sum_of(&writes);
        CommitBatch {
            dir_base: self.dir_base,
            reads,
            writes,
            queued_len: queued_reads + queued_writes,
        }
    }

    /// Commit everything outstanding, in both directions. Afterwards both
    /// lists are empty, whatever the backend reports.
    pub fn commit_rw(&mut self) -> (b: CommitBatch)
        requires
            old(self).inv(),
        ensures
            final(self).read_seq().len() == 0,
            final(self).write_seq().len() == 0,
            final(self).spec_dir_base() == old(self).spec_dir_base(),
            final(self).inv(),
            b.dir_base == old(self).spec_dir_base(),
            b.reads@.to_multiset() == old(self).read_seq().to_multiset(),
            b.writes@.to_multiset() == old(self).write_seq().to_multiset(),
            sorted_by_page(b.reads@),
            sorted_by_page(b.writes@),
            b.reads@.len() == old(self).read_seq().len(),
            b.writes@.len() == old(self).write_seq().len(),
            b.queued_len == old(self).total_bytes(),
            b.wf(),
            final(self).total_bytes() == 0,
    {
        proof {
            assert(self.read_seq().skip(0int) =~= self.read_seq());
            assert(self.write_seq().skip(0int) =~= self.write_seq());
        }
        self.commit(0, 0)
    }

    /// Commit only the queued reads, from the start of the read list; the
    /// write list is left queued and untouched.
    pub fn commit_read(&mut self) -> (b: CommitBatch)
        requires
            old(self).inv(),
        ensures
            final(self).read_seq().len() == 0,
            final(self).write_seq() == old(self).write_seq(),
            final(self).spec_dir_base() == old(self).spec_dir_base(),
            final(self).inv(),
            b.dir_base == old(self).spec_dir_base(),
            b.reads@.to_multiset() == old(self).read_seq().to_multiset(),
            sorted_by_page(b.reads@),
            b.reads@.len() == old(self).read_seq().len(),
            b.writes@.len() == 0,
            b.queued_len == sum_sizes(old(self).read_seq()),
            b.wf(),
            final(self).total_bytes() == old(self).total_bytes() - b.queued_len,
    {
        proof {
            assert(self.read_seq().skip(0int) =~= self.read_seq());
            assert(self.write_seq().take(self.write_seq().len() as int) =~= self.write_seq());
            assert(self.write_seq().skip(self.write_seq().len() as int) =~= Seq::<
                RWInfo,
            >::empty());
        }
        let write_end = desc_len(&self.write_list);
        self.commit(0, write_end)
    }

    /// Commit only the queued writes, from the start of the write list; the
    /// read list is left queued and untouched.
    pub fn commit_write(&mut self) -> (b: CommitBatch)
        requires
            old(self).inv(),
        ensures
            final(self).write_seq().len() == 0,
            final(self).read_seq() == old(self).read_seq(),
            final(self).spec_dir_base() == old(self).spec_dir_base(),
            final(self).inv(),
            b.dir_base == old(self).spec_dir_base(),
            b.writes@.to_multiset() == old(self).write_seq().to_multiset(),
            sorted_by_page(b.writes@),
            b.writes@.len() == old(self).write_seq().len(),
            b.reads@.len() == 0,
            b.queued_len == sum_sizes(old(self).write_seq()),
            b.wf(),
            final(self).total_bytes() == old(self).total_bytes() - b.queued_len,
    {
        proof {
            assert(self.write_seq().skip(0int) =~= self.write_seq());
            assert(self.read_seq().take(self.read_seq().len() as int) =~= self.read_seq());
            assert(self.read_seq().skip(self.read_seq().len() as int) =~= Seq::<RWInfo>::empty());
        }
        let read_end = desc_len(&self.read_list);
        self.commit(read_end, 0)
    }

    /// Open a scoped batch: capture the current list lengths, so that
    /// closing the handle later commits exactly the entries queued after
    /// this point and leaves everything queued before it in place.
    pub fn open_batch(&self) -> (b: QueueBuilder)
        ensures
            b.read_start == self.read_seq().len(),
            b.write_start == self.write_seq().len(),
    {
        QueueBuilder {
            read_start: desc_len(&self.read_list),
            write_start: desc_len(&self.write_list),
        }
    }
}

/// A scoped batch handle over an operation queue: it remembers the list
/// lengths at the moment it was opened, and closing it commits exactly the
/// suffix queued since then. Nested handles close innermost-first, each
/// committing only its own suffix. Close every handle on every exit path:
/// its suffix is committed only then.
pub struct QueueBuilder {
    /// Length of the read list when the batch was opened.
    pub read_start: usize,
    /// Length of the write list when the batch was opened.
    pub write_start: usize,
}

impl QueueBuilder {
    /// Close the batch: commit exactly the entries queued on `q` since this
    /// handle was opened. Both lists return to the lengths captured at
    /// [`RWList::open_batch`]; entries queued before that stay queued.
    pub fn close(self, q: &mut RWList) -> (b: CommitBatch)
        requires
            old(q).inv(),
            self.read_start <= old(q).read_seq().len(),
            self.write_start <= old(q).write_seq().len(),
        ensures
            final(q).read_seq() == old(q).read_seq().take(self.read_start as int),
            final(q).write_seq() == old(q).write_seq().take(self.write_start as int),
            final(q).read_seq().len() == self.read_start,
            final(q).write_seq().len() == self.write_start,
            final(q).spec_dir_base() == old(q).spec_dir_base(),
            final(q).inv(),
            b.dir_base == old(q).spec_dir_base(),
            b.reads@.to_multiset() == old(q).read_seq().skip(self.read_start as int).to_multiset(),
            b.writes@.to_multiset() == old(q).write_seq().skip(
                self.write_start as int,
            ).to_multiset(),
            sorted_by_page(b.reads@),
            sorted_by_page(b.writes@),
            b.queued_len == sum_sizes(old(q).read_seq().skip(self.read_start as int)) + sum_sizes(
                old(q).write_seq().skip(self.write_start as int),
            ),
            b.wf(),
            final(q).total_bytes() == old(q).total_bytes() - b.queued_len,
    {
        q.commit(self.read_start, self.write_start)
    }
}

} // verus!
