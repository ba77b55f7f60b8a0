use vmread::{CommitBatch, RWList};

/// What a bulk read call of a backend would report for `batch` when exactly
/// the pages in `mapped` are mapped: the bytes of every descriptor whose
/// page can be resolved, and nothing for the rest.
fn perform_reads(batch: &CommitBatch, mapped: &[u64]) -> u64 {
    let mut done: u64 = 0;
    for d in &batch.reads {
        if mapped.contains(&(d.remote >> 12)) {
            done += d.size;
        }
    }
    done
}

fn perform_writes(batch: &CommitBatch, mapped: &[u64]) -> u64 {
    let mut done: u64 = 0;
    for d in &batch.writes {
        if mapped.contains(&(d.remote >> 12)) {
            done += d.size;
        }
    }
    done
}

#[test]
fn new_queue_is_empty_and_bound() {
    let q = RWList::new(0x1aa000);
    assert_eq!(q.read_len(), 0);
    assert_eq!(q.write_len(), 0);
    assert_eq!(q.dir_base(), 0x1aa000);
    assert_eq!(q.queued_bytes(), 0);
}

#[test]
fn queueing_appends_and_counts_bytes() {
    let mut q = RWList::new(0);
    q.read(0x1000, 1, 8);
    q.write(0x2000, 2, 4);
    q.read(0x3000, 3, 2);
    assert_eq!(q.read_len(), 2);
    assert_eq!(q.write_len(), 1);
    assert_eq!(q.queued_bytes(), 14);
}

#[test]
fn array_ops_queue_one_descriptor_of_full_size() {
    let mut q = RWList::new(0);
    q.read_arr(0x5000, 7, 4, 3);
    q.write_arr(0x6000, 8, 8, 2);
    assert_eq!(q.read_len(), 1);
    assert_eq!(q.write_len(), 1);
    assert_eq!(q.queued_bytes(), 12 + 16);
    let b = q.commit_rw();
    assert_eq!(b.reads[0].size, 12);
    assert_eq!(b.writes[0].size, 16);
}

#[test]
fn commit_rw_empties_both_lists() {
    let mut q = RWList::new(0);
    q.read(0x1000, 1, 8);
    q.write(0x2000, 2, 4);
    q.read(0x9000, 3, 2);
    let b = q.commit_rw();
    assert_eq!(q.read_len(), 0);
    assert_eq!(q.write_len(), 0);
    assert_eq!(b.queued_len, 14);
    // Emptying does not depend on what the backend later reports: the
    // lists are already empty before any completion is folded in.
    let (queued, done) = b.complete(10, 0);
    assert_eq!(queued, 14);
    assert_eq!(done, 10);
    assert_eq!(q.read_len(), 0);
    assert_eq!(q.write_len(), 0);
}

#[test]
fn empty_commit_is_an_empty_batch_and_zero_pair() {
    let mut q = RWList::new(0);
    q.read(0x1000, 1, 8);
    let r = q.read_len();
    let w = q.write_len();
    let b = q.commit(r, w);
    assert_eq!(b.reads.len(), 0);
    assert_eq!(b.writes.len(), 0);
    assert_eq!(b.queued_len, 0);
    assert_eq!(b.complete(0, 0), (0, 0));
    // The queued entry stayed queued.
    assert_eq!(q.read_len(), 1);
}

#[test]
fn commit_read_leaves_writes_queued() {
    let mut q = RWList::new(0);
    q.read(0x1000, 1, 8);
    q.write(0x2000, 2, 4);
    let b = q.commit_read();
    assert_eq!(b.reads.len(), 1);
    assert_eq!(b.writes.len(), 0);
    assert_eq!(b.queued_len, 8);
    assert_eq!(q.read_len(), 0);
    assert_eq!(q.write_len(), 1);
}

#[test]
fn commit_write_leaves_reads_queued() {
    let mut q = RWList::new(0);
    q.read(0x1000, 1, 8);
    q.write(0x2000, 2, 4);
    let b = q.commit_write();
    assert_eq!(b.reads.len(), 0);
    assert_eq!(b.writes.len(), 1);
    assert_eq!(b.queued_len, 4);
    assert_eq!(q.read_len(), 1);
    assert_eq!(q.write_len(), 0);
}

#[test]
fn builder_close_returns_lists_to_captured_lengths() {
    let mut q = RWList::new(0);
    q.read(0x1000, 1, 8);
    let handle = q.open_batch();
    q.read(0x2000, 2, 8);
    q.read(0x2100, 3, 8);
    q.write(0x3000, 4, 4);
    let b = handle.close(&mut q);
    // Exactly back to the captured start, not totals minus counts.
    assert_eq!(q.read_len(), 1);
    assert_eq!(q.write_len(), 0);
    assert_eq!(b.reads.len(), 2);
    assert_eq!(b.writes.len(), 1);
    // The entry queued before the builder was opened is still there.
    let rest = q.commit_rw();
    assert_eq!(rest.reads.len(), 1);
    assert_eq!(rest.reads[0].remote, 0x1000);
}

#[test]
fn nested_batch_commits_innermost_first() {
    let mut q = RWList::new(0);
    q.write(0x1000, 1, 4);
    q.write(0x2000, 2, 4);
    let inner = q.open_batch();
    q.write(0x3000, 3, 4);
    // Closing the nested batch commits exactly its one write.
    let b1 = inner.close(&mut q);
    assert_eq!(b1.writes.len(), 1);
    assert_eq!(b1.writes[0].remote, 0x3000);
    assert_eq!(q.write_len(), 2);
    // Committing the outer level commits the remaining two: two backend
    // write calls in total, not one.
    let b2 = q.commit_rw();
    assert_eq!(b2.writes.len(), 2);
    assert_eq!(q.write_len(), 0);
}

#[test]
fn commit_preserves_the_multiset_of_descriptors() {
    let mut q = RWList::new(0);
    let queued = [
        (0x7000u64, 4u64),
        (0x1000, 8),
        (0x7010, 4),
        (0x1008, 8),
        (0x3000, 2),
        (0x1010, 8),
    ];
    for (i, (remote, size)) in queued.iter().enumerate() {
        q.read(*remote, i as u64, *size);
    }
    let b = q.commit_rw();
    let mut sent: Vec<(u64, u64)> = b.reads.iter().map(|d| (d.remote, d.size)).collect();
    let mut asked: Vec<(u64, u64)> = queued.to_vec();
    sent.sort();
    asked.sort();
    assert_eq!(sent, asked);
}

#[test]
fn commit_sorts_by_page_and_groups_same_page_reads() {
    let mut q = RWList::new(0);
    q.read(0x1000, 1, 8);
    q.read(0x1FFF, 2, 8);
    q.read(0x3000, 3, 8);
    let b = q.commit_rw();
    assert_eq!(b.queued_len, 24);
    let pages: Vec<u64> = b.reads.iter().map(|d| d.remote >> 12).collect();
    // The two page-0x1000 descriptors come out adjacent.
    assert_eq!(pages, vec![1, 1, 3]);
}

#[test]
fn fully_mapped_batch_transfers_everything() {
    let mut q = RWList::new(0);
    q.read(0x1000, 1, 8);
    q.read(0x3000, 2, 8);
    q.write(0x1010, 3, 4);
    let b = q.commit_rw();
    let done_r = perform_reads(&b, &[1, 3]);
    let done_w = perform_writes(&b, &[1, 3]);
    let (queued, done) = b.complete(done_r, done_w);
    assert!(done <= queued);
    assert_eq!(done, queued);
    assert_eq!(queued, 20);
}

#[test]
fn unmapped_page_shows_as_short_transfer() {
    let mut q = RWList::new(0);
    q.read(0x1000, 1, 8);
    q.read(0x3000, 2, 8);
    let b = q.commit_rw();
    // Page 3 is not mapped: the backend reports fewer bytes than asked.
    let done_r = perform_reads(&b, &[1]);
    let (queued, done) = b.complete(done_r, 0);
    assert!(done < queued);
    assert_eq!(queued, 16);
    assert_eq!(done, 8);
}
