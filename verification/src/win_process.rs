use vstd::prelude::*;

use crate::rwlist::sum_sizes;
use crate::rwlist::CommitBatch;
use crate::rwlist::RWInfo;
use crate::rwlist::RWList;
use crate::win_dll::WinDll;

verus! {

/// A Windows process of the inspected guest: the identifiers the backend's
/// process enumeration reports, and the process's module list once one has
/// been generated. Reads and writes against the process translate virtual
/// addresses under its directory base.
#[derive(Clone, Debug)]
pub struct WinProcess {
    /// Process identifier.
    pub pid: u64,
    /// Virtual address of the process object.
    pub process: u64,
    /// Physical address of the process object.
    pub phys_process: u64,
    /// Page-directory base: the root descriptor for translating this
    /// process's virtual addresses.
    pub dir_base: u64,
    /// Process image name.
    pub name: String,
    /// Loaded modules; empty until refreshed.
    pub module_list: Vec<WinDll>,
}

impl WinProcess {
    /// Build a process entry from what the backend's enumeration reports;
    /// its module list starts out empty.
    pub fn new(pid: u64, process: u64, phys_process: u64, dir_base: u64, name: String) -> (r:
        WinProcess)
        ensures
            r.pid == pid,
            r.process == process,
            r.phys_process == phys_process,
            r.dir_base == dir_base,
            r.name == name,
            r.module_list@.len() == 0,
    {
        WinProcess { pid, process, phys_process, dir_base, name, module_list: Vec::new() }
    }

    /// An empty operation queue over this process's virtual memory: many
    /// operations committed together go to the backend as one batch per
    /// direction, which beats issuing them one by one.
    pub fn rwlist(&self) -> (r: RWList)
        ensures
            r.spec_dir_base() == self.dir_base,
            r.read_seq().len() == 0,
            r.write_seq().len() == 0,
            r.inv(),
    {
        RWList::new(self.dir_base)
    }

    /// One immediate read of `size` bytes from the process's virtual
    /// `address` into the caller buffer named by `local`, as a
    /// single-descriptor batch for the backend.
    pub fn read(&self, address: u64, local: u64, size: u64) -> (b: CommitBatch)
        requires
            size > 0,
        ensures
            b.dir_base == self.dir_base,
            b.reads@ == seq![RWInfo { local, remote: address, size }],
            b.writes@.len() == 0,
            b.queued_len == size,
            b.wf(),
    {
        single_read_batch(self.dir_base, address, local, size)
    }

    /// One immediate write of `size` bytes from the caller buffer named by
    /// `local` to the process's virtual `address`, as a single-descriptor
    /// batch for the backend.
    pub fn write(&self, address: u64, local: u64, size: u64) -> (b: CommitBatch)
        requires
            size > 0,
        ensures
            b.dir_base == self.dir_base,
            b.writes@ == seq![RWInfo { local, remote: address, size }],
            b.reads@.len() == 0,
            b.queued_len == size,
            b.wf(),
    {
        single_write_batch(self.dir_base, address, local, size)
    }

    /// Rebuild the module list from the raw `(name, base address, entry
    /// point, size)` records the backend's module enumeration produced,
    /// one entry per record in the reported order, each with an empty
    /// export list; everything else about the process is left untouched.
    pub fn refresh_modules(&mut self, modules: &Vec<(String, u64, u64, u64)>)
        ensures
            final(self).module_list@.len() == modules@.len(),
            forall|k: int|
                #![auto]
                0 <= k < modules@.len() ==> final(self).module_list@[k].name == modules@[k].0
                    && final(self).module_list@[k].base_address == modules@[k].1
                    && final(self).module_list@[k].entry_point == modules@[k].2
                    && final(self).module_list@[k].size_of_module == modules@[k].3
                    && final(self).module_list@[k].export_list@.len() == 0,
            final(self).pid == old(self).pid,
            final(self).process == old(self).process,
            final(self).phys_process == old(self).phys_process,
            final(self).dir_base == old(self).dir_base,
            final(self).name == old(self).name,
    {
        self.module_list.clear();
        let mut i: usize = 0;
        while i < modules.len()
            invariant
                i <= modules@.len(),
                self.module_list@.len() == i,
                forall|k: int|
                    #![auto]
                    0 <= k < i ==> self.module_list@[k].name == modules@[k].0
                        && self.module_list@[k].base_address == modules@[k].1
                        && self.module_list@[k].entry_point == modules@[k].2
                        && self.module_list@[k].size_of_module == modules@[k].3
                        && self.module_list@[k].export_list@.len() == 0,
                self.pid == old(self).pid,
                self.process == old(self).process,
                self.phys_process == old(self).phys_process,
                self.dir_base == old(self).dir_base,
                self.name == old(self).name,
            decreases modules@.len() - i,
        {
            let rec = &modules[i];
            self.module_list.push(WinDll::new(rec.0.clone(), rec.1, rec.2, rec.3));
            i = i + 1;
        }
    }
}

/// A batch holding one read descriptor, ready for the backend.
pub fn single_read_batch(dir_base: u64, address: u64, local: u64, size: u64) -> (b: CommitBatch)
    ensures
        b.dir_base == dir_base,
        b.reads@ == seq![RWInfo { local, remote: address, size }],
        b.writes@.len() == 0,
        b.queued_len == size,
        b.wf(),
{
    let mut reads: Vec<RWInfo> = Vec::new();
    reads.push(RWInfo { local, remote: address, size });
    let writes: Vec<RWInfo> = Vec::new();
    proof {
        assert(reads@ =~= seq![RWInfo { local, remote: address, size }]);
        assert(reads@.drop_last() =~= Seq::<RWInfo>::empty());
        assert(sum_sizes(Seq::<RWInfo>::empty()) == 0);
        assert(sum_sizes(reads@) == size);
        assert(sum_sizes(writes@) == 0);
    }
    CommitBatch { dir_base, reads, writes, queued_len: size }
}

/// A batch holding one write descriptor, ready for the backend.
pub fn single_write_batch(dir_base: u64, address: u64, local: u64, size: u64) -> (b: CommitBatch)
    ensures
        b.dir_base == dir_base,
        b.writes@ == seq![RWInfo { local, remote: address, size }],
        b.reads@.len() == 0,
        b.queued_len == size,
        b.wf(),
{
    let reads: Vec<RWInfo> = Vec::new();
    let mut writes: Vec<RWInfo> = Vec::new();
    writes.push(RWInfo { local, remote: address, size });
    proof {
        assert(writes@ =~= seq![RWInfo { local, remote: address, size }]);
        assert(writes@.drop_last() =~= Seq::<RWInfo>::empty());
        assert(sum_sizes(Seq::<RWInfo>::empty()) == 0);
        assert(sum_sizes(writes@) == size);
        assert(sum_sizes(reads@) == 0);
    }
    CommitBatch { dir_base, reads, writes, queued_len: size }
}

} // verus!
