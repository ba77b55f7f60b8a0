use vstd::prelude::*;

use crate::rwlist::CommitBatch;
use crate::rwlist::RWInfo;
use crate::rwlist::RWList;
use crate::win_dll::WinDll;
use crate::win_process::single_read_batch;
use crate::win_process::single_write_batch;
use crate::win_process::WinProcess;

verus! {

/// A context over one VM instance: the process and kernel-module lists the
/// backend has enumerated so far, and the entry point for reads and writes
/// of the VM's physical memory.
#[derive(Debug)]
pub struct WinContext {
    /// Processes of the guest; empty until refreshed.
    pub process_list: Vec<WinProcess>,
    /// Kernel modules of the guest; empty until refreshed.
    pub kmod_list: Vec<WinDll>,
}

/// Select the file that in-process debug output goes to. Only the access
/// mode that loads the engine into the VM process writes such output; the
/// other modes produce none, so there is nothing to select and this does
/// nothing.
pub fn set_vmread_dfile() {
}

/// The description that goes with a context-initialization status.
pub open spec fn context_error_view(e: i32) -> Seq<char> {
    if e == -1 {
        "Failed to find VM process"@
    } else if e == 1 {
        "Failed to parse memory maps"@
    } else if e == 2 {
        "Failed to find largest memory map"@
    } else if e == 3 {
        "CheckLow fail"@
    } else if e == 4 {
        "FindNTKernel fail"@
    } else if e == 5 {
        "GenerateExportList fail"@
    } else if e == 6 {
        "Find PsInitialSystemProcess fail"@
    } else if e == 7 {
        "Failed to read PsInitialSystemProcess"@
    } else if e == 8 {
        "GetNTVersion/GetNTBuild fail"@
    } else if e == 9 {
        "SetupOffsets fail"@
    } else if e == 100 {
        "Kernel module connection fail"@
    } else if e == 101 {
        "VM mapping fail"@
    } else {
        "Unknown error"@
    }
}

/// Turn the status the backend's initialization reported into a context:
/// status `0` yields a fresh context with empty lists, and any other
/// status yields that status paired with its description.
pub fn create_context(status: i32) -> (r: Result<WinContext, (i32, &'static str)>)
    ensures
        status == 0 ==> r is Ok && r->Ok_0.process_list@.len() == 0
            && r->Ok_0.kmod_list@.len() == 0,
        status != 0 ==> r is Err && r->Err_0.0 == status && r->Err_0.1@ == context_error_view(
            status,
        ),
{
    if status == 0 {
        Ok(WinContext { process_list: Vec::new(), kmod_list: Vec::new() })
    } else {
        Err((status, context_error_str(status)))
    }
}

/// The human-readable description of a non-zero initialization status.
fn context_error_str(e: i32) -> (r: &'static str)
    ensures
        r@ == context_error_view(e),
{
    if e == -1 {
        "Failed to find VM process"
    } else if e == 1 {
        "Failed to parse memory maps"
    } else if e == 2 {
        "Failed to find largest memory map"
    } else if e == 3 {
        "CheckLow fail"
    } else if e == 4 {
        "FindNTKernel fail"
    } else if e == 5 {
        "GenerateExportList fail"
    } else if e == 6 {
        "Find PsInitialSystemProcess fail"
    } else if e == 7 {
        "Failed to read PsInitialSystemProcess"
    } else if e == 8 {
        "GetNTVersion/GetNTBuild fail"
    } else if e == 9 {
        "SetupOffsets fail"
    } else if e == 100 {
        "Kernel module connection fail"
    } else if e == 101 {
        "VM mapping fail"
    } else {
        "Unknown error"
    }
}

impl WinContext {
    /// An empty operation queue over the VM's physical memory: many
    /// operations committed together go to the backend as one batch per
    /// direction, which beats issuing them one by one.
    pub fn rwlist(&self) -> (r: RWList)
        ensures
            r.spec_dir_base() == 0,
            r.read_seq().len() == 0,
            r.write_seq().len() == 0,
            r.inv(),
    {
        RWList::new(0)
    }

    /// One immediate read of `size` bytes from the VM's physical `address`
    /// into the caller buffer named by `local`, as a single-descriptor
    /// batch for the backend.
    pub fn read(&self, address: u64, local: u64, size: u64) -> (b: CommitBatch)
        requires
            size > 0,
        ensures
            b.dir_base == 0,
            b.reads@ == seq![RWInfo { local, remote: address, size }],
            b.writes@.len() == 0,
            b.queued_len == size,
            b.wf(),
    {
        single_read_batch(0, address, local, size)
    }

    /// One immediate write of `size` bytes from the caller buffer named by
    /// `local` to the VM's physical `address`, as a single-descriptor
    /// batch for the backend.
    pub fn write(&self, address: u64, local: u64, size: u64) -> (b: CommitBatch)
        requires
            size > 0,
        ensures
            b.dir_base == 0,
            b.writes@ == seq![RWInfo { local, remote: address, size }],
            b.reads@.len() == 0,
            b.queued_len == size,
            b.wf(),
    {
        single_write_batch(0, address, local, size)
    }

    /// Rebuild the process list from the raw `(pid, process address,
    /// physical process address, directory base, name)` records the
    /// backend's process enumeration produced, one entry per record in the
    /// reported order, each with an empty module list; the kernel-module
    /// list is left untouched.
    pub fn refresh_processes(&mut self, processes: &Vec<(u64, u64, u64, u64, String)>)
        ensures
            final(self).process_list@.len() == processes@.len(),
            forall|k: int|
                #![auto]
                0 <= k < processes@.len() ==> final(self).process_list@[k].pid == processes@[k].0
                    && final(self).process_list@[k].process == processes@[k].1
                    && final(self).process_list@[k].phys_process == processes@[k].2
                    && final(self).process_list@[k].dir_base == processes@[k].3
                    && final(self).process_list@[k].name == processes@[k].4
                    && final(self).process_list@[k].module_list@.len() == 0,
            final(self).kmod_list == old(self).kmod_list,
    {
        self.process_list.clear();
        let mut i: usize = 0;
        while i < processes.len()
            invariant
                i <= processes@.len(),
                self.process_list@.len() == i,
                forall|k: int|
                    #![auto]
                    0 <= k < i ==> self.process_list@[k].pid == processes@[k].0
                        && self.process_list@[k].process == processes@[k].1
                        && self.process_list@[k].phys_process == processes@[k].2
                        && self.process_list@[k].dir_base == processes@[k].3
                        && self.process_list@[k].name == processes@[k].4
                        && self.process_list@[k].module_list@.len() == 0,
                self.kmod_list == old(self).kmod_list,
            decreases processes@.len() - i,
        {
            let rec = &processes[i];
            self.process_list.push(
                WinProcess::new(rec.0, rec.1, rec.2, rec.3, rec.4.clone()),
            );
            i = i + 1;
        }
    }

    /// Rebuild the kernel-module list from the raw `(name, base address,
    /// entry point, size)` records the backend's kernel-module enumeration
    /// produced, one entry per record in the reported order, each with an
    /// empty export list; the process list is left untouched.
    pub fn refresh_kmods(&mut self, kmods: &Vec<(String, u64, u64, u64)>)
        ensures
            final(self).kmod_list@.len() == kmods@.len(),
            forall|k: int|
                #![auto]
                0 <= k < kmods@.len() ==> final(self).kmod_list@[k].name == kmods@[k].0
                    && final(self).kmod_list@[k].base_address == kmods@[k].1
                    && final(self).kmod_list@[k].entry_point == kmods@[k].2
                    && final(self).kmod_list@[k].size_of_module == kmods@[k].3
                    && final(self).kmod_list@[k].export_list@.len() == 0,
            final(self).process_list == old(self).process_list,
    {
        self.kmod_list.clear();
        let mut i: usize = 0;
        while i < kmods.len()
            invariant
                i <= kmods@.len(),
                self.kmod_list@.len() == i,
                forall|k: int|
                    #![auto]
                    0 <= k < i ==> self.kmod_list@[k].name == kmods@[k].0
                        && self.kmod_list@[k].base_address == kmods@[k].1
                        && self.kmod_list@[k].entry_point == kmods@[k].2
                        && self.kmod_list@[k].size_of_module == kmods@[k].3
                        && self.kmod_list@[k].export_list@.len() == 0,
                self.process_list == old(self).process_list,
            decreases kmods@.len() - i,
        {
            let rec = &kmods[i];
            self.kmod_list.push(WinDll::new(rec.0.clone(), rec.1, rec.2, rec.3));
            i = i + 1;
        }
    }
}

} // verus!
