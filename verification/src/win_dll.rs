use vstd::prelude::*;

use crate::win_export::WinExport;

verus! {

/// A single module (DLL or kernel module) of a Windows process: the basic
/// facts the backend's enumeration reports about it, plus the module's
/// export list once one has been generated.
#[derive(Clone, Debug)]
pub struct WinDll {
    /// Module name.
    pub name: String,
    /// Virtual base address the module is loaded at.
    pub base_address: u64,
    /// Virtual address of the module's entry point.
    pub entry_point: u64,
    /// Size of the loaded module, in bytes.
    pub size_of_module: u64,
    /// Exports of the module; empty until refreshed.
    pub export_list: Vec<WinExport>,
}

impl WinDll {
    /// Build a module entry from what the backend's enumeration reports;
    /// its export list starts out empty.
    pub fn new(name: String, base_address: u64, entry_point: u64, size_of_module: u64) -> (r:
        WinDll)
        ensures
            r.name == name,
            r.base_address == base_address,
            r.entry_point == entry_point,
            r.size_of_module == size_of_module,
            r.export_list@.len() == 0,
    {
        WinDll { name, base_address, entry_point, size_of_module, export_list: Vec::new() }
    }

    /// Rebuild the export list from the raw `(name, address)` records the
    /// backend's export enumeration produced, one entry per record in the
    /// reported order; everything else about the module is left untouched.
    pub fn refresh_exports(&mut self, exports: &Vec<(String, u64)>)
        ensures
            final(self).export_list@.len() == exports@.len(),
            forall|k: int|
                #![auto]
                0 <= k < exports@.len() ==> final(self).export_list@[k].name == exports@[k].0
                    && final(self).export_list@[k].address == exports@[k].1,
            final(self).name == old(self).name,
            final(self).base_address == old(self).base_address,
            final(self).entry_point == old(self).entry_point,
            final(self).size_of_module == old(self).size_of_module,
    {
        self.export_list.clear();
        let mut i: usize = 0;
        while i < exports.len()
            invariant
                i <= exports@.len(),
                self.export_list@.len() == i,
                forall|k: int|
                    #![auto]
                    0 <= k < i ==> self.export_list@[k].name == exports@[k].0
                        && self.export_list@[k].address == exports@[k].1,
                self.name == old(self).name,
                self.base_address == old(self).base_address,
                self.entry_point == old(self).entry_point,
                self.size_of_module == old(self).size_of_module,
            decreases exports@.len() - i,
        {
            let rec = &exports[i];
            self.export_list.push(WinExport::new(rec.0.clone(), rec.1));
            i = i + 1;
        }
    }
}

} // verus!
