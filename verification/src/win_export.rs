use vstd::prelude::*;

verus! {

/// A single export of a Windows module: its name and the virtual address it
/// resolves to inside the owning process.
#[derive(Clone, Debug, Default)]
pub struct WinExport {
    pub name: String,
    pub address: u64,
}

impl WinExport {
    /// Build an export entry from its name and resolved address.
    pub fn new(name: String, address: u64) -> (r: WinExport)
        ensures
            r.name == name,
            r.address == address,
    {
        WinExport { name, address }
    }
}

} // verus!
