//! Batched scatter-gather access to the memory of a Windows guest running
//! under KVM.
//!
//! The heart of the crate is an operation queue ([`RWList`]) that accumulates
//! read and write requests against a target address space, reorders them by
//! page for translation locality, and hands them to a translation/I-O backend
//! in bulk, together with a per-thread translation cache controller
//! ([`Tlb`]) whose validity window bounds how long cached translations may be
//! reused.

mod rwlist;
mod tlb;
mod win_context;
mod win_dll;
mod win_export;
mod win_process;

pub use rwlist::desc_seq;
pub use rwlist::lemma_done_within_queued;
pub use rwlist::page_of;
pub use rwlist::sorted_by_page;
pub use rwlist::sum_sizes;
pub use rwlist::CommitBatch;
pub use rwlist::DescList;
pub use rwlist::QueueBuilder;
pub use rwlist::RWInfo;
pub use rwlist::RWList;
pub use tlb::entry_for;
pub use tlb::has_page;
pub use tlb::is_fresh;
pub use tlb::lemma_sweep_keeps_fresh;
pub use tlb::pages_unique;
pub use tlb::sweep;
pub use tlb::CacheConfig;
pub use tlb::Tlb;
pub use tlb::TlbEntry;
pub use tlb::TlbState;
pub use tlb::DEFAULT_MEM_CACHE_TIME;
pub use win_context::context_error_view;
pub use win_context::create_context;
pub use win_context::set_vmread_dfile;
pub use win_context::WinContext;
pub use win_dll::WinDll;
pub use win_export::WinExport;
pub use win_process::single_read_batch;
pub use win_process::single_write_batch;
pub use win_process::WinProcess;
