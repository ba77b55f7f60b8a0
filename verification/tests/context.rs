use vmread::{create_context, set_vmread_dfile, WinDll, WinExport, WinProcess};

#[test]
fn successful_initialization_yields_an_empty_context() {
    set_vmread_dfile();
    let ctx = create_context(0).unwrap();
    assert_eq!(ctx.process_list.len(), 0);
    assert_eq!(ctx.kmod_list.len(), 0);
}

#[test]
fn each_initialization_status_maps_to_its_description() {
    let cases: [(i32, &str); 12] = [
        (-1, "Failed to find VM process"),
        (1, "Failed to parse memory maps"),
        (2, "Failed to find largest memory map"),
        (3, "CheckLow fail"),
        (4, "FindNTKernel fail"),
        (5, "GenerateExportList fail"),
        (6, "Find PsInitialSystemProcess fail"),
        (7, "Failed to read PsInitialSystemProcess"),
        (8, "GetNTVersion/GetNTBuild fail"),
        (9, "SetupOffsets fail"),
        (100, "Kernel module connection fail"),
        (101, "VM mapping fail"),
    ];
    for (status, text) in cases {
        let (e, msg) = create_context(status).unwrap_err();
        assert_eq!(e, status);
        assert_eq!(msg, text);
    }
}

#[test]
fn unknown_initialization_status_says_so() {
    let (e, msg) = create_context(55).unwrap_err();
    assert_eq!(e, 55);
    assert_eq!(msg, "Unknown error");
}

#[test]
fn context_queues_are_bound_to_physical_memory() {
    let ctx = create_context(0).unwrap();
    let q = ctx.rwlist();
    assert_eq!(q.dir_base(), 0);
    assert_eq!(q.read_len(), 0);
    assert_eq!(q.write_len(), 0);
}

#[test]
fn context_single_shot_read_is_one_physical_descriptor() {
    let ctx = create_context(0).unwrap();
    let b = ctx.read(0x1234, 9, 8);
    assert_eq!(b.dir_base, 0);
    assert_eq!(b.reads.len(), 1);
    assert_eq!(b.writes.len(), 0);
    assert_eq!(b.reads[0].remote, 0x1234);
    assert_eq!(b.reads[0].local, 9);
    assert_eq!(b.reads[0].size, 8);
    assert_eq!(b.queued_len, 8);
}

#[test]
fn context_single_shot_write_is_one_physical_descriptor() {
    let ctx = create_context(0).unwrap();
    let b = ctx.write(0x4321, 5, 4);
    assert_eq!(b.dir_base, 0);
    assert_eq!(b.writes.len(), 1);
    assert_eq!(b.reads.len(), 0);
    assert_eq!(b.writes[0].remote, 0x4321);
    assert_eq!(b.queued_len, 4);
}

#[test]
fn refreshing_context_lists_replaces_them() {
    let mut ctx = create_context(0).unwrap();
    ctx.refresh_processes(&vec![(4, 0xffff8000, 0x1000, 0x1aa000, String::from("System"))]);
    assert_eq!(ctx.process_list.len(), 1);
    assert_eq!(ctx.process_list[0].pid, 4);
    assert_eq!(ctx.process_list[0].name, "System");
    assert_eq!(ctx.process_list[0].dir_base, 0x1aa000);
    assert_eq!(ctx.process_list[0].module_list.len(), 0);
    ctx.refresh_kmods(&vec![(String::from("ntoskrnl.exe"), 0xfffff800, 0x1000, 0x800000)]);
    assert_eq!(ctx.kmod_list.len(), 1);
    assert_eq!(ctx.kmod_list[0].name, "ntoskrnl.exe");
    assert_eq!(ctx.process_list.len(), 1);
    ctx.refresh_processes(&vec![]);
    assert_eq!(ctx.process_list.len(), 0);
    assert_eq!(ctx.kmod_list.len(), 1);
}

#[test]
fn process_queues_translate_under_its_directory_base() {
    let p = WinProcess::new(4, 0xffff8000, 0x1000, 0x1aa000, String::from("System"));
    let q = p.rwlist();
    assert_eq!(q.dir_base(), 0x1aa000);
    let b = p.read(0x7ffe0000, 11, 16);
    assert_eq!(b.dir_base, 0x1aa000);
    assert_eq!(b.reads.len(), 1);
    assert_eq!(b.queued_len, 16);
    let w = p.write(0x7ffe0000, 12, 16);
    assert_eq!(w.dir_base, 0x1aa000);
    assert_eq!(w.writes.len(), 1);
}

#[test]
fn process_starts_without_modules_and_refresh_replaces_them() {
    let mut p = WinProcess::new(4, 0xffff8000, 0x1000, 0x1aa000, String::from("System"));
    assert_eq!(p.module_list.len(), 0);
    p.refresh_modules(&vec![(String::from("kernel32.dll"), 0x77000000, 0x77001000, 0x100000)]);
    assert_eq!(p.module_list.len(), 1);
    assert_eq!(p.module_list[0].name, "kernel32.dll");
    assert_eq!(p.module_list[0].base_address, 0x77000000);
    assert_eq!(p.module_list[0].export_list.len(), 0);
    assert_eq!(p.pid, 4);
    assert_eq!(p.name, "System");
}

#[test]
fn module_starts_without_exports_and_refresh_replaces_them() {
    let mut m = WinDll::new(String::from("kernel32.dll"), 0x77000000, 0x77001000, 0x100000);
    assert_eq!(m.export_list.len(), 0);
    assert_eq!(m.entry_point, 0x77001000);
    assert_eq!(m.size_of_module, 0x100000);
    m.refresh_exports(&vec![(String::from("LoadLibraryA"), 0x77012345)]);
    assert_eq!(m.export_list.len(), 1);
    assert_eq!(m.export_list[0].name, "LoadLibraryA");
    assert_eq!(m.export_list[0].address, 0x77012345);
    assert_eq!(m.base_address, 0x77000000);
}

#[test]
fn export_entry_keeps_its_fields() {
    let e = WinExport::new(String::from("NtReadVirtualMemory"), 0xfffff80000123456);
    assert_eq!(e.name, "NtReadVirtualMemory");
    assert_eq!(e.address, 0xfffff80000123456);
}
