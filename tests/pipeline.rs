use injector::error::InjectError;
use injector::job::{Action, Event, InjectionJob, JobState, Protection, RemoteAllocation};
use injector::process::{find_procs, get_process_title, is_target_name, ProcessEntry};
use injector::resolve::{
    contains, export_address, find_module, resolve_symbol, ExportLookup, ModuleInfo,
};
use injector::select::select_index;

fn entry(pid: u32, name: &str) -> ProcessEntry {
    ProcessEntry { pid, name: name.to_string() }
}

fn module(name: &str, base: u64) -> ModuleInfo {
    ModuleInfo {
        name: name.to_string(),
        base_address: base,
        size: 0x1000,
        path: format!("/usr/lib/{}", name),
    }
}

fn new_job(path: &str) -> InjectionJob {
    InjectionJob::new(
        4242,
        path.as_bytes().to_vec(),
        "libc.so".to_string(),
        "dlopen".to_string(),
    )
    .unwrap()
}

/// Drives a job up to the point where its payload is written.
fn written_job(path: &str, address: u64) -> InjectionJob {
    let mut job = new_job(path);
    job.on_event(Event::Opened);
    job.on_event(Event::Allocated(address));
    job.on_event(Event::Written);
    job
}

#[test]
fn filter_selects_only_exact_names() {
    let procs = vec![entry(100, "java"), entry(200, "notjava")];
    let found = find_procs(&procs, "java", ".exe");
    assert_eq!(found.len(), 1);
    assert_eq!(found[0].pid, 100);
    assert_eq!(found[0].name, "java");
}

#[test]
fn filter_accepts_suffixed_name_and_keeps_order() {
    let procs = vec![
        entry(7, "java.exe"),
        entry(8, "Java"),
        entry(9, "javaw"),
        entry(10, "java"),
        entry(11, "java.exe.bak"),
    ];
    let found = find_procs(&procs, "java", ".exe");
    let pids: Vec<u32> = found.iter().map(|p| p.pid).collect();
    assert_eq!(pids, vec![7, 10]);
}

#[test]
fn filter_of_empty_list_is_empty() {
    assert!(find_procs(&Vec::new(), "java", ".exe").is_empty());
}

#[test]
fn target_name_is_case_sensitive() {
    assert!(is_target_name("java", "java", ".exe"));
    assert!(is_target_name("java.exe", "java", ".exe"));
    assert!(!is_target_name("JAVA", "java", ".exe"));
    assert!(!is_target_name("java.EXE", "java", ".exe"));
    assert!(!is_target_name("jav", "java", ".exe"));
    assert!(is_target_name("java", "java", ""));
}

#[test]
fn selection_maps_one_based_to_zero_based() {
    for n in 1..=5usize {
        assert_eq!(select_index(&n.to_string(), 5), Ok(n - 1));
    }
    assert_eq!(select_index(" 2\n", 3), Ok(1));
    assert_eq!(select_index("007", 9), Ok(6));
}

#[test]
fn selection_out_of_range_or_not_numeric() {
    assert_eq!(select_index("0", 3), Err(InjectError::NoSelection));
    assert_eq!(select_index("4", 3), Err(InjectError::NoSelection));
    assert_eq!(select_index("1", 0), Err(InjectError::NoSelection));
    assert_eq!(select_index("", 3), Err(InjectError::NoSelection));
    assert_eq!(select_index("  \n", 3), Err(InjectError::NoSelection));
    assert_eq!(select_index("two", 3), Err(InjectError::NoSelection));
    assert_eq!(select_index("-1", 3), Err(InjectError::NoSelection));
    assert_eq!(select_index("1 2", 30), Err(InjectError::NoSelection));
    assert_eq!(
        select_index("99999999999999999999999999", usize::MAX),
        Err(InjectError::NoSelection)
    );
}

#[test]
fn title_lookup_uses_snapshot() {
    let procs = vec![entry(1, "init"), entry(100, "java"), entry(100, "dup")];
    assert_eq!(get_process_title(&procs, 100), Some("java".to_string()));
    assert_eq!(get_process_title(&procs, 5), None);
}

#[test]
fn substring_match_is_case_sensitive() {
    assert!(contains("libc.so.6", "libc.so"));
    assert!(contains("libc.so", "libc.so"));
    assert!(contains("anything", ""));
    assert!(!contains("LIBC.SO.6", "libc.so"));
    assert!(!contains("libc", "libc.so"));
}

#[test]
fn first_matching_module_wins() {
    let mods = vec![module("ld-linux.so.2", 0x1000), module("libc.so.6", 0x7f00_0000), module("libc.so.x", 0x9000)];
    assert_eq!(find_module(&mods, "libc.so"), Some(1));
    assert_eq!(find_module(&mods, "libm.so"), None);
}

#[test]
fn export_address_adds_base() {
    assert_eq!(export_address(0x7f00_0000, ExportLookup::Found(0x1234)), Ok(0x7f00_1234));
    assert_eq!(export_address(0, ExportLookup::Missing), Err(InjectError::SymbolNotFound));
    assert_eq!(export_address(0, ExportLookup::Unreadable), Err(InjectError::ImageParseError));
    assert_eq!(
        export_address(u64::MAX, ExportLookup::Found(1)),
        Err(InjectError::ImageParseError)
    );
}

#[test]
fn resolution_follows_base_delta() {
    let a = vec![module("ld.so", 0x1000), module("libc.so.6", 0x7f00_0000)];
    let b = vec![module("ld.so", 0x5000), module("libc.so.6", 0x7e00_0000)];
    let ra = resolve_symbol(&a, "libc.so", ExportLookup::Found(0x9a0)).unwrap();
    let rb = resolve_symbol(&b, "libc.so", ExportLookup::Found(0x9a0)).unwrap();
    assert_eq!(ra, 0x7f00_09a0);
    assert_eq!(ra - rb, 0x7f00_0000 - 0x7e00_0000);
}

#[test]
fn resolution_without_loader_module() {
    let mods = vec![module("ld.so", 0x1000)];
    assert_eq!(
        resolve_symbol(&mods, "libc.so", ExportLookup::Found(1)),
        Err(InjectError::ModuleNotFound)
    );
}

#[test]
fn path_with_zero_byte_is_refused() {
    let job = InjectionJob::new(1, vec![b'a', 0, b'b'], "libc.so".to_string(), "dlopen".to_string());
    assert!(job.is_none());
}

#[test]
fn allocation_of_thirteen_bytes_written_and_freed_once() {
    // twelve characters and the terminating zero
    let mut job = new_job("/tmp/lib1.so");
    assert_eq!(job.payload.len(), 13);
    assert_eq!(job.payload.last(), Some(&0u8));
    assert_eq!(job.next_action(), Action::Open { pid: 4242 });
    job.on_event(Event::Opened);
    assert_eq!(
        job.next_action(),
        Action::Allocate { size: 13, protection: Protection::ReadWriteExecute }
    );
    job.on_event(Event::Allocated(0x5000));
    assert_eq!(
        job.allocation,
        Some(RemoteAllocation { address: 0x5000, size: 13, protection: Protection::ReadWriteExecute })
    );
    assert_eq!(job.next_action(), Action::Write { address: 0x5000 });
    job.on_event(Event::Written);
    assert_eq!(job.state, JobState::PayloadWritten);
    assert_eq!(job.next_action(), Action::ListModules);
    job.on_event(Event::Modules(vec![module("ld.so", 0x1000), module("libc.so.6", 0x7f00_0000)]));
    assert_eq!(job.next_action(), Action::LookupExport);
    assert_eq!(job.loader.as_ref().map(|m| m.base_address), Some(0x7f00_0000));
    job.on_event(Event::Export(ExportLookup::Found(0x9a0)));
    assert_eq!(job.state, JobState::SymbolResolved);
    assert_eq!(job.next_action(), Action::CallRemote { entry: 0x7f00_09a0, argument: 0x5000 });
    job.on_event(Event::Returned(0xdead_0000));
    assert_eq!(job.state, JobState::Succeeded);
    assert_eq!(job.next_action(), Action::Free { address: 0x5000, size: 13 });
    job.on_event(Event::Freed);
    assert_eq!(job.next_action(), Action::Close);
    job.on_event(Event::Freed);
    assert_eq!(job.next_action(), Action::Close);
    job.on_event(Event::Closed);
    assert_eq!(job.next_action(), Action::Done);
    assert!(job.is_done());
}

#[test]
fn missing_loader_module_fails_and_frees() {
    let mut job = written_job("/tmp/lib1.so", 0x6000);
    job.on_event(Event::Modules(vec![module("ld.so", 0x1000), module("libm.so.6", 0x2000)]));
    assert_eq!(job.state, JobState::Failed(InjectError::ModuleNotFound));
    assert_eq!(job.next_action(), Action::Free { address: 0x6000, size: 13 });
    job.on_event(Event::Freed);
    job.on_event(Event::Closed);
    assert!(job.is_done());
    assert_eq!(job.allocation, None);
}

#[test]
fn process_gone_before_write_fails_and_frees() {
    let mut job = new_job("/tmp/lib1.so");
    job.on_event(Event::Opened);
    job.on_event(Event::Allocated(0x7000));
    job.on_event(Event::StepFailed);
    assert_eq!(job.state, JobState::Failed(InjectError::WriteFailed));
    assert_eq!(job.next_action(), Action::Free { address: 0x7000, size: 13 });

    let mut exited = new_job("/tmp/lib1.so");
    exited.on_event(Event::Opened);
    exited.on_event(Event::Allocated(0x7000));
    exited.on_event(Event::ProcessExited);
    assert_eq!(exited.state, JobState::Failed(InjectError::ProcessExited));
    assert_eq!(exited.next_action(), Action::Free { address: 0x7000, size: 13 });
}

#[test]
fn open_and_allocation_failures_hold_nothing_to_free() {
    let mut job = new_job("/x.so");
    job.on_event(Event::StepFailed);
    assert_eq!(job.state, JobState::Failed(InjectError::OpenProcessError));
    assert_eq!(job.next_action(), Action::Done);

    let mut job = new_job("/x.so");
    job.on_event(Event::Opened);
    job.on_event(Event::StepFailed);
    assert_eq!(job.state, JobState::Failed(InjectError::AllocationFailed));
    assert_eq!(job.next_action(), Action::Close);
}

#[test]
fn export_failures_and_remote_results() {
    let mods = || vec![module("libc.so.6", 0x1000)];
    let mut job = written_job("/x.so", 0x100);
    job.on_event(Event::Modules(mods()));
    job.on_event(Event::Export(ExportLookup::Missing));
    assert_eq!(job.state, JobState::Failed(InjectError::SymbolNotFound));

    let mut job = written_job("/x.so", 0x100);
    job.on_event(Event::Modules(mods()));
    job.on_event(Event::StepFailed);
    assert_eq!(job.state, JobState::Failed(InjectError::ImageParseError));

    let mut job = written_job("/x.so", 0x100);
    job.on_event(Event::StepFailed);
    assert_eq!(job.state, JobState::Failed(InjectError::AccessDenied));

    let mut job = written_job("/x.so", 0x100);
    job.on_event(Event::Modules(mods()));
    job.on_event(Event::Export(ExportLookup::Found(0x10)));
    job.on_event(Event::Returned(0));
    assert_eq!(job.state, JobState::Failed(InjectError::RemoteLoadFailed));
    assert_eq!(job.next_action(), Action::Free { address: 0x100, size: 6 });
}

#[test]
fn timed_out_call_leaves_allocation_in_place() {
    let mut job = written_job("/x.so", 0x100);
    job.on_event(Event::Modules(vec![module("libc.so.6", 0x1000)]));
    job.on_event(Event::Export(ExportLookup::Found(0x10)));
    job.on_event(Event::TimedOut);
    assert_eq!(job.state, JobState::Failed(InjectError::Timeout));
    assert_eq!(job.allocation, None);
    assert_eq!(job.next_action(), Action::Close);
}
