//! Tracing system calls and rendering them.
use goauld::remote::{
    after_stop, check_args, cont_until_pc, find_brk_gadget, find_svc_gadget, is_eperm,
    may_stop_tracer, plant_brk_in_libc, plant_fault, ptrace_context, ptrace_rule, remote_call_stub,
    remote_call_with_lr, remote_close, remote_lseek, remote_memfd_create, remote_mmap_svc,
    remote_mprotect_svc, remote_openat, remote_syscall, remote_write, rule_source, selinux_type,
    should_change_domain, should_open_scope, should_relax, stop_failed, wait_stop_status,
    words_to_poke, Landing, PlantEnd, PlantPhase, Regs, Release, RemoteCall, StopFault, StopPhase,
    Tracee, TraceeError, Waited,
};
use goauld::syscall_format::{
    buffer_dump_len, escape_str, format_bytes_literal, format_mem_preview, format_sockaddr,
    format_syscall_call, next_read, peek_cstr, peek_sockaddr, plain_text, shorter_read,
    unix_address, Readings,
};
use goauld::syscall_trace::{
    as_signed64, as_unsigned64, report_line, trace_syscalls, wait_any, AnyWait,
    SyscallTraceOptions, Tracer, Wake,
};

fn regs() -> Regs {
    Regs { regs: [0; 31], sp: 0x10_0008, pc: 0x40, pstate: 3 }
}

fn stop(sig: i32) -> i32 {
    (sig << 8) | 0x7f
}

fn render(name: &str, args: [u64; 6], ret: Option<i64>, at: u64, bytes: &[u8]) -> String {
    let mut mem = Readings::new();
    loop {
        match next_read(&mem, name, &args, ret) {
            None => break,
            Some((addr, len)) => {
                let mut got = None;
                if addr >= at && addr - at + len as u64 <= bytes.len() as u64 {
                    let from = (addr - at) as usize;
                    got = Some(bytes[from..from + len].to_vec());
                }
                mem.record(addr, len, got);
            }
        }
    }
    format_syscall_call(&mem, name, &args, ret)
}

#[test]
fn paths_and_buffers_are_shown() {
    let s = render("openat", [100, 0x1000, 2, 0, 0, 0], None, 0x1000, b"/etc/hosts\0......................................................................................................................................................................................................................................................................................................................");
    assert!(s.starts_with("openat("), "{}", s);
    assert!(s.contains("\"/etc/hosts\""), "{}", s);
    let s = render("write", [1, 0x1000, 3, 0, 0, 0], Some(3), 0x1000, b"abc");
    assert!(s.contains("\"abc\""), "{}", s);
}

#[test]
fn unreadable_memory_is_an_address() {
    let s = render("openat", [100, 0x1000, 2, 0, 0, 0], None, 0x9000, b"");
    assert!(s.contains("0x1000"), "{}", s);
}

#[test]
fn literals_are_escaped() {
    assert_eq!(escape_str("a\"b\n"), "a\\\"b\\n");
    assert_eq!(format_bytes_literal(b"a\x01", false), "\"\\x61\\x01\"");
    assert_eq!(format_bytes_literal(b"abc\x01", false), "\"abc\\x01\"");
    assert_eq!(format_bytes_literal(b"a", true), "\"a\"\u{2026}");
    assert_eq!(plain_text(String::new()), None);
    assert_eq!(buffer_dump_len("write", 5, None), 5);
    assert_eq!(buffer_dump_len("read", 5, Some(2)), 2);
    let lens: Vec<usize> = [256, 65, 64, 17, 16, 2, 1].iter().map(|n| shorter_read(*n)).collect();
    assert_eq!(lens, vec![128, 32, 16, 16, 15, 1, 0]);
}

#[test]
fn memory_previews() {
    let mut mem = Readings::new();
    mem.record(0x1000, 3, Some(b"abc".to_vec()));
    assert_eq!(format_mem_preview(&mem, 0x1000, 3), "\"abc\"");
    assert_eq!(format_mem_preview(&mem, 0, 3), "0x0");
    assert!(peek_cstr(&mem, 0).is_none());
}

#[test]
fn socket_addresses() {
    assert_eq!(
        format_sockaddr(&vec![2, 0, 0x1F, 0x90, 127, 0, 0, 1]),
        "{AF_INET,127.0.0.1:8080}"
    );
    assert_eq!(unix_address("/tmp/x"), "{AF_UNIX,\"/tmp/x\"}");
    let mem = Readings::new();
    assert_eq!(peek_sockaddr(&mem, 0, 16), "0x0");
}

#[test]
fn trace_is_not_supported_here() {
    let opts = SyscallTraceOptions::default();
    assert!(matches!(trace_syscalls(1, &opts), Err(TraceeError::Unsupported)));
    assert!(matches!(Tracee::seize(1), Err(TraceeError::Unsupported)));
    let t = Tracee { pid: 1, tids: vec![1], saved_regs: None };
    assert!(matches!(RemoteCall { tracee: &t }.call(1, &[]), Err(TraceeError::Unsupported)));
    assert!(t.detach().is_ok());
}

#[test]
fn calls_are_paired_with_returns() {
    let opts = SyscallTraceOptions {
        max_events: 2,
        duration: None,
        filter: Vec::new(),
        enter_only: false,
    };
    let mut t = Tracer::new(&opts, &vec![7]);
    let mut x = [0u64; 31];
    x[8] = 64;
    x[0] = 1;
    assert_eq!(t.on_wait(7, stop(5 | 0x80)), Wake::AtCall);
    assert!(t.on_call(7, &x).is_none());
    x[0] = 3;
    let r = t.on_call(7, &x).unwrap();
    assert_eq!(r.name, "write");
    assert_eq!(r.args[0], 1);
    assert_eq!(r.retval, Some(3));
    assert_eq!(t.events(), 1);
    assert!(!t.finished(false));
    assert!(t.finished(true));
    assert!(t.on_call(7, &x).is_none());
    assert!(t.on_call(7, &x).is_some());
    assert!(t.finished(false));
}

#[test]
fn threads_come_and_go() {
    let mut t = Tracer::new(&SyscallTraceOptions::default(), &vec![7]);
    t.on_new_thread(8);
    t.on_new_thread(8);
    assert_eq!(t.threads(), &vec![7, 8]);
    assert_eq!(t.on_wait(7, 0), Wake::Gone);
    assert_eq!(t.threads(), &vec![8]);
    assert_eq!(t.on_wait(8, stop(10)), Wake::Deliver(10));
}

#[test]
fn filter_admits_names() {
    let opts = SyscallTraceOptions {
        max_events: 0,
        duration: None,
        filter: vec!["read".to_string()],
        enter_only: true,
    };
    let mut t = Tracer::new(&opts, &vec![7]);
    let mut x = [0u64; 31];
    x[8] = 64;
    assert!(t.on_call(7, &x).is_none());
    assert!(t.on_call(7, &x).is_none());
    x[8] = 63;
    assert_eq!(t.on_call(7, &x).unwrap().retval, None);
}

#[test]
fn waits_for_any_thread() {
    assert!(matches!(wait_any(7, 1, 0, String::new(), false), AnyWait::Thread(7, 1)));
    assert!(matches!(wait_any(0, 0, 0, String::new(), true), AnyWait::Over));
    assert!(matches!(wait_any(0, 0, 0, String::new(), false), AnyWait::Again));
    assert_eq!(as_signed64(u64::MAX), -1);
    assert_eq!(as_unsigned64(-1), u64::MAX);
    assert_eq!(report_line(7, "read(0)", Some(-2)), "[7] read(0) = 0xfffffffffffffffe");
}

#[test]
fn remote_calls_set_registers() {
    let r = remote_call_with_lr(&regs(), 0x5000, &[1, 2], 0x77, None);
    assert_eq!(r.regs[0], 1);
    assert_eq!(r.regs[1], 2);
    assert_eq!(r.regs[30], 0x77);
    assert_eq!(r.pc, 0x5000);
    assert_eq!(r.sp, 0x10_0008);
    let own = remote_call_with_lr(&regs(), 0x5000, &[], 0x77, Some(0x9000));
    assert_eq!(own.sp, 0x9000);
    assert_eq!(own.regs[29], 0);
    let (r, end) = remote_call_stub(&regs(), 0x5000, &[9]);
    assert_eq!(r.regs[0], 9);
    assert_eq!(end, 0x5008);
    let r = remote_syscall(&regs(), 0x6000, 57, &[4]);
    assert_eq!(r.regs[8], 57);
    assert_eq!(r.regs[0], 4);
    assert_eq!(r.pc, 0x6000);
    assert_eq!(remote_close(&regs(), 1, 2).regs[8], 57);
    assert_eq!(remote_openat(&regs(), 1, 2).regs[8], 56);
    assert_eq!(remote_mmap_svc(&regs(), 1, 2, 3, 4).regs[8], 222);
    assert_eq!(remote_mprotect_svc(&regs(), 1, 2, 3, 4).regs[8], 226);
    assert_eq!(remote_memfd_create(&regs(), 1, 2).regs[8], 279);
    assert_eq!(remote_write(&regs(), 1, 2, 3, 4).regs[8], 64);
    assert_eq!(remote_lseek(&regs(), 1, 2, 3, 4).regs[8], 62);
    assert!(check_args(&[0; 9]).is_err());
    assert!(check_args(&[0; 8]).is_ok());
}

#[test]
fn landings_and_stops() {
    assert!(matches!(cont_until_pc(0, stop(5), 0x10, 3, 0x10), Landing::Done(3)));
    assert!(matches!(cont_until_pc(0, stop(11), 0x20, 3, 0x10), Landing::Failed(_)));
    assert!(matches!(wait_stop_status(7, 7, stop(19), false), Waited::Stopped(_)));
    assert!(matches!(wait_stop_status(7, 7, 0, false), Waited::Failed(_)));
    assert!(matches!(wait_stop_status(7, 0, 0, false), Waited::Again));
    assert!(matches!(wait_stop_status(7, 0, 0, true), Waited::Failed(_)));
    match wait_stop_status(7, 7, 9, false) {
        Waited::Failed(e) => assert_eq!(e.message(), "waitpid: tid 7 exited: 0x9"),
        _ => panic!("still there"),
    }
}

#[test]
fn stopping_a_thread() {
    let p = StopPhase::Seize.step(true).step(true).step(true);
    assert_eq!(p, StopPhase::Stopped);
    let p = StopPhase::Seize.step(false);
    assert_eq!(p, StopPhase::Attach);
    assert_eq!(p.step(false), StopPhase::Failed(StopFault::Attach));
    assert_eq!(p.step(true).step(false), StopPhase::Failed(StopFault::Wait));
    assert!(matches!(stop_failed(true, 7, "no"), TraceeError::Ptrace(m) if m == "ATTACH tid=7: no"));
}

#[test]
fn gadgets_are_found() {
    let mut code = vec![0u8; 12];
    code[4..8].copy_from_slice(&0xD420_0000u32.to_le_bytes());
    assert_eq!(find_brk_gadget(&code), Some(4));
    assert_eq!(find_svc_gadget(&code), None);
    code[0..4].copy_from_slice(&0xD400_0001u32.to_le_bytes());
    assert_eq!(find_svc_gadget(&code), Some(0));
    assert_eq!(words_to_poke(&[1, 0, 0, 0, 0, 0, 0, 0, 2]), vec![1, 2]);
    let maps = "1000-3000 r-xp 00000000 fe:00 1 /system/lib64/libc.so\n";
    let p = plant_brk_in_libc(maps, 0x1000).unwrap();
    assert!(p.addr >= 0x1000 && p.addr < 0x3000);
    assert!(plant_brk_in_libc("", 0x1000).is_err());
}

#[test]
fn permissions() {
    assert_eq!(selinux_type("u:r:shell:s0"), "shell");
    assert!(ptrace_rule("a", "b").contains("ptrace"));
    assert!(should_open_scope("1"));
    assert!(!should_open_scope("0"));
    assert!(!should_open_scope(""));
    let denied = TraceeError::Ptrace("ATTACH tid=1: Operation not permitted (os error 1)".to_string());
    assert!(is_eperm(&denied));
    assert!(should_relax(false, &denied));
    assert!(!should_relax(true, &denied));
    assert!(!is_eperm(&TraceeError::Msg("no".to_string())));
    assert!(ptrace_context("a", "b", Some(0), "1", "1", 0).contains("a"));
    let _ = should_change_domain("shell");
    let _ = rule_source("a", "b", "c");
}

#[test]
fn leftover_tracers() {
    assert!(may_stop_tracer(9, 5, 1, "/data/goauld-injector inject", "x").is_ok());
    let e = may_stop_tracer(9, 5, 1, "gdb", "gdb").unwrap_err();
    assert!(e.message().contains("already traced by pid 5 (gdb)"), "{}", e.message());
    assert!(may_stop_tracer(9, 1, 1, "goauld-injector", "x").is_err());
    assert!(matches!(after_stop(9, 5, true, Some(0), false), Release::Free));
    assert!(matches!(after_stop(9, 5, true, Some(5), false), Release::Wait));
    assert!(matches!(after_stop(9, 5, true, Some(5), true), Release::Failed(_)));
    assert!(matches!(after_stop(9, 5, false, Some(5), false), Release::Failed(_)));
    assert!(matches!(after_stop(9, 5, true, Some(6), false), Release::Failed(_)));
}

#[test]
fn planted_break_is_taken_out() {
    let save = PlantPhase::Save;
    assert_eq!(save.step(None), PlantPhase::Finished(PlantEnd::Fault));
    let close = save.step(Some(0)).step(Some(0)).step(Some(0));
    assert_eq!(close, PlantPhase::Close);
    assert_eq!(close.step(None), PlantPhase::Finished(PlantEnd::Fault));
    let call = close.step(Some(0));
    assert_eq!(call, PlantPhase::Call);
    for got in [None, Some(7)] {
        let p = call.step(got);
        assert_eq!(p, PlantPhase::Reopen(PlantEnd::Called));
        assert_eq!(p.step(None).step(None), PlantPhase::Reclose(PlantEnd::Called));
        assert_eq!(p.step(None).step(None).step(None), PlantPhase::Finished(PlantEnd::Called));
    }
    let stuck = PlantEnd::NotExecutable(13);
    assert_eq!(close.step(Some(13)), PlantPhase::Reopen(stuck));
    assert_eq!(
        plant_fault(stuck, 0x7000).unwrap().message(),
        "mprotect RX libc @0x7000 failed: 0xd"
    );
    let open = save.step(Some(0));
    assert_eq!(open.step(Some(1)), PlantPhase::Finished(PlantEnd::NotWritable(1)));
    assert_eq!(
        plant_fault(PlantEnd::NotWritable(1), 0x7000).unwrap().message(),
        "mprotect RW libc @0x7000 failed: 0x1"
    );
    assert!(plant_fault(PlantEnd::Called, 0x7000).is_none());
}
