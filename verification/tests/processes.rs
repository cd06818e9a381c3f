//! What `/proc` says of processes, and their memory maps.
use goauld::discover::{
    clip_cmd, cmdline_text, enumerate_processes, find_by_package, guess_package, process_info,
    process_number, resolve_abi, DiscoverError, ProcEntry, ProcessInfo,
};
use goauld::maps::{code_ranges, find_libart, find_so, in_code, libc_code, SoPlace};
use goauld::numbers::{read_hex_or_zero, read_i32, read_number, NumberFault};
use goauld::ordered::{side, Side, TextMap};
use goauld::procfs::{
    can_trace, cap_eff, list_tids, parent_pid, proc_cmdline, proc_uid, read_proc_attr,
    spaced_cmdline, tracer_pid, trim_attr, Ancestors,
};
use goauld::split::{lines, split, words};
use goauld::syscall_names::syscall_name;
use goauld::text::{chars_of, contains, ends_with, join, starts_with, string_of, to_lower, trim};

const MAPS: &str = "\
7000000000-7000001000 r--p 00000000 fe:00 10 /apex/com.android.runtime/lib64/bionic/libc.so
7000001000-7000003000 r-xp 00001000 fe:00 10 /apex/com.android.runtime/lib64/bionic/libc.so
7000010000-7000011000 r-xp 00000000 fe:00 11 /apex/com.android.runtime/lib64/bionic/libdl.so
7000020000-7000021000 r--p 00000000 fe:00 12 /apex/com.android.art/lib64/libart.so
";

fn process(pid: u32, cmdline: &str) -> ProcessInfo {
    ProcessInfo { pid, cmdline: cmdline.to_string(), package: guess_package(cmdline), abi: None }
}

#[test]
fn guess_package_from_cmdline() {
    assert_eq!(
        guess_package("com.example.native_target"),
        Some("com.example.native_target".into())
    );
    assert_eq!(guess_package("/system/bin/surfaceflinger"), None);
}

#[test]
fn app_process_name_is_not_a_shell_command() {
    let pkg = "com.google.android.calculator";
    let app = format!("{pkg}");
    let sub = format!("{pkg}:privileged");
    let shell =
        format!("timeout 120 su 0 sh -c '/data/local/tmp/goauld-injector inject --package {pkg}'");
    assert!(app.split_whitespace().next() == Some(pkg));
    assert!(sub.split_whitespace().next().unwrap().starts_with(&format!("{pkg}:")));
    assert_ne!(shell.split_whitespace().next(), Some(pkg));
    assert!(shell.contains(pkg));

    let procs = vec![
        (0, process(5, &shell)),
        (10001, process(40, &sub)),
        (10001, process(60, &app)),
    ];
    assert_eq!(find_by_package(pkg, procs, &Vec::new()).unwrap().pid, 60);
    let only_shell = vec![(0, process(5, &shell))];
    let e = find_by_package(pkg, only_shell, &Vec::new()).unwrap_err();
    assert!(matches!(e, DiscoverError::NotFound(_)));
}

#[test]
fn names_common() {
    assert_eq!(syscall_name(22), "epoll_pwait");
    assert_eq!(syscall_name(25), "fcntl");
    assert_eq!(syscall_name(29), "ioctl");
    assert_eq!(syscall_name(63), "read");
    assert_eq!(syscall_name(64), "write");
    assert_eq!(syscall_name(56), "openat");
    assert_eq!(syscall_name(135), "rt_sigprocmask");
    assert_eq!(syscall_name(203), "connect");
    assert_eq!(syscall_name(278), "getrandom");
    assert_eq!(syscall_name(9999), "sys_9999");
}

#[test]
fn processes_of_entries() {
    let entry = |name: &str, cmdline: Option<&[u8]>, maps: Option<&str>| ProcEntry {
        name: name.to_string(),
        cmdline: cmdline.map(|c| c.to_vec()),
        maps: maps.map(|m| m.to_string()),
        exe: None,
    };
    let procs = enumerate_processes(&vec![
        entry("7", Some(b"com.example.a\0--x\0"), Some("/system/bin/app_process64")),
        entry("8", Some(b""), None),
        entry("9", None, None),
        entry("self", Some(b"sh\0"), None),
        entry("+5", Some(b"sh\0"), None),
        entry("10", Some(b"/bin/sh\0"), None),
    ]);
    assert_eq!(procs.len(), 2);
    assert_eq!(procs[0].pid, 7);
    assert_eq!(procs[0].cmdline, "com.example.a --x");
    assert_eq!(procs[0].package.as_deref(), Some("com.example.a"));
    assert_eq!(procs[0].abi.as_deref(), Some("arm64-v8a"));
    assert_eq!(procs[1].pid, 10);
    assert_eq!(procs[1].package, None);
    assert_eq!(procs[1].abi, None);
}

#[test]
fn command_lines() {
    assert_eq!(cmdline_text(b"com.example\0--flag\0\0"), "com.example --flag");
    assert_eq!(cmdline_text(&[0x61, 0xff]), "a\u{fffd}");
    assert_eq!(process_number("42"), Some(42));
    assert_eq!(process_number("self"), None);
    assert!(process_info(1, String::new(), None).is_none());
    let p = process_info(1, "com.example.a".to_string(), Some("arm64-v8a".to_string())).unwrap();
    assert_eq!(p.package, Some("com.example.a".to_string()));
    assert_eq!(clip_cmd("sh"), "sh");
}

#[test]
fn machine_of_a_process() {
    assert_eq!(resolve_abi("/system/lib64/libc.so", &None), "arm64-v8a");
}

#[test]
fn status_fields() {
    let status = "Name:\tx\nPPid:\t77\nTracerPid:\t5\nUid:\t10001\t10001\t10001\t10001\nCapEff:\t0000000000080000\n";
    assert_eq!(tracer_pid(status), Some(5));
    assert_eq!(parent_pid(status), 77);
    assert_eq!(proc_uid(status), 10001);
    assert_eq!(cap_eff(status), 0x80000);
    assert!(can_trace(cap_eff(status)));
    assert!(!can_trace(0));
    assert_eq!(tracer_pid("Name:\tx\n"), None);
}

#[test]
fn ancestors_end_at_the_first_process() {
    let mut a = Ancestors::new(9);
    assert!(a.holds(9));
    assert_eq!(a.next("PPid:\t4\n"), Some(4));
    assert!(a.holds(4));
    assert_eq!(a.next("PPid:\t1\n"), None);
    assert!(!a.holds(3));
}

#[test]
fn proc_attributes() {
    assert_eq!(trim_attr("u:r:su:s0\0\n"), "u:r:su:s0");
    assert_eq!(read_proc_attr(b"0\n"), "0");
    assert_eq!(spaced_cmdline("a\0b\0"), "a b");
    assert_eq!(proc_cmdline(b"a\0b\0"), "a b");
    let names = vec!["12".to_string(), "x".to_string(), "9".to_string()];
    assert_eq!(list_tids(9, &names), vec![12, 9]);
    assert_eq!(list_tids(9, &Vec::new()), vec![9]);
}

#[test]
fn places_in_maps() {
    assert!(in_code(MAPS, 0x7000001004));
    assert!(!in_code(MAPS, 0x7000000004));
    assert_eq!(libc_code(MAPS), Some((0x7000001000, 0x7000003000)));
    assert_eq!(
        code_ranges(MAPS),
        vec![(0x7000001000, 0x2000), (0x7000010000, 0x1000)]
    );
    let (bias, path) = find_libart(MAPS).unwrap();
    assert_eq!(bias, 0x7000020000);
    assert_eq!(path, "/apex/com.android.art/lib64/libart.so");
    assert!(find_libart("").is_none());
    match find_so(MAPS, &["libdl.so"]) {
        SoPlace::At(b, p) => {
            assert_eq!(b, 0x7000010000);
            assert!(p.ends_with("libdl.so"));
        }
        _ => panic!("not found"),
    }
    assert!(matches!(find_so(MAPS, &["libnone.so"]), SoPlace::Absent));
}

#[test]
fn numbers_are_read() {
    assert_eq!(read_number(&chars_of("ff"), 16, u64::MAX), Ok(255));
    assert_eq!(read_number(&chars_of(""), 10, 9), Err(NumberFault::Empty));
    assert_eq!(read_number(&chars_of("1x"), 10, 99), Err(NumberFault::Digit));
    assert_eq!(read_number(&chars_of("256"), 10, 255), Err(NumberFault::Large));
    assert_eq!(NumberFault::Empty.message(), "cannot parse integer from empty string");
    assert_eq!(NumberFault::Digit.message(), "invalid digit found in string");
    assert_eq!(NumberFault::Large.message(), "number too large to fit in target type");
    assert_eq!(read_hex_or_zero(&chars_of("10")), 16);
    assert_eq!(read_hex_or_zero(&chars_of("zz")), 0);
    assert_eq!(read_i32(&chars_of("-12")), Some(-12));
    assert_eq!(read_i32(&chars_of("2147483648")), None);
}

#[test]
fn texts_are_cut() {
    assert_eq!(string_of(&trim(&chars_of(" \ta b\n"))), "a b");
    assert_eq!(words(&chars_of(" a  b ")), vec![vec!['a'], vec!['b']]);
    assert_eq!(lines(&chars_of("a\r\nb\n")), vec![vec!['a'], vec!['b']]);
    assert_eq!(split(&chars_of("a,,b"), ','), vec![vec!['a'], vec![], vec!['b']]);
    assert!(starts_with(&chars_of("abc"), "ab"));
    assert!(ends_with(&chars_of("abc"), "bc"));
    assert!(contains(&chars_of("abc"), "b"));
    assert!(!contains(&chars_of("abc"), "d"));
    assert_eq!(string_of(&to_lower(&chars_of("AbC"))), "abc");
    assert_eq!(join(&vec!["a".to_string(), "b".to_string()], ", "), "a, b");
}

#[test]
fn text_map_keeps_order_and_last_value() {
    let mut m = TextMap::new();
    m.insert("b", "1".to_string());
    m.insert("a", "2".to_string());
    m.insert("b", "3".to_string());
    assert_eq!(m.len(), 2);
    assert_eq!(m.entry(0).0, "a");
    assert_eq!(m.entry(1), ("b".to_string(), &"3".to_string()));
    assert_eq!(side(&['a'], &['a', 'b']), Side::First);
    assert_eq!(side(&['b'], &['a', 'b']), Side::Second);
    assert_eq!(side(&['b'], &['b']), Side::Same);
}

#[test]
fn system_call_names_are_distinct() {
    let mut names: Vec<String> = (0..600).map(syscall_name).collect();
    assert!(names.iter().all(|n| !n.is_empty()));
    names.sort();
    names.dedup();
    assert_eq!(names.len(), 600);
    for nr in [5, 18, 244, 9999, u64::MAX] {
        assert_eq!(syscall_name(nr), format!("sys_{nr}"));
    }
}
