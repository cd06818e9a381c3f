//! Loading a library into a process.
use goauld::elf::{
    find_dynsym, find_dynsym_offset, find_elf_symbol, probe_libart_symbol, read_cstr, scan_libart_symbol, Lookup,
};
use goauld::inject::{
    cstr, failure_text, find_libc, find_libdl, find_linker, find_so_load_bias, inject_library,
    plausible_so_handle, resolve_elf_symbol, selinux_context, Answer, InjectError, InjectOptions,
    Injection, Op, Outcome, Reason,
};
use goauld::loaders::{
    create_args, dlerror_text, encode_info, label_donors, load_args, memory_failure, path_in_root,
    search_path, LoadInfo, MemoryLoad, MemoryOp, MemoryOutcome, MemoryReason, SpaceLoad, SpaceOp,
    USE_FD,
};
use goauld::remote::TraceeError;
use goauld::spawn::{
    adb_args, component_package, pidof, start_args, start_failed, wait_for_package, Awaited,
};

/// An ELF image with one program header, a dynamic section, and the symbol `open` at 0x1234.
fn image() -> Vec<u8> {
    let mut b = vec![0u8; 0x400];
    b[0..4].copy_from_slice(b"\x7fELF");
    b[4] = 2;
    b[32..40].copy_from_slice(&64u64.to_le_bytes());
    b[54..56].copy_from_slice(&56u16.to_le_bytes());
    b[56..58].copy_from_slice(&2u16.to_le_bytes());
    // LOAD: everything at its own offset.
    b[64..68].copy_from_slice(&1u32.to_le_bytes());
    b[64 + 32..64 + 40].copy_from_slice(&0x400u64.to_le_bytes());
    b[64 + 40..64 + 48].copy_from_slice(&0x400u64.to_le_bytes());
    // DYNAMIC at 0x100.
    let d = 64 + 56;
    b[d..d + 4].copy_from_slice(&2u32.to_le_bytes());
    b[d + 8..d + 16].copy_from_slice(&0x100u64.to_le_bytes());
    b[d + 16..d + 24].copy_from_slice(&0x100u64.to_le_bytes());
    b[d + 32..d + 40].copy_from_slice(&0x50u64.to_le_bytes());
    b[d + 40..d + 48].copy_from_slice(&0x50u64.to_le_bytes());
    let entries: [(u64, u64); 5] = [(6, 0x200), (5, 0x300), (11, 24), (10, 0x20), (0, 0)];
    for (i, (tag, value)) in entries.iter().enumerate() {
        let at = 0x100 + i * 16;
        b[at..at + 8].copy_from_slice(&tag.to_le_bytes());
        b[at + 8..at + 16].copy_from_slice(&value.to_le_bytes());
    }
    // Symbol 1: name 1, global function in section 5, value 0x1234.
    let s = 0x200 + 24;
    b[s..s + 4].copy_from_slice(&1u32.to_le_bytes());
    b[s + 4] = 0x12;
    b[s + 6..s + 8].copy_from_slice(&5u16.to_le_bytes());
    b[s + 8..s + 16].copy_from_slice(&0x1234u64.to_le_bytes());
    b[0x301..0x305].copy_from_slice(b"open");
    b
}

#[test]
fn symbols_are_found() {
    let b = image();
    assert_eq!(find_dynsym_offset(&b, "open"), Lookup::At(0x1234));
    assert_eq!(find_elf_symbol(&b, "open", true), Lookup::At(0x1234));
    assert_eq!(find_dynsym(&b, "open"), Lookup::At(0x1234));
    assert_eq!(scan_libart_symbol(0x7000_0000, &b, "open"), Some(0x7000_1234));
    assert_eq!(probe_libart_symbol(0x7000_0000, &b, "open"), Some(Some(0x7000_1234)));
    assert_eq!(probe_libart_symbol(0x7000_0000, &b, "no_such_symbol"), Some(None));
    assert_eq!(probe_libart_symbol(0x7000_0000, &b[..70], "open"), None);
    assert_eq!(resolve_elf_symbol(0x7000_0000, &b, "open"), Lookup::At(0x7000_1234));
    assert_eq!(find_elf_symbol(&[1, 2, 3], "open", false), Lookup::Absent);
    assert_eq!(read_cstr(&b, 0x301), "open");
    assert_eq!(read_cstr(&[0xff, 0], 0), "\u{fffd}");
}

#[test]
fn injection_off_the_device() {
    let opts = InjectOptions { library_path: "/tmp/a.so".to_string(), use_namespace: false };
    let e = inject_library(1, false, &opts).unwrap_err();
    assert!(matches!(e, InjectError::Msg(_)));
    let e = inject_library(1, true, &opts).unwrap_err();
    assert!(matches!(e, InjectError::Tracee(TraceeError::Unsupported)));
}

#[test]
fn libraries_in_maps() {
    let maps = "1000-2000 r--p 00000000 fe:00 1 /apex/com.android.runtime/lib64/bionic/libc.so\n\
                3000-4000 r-xp 00001000 fe:00 2 /apex/com.android.runtime/lib64/bionic/libdl.so\n\
                5000-6000 r--p 00000000 fe:00 3 /apex/com.android.runtime/bin/linker64\n";
    assert_eq!(find_libc(maps).unwrap().0, 0x1000);
    assert_eq!(find_libdl(maps).unwrap().0, 0x2000);
    assert_eq!(find_linker(maps).unwrap().0, 0x5000);
    assert!(matches!(find_so_load_bias(maps, &["libz.so"]), Err(InjectError::Msg(_))));
    assert!(find_linker("").is_none());
}

fn run(answers: &[(Op, Answer)], all: Answer) -> (Outcome, Vec<Op>) {
    let mut s = Injection::new();
    let mut ops = Vec::new();
    loop {
        let op = s.op();
        if let Op::Finish(o) = op {
            return (o, ops);
        }
        ops.push(op);
        let mut a = all;
        for (k, v) in answers {
            if *k == op {
                a = *v;
            }
        }
        s.step(a);
    }
}

#[test]
fn injection_that_never_starts() {
    let (o, ops) = run(&[], Answer::Missing);
    assert!(matches!(o, Outcome::Failed(_)));
    assert_eq!(ops[0], Op::CheckFile);
}

#[test]
fn injection_lets_the_process_go() {
    for all in [Answer::Value(0x7000_0000), Answer::Value(0), Answer::Missing, Answer::Fault] {
        let (_, ops) = run(&[(Op::CheckFile, Answer::Value(1)), (Op::Seize, Answer::Value(1))], all);
        assert!(ops.contains(&Op::Seize));
        assert_eq!(*ops.last().unwrap(), Op::Detach);
        assert_eq!(ops.iter().filter(|o| **o == Op::Detach).count(), 1);
    }
}

#[test]
fn memory_file_is_closed_again() {
    let mut s = MemoryLoad::new(0x1000, 0x2000);
    let mut opened = false;
    let mut closed = false;
    let outcome;
    loop {
        let op = s.op();
        let a = match op {
            MemoryOp::ReadLibrary => Answer::Value(10),
            MemoryOp::CreateFile { .. } => {
                opened = true;
                Answer::Value(33)
            }
            MemoryOp::WriteFile { len, .. } => Answer::Value(if len > 4 { 4 } else { len }),
            MemoryOp::NewMemory { .. } => Answer::Value(0x7000_0000),
            MemoryOp::Protect { .. } => Answer::Value(0),
            MemoryOp::Close { fd } => {
                assert_eq!(fd, 33);
                closed = true;
                Answer::Value(0)
            }
            MemoryOp::Call { .. } => Answer::Value(0x7123_4560_0010),
            MemoryOp::Finish(o) => {
                outcome = o;
                break;
            }
            _ => Answer::Value(0x5000),
        };
        s.step(a);
    }
    assert!(opened && closed);
    assert_eq!(outcome, MemoryOutcome::Loaded(0x7123_4560_0010));
}

#[test]
fn namespace_is_made_before_the_load() {
    let mut s = SpaceLoad::new(0x1000, 0x2000);
    let mut made = false;
    loop {
        let a = match s.op() {
            SpaceOp::Create { .. } => {
                made = true;
                Answer::Value(0x9000_0000)
            }
            SpaceOp::Load { .. } => {
                assert!(made);
                Answer::Value(0x7123_4560_0010)
            }
            SpaceOp::Finish(o) => {
                assert_eq!(o, Some(0x7123_4560_0010));
                break;
            }
            _ => Answer::Value(0x5000),
        };
        s.step(a);
    }
}

#[test]
fn load_info_bytes() {
    let b = encode_info(LoadInfo { flags: USE_FD, fd: 7, namespace: 9 });
    assert_eq!(b.len(), 48);
    assert_eq!(&b[0..8], &USE_FD.to_le_bytes());
    assert_eq!(create_args(1, 2, None).len() + 1, create_args(1, 2, Some(3)).len());
    assert_eq!(load_args(1, 2, Some(3)).last(), Some(&3));
    assert_eq!(cstr("ab"), vec![b'a', b'b', 0]);
}

#[test]
fn loader_texts() {
    assert_eq!(path_in_root(7, "/data/a"), "/proc/7/root/data/a");
    assert!(search_path(&Some("/data/app".to_string())).starts_with("/data/app"));
    assert_eq!(dlerror_text(true, &Ok(0x100), &Some(b"bad\xff\0x".to_vec())), "bad\u{fffd}");
    assert!(!failure_text(Reason::Absent, "/a.so", "", "", "").is_empty());
    assert!(memory_failure(MemoryReason::NoFile(3), "").contains("3"));
    assert!(label_donors("/data/app", &vec!["x.so".to_string()], "/data/app/a.so").len() > 0);
    assert!(plausible_so_handle(0x7123_4560_0010));
    assert!(!plausible_so_handle(0));
}

#[test]
fn labels_in_a_listing() {
    assert_eq!(
        selinux_context("u:object_r:app_data_file:s0:c1 /data/x\n"),
        Some("u:object_r:app_data_file:s0:c1".to_string())
    );
    assert_eq!(selinux_context("?"), None);
}

#[test]
fn starting_a_package() {
    assert_eq!(component_package("com.example/.Main"), "com.example");
    assert_eq!(pidof("123 456\n").unwrap(), 123);
    assert!(pidof("").is_err());
    assert_eq!(
        adb_args(&Some("S".to_string()), &vec!["shell".to_string()]),
        vec!["-s".to_string(), "S".to_string(), "shell".to_string()]
    );
    assert_eq!(start_args("a/.B").last().unwrap(), "a/.B");
    assert!(matches!(wait_for_package("a", Some(Ok(5))), Awaited::Found(5)));
    let none = || Err(InjectError::Msg("x".to_string()));
    assert!(matches!(wait_for_package("a", Some(none())), Awaited::Again));
    assert!(matches!(wait_for_package("a", None), Awaited::Failed(_)));
    assert!(start_failed("boom").message().contains("boom"));
}
