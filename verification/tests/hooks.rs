//! Thunks, the hook registry, and inline hooks.
use goauld::bytes::get_u32;
use goauld::got::{find_got_slot, page_of, probe_got_slot, GotError};
use goauld::icache::{cache_line_size, clear_cache, clear_icache};
use goauld::patch::{attach, detach, detach_all, flush, page_span, replace_ptr, HookError};
use goauld::trampoline::{
    alloc_hook_id, build_enter_thunk, build_leave_thunk, build_simd_thunk, finish_enter,
    finish_leave, goauld_dispatch_enter, goauld_dispatch_leave, list_hook_ids, register_hook,
    unregister_hook, with_hook_mut, CpuContext, HookCallbacks, HookRegistry,
};

fn nops(n: usize) -> Vec<u8> {
    [0x1Fu8, 0x20, 0x03, 0xD5].repeat(n)
}

fn callbacks(on_enter: Option<u64>, on_leave: Option<u64>) -> HookCallbacks {
    HookCallbacks { on_enter, on_leave, save_simd: false, replace_mode: false }
}

#[test]
fn enter_thunk_has_branch_or_ret() {
    let t = build_enter_thunk(1, 0x1000, 0x2000, false);
    assert!(t.len() > 40);
    let r = build_enter_thunk(1, 0x1000, 0x2000, true);
    assert_eq!(&r[r.len() - 4..], &0xD65F_03C0u32.to_le_bytes());
}

#[test]
fn simd_registers_are_saved_round_the_dispatch() {
    let plain = build_enter_thunk(1, 0x1000, 0x2000, false);
    let saving = build_simd_thunk(1, 0x1000, 0x2000, false);
    assert_eq!(saving.len(), plain.len() + 128);
    // STP Q0, Q1, [SP, #-32]! first and LDP Q0, Q1, [SP], #32 last.
    assert_eq!(get_u32(&saving, 0), 0xADBF_07E0);
    assert_eq!(get_u32(&saving, 60), 0xADBF_7FFE);
    assert_eq!(saving[64..244], plain[..180]);
    assert_eq!(get_u32(&saving, 244), 0xACC1_7FFE);
    assert_eq!(get_u32(&saving, 304), 0xACC1_07E0);
    assert_eq!(saving[308..], plain[180..]);
    let r = build_simd_thunk(1, 0x1000, 0x2000, true);
    assert_eq!(&r[r.len() - 4..], &0xD65F_03C0u32.to_le_bytes());

    let mut reg = HookRegistry::new();
    let mut cbs = callbacks(Some(5), Some(6));
    let plan = attach(&mut reg, 0x1000, &nops(8), cbs, Ok(0x7000), 0x10, 0x20).unwrap();
    assert_eq!(plan.scratch[0].bytes, build_enter_thunk(1, 0x10, 0x7200, false));
    assert_eq!((plan.scratch[1].addr, plan.scratch[2].addr), (0x7200, 0x7100));
    assert_eq!(plan.entry.leave_thunk, 0x7100);
    cbs.save_simd = true;
    let plan = attach(&mut reg, 0x1000, &nops(8), cbs, Ok(0x7000), 0x10, 0x20).unwrap();
    assert_eq!(plan.scratch[0].bytes, build_simd_thunk(2, 0x10, 0x7300, false));
    assert_eq!((plan.scratch[1].addr, plan.scratch[2].addr), (0x7300, 0x7200));
    assert_eq!(plan.entry.leave_thunk, 0x7200);
}

#[test]
fn leave_thunk_ends_with_ret() {
    let t = build_leave_thunk(7, 0x3000);
    assert_eq!(&t[t.len() - 4..], &0xD65F_03C0u32.to_le_bytes());
}

#[test]
fn attached_code_is_restored_on_detach() {
    let mut reg = HookRegistry::new();
    let code = nops(8);
    let plan =
        attach(&mut reg, 0x1000, &code, callbacks(Some(5), None), Ok(0x7000), 0x10, 0x20).unwrap();
    assert_eq!(plan.hook.target, 0x1000);
    assert_eq!(plan.hook.patch_len, 16);
    assert_eq!(plan.patch.addr, 0x1000);
    assert_eq!(plan.patch.bytes.len(), 16);
    let id = plan.hook.id;
    register_hook(&mut reg, plan.entry);
    assert_eq!(list_hook_ids(&reg), vec![id]);
    assert_eq!(flush(&mut reg), vec![(0x1000, 16)]);
    let w = detach(&mut reg, id).unwrap().unwrap();
    assert_eq!(w.addr, 0x1000);
    assert_eq!(w.bytes, code[..16].to_vec());
    assert!(matches!(detach(&mut reg, id), Err(HookError::NotFound(n)) if n == id));
}

#[test]
fn attach_needs_a_page_and_enough_code() {
    let mut reg = HookRegistry::new();
    let e = attach(&mut reg, 0x1000, &nops(8), callbacks(None, None), Err(HookError::Mmap), 1, 2).err().unwrap();
    assert!(matches!(e, HookError::Mmap));
    assert_eq!(e.message(), "mmap failed");
    let e = attach(&mut reg, 0x1000, &nops(1), callbacks(None, None), Ok(0x7000), 1, 2).err();
    assert!(matches!(e, Some(HookError::Reloc(_))));
}

#[test]
fn replaced_function_branches_to_replacement() {
    let mut reg = HookRegistry::new();
    let plan = replace_ptr(&mut reg, 0x4000, &nops(8), 0x1122_3344_5566).unwrap();
    assert_eq!(get_u32(&plan.patch.bytes, 0), 0x5800_0051);
    assert_eq!(&plan.patch.bytes[8..16], &0x1122_3344_5566u64.to_le_bytes());
}

#[test]
fn all_hooks_are_detached() {
    let mut reg = HookRegistry::new();
    for i in 0..3u64 {
        let plan = attach(
            &mut reg,
            0x1000 * (i + 1),
            &nops(8),
            callbacks(None, None),
            Ok(0x7000),
            0x10,
            0x20,
        )
        .unwrap();
        register_hook(&mut reg, plan.entry);
    }
    assert_eq!(list_hook_ids(&reg).len(), 3);
    let mut ids: Vec<u32> = detach_all(&mut reg).iter().map(|d| d.0).collect();
    assert_eq!(ids.len(), 3);
    ids.sort();
    ids.dedup();
    assert_eq!(ids.len(), 3);
    assert!(list_hook_ids(&reg).is_empty());
}

#[test]
fn dispatch_saves_and_gives_back_the_return_address() {
    let mut reg = HookRegistry::new();
    let plan = attach(
        &mut reg,
        0x1000,
        &nops(8),
        callbacks(Some(77), Some(88)),
        Ok(0x7000),
        0x10,
        0x20,
    )
    .unwrap();
    let id = plan.hook.id;
    let thunk = plan.entry.leave_thunk;
    register_hook(&mut reg, plan.entry);
    let mut ctx = CpuContext { x: [0; 31], sp: 0, pc: 0, pstate: 0 };
    ctx.x[30] = 0xAAAA;
    let cb = goauld_dispatch_enter(&mut reg, &mut ctx, id, 9);
    assert_eq!(cb, Some(77));
    assert_eq!(ctx.x[30], thunk);
    finish_enter(&mut reg, id, cb);
    let (cb, _) = goauld_dispatch_leave(&mut reg, &ctx, id).unwrap();
    assert_eq!(cb, Some(88));
    finish_leave(&mut reg, &mut ctx, id, 9, cb);
    assert_eq!(ctx.x[30], 0xAAAA);
}

#[test]
fn registry_gives_new_numbers() {
    let mut reg = HookRegistry::new();
    let a = alloc_hook_id(&mut reg);
    let b = alloc_hook_id(&mut reg);
    assert!(a != b);
    assert!(unregister_hook(&mut reg, a).is_none());
    assert_eq!(with_hook_mut(&mut reg, a, |e| (1, e)), None);
}

#[test]
fn spans_of_pages() {
    assert_eq!(page_span(0x1FF8, 16, 0x1000), (0x1000, 0x2000));
    assert_eq!(page_of(0x1FF8, 0x1000), 0x1000);
}

#[test]
fn bad_images_have_no_slot() {
    assert!(matches!(find_got_slot(0, &[1, 2, 3], "open"), Err(GotError::Elf(_))));
    assert!(matches!(probe_got_slot(0, &[0u8; 64], "open"), Some(Err(GotError::Elf(_)))));
    assert_eq!(GotError::NotFound("open".to_string()).message(), "symbol not found: open");
}

#[test]
fn cache_maintenance_follows_the_register() {
    let ctr = (4 << 16) | 3;
    let w = clear_cache(0x1010, 0x1050, ctr).unwrap();
    assert_eq!(w.data, Some(vec![0x1000, 0x1040]));
    assert_eq!(w.code, Some(vec![0x1000, 0x1020, 0x1040]));
    let w = clear_cache(0x1010, 0x1050, ctr | (1 << 28)).unwrap();
    assert_eq!(w.data, None);
    assert!(w.code.is_some());
    let w = clear_cache(0x1010, 0x1050, ctr | (1 << 29)).unwrap();
    assert!(w.data.is_some());
    assert_eq!(w.code, None);
    assert!(clear_cache(0, 0x1050, ctr).is_none());
    assert!(clear_cache(0x1050, 0x1050, ctr).is_none());
}

#[test]
fn cache_lines_cover_the_range() {
    assert_eq!(cache_line_size(None), 64);
    assert_eq!(cache_line_size(Some(4)), 64);
    let lines = clear_icache(0x1010, 0x50, 0x40);
    assert_eq!(lines, vec![0x1000, 0x1040]);
}
