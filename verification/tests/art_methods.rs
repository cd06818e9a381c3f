//! Method structs, hook contexts and Java hooks.
use goauld::art::{
    art_method_size, calibrate_art_method_size, call_original, clear_hook_context,
    current_hook_context, fxhash, has_js_implementation, hook_art_method, hook_java_method,
    push_hook_backup, set_art_method_size, set_hook_context, set_js_implementation,
    take_js_implementation, unhook_art_method, ArtError, ArtState, HookContext,
};
use goauld::bytes::{get_u32, get_u64};
use goauld::java_hook::{
    check_method, check_stolen_entry, ensure_calibrated, install_hook_env, original_args,
    patch_method, Bridge, Dispatch, JavaHooks, KnownLevel, MainTokens, SlotHook, MAX_SLOTS,
};
use goauld::offdevice::{
    android_sdk_int, android_sdk_int_or_0, android_version, dump_app_storage_json,
    enumerate_class_fields, enumerate_class_loaders, enumerate_class_methods,
    enumerate_loaded_classes, is_main_thread, js_call_original, next_main_token,
    read_static_field_json, schedule_on_main, show_android_toast,
};

fn slot_hook(art: usize) -> SlotHook {
    SlotHook {
        key: "com.example.Target.hookMe".to_string(),
        art,
        sig: "(I)I".to_string(),
        is_static: false,
        backup: Some(0x9000),
    }
}

#[test]
fn technique_a_struct_copy_roundtrip() {
    let size = 64usize;
    let mut target = vec![0xAAu8; size];
    let bridge = vec![0xBBu8; size];
    let mut state = ArtState::new();
    set_art_method_size(&mut state, size).unwrap();
    assert_eq!(art_method_size(&state).unwrap(), size);

    hook_art_method(&mut state, 0x1000, 0x2000, &mut target, &bridge).unwrap();
    assert_eq!(target, bridge);

    let (observed, target) = call_original(&state, 0x1000, target, |m| (m[0], m));
    assert_eq!(observed.unwrap(), 0xAA);
    assert_eq!(target[0], 0xBB);

    let mut target = target;
    unhook_art_method(&mut state, 0x1000, &mut target).unwrap();
    assert_eq!(target[0], 0xAA);
}

#[test]
fn call_original_restores_after_nested_read() {
    let size = 32usize;
    let mut target = vec![0x11u8; size];
    target[0] = 0xAA;
    let bridge = vec![0x22u8; size];
    let mut state = ArtState::new();
    set_art_method_size(&mut state, size).unwrap();
    hook_art_method(&mut state, 0x1000, 0x2000, &mut target, &bridge).unwrap();
    let (seen, target) = call_original(&state, 0x1000, target, |m| {
        let (inner, m) = call_original(&state, 0x1000, m, |m| (m[0], m));
        assert_eq!(inner.unwrap(), 0xAA);
        (m[0], m)
    });
    assert_eq!(seen.unwrap(), 0xAA);
    assert_eq!(target[0], 0x22, "hook bytes restored after call_original");
    let mut target = target;
    unhook_art_method(&mut state, 0x1000, &mut target).unwrap();
}

#[test]
fn js_call_original_outside_hook_is_none() {
    assert!(js_call_original("com.example.Target.hookMe", 1).is_none());
}

#[test]
fn hook_context_roundtrip() {
    let mut ctx = HookContext::new();
    assert!(current_hook_context(&ctx).is_none());
    set_hook_context(&mut ctx, 0x10, 0x20, 0x30);
    assert_eq!(current_hook_context(&ctx), Some((0x10, 0x20, 0x30)));
    clear_hook_context(&mut ctx);
    assert!(current_hook_context(&ctx).is_none());
}

#[test]
fn hook_context_requires_thiz_and_art() {
    let mut ctx = HookContext::new();
    set_hook_context(&mut ctx, 1, 0, 3);
    assert!(current_hook_context(&ctx).is_none());
    set_hook_context(&mut ctx, 1, 2, 0);
    assert!(current_hook_context(&ctx).is_none());
    clear_hook_context(&mut ctx);
}

#[test]
fn calibrate_rejects_bad_delta() {
    let mut state = ArtState::new();
    assert!(calibrate_art_method_size(&mut state, 100, 100).is_err());
    assert!(calibrate_art_method_size(&mut state, 0, 64).is_err());
    assert!(calibrate_art_method_size(&mut state, 1000, 1000 + 8).is_err());
    assert!(matches!(art_method_size(&state), Err(ArtError::NotCalibrated)));
}

#[test]
fn calibrate_accepts_plausible() {
    let mut state = ArtState::new();
    let sz = calibrate_art_method_size(&mut state, 0x1000, 0x1000 + 72).unwrap();
    assert_eq!(sz, 72);
}

#[test]
fn has_js_implementation_after_hook_java_method() {
    let mut state = ArtState::new();
    let key = "com.example.javatarget.Target.hookMe";
    assert!(!has_js_implementation(&state, fxhash(key)));
    hook_java_method(&mut state, "com.example.javatarget.Target", "hookMe", "(I)I").unwrap();
    assert!(has_js_implementation(&state, fxhash(key)));
}

#[test]
fn implementations_are_found_by_bridge() {
    let mut state = ArtState::new();
    set_js_implementation(&mut state, 7, 70);
    set_js_implementation(&mut state, 8, 80);
    assert_eq!(take_js_implementation(&state, 7), Some(70));
    assert_eq!(take_js_implementation(&state, 9), None);
    assert_eq!(fxhash(""), 0xcbf2_9ce4_8422_2325);
    assert_eq!(fxhash("a"), 0xaf63_dc4c_8601_ec8c);
}

#[test]
fn unknown_methods_and_sizes_are_refused() {
    let mut state = ArtState::new();
    let mut m = vec![0u8; 32];
    assert!(matches!(unhook_art_method(&mut state, 1, &mut m), Err(ArtError::NotFound)));
    let e = hook_art_method(&mut state, 1, 2, &mut m, &vec![0u8; 32]).unwrap_err();
    assert_eq!(e.message(), "not calibrated");
    let e = set_art_method_size(&mut state, 8).unwrap_err();
    assert_eq!(e.message(), "implausible ArtMethod size 8");
    push_hook_backup(&mut state, 1, vec![9u8; 32]);
    unhook_art_method(&mut state, 1, &mut m).unwrap();
    assert_eq!(m, vec![9u8; 32]);
    assert_eq!(ArtError::Jni("x".to_string()).message(), "jni: x");
    assert_eq!(ArtError::NotFound.message(), "hook not found");
}

#[test]
fn native_method_has_flags_bridge_and_entry() {
    let mut m = vec![0u8; 40];
    m[4..8].copy_from_slice(&0xC028_0001u32.to_le_bytes());
    m[39] = 5;
    let before = m.clone();
    let saved = patch_method(&mut m, 0x1111, 0x2222);
    assert_eq!(saved, before);
    assert_eq!(get_u32(&m, 4), 0x101);
    assert_eq!(get_u64(&m, 16), 0x1111);
    assert_eq!(get_u64(&m, 24), 0x2222);
    assert_eq!(m[39], 5);
    assert_eq!(m.len(), 40);
}

#[test]
fn installed_hook_is_undone_by_its_backup() {
    let mut hooks = JavaHooks::new();
    let mut state = ArtState::new();
    let mut m: Vec<u8> = (0u8..32).collect();
    let before = m.clone();
    let bridges = [0x5000u64; 16];
    let e = install_hook_env(&mut hooks, &mut state, &mut m, slot_hook(0x8000), 1, &bridges);
    assert!(matches!(e, Err(ArtError::NotCalibrated)));
    set_art_method_size(&mut state, 32).unwrap();
    let slot =
        install_hook_env(&mut hooks, &mut state, &mut m, slot_hook(0x8000), 0x6000, &bridges);
    assert_eq!(slot.unwrap(), 0);
    assert!(m != before);
    assert_eq!(get_u64(&m, 16), 0x5000);
    assert_eq!(hooks.of_method(0x8000).unwrap().sig, "(I)I");
    assert_eq!(hooks.in_slot(0).unwrap().art, 0x8000);
    assert!(hooks.in_slot(1).is_none());
    assert!(hooks.of_method(0x8001).is_none());
    unhook_art_method(&mut state, 0x8000, &mut m).unwrap();
    assert_eq!(m, before);
}

#[test]
fn hook_plans_are_refused() {
    let mut hooks = JavaHooks::new();
    assert_eq!(
        hooks.plan_hook(0x8000, 0).unwrap_err().message(),
        "art_quick_generic_jni_trampoline not found in libart"
    );
    assert_eq!(
        hooks.plan_hook(0xfff, 1).unwrap_err().message(),
        "ArtMethod pointer looks invalid: 0xfff"
    );
    for i in 0..MAX_SLOTS {
        assert_eq!(hooks.plan_hook(0x8000, 1).unwrap(), i);
        assert_eq!(hooks.install_hook(slot_hook(0x8000 + i)), i);
    }
    assert_eq!(
        hooks.plan_hook(0x8000, 1).unwrap_err().message(),
        "too many concurrent Java hooks"
    );
}

#[test]
fn scripts_do_not_nest() {
    let mut b = Bridge::new();
    assert_eq!(b.dispatch_slot(None, 1), Dispatch::Argument);
    assert_eq!(b.dispatch_slot(Some(0x8000), 1), Dispatch::Script);
    assert!(b.receive(Some(0x20)));
    assert_eq!(b.ctx.current(), Some((1, 0x20, 0x8000)));
    assert_eq!(b.dispatch_slot(Some(0x8000), 1), Dispatch::Original);
    assert_eq!(b.start_original(Some(0x9000)).unwrap(), 0x9000);
    assert_eq!(b.dispatch_slot(Some(0x8000), 1), Dispatch::Argument);
    assert_eq!(b.start_original(Some(1)).unwrap_err().message(), "callOriginal re-entered");
    b.end_original();
    assert_eq!(b.start_original(None).unwrap_err().message(), "no backup ArtMethod");
    assert_eq!(b.leave(None, 5), 1005);
    assert_eq!(b, Bridge::new());
    assert_eq!(b.leave(None, i32::MAX), i32::MAX);
    assert_eq!(b.leave(Some(-3), 5), -3);
    assert_eq!(b.dispatch_slot(Some(0x8000), 1), Dispatch::Script);
    assert!(!b.receive(None));
    assert_eq!(b, Bridge::new());
}

#[test]
fn original_argument_words() {
    assert_eq!(original_args(true, 7, -1), vec![u32::MAX]);
    assert_eq!(original_args(false, 7, 3), vec![7, 3]);
}

#[test]
fn calibration_falls_back_by_level() {
    let mut s = ArtState::new();
    ensure_calibrated(&mut s, 0x1000, Some(0x1028), 34).unwrap();
    assert_eq!(art_method_size(&s).unwrap(), 40);
    ensure_calibrated(&mut s, 0x1000, Some(0x1020), 34).unwrap();
    assert_eq!(art_method_size(&s).unwrap(), 40);
    let mut s = ArtState::new();
    ensure_calibrated(&mut s, 0x1000, Some(0x1011), 25).unwrap();
    assert_eq!(art_method_size(&s).unwrap(), 24);
    let mut s = ArtState::new();
    ensure_calibrated(&mut s, 0x1000, None, 0).unwrap();
    assert_eq!(art_method_size(&s).unwrap(), 32);
}

#[test]
fn implausible_pointers_are_refused() {
    assert_eq!(
        check_stolen_entry(0x10).unwrap_err().message(),
        "stolen trampoline looks invalid: 0x10"
    );
    assert_eq!(check_stolen_entry(0x1000).unwrap(), 0x1000);
    assert_eq!(check_method(0).unwrap_err().message(), "Executable.artMethod == 0");
    assert_eq!(check_method(1).unwrap(), 1);
}

#[test]
fn level_and_tokens_are_kept() {
    let mut k = KnownLevel { level: 0 };
    assert_eq!(k.android_sdk_int(0), 0);
    assert_eq!(k.android_sdk_int(34), 34);
    assert_eq!(k.android_sdk_int(35), 34);
    let mut t = MainTokens::new();
    assert_eq!(t.next_main_token(), 1);
    assert_eq!(t.next_main_token(), 2);
}

#[test]
fn off_the_device_nothing_runs() {
    assert_eq!(android_version().unwrap(), "host");
    assert_eq!(android_sdk_int().unwrap(), 0);
    assert_eq!(android_sdk_int_or_0(), 0);
    assert!(!is_main_thread().unwrap());
    assert!(enumerate_loaded_classes().unwrap().is_empty());
    assert!(enumerate_class_loaders().unwrap().is_empty());
    assert!(enumerate_class_methods("a").unwrap().is_empty());
    assert!(enumerate_class_fields("a").unwrap().is_empty());
    assert_eq!(read_static_field_json("a", "b").unwrap(), "null");
    assert_eq!(dump_app_storage_json().unwrap(), "{}");
    assert_eq!(schedule_on_main(1).unwrap_err().message(), "schedule_on_main: Android only");
    assert_eq!(next_main_token(), 0);
    assert_eq!(
        show_android_toast("x").unwrap_err().message(),
        "android toast only available on Android targets"
    );
}

#[test]
fn hook_context_is_handed_over() {
    let mut b = Bridge::new();
    assert_eq!(b.running(), None);
    b.set_hook_context(1, 2, 3);
    assert_eq!(b.running(), Some((2, 3)));
    assert_eq!(b.ctx.current(), Some((1, 2, 3)));
    assert!(matches!(b.dispatch_slot(Some(3), 1), Dispatch::Original));
    b.set_hook_context(0, 2, 3);
    assert_eq!(b.running(), None);
    assert_eq!(b.ctx.current(), Some((0, 2, 3)));
    b.set_hook_context(1, 0, 3);
    assert_eq!(b.running(), Some((0, 3)));
    assert_eq!(b.ctx.current(), None);
    b.clear_hook_context();
    assert_eq!(b, Bridge::new());
}
