//! The API trace, Java types, class walks and storage dumps.
use goauld::api_trace::{
    admits_invoke, arg_slots, array_json, array_length, choose_shorty, class_matches_filter,
    count_event, default_api_prefixes, descriptor_to_dotted, escape_json_str, flags_say_static,
    format_event, format_invoke_args_json, format_object_arg, helper_symbols, hooked_result,
    invoke_arg_parts, invoke_args, invoke_targets, is_noisy_api_class, java_string, method_text,
    object_value_json, plausible_object, read_libcpp_string, resolve_helpers, shorty_from_pretty,
    start_android_api_trace, stop_android_api_trace, string_layout, validate_shorty,
    AndroidApiTraceConfig, ApiTrace, ArgPart, ArgText, CppString, InvokeLayout, JavaChars,
};
use goauld::art::ArtError;
use goauld::java_types::{
    arrays_are_plain, field_desc, find_app_class, jni_sig_param_classes, loader_text, method_desc,
    method_jni_signature, primitive_class, read_params, replace, type_jni_name, Param,
};
use goauld::java_walk::{
    add_class, class_names, push_loader, read_shared_prefs, ClassWalk, Got, PrefsPhase, WalkPhase,
};
use goauld::json::{array_text, object_text};
use goauld::ordered::TextMap;
use goauld::storage::{
    add_preference, base64_encode, dirs_to_list, folder_text, is_small_file, java_value_to_json,
    pref_name, preference_key, preference_value, snippet_text, storage_json, FileEntry,
};

fn some(s: &str) -> Option<String> {
    Some(s.to_string())
}

fn trace(prefixes: &[&str], max_events: u64) -> ApiTrace {
    let mut t = ApiTrace::new();
    let cfg = AndroidApiTraceConfig {
        prefixes: prefixes.iter().map(|s| s.to_string()).collect(),
        max_events,
        with_signature: true,
    };
    assert_eq!(start_android_api_trace(&mut t, cfg, Ok(3)).unwrap(), 3);
    t
}

#[test]
fn trace_stops_at_its_limit() {
    let mut t = trace(&["android."], 2);
    assert!(t.with_signature());
    assert!(!admits_invoke(&mut t, true, 5));
    assert!(!admits_invoke(&mut t, false, 0));
    assert!(admits_invoke(&mut t, false, 5));
    assert_eq!(count_event(&mut t), 1);
    assert_eq!(count_event(&mut t), 2);
    assert!(!admits_invoke(&mut t, false, 5));
    let mut t = trace(&[], 0);
    stop_android_api_trace(&mut t);
    assert!(!admits_invoke(&mut t, false, 5));
    let mut t = ApiTrace::new();
    let e = start_android_api_trace(
        &mut t,
        AndroidApiTraceConfig::default(),
        Err(ArtError::Msg("x".to_string())),
    );
    assert_eq!(e.unwrap_err().message(), "x");
}

#[test]
fn classes_are_filtered() {
    let t = trace(&["android.", "java."], 0);
    assert!(class_matches_filter(&t, "android.app.Activity"));
    assert!(!class_matches_filter(&t, "com.example.A"));
    assert_eq!(default_api_prefixes().len(), 6);
    assert_eq!(descriptor_to_dotted("Ljava/lang/String;"), "java.lang.String");
    assert!(!is_noisy_api_class("com.example.A"));
}

#[test]
fn shorties() {
    assert_eq!(validate_shorty("VIL"), some("VIL"));
    assert_eq!(validate_shorty("VX"), None);
    assert_eq!(validate_shorty(""), None);
    assert_eq!(
        shorty_from_pretty("void a.B.c(int, long, java.lang.String, byte[])"),
        some("LIJL[")
    );
    assert_eq!(shorty_from_pretty("a.B.c"), None);
    assert_eq!(choose_shorty("a.B.c(int)", some("V"), None), "LI");
    assert_eq!(choose_shorty("a.B.c", some("V"), None), "V");
    assert_eq!(choose_shorty("a.B.c", None, None), "");
}

#[test]
fn entry_points() {
    let r = invoke_targets(Some(1), Some(2), Some(3)).unwrap();
    assert_eq!(r, vec![(1, InvokeLayout::QuickInstance), (2, InvokeLayout::QuickStatic)]);
    assert_eq!(invoke_targets(None, None, Some(3)).unwrap(), vec![(3, InvokeLayout::ArtInvoke)]);
    assert_eq!(
        invoke_targets(None, None, None).unwrap_err().message(),
        "no ArtMethod invoke entrypoints found"
    );
    assert_eq!(hooked_result(&vec![Some(4), None, Some(9)]).unwrap(), 9);
    assert_eq!(
        hooked_result(&vec![None]).unwrap_err().message(),
        "failed to hook any ART invoke entrypoint"
    );
    assert_eq!(invoke_args(InvokeLayout::QuickStatic, 1, 8, 9), (1, 8));
    assert_eq!(invoke_args(InvokeLayout::ArtInvoke, 1, 8, 9), (8, 9));
    assert!(flags_say_static(0x8));
    assert!(!flags_say_static(0x1));
}

#[test]
fn helpers_need_only_the_names() {
    let n = helper_symbols().len();
    let mut found = vec![None; n];
    assert_eq!(
        resolve_helpers(&found).unwrap_err().message(),
        "ArtMethod::PrettyMethod not found"
    );
    found[1] = Some(0x10);
    found[3] = Some(0x30);
    let h = resolve_helpers(&found).unwrap();
    assert_eq!(h.pretty_method, 0x10);
    assert_eq!(h.get_shorty, Some(0x30));
    assert_eq!(h.get_descriptor, None);
}

#[test]
fn arguments_become_json() {
    assert_eq!(arg_slots(12), 3);
    let words = vec![0x5000, 7, 1, 0, 9];
    let parts = invoke_arg_parts("VIJ", &words, false);
    assert_eq!(
        parts,
        vec![ArgPart::This(0x5000), ArgPart::Int(7), ArgPart::Long(1), ArgPart::Extra(4)]
    );
    let texts = vec![ArgText::Text("me".to_string()), ArgText::Nothing, ArgText::Nothing, ArgText::Nothing];
    assert_eq!(
        format_invoke_args_json(true, &parts, &texts, &words),
        "[{\"t\":\"this\",\"v\":\"me\"},{\"t\":\"int\",\"v\":7},{\"t\":\"long\",\"v\":\"1\"},{\"t\":\"extra_slots\",\"v\":[\"0x9\"],\"words_total\":5}]"
    );
    assert_eq!(format_invoke_args_json(false, &Vec::new(), &Vec::new(), &Vec::new()), "[]");
    let parts = invoke_arg_parts("VZBJ", &vec![2, 0xff, 5], true);
    assert_eq!(parts, vec![ArgPart::Boolean(true), ArgPart::Byte(0xff), ArgPart::LongCut, ArgPart::Extra(2)]);
    let parts = invoke_arg_parts("VI", &Vec::new(), true);
    assert_eq!(parts, vec![ArgPart::Missing('I')]);
}

#[test]
fn objects_become_json() {
    assert_eq!(object_value_json(0, &ArgText::Nothing), "null");
    assert_eq!(object_value_json(16, &ArgText::Nothing), "\"0x10\"");
    assert_eq!(object_value_json(16, &ArgText::Text("a\"b".to_string())), "\"a\\\"b\"");
    assert_eq!(format_object_arg(0, false, &ArgText::Nothing), "{\"t\":\"ref\",\"v\":null}");
    assert_eq!(
        format_object_arg(16, false, &ArgText::Text("x".to_string())),
        "{\"t\":\"string\",\"v\":\"x\"}"
    );
    let long = "a".repeat(600);
    let cut = object_value_json(16, &ArgText::Text(long));
    assert_eq!(cut.chars().count(), 512 + 3);
    assert!(plausible_object(0x2000));
    assert!(!plausible_object(0x2001));
    assert!(!plausible_object(8));
    assert_eq!(escape_json_str("a\n\"\\"), "a\\\"\\\\");
    assert!(array_json(&vec![1, 2]).contains("2"));
    assert_eq!(array_length(-1), None);
}

#[test]
fn strings_of_the_runtime() {
    assert_eq!(string_layout(6, 25), Some((6, false)));
    assert_eq!(string_layout(7, 34), Some((3, true)));
    assert_eq!(string_layout(6, 0), Some((3, false)));
    assert_eq!(string_layout(2000, 34), None);
    assert_eq!(java_string(&JavaChars::Narrow(b"ab\xff".to_vec())), "ab\u{fffd}");
    assert_eq!(java_string(&JavaChars::Wide(vec![0x61, 0xD83D, 0xDE00, 0xD800])), "a\u{1F600}\u{fffd}");
    let mut buf = [0u8; 32];
    buf[0] = 4;
    buf[1] = b'h';
    buf[2] = b'i';
    assert!(matches!(read_libcpp_string(&buf), CppString::Inline(b) if b == b"hi".to_vec()));
    buf[0] = 1;
    buf[8..16].copy_from_slice(&5u64.to_le_bytes());
    buf[16..24].copy_from_slice(&0x1000u64.to_le_bytes());
    assert!(matches!(read_libcpp_string(&buf), CppString::Outside { ptr: 0x1000, size: 5 }));
    buf[8..16].copy_from_slice(&5000u64.to_le_bytes());
    assert!(matches!(read_libcpp_string(&buf), CppString::Unreadable));
    assert_eq!(method_text(b"null"), None);
    assert_eq!(method_text(b"m"), some("m"));
}

#[test]
fn events_become_json() {
    assert_eq!(
        format_event(1, "a.B.c()", "V", true, "[]"),
        "{\"type\":\"android-api\",\"n\":1,\"method\":\"a.B.c()\",\"shorty\":\"V\",\"static\":true,\"args\":[]}"
    );
}

#[test]
fn arrays_that_can_be_read() {
    assert!(arrays_are_plain("([[I[La;)V"));
    assert!(!arrays_are_plain("(I[\u{e9})V"));
    assert!(!arrays_are_plain("([[\u{e9})V"));
    assert!(arrays_are_plain("(La[\u{e9};I)[\u{e9}"));
    assert!(arrays_are_plain("(Q[\u{e9})V"));
    assert!(arrays_are_plain("[\u{e9}"));
    let (ps, void) = jni_sig_param_classes("(La[\u{e9};I)[\u{e9}").unwrap();
    assert!(!void);
    assert_eq!(ps.len(), 2);
    assert!(matches!(&ps[0], Param::Object(s) if s == "a[\u{e9}"));
}

#[test]
fn signatures_are_read() {
    let (ps, void) = jni_sig_param_classes("(I[BLjava/lang/String;)V").unwrap();
    assert!(void);
    assert_eq!(ps.len(), 3);
    assert!(matches!(&ps[0], Param::Primitive('I')));
    assert!(matches!(&ps[1], Param::Array(s) if s == "[B"));
    assert!(matches!(&ps[2], Param::Object(s) if s == "java/lang/String"));
    assert_eq!(jni_sig_param_classes("I").unwrap_err().message(), "bad sig I");
    let (ps, end) = read_params("(I[BQJ)V");
    assert_eq!(ps.len(), 2);
    assert!(matches!(&ps[1], Param::Array(s) if s == "[B"));
    assert_eq!(end.unwrap_err().message(), "unsupported sig char Q in (I[BQJ)V");
    assert_eq!(jni_sig_param_classes("(La)V").unwrap_err().message(), "bad object in (La)V");
    assert_eq!(
        jni_sig_param_classes("(Q)V").unwrap_err().message(),
        "unsupported sig char Q in (Q)V"
    );
    assert_eq!(primitive_class("int").unwrap(), "java/lang/Integer");
    assert_eq!(primitive_class("x").unwrap_err().message(), "unknown primitive x");
}

#[test]
fn signatures_are_made() {
    assert_eq!(type_jni_name(true, false, "int"), "I");
    assert_eq!(type_jni_name(false, true, "[Ljava.lang.String;"), "[Ljava/lang/String;");
    assert_eq!(type_jni_name(false, false, "a.B"), "La/B;");
    assert_eq!(method_jni_signature(&vec!["I".to_string(), "La/B;".to_string()], "V"), "(ILa/B;)V");
    assert_eq!(replace("a.b", '.', '/'), "a/b");
    let m = method_desc("f".to_string(), "()V".to_string(), 9);
    assert!(m.is_static && m.flags == 9);
    assert!(!field_desc("f".to_string(), "I".to_string(), 1).is_static);
    assert_eq!(
        find_app_class("java/lang/String"),
        ("java.lang.String".to_string(), "java/lang/String".to_string(), true)
    );
    assert!(!find_app_class("com.example.A").2);
    assert!(!loader_text(&None, 16).is_empty());
}

#[test]
fn walk_ends_without_a_path_list() {
    let mut w = ClassWalk::new();
    let mut steps = 0;
    while !w.is_over() && steps < 100 {
        w.step(Got::No);
        steps += 1;
    }
    assert!(w.is_over());
    assert!(matches!(w.phase, WalkPhase::Finished | WalkPhase::Failed));
    assert_eq!(read_shared_prefs(PrefsPhase::All, Got::No), PrefsPhase::Finished);
    assert_eq!(read_shared_prefs(PrefsPhase::More, Got::No), PrefsPhase::Finished);
    assert_eq!(read_shared_prefs(PrefsPhase::Next, Got::Fault), PrefsPhase::Finished);
    assert_eq!(read_shared_prefs(PrefsPhase::Next, Got::No), PrefsPhase::More);
    assert_eq!(read_shared_prefs(PrefsPhase::Next, Got::Yes), PrefsPhase::Key);
    assert_eq!(read_shared_prefs(PrefsPhase::Key, Got::Fault), PrefsPhase::More);
    assert_eq!(read_shared_prefs(PrefsPhase::Open, Got::Fault), PrefsPhase::Failed);
}

#[test]
fn entries_that_are_no_objects_are_passed_over() {
    let mut w = ClassWalk { phase: WalkPhase::Next, index: 0, count: 2 };
    w.step(Got::No);
    assert_eq!((w.phase, w.index), (WalkPhase::More, 0));
    w.step(Got::Yes);
    w.step(Got::Yes);
    assert_eq!((w.phase, w.index), (WalkPhase::Text, 0));
    w.step(Got::Yes);
    w.step(Got::Yes);
    w.step(Got::Fault);
    assert_eq!((w.phase, w.index), (WalkPhase::Element, 1));
}

#[test]
fn class_names_come_in_order_once() {
    let mut m = TextMap::new();
    add_class(&mut m, "b.B");
    add_class(&mut m, "a.A");
    add_class(&mut m, "b.B");
    assert_eq!(class_names(&m), vec!["a.A".to_string(), "b.B".to_string()]);
    let mut seen = Vec::new();
    assert!(push_loader(&mut seen, 5));
    assert!(!push_loader(&mut seen, 5));
}

#[test]
fn values_become_json() {
    assert_eq!(java_value_to_json(true, "", &None), "null");
    assert_eq!(java_value_to_json(false, "java.lang.String", &some("a\"\n")), "\"a\\\"\\n\"");
    assert_eq!(java_value_to_json(false, "java.lang.Boolean", &some("true")), "true");
    assert_eq!(java_value_to_json(false, "java.lang.Integer", &some("7")), "7");
    assert_eq!(
        java_value_to_json(false, "a.B", &some("x")),
        "{\"class\":\"a.B\",\"toString\":\"x\"}"
    );
    assert_eq!(java_value_to_json(false, "a.B", &None), "{\"class\":\"a.B\"}");
}

#[test]
fn preferences() {
    assert_eq!(pref_name("a.xml"), some("a"));
    assert_eq!(pref_name("a.txt"), None);
    assert_eq!(preference_key("\"k\"".to_string()), "k");
    assert_eq!(preference_key("7".to_string()), "7");
    assert_eq!(preference_value(" 7 ".to_string()), "7");
    assert_eq!(preference_value("NaN".to_string()), "\"NaN\"");
    let mut m = TextMap::new();
    add_preference(&mut m, "\"k\"".to_string(), "[1, 2]".to_string());
    assert_eq!(object_text(&m), "{\"k\":[1,2]}");
    assert_eq!(array_text(&vec!["1".to_string(), "{}".to_string()]), "[1,{}]");
}

#[test]
fn base64_of_bytes() {
    assert_eq!(base64_encode(b""), "");
    assert_eq!(base64_encode(b"f"), "Zg==");
    assert_eq!(base64_encode(b"fo"), "Zm8=");
    assert_eq!(base64_encode(b"foo"), "Zm9v");
    assert_eq!(base64_encode(&[0xff, 0xfe]), "//4=");
}

#[test]
fn storage_is_one_object() {
    let files = vec![FileEntry { name: "a\"b".to_string(), is_dir: false, size: 3 }];
    let folder = folder_text("/d", &files);
    let mut snippets = TextMap::new();
    snippets.insert("s", snippet_text(vec![0xff]));
    snippets.insert("t", snippet_text(b"hi".to_vec()));
    let s = storage_json("p", "/d", &TextMap::new(), &vec![folder], &snippets);
    let v: serde_json::Value = serde_json::from_str(&s).unwrap();
    assert_eq!(v["package"].as_str(), Some("p"));
    assert_eq!(v["dataDir"].as_str(), Some("/d"));
    assert_eq!(v["dataDirListing"][0]["entries"][0]["name"].as_str(), Some("a\"b"));
    assert_eq!(v["dataDirListing"][0]["entries"][0]["size"].as_u64(), Some(3));
    assert_eq!(v["filesSnippets"]["t"].as_str(), Some("hi"));
    assert_eq!(v["filesSnippets"]["s"]["data"].as_str(), Some("/w=="));
    assert_eq!(v.to_string(), s);
    assert_eq!(dirs_to_list("/d").len(), 5);
    assert!(is_small_file(true, 4096));
    assert!(!is_small_file(true, 4097));
    assert!(!is_small_file(false, 1));
}
