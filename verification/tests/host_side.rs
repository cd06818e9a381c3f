//! The host, the injector and the agent.
use goauld::agent::{
    abstract_path, call_reply, hello, hello_version, js_engine_name, load_failed,
    on_message, socket_name, Engine, Task,
};
use goauld::discover::ProcessInfo;
use goauld::host::{
    build_java_trace_script, default_java_hooks_json, forward_listed, hello_line, inject_command,
    is_comm_mode, launch_target, local_spec, no_hello_text, not_started, resolve_pid_on_device,
    root_script, send_line, stress_script, tcp_spec, trace_command, DialKind, DialStep, Dialer,
    Heard, HostError, Listener, Reached, RestartPhase, MAX_ATTEMPTS, MAX_POLLS,
};
use goauld::injector::{
    check_pid, check_root, choose_dir, effective_uid, filter_names, no_target, owner_text,
    package_dirs, ps_line, stage_failed, stage_next, staged_paths, target_package, trace_duration,
    PidCheck, StageNext, StageWay,
};
use goauld::proto::{version_info, Hello, Message, RpcCall, ScriptLoad, ScriptUnload};
use goauld::stress::{
    comm_event, comm_kind, messages_line, pong_json, process_line, rpc_request, sample_apk_ticks,
    stress_event, stress_kind, tick_steps, CommCount, CommKind, RpcRun, StressCount, StressKind,
};

fn some(s: &str) -> Option<String> {
    Some(s.to_string())
}

#[test]
fn forwards_are_recognised() {
    assert_eq!(tcp_spec(27042), "tcp:27042");
    assert_eq!(local_spec("a"), "localabstract:a");
    let list = "SER tcp:1 localabstract:x\nSER tcp:27042 localabstract:goauld-agent-7\n";
    assert!(forward_listed(list, 27042, "goauld-agent-7"));
    assert!(!forward_listed(list, 27042, "goauld-agent-8"));
    assert!(!forward_listed("", 1, "x"));
}

#[test]
fn device_commands() {
    assert_eq!(root_script("ls"), "su -c 'ls'");
    assert_eq!(
        inject_command(Some(7), &some("a.b"), true).unwrap(),
        "/data/local/tmp/goauld/goauld-injector inject --so /data/local/tmp/goauld/libgoauld_agent.so --pid 7 --package a.b --stage-into-app"
    );
    assert_eq!(
        trace_command(None, &some("a.b"), 5, 10, "read", true).unwrap(),
        "/data/local/tmp/goauld/goauld-injector trace-syscalls --duration-secs 5 --max-events 10 --package a.b --filter read --enter-only"
    );
    let e = inject_command(None, &None, false).unwrap_err();
    assert!(matches!(e, HostError::NoTarget));
    assert_eq!(e.message(), "pass --pid or --package");
    assert!(trace_command(None, &None, 0, 0, "", false).is_err());
}

#[test]
fn pids_on_the_device() {
    assert_eq!(resolve_pid_on_device(Some(-1), &None, "").unwrap(), u32::MAX);
    assert_eq!(resolve_pid_on_device(None, &some("a"), " 12\n").unwrap(), 12);
    let e = resolve_pid_on_device(None, &some("a"), "\n").unwrap_err();
    assert_eq!(e.message(), "package not running: a");
    assert!(matches!(resolve_pid_on_device(None, &some("a"), "x"), Err(HostError::BadPid(_))));
    assert!(matches!(resolve_pid_on_device(None, &None, "1"), Err(HostError::NoTarget)));
}

#[test]
fn java_scripts() {
    assert_eq!(default_java_hooks_json("none"), "[]");
    assert_eq!(
        default_java_hooks_json("a.B.c:(I)V, d.E.f,x"),
        "[{\"class\":\"a.B\",\"method\":\"c\",\"sig\":\"(I)V\"},{\"class\":\"d.E\",\"method\":\"f\",\"sig\":\"(I)I\"}]"
    );
    assert_eq!(
        build_java_trace_script("go();", "it's", 5, "-"),
        "globalThis.__GOAULD_API_FILTER = 'it\\'s';\nglobalThis.__GOAULD_API_MAX_EVENTS = 5;\nglobalThis.__GOAULD_JAVA_HOOKS = [];\ngo();"
    );
    assert!(build_java_trace_script("", " ", 0, "").contains("android.,androidx."));
    assert!(stress_script(3, 4, "run();").ends_with("run();"));
}

#[test]
fn launching() {
    assert_eq!(launch_target("a.b", " a.b/.Main "), ("a.b/.Main".to_string(), false));
    let (target, may_fall_back) = launch_target("a.b", " ");
    assert_eq!(target, "a.b/.Target");
    assert!(may_fall_back);
}

#[test]
fn attempts() {
    let mut d = Dialer::new(DialKind::Attach);
    assert_eq!(d.timeout_ms(), 250);
    for _ in 0..3 {
        assert_eq!(d.step(Reached::Failed("refused".to_string())), DialStep::Wait(15));
    }
    assert_eq!(d.timeout_ms(), 750);
    assert_eq!(d.step(Reached::Hello), DialStep::Found);
    assert_eq!(d.step(Reached::Other("Log".to_string())), DialStep::Refused);
    assert_eq!(d.why.as_deref(), Some("expected Hello, got Log"));
    for _ in 4..MAX_ATTEMPTS {
        assert_eq!(d.step(Reached::Failed("late".to_string())), DialStep::Wait(50));
    }
    assert_eq!(d.step(Reached::Failed("late".to_string())), DialStep::GivenUp);
    assert_eq!(d.failure(9, &None).message(), no_hello_text(9, &None, &some("late")));
    let mut d = Dialer::new(DialKind::Flood);
    assert_eq!(d.timeout_ms(), 750);
    assert_eq!(d.failure(9, &None).message(), "stress: no agent Hello (connect failed)");
    assert_eq!(d.step(Reached::Other("Log".to_string())), DialStep::Wait(100));
    assert_eq!(
        d.failure(9, &None).message(),
        "stress: no agent Hello (expected Hello, got Log)"
    );
    let d = Dialer { kind: DialKind::Comm, attempt: MAX_ATTEMPTS, why: some("x") };
    assert_eq!(d.failure(9, &None).message(), "no agent Hello: x");
    assert!(no_hello_text(9, &None, &None).starts_with(
        "agent did not send Hello on 127.0.0.1:9 (no connection). abstract socket @goauld-agent-<pid>"
    ));
}

#[test]
fn restarting() {
    let start = RestartPhase::Stop.step(false, false);
    assert_eq!(start, RestartPhase::Start);
    assert_eq!(start.pause_ms(), 400);
    assert_eq!(start.step(false, false), RestartPhase::Failed);
    let launcher = start.step(true, false);
    assert_eq!(launcher, RestartPhase::Launcher);
    assert_eq!(launcher.step(true, false), RestartPhase::Failed);
    let mut p = launcher.step(true, true);
    assert_eq!(p, RestartPhase::Poll(1));
    assert_eq!(p.pause_ms(), 250);
    assert_eq!(p.step(true, true), RestartPhase::Started);
    assert_eq!(RestartPhase::Started.pause_ms(), 500);
    for _ in 1..MAX_POLLS {
        p = p.step(true, false);
    }
    assert_eq!(p, RestartPhase::Poll(20));
    assert_eq!(p.step(true, false), RestartPhase::NotStarted);
    assert_eq!(not_started("a.b").message(), "package did not start: a.b");
}

#[test]
fn calls_in_turn() {
    let mut run = RpcRun::new(2);
    let (id, name, args) = run.request(10).unwrap();
    assert_eq!((id, name.as_str(), args.as_str()), (1, "add", "[0,1]"));
    run.sent(20);
    assert!(run.waits(5_000_020).is_ok());
    assert_eq!(
        run.waits(5_000_021).unwrap_err().message(),
        "rpc reply timeout call_id=1"
    );
    assert!(!run.on_reply(true, 25));
    assert!(run.on_reply(false, 30));
    let (id, name, args) = run.request(40).unwrap();
    assert_eq!((id, name.as_str(), args.as_str()), (2, "echo", "[\"echo-1\"]"));
    assert!(run.on_reply(false, 45));
    assert!(run.request(50).is_none());
    assert_eq!((run.answered, run.times), (2, vec![20, 5]));
}

#[test]
fn printed_lines() {
    let h = Hello {
        pid: 1,
        package: "p".to_string(),
        sdk_int: 34,
        abi: "arm64-v8a".to_string(),
        version: "v".to_string(),
    };
    assert_eq!(hello_line(&h), "agent hello: pid=1 pkg=p sdk=34 abi=arm64-v8a version=v");
    assert_eq!(send_line(1, "x", None), "send[1]: x");
    assert_eq!(send_line(1, "x", Some(3)), "send[1]: x (+3 bytes)");
}

#[test]
fn listening_for_a_send() {
    let mut l = Listener { expect: some("ok"), keep_on: false };
    assert_eq!(l.on_send("no"), Heard::Other);
    assert!(l.on_deadline().is_err());
    assert_eq!(l.on_send("is ok"), Heard::Last);
    let mut l = Listener { expect: some("ok"), keep_on: true };
    assert_eq!(l.on_send("ok"), Heard::Matched);
    assert_eq!(l.on_send("ok"), Heard::Other);
    assert!(l.on_deadline().is_ok());
    assert_eq!(
        Listener { expect: some("ok"), keep_on: true }.on_deadline().unwrap_err().message(),
        "timed out waiting for expected send"
    );
}

#[test]
fn stress_messages_are_counted() {
    assert_eq!(stress_kind(&None), StressKind::Other);
    let (k, _) = stress_event("{\"type\":\"stress-start\"}");
    assert_eq!(k, StressKind::Start);
    let (k, n) = stress_event("{\"type\":\"stress\",\"n\":4}");
    assert_eq!((k, n), (StressKind::Message, Some(4)));
    let (k, n) = stress_event("not json");
    assert_eq!((k, n), (StressKind::Other, None));
    let mut s = StressCount::new();
    s.take(StressKind::Start, None, 1);
    s.take(StressKind::Message, Some(0), 10);
    s.take(StressKind::Message, Some(1), 10);
    assert_eq!(s.received, 2);
    assert_eq!(s.gaps, 0);
    s.take(StressKind::Message, Some(5), 10);
    assert_eq!(s.gaps, 1);
    s.take(StressKind::Done, None, 1);
    assert!(s.done);
    assert!(s.verdict(3, true).is_err());
    assert!(messages_line(&s, 3).contains("3"));
    assert!(process_line(7, true).contains("7"));
    assert!(!s.timed_out().message().is_empty());
}

#[test]
fn a_clean_stress_run_passes() {
    let mut s = StressCount::new();
    s.take(StressKind::Start, None, 1);
    for i in 0..3 {
        s.take(StressKind::Message, Some(i), 10);
    }
    s.take(StressKind::Done, None, 1);
    assert!(s.verdict(3, true).is_ok());
    assert!(s.verdict(3, false).is_err());
    assert!(s.verdict(4, true).is_err());
}

#[test]
fn comm_rounds_are_counted() {
    assert!(is_comm_mode("frida") || is_comm_mode("comm") || is_comm_mode("frida-comm"));
    assert_eq!(comm_kind(&None), CommKind::Other);
    let (k, n) = comm_event("{\"type\":\"ping\",\"n\":7}");
    assert_eq!((k, n), (CommKind::Ping, 7));
    let pong: serde_json::Value = serde_json::from_str(&pong_json(7)).unwrap();
    assert_eq!(pong["n"].as_u64(), Some(7));
    let mut c = CommCount::new();
    c.on_ping(100, 5);
    c.on_ping(300, 5);
    c.on_done(600);
    assert_eq!(c.rounds, 2);
    assert!(c.done);
    assert_eq!(c.times, vec![200, 300]);
    assert!(c.verdict(2, 0, 0, true).is_ok());
    assert!(c.verdict(3, 0, 0, true).is_err());
    assert!(!CommCount::new().timed_out().message().is_empty());
    let (name, args) = rpc_request(1);
    assert!(!name.is_empty() && args.starts_with('['));
}

#[test]
fn ticks_in_a_log() {
    let log = "x apk-tick n=1 t=100\ny apk-tick n=2 t=350 z\napk-tick n=3\napk-tick n=4 t=bad\n";
    assert_eq!(sample_apk_ticks(log), vec![100, 350]);
    assert_eq!(tick_steps(&vec![100, 350, 300, 400]), vec![250, 100]);
    assert_eq!(tick_steps(&vec![100]), Vec::<u64>::new());
}

#[test]
fn agent_identity() {
    assert_eq!(socket_name(7), "goauld-agent-7");
    assert_eq!(js_engine_name(Engine::Quickjs), "quickjs");
    assert_eq!(js_engine_name(Engine::Symbiote), "symbiote");
    assert_eq!(js_engine_name(Engine::Neither), "none");
    assert_eq!(hello_version(Engine::Quickjs), format!("{} js=quickjs", version_info()));
    let h = hello(7, some("p"), 34, &None, Engine::Quickjs);
    assert_eq!(h.pid, 7);
    assert_eq!(h.package, "p");
    assert_eq!(abstract_path("ab"), vec![0, b'a', b'b']);
}

#[test]
fn agent_tasks() {
    let load = Message::ScriptLoad(ScriptLoad { script_id: 1, source: "s".to_string() });
    assert!(matches!(on_message(load), Task::Load { script_id: 1, .. }));
    let unload = Message::ScriptUnload(ScriptUnload { script_id: 2 });
    assert!(matches!(on_message(unload), Task::Unload { script_id: 2 }));
    let call = Message::RpcCall(RpcCall {
        script_id: 1,
        call_id: 9,
        fn_name: "f".to_string(),
        args_json: "[]".to_string(),
    });
    assert!(matches!(on_message(call), Task::Call { call_id: 9, .. }));
    assert!(load_failed("boom").message.contains("boom"));
    assert_eq!(call_reply(9, some("1"), None).result_json, some("1"));
}

#[test]
fn injector_targets() {
    assert!(matches!(check_pid(7, "a.b --x", &some("a.b")), PidCheck::Use));
    assert!(matches!(check_pid(7, "a.b:svc", &some("a.b")), PidCheck::Use));
    assert!(matches!(check_pid(7, "sh -c a.b", &some("a.b")), PidCheck::Refuse(_)));
    assert!(matches!(check_pid(7, "", &some("a.b")), PidCheck::LookUp));
    match check_pid(7, "", &None) {
        PidCheck::Refuse(e) => assert_eq!(e.message(), "pid 7 is not running"),
        _ => panic!("used"),
    }
    let procs = vec![ProcessInfo { pid: 7, cmdline: "a.b".to_string(), package: some("a.b"), abi: None }];
    assert_eq!(target_package(None, &procs, 7), some("a.b"));
    assert_eq!(target_package(None, &procs, 8), None);
    assert_eq!(target_package(some("c"), &procs, 7), some("c"));
    assert_eq!(no_target().message(), "pass --pid or --package");
    assert_eq!(filter_names(" read,,write "), vec!["read".to_string(), "write".to_string()]);
    assert_eq!(trace_duration(0), None);
    assert_eq!(trace_duration(5), Some(5));
    assert!(ps_line(&procs[0]).contains("a.b"));
}

#[test]
fn staging() {
    assert_eq!(effective_uid("Uid:\t1\t2\t3\t4\n"), 2);
    assert_eq!(effective_uid("Uid:\t1\n"), 1);
    assert_eq!(effective_uid(""), 0);
    let dirs = package_dirs(1_010_001, "a.b");
    assert_eq!(
        dirs,
        vec![
            "/data/user/10/a.b".to_string(),
            "/data/user_de/10/a.b".to_string(),
            "/data/data/a.b".to_string(),
        ]
    );
    assert_eq!(choose_dir(&dirs, &vec![false, true, true]), "/data/user_de/10/a.b");
    assert_eq!(choose_dir(&dirs, &vec![false, false, false]), "/data/data/a.b");
    assert_eq!(
        staged_paths("/d", "x.so"),
        ("/d/files".to_string(), "/d/files/x.so".to_string())
    );
    assert!(check_root(0).is_ok());
    assert!(check_root(2000).unwrap_err().message().starts_with("not root (euid=2000)"));
    assert_eq!(stage_next(StageWay::Copy, true), StageNext::Staged);
    assert_eq!(stage_next(StageWay::Copy, false), StageNext::Try(StageWay::Enter));
    assert_eq!(stage_next(StageWay::Enter, false), StageNext::Try(StageWay::RunAs));
    assert_eq!(stage_next(StageWay::RunAs, false), StageNext::GiveUp);
    assert!(stage_failed(7, "/a.so", "/b.so").message().contains("/b.so"));
    assert_eq!(owner_text(""), None);
}
