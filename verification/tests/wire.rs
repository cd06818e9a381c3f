//! Frames of the wire protocol, with JSON made and read by `serde_json`.
use byteorder::{ByteOrder, LittleEndian};
use goauld::proto::{
    version_info, Body, Hello, LogMsg, Message, MsgType, ProtoError, RpcCall, RpcReply, ScriptLoad,
    ScriptUnload, SendPayload, PKG_VERSION,
};
use serde_json::Value;

fn text(m: &mut serde_json::Map<String, Value>, key: &str, value: &str) {
    m.insert(key.to_string(), Value::from(value));
}

fn number(m: &mut serde_json::Map<String, Value>, key: &str, value: u32) {
    m.insert(key.to_string(), Value::from(value));
}

fn to_json(msg: &Message) -> Vec<u8> {
    let mut m = serde_json::Map::new();
    match msg {
        Message::Hello(h) => {
            number(&mut m, "pid", h.pid);
            text(&mut m, "package", &h.package);
            number(&mut m, "sdk_int", h.sdk_int);
            text(&mut m, "abi", &h.abi);
            text(&mut m, "version", &h.version);
        }
        Message::ScriptLoad(s) => {
            number(&mut m, "script_id", s.script_id);
            text(&mut m, "source", &s.source);
        }
        Message::ScriptUnload(s) => number(&mut m, "script_id", s.script_id),
        Message::RpcCall(c) => {
            number(&mut m, "script_id", c.script_id);
            number(&mut m, "call_id", c.call_id);
            text(&mut m, "fn_name", &c.fn_name);
            text(&mut m, "args_json", &c.args_json);
        }
        Message::RpcReply(r) => {
            number(&mut m, "call_id", r.call_id);
            if let Some(x) = &r.result_json {
                text(&mut m, "result_json", x);
            }
            if let Some(x) = &r.error {
                text(&mut m, "error", x);
            }
        }
        Message::Log(l) => {
            text(&mut m, "level", &l.level);
            text(&mut m, "message", &l.message);
        }
        Message::Send { .. } | Message::Post { .. } => {
            let p = msg.send_payload().unwrap();
            number(&mut m, "script_id", p.script_id);
            text(&mut m, "payload_json", &p.payload_json);
        }
    }
    serde_json::to_vec(&Value::Object(m)).unwrap()
}

fn from_json(t: MsgType, json: &[u8]) -> Body {
    let v: Value = serde_json::from_slice(json).unwrap();
    let n = |k: &str| v[k].as_u64().unwrap() as u32;
    let s = |k: &str| v[k].as_str().unwrap().to_string();
    let o = |k: &str| v[k].as_str().map(|x| x.to_string());
    match t {
        MsgType::Hello => Body::Hello(Hello {
            pid: n("pid"),
            package: s("package"),
            sdk_int: n("sdk_int"),
            abi: s("abi"),
            version: o("version").unwrap_or_default(),
        }),
        MsgType::ScriptLoad => {
            Body::ScriptLoad(ScriptLoad { script_id: n("script_id"), source: s("source") })
        }
        MsgType::ScriptUnload => Body::ScriptUnload(ScriptUnload { script_id: n("script_id") }),
        MsgType::RpcCall => Body::RpcCall(RpcCall {
            script_id: n("script_id"),
            call_id: n("call_id"),
            fn_name: s("fn_name"),
            args_json: s("args_json"),
        }),
        MsgType::RpcReply => Body::RpcReply(RpcReply {
            call_id: n("call_id"),
            result_json: o("result_json"),
            error: o("error"),
        }),
        MsgType::Log => Body::Log(LogMsg { level: s("level"), message: s("message") }),
        MsgType::Send | MsgType::Post => Body::Send(SendPayload {
            script_id: n("script_id"),
            payload_json: s("payload_json"),
        }),
    }
}

fn round_trip(msg: Message) {
    let encoded = msg.encode(&to_json(&msg)).expect("encode");
    let f = Message::decode(&encoded).expect("decode");
    let body = from_json(f.msg_type, &f.json);
    let decoded = Message::assemble(f.msg_type, body, f.data).expect("assemble");
    assert_eq!(msg, decoded);
    assert_eq!(Message::frame_len(&encoded).unwrap(), encoded.len());
}

#[test]
fn round_trip_hello() {
    round_trip(Message::Hello(Hello {
        pid: 4242,
        package: "com.example.target".into(),
        sdk_int: 34,
        abi: "arm64-v8a".into(),
        version: "0.1.1 (git:deadbeef built:test)".into(),
    }));
}

#[test]
fn version_info_nonempty() {
    assert!(!version_info().is_empty());
    assert!(version_info().contains(PKG_VERSION));
}

#[test]
fn round_trip_script_load() {
    round_trip(Message::ScriptLoad(ScriptLoad { script_id: 1, source: "send('hi');".into() }));
}

#[test]
fn round_trip_script_unload() {
    round_trip(Message::ScriptUnload(ScriptUnload { script_id: 7 }));
}

#[test]
fn round_trip_rpc_call() {
    round_trip(Message::RpcCall(RpcCall {
        script_id: 1,
        call_id: 99,
        fn_name: "ping".into(),
        args_json: "[1,2,3]".into(),
    }));
}

#[test]
fn round_trip_rpc_reply_ok() {
    round_trip(Message::RpcReply(RpcReply {
        call_id: 99,
        result_json: Some("\"pong\"".into()),
        error: None,
    }));
}

#[test]
fn round_trip_rpc_reply_err() {
    round_trip(Message::RpcReply(RpcReply {
        call_id: 3,
        result_json: None,
        error: Some("boom".into()),
    }));
}

#[test]
fn round_trip_send_no_data() {
    round_trip(Message::Send { script_id: 1, payload_json: "\"hi\"".into(), data: None });
}

#[test]
fn round_trip_send_with_data() {
    round_trip(Message::Send {
        script_id: 2,
        payload_json: "{\"type\":\"bytes\"}".into(),
        data: Some(vec![0xde, 0xad, 0xbe, 0xef]),
    });
}

#[test]
fn round_trip_post_with_data() {
    round_trip(Message::Post {
        script_id: 1,
        payload_json: "{\"type\":\"pong\",\"n\":3}".into(),
        data: Some(vec![1, 2, 3]),
    });
}

#[test]
fn round_trip_log() {
    round_trip(Message::Log(LogMsg { level: "info".into(), message: "agent up".into() }));
}

#[test]
fn unknown_type_errors() {
    let mut buf = vec![0u8; 5];
    LittleEndian::write_u32(&mut buf[0..4], 1);
    buf[4] = 0xFF;
    assert!(matches!(Message::decode(&buf), Err(ProtoError::UnknownType(0xFF))));
}

#[test]
fn truncated_errors() {
    assert!(matches!(Message::decode(&[0, 0, 0]), Err(ProtoError::Truncated { .. })));
    let msg = Message::Log(LogMsg { level: "w".into(), message: "x".into() });
    let enc = msg.encode(&to_json(&msg)).unwrap();
    assert!(matches!(
        Message::decode(&enc[..enc.len() - 1]),
        Err(ProtoError::Truncated { .. })
    ));
}

#[test]
fn frame_bytes() {
    let msg = Message::Send { script_id: 1, payload_json: "x".into(), data: Some(vec![9]) };
    let f = msg.encode(b"{}").unwrap();
    assert_eq!(f, vec![12, 0, 0, 0, 6, 2, 0, 0, 0, b'{', b'}', 1, 0, 0, 0, 9]);
    let mut two = f.clone();
    two.extend_from_slice(&f);
    assert_eq!(Message::frame_len(&two).unwrap(), f.len());
    let back = Message::decode(&two).unwrap();
    assert_eq!(back.json, b"{}".to_vec());
    assert_eq!(back.data, Some(vec![9]));
}

#[test]
fn malformed_frames_are_refused() {
    assert!(matches!(Message::decode(&[0, 0, 0, 0, 1]), Err(ProtoError::BadLength(0))));
    assert!(matches!(Message::frame_len(&[0, 0]), Err(ProtoError::Truncated { need: 4, have: 2 })));
    assert!(matches!(
        Message::decode(&[5, 0, 0, 0, 6, 1, 2, 3, 4]),
        Err(ProtoError::MalformedSend)
    ));
    assert!(matches!(
        Message::decode(&[9, 0, 0, 0, 8, 1, 0, 0, 0, 0, 0, 0, 0]),
        Err(ProtoError::MalformedSend)
    ));
    let wrong = Body::Log(LogMsg { level: "a".into(), message: "b".into() });
    assert!(Message::assemble(MsgType::Hello, wrong, None).is_none());
}

#[test]
fn error_texts() {
    assert_eq!(
        ProtoError::Truncated { need: 5, have: 3 }.message(),
        "buffer too short: need 5 bytes, have 3"
    );
    assert_eq!(ProtoError::UnknownType(0x0F).message(), "unknown message type: 0x0f");
    assert_eq!(ProtoError::BadLength(7).message(), "invalid frame length: 7");
    assert_eq!(ProtoError::Json("eof".into()).message(), "json error: eof");
    assert_eq!(ProtoError::MalformedSend.message(), "send payload malformed");
}

#[test]
fn type_bytes() {
    for v in 1u8..9 {
        assert_eq!(MsgType::from_u8(v).unwrap().to_u8(), v);
    }
    assert_eq!(MsgType::from_u8(0), None);
    assert_eq!(MsgType::from_u8(9), None);
}
