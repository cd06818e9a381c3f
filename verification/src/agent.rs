//! The side that runs in the app.
use crate::proto::{version_info, version_text, Hello, LogMsg, RpcReply};
use crate::text::{chars_of, decimal, numeral_max, parse_number, push_decimal};
use vstd::prelude::*;
use vstd::string::*;

verus! {

/// The name of the socket that the agent of a process listens on.
pub fn socket_name(pid: u32) -> (s: String)
    ensures
        s@ == "goauld-agent-"@ + decimal(pid as nat),
{
    let mut s = "goauld-agent-".to_owned();
    push_decimal(&mut s, pid as u64);
    s
}

/// The script engines that an agent can be built with.
#[derive(Debug, Clone, Copy, PartialEq, Eq, Structural)]
pub enum Engine {
    Symbiote,
    Quickjs,
    Neither,
}

/// The name of a script engine.
pub open spec fn engine_text(e: Engine) -> Seq<char> {
    match e {
        Engine::Symbiote => "symbiote"@,
        Engine::Quickjs => "quickjs"@,
        Engine::Neither => "none"@,
    }
}

/// The name of the script engine that an agent is built with.
pub fn js_engine_name(e: Engine) -> (s: &'static str)
    ensures
        s@ == engine_text(e),
{
    match e {
        Engine::Symbiote => "symbiote",
        Engine::Quickjs => "quickjs",
        Engine::Neither => "none",
    }
}

/// What an agent says of its version.
pub open spec fn hello_text(e: Engine) -> Seq<char> {
    version_text() + " js="@ + engine_text(e)
}

/// What an agent says of its version: the build, and the script engine.
pub fn hello_version(e: Engine) -> (s: String)
    ensures
        s@ == hello_text(e),
{
    let mut s = version_info();
    s.append(" js=");
    s.append(js_engine_name(e));
    s
}

/// The level of the system: the one that it told, else the one in the environment, else zero.
pub open spec fn level_of(sdk: u32, var: Option<Seq<char>>) -> u32 {
    if sdk != 0 {
        sdk
    } else {
        match var {
            Some(s) => match numeral_max(s, 10, u32::MAX as nat) {
                Some(v) => v as u32,
                None => 0,
            },
            None => 0,
        }
    }
}

/// The first message of an agent.
pub fn hello(pid: u32, package: Option<String>, sdk: u32, level: &Option<String>, e: Engine) -> (h:
    Hello)
    ensures
        h.pid == pid,
        h.package@ == match package {
            Some(p) => p@,
            None => "unknown"@,
        },
        h.sdk_int == level_of(sdk, crate::discover::text_view(*level)),
        h.abi@ == "arm64-v8a"@,
        h.version@ == hello_text(e),
{
    let package = match package {
        Some(p) => p,
        None => "unknown".to_owned(),
    };
    let sdk_int: u32 = if sdk != 0 {
        sdk
    } else {
        match level {
            Some(s) => {
                let cs = chars_of(s.as_str());
                match parse_number(cs.as_slice(), 10, 0xffff_ffff) {
                    Some(v) => v as u32,
                    None => 0,
                }
            },
            None => 0,
        }
    };
    Hello { pid, package, sdk_int, abi: "arm64-v8a".to_owned(), version: hello_version(e) }
}

/// What an agent does with a message of its host.
#[derive(Debug)]
pub enum Task {
    Load { script_id: u32, source: String },
    Unload { script_id: u32 },
    Post { payload_json: String, data: Option<Vec<u8>> },
    Call { call_id: u32, fn_name: String, args_json: String },
    /// Nothing.
    Ignore,
}

/// What an agent does with a message of its host.
pub fn on_message(m: crate::proto::Message) -> (t: Task)
    ensures
        match m {
            crate::proto::Message::ScriptLoad(s) => t == (Task::Load {
                script_id: s.script_id,
                source: s.source,
            }),
            crate::proto::Message::ScriptUnload(s) => t == (Task::Unload {
                script_id: s.script_id,
            }),
            crate::proto::Message::Post { script_id: _, payload_json, data } => t == (Task::Post {
                payload_json,
                data,
            }),
            crate::proto::Message::RpcCall(c) => t == (Task::Call {
                call_id: c.call_id,
                fn_name: c.fn_name,
                args_json: c.args_json,
            }),
            _ => t is Ignore,
        },
{
    match m {
        crate::proto::Message::ScriptLoad(s) => Task::Load {
            script_id: s.script_id,
            source: s.source,
        },
        crate::proto::Message::ScriptUnload(s) => Task::Unload { script_id: s.script_id },
        crate::proto::Message::Post { script_id: _, payload_json, data } => Task::Post {
            payload_json,
            data,
        },
        crate::proto::Message::RpcCall(c) => Task::Call {
            call_id: c.call_id,
            fn_name: c.fn_name,
            args_json: c.args_json,
        },
        _ => Task::Ignore,
    }
}

/// The message to the host where a script could not be loaded.
pub fn load_failed(error: &str) -> (l: LogMsg)
    ensures
        l.level@ == "error"@,
        l.message@ == "ScriptLoad: "@ + error@,
{
    LogMsg { level: "error".to_owned(), message: "ScriptLoad: ".to_owned().concat(error) }
}

/// The message to the host with what a call came to.
pub fn call_reply(call_id: u32, result_json: Option<String>, error: Option<String>) -> (r: RpcReply)
    ensures
        r.call_id == call_id,
        r.result_json == result_json,
        r.error == error,
{
    RpcReply { call_id, result_json, error }
}

/// The bytes of an address in the abstract name space: a zero, then the name.
pub fn abstract_path(name: &str) -> (out: Vec<u8>)
    ensures
        out@ == seq![0u8] + vstd::utf8::encode_utf8(name@),
{
    let mut out: Vec<u8> = Vec::new();
    out.push(0);
    crate::bytes::push_bytes(&mut out, name.as_bytes());
    assert(out@ =~= seq![0u8] + vstd::utf8::encode_utf8(name@));
    out
}

} // verus!
