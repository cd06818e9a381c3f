//! Wire protocol shared by host and agent.
//!
//! Framing (identical both directions):
//! ```text
//! [u32 LE: total_len] [u8: msg_type] [payload: total_len - 1 bytes]
//! ```
//!
//! For [`Message::Send`] and [`Message::Post`], the payload is:
//! ```text
//! [u32 LE: json_len] [json bytes] [u32 LE: data_len] [optional raw data]
//! ```
//! where `data_len` may be 0 (and then no data bytes follow).
//!
//! The JSON text of a message is made and read by the caller; frames carry it as bytes.
use crate::bytes::{copy_range, law_word_round_trip, le32, push_bytes, to_vec, word_at};
use crate::text::{decimal, hex_digit, push_decimal, push_hex_digit};
use byteorder::{ByteOrder, LittleEndian};
use vstd::prelude::*;
use vstd::string::*;

verus! {

/// Package version.
pub const PKG_VERSION: &'static str = "0.1.6";

/// Short revision of the build (or `"unknown"`).
pub const GIT_REV: &'static str = "unknown";

/// UTC build timestamp (or `"unknown"`).
pub const BUILD_TIME: &'static str = "unknown";

/// Human-readable build identity: version, revision and build time.
pub open spec fn version_text() -> Seq<char> {
    PKG_VERSION@ + " (git:"@ + GIT_REV@ + " built:"@ + BUILD_TIME@ + ")"@
}

/// Human-readable build identity.
pub fn version_info() -> (s: String)
    ensures
        s@ == version_text(),
{
    let mut s = PKG_VERSION.to_owned();
    s.append(" (git:");
    s.append(GIT_REV);
    s.append(" built:");
    s.append(BUILD_TIME);
    s.append(")");
    s
}

/// `LittleEndian::write_u32` of the byteorder crate on four bytes: the bytes of `n`, least
/// significant first.
#[verifier::external_body]
fn write_le_u32(n: u32) -> (b: [u8; 4])
    ensures
        b@ == le32(n),
{
    let mut b = [0u8; 4];
    LittleEndian::write_u32(&mut b, n);
    b
}

/// `LittleEndian::read_u32` of the byteorder crate: the value of the first four bytes, least
/// significant first. It panics on fewer.
#[verifier::external_body]
fn read_le_u32(buf: &[u8]) -> (n: u32)
    requires
        buf@.len() >= 4,
    ensures
        n == word_at(buf@, 0),
{
    LittleEndian::read_u32(buf)
}

/// The little-endian length at `at`.
fn length_at(buf: &[u8], at: usize) -> (n: u32)
    requires
        at + 4 <= buf@.len(),
    ensures
        n == word_at(buf@, at as int),
{
    let n: u32 = read_le_u32(vstd::slice::slice_subrange(buf, at, buf.len()));
    assert(buf@.subrange(at as int, buf@.len() as int)[0] == buf@[at as int]);
    n
}

/// Message type byte on the wire.
#[derive(Debug, Clone, Copy, PartialEq, Eq, Structural)]
pub enum MsgType {
    Hello,
    ScriptLoad,
    ScriptUnload,
    RpcCall,
    RpcReply,
    Send,
    Log,
    /// Host to script message.
    Post,
}

/// The wire byte of a message type.
pub open spec fn type_byte(t: MsgType) -> u8 {
    match t {
        MsgType::Hello => 1,
        MsgType::ScriptLoad => 2,
        MsgType::ScriptUnload => 3,
        MsgType::RpcCall => 4,
        MsgType::RpcReply => 5,
        MsgType::Send => 6,
        MsgType::Log => 7,
        MsgType::Post => 8,
    }
}

impl MsgType {
    pub fn from_u8(v: u8) -> (r: Option<Self>)
        ensures
            match r {
                Some(t) => type_byte(t) == v,
                None => v == 0 || v > 8,
            },
    {
        match v {
            1 => Some(Self::Hello),
            2 => Some(Self::ScriptLoad),
            3 => Some(Self::ScriptUnload),
            4 => Some(Self::RpcCall),
            5 => Some(Self::RpcReply),
            6 => Some(Self::Send),
            7 => Some(Self::Log),
            8 => Some(Self::Post),
            _ => None,
        }
    }

    /// The wire byte.
    pub fn to_u8(self) -> (v: u8)
        ensures
            v == type_byte(self),
    {
        match self {
            Self::Hello => 1,
            Self::ScriptLoad => 2,
            Self::ScriptUnload => 3,
            Self::RpcCall => 4,
            Self::RpcReply => 5,
            Self::Send => 6,
            Self::Log => 7,
            Self::Post => 8,
        }
    }
}

/// Two message types with the same wire byte are the same.
pub proof fn law_type_byte_injective(a: MsgType, b: MsgType)
    ensures
        type_byte(a) == type_byte(b) ==> a == b,
        1 <= type_byte(a) <= 8,
{
}

#[derive(Debug)]
pub enum ProtoError {
    Truncated { need: usize, have: usize },
    UnknownType(u8),
    BadLength(u32),
    /// The JSON part could not be made or read; the text says why.
    Json(String),
    MalformedSend,
}

impl ProtoError {
    /// The text of the error.
    pub open spec fn text(&self) -> Seq<char> {
        match self {
            ProtoError::Truncated { need, have } => "buffer too short: need "@ + decimal(
                *need as nat,
            ) + " bytes, have "@ + decimal(*have as nat),
            ProtoError::UnknownType(t) => "unknown message type: 0x"@ + seq![
                hex_digit((*t / 16) as nat),
                hex_digit((*t % 16) as nat),
            ],
            ProtoError::BadLength(n) => "invalid frame length: "@ + decimal(*n as nat),
            ProtoError::Json(m) => "json error: "@ + m@,
            ProtoError::MalformedSend => "send payload malformed"@,
        }
    }

    pub fn message(&self) -> (m: String)
        ensures
            m@ == self.text(),
    {
        match self {
            ProtoError::Truncated { need, have } => {
                let mut m = "buffer too short: need ".to_owned();
                push_decimal(&mut m, *need as u64);
                m.append(" bytes, have ");
                push_decimal(&mut m, *have as u64);
                m
            },
            ProtoError::UnknownType(t) => {
                let mut m = "unknown message type: 0x".to_owned();
                push_hex_digit(&mut m, *t / 16);
                push_hex_digit(&mut m, *t % 16);
                assert(m@ =~= self.text());
                m
            },
            ProtoError::BadLength(n) => {
                let mut m = "invalid frame length: ".to_owned();
                push_decimal(&mut m, *n as u64);
                m
            },
            ProtoError::Json(e) => "json error: ".to_owned().concat(e.as_str()),
            ProtoError::MalformedSend => "send payload malformed".to_owned(),
        }
    }
}

#[derive(Debug, PartialEq, Eq)]
pub struct Hello {
    pub pid: u32,
    pub package: String,
    pub sdk_int: u32,
    pub abi: String,
    /// Agent build identity. Empty on older agents.
    pub version: String,
}

#[derive(Debug, PartialEq, Eq)]
pub struct ScriptLoad {
    pub script_id: u32,
    pub source: String,
}

#[derive(Debug, PartialEq, Eq)]
pub struct ScriptUnload {
    pub script_id: u32,
}

#[derive(Debug, PartialEq, Eq)]
pub struct RpcCall {
    pub script_id: u32,
    pub call_id: u32,
    pub fn_name: String,
    pub args_json: String,
}

#[derive(Debug, PartialEq, Eq)]
pub struct RpcReply {
    pub call_id: u32,
    pub result_json: Option<String>,
    pub error: Option<String>,
}

#[derive(Debug, PartialEq, Eq)]
pub struct SendPayload {
    pub script_id: u32,
    pub payload_json: String,
}

#[derive(Debug, PartialEq, Eq)]
pub struct LogMsg {
    pub level: String,
    pub message: String,
}

#[derive(Debug, PartialEq, Eq)]
pub enum Message {
    Hello(Hello),
    ScriptLoad(ScriptLoad),
    ScriptUnload(ScriptUnload),
    RpcCall(RpcCall),
    RpcReply(RpcReply),
    /// A script's message to the host, with an optional raw byte channel after the JSON.
    Send { script_id: u32, payload_json: String, data: Option<Vec<u8>> },
    /// The host's message to a script.
    Post { script_id: u32, payload_json: String, data: Option<Vec<u8>> },
    Log(LogMsg),
}

/// The JSON part of a message: all of it but the raw data.
#[derive(Debug, PartialEq, Eq)]
pub enum Body {
    Hello(Hello),
    ScriptLoad(ScriptLoad),
    ScriptUnload(ScriptUnload),
    RpcCall(RpcCall),
    RpcReply(RpcReply),
    Send(SendPayload),
    Log(LogMsg),
}

/// A frame taken apart: its type, the bytes of its JSON part, and its raw data.
#[derive(Debug, PartialEq, Eq)]
pub struct Frame {
    pub msg_type: MsgType,
    pub json: Vec<u8>,
    pub data: Option<Vec<u8>>,
}

/// The bytes of an optional data part.
pub open spec fn data_bytes(data: Option<Vec<u8>>) -> Seq<u8> {
    match data {
        Some(d) => d@,
        None => Seq::empty(),
    }
}

/// Whether messages of a type carry raw data.
pub open spec fn carries_data(t: MsgType) -> bool {
    t == MsgType::Send || t == MsgType::Post
}

/// A length cut to the four bytes that a frame has for it.
pub open spec fn cut_len(n: nat) -> u32 {
    (n % 0x1_0000_0000) as u32
}

/// The payload of a message: its JSON, framed with its data where the type carries any.
pub open spec fn payload(t: MsgType, json: Seq<u8>, data: Seq<u8>) -> Seq<u8> {
    if carries_data(t) {
        le32(cut_len(json.len())) + json + le32(cut_len(data.len())) + data
    } else {
        json
    }
}

/// A frame: the length of type and payload, the type, the payload.
pub open spec fn frame(t: MsgType, body: Seq<u8>) -> Seq<u8> {
    le32((1 + cut_len(body.len())) as u32) + seq![type_byte(t)] + body
}

/// What a frame's payload holds: JSON and data, or `None` where it is malformed.
pub open spec fn parts(t: MsgType, p: Seq<u8>) -> Option<(Seq<u8>, Seq<u8>)> {
    if !carries_data(t) {
        Some((p, Seq::empty()))
    } else if p.len() < 8 {
        None
    } else {
        let json_len = word_at(p, 0) as int;
        if p.len() < 4 + json_len + 4 {
            None
        } else {
            let data_len = word_at(p, 4 + json_len) as int;
            if p.len() < 4 + json_len + 4 + data_len {
                None
            } else {
                Some(
                    (
                        p.subrange(4, 4 + json_len),
                        p.subrange(8 + json_len, 8 + json_len + data_len),
                    ),
                )
            }
        }
    }
}

/// `n` where a machine word holds it, else the largest one.
pub open spec fn fit(n: int) -> usize {
    if n <= usize::MAX {
        n as usize
    } else {
        usize::MAX
    }
}

/// Whether a frame holds these parts; no data and empty data are the same on the wire.
pub open spec fn holds(f: Frame, t: MsgType, json: Seq<u8>, data: Seq<u8>) -> bool {
    &&& f.msg_type == t
    &&& f.json@ == json
    &&& data.len() == 0 ==> f.data is None
    &&& data.len() > 0 ==> (f.data matches Some(d) && d@ == data)
}

impl Message {
    pub open spec fn type_of(&self) -> MsgType {
        match self {
            Message::Hello(_) => MsgType::Hello,
            Message::ScriptLoad(_) => MsgType::ScriptLoad,
            Message::ScriptUnload(_) => MsgType::ScriptUnload,
            Message::RpcCall(_) => MsgType::RpcCall,
            Message::RpcReply(_) => MsgType::RpcReply,
            Message::Send { .. } => MsgType::Send,
            Message::Post { .. } => MsgType::Post,
            Message::Log(_) => MsgType::Log,
        }
    }

    /// The raw data of a message.
    pub open spec fn data_of(&self) -> Seq<u8> {
        match self {
            Message::Send { data, .. } => data_bytes(*data),
            Message::Post { data, .. } => data_bytes(*data),
            _ => Seq::empty(),
        }
    }

    pub fn msg_type(&self) -> (t: MsgType)
        ensures
            t == self.type_of(),
    {
        match self {
            Self::Hello(_) => MsgType::Hello,
            Self::ScriptLoad(_) => MsgType::ScriptLoad,
            Self::ScriptUnload(_) => MsgType::ScriptUnload,
            Self::RpcCall(_) => MsgType::RpcCall,
            Self::RpcReply(_) => MsgType::RpcReply,
            Self::Send { .. } => MsgType::Send,
            Self::Post { .. } => MsgType::Post,
            Self::Log(_) => MsgType::Log,
        }
    }

    /// A complete frame of the message, whose JSON part is `json`.
    pub fn encode(&self, json: &[u8]) -> (r: Result<Vec<u8>, ProtoError>)
        ensures
            ({
                let body = payload(self.type_of(), json@, self.data_of());
                if cut_len(body.len()) == u32::MAX {
                    r matches Err(ProtoError::BadLength(n)) && n == u32::MAX
                } else {
                    r matches Ok(f) && f@ == frame(self.type_of(), body)
                }
            }),
    {
        let body = self.encode_payload(json);
        let body_len: u32 = (body.len() as u64 % 0x1_0000_0000) as u32;
        if body_len == u32::MAX {
            return Err(ProtoError::BadLength(u32::MAX));
        }
        let mut out: Vec<u8> = Vec::new();
        push_bytes(&mut out, write_le_u32(1 + body_len).as_slice());
        out.push(self.msg_type().to_u8());
        push_bytes(&mut out, body.as_slice());
        assert(out@ =~= frame(self.type_of(), body@));
        Ok(out)
    }

    /// The payload of the message, whose JSON part is `json`.
    pub fn encode_payload(&self, json: &[u8]) -> (body: Vec<u8>)
        ensures
            body@ == payload(self.type_of(), json@, self.data_of()),
    {
        match self {
            Self::Send { data, .. } | Self::Post { data, .. } => {
                let mut body: Vec<u8> = Vec::new();
                let json_len: u32 = (json.len() as u64 % 0x1_0000_0000) as u32;
                push_bytes(&mut body, write_le_u32(json_len).as_slice());
                push_bytes(&mut body, json);
                match data {
                    Some(d) => {
                        let data_len: u32 = (d.len() as u64 % 0x1_0000_0000) as u32;
                        push_bytes(&mut body, write_le_u32(data_len).as_slice());
                        push_bytes(&mut body, d.as_slice());
                    },
                    None => {
                        push_bytes(&mut body, write_le_u32(0).as_slice());
                    },
                }
                assert(body@ =~= payload(self.type_of(), json@, self.data_of()));
                body
            },
            _ => to_vec(json),
        }
    }

    /// Takes apart the frame at the start of `buf`, which must start at the length prefix. The
    /// caller advances by `frame_len` in a stream.
    pub fn decode(buf: &[u8]) -> (r: Result<Frame, ProtoError>)
        ensures
            ({
                let total = word_at(buf@, 0) as int;
                if buf@.len() < 5 {
                    r matches Err(ProtoError::Truncated { need, have }) && need == 5 && have
                        == buf@.len()
                } else if total < 1 {
                    r matches Err(ProtoError::BadLength(n)) && n == total
                } else if buf@.len() < 4 + total {
                    r matches Err(ProtoError::Truncated { need, have }) && need == fit(4 + total)
                        && have == buf@.len()
                } else if buf@[4] == 0 || buf@[4] > 8 {
                    r matches Err(ProtoError::UnknownType(t)) && t == buf@[4]
                } else {
                    exists|t: MsgType|
                        #![trigger type_byte(t)]
                        type_byte(t) == buf@[4] && decoded_payload(
                            t,
                            buf@.subrange(5, 4 + total),
                            r,
                        )
                }
            }),
    {
        if buf.len() < 5 {
            return Err(ProtoError::Truncated { need: 5, have: buf.len() });
        }
        let total_len: u32 = length_at(buf, 0);
        if total_len < 1 {
            return Err(ProtoError::BadLength(total_len));
        }
        if (buf.len() as u64) < 4 + total_len as u64 {
            return Err(
                ProtoError::Truncated {
                    need: (total_len as usize).saturating_add(4),
                    have: buf.len(),
                },
            );
        }
        let end: usize = 4 + total_len as usize;
        match MsgType::from_u8(buf[4]) {
            None => Err(ProtoError::UnknownType(buf[4])),
            Some(t) => {
                let r = Self::decode_payload(t, vstd::slice::slice_subrange(buf, 5, end));
                assert(type_byte(t) == buf@[4]);
                r
            },
        }
    }

    /// How many bytes the frame at the start of `buf` has, if its length prefix is there.
    pub fn frame_len(buf: &[u8]) -> (r: Result<usize, ProtoError>)
        ensures
            ({
                let total = word_at(buf@, 0) as int;
                if buf@.len() < 4 {
                    r matches Err(ProtoError::Truncated { need, have }) && need == 4 && have
                        == buf@.len()
                } else if total < 1 {
                    r matches Err(ProtoError::BadLength(n)) && n == total
                } else {
                    r == Ok::<usize, ProtoError>(fit(4 + total))
                }
            }),
    {
        if buf.len() < 4 {
            return Err(ProtoError::Truncated { need: 4, have: buf.len() });
        }
        let total_len: u32 = length_at(buf, 0);
        if total_len < 1 {
            return Err(ProtoError::BadLength(total_len));
        }
        Ok((total_len as usize).saturating_add(4))
    }

    /// Takes apart the payload of a frame.
    pub fn decode_payload(msg_type: MsgType, payload: &[u8]) -> (r: Result<Frame, ProtoError>)
        ensures
            decoded_payload(msg_type, payload@, r),
    {
        match msg_type {
            MsgType::Send | MsgType::Post => {
                let len: u64 = payload.len() as u64;
                if len < 8 {
                    return Err(ProtoError::MalformedSend);
                }
                let json_len: u64 = length_at(payload, 0) as u64;
                if len < 4 + json_len + 4 {
                    return Err(ProtoError::MalformedSend);
                }
                let json_end: usize = 4 + json_len as usize;
                let data_len: u64 = length_at(payload, json_end) as u64;
                if len < 4 + json_len + 4 + data_len {
                    return Err(ProtoError::MalformedSend);
                }
                let data_start: usize = json_end + 4;
                let json = copy_range(payload, 4, json_end);
                let data = if data_len == 0 {
                    None
                } else {
                    Some(copy_range(payload, data_start, data_start + data_len as usize))
                };
                Ok(Frame { msg_type, json, data })
            },
            _ => Ok(Frame { msg_type, json: to_vec(payload), data: None }),
        }
    }

    /// The JSON part of a message that carries data: the payload without the data.
    pub fn send_payload(&self) -> (r: Option<SendPayload>)
        ensures
            match *self {
                Message::Send { script_id, payload_json, .. }
                | Message::Post { script_id, payload_json, .. } => r matches Some(p) && p.script_id
                    == script_id && p.payload_json@ == payload_json@,
                _ => r is None,
            },
    {
        match self {
            Self::Send { script_id, payload_json, .. }
            | Self::Post { script_id, payload_json, .. } => Some(
                SendPayload { script_id: *script_id, payload_json: payload_json.clone() },
            ),
            _ => None,
        }
    }

    /// The message with a JSON part and data; `None` where the part is not of the type.
    pub fn assemble(msg_type: MsgType, body: Body, data: Option<Vec<u8>>) -> (r: Option<Message>)
        ensures
            r == assembled(msg_type, body, data),
    {
        match (msg_type, body) {
            (MsgType::Hello, Body::Hello(b)) => Some(Message::Hello(b)),
            (MsgType::ScriptLoad, Body::ScriptLoad(b)) => Some(Message::ScriptLoad(b)),
            (MsgType::ScriptUnload, Body::ScriptUnload(b)) => Some(Message::ScriptUnload(b)),
            (MsgType::RpcCall, Body::RpcCall(b)) => Some(Message::RpcCall(b)),
            (MsgType::RpcReply, Body::RpcReply(b)) => Some(Message::RpcReply(b)),
            (MsgType::Log, Body::Log(b)) => Some(Message::Log(b)),
            (MsgType::Send, Body::Send(b)) => Some(
                Message::Send { script_id: b.script_id, payload_json: b.payload_json, data },
            ),
            (MsgType::Post, Body::Send(b)) => Some(
                Message::Post { script_id: b.script_id, payload_json: b.payload_json, data },
            ),
            _ => None,
        }
    }
}

/// The message with a JSON part and data.
pub open spec fn assembled(t: MsgType, body: Body, data: Option<Vec<u8>>) -> Option<Message> {
    match (t, body) {
        (MsgType::Hello, Body::Hello(b)) => Some(Message::Hello(b)),
        (MsgType::ScriptLoad, Body::ScriptLoad(b)) => Some(Message::ScriptLoad(b)),
        (MsgType::ScriptUnload, Body::ScriptUnload(b)) => Some(Message::ScriptUnload(b)),
        (MsgType::RpcCall, Body::RpcCall(b)) => Some(Message::RpcCall(b)),
        (MsgType::RpcReply, Body::RpcReply(b)) => Some(Message::RpcReply(b)),
        (MsgType::Log, Body::Log(b)) => Some(Message::Log(b)),
        (MsgType::Send, Body::Send(b)) => Some(
            Message::Send { script_id: b.script_id, payload_json: b.payload_json, data },
        ),
        (MsgType::Post, Body::Send(b)) => Some(
            Message::Post { script_id: b.script_id, payload_json: b.payload_json, data },
        ),
        _ => None,
    }
}

/// Whether `r` is what a payload of a type comes to.
pub open spec fn decoded_payload(t: MsgType, p: Seq<u8>, r: Result<Frame, ProtoError>) -> bool {
    match parts(t, p) {
        None => r matches Err(ProtoError::MalformedSend),
        Some((json, data)) => r matches Ok(f) && holds(f, t, json, data),
    }
}

/// Four pieces one after another, two of four bytes, stand where their lengths say.
proof fn lemma_framed_pieces(a: Seq<u8>, json: Seq<u8>, b: Seq<u8>, data: Seq<u8>)
    requires
        a.len() == 4,
        b.len() == 4,
    ensures
        ({
            let p = a + json + b + data;
            &&& p.len() == 8 + json.len() + data.len()
            &&& p == a + (json + b + data)
            &&& p.subrange(4, 4 + json.len() as int) == json
            &&& p.subrange(8 + json.len() as int, (8 + json.len() + data.len()) as int) == data
        }),
{
    let p = a + json + b + data;
    assert(p =~= a + (json + b + data));
    assert(p.subrange(4, 4 + json.len() as int) =~= json);
    assert(p.subrange(8 + json.len() as int, (8 + json.len() + data.len()) as int) =~= data);
}

/// A prefix of four bytes, a byte and a body before other bytes stand where their lengths say.
proof fn lemma_prefixed_pieces(a: Seq<u8>, t: u8, body: Seq<u8>, rest: Seq<u8>)
    requires
        a.len() == 4,
    ensures
        ({
            let f = a + seq![t] + body;
            &&& f.len() == 5 + body.len()
            &&& f + rest == a + (seq![t] + body + rest)
            &&& (f + rest)[4] == t
            &&& (f + rest).subrange(5, 5 + body.len() as int) == body
        }),
{
    let f = a + seq![t] + body;
    assert(f + rest =~= a + (seq![t] + body + rest));
    assert((f + rest).subrange(5, 5 + body.len() as int) =~= body);
}

/// The four bytes of a word at the start of a sequence give back the word.
proof fn lemma_first_word(x: u32, tail: Seq<u8>)
    ensures
        word_at(le32(x) + tail, 0) == x,
{
    let none = Seq::<u8>::empty();
    law_word_round_trip(none, x, tail);
    assert(none + le32(x) =~= le32(x));
}

/// A payload that carries data gives back its lengths, its JSON and its data.
proof fn lemma_parts_of_framed(json: Seq<u8>, data: Seq<u8>)
    requires
        json.len() < 0x1_0000_0000,
        data.len() < 0x1_0000_0000,
    ensures
        ({
            let p = le32(cut_len(json.len())) + json + le32(cut_len(data.len())) + data;
            &&& p.len() == 8 + json.len() + data.len()
            &&& word_at(p, 0) == json.len()
            &&& word_at(p, 4 + json.len() as int) == data.len()
            &&& p.subrange(4, 4 + json.len() as int) == json
            &&& p.subrange(8 + json.len() as int, (8 + json.len() + data.len()) as int) == data
        }),
{
    let jl = cut_len(json.len());
    let dl = cut_len(data.len());
    lemma_framed_pieces(le32(jl), json, le32(dl), data);
    lemma_first_word(jl, json + le32(dl) + data);
    law_word_round_trip(le32(jl) + json, dl, data);
}

/// A payload gives back the JSON and the data that it was made of, where their lengths fit
/// their four bytes.
proof fn lemma_parts_of_payload(t: MsgType, json: Seq<u8>, data: Seq<u8>)
    requires
        json.len() < 0x1_0000_0000,
        data.len() < 0x1_0000_0000,
        !carries_data(t) ==> data.len() == 0,
    ensures
        parts(t, payload(t, json, data)) == Some((json, data)),
{
    if carries_data(t) {
        lemma_parts_of_framed(json, data);
    } else {
        assert(data =~= Seq::<u8>::empty());
    }
}

/// The payload of a message is at least as long as its JSON and its data.
proof fn lemma_payload_len(t: MsgType, json: Seq<u8>, data: Seq<u8>)
    requires
        !carries_data(t) ==> data.len() == 0,
    ensures
        json.len() + data.len() <= payload(t, json, data).len(),
{
    if carries_data(t) {
        lemma_framed_pieces(le32(cut_len(json.len())), json, le32(cut_len(data.len())), data);
    }
}

/// A frame before other bytes says how long it is and gives back its type byte and its body.
proof fn lemma_frame_in_stream(t: MsgType, body: Seq<u8>, rest: Seq<u8>)
    requires
        body.len() < 0xFFFF_FFFF,
    ensures
        ({
            let f = frame(t, body);
            &&& word_at(f + rest, 0) == 1 + body.len()
            &&& f.len() == 5 + body.len()
            &&& (f + rest)[4] == type_byte(t)
            &&& (f + rest).subrange(5, 5 + body.len() as int) == body
        }),
{
    let total = (1 + cut_len(body.len())) as u32;
    lemma_prefixed_pieces(le32(total), type_byte(t), body, rest);
    lemma_first_word(total, seq![type_byte(t)] + body + rest);
}

/// A frame read back gives what was written: its length prefix says how long it is, its type
/// byte is that of the message, and its payload gives back the JSON and the data. This needs
/// the payload to fit the length prefix.
pub proof fn law_frame_round_trip(t: MsgType, json: Seq<u8>, data: Seq<u8>, rest: Seq<u8>)
    requires
        payload(t, json, data).len() < 0xFFFF_FFFF,
        !carries_data(t) ==> data.len() == 0,
    ensures
        ({
            let f = frame(t, payload(t, json, data));
            let buf = f + rest;
            let total = word_at(buf, 0) as int;
            &&& f.len() == 4 + total
            &&& total >= 1
            &&& buf[4] == type_byte(t)
            &&& parts(t, buf.subrange(5, 4 + total)) == Some((json, data))
        }),
{
    lemma_payload_len(t, json, data);
    lemma_frame_in_stream(t, payload(t, json, data), rest);
    lemma_parts_of_payload(t, json, data);
}

/// The JSON part of a message: all of it but the raw data.
pub open spec fn body_of(m: Message) -> Body {
    match m {
        Message::Hello(b) => Body::Hello(b),
        Message::ScriptLoad(b) => Body::ScriptLoad(b),
        Message::ScriptUnload(b) => Body::ScriptUnload(b),
        Message::RpcCall(b) => Body::RpcCall(b),
        Message::RpcReply(b) => Body::RpcReply(b),
        Message::Log(b) => Body::Log(b),
        Message::Send { script_id, payload_json, .. } => Body::Send(
            SendPayload { script_id, payload_json },
        ),
        Message::Post { script_id, payload_json, .. } => Body::Send(
            SendPayload { script_id, payload_json },
        ),
    }
}

/// The optional raw data of a message.
pub open spec fn data_field(m: Message) -> Option<Vec<u8>> {
    match m {
        Message::Send { data, .. } => data,
        Message::Post { data, .. } => data,
        _ => None,
    }
}

/// A message put together again from its JSON part and the frame that carried it is the
/// message: its type, its JSON part and its data are the same. Data that is there but empty
/// comes back as none.
pub proof fn law_message_round_trip(m: Message, f: Frame, json: Seq<u8>)
    requires
        holds(f, m.type_of(), json, m.data_of()),
    ensures
        assembled(f.msg_type, body_of(m), f.data) matches Some(n) && {
            &&& n.type_of() == m.type_of()
            &&& body_of(n) == body_of(m)
            &&& n.data_of() == m.data_of()
            &&& data_field(n) is Some <==> data_field(m) is Some && m.data_of().len() > 0
        },
{
    assert(m.data_of().len() == 0 ==> m.data_of() =~= Seq::<u8>::empty());
}

} // verus!
