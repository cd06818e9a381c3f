//! What the desktop side asks of a device.
use crate::api_trace::{find_last, last_place};
use crate::discover::text_view;
use crate::numbers::{number_fault, read_number, NumberFault};
use crate::split::{
    find_char, lines, lines_of, pieces, place_of, split, texts, words, words_of,
};
use crate::text::{
    chars_of, copy_chars, decimal, has_part, join, joined, lowered, numeral_max, push_char,
    push_decimal, push_signed, same_chars, signed_decimal, spells, string_of, to_lower, trim,
    trimmed, views,
};
use vstd::prelude::*;
use vstd::string::*;

verus! {

pub const DEVICE_DIR: &'static str = "/data/local/tmp/goauld";

pub const DEVICE_INJECTOR: &'static str = "/data/local/tmp/goauld/goauld-injector";

pub const DEVICE_AGENT: &'static str = "/data/local/tmp/goauld/libgoauld_agent.so";

/// Why a request is refused.
#[derive(Debug)]
pub enum HostError {
    /// Neither a process nor a package was named.
    NoTarget,
    /// The package does not run.
    NotRunning(String),
    /// The device's answer is no process number.
    BadPid(NumberFault),
    Msg(String),
}

impl HostError {
    /// The text of the error.
    pub open spec fn text(&self) -> Seq<char> {
        match self {
            HostError::NoTarget => "pass --pid or --package"@,
            HostError::NotRunning(p) => "package not running: "@ + p@,
            HostError::BadPid(f) => f.text(),
            HostError::Msg(m) => m@,
        }
    }

    pub fn message(&self) -> (m: String)
        ensures
            m@ == self.text(),
    {
        match self {
            HostError::NoTarget => "pass --pid or --package".to_owned(),
            HostError::NotRunning(p) => "package not running: ".to_owned().concat(p.as_str()),
            HostError::BadPid(f) => f.message(),
            HostError::Msg(m) => m.clone(),
        }
    }
}

/// `tcp:` and the port.
pub open spec fn tcp_text(port: u16) -> Seq<char> {
    "tcp:"@ + decimal(port as nat)
}

/// `localabstract:` and the name.
pub open spec fn local_text(name: Seq<char>) -> Seq<char> {
    "localabstract:"@ + name
}

/// `tcp:` and the port.
pub fn tcp_spec(port: u16) -> (s: String)
    ensures
        s@ == tcp_text(port),
{
    let mut s = "tcp:".to_owned();
    push_decimal(&mut s, port as u64);
    s
}

/// `localabstract:` and the name.
pub fn local_spec(name: &str) -> (s: String)
    ensures
        s@ == local_text(name@),
{
    "localabstract:".to_owned().concat(name)
}

/// Whether a line of the list of forwards is the one from a port to a socket.
pub open spec fn is_forward(line: Seq<char>, port: u16, name: Seq<char>) -> bool {
    let ws = words_of(line);
    ws.len() >= 3 && ws[1] == tcp_text(port) && ws[2] == local_text(name)
}

/// Whether the list of forwards has the one from a port to a socket.
pub fn forward_listed(list: &str, port: u16, name: &str) -> (r: bool)
    ensures
        r == exists|i: int|
            0 <= i < lines_of(list@).len() && is_forward(#[trigger] lines_of(list@)[i], port, name@),
{
    let cs = chars_of(list);
    let ls = lines(cs.as_slice());
    let tcp = chars_of(tcp_spec(port).as_str());
    let local = chars_of(local_spec(name).as_str());
    let mut i: usize = 0;
    while i < ls.len()
        invariant
            i <= ls@.len(),
            texts(ls@) == lines_of(list@),
            tcp@ == tcp_text(port),
            local@ == local_text(name@),
            forall|j: int| 0 <= j < i ==> !is_forward(#[trigger] lines_of(list@)[j], port, name@),
        decreases ls@.len() - i,
    {
        assert(texts(ls@)[i as int] == ls@[i as int]@);
        let ws = words(ls[i].as_slice());
        if ws.len() >= 3 {
            assert(texts(ws@)[1] == ws@[1]@);
            assert(texts(ws@)[2] == ws@[2]@);
            if same_chars(ws[1].as_slice(), tcp.as_slice()) && same_chars(
                ws[2].as_slice(),
                local.as_slice(),
            ) {
                assert(is_forward(lines_of(list@)[i as int], port, name@));
                return true;
            }
        }
        i = i + 1;
    }
    false
}

/// The command as root.
pub fn root_script(remote: &str) -> (s: String)
    ensures
        s@ == "su -c '"@ + remote@ + "'"@,
{
    let mut s = "su -c '".to_owned();
    s.append(remote);
    s.append("'");
    s
}

/// The part of a command that names its target.
pub open spec fn target_text(pid: Option<i32>, package: Option<Seq<char>>) -> Seq<char> {
    (match pid {
        Some(p) => " --pid "@ + signed_decimal(p as int),
        None => Seq::empty(),
    }) + (match package {
        Some(p) => " --package "@ + p,
        None => Seq::empty(),
    })
}

fn push_target(s: &mut String, pid: Option<i32>, package: &Option<String>)
    ensures
        final(s)@ == old(s)@ + target_text(pid, text_view(*package)),
{
    match pid {
        Some(p) => {
            s.append(" --pid ");
            push_signed(s, p as i64);
        },
        None => {},
    }
    match package {
        Some(p) => {
            s.append(" --package ");
            s.append(p.as_str());
        },
        None => {},
    }
    assert(s@ =~= old(s)@ + target_text(pid, text_view(*package)));
}

/// The command that injects the agent, on the device.
pub fn inject_command(pid: Option<i32>, package: &Option<String>, stage_into_app: bool) -> (r:
    Result<String, HostError>)
    ensures
        match r {
            Ok(s) => (pid is Some || package is Some) && s@ == DEVICE_INJECTOR@
                + " inject --so "@ + DEVICE_AGENT@ + target_text(pid, text_view(*package)) + (
            if stage_into_app {
                " --stage-into-app"@
            } else {
                Seq::empty()
            }),
            Err(e) => pid is None && package is None && e is NoTarget,
        },
{
    if pid.is_none() && package.is_none() {
        return Err(HostError::NoTarget);
    }
    let mut s = DEVICE_INJECTOR.to_owned();
    s.append(" inject --so ");
    s.append(DEVICE_AGENT);
    push_target(&mut s, pid, package);
    if stage_into_app {
        s.append(" --stage-into-app");
    } else {
        assert(s@ =~= s@ + Seq::<char>::empty());
    }
    Ok(s)
}

/// The command that traces system calls, on the device.
pub fn trace_command(
    pid: Option<i32>,
    package: &Option<String>,
    duration_secs: u64,
    max_events: u64,
    filter: &str,
    enter_only: bool,
) -> (r: Result<String, HostError>)
    ensures
        match r {
            Ok(s) => (pid is Some || package is Some) && s@ == DEVICE_INJECTOR@
                + " trace-syscalls --duration-secs "@ + decimal(duration_secs as nat)
                + " --max-events "@ + decimal(max_events as nat) + target_text(
                pid,
                text_view(*package),
            ) + (if filter@.len() > 0 {
                " --filter "@ + filter@
            } else {
                Seq::empty()
            }) + (if enter_only {
                " --enter-only"@
            } else {
                Seq::empty()
            }),
            Err(e) => pid is None && package is None && e is NoTarget,
        },
{
    if pid.is_none() && package.is_none() {
        return Err(HostError::NoTarget);
    }
    let mut s = DEVICE_INJECTOR.to_owned();
    s.append(" trace-syscalls --duration-secs ");
    push_decimal(&mut s, duration_secs);
    s.append(" --max-events ");
    push_decimal(&mut s, max_events);
    push_target(&mut s, pid, package);
    let ghost head = s@;
    let fv = chars_of(filter);
    if fv.len() > 0 {
        s.append(" --filter ");
        s.append(filter);
    }
    let ghost mid = head + (if filter@.len() > 0 {
        " --filter "@ + filter@
    } else {
        Seq::empty()
    });
    assert(s@ =~= mid);
    if enter_only {
        s.append(" --enter-only");
    } else {
        assert(s@ =~= mid + Seq::<char>::empty());
    }
    Ok(s)
}

/// The process to work on: the one that was named, or the one in the device's answer for the
/// package.
pub fn resolve_pid_on_device(pid: Option<i32>, package: &Option<String>, output: &str) -> (r:
    Result<u32, HostError>)
    ensures
        match pid {
            Some(p) => r == Ok::<u32, HostError>(p as u32),
            None => match *package {
                None => r is Err && r->Err_0 is NoTarget,
                Some(pkg) => {
                    let t = trimmed(output@);
                    if t.len() == 0 {
                        r matches Err(HostError::NotRunning(m)) && m@ == pkg@
                    } else {
                        match number_fault(t, 10, u32::MAX as nat) {
                            Some(f) => r matches Err(HostError::BadPid(g)) && g == f,
                            None => r matches Ok(v) && numeral_max(t, 10, u32::MAX as nat) == Some(
                                v as nat,
                            ),
                        }
                    }
                },
            },
        },
{
    match pid {
        Some(p) => {
            return Ok(p as u32);
        },
        None => {},
    }
    match package {
        None => Err(HostError::NoTarget),
        Some(pkg) => {
            let cs = chars_of(output);
            let t = trim(cs.as_slice());
            if t.len() == 0 {
                return Err(HostError::NotRunning(pkg.clone()));
            }
            proof {
                crate::numbers::law_fault_iff_no_number(t@, 10, u32::MAX as nat);
            }
            match read_number(t.as_slice(), 10, 0xffff_ffff) {
                Ok(v) => Ok(v as u32),
                Err(f) => Err(HostError::BadPid(f)),
            }
        },
    }
}

/// What starts a package again: the activity that was named, else the sample's, which may be
/// missing.
pub fn launch_target(package: &str, activity: &str) -> (r: (String, bool))
    ensures
        if trimmed(activity@).len() > 0 {
            r.0@ == trimmed(activity@) && !r.1
        } else {
            r.0@ == package@ + "/.Target"@ && r.1
        },
{
    let cs = chars_of(activity);
    let t = trim(cs.as_slice());
    if t.len() > 0 {
        (string_of(t.as_slice()), false)
    } else {
        (package.to_owned().concat("/.Target"), true)
    }
}

/// The parts of a hook: what it hooks and its signature.
pub open spec fn hook_parts(part: Seq<char>) -> (Seq<char>, Seq<char>) {
    let colon = place_of(part, ':', 0);
    if colon < part.len() {
        (part.take(colon), part.skip(colon + 1))
    } else {
        (part, "(I)I"@)
    }
}

/// A hook as JSON: class, method and signature. `None` where no dot parts class and method.
pub open spec fn hook_json(part: Seq<char>) -> Option<Seq<char>> {
    let (left, sig) = hook_parts(part);
    let dot = last_place(left, '.', left.len() as int);
    if part.len() == 0 || dot < 0 {
        None
    } else {
        Some(
            "{\"class\":\""@ + left.take(dot) + "\",\"method\":\""@ + left.skip(dot + 1)
                + "\",\"sig\":\""@ + sig + "\"}"@,
        )
    }
}

/// The hooks of a list.
pub open spec fn hooks_json(parts: Seq<Seq<char>>) -> Seq<Seq<char>>
    decreases parts.len(),
{
    if parts.len() == 0 {
        Seq::empty()
    } else {
        match hook_json(trimmed(parts.last())) {
            Some(item) => hooks_json(parts.drop_last()).push(item),
            None => hooks_json(parts.drop_last()),
        }
    }
}

/// Whether a list of hooks says that there are none.
pub open spec fn says_none(raw: Seq<char>) -> bool {
    raw.len() == 0 || raw == "-"@ || lowered(raw) == "none"@
}

/// A list of hooks as a JSON array.
pub open spec fn hook_list(java_hooks: Seq<char>) -> Seq<char> {
    let raw = trimmed(java_hooks);
    "["@ + joined(
        if says_none(raw) {
            Seq::empty()
        } else {
            hooks_json(pieces(raw, ','))
        },
        ","@,
    ) + "]"@
}

fn read_hook(part: &Vec<char>) -> (r: Option<String>)
    ensures
        text_view(r) == hook_json(part@),
{
    if part.len() == 0 {
        return None;
    }
    let n: usize = part.len();
    let colon: usize = find_char(part.as_slice(), ':', 0);
    let left = copy_chars(part.as_slice(), 0, colon);
    let sig = if colon < n {
        copy_chars(part.as_slice(), colon + 1, n)
    } else {
        chars_of("(I)I")
    };
    assert(left@ =~= hook_parts(part@).0);
    assert(sig@ =~= hook_parts(part@).1);
    match find_last(&left, '.') {
        None => None,
        Some(dot) => {
            let class = copy_chars(left.as_slice(), 0, dot);
            let method = copy_chars(left.as_slice(), dot + 1, left.len());
            assert(class@ =~= left@.take(dot as int));
            assert(method@ =~= left@.skip(dot + 1));
            let mut s = "{\"class\":\"".to_owned();
            crate::text::push_chars(&mut s, class.as_slice());
            s.append("\",\"method\":\"");
            crate::text::push_chars(&mut s, method.as_slice());
            s.append("\",\"sig\":\"");
            crate::text::push_chars(&mut s, sig.as_slice());
            s.append("\"}");
            Some(s)
        },
    }
}

/// A list of hooks as a JSON array.
pub fn default_java_hooks_json(java_hooks: &str) -> (s: String)
    ensures
        s@ == hook_list(java_hooks@),
{
    let cs = chars_of(java_hooks);
    let raw = trim(cs.as_slice());
    let low = to_lower(raw.as_slice());
    let mut items: Vec<String> = Vec::new();
    assert(views(items@) =~= Seq::<Seq<char>>::empty());
    if !(raw.len() == 0 || spells(raw.as_slice(), "-") || spells(low.as_slice(), "none")) {
        let ps = split(raw.as_slice(), ',');
        let ghost all = pieces(raw@, ',');
        let mut i: usize = 0;
        assert(all.take(0) =~= Seq::<Seq<char>>::empty());
        while i < ps.len()
            invariant
                i <= ps@.len(),
                texts(ps@) == all,
                views(items@) == hooks_json(all.take(i as int)),
            decreases ps@.len() - i,
        {
            assert(texts(ps@)[i as int] == ps@[i as int]@);
            assert(all.take(i + 1).drop_last() =~= all.take(i as int));
            let part = trim(ps[i].as_slice());
            match read_hook(&part) {
                Some(item) => {
                    let ghost before = items@;
                    items.push(item);
                    assert(views(items@) =~= views(before).push(item@));
                },
                None => {},
            }
            i = i + 1;
        }
        assert(all.take(i as int) =~= all);
    }
    let mut s = "[".to_owned();
    s.append(join(&items, ",").as_str());
    s.append("]");
    s
}

/// A character inside a script's string.
pub open spec fn quoted_char(c: char) -> Seq<char> {
    if c == '\\' {
        "\\\\"@
    } else if c == '\'' {
        "\\'"@
    } else {
        seq![c]
    }
}

/// A text inside a script's string.
pub open spec fn quoted(s: Seq<char>) -> Seq<char>
    decreases s.len(),
{
    if s.len() == 0 {
        Seq::empty()
    } else {
        quoted(s.drop_last()) + quoted_char(s.last())
    }
}

fn push_quoted(s: &mut String, t: &Vec<char>)
    ensures
        final(s)@ == old(s)@ + quoted(t@),
{
    let mut i: usize = 0;
    assert(t@.take(0) =~= Seq::<char>::empty());
    assert(s@ =~= old(s)@ + quoted(t@.take(0)));
    while i < t.len()
        invariant
            i <= t@.len(),
            s@ == old(s)@ + quoted(t@.take(i as int)),
        decreases t@.len() - i,
    {
        let c = t[i];
        if c == '\\' {
            s.append("\\\\");
        } else if c == '\'' {
            s.append("\\'");
        } else {
            push_char(s, c);
        }
        i = i + 1;
        assert(t@.take(i as int).drop_last() =~= t@.take(i - 1));
        assert(s@ =~= old(s)@ + quoted(t@.take(i as int)));
    }
    assert(t@.take(i as int) =~= t@);
}

/// The prefixes that are traced: those that were given, else the default ones.
pub open spec fn trace_filter(filter: Seq<char>) -> Seq<char> {
    if trimmed(filter).len() == 0 {
        "android.,androidx.,java.,javax.,com.android.,dalvik."@
    } else {
        trimmed(filter)
    }
}

/// The script that traces Java calls: its settings, then its body.
pub fn build_java_trace_script(base: &str, filter: &str, max_events: u64, java_hooks: &str) -> (s:
    String)
    ensures
        s@ == "globalThis.__GOAULD_API_FILTER = '"@ + quoted(trace_filter(filter@))
            + "';\nglobalThis.__GOAULD_API_MAX_EVENTS = "@ + decimal(max_events as nat)
            + ";\nglobalThis.__GOAULD_JAVA_HOOKS = "@ + hook_list(java_hooks@) + ";\n"@ + base@,
{
    let cs = chars_of(filter);
    let t = trim(cs.as_slice());
    let used = if t.len() == 0 {
        chars_of("android.,androidx.,java.,javax.,com.android.,dalvik.")
    } else {
        t
    };
    let mut s = "globalThis.__GOAULD_API_FILTER = '".to_owned();
    push_quoted(&mut s, &used);
    s.append("';\nglobalThis.__GOAULD_API_MAX_EVENTS = ");
    push_decimal(&mut s, max_events);
    s.append(";\nglobalThis.__GOAULD_JAVA_HOOKS = ");
    s.append(default_java_hooks_json(java_hooks).as_str());
    s.append(";\n");
    s.append(base);
    s
}

/// The script of a stress run: its settings, then its body.
pub fn stress_script(count: u64, payload: u64, fixture: &str) -> (s: String)
    ensures
        s@ == "globalThis.__GOAULD_STRESS_COUNT = "@ + decimal(count as nat)
            + ";\nglobalThis.__GOAULD_STRESS_PAYLOAD = "@ + decimal(payload as nat) + ";\n"@
            + fixture@,
{
    let mut s = "globalThis.__GOAULD_STRESS_COUNT = ".to_owned();
    push_decimal(&mut s, count);
    s.append(";\nglobalThis.__GOAULD_STRESS_PAYLOAD = ");
    push_decimal(&mut s, payload);
    s.append(";\n");
    s.append(fixture);
    s
}

/// Whether a stress run is one of two-way messages.
pub fn is_comm_mode(mode: &str) -> (r: bool)
    ensures
        r == (lowered(mode@) == "frida"@ || lowered(mode@) == "comm"@),
{
    let cs = chars_of(mode);
    let low = to_lower(cs.as_slice());
    spells(low.as_slice(), "frida") || spells(low.as_slice(), "comm")
}

/// How often a connection is tried.
pub const MAX_ATTEMPTS: u32 = 20;

/// The error text where no agent answered.
pub open spec fn no_hello(port: u16, name: Option<Seq<char>>, why: Option<Seq<char>>) -> Seq<char> {
    "agent did not send Hello on 127.0.0.1:"@ + decimal(port as nat) + " ("@ + (match why {
        Some(w) => w,
        None => "no connection"@,
    }) + "). abstract socket @"@ + (match name {
        Some(n) => n,
        None => "goauld-agent-<pid>"@,
    })
        + " is not accepting \u{2014} often a re-inject into a process whose agent already exited. Force-stop the app and retry; `trace java --package \u{2026}` restarts the app by default."@
}

/// The error where no agent answered.
pub fn no_hello_text(port: u16, name: &Option<String>, why: &Option<String>) -> (s: String)
    ensures
        s@ == no_hello(port, text_view(*name), text_view(*why)),
{
    let mut s = "agent did not send Hello on 127.0.0.1:".to_owned();
    push_decimal(&mut s, port as u64);
    s.append(" (");
    match why {
        Some(w) => {
            s.append(w.as_str());
        },
        None => {
            s.append("no connection");
        },
    }
    s.append("). abstract socket @");
    match name {
        Some(n) => {
            s.append(n.as_str());
        },
        None => {
            s.append("goauld-agent-<pid>");
        },
    }
    s.append(
        " is not accepting \u{2014} often a re-inject into a process whose agent already exited. Force-stop the app and retry; `trace java --package \u{2026}` restarts the app by default.",
    );
    s
}

/// What an agent is dialed for.
#[derive(Debug, Clone, Copy, PartialEq, Eq, Structural)]
pub enum DialKind {
    /// A session.
    Attach,
    /// A flood of messages.
    Flood,
    /// Messages both ways.
    Comm,
}

/// What an attempt to reach an agent gave.
#[derive(Debug)]
pub enum Reached {
    /// Its first message.
    Hello,
    /// Another message, as it is shown.
    Other(String),
    /// No message, for this reason.
    Failed(String),
}

/// What comes after an attempt to reach an agent.
#[derive(Debug, Clone, Copy, PartialEq, Eq, Structural)]
pub enum DialStep {
    /// The agent was found.
    Found,
    /// Another attempt, after this many milliseconds.
    Wait(u64),
    /// What answered is no agent.
    Refused,
    /// No attempt is left.
    GivenUp,
}

/// Attempts to reach an agent: which one is made, and why the last one failed.
#[derive(Debug)]
pub struct Dialer {
    pub kind: DialKind,
    pub attempt: u32,
    pub why: Option<String>,
}

/// Whether an attempt that did not find an agent is followed by another, as long as one is left.
pub open spec fn tries_on(before: Dialer, after: Dialer, d: DialStep) -> bool {
    match before.pause() {
        Some(ms) => d == DialStep::Wait(ms) && after.attempt == before.attempt + 1,
        None => d is GivenUp && after.attempt == before.attempt,
    }
}

impl Dialer {
    /// Milliseconds before the next attempt; `None` after the last one.
    pub open spec fn pause(self) -> Option<u64> {
        if self.attempt >= MAX_ATTEMPTS {
            None
        } else if self.kind != DialKind::Attach {
            Some(100)
        } else if self.attempt <= 3 {
            Some(15)
        } else {
            Some(50)
        }
    }

    pub fn new(kind: DialKind) -> (d: Dialer)
        ensures
            d == (Dialer { kind, attempt: 1, why: None }),
    {
        Dialer { kind, attempt: 1, why: None }
    }

    /// Milliseconds to wait for the first message. A session tries fast first.
    pub fn timeout_ms(&self) -> (ms: u64)
        ensures
            ms == if self.kind == DialKind::Attach && self.attempt == 1 {
                250int
            } else {
                750
            },
    {
        if self.kind == DialKind::Attach && self.attempt == 1 {
            250
        } else {
            750
        }
    }

    fn try_on(&mut self) -> (d: DialStep)
        ensures
            final(self).kind == old(self).kind,
            final(self).why == old(self).why,
            tries_on(*old(self), *final(self), d),
    {
        if self.attempt >= MAX_ATTEMPTS {
            return DialStep::GivenUp;
        }
        let ms: u64 = if self.kind != DialKind::Attach {
            100
        } else if self.attempt <= 3 {
            15
        } else {
            50
        };
        self.attempt = self.attempt + 1;
        DialStep::Wait(ms)
    }

    /// Takes in what an attempt gave. A session ends where the first message is another; the
    /// stress runs try again.
    pub fn step(&mut self, r: Reached) -> (d: DialStep)
        ensures
            final(self).kind == old(self).kind,
            match r {
                Reached::Hello => d is Found && *final(self) == *old(self),
                Reached::Other(m) => text_view(final(self).why) == Some(
                    "expected Hello, got "@ + m@,
                ) && if old(self).kind == DialKind::Attach {
                    d is Refused && final(self).attempt == old(self).attempt
                } else {
                    tries_on(*old(self), *final(self), d)
                },
                Reached::Failed(w) => final(self).why == Some(w) && tries_on(
                    *old(self),
                    *final(self),
                    d,
                ),
            },
    {
        match r {
            Reached::Hello => DialStep::Found,
            Reached::Other(m) => {
                self.why = Some("expected Hello, got ".to_owned().concat(m.as_str()));
                if self.kind == DialKind::Attach {
                    DialStep::Refused
                } else {
                    self.try_on()
                }
            },
            Reached::Failed(w) => {
                self.why = Some(w);
                self.try_on()
            },
        }
    }

    /// The error once no attempt is left.
    pub open spec fn failure_text(self, port: u16, name: Option<Seq<char>>) -> Seq<char> {
        let why = match text_view(self.why) {
            Some(w) => w,
            None => "connect failed"@,
        };
        match self.kind {
            DialKind::Attach => no_hello(port, name, text_view(self.why)),
            DialKind::Flood => "stress: no agent Hello ("@ + why + ")"@,
            DialKind::Comm => "no agent Hello: "@ + why,
        }
    }

    /// The error once no attempt is left.
    pub fn failure(&self, port: u16, name: &Option<String>) -> (e: HostError)
        ensures
            e matches HostError::Msg(m) && m@ == self.failure_text(port, text_view(*name)),
    {
        let why = match &self.why {
            Some(w) => w.as_str(),
            None => "connect failed",
        };
        match self.kind {
            DialKind::Attach => HostError::Msg(no_hello_text(port, name, &self.why)),
            DialKind::Flood => {
                let mut s = "stress: no agent Hello (".to_owned();
                s.append(why);
                s.append(")");
                HostError::Msg(s)
            },
            DialKind::Comm => HostError::Msg("no agent Hello: ".to_owned().concat(why)),
        }
    }
}

/// Attempts to reach an agent end: each that is followed by another has one less left.
pub proof fn law_dialing_ends(before: Dialer, after: Dialer, d: DialStep)
    requires
        tries_on(before, after, d),
    ensures
        d is Wait ==> before.attempt < after.attempt <= MAX_ATTEMPTS,
        d is GivenUp <==> before.attempt >= MAX_ATTEMPTS,
{
}

/// How often a package that was started is looked for.
pub const MAX_POLLS: u32 = 20;

/// Where the restart of a package stands: the operation that comes next.
#[derive(Debug, Clone, Copy, PartialEq, Eq, Structural)]
pub enum RestartPhase {
    /// To stop it.
    Stop,
    /// To start its activity.
    Start,
    /// To start it through its launcher entry.
    Launcher,
    /// To look for its process, for this time.
    Poll(u32),
    Started,
    /// A command failed.
    Failed,
    /// Its process did not come up.
    NotStarted,
}

impl RestartPhase {
    /// The next phase, by whether the operation worked. Only an activity that was not named may
    /// be missing.
    pub open spec fn after(self, may_fall_back: bool, worked: bool) -> RestartPhase {
        match self {
            RestartPhase::Stop => RestartPhase::Start,
            RestartPhase::Start => if worked {
                RestartPhase::Poll(1)
            } else if may_fall_back {
                RestartPhase::Launcher
            } else {
                RestartPhase::Failed
            },
            RestartPhase::Launcher => if worked {
                RestartPhase::Poll(1)
            } else {
                RestartPhase::Failed
            },
            RestartPhase::Poll(n) => if worked {
                RestartPhase::Started
            } else if n < MAX_POLLS {
                RestartPhase::Poll((n + 1) as u32)
            } else {
                RestartPhase::NotStarted
            },
            p => p,
        }
    }

    /// The number of operations that are left at most.
    pub open spec fn left(self) -> int {
        match self {
            RestartPhase::Stop => MAX_POLLS + 3,
            RestartPhase::Start => MAX_POLLS + 2,
            RestartPhase::Launcher => MAX_POLLS + 1,
            RestartPhase::Poll(n) => if n < MAX_POLLS {
                MAX_POLLS - n + 1
            } else {
                1
            },
            _ => 0,
        }
    }

    /// Takes in whether the operation worked.
    pub fn step(self, may_fall_back: bool, worked: bool) -> (p: RestartPhase)
        ensures
            p == self.after(may_fall_back, worked),
    {
        match self {
            RestartPhase::Stop => RestartPhase::Start,
            RestartPhase::Start => if worked {
                RestartPhase::Poll(1)
            } else if may_fall_back {
                RestartPhase::Launcher
            } else {
                RestartPhase::Failed
            },
            RestartPhase::Launcher => if worked {
                RestartPhase::Poll(1)
            } else {
                RestartPhase::Failed
            },
            RestartPhase::Poll(n) => if worked {
                RestartPhase::Started
            } else if n < MAX_POLLS {
                RestartPhase::Poll(n + 1)
            } else {
                RestartPhase::NotStarted
            },
            RestartPhase::Started => RestartPhase::Started,
            RestartPhase::Failed => RestartPhase::Failed,
            RestartPhase::NotStarted => RestartPhase::NotStarted,
        }
    }

    /// Milliseconds to wait before the operation, or before the package is used.
    pub fn pause_ms(self) -> (ms: u64)
        ensures
            ms == match self {
                RestartPhase::Start => 400int,
                RestartPhase::Poll(_) => 250,
                RestartPhase::Started => 500,
                _ => 0,
            },
    {
        match self {
            RestartPhase::Start => 400,
            RestartPhase::Poll(_) => 250,
            RestartPhase::Started => 500,
            _ => 0,
        }
    }
}

/// A restart ends, whatever the operations give.
pub proof fn law_restart_ends(p: RestartPhase, may_fall_back: bool, worked: bool)
    ensures
        p.left() > 0 ==> 0 <= p.after(may_fall_back, worked).left() < p.left(),
        p.left() <= 0 ==> p.after(may_fall_back, worked) == p,
        p.left() <= 0 <==> p is Started || p is Failed || p is NotStarted,
{
}

/// The error where the process of a package did not come up.
pub fn not_started(package: &str) -> (e: HostError)
    ensures
        e matches HostError::Msg(m) && m@ == "package did not start: "@ + package@,
{
    HostError::Msg("package did not start: ".to_owned().concat(package))
}

/// The line that shows the first message of an agent.
pub fn hello_line(h: &crate::proto::Hello) -> (s: String)
    ensures
        s@ == "agent hello: pid="@ + decimal(h.pid as nat) + " pkg="@ + h.package@ + " sdk="@
            + decimal(h.sdk_int as nat) + " abi="@ + h.abi@ + " version="@ + h.version@,
{
    let mut s = "agent hello: pid=".to_owned();
    push_decimal(&mut s, h.pid as u64);
    s.append(" pkg=");
    s.append(h.package.as_str());
    s.append(" sdk=");
    push_decimal(&mut s, h.sdk_int as u64);
    s.append(" abi=");
    s.append(h.abi.as_str());
    s.append(" version=");
    s.append(h.version.as_str());
    s
}

/// The line that shows a message of a script.
pub fn send_line(script_id: u32, payload: &str, data_len: Option<u64>) -> (s: String)
    ensures
        s@ == "send["@ + decimal(script_id as nat) + "]: "@ + payload@ + (match data_len {
            Some(n) => " (+"@ + decimal(n as nat) + " bytes)"@,
            None => Seq::empty(),
        }),
{
    let mut s = "send[".to_owned();
    push_decimal(&mut s, script_id as u64);
    s.append("]: ");
    s.append(payload);
    let ghost head = s@;
    match data_len {
        Some(n) => {
            s.append(" (+");
            push_decimal(&mut s, n);
            s.append(" bytes)");
            assert(s@ =~= head + (" (+"@ + decimal(n as nat) + " bytes)"@));
        },
        None => {
            assert(s@ =~= head + Seq::<char>::empty());
        },
    }
    s
}

/// What a listener waits for: a message with some text, and whether to go on once it came.
#[derive(Debug)]
pub struct Listener {
    pub expect: Option<String>,
    pub keep_on: bool,
}

/// What a message means to a listener.
#[derive(Debug, Clone, Copy, PartialEq, Eq, Structural)]
pub enum Heard {
    /// Not what it waits for.
    Other,
    /// What it waits for, and the end.
    Last,
    /// What it waits for; go on.
    Matched,
}

impl Listener {
    /// Takes note of a message.
    pub fn on_send(&mut self, payload: &str) -> (r: Heard)
        ensures
            final(self).keep_on == old(self).keep_on,
            match old(self).expect {
                Some(needle) => if has_part(payload@, needle@) {
                    if old(self).keep_on {
                        r is Matched && final(self).expect is None
                    } else {
                        r is Last && final(self).expect == old(self).expect
                    }
                } else {
                    r is Other && final(self).expect == old(self).expect
                },
                None => r is Other && final(self).expect is None,
            },
    {
        let hit = match &self.expect {
            Some(needle) => {
                let p = chars_of(payload);
                crate::text::contains(p.as_slice(), needle.as_str())
            },
            None => false,
        };
        if !hit {
            return Heard::Other;
        }
        if self.keep_on {
            self.expect = None;
            Heard::Matched
        } else {
            Heard::Last
        }
    }

    /// What the end of the time means: an error where the message has not come.
    pub fn on_deadline(&self) -> (r: Result<(), HostError>)
        ensures
            match r {
                Ok(_) => self.expect is None,
                Err(e) => self.expect is Some && (e matches HostError::Msg(m) && m@
                    == "timed out waiting for expected send"@),
            },
    {
        match &self.expect {
            Some(_) => Err(HostError::Msg("timed out waiting for expected send".to_owned())),
            None => Ok(()),
        }
    }
}

} // verus!
