//! Measuring messages between an agent and its host.
use crate::discover::text_view;
use crate::host::HostError;
use crate::split::{lines, lines_of, texts, words, words_of};
use crate::text::{
    chars_of, copy_chars, decimal, find_from, numeral_max, occurs_at, parse_number, push_decimal,
    spells,
};
use vstd::prelude::*;
use vstd::string::*;

verus! {

/// The string that a JSON object has for a key, as `serde_json` reads it.
pub uninterp spec fn json_text(text: Seq<char>, key: Seq<char>) -> Option<Seq<char>>;

/// The unsigned number that a JSON object has for a key, as `serde_json` reads it.
pub uninterp spec fn json_number(text: Seq<char>, key: Seq<char>) -> Option<u64>;

/// `serde_json::from_str`, `Value::get` and `Value::as_str`: the string that a JSON object has
/// for a key. Which string it is, and that there is none in a text that is no JSON object, is
/// left to the name.
#[verifier::external_body]
fn text_field(text: &str, key: &str) -> (r: Option<String>)
    ensures
        text_view(r) == json_text(text@, key@),
{
    let v: serde_json::Value = serde_json::from_str(text).ok()?;
    Some(v.get(key)?.as_str()?.to_string())
}

/// `serde_json::from_str`, `Value::get` and `Value::as_u64`: the unsigned number that a JSON
/// object has for a key. Which number it is, and that there is none in a text that is no JSON
/// object, is left to the name.
#[verifier::external_body]
fn number_field(text: &str, key: &str) -> (r: Option<u64>)
    ensures
        r == json_number(text@, key@),
{
    let v: serde_json::Value = serde_json::from_str(text).ok()?;
    v.get(key)?.as_u64()
}

/// What a message of a flood is.
#[derive(Debug, Clone, Copy, PartialEq, Eq, Structural)]
pub enum StressKind {
    Start,
    Message,
    Done,
    Other,
}

/// What a message of a flood is, by its type.
pub open spec fn kind_of(ty: Option<Seq<char>>) -> StressKind {
    match ty {
        Some(t) => if t == "stress-start"@ {
            StressKind::Start
        } else if t == "stress"@ {
            StressKind::Message
        } else if t == "stress-done"@ {
            StressKind::Done
        } else {
            StressKind::Other
        },
        None => StressKind::Other,
    }
}

/// What a message of a flood is, by its type.
pub fn stress_kind(ty: &Option<String>) -> (k: StressKind)
    ensures
        k == kind_of(text_view(*ty)),
{
    match ty {
        Some(t) => {
            let cs = chars_of(t.as_str());
            if spells(cs.as_slice(), "stress-start") {
                StressKind::Start
            } else if spells(cs.as_slice(), "stress") {
                StressKind::Message
            } else if spells(cs.as_slice(), "stress-done") {
                StressKind::Done
            } else {
                StressKind::Other
            }
        },
        None => StressKind::Other,
    }
}

/// What a message of a flood is, and its number.
pub fn stress_event(payload: &str) -> (r: (StressKind, Option<u64>))
    ensures
        r.0 == kind_of(json_text(payload@, "type"@)),
        r.1 == json_number(payload@, "n"@),
{
    let ty = text_field(payload, "type");
    (stress_kind(&ty), number_field(payload, "n"))
}

/// What came of a flood so far.
#[derive(Debug, Clone, Copy, PartialEq, Eq, Structural)]
pub struct StressCount {
    pub started: bool,
    pub done: bool,
    pub received: u64,
    pub bytes: u64,
    /// How often a message had another number than the one that was due.
    pub gaps: u64,
    /// The number that is due.
    pub next: u64,
}

impl StressCount {
    pub fn new() -> (s: StressCount)
        ensures
            s == (StressCount {
                started: false,
                done: false,
                received: 0,
                bytes: 0,
                gaps: 0,
                next: 0,
            }),
    {
        StressCount { started: false, done: false, received: 0, bytes: 0, gaps: 0, next: 0 }
    }

    /// After a message with a number and a size.
    pub open spec fn after(self, kind: StressKind, n: Option<u64>, size: u64) -> StressCount {
        match kind {
            StressKind::Start => StressCount { started: true, ..self },
            StressKind::Done => StressCount { done: true, ..self },
            StressKind::Other => self,
            StressKind::Message => StressCount {
                received: (self.received + 1) as u64,
                bytes: (self.bytes + size) as u64,
                gaps: if n is Some && n != Some(self.next) {
                    (self.gaps + 1) as u64
                } else {
                    self.gaps
                },
                next: match n {
                    Some(v) => if v == u64::MAX {
                        v
                    } else {
                        (v + 1) as u64
                    },
                    None => self.next,
                },
                ..self
            },
        }
    }

    /// Takes note of a message.
    pub fn take(&mut self, kind: StressKind, n: Option<u64>, size: u64)
        requires
            old(self).received < u64::MAX,
            old(self).gaps <= old(self).received,
            old(self).bytes + size <= u64::MAX,
        ensures
            *final(self) == old(self).after(kind, n, size),
            final(self).gaps <= final(self).received,
    {
        match kind {
            StressKind::Start => {
                self.started = true;
            },
            StressKind::Done => {
                self.done = true;
            },
            StressKind::Other => {},
            StressKind::Message => {
                self.received = self.received + 1;
                self.bytes = self.bytes + size;
                match n {
                    Some(v) => {
                        if v != self.next {
                            self.gaps = self.gaps + 1;
                        }
                        self.next = if v == u64::MAX {
                            v
                        } else {
                            v + 1
                        };
                    },
                    None => {},
                }
            },
        }
    }

    /// The error where a flood did not end in time.
    pub fn timed_out(&self) -> (e: HostError)
        ensures
            e matches HostError::Msg(m) && m@ == "timed out waiting for stress-done (recv="@
                + decimal(self.received as nat) + ", start="@ + (if self.started {
                "true"@
            } else {
                "false"@
            }) + ")"@,
    {
        let mut s = "timed out waiting for stress-done (recv=".to_owned();
        push_decimal(&mut s, self.received);
        s.append(", start=");
        if self.started {
            s.append("true");
        } else {
            s.append("false");
        }
        s.append(")");
        HostError::Msg(s)
    }

    /// Whether a flood of so many messages came through: all of them, in order, and the process
    /// is alive.
    pub fn verdict(&self, count: u64, alive: bool) -> (r: Result<(), HostError>)
        ensures
            match r {
                Ok(_) => self.gaps == 0 && self.received == count && alive,
                Err(e) => e matches HostError::Msg(m) && if self.gaps > 0 || self.received != count {
                    m@ == "stress incomplete or reordered (recv="@ + decimal(self.received as nat)
                        + " count="@ + decimal(count as nat) + " gaps="@ + decimal(self.gaps as nat)
                        + ")"@
                } else {
                    !alive && m@ == "target process died during stress"@
                },
            },
    {
        if self.gaps > 0 || self.received != count {
            let mut s = "stress incomplete or reordered (recv=".to_owned();
            push_decimal(&mut s, self.received);
            s.append(" count=");
            push_decimal(&mut s, count);
            s.append(" gaps=");
            push_decimal(&mut s, self.gaps);
            s.append(")");
            return Err(HostError::Msg(s));
        }
        if !alive {
            return Err(HostError::Msg("target process died during stress".to_owned()));
        }
        Ok(())
    }
}

/// After some numbered messages.
pub open spec fn after_all(s: StressCount, numbers: Seq<u64>) -> StressCount
    decreases numbers.len(),
{
    if numbers.len() == 0 {
        s
    } else {
        after_all(s, numbers.drop_last()).after(StressKind::Message, Some(numbers.last()), 0)
    }
}

/// A flood has no gaps exactly where its messages are numbered from the one that was due,
/// without any missing, twice or out of order.
pub proof fn law_no_gaps_iff_in_order(s: StressCount, numbers: Seq<u64>)
    requires
        s.gaps == 0,
        s.received + numbers.len() < u64::MAX,
        s.next + numbers.len() < u64::MAX,
    ensures
        after_all(s, numbers).received == s.received + numbers.len(),
        after_all(s, numbers).gaps <= numbers.len(),
        after_all(s, numbers).gaps == 0 <==> (forall|i: int|
            0 <= i < numbers.len() ==> #[trigger] numbers[i] == s.next + i),
        after_all(s, numbers).gaps == 0 ==> after_all(s, numbers).next == s.next + numbers.len(),
    decreases numbers.len(),
{
    if numbers.len() > 0 {
        let front = numbers.drop_last();
        law_no_gaps_iff_in_order(s, front);
        let t = after_all(s, front);
        let k = numbers.len() - 1;
        if after_all(s, numbers).gaps == 0 {
            assert(t.gaps == 0);
            assert forall|i: int| 0 <= i < numbers.len() implies #[trigger] numbers[i] == s.next
                + i by {
                if i < k {
                    assert(front[i] == numbers[i]);
                }
            }
        }
        if forall|i: int| 0 <= i < numbers.len() ==> #[trigger] numbers[i] == s.next + i {
            assert forall|i: int| 0 <= i < front.len() implies #[trigger] front[i] == s.next + i by {
                assert(front[i] == numbers[i]);
            }
            assert(numbers[k] == s.next + k);
        }
    }
}

/// The line that shows how many messages of a flood came.
pub fn messages_line(s: &StressCount, count: u64) -> (l: String)
    ensures
        l@ == "messages:     "@ + decimal(s.received as nat) + "/"@ + decimal(count as nat)
            + "  seq_gaps="@ + decimal(s.gaps as nat),
{
    let mut l = "messages:     ".to_owned();
    push_decimal(&mut l, s.received);
    l.append("/");
    push_decimal(&mut l, count);
    l.append("  seq_gaps=");
    push_decimal(&mut l, s.gaps);
    l
}

/// The line that shows whether the process is alive.
pub fn process_line(pid: u32, alive: bool) -> (l: String)
    ensures
        l@ == "process:      pid="@ + decimal(pid as nat) + " alive="@ + (if alive {
            "true"@
        } else {
            "false"@
        }),
{
    let mut l = "process:      pid=".to_owned();
    push_decimal(&mut l, pid as u64);
    l.append(" alive=");
    if alive {
        l.append("true");
    } else {
        l.append("false");
    }
    l
}

/// What a message of a two-way run is.
#[derive(Debug, Clone, Copy, PartialEq, Eq, Structural)]
pub enum CommKind {
    Ready,
    Failure,
    Ping,
    Done,
    Other,
}

/// What a message of a two-way run is, by its type.
pub open spec fn comm_of(ty: Option<Seq<char>>) -> CommKind {
    match ty {
        Some(t) => if t == "comm-ready"@ {
            CommKind::Ready
        } else if t == "comm-err"@ {
            CommKind::Failure
        } else if t == "ping"@ {
            CommKind::Ping
        } else if t == "comm-done"@ {
            CommKind::Done
        } else {
            CommKind::Other
        },
        None => CommKind::Other,
    }
}

/// What a message of a two-way run is, by its type.
pub fn comm_kind(ty: &Option<String>) -> (k: CommKind)
    ensures
        k == comm_of(text_view(*ty)),
{
    match ty {
        Some(t) => {
            let cs = chars_of(t.as_str());
            if spells(cs.as_slice(), "comm-ready") {
                CommKind::Ready
            } else if spells(cs.as_slice(), "comm-err") {
                CommKind::Failure
            } else if spells(cs.as_slice(), "ping") {
                CommKind::Ping
            } else if spells(cs.as_slice(), "comm-done") {
                CommKind::Done
            } else {
                CommKind::Other
            }
        },
        None => CommKind::Other,
    }
}

/// What a message of a two-way run is, and its number; zero where it has none.
pub fn comm_event(payload: &str) -> (r: (CommKind, u64))
    ensures
        r.0 == comm_of(json_text(payload@, "type"@)),
        r.1 == match json_number(payload@, "n"@) {
            Some(n) => n,
            None => 0,
        },
{
    let ty = text_field(payload, "type");
    let n: u64 = match number_field(payload, "n") {
        Some(n) => n,
        None => 0,
    };
    (comm_kind(&ty), n)
}

/// The answer to a ping.
pub fn pong_json(n: u64) -> (s: String)
    ensures
        s@ == "{\"n\":"@ + decimal(n as nat) + ",\"type\":\"pong\"}"@,
{
    let mut s = "{\"n\":".to_owned();
    push_decimal(&mut s, n);
    s.append(",\"type\":\"pong\"}");
    s
}

/// What came of a two-way run so far. Times are in microseconds.
#[derive(Debug)]
pub struct CommCount {
    pub rounds: u64,
    pub bytes: u64,
    /// How long each round took.
    pub times: Vec<u64>,
    /// When the last ping was answered, until the next one comes.
    pub pending: Option<u64>,
    pub done: bool,
}

impl CommCount {
    /// Whether every round but the pending one has its time.
    pub open spec fn wf(&self) -> bool {
        self.rounds == self.times@.len() + if self.pending is Some {
            1int
        } else {
            0
        }
    }

    pub fn new() -> (c: CommCount)
        ensures
            c.rounds == 0,
            c.bytes == 0,
            c.times@ == Seq::<u64>::empty(),
            c.pending is None,
            !c.done,
            c.wf(),
    {
        CommCount { rounds: 0, bytes: 0, times: Vec::new(), pending: None, done: false }
    }

    fn settle(&mut self, now: u64)
        ensures
            final(self).rounds == old(self).rounds,
            final(self).bytes == old(self).bytes,
            final(self).done == old(self).done,
            final(self).pending is None,
            final(self).times@ == settled(old(self).times@, old(self).pending, now),
    {
        match self.pending {
            Some(t0) => {
                self.times.push(
                    if now >= t0 {
                        now - t0
                    } else {
                        0
                    },
                );
            },
            None => {},
        }
        self.pending = None;
    }

    /// Takes note of a ping of some size at a time, which is answered at once.
    pub fn on_ping(&mut self, now: u64, size: u64)
        requires
            old(self).wf(),
            old(self).rounds < u64::MAX,
            old(self).bytes + size <= u64::MAX,
        ensures
            final(self).wf(),
            final(self).rounds == old(self).rounds + 1,
            final(self).bytes == old(self).bytes + size,
            final(self).done == old(self).done,
            final(self).pending == Some(now),
            final(self).times@ == settled(old(self).times@, old(self).pending, now),
    {
        self.settle(now);
        self.pending = Some(now);
        self.rounds = self.rounds + 1;
        self.bytes = self.bytes + size;
    }

    /// Takes note of the end of the run.
    pub fn on_done(&mut self, now: u64)
        requires
            old(self).wf(),
        ensures
            final(self).wf(),
            final(self).rounds == old(self).rounds,
            final(self).bytes == old(self).bytes,
            final(self).done,
            final(self).pending is None,
            final(self).times@ == settled(old(self).times@, old(self).pending, now),
            final(self).times@.len() == final(self).rounds,
    {
        self.settle(now);
        self.done = true;
    }

    /// The error where a run did not end in time.
    pub fn timed_out(&self) -> (e: HostError)
        ensures
            e matches HostError::Msg(m) && m@ == "timed out waiting for comm-done (rounds="@
                + decimal(self.rounds as nat) + ")"@,
    {
        let mut s = "timed out waiting for comm-done (rounds=".to_owned();
        push_decimal(&mut s, self.rounds);
        s.append(")");
        HostError::Msg(s)
    }

    /// Whether a run came through: the process is alive, all rounds were made, and all calls
    /// were answered.
    pub fn verdict(&self, count: u64, answered: u64, calls: u64, alive: bool) -> (r: Result<
        (),
        HostError,
    >)
        ensures
            match r {
                Ok(_) => alive && self.rounds == count && answered == calls,
                Err(e) => e matches HostError::Msg(m) && if !alive {
                    m@ == "target process died during frida-comm stress"@
                } else if self.rounds != count {
                    m@ == "ping/pong incomplete (rounds="@ + decimal(self.rounds as nat)
                        + " count="@ + decimal(count as nat) + ")"@
                } else {
                    answered != calls && m@ == "rpc incomplete"@
                },
            },
    {
        if !alive {
            return Err(
                HostError::Msg("target process died during frida-comm stress".to_owned()),
            );
        }
        if self.rounds != count {
            let mut s = "ping/pong incomplete (rounds=".to_owned();
            push_decimal(&mut s, self.rounds);
            s.append(" count=");
            push_decimal(&mut s, count);
            s.append(")");
            return Err(HostError::Msg(s));
        }
        if answered != calls {
            return Err(HostError::Msg("rpc incomplete".to_owned()));
        }
        Ok(())
    }
}

/// The times with that of the pending round, where there is one.
pub open spec fn settled(times: Seq<u64>, pending: Option<u64>, now: u64) -> Seq<u64> {
    match pending {
        Some(t0) => times.push(
            if now >= t0 {
                (now - t0) as u64
            } else {
                0
            },
        ),
        None => times,
    }
}

/// The function and the arguments of the `i`th call of a run: sums and echoes in turn.
pub open spec fn rpc_text(i: u64) -> (Seq<char>, Seq<char>) {
    if i % 2 == 0 {
        ("add"@, "["@ + decimal(i as nat) + ","@ + decimal((i + 1) as nat) + "]"@)
    } else {
        ("echo"@, "[\"echo-"@ + decimal(i as nat) + "\"]"@)
    }
}

/// The function and the arguments of the `i`th call of a run.
pub fn rpc_request(i: u64) -> (r: (String, String))
    requires
        i < u64::MAX,
    ensures
        r.0@ == rpc_text(i).0,
        r.1@ == rpc_text(i).1,
{
    if i % 2 == 0 {
        let mut s = "[".to_owned();
        push_decimal(&mut s, i);
        s.append(",");
        push_decimal(&mut s, i + 1);
        s.append("]");
        ("add".to_owned(), s)
    } else {
        let mut s = "[\"echo-".to_owned();
        push_decimal(&mut s, i);
        s.append("\"]");
        ("echo".to_owned(), s)
    }
}

/// Microseconds in which a call has to be answered.
pub const REPLY_MICROS: u64 = 5_000_000;

/// Calls that are made in turn: how many there are, how many were answered and in what time, when
/// the one that waits was made, and until when it may wait.
#[derive(Debug)]
pub struct RpcRun {
    pub total: u64,
    pub answered: u64,
    pub times: Vec<u64>,
    pub began: u64,
    pub deadline: u64,
}

impl RpcRun {
    pub open spec fn wf(self) -> bool {
        self.times@.len() == self.answered && self.answered <= self.total
    }

    pub fn new(total: u64) -> (r: RpcRun)
        ensures
            r.wf(),
            r.total == total,
            r.answered == 0,
            r.times@.len() == 0,
    {
        RpcRun { total, answered: 0, times: Vec::new(), began: 0, deadline: 0 }
    }

    /// The next call, made at a time: its number, function and arguments. `None` once all were
    /// answered.
    pub fn request(&mut self, now: u64) -> (r: Option<(u32, String, String)>)
        requires
            old(self).wf(),
            old(self).answered < old(self).total ==> old(self).answered % 0x1_0000_0000
                < 0xffff_ffff,
        ensures
            final(self).wf(),
            final(self).total == old(self).total,
            final(self).answered == old(self).answered,
            final(self).times@ == old(self).times@,
            final(self).deadline == old(self).deadline,
            match r {
                Some((id, f, args)) => old(self).answered < old(self).total && id == old(
                    self,
                ).answered % 0x1_0000_0000 + 1 && (f@, args@) == rpc_text(old(self).answered)
                    && final(self).began == now,
                None => old(self).answered == old(self).total && final(self).began == old(
                    self,
                ).began,
            },
    {
        if self.answered >= self.total {
            return None;
        }
        let (f, args) = rpc_request(self.answered);
        let id: u32 = (self.answered % 0x1_0000_0000) as u32 + 1;
        self.began = now;
        Some((id, f, args))
    }

    /// Takes note that the call was sent at a time.
    pub fn sent(&mut self, now: u64)
        ensures
            final(self).deadline == if now + REPLY_MICROS <= u64::MAX {
                now + REPLY_MICROS
            } else {
                u64::MAX as int
            },
            final(self).total == old(self).total,
            final(self).answered == old(self).answered,
            final(self).times@ == old(self).times@,
            final(self).began == old(self).began,
    {
        self.deadline = if now <= u64::MAX - REPLY_MICROS {
            now + REPLY_MICROS
        } else {
            u64::MAX
        };
    }

    /// Whether the call may still wait for its reply at a time.
    pub fn waits(&self, now: u64) -> (r: Result<(), HostError>)
        requires
            self.answered < self.total,
        ensures
            match r {
                Ok(_) => now <= self.deadline,
                Err(e) => now > self.deadline && (e matches HostError::Msg(m) && m@
                    == "rpc reply timeout call_id="@ + decimal((self.answered + 1) as nat)),
            },
    {
        if now > self.deadline {
            let mut s = "rpc reply timeout call_id=".to_owned();
            push_decimal(&mut s, self.answered + 1);
            return Err(HostError::Msg(s));
        }
        Ok(())
    }

    /// Takes in a reply at a time; one with an error does not count.
    pub fn on_reply(&mut self, failed: bool, now: u64) -> (r: bool)
        requires
            old(self).wf(),
            old(self).answered < old(self).total,
        ensures
            final(self).wf(),
            final(self).total == old(self).total,
            final(self).began == old(self).began,
            final(self).deadline == old(self).deadline,
            r == !failed,
            final(self).answered == if failed {
                old(self).answered as int
            } else {
                old(self).answered + 1
            },
            final(self).times@ == if failed {
                old(self).times@
            } else {
                settled(old(self).times@, Some(old(self).began), now)
            },
    {
        if failed {
            return false;
        }
        let took: u64 = if now >= self.began {
            now - self.began
        } else {
            0
        };
        self.times.push(took);
        self.answered = self.answered + 1;
        true
    }
}

/// The first place at or after `from` where `p` occurs.
pub open spec fn part_place(s: Seq<char>, p: Seq<char>, from: int) -> Option<int>
    decreases s.len() + 1 - from,
{
    if from > s.len() {
        None
    } else if occurs_at(s, p, from) {
        Some(from)
    } else {
        part_place(s, p, from + 1)
    }
}

proof fn lemma_part_place(s: Seq<char>, p: Seq<char>, from: int, at: Option<int>)
    requires
        0 <= from,
        match at {
            Some(k) => from <= k && occurs_at(s, p, k) && forall|j: int|
                from <= j < k ==> !occurs_at(s, p, j),
            None => forall|j: int| from <= j ==> !occurs_at(s, p, j),
        },
    ensures
        part_place(s, p, from) == at,
    decreases s.len() + 1 - from,
{
    if from <= s.len() && !occurs_at(s, p, from) {
        lemma_part_place(s, p, from + 1, at);
    }
}

fn find_part(s: &Vec<char>, p: &str) -> (r: Option<usize>)
    ensures
        match r {
            Some(k) => part_place(s@, p@, 0) == Some(k as int) && k + p@.len() <= s@.len(),
            None => part_place(s@, p@, 0) is None,
        },
{
    let pv = chars_of(p);
    let r = find_from(s.as_slice(), pv.as_slice(), 0);
    proof {
        lemma_part_place(
            s@,
            p@,
            0,
            match r {
                Some(k) => Some(k as int),
                None => None,
            },
        );
    }
    r
}

/// The time in a line of the sample's log: the number behind ` t=`, after `apk-tick `.
pub open spec fn tick_of(line: Seq<char>) -> Option<u64> {
    match part_place(line, "apk-tick "@, 0) {
        None => None,
        Some(at) => {
            let rest = line.skip(at);
            match part_place(rest, " t="@, 0) {
                None => None,
                Some(t) => {
                    let ws = words_of(rest.skip(t + 3));
                    if ws.len() == 0 {
                        None
                    } else {
                        match numeral_max(ws[0], 10, u64::MAX as nat) {
                            Some(v) => Some(v as u64),
                            None => None,
                        }
                    }
                },
            }
        },
    }
}

/// The times in the lines of a log.
pub open spec fn ticks_of(ls: Seq<Seq<char>>) -> Seq<u64>
    decreases ls.len(),
{
    if ls.len() == 0 {
        Seq::empty()
    } else {
        match tick_of(ls.last()) {
            Some(t) => ticks_of(ls.drop_last()).push(t),
            None => ticks_of(ls.drop_last()),
        }
    }
}

fn read_tick(line: &Vec<char>) -> (r: Option<u64>)
    ensures
        r == tick_of(line@),
{
    match find_part(line, "apk-tick ") {
        None => None,
        Some(at) => {
            let rest = copy_chars(line.as_slice(), at, line.len());
            assert(rest@ =~= line@.skip(at as int));
            match find_part(&rest, " t=") {
                None => None,
                Some(t) => {
                    proof {
                        reveal_strlit(" t=");
                    }
                    let tail = copy_chars(rest.as_slice(), t + 3, rest.len());
                    assert(tail@ =~= rest@.skip(t + 3));
                    let ws = words(tail.as_slice());
                    if ws.len() == 0 {
                        return None;
                    }
                    assert(texts(ws@)[0] == ws@[0]@);
                    parse_number(ws[0].as_slice(), 10, u64::MAX)
                },
            }
        },
    }
}

/// The times in a log.
pub fn sample_apk_ticks(log: &str) -> (times: Vec<u64>)
    ensures
        times@ == ticks_of(lines_of(log@)),
{
    let cs = chars_of(log);
    let ls = lines(cs.as_slice());
    let ghost all = lines_of(log@);
    let mut times: Vec<u64> = Vec::new();
    let mut i: usize = 0;
    assert(all.take(0) =~= Seq::<Seq<char>>::empty());
    while i < ls.len()
        invariant
            i <= ls@.len(),
            texts(ls@) == all,
            times@ == ticks_of(all.take(i as int)),
        decreases ls@.len() - i,
    {
        assert(texts(ls@)[i as int] == ls@[i as int]@);
        assert(all.take(i + 1).drop_last() =~= all.take(i as int));
        match read_tick(&ls[i]) {
            Some(t) => {
                times.push(t);
            },
            None => {},
        }
        i = i + 1;
    }
    assert(all.take(i as int) =~= all);
    times
}

/// The steps between times that grow.
pub open spec fn steps_of(times: Seq<u64>) -> Seq<u64>
    decreases times.len(),
{
    if times.len() < 2 {
        Seq::empty()
    } else {
        let a = times[times.len() - 2];
        let b = times.last();
        if b > a {
            steps_of(times.drop_last()).push((b - a) as u64)
        } else {
            steps_of(times.drop_last())
        }
    }
}

/// The last forty-one of a list, or all of it.
pub open spec fn recent(times: Seq<u64>) -> Seq<u64> {
    if times.len() <= 41 {
        times
    } else {
        times.skip(times.len() - 41)
    }
}

/// The steps between the last times of a log that grow.
pub fn tick_steps(times: &Vec<u64>) -> (steps: Vec<u64>)
    ensures
        steps@ == steps_of(recent(times@)),
{
    let n: usize = times.len();
    let start: usize = if n <= 41 {
        0
    } else {
        n - 41
    };
    let ghost last = recent(times@);
    assert(last =~= times@.skip(start as int));
    let mut steps: Vec<u64> = Vec::new();
    let mut i: usize = start;
    assert(last.take(0) =~= Seq::<u64>::empty());
    while i < n
        invariant
            start <= i <= n,
            n == times@.len(),
            last == times@.skip(start as int),
            steps@ == steps_of(last.take(i - start)),
        decreases n - i,
    {
        let ghost now = last.take(i + 1 - start);
        assert(now.drop_last() =~= last.take(i - start));
        if i > start {
            let a: u64 = times[i - 1];
            let b: u64 = times[i];
            assert(now[now.len() - 2] == a);
            assert(now.last() == b);
            if b > a {
                steps.push(b - a);
            }
        }
        i = i + 1;
    }
    assert(last.take(i - start) =~= last);
    steps
}

} // verus!
