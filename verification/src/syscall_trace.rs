//! Following the system calls of a process.
use crate::remote::{
    exited, is_death, is_exit, is_stop, signal_of, signaled, stop_signal, stopped, TraceeError,
};
use crate::syscall_names::{call_name, syscall_name};
use crate::text::{
    chars_of, contains, has_part, lowered, push_signed, signed_decimal, string_of,
    to_lower, views,
};
use std::collections::HashMap;
use vstd::prelude::*;
use vstd::string::*;

verus! {

broadcast use vstd::std_specs::hash::group_hash_axioms;

#[derive(Debug)]
pub struct SyscallTraceOptions {
    /// Stop after this many calls; zero for no limit.
    pub max_events: u64,
    /// Seconds to trace; `None` for no limit.
    pub duration: Option<u64>,
    /// Calls to report, by parts of their names; all of them where there are none.
    pub filter: Vec<String>,
    /// Report calls when they are made, not when they return.
    pub enter_only: bool,
}

impl Default for SyscallTraceOptions {
    fn default() -> (o: SyscallTraceOptions)
        ensures
            o.max_events == 0,
            o.duration == Some(15u64),
            o.filter@.len() == 0,
            !o.enter_only,
    {
        SyscallTraceOptions {
            max_events: 0,
            duration: Some(15),
            filter: Vec::new(),
            enter_only: false,
        }
    }
}

/// Follows the system calls of a process. Off the device there is none to follow.
pub fn trace_syscalls(pid: i32, opts: &SyscallTraceOptions) -> (r: Result<u64, TraceeError>)
    ensures
        r is Err,
        r->Err_0 is Unsupported,
{
    Err(TraceeError::Unsupported)
}

/// A call that was made and has not returned.
#[derive(Debug, Clone, Copy, PartialEq, Eq)]
pub struct Pending {
    pub nr: u64,
    pub args: [u64; 6],
}

/// The state of a trace.
pub struct Tracer {
    max_events: u64,
    enter_only: bool,
    filter: Vec<String>,
    pending: HashMap<i32, Pending>,
    events: u64,
    attached: Vec<i32>,
}

/// The state of a trace, as contracts speak of it: its limits, the calls that have not
/// returned by thread, the number of calls that counted, and the threads.
#[verifier::ext_equal]
pub struct TracerState {
    pub max_events: u64,
    pub enter_only: bool,
    pub filter: Seq<Seq<char>>,
    pub pending: Map<i32, Pending>,
    pub events: u64,
    pub attached: Seq<i32>,
}

impl View for Tracer {
    type V = TracerState;

    closed spec fn view(&self) -> TracerState {
        TracerState {
            max_events: self.max_events,
            enter_only: self.enter_only,
            filter: views(self.filter@),
            pending: self.pending@,
            events: self.events,
            attached: self.attached@,
        }
    }
}

/// The threads of a list other than one.
pub open spec fn others(s: Seq<i32>, tid: i32) -> Seq<i32>
    decreases s.len(),
{
    if s.len() == 0 {
        s
    } else if s.last() != tid {
        others(s.drop_last(), tid).push(s.last())
    } else {
        others(s.drop_last(), tid)
    }
}

impl TracerState {
    /// The state with a thread among its threads.
    pub open spec fn with_thread(self, tid: i32) -> TracerState {
        if self.attached.contains(tid) {
            self
        } else {
            TracerState { attached: self.attached.push(tid), ..self }
        }
    }

    /// The state without a thread.
    pub open spec fn without_thread(self, tid: i32) -> TracerState {
        TracerState {
            attached: others(self.attached, tid),
            pending: self.pending.remove(tid),
            ..self
        }
    }

    /// Whether a call is reported, by its name.
    pub open spec fn passes(self, name: Seq<char>) -> bool {
        self.filter.len() == 0 || exists|i: int|
            0 <= i < self.filter.len() && has_part(name, #[trigger] self.filter[i])
    }

    /// The state after a thread stopped at a system call with some registers: the call that it
    /// made has returned, or it makes one.
    pub open spec fn at_call(self, tid: i32, x: Seq<u64>) -> TracerState {
        if self.pending.dom().contains(tid) {
            TracerState { pending: self.pending.remove(tid), ..self }
        } else {
            TracerState {
                events: if self.passes(call_name(x[8])) {
                    (self.events + 1) as u64
                } else {
                    self.events
                },
                pending: self.pending.insert(tid, made_call(x)),
                ..self
            }
        }
    }

    /// Whether the trace is over.
    pub open spec fn is_over(self, late: bool) -> bool {
        late || (self.max_events > 0 && self.events >= self.max_events)
    }

    /// Whether no thread is listed twice.
    pub open spec fn wf(self) -> bool {
        self.attached.no_duplicates()
    }
}

/// The call that a thread makes, by its registers.
pub open spec fn made_call(x: Seq<u64>) -> Pending {
    Pending { nr: x[8], args: [x[0], x[1], x[2], x[3], x[4], x[5]] }
}

/// What to do with a thread that a wait named.
#[derive(Debug, Clone, Copy, PartialEq, Eq, Structural)]
pub enum Wake {
    /// It is gone.
    Gone,
    /// Let it go on to the next call.
    Resume,
    /// It made a new thread: take that one in, and let both go on.
    NewThread,
    /// Hand it a signal.
    Deliver(i32),
    /// It stands at a system call.
    AtCall,
}

/// What to do with a thread, by its wait status.
pub open spec fn wake_of(status: i32) -> Wake {
    let event = (status as u32) / 0x1_0000;
    if is_exit(status) || is_death(status) {
        Wake::Gone
    } else if !is_stop(status) {
        Wake::Resume
    } else if event == 1 || event == 2 || event == 3 {
        Wake::NewThread
    } else if stop_signal(status) != 0x85 && stop_signal(status) != 5 {
        Wake::Deliver(stop_signal(status))
    } else {
        Wake::AtCall
    }
}

/// What a wait for any thread came to.
#[derive(Debug)]
pub enum AnyWait {
    Thread(i32, i32),
    /// No thread is left, or the time is up.
    Over,
    Failed(TraceeError),
    /// Wait a little and ask again.
    Again,
}

/// The error number where there is no process to wait for.
pub const NO_CHILD: i32 = 10;

/// What the answer of a wait for any thread means, with the error number and its text where
/// the answer is negative.
pub fn wait_any(tid: i32, status: i32, errno: i32, error: String, late: bool) -> (r: AnyWait)
    ensures
        match r {
            AnyWait::Thread(t, s) => tid > 0 && t == tid && s == status,
            AnyWait::Over => (tid < 0 && errno == NO_CHILD) || (tid == 0 && late),
            AnyWait::Failed(e) => tid < 0 && errno != NO_CHILD && (e matches TraceeError::Wait(m)
                && m == error),
            AnyWait::Again => tid == 0 && !late,
        },
{
    if tid > 0 {
        return AnyWait::Thread(tid, status);
    }
    if tid < 0 {
        if errno == NO_CHILD {
            return AnyWait::Over;
        }
        return AnyWait::Failed(TraceeError::Wait(error));
    }
    if late {
        return AnyWait::Over;
    }
    AnyWait::Again
}

/// A call to report.
#[derive(Debug)]
pub struct Report {
    pub tid: i32,
    pub name: String,
    pub args: [u64; 6],
    /// What the call returned; `None` where it is just being made.
    pub retval: Option<i64>,
}

/// `x` read as a signed number.
pub open spec fn signed64(x: u64) -> int {
    if x <= 0x7fff_ffff_ffff_ffff {
        x as int
    } else {
        x - 0x1_0000_0000_0000_0000
    }
}

/// `x` read as a signed number.
pub fn as_signed64(x: u64) -> (r: i64)
    ensures
        r == signed64(x),
{
    if x <= 0x7fff_ffff_ffff_ffff {
        x as i64
    } else {
        -((u64::MAX - x) as i64) - 1
    }
}

/// `x` read as an unsigned number.
pub fn as_unsigned64(x: i64) -> (r: u64)
    ensures
        signed64(r) == x,
{
    if x >= 0 {
        x as u64
    } else {
        u64::MAX - (-(x + 1)) as u64
    }
}

fn lowered_all(filter: &Vec<String>) -> (out: Vec<String>)
    ensures
        views(out@) == views(filter@).map_values(|s: Seq<char>| lowered(s)),
{
    let mut out: Vec<String> = Vec::new();
    let mut i: usize = 0;
    let ghost want = views(filter@).map_values(|s: Seq<char>| lowered(s));
    assert(views(out@) =~= want.take(0));
    while i < filter.len()
        invariant
            i <= filter@.len(),
            want == views(filter@).map_values(|s: Seq<char>| lowered(s)),
            views(out@) == want.take(i as int),
        decreases filter@.len() - i,
    {
        let cs = chars_of(filter[i].as_str());
        let low = to_lower(cs.as_slice());
        let s = string_of(low.as_slice());
        let ghost before = out@;
        out.push(s);
        i = i + 1;
        assert(s@ == want[i - 1]);
        assert(views(out@) =~= views(before).push(s@));
        assert(views(out@) =~= want.take(i as int));
    }
    assert(want.take(i as int) =~= want);
    out
}

impl Tracer {
    /// A trace of some threads.
    pub fn new(opts: &SyscallTraceOptions, tids: &Vec<i32>) -> (t: Tracer)
        ensures
            t@ == (TracerState {
                max_events: opts.max_events,
                enter_only: opts.enter_only,
                filter: views(opts.filter@).map_values(|s: Seq<char>| lowered(s)),
                pending: Map::empty(),
                events: 0,
                attached: tids@,
            }),
    {
        let filter = lowered_all(&opts.filter);
        let attached = tids.clone();
        assert(attached@ =~= tids@);
        let t = Tracer {
            max_events: opts.max_events,
            enter_only: opts.enter_only,
            filter,
            pending: HashMap::new(),
            events: 0,
            attached,
        };
        assert(t@.pending =~= Map::empty());
        t
    }

    /// Whether the trace is over.
    pub fn finished(&self, late: bool) -> (r: bool)
        ensures
            r == self@.is_over(late),
    {
        late || (self.max_events > 0 && self.events >= self.max_events)
    }

    /// How many calls counted.
    pub fn events(&self) -> (n: u64)
        ensures
            n == self@.events,
    {
        self.events
    }

    /// The threads of the trace.
    pub fn threads(&self) -> (tids: &Vec<i32>)
        ensures
            tids@ == self@.attached,
    {
        &self.attached
    }

    fn holds(&self, tid: i32) -> (r: bool)
        ensures
            r == self@.attached.contains(tid),
    {
        let mut i: usize = 0;
        while i < self.attached.len()
            invariant
                i <= self.attached@.len(),
                forall|j: int| 0 <= j < i ==> self.attached@[j] != tid,
            decreases self.attached@.len() - i,
        {
            if self.attached[i] == tid {
                return true;
            }
            i = i + 1;
        }
        false
    }

    /// Takes a thread in.
    pub fn on_new_thread(&mut self, tid: i32)
        ensures
            final(self)@ == old(self)@.with_thread(tid),
    {
        if !self.holds(tid) {
            self.attached.push(tid);
        }
    }

    fn drop_thread(&mut self, tid: i32)
        ensures
            final(self)@ == old(self)@.without_thread(tid),
    {
        let mut left: Vec<i32> = Vec::new();
        let mut i: usize = 0;
        let ghost all = self.attached@;
        assert(others(all.take(0), tid) =~= Seq::<i32>::empty());
        while i < self.attached.len()
            invariant
                i <= self.attached@.len(),
                all == self.attached@,
                left@ == others(all.take(i as int), tid),
            decreases self.attached@.len() - i,
        {
            assert(all.take(i + 1).drop_last() =~= all.take(i as int));
            if self.attached[i] != tid {
                left.push(self.attached[i]);
            }
            i = i + 1;
        }
        assert(all.take(i as int) =~= all);
        self.attached = left;
        self.pending.remove(&tid);
        assert(self@ =~= old(self)@.without_thread(tid));
    }

    /// Takes note of a thread that a wait named, and says what to do with it.
    pub fn on_wait(&mut self, tid: i32, status: i32) -> (w: Wake)
        ensures
            w == wake_of(status),
            final(self)@ == if w is Gone {
                old(self)@.with_thread(tid).without_thread(tid)
            } else {
                old(self)@.with_thread(tid)
            },
    {
        self.on_new_thread(tid);
        if exited(status) || signaled(status) {
            self.drop_thread(tid);
            return Wake::Gone;
        }
        if !stopped(status) {
            return Wake::Resume;
        }
        let event: u32 = (status as u32) / 0x1_0000;
        if event == 1 || event == 2 || event == 3 {
            return Wake::NewThread;
        }
        let sig: i32 = signal_of(status);
        if sig != 0x85 && sig != 5 {
            return Wake::Deliver(sig);
        }
        Wake::AtCall
    }

    fn passes(&self, name: &str) -> (r: bool)
        ensures
            r == self@.passes(name@),
    {
        if self.filter.is_empty() {
            return true;
        }
        let cs = chars_of(name);
        let mut i: usize = 0;
        while i < self.filter.len()
            invariant
                i <= self.filter@.len(),
                cs@ == name@,
                self@.filter == views(self.filter@),
                forall|j: int| 0 <= j < i ==> !has_part(name@, #[trigger] self@.filter[j]),
            decreases self.filter@.len() - i,
        {
            assert(self@.filter[i as int] == self.filter@[i as int]@);
            if contains(cs.as_slice(), self.filter[i].as_str()) {
                assert(has_part(name@, self@.filter[i as int]));
                return true;
            }
            i = i + 1;
        }
        false
    }

    /// Takes note of a thread at a system call, and says what to report. A call is reported
    /// when it returns, or when it is made where only that is asked for.
    pub fn on_call(&mut self, tid: i32, x: &[u64; 31]) -> (r: Option<Report>)
        requires
            old(self)@.events < u64::MAX,
        ensures
            final(self)@ == old(self)@.at_call(tid, x@),
            ({
                let back = old(self)@.pending.dom().contains(tid);
                let call = if back {
                    old(self)@.pending[tid]
                } else {
                    made_call(x@)
                };
                match r {
                    Some(p) => back == !old(self)@.enter_only && old(self)@.passes(
                        call_name(call.nr),
                    ) && p.tid == tid && p.name@ == call_name(call.nr) && p.args == call.args && (
                    if back {
                        p.retval matches Some(v) && v == signed64(x@[0])
                    } else {
                        p.retval is None
                    }),
                    None => back == old(self)@.enter_only || !old(self)@.passes(
                        call_name(call.nr),
                    ),
                }
            }),
    {
        let found: Option<Pending> = match self.pending.get(&tid) {
            Some(p) => Some(*p),
            None => None,
        };
        match found {
            Some(call) => {
                self.pending.remove(&tid);
                assert(self@ =~= old(self)@.at_call(tid, x@));
                assert(self@.filter == old(self)@.filter);
                if !self.enter_only {
                    let name = syscall_name(call.nr);
                    if self.passes(name.as_str()) {
                        return Some(
                            Report {
                                tid,
                                name,
                                args: call.args,
                                retval: Some(as_signed64(x[0])),
                            },
                        );
                    }
                }
                None
            },
            None => {
                let nr: u64 = x[8];
                let name = syscall_name(nr);
                let args: [u64; 6] = [x[0], x[1], x[2], x[3], x[4], x[5]];
                let call = Pending { nr, args };
                assert(call == made_call(x@));
                let pass = self.passes(name.as_str());
                if pass {
                    self.events = self.events + 1;
                }
                self.pending.insert(tid, call);
                assert(self@ =~= old(self)@.at_call(tid, x@));
                if pass && self.enter_only {
                    return Some(Report { tid, name, args, retval: None });
                }
                None
            },
        }
    }
}

/// The line of a report, given the text of its call.
pub fn report_line(tid: i32, call: &str, retval: Option<i64>) -> (s: String)
    ensures
        s@ == match retval {
            Some(v) => "["@ + signed_decimal(tid as int) + "] "@ + call@ + " = "@
                + crate::remote::hex_of(unsigned_of(v)),
            None => "["@ + signed_decimal(tid as int) + "] \u{2192} "@ + call@,
        },
{
    let mut s = "[".to_owned();
    push_signed(&mut s, tid as i64);
    match retval {
        Some(v) => {
            s.append("] ");
            s.append(call);
            s.append(" = ");
            crate::remote::push_hex_of(&mut s, as_unsigned64(v));
        },
        None => {
            s.append("] \u{2192} ");
            s.append(call);
        },
    }
    s
}

/// The unsigned number with the bits of a signed one.
pub open spec fn unsigned_of(v: i64) -> u64 {
    if v >= 0 {
        v as u64
    } else {
        (v + 0x1_0000_0000_0000_0000) as u64
    }
}

/// A call that is made and returns leaves the calls that have not returned as they were.
pub proof fn law_return_ends_call(s: TracerState, tid: i32, made: Seq<u64>, back: Seq<u64>)
    requires
        !s.pending.dom().contains(tid),
    ensures
        s.at_call(tid, made).pending.dom().contains(tid),
        s.at_call(tid, made).at_call(tid, back).pending == s.pending,
        s.at_call(tid, made).at_call(tid, back).events == s.at_call(tid, made).events,
{
    assert(s.pending.insert(tid, made_call(made)).remove(tid) =~= s.pending);
}

/// A trace that stops where it is over never counts more calls than its limit.
pub proof fn law_limit_holds(s: TracerState, tid: i32, x: Seq<u64>)
    requires
        s.max_events > 0,
        !s.is_over(false),
    ensures
        s.at_call(tid, x).events <= s.max_events,
{
}

/// No operation lists a thread twice, and a thread that is gone is not listed.
pub proof fn law_threads_are_distinct(s: TracerState, tid: i32, x: Seq<u64>)
    requires
        s.wf(),
    ensures
        s.with_thread(tid).wf(),
        s.without_thread(tid).wf(),
        !s.without_thread(tid).attached.contains(tid),
        s.at_call(tid, x).wf(),
{
    lemma_others_distinct(s.attached, tid);
}

proof fn lemma_others_distinct(s: Seq<i32>, tid: i32)
    requires
        s.no_duplicates(),
    ensures
        others(s, tid).no_duplicates(),
        forall|t: i32| #[trigger] others(s, tid).contains(t) ==> s.contains(t) && t != tid,
    decreases s.len(),
{
    if s.len() > 0 {
        let front = s.drop_last();
        lemma_others_distinct(front, tid);
        let before = others(front, tid);
        let after = others(s, tid);
        assert forall|t: i32| #[trigger] after.contains(t) implies s.contains(t) && t != tid by {
            let i = choose|i: int| 0 <= i < after.len() && after[i] == t;
            if i == before.len() {
                assert(s[s.len() - 1] == t);
            } else {
                assert(before[i] == t);
                assert(before.contains(t));
                assert(front.contains(t));
                let k = choose|k: int| 0 <= k < front.len() && front[k] == t;
                assert(s[k] == t);
            }
        }
        if s.last() != tid {
            assert(!before.contains(s.last())) by {
                if before.contains(s.last()) {
                    assert(front.contains(s.last()));
                    let k = choose|k: int| 0 <= k < front.len() && front[k] == s.last();
                    assert(s[k] == s[s.len() - 1]);
                }
            }
            assert forall|i: int, j: int| 0 <= i < j < after.len() implies after[i] != after[j] by {
                if j == before.len() {
                    assert(before.contains(before[i]));
                }
            }
        }
    }
}

} // verus!
