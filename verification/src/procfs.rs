//! What `/proc` says of a process.
use crate::elf::{lossy, utf8_lossy};
use crate::numbers::{hex_or_zero, read_hex_or_zero, read_i32, signed_numeral};
use crate::split::{lines, lines_of, texts, words, words_of};
use crate::text::{
    chars_of, copy_chars, has_prefix, is_space, numeral_max, parse_number, starts_with, string_of,
    trim, trimmed, whitespace,
};
use vstd::prelude::*;
use vstd::string::*;

verus! {

/// What follows `prefix` in the first line that starts with it, from the `k`th line on.
pub open spec fn field_from(ls: Seq<Seq<char>>, prefix: Seq<char>, k: int) -> Option<Seq<char>>
    decreases ls.len() - k,
{
    if k >= ls.len() {
        None
    } else if has_prefix(ls[k], prefix) {
        Some(ls[k].skip(prefix.len() as int))
    } else {
        field_from(ls, prefix, k + 1)
    }
}

/// What follows `prefix` in the first line of a status text that starts with it.
pub open spec fn field_of(status: Seq<char>, prefix: Seq<char>) -> Option<Seq<char>> {
    field_from(lines_of(status), prefix, 0)
}

fn status_field(status: &str, prefix: &str) -> (r: Option<Vec<char>>)
    ensures
        match r {
            Some(v) => field_of(status@, prefix@) == Some(v@),
            None => field_of(status@, prefix@) is None,
        },
{
    let cs = chars_of(status);
    let ls = lines(cs.as_slice());
    let pv = chars_of(prefix);
    let mut i: usize = 0;
    while i < ls.len()
        invariant
            i <= ls@.len(),
            pv@ == prefix@,
            texts(ls@) == lines_of(status@),
            field_of(status@, prefix@) == field_from(lines_of(status@), prefix@, i as int),
        decreases ls@.len() - i,
    {
        assert(texts(ls@)[i as int] == ls@[i as int]@);
        if starts_with(ls[i].as_slice(), prefix) {
            let rest = copy_chars(ls[i].as_slice(), pv.len(), ls[i].len());
            assert(rest@ =~= ls@[i as int]@.skip(prefix@.len() as int));
            return Some(rest);
        }
        i = i + 1;
    }
    None
}

/// The process that traces one, by its status.
pub open spec fn tracer_of(status: Seq<char>) -> Option<i32> {
    match field_of(status, "TracerPid:"@) {
        Some(v) => signed_numeral(trimmed(v)),
        None => None,
    }
}

/// The process that traces one, by its status.
pub fn tracer_pid(status: &str) -> (r: Option<i32>)
    ensures
        r == tracer_of(status@),
{
    match status_field(status, "TracerPid:") {
        Some(v) => {
            let t = trim(v.as_slice());
            read_i32(t.as_slice())
        },
        None => None,
    }
}

/// The effective capabilities, by a status; none where it does not say.
pub open spec fn caps_of(status: Seq<char>) -> u64 {
    match field_of(status, "CapEff:"@) {
        Some(v) => hex_or_zero(trimmed(v)),
        None => 0,
    }
}

/// The effective capabilities, by a status.
pub fn cap_eff(status: &str) -> (caps: u64)
    ensures
        caps == caps_of(status@),
{
    match status_field(status, "CapEff:") {
        Some(v) => {
            let t = trim(v.as_slice());
            read_hex_or_zero(t.as_slice())
        },
        None => 0,
    }
}

/// Whether the capability to trace processes is among the capabilities.
pub fn can_trace(caps: u64) -> (r: bool)
    ensures
        r == ((caps / 0x8_0000) % 2 == 1),
{
    (caps / 0x8_0000) % 2 == 1
}

/// The first user number in a status; zero where it does not say.
pub open spec fn uid_of(status: Seq<char>) -> u32 {
    match field_of(status, "Uid:"@) {
        Some(v) => if words_of(v).len() > 0 {
            match numeral_max(words_of(v)[0], 10, u32::MAX as nat) {
                Some(n) => n as u32,
                None => 0,
            }
        } else {
            0
        },
        None => 0,
    }
}

/// The user that a process runs as, by its status.
pub fn proc_uid(status: &str) -> (uid: u32)
    ensures
        uid == uid_of(status@),
{
    match status_field(status, "Uid:") {
        Some(v) => {
            let ws = words(v.as_slice());
            if ws.len() == 0 {
                return 0;
            }
            assert(texts(ws@)[0] == ws@[0]@);
            match parse_number(ws[0].as_slice(), 10, 0xffff_ffff) {
                Some(n) => n as u32,
                None => 0,
            }
        },
        None => 0,
    }
}

/// The parent of a process, by its status; zero where it does not say.
pub open spec fn parent_of(status: Seq<char>) -> u32 {
    match field_of(status, "PPid:"@) {
        Some(v) => match numeral_max(trimmed(v), 10, u32::MAX as nat) {
            Some(n) => n as u32,
            None => 0,
        },
        None => 0,
    }
}

/// The parent of a process, by its status.
pub fn parent_pid(status: &str) -> (ppid: u32)
    ensures
        ppid == parent_of(status@),
{
    match status_field(status, "PPid:") {
        Some(v) => {
            let t = trim(v.as_slice());
            match parse_number(t.as_slice(), 10, 0xffff_ffff) {
                Some(n) => n as u32,
                None => 0,
            }
        },
        None => 0,
    }
}

/// A process and its ancestors, as far as they were walked: 32 steps at most.
pub struct Ancestors {
    pub pids: Vec<u32>,
    pub steps: u32,
}

impl Ancestors {
    pub fn new(pid: u32) -> (a: Ancestors)
        ensures
            a.pids@ == seq![pid],
            a.steps == 0,
    {
        let mut pids: Vec<u32> = Vec::new();
        pids.push(pid);
        Ancestors { pids, steps: 0 }
    }

    /// Whether a process is among them.
    pub fn holds(&self, pid: u32) -> (r: bool)
        ensures
            r == self.pids@.contains(pid),
    {
        let mut i: usize = 0;
        while i < self.pids.len()
            invariant
                i <= self.pids@.len(),
                forall|j: int| 0 <= j < i ==> self.pids@[j] != pid,
            decreases self.pids@.len() - i,
        {
            if self.pids[i] == pid {
                return true;
            }
            i = i + 1;
        }
        false
    }

    /// Goes on to the parent that the status of the last process names. Ends at process 1 or
    /// none, at a process that was seen, and after 32 steps.
    pub fn next(&mut self, status: &str) -> (r: Option<u32>)
        requires
            old(self).steps <= 32,
        ensures
            ({
                let p = parent_of(status@);
                if old(self).steps == 32 || p <= 1 || old(self).pids@.contains(p) {
                    r is None && final(self).pids@ == old(self).pids@ && final(self).steps == 32
                } else {
                    r == Some(p) && final(self).pids@ == old(self).pids@.push(p)
                        && final(self).steps == old(self).steps + 1
                }
            }),
    {
        let p: u32 = parent_pid(status);
        if self.steps == 32 || p <= 1 || self.holds(p) {
            self.steps = 32;
            return None;
        }
        self.pids.push(p);
        self.steps = self.steps + 1;
        Some(p)
    }
}

/// Whether a character is zero or white space.
pub open spec fn is_blank(c: char) -> bool {
    c == '\0' || is_space(c)
}

/// `s` without blanks at its start.
pub open spec fn unblanked_start(s: Seq<char>) -> Seq<char>
    decreases s.len(),
{
    if s.len() > 0 && is_blank(s[0]) {
        unblanked_start(s.skip(1))
    } else {
        s
    }
}

/// `s` without blanks at its end.
pub open spec fn unblanked_end(s: Seq<char>) -> Seq<char>
    decreases s.len(),
{
    if s.len() > 0 && is_blank(s.last()) {
        unblanked_end(s.drop_last())
    } else {
        s
    }
}

/// An attribute without blanks at both ends.
pub fn trim_attr(text: &str) -> (out: String)
    ensures
        out@ == unblanked_end(unblanked_start(text@)),
{
    let cs = chars_of(text);
    let mut from: usize = 0;
    assert(cs@.skip(0) =~= cs@);
    while from < cs.len() && (cs[from] == '\0' || whitespace(cs[from]))
        invariant
            from <= cs@.len(),
            unblanked_start(cs@) == unblanked_start(cs@.skip(from as int)),
        decreases cs@.len() - from,
    {
        assert(cs@.skip(from as int).skip(1) =~= cs@.skip(from + 1));
        from = from + 1;
    }
    let mut to: usize = cs.len();
    let ghost s = cs@.skip(from as int);
    assert(cs@.subrange(from as int, to as int) =~= s);
    while to > from && (cs[to - 1] == '\0' || whitespace(cs[to - 1]))
        invariant
            from <= to <= cs@.len(),
            unblanked_end(s) == unblanked_end(cs@.subrange(from as int, to as int)),
        decreases to - from,
    {
        assert(cs@.subrange(from as int, to as int).drop_last() =~= cs@.subrange(
            from as int,
            to - 1,
        ));
        to = to - 1;
    }
    let out = copy_chars(cs.as_slice(), from, to);
    string_of(out.as_slice())
}

/// The text of an attribute file.
pub fn read_proc_attr(bytes: &[u8]) -> (out: String)
    ensures
        out@ == unblanked_end(unblanked_start(utf8_lossy(bytes@))),
{
    let text = lossy(bytes);
    trim_attr(text.as_str())
}

/// `s` with spaces for zeros.
pub open spec fn zeros_as_spaces(s: Seq<char>) -> Seq<char> {
    s.map_values(
        |c: char|
            if c == '\0' {
                ' '
            } else {
                c
            },
    )
}

/// A command line with spaces for zeros, trimmed.
pub fn spaced_cmdline(text: &str) -> (out: String)
    ensures
        out@ == trimmed(zeros_as_spaces(text@)),
{
    let cs = chars_of(text);
    let mut out: Vec<char> = Vec::new();
    let mut i: usize = 0;
    while i < cs.len()
        invariant
            i <= cs@.len(),
            out@ == zeros_as_spaces(cs@).take(i as int),
        decreases cs@.len() - i,
    {
        if cs[i] == '\0' {
            out.push(' ');
        } else {
            out.push(cs[i]);
        }
        i = i + 1;
        assert(out@ =~= zeros_as_spaces(cs@).take(i as int));
    }
    assert(zeros_as_spaces(cs@).take(i as int) =~= zeros_as_spaces(cs@));
    let t = trim(out.as_slice());
    string_of(t.as_slice())
}

/// The text of a command line file.
pub fn proc_cmdline(bytes: &[u8]) -> (out: String)
    ensures
        out@ == trimmed(zeros_as_spaces(utf8_lossy(bytes@))),
{
    let text = lossy(bytes);
    spaced_cmdline(text.as_str())
}

/// The numbers among some names.
pub open spec fn numbers_in(names: Seq<Seq<char>>) -> Seq<i32>
    decreases names.len(),
{
    if names.len() == 0 {
        Seq::empty()
    } else {
        match signed_numeral(names.last()) {
            Some(v) => numbers_in(names.drop_last()).push(v),
            None => numbers_in(names.drop_last()),
        }
    }
}

/// The threads of a process, by the names in its task directory; the process itself where
/// there are none.
pub fn list_tids(pid: i32, names: &Vec<String>) -> (tids: Vec<i32>)
    ensures
        ({
            let found = numbers_in(crate::text::views(names@));
            tids@ == if found.len() == 0 {
                seq![pid]
            } else {
                found
            }
        }),
{
    let mut tids: Vec<i32> = Vec::new();
    let mut i: usize = 0;
    let ghost all = crate::text::views(names@);
    assert(all.take(0) =~= Seq::<Seq<char>>::empty());
    while i < names.len()
        invariant
            i <= names@.len(),
            all == crate::text::views(names@),
            tids@ == numbers_in(all.take(i as int)),
        decreases names@.len() - i,
    {
        let cs = chars_of(names[i].as_str());
        assert(all.take(i + 1).drop_last() =~= all.take(i as int));
        assert(all.take(i + 1).last() == cs@);
        match read_i32(cs.as_slice()) {
            Some(v) => {
                tids.push(v);
            },
            None => {},
        }
        i = i + 1;
    }
    assert(all.take(i as int) =~= all);
    if tids.len() == 0 {
        tids.push(pid);
    }
    tids
}

} // verus!
