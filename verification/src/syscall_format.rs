//! Writing system calls out, with what their arguments point to.
use crate::bytes::quad_at;
use crate::elf::{find_nul, lossy, nul_from, utf8_lossy};
use crate::remote::{hex_of, push_hex_of};
use crate::text::{
    chars_of, decimal, has_prefix, hex_digit, is_control, join, joined, push_char, push_decimal,
    push_hex_digit, spells, starts_with, views,
};
use vstd::prelude::*;
use vstd::string::*;

verus! {

/// How many bytes are shown of a buffer or a path.
pub const MAX_DUMP: usize = 128;

/// What was read of a process: for a place and a length the bytes, or that they cannot be read.
pub struct Reading {
    pub addr: u64,
    pub len: usize,
    pub bytes: Option<Vec<u8>>,
}

/// What was read of a process.
pub struct Readings {
    pub all: Vec<Reading>,
}

/// The bytes of one reading.
pub open spec fn bytes_view(b: Option<Vec<u8>>) -> Option<Seq<u8>> {
    match b {
        Some(v) => Some(v@),
        None => None,
    }
}

/// The reading of a place and a length, from the `k`th on: `None` where there is none.
pub open spec fn reading_from(all: Seq<Reading>, addr: u64, len: int, k: int) -> Option<
    Option<Seq<u8>>,
>
    decreases all.len() - k,
{
    if k >= all.len() {
        None
    } else if all[k].addr == addr && all[k].len == len {
        Some(bytes_view(all[k].bytes))
    } else {
        reading_from(all, addr, len, k + 1)
    }
}

impl Readings {
    /// The bytes at a place, as far as they were read.
    pub open spec fn at(self, addr: u64, len: int) -> Option<Seq<u8>> {
        match reading_from(self.all@, addr, len, 0) {
            Some(b) => b,
            None => None,
        }
    }

    /// Whether a place was read.
    pub open spec fn knows(self, addr: u64, len: int) -> bool {
        reading_from(self.all@, addr, len, 0) is Some
    }

    pub fn new() -> (r: Readings)
        ensures
            r.all@.len() == 0,
    {
        Readings { all: Vec::new() }
    }

    /// Adds a reading.
    pub fn record(&mut self, addr: u64, len: usize, bytes: Option<Vec<u8>>)
        ensures
            final(self).all@ == old(self).all@.push(Reading { addr, len, bytes }),
    {
        self.all.push(Reading { addr, len, bytes });
    }

    fn find(&self, addr: u64, len: usize) -> (r: Option<usize>)
        ensures
            match r {
                Some(i) => i < self.all@.len() && self.knows(addr, len as int) && self.at(
                    addr,
                    len as int,
                ) == bytes_view(self.all@[i as int].bytes),
                None => !self.knows(addr, len as int),
            },
    {
        let mut i: usize = 0;
        while i < self.all.len()
            invariant
                i <= self.all@.len(),
                reading_from(self.all@, addr, len as int, 0) == reading_from(
                    self.all@,
                    addr,
                    len as int,
                    i as int,
                ),
            decreases self.all@.len() - i,
        {
            if self.all[i].addr == addr && self.all[i].len == len {
                return Some(i);
            }
            i = i + 1;
        }
        None
    }

    fn get(&self, addr: u64, len: usize) -> (r: Option<&Vec<u8>>)
        ensures
            match r {
                Some(b) => self.at(addr, len as int) == Some(b@),
                None => self.at(addr, len as int) is None,
            },
    {
        match self.find(addr, len) {
            Some(i) => match &self.all[i].bytes {
                Some(b) => Some(b),
                None => None,
            },
            None => None,
        }
    }
}

/// A new reading is known, and changes none that was.
pub proof fn law_record_adds(r: Readings, s: Readings, new: Reading, addr: u64, len: int)
    requires
        s.all@ == r.all@.push(new),
    ensures
        r.knows(addr, len) ==> s.knows(addr, len) && s.at(addr, len) == r.at(addr, len),
        !r.knows(new.addr, new.len as int) ==> s.knows(new.addr, new.len as int) && s.at(
            new.addr,
            new.len as int,
        ) == bytes_view(new.bytes),
{
    lemma_reading_pushed(r.all@, new, addr, len, 0);
    lemma_reading_pushed(r.all@, new, new.addr, new.len as int, 0);
}

proof fn lemma_reading_pushed(all: Seq<Reading>, new: Reading, addr: u64, len: int, k: int)
    requires
        0 <= k <= all.len(),
    ensures
        reading_from(all, addr, len, k) is Some ==> reading_from(all.push(new), addr, len, k)
            == reading_from(all, addr, len, k),
        reading_from(all, addr, len, k) is None && new.addr == addr && new.len == len
            ==> reading_from(all.push(new), addr, len, k) == Some(bytes_view(new.bytes)),
    decreases all.len() - k,
{
    if k < all.len() {
        lemma_reading_pushed(all, new, addr, len, k + 1);
    }
}

/// The next length to try where that many bytes could not be read; zero where none is left.
pub fn shorter_read(len: usize) -> (r: usize)
    ensures
        r == if len > 64 {
            (len / 2) as int
        } else if len > 16 {
            16
        } else if len > 1 {
            len - 1
        } else {
            0
        },
        len > 0 ==> r < len,
{
    if len > 64 {
        len / 2
    } else if len > 16 {
        16
    } else if len > 1 {
        len - 1
    } else {
        0
    }
}

/// Whether a place can hold anything to show.
pub open spec fn worth_reading(addr: u64, len: int) -> bool {
    addr >= 0x1000 && len > 0
}

/// How a system call is written out.
#[derive(Debug, Clone, Copy, PartialEq, Eq, Structural)]
pub enum Form {
    /// A path in the second argument.
    PathSecond,
    /// A path in the first argument.
    PathFirst,
    Seek,
    /// A buffer in the second argument.
    Buffer,
    /// A buffer and a place in the file.
    BufferAt,
    /// A list of buffers.
    Vector,
    /// A buffer and a socket address.
    Datagram,
    /// A socket address in the second argument.
    Address,
    Socket,
    Clone,
    Futex,
    /// This many arguments in hexadecimal.
    Plain(usize),
}

/// How a system call is written out, by its name.
pub open spec fn form_of(n: Seq<char>) -> Form {
    if n == "openat"@ || n == "faccessat"@ || n == "fstatat"@ || n == "readlinkat"@ || n
        == "execveat"@ || n == "unlinkat"@ || n == "fchmodat"@ || n == "mkdirat"@ || n
        == "mknodat"@ {
        Form::PathSecond
    } else if n == "open"@ || n == "execve"@ || n == "access"@ || n == "stat"@ || n == "lstat"@ || n
        == "unlink"@ || n == "chdir"@ || n == "mkdir"@ || n == "rmdir"@ || n == "readlink"@ || n
        == "chmod"@ {
        Form::PathFirst
    } else if n == "lseek"@ {
        Form::Seek
    } else if n == "read"@ || n == "write"@ {
        Form::Buffer
    } else if n == "pread64"@ || n == "pwrite64"@ {
        Form::BufferAt
    } else if n == "readv"@ || n == "writev"@ || n == "preadv"@ || n == "pwritev"@ {
        Form::Vector
    } else if n == "sendto"@ || n == "recvfrom"@ {
        Form::Datagram
    } else if n == "sendmsg"@ || n == "recvmsg"@ {
        Form::Plain(3)
    } else if n == "connect"@ || n == "bind"@ {
        Form::Address
    } else if n == "socket"@ {
        Form::Socket
    } else if n == "clone"@ {
        Form::Clone
    } else if n == "ioctl"@ {
        Form::Plain(3)
    } else if n == "prctl"@ {
        Form::Plain(5)
    } else if n == "futex"@ {
        Form::Futex
    } else if n == "clock_gettime"@ || n == "nanosleep"@ {
        Form::Plain(2)
    } else if n == "close"@ || n == "getpid"@ || n == "gettid"@ || n == "getuid"@ || n
        == "geteuid"@ || n == "getppid"@ || n == "sched_yield"@ {
        Form::Plain(1)
    } else {
        Form::Plain(6)
    }
}

fn form(name: &str) -> (f: Form)
    ensures
        f == form_of(name@),
{
    let v = chars_of(name);
    let n = v.as_slice();
    if spells(n, "openat") || spells(n, "faccessat") || spells(n, "fstatat") || spells(
        n,
        "readlinkat",
    ) || spells(n, "execveat") || spells(n, "unlinkat") || spells(n, "fchmodat") || spells(
        n,
        "mkdirat",
    ) || spells(n, "mknodat") {
        Form::PathSecond
    } else if spells(n, "open") || spells(n, "execve") || spells(n, "access") || spells(n, "stat")
        || spells(n, "lstat") || spells(n, "unlink") || spells(n, "chdir") || spells(n, "mkdir")
        || spells(n, "rmdir") || spells(n, "readlink") || spells(n, "chmod") {
        Form::PathFirst
    } else if spells(n, "lseek") {
        Form::Seek
    } else if spells(n, "read") || spells(n, "write") {
        Form::Buffer
    } else if spells(n, "pread64") || spells(n, "pwrite64") {
        Form::BufferAt
    } else if spells(n, "readv") || spells(n, "writev") || spells(n, "preadv") || spells(
        n,
        "pwritev",
    ) {
        Form::Vector
    } else if spells(n, "sendto") || spells(n, "recvfrom") {
        Form::Datagram
    } else if spells(n, "sendmsg") || spells(n, "recvmsg") {
        Form::Plain(3)
    } else if spells(n, "connect") || spells(n, "bind") {
        Form::Address
    } else if spells(n, "socket") {
        Form::Socket
    } else if spells(n, "clone") {
        Form::Clone
    } else if spells(n, "ioctl") {
        Form::Plain(3)
    } else if spells(n, "prctl") {
        Form::Plain(5)
    } else if spells(n, "futex") {
        Form::Futex
    } else if spells(n, "clock_gettime") || spells(n, "nanosleep") {
        Form::Plain(2)
    } else if spells(n, "close") || spells(n, "getpid") || spells(n, "gettid") || spells(
        n,
        "getuid",
    ) || spells(n, "geteuid") || spells(n, "getppid") || spells(n, "sched_yield") {
        Form::Plain(1)
    } else {
        Form::Plain(6)
    }
}

/// `\x` and two hexadecimal digits.
pub open spec fn byte_escape(b: int) -> Seq<char> {
    "\\x"@.push(hex_digit((b / 16) as nat)).push(hex_digit((b % 16) as nat))
}

fn push_byte_escape(s: &mut String, b: u8)
    ensures
        final(s)@ == old(s)@ + byte_escape(b as int),
{
    s.append("\\x");
    push_hex_digit(s, b / 16);
    push_hex_digit(s, b % 16);
    assert(s@ =~= old(s)@ + byte_escape(b as int));
}

/// A character as it stands between quotes.
pub open spec fn escaped_char(c: char) -> Seq<char> {
    if c == '\\' {
        "\\\\"@
    } else if c == '"' {
        "\\\""@
    } else if c == '\n' {
        "\\n"@
    } else if c == '\r' {
        "\\r"@
    } else if c == '\t' {
        "\\t"@
    } else if is_control(c) {
        byte_escape(c as int)
    } else {
        seq![c]
    }
}

/// A text as it stands between quotes.
pub open spec fn escaped(s: Seq<char>) -> Seq<char>
    decreases s.len(),
{
    if s.len() == 0 {
        Seq::empty()
    } else {
        escaped(s.drop_last()) + escaped_char(s.last())
    }
}

fn push_escaped_char(s: &mut String, c: char)
    ensures
        final(s)@ == old(s)@ + escaped_char(c),
{
    if c == '\\' {
        s.append("\\\\");
    } else if c == '"' {
        s.append("\\\"");
    } else if c == '\n' {
        s.append("\\n");
    } else if c == '\r' {
        s.append("\\r");
    } else if c == '\t' {
        s.append("\\t");
    } else if c <= '\u{1f}' || ('\u{7f}' <= c && c <= '\u{9f}') {
        push_byte_escape(s, c as u8);
    } else {
        push_char(s, c);
    }
    assert(s@ =~= old(s)@ + escaped_char(c));
}

/// A text as it stands between quotes.
pub fn escape_str(text: &str) -> (out: String)
    ensures
        out@ == escaped(text@),
{
    let cs = chars_of(text);
    let mut out = String::new();
    let mut i: usize = 0;
    assert(cs@.take(0) =~= Seq::<char>::empty());
    while i < cs.len()
        invariant
            i <= cs@.len(),
            out@ == escaped(cs@.take(i as int)),
        decreases cs@.len() - i,
    {
        push_escaped_char(&mut out, cs[i]);
        i = i + 1;
        assert(cs@.take(i as int).drop_last() =~= cs@.take(i - 1));
    }
    assert(cs@.take(i as int) =~= cs@);
    out
}

/// Whether a byte counts as text.
pub open spec fn is_printable(b: u8) -> bool {
    0x20 <= b < 0x7f || b == 9 || b == 10 || b == 13
}

/// How many bytes count as text.
pub open spec fn printables(buf: Seq<u8>) -> nat
    decreases buf.len(),
{
    if buf.len() == 0 {
        0
    } else {
        printables(buf.drop_last()) + if is_printable(buf.last()) {
            1nat
        } else {
            0
        }
    }
}

/// Whether at least seven tenths of the bytes count as text.
pub open spec fn mostly_text(buf: Seq<u8>) -> bool {
    buf.len() > 0 && printables(buf) * 100 >= 70 * buf.len()
}

/// A byte of a text.
pub open spec fn text_byte(b: u8) -> Seq<char> {
    if b == 0x5c {
        "\\\\"@
    } else if b == 0x22 {
        "\\\""@
    } else if b == 10 {
        "\\n"@
    } else if b == 13 {
        "\\r"@
    } else if b == 9 {
        "\\t"@
    } else if 0x20 <= b <= 0x7e {
        seq![b as char]
    } else {
        byte_escape(b as int)
    }
}

/// The bytes one after another, as text or as numbers.
pub open spec fn shown_bytes(buf: Seq<u8>, text: bool) -> Seq<char>
    decreases buf.len(),
{
    if buf.len() == 0 {
        Seq::empty()
    } else {
        shown_bytes(buf.drop_last(), text) + if text {
            text_byte(buf.last())
        } else {
            byte_escape(buf.last() as int)
        }
    }
}

/// Bytes between quotes, and an ellipsis where more follow.
pub open spec fn literal(buf: Seq<u8>, truncated: bool) -> Seq<char> {
    "\""@ + shown_bytes(buf, mostly_text(buf)) + "\""@ + if truncated {
        "\u{2026}"@
    } else {
        Seq::empty()
    }
}

fn push_text_byte(s: &mut String, b: u8)
    ensures
        final(s)@ == old(s)@ + text_byte(b),
{
    if b == 0x5c {
        s.append("\\\\");
    } else if b == 0x22 {
        s.append("\\\"");
    } else if b == 10 {
        s.append("\\n");
    } else if b == 13 {
        s.append("\\r");
    } else if b == 9 {
        s.append("\\t");
    } else if 0x20 <= b && b <= 0x7e {
        push_char(s, b as char);
    } else {
        push_byte_escape(s, b);
    }
    assert(s@ =~= old(s)@ + text_byte(b));
}

fn count_printables(buf: &[u8]) -> (n: usize)
    ensures
        n == printables(buf@),
        n <= buf@.len(),
{
    let mut n: usize = 0;
    let mut i: usize = 0;
    assert(buf@.take(0) =~= Seq::<u8>::empty());
    while i < buf.len()
        invariant
            i <= buf@.len(),
            n <= i,
            n == printables(buf@.take(i as int)),
        decreases buf@.len() - i,
    {
        let b: u8 = buf[i];
        assert(buf@.take(i + 1).drop_last() =~= buf@.take(i as int));
        if (0x20 <= b && b < 0x7f) || b == 9 || b == 10 || b == 13 {
            n = n + 1;
        }
        i = i + 1;
    }
    assert(buf@.take(i as int) =~= buf@);
    n
}

/// Bytes between quotes, as text where most of them are, and an ellipsis where more follow.
pub fn format_bytes_literal(buf: &[u8], truncated: bool) -> (out: String)
    ensures
        out@ == literal(buf@, truncated),
{
    let n: usize = count_printables(buf);
    let len: usize = buf.len();
    let text = len > 0 && n as u128 * 100 >= 70 * len as u128;
    let mut out = "\"".to_owned();
    let mut i: usize = 0;
    assert(buf@.take(0) =~= Seq::<u8>::empty());
    assert(out@ =~= "\""@ + shown_bytes(buf@.take(0), text));
    while i < len
        invariant
            len == buf@.len(),
            i <= len,
            out@ == "\""@ + shown_bytes(buf@.take(i as int), text),
        decreases len - i,
    {
        if text {
            push_text_byte(&mut out, buf[i]);
        } else {
            push_byte_escape(&mut out, buf[i]);
        }
        i = i + 1;
        assert(buf@.take(i as int).drop_last() =~= buf@.take(i - 1));
        assert(out@ =~= "\""@ + shown_bytes(buf@.take(i as int), text));
    }
    assert(buf@.take(i as int) =~= buf@);
    out.append("\"");
    if truncated {
        out.append("\u{2026}");
    }
    assert(out@ =~= literal(buf@, truncated));
    out
}

/// Whether a call fills its buffer.
pub open spec fn is_inbound(n: Seq<char>) -> bool {
    n == "read"@ || n == "readv"@ || n == "pread64"@ || n == "preadv"@ || n == "recvfrom"@ || n
        == "recvmsg"@ || n == "recvmmsg"@
}

/// The smaller of two numbers.
pub open spec fn least(a: int, b: int) -> int {
    if a <= b {
        a
    } else {
        b
    }
}

/// How many bytes of a buffer are shown: of one that the call fills what it returned, of
/// another what it returned or, before that, what it is given; 128 at most.
pub open spec fn dump_len(n: Seq<char>, count: u64, retval: Option<i64>) -> int {
    let cap = least(count as int, 128);
    match retval {
        Some(v) => if v > 0 {
            least(v as int, cap)
        } else if is_inbound(n) || v < 0 {
            0
        } else {
            cap
        },
        None => if is_inbound(n) {
            0
        } else {
            cap
        },
    }
}

/// How many bytes of a buffer are shown.
pub fn buffer_dump_len(name: &str, count: u64, retval: Option<i64>) -> (len: usize)
    ensures
        len == dump_len(name@, count, retval),
        len <= 128,
{
    let v = chars_of(name);
    let n = v.as_slice();
    let inbound = spells(n, "read") || spells(n, "readv") || spells(n, "pread64") || spells(
        n,
        "preadv",
    ) || spells(n, "recvfrom") || spells(n, "recvmsg") || spells(n, "recvmmsg");
    let cap: usize = if count <= 128 {
        count as usize
    } else {
        128
    };
    match retval {
        Some(r) => {
            if r > 0 {
                if r <= 128 && r as usize <= cap {
                    r as usize
                } else {
                    cap
                }
            } else if inbound || r < 0 {
                0
            } else {
                cap
            }
        },
        None => {
            if inbound {
                0
            } else {
                cap
            }
        },
    }
}

/// What is shown of a buffer: its bytes, or its address where there are none to show.
pub open spec fn preview(mem: Readings, addr: u64, len: int) -> Seq<char> {
    if !worth_reading(addr, len) {
        hex_of(addr)
    } else {
        match mem.at(addr, len) {
            Some(buf) => literal(buf, len >= 128),
            None => hex_of(addr),
        }
    }
}

fn hex_string(n: u64) -> (s: String)
    ensures
        s@ == hex_of(n),
{
    let mut s = String::new();
    push_hex_of(&mut s, n);
    assert(s@ =~= hex_of(n));
    s
}

/// What is shown of a buffer.
pub fn format_mem_preview(mem: &Readings, addr: u64, len: usize) -> (s: String)
    requires
        len <= 128,
    ensures
        s@ == preview(*mem, addr, len as int),
{
    if addr < 0x1000 || len == 0 {
        return hex_string(addr);
    }
    match mem.get(addr, len) {
        Some(buf) => format_bytes_literal(buf.as_slice(), len >= 128),
        None => hex_string(addr),
    }
}

/// One buffer of a list.
pub open spec fn vector_part(mem: Readings, base: u64, ilen: u64, take: int) -> Seq<char> {
    "{base="@ + hex_of(base) + ", len="@ + decimal(ilen as nat) + ", data="@ + preview(
        mem,
        base,
        take,
    ) + "}"@
}

/// How much of the `i`th buffer of a list is shown.
pub open spec fn vector_take(raw: Seq<u8>, i: int, total: int, left: int) -> int {
    least(least(quad_at(raw, 16 * i + 8) as int, left), 128 - total)
}

/// The buffers of a list from the `i`th on, where `total` bytes were shown and `left` bytes
/// are left to show.
pub open spec fn vector_parts(
    mem: Readings,
    raw: Seq<u8>,
    n: int,
    i: int,
    total: int,
    left: int,
) -> Seq<Seq<char>>
    decreases n - i,
{
    if i >= n {
        Seq::empty()
    } else if total >= 128 || left == 0 {
        seq!["\u{2026}"@]
    } else if 16 * i + 16 > raw.len() {
        Seq::empty()
    } else {
        let take = vector_take(raw, i, total, left);
        seq![vector_part(mem, quad_at(raw, 16 * i), quad_at(raw, 16 * i + 8), take)] + vector_parts(
            mem,
            raw,
            n,
            i + 1,
            total + take,
            left - take,
        )
    }
}

/// Whether a call fills a list of buffers.
pub open spec fn fills_list(n: Seq<char>) -> bool {
    has_prefix(n, "read"@) || has_prefix(n, "recv"@)
}

/// How many bytes of a list of buffers may be shown.
pub open spec fn list_budget(n: Seq<char>, retval: Option<i64>) -> int {
    match retval {
        Some(v) => if v > 0 {
            least(v as int, 128)
        } else if fills_list(n) || v < 0 {
            0
        } else {
            128
        },
        None => if fills_list(n) {
            0
        } else {
            128
        },
    }
}

/// How many buffers of a list are looked at: eight at most.
pub open spec fn list_len(iovcnt: u64) -> int {
    least(iovcnt as int, 8)
}

/// What is shown of a list of buffers.
pub open spec fn list_preview(
    mem: Readings,
    name: Seq<char>,
    iov: u64,
    iovcnt: u64,
    retval: Option<i64>,
) -> Seq<char> {
    let n = list_len(iovcnt);
    let budget = list_budget(name, retval);
    let read = mem.at(iov, 16 * n);
    if iov < 0x1000 || iovcnt == 0 || read is None || read.unwrap().len() < 16 {
        hex_of(iov)
    } else if budget == 0 && fills_list(name) {
        "["@ + decimal(n as nat) + " iov @ "@ + hex_of(iov) + "]"@
    } else {
        let parts = vector_parts(mem, read.unwrap(), n, 0, 0, budget);
        let more = if iovcnt > n {
            seq!["/* +"@ + decimal((iovcnt - n) as nat) + " iov */"@]
        } else {
            Seq::empty()
        };
        "["@ + joined(parts + more, ", "@) + "]"@
    }
}

fn vector_part_text(mem: &Readings, base: u64, ilen: u64, take: usize) -> (s: String)
    requires
        take <= 128,
    ensures
        s@ == vector_part(*mem, base, ilen, take as int),
{
    let mut s = "{base=".to_owned();
    push_hex_of(&mut s, base);
    s.append(", len=");
    push_decimal(&mut s, ilen);
    s.append(", data=");
    let p = format_mem_preview(mem, base, take);
    s.append(p.as_str());
    s.append("}");
    s
}

fn least_u64(a: u64, b: u64) -> (r: u64)
    ensures
        r == least(a as int, b as int),
{
    if a <= b {
        a
    } else {
        b
    }
}

fn vector_texts(mem: &Readings, raw: &Vec<u8>, n: usize, budget: usize) -> (out: Vec<String>)
    requires
        n <= 8,
        budget <= 128,
    ensures
        views(out@) == vector_parts(*mem, raw@, n as int, 0, 0, budget as int),
{
    let mut out: Vec<String> = Vec::new();
    let mut i: usize = 0;
    let mut total: usize = 0;
    let mut left: usize = budget;
    let len: usize = raw.len();
    let ghost all = vector_parts(*mem, raw@, n as int, 0, 0, budget as int);
    assert(views(out@) + all =~= all);
    while i < n
        invariant
            n <= 8,
            i <= n,
            len == raw@.len(),
            total <= 128,
            left <= 128,
            all == vector_parts(*mem, raw@, n as int, 0, 0, budget as int),
            views(out@) + vector_parts(*mem, raw@, n as int, i as int, total as int, left as int)
                == all,
        decreases n - i,
    {
        let ghost before = out@;
        let ghost rest = vector_parts(
            *mem,
            raw@,
            n as int,
            i as int,
            total as int,
            left as int,
        );
        if total >= 128 || left == 0 {
            let dots = "\u{2026}".to_owned();
            out.push(dots);
            assert(views(out@) =~= views(before) + rest);
            return out;
        }
        if 16 * i + 16 > len {
            assert(views(out@) =~= views(before) + rest);
            return out;
        }
        let base: u64 = crate::bytes::get_u64(raw.as_slice(), 16 * i);
        let ilen: u64 = crate::bytes::get_u64(raw.as_slice(), 16 * i + 8);
        let take: usize = least_u64(
            least_u64(ilen, left as u64),
            (128 - total) as u64,
        ) as usize;
        let part = vector_part_text(mem, base, ilen, take);
        out.push(part);
        let ghost later = vector_parts(
            *mem,
            raw@,
            n as int,
            i + 1,
            total + take,
            left - take,
        );
        assert(rest == seq![part@] + later);
        assert(views(out@) =~= views(before).push(part@));
        assert(views(before).push(part@) + later =~= views(before) + (seq![part@] + later));
        total = total + take;
        left = left - take;
        i = i + 1;
    }
    assert(views(out@) =~= all);
    out
}

fn budget_of(name: &str, retval: Option<i64>) -> (r: (usize, bool))
    ensures
        r.0 == list_budget(name@, retval),
        r.0 <= 128,
        r.1 == fills_list(name@),
{
    let v = chars_of(name);
    let inbound = starts_with(v.as_slice(), "read") || starts_with(v.as_slice(), "recv");
    let budget: usize = match retval {
        Some(r) => {
            if r > 0 {
                if r <= 128 {
                    r as usize
                } else {
                    128
                }
            } else if inbound || r < 0 {
                0
            } else {
                128
            }
        },
        None => {
            if inbound {
                0
            } else {
                128
            }
        },
    };
    (budget, inbound)
}

/// What is shown of a list of buffers.
pub fn format_iovec_preview(
    mem: &Readings,
    name: &str,
    iov: u64,
    iovcnt: u64,
    retval: Option<i64>,
) -> (s: String)
    ensures
        s@ == list_preview(*mem, name@, iov, iovcnt, retval),
{
    if iov < 0x1000 || iovcnt == 0 {
        return hex_string(iov);
    }
    let n: usize = least_u64(iovcnt, 8) as usize;
    match mem.get(iov, 16 * n) {
        None => hex_string(iov),
        Some(raw) => {
            if raw.len() < 16 {
                return hex_string(iov);
            }
            let (budget, inbound) = budget_of(name, retval);
            if budget == 0 && inbound {
                let mut s = "[".to_owned();
                push_decimal(&mut s, n as u64);
                s.append(" iov @ ");
                push_hex_of(&mut s, iov);
                s.append("]");
                return s;
            }
            let mut parts = vector_texts(mem, raw, n, budget);
            let ghost before = parts@;
            if iovcnt > n as u64 {
                let mut m = "/* +".to_owned();
                push_decimal(&mut m, iovcnt - n as u64);
                m.append(" iov */");
                parts.push(m);
                assert(views(parts@) =~= views(before) + seq![m@]);
            } else {
                assert(views(parts@) =~= views(before) + Seq::<Seq<char>>::empty());
            }
            let mut s = "[".to_owned();
            s.append(join(&parts, ", ").as_str());
            s.append("]");
            s
        },
    }
}

/// Whether a text can be a path: not empty, and without control characters other than tab and
/// newline.
pub open spec fn is_plain(s: Seq<char>) -> bool {
    s.len() > 0 && forall|i: int|
        0 <= i < s.len() ==> (#[trigger] s[i] == '\t' || s[i] == '\n' || !is_control(s[i]))
}

/// A text that can be a path.
pub fn plain_text(s: String) -> (r: Option<String>)
    ensures
        match r {
            Some(t) => is_plain(s@) && t@ == s@,
            None => !is_plain(s@),
        },
{
    let cs = chars_of(s.as_str());
    if cs.len() == 0 {
        return None;
    }
    let mut i: usize = 0;
    while i < cs.len()
        invariant
            i <= cs@.len(),
            cs@ == s@,
            forall|j: int|
                0 <= j < i ==> (#[trigger] cs@[j] == '\t' || cs@[j] == '\n' || !is_control(cs@[j])),
        decreases cs@.len() - i,
    {
        let c = cs[i];
        if c != '\t' && c != '\n' && (c <= '\u{1f}' || ('\u{7f}' <= c && c <= '\u{9f}')) {
            assert(is_control(s@[i as int]));
            return None;
        }
        i = i + 1;
    }
    Some(s)
}

/// The bytes of a string: up to its zero; all of them, 200 at most, where it has none.
pub open spec fn string_bytes(buf: Seq<u8>) -> Seq<u8> {
    let nul = nul_from(buf, 0, buf.len() as int);
    if nul < buf.len() {
        buf.take(nul)
    } else {
        buf.take(least(buf.len() as int, 200))
    }
}

/// The string at a place, where there is one that can be a path.
pub open spec fn string_at(mem: Readings, addr: u64) -> Option<Seq<char>> {
    if addr < 0x1000 {
        None
    } else {
        match mem.at(addr, 128) {
            Some(buf) => {
                let s = utf8_lossy(string_bytes(buf));
                if is_plain(s) {
                    Some(s)
                } else {
                    None
                }
            },
            None => None,
        }
    }
}

fn string_text(buf: &Vec<u8>) -> (s: String)
    ensures
        s@ == utf8_lossy(string_bytes(buf@)),
{
    let n: usize = buf.len();
    let nul: usize = find_nul(buf.as_slice(), 0, n);
    let end: usize = if nul < n {
        nul
    } else if n <= 200 {
        n
    } else {
        200
    };
    let piece = vstd::slice::slice_subrange(buf.as_slice(), 0, end);
    assert(piece@ =~= string_bytes(buf@));
    lossy(piece)
}

/// The string at a place, where there is one that can be a path.
pub fn peek_cstr(mem: &Readings, addr: u64) -> (r: Option<String>)
    ensures
        match r {
            Some(s) => string_at(*mem, addr) == Some(s@),
            None => string_at(*mem, addr) is None,
        },
{
    if addr < 0x1000 {
        return None;
    }
    match mem.get(addr, 128) {
        Some(buf) => plain_text(string_text(buf)),
        None => None,
    }
}

/// A path, or the address of what is none.
pub open spec fn path_or_hex(mem: Readings, addr: u64) -> Seq<char> {
    match string_at(mem, addr) {
        Some(s) => s,
        None => hex_of(addr),
    }
}

fn path_text(mem: &Readings, addr: u64) -> (s: String)
    ensures
        s@ == path_or_hex(*mem, addr),
{
    match peek_cstr(mem, addr) {
        Some(s) => s,
        None => hex_string(addr),
    }
}

/// The bytes of a local socket's path: up to its zero; all of them, 108 at most, where it has
/// none.
pub open spec fn unix_path(buf: Seq<u8>) -> Seq<u8> {
    let rest = buf.skip(2);
    let nul = nul_from(rest, 0, rest.len() as int);
    if nul < rest.len() {
        rest.take(nul)
    } else {
        rest.take(least(rest.len() as int, 108))
    }
}

/// The text of a local socket's address, given its path.
pub open spec fn unix_text(path: Seq<char>) -> Seq<char> {
    "{AF_UNIX,\""@ + escaped(path) + "\"}"@
}

/// The text of a local socket's address, given its path.
pub fn unix_address(path: &str) -> (s: String)
    ensures
        s@ == unix_text(path@),
{
    let mut s = "{AF_UNIX,\"".to_owned();
    s.append(escape_str(path).as_str());
    s.append("\"}");
    s
}

/// The port in a socket address.
pub open spec fn port_of(buf: Seq<u8>) -> nat {
    (buf[2] * 256 + buf[3]) as nat
}

/// The text of a socket address of at least two bytes.
pub open spec fn address_text(buf: Seq<u8>) -> Seq<char> {
    let family = buf[0] + buf[1] * 256;
    if family == 1 {
        unix_text(
            if buf.len() > 2 {
                utf8_lossy(unix_path(buf))
            } else {
                Seq::empty()
            },
        )
    } else if family == 2 {
        if buf.len() < 8 {
            "{AF_INET,\u{2026}}"@
        } else {
            "{AF_INET,"@ + decimal(buf[4] as nat) + "."@ + decimal(buf[5] as nat) + "."@ + decimal(
                buf[6] as nat,
            ) + "."@ + decimal(buf[7] as nat) + ":"@ + decimal(port_of(buf)) + "}"@
        }
    } else if family == 10 {
        if buf.len() < 24 {
            "{AF_INET6,\u{2026}}"@
        } else {
            "{AF_INET6,port="@ + decimal(port_of(buf)) + "}"@
        }
    } else {
        "{af="@ + decimal(family as nat) + ",\u{2026}}"@
    }
}

/// The text of a socket address.
pub fn format_sockaddr(buf: &Vec<u8>) -> (s: String)
    requires
        buf@.len() >= 2,
    ensures
        s@ == address_text(buf@),
{
    let n: usize = buf.len();
    let family: u64 = buf[0] as u64 + buf[1] as u64 * 256;
    if family == 1 {
        if n > 2 {
            let rest = vstd::slice::slice_subrange(buf.as_slice(), 2, n);
            assert(rest@ =~= buf@.skip(2));
            let m: usize = rest.len();
            let nul: usize = find_nul(rest, 0, m);
            let end: usize = if nul < m {
                nul
            } else if m <= 108 {
                m
            } else {
                108
            };
            let piece = vstd::slice::slice_subrange(rest, 0, end);
            assert(piece@ =~= unix_path(buf@));
            let path = lossy(piece);
            return unix_address(path.as_str());
        }
        let none = String::new();
        assert(none@ =~= Seq::<char>::empty());
        return unix_address(none.as_str());
    }
    if family == 2 {
        if n < 8 {
            return "{AF_INET,\u{2026}}".to_owned();
        }
        let mut s = "{AF_INET,".to_owned();
        push_decimal(&mut s, buf[4] as u64);
        s.append(".");
        push_decimal(&mut s, buf[5] as u64);
        s.append(".");
        push_decimal(&mut s, buf[6] as u64);
        s.append(".");
        push_decimal(&mut s, buf[7] as u64);
        s.append(":");
        push_decimal(&mut s, buf[2] as u64 * 256 + buf[3] as u64);
        s.append("}");
        return s;
    }
    if family == 10 {
        if n < 24 {
            return "{AF_INET6,\u{2026}}".to_owned();
        }
        let mut s = "{AF_INET6,port=".to_owned();
        push_decimal(&mut s, buf[2] as u64 * 256 + buf[3] as u64);
        s.append("}");
        return s;
    }
    let mut s = "{af=".to_owned();
    push_decimal(&mut s, family);
    s.append(",\u{2026}}");
    s
}

/// How many bytes of a socket address are read: two at least, 128 at most.
pub open spec fn address_len(len: u64) -> int {
    if len < 2 {
        2
    } else {
        least(len as int, 128)
    }
}

/// What is shown of a socket address: its text, or where it is.
pub open spec fn address_or_hex(mem: Readings, addr: u64, len: u64) -> Seq<char> {
    if addr < 0x1000 || len == 0 {
        hex_of(addr)
    } else {
        match mem.at(addr, address_len(len)) {
            Some(buf) => if buf.len() < 2 {
                hex_of(addr)
            } else {
                address_text(buf)
            },
            None => hex_of(addr),
        }
    }
}

fn address_size(len: u64) -> (n: usize)
    ensures
        n == address_len(len),
{
    if len < 2 {
        2
    } else {
        least_u64(len, 128) as usize
    }
}

/// What is shown of a socket address.
pub fn peek_sockaddr(mem: &Readings, addr: u64, len: u64) -> (s: String)
    ensures
        s@ == address_or_hex(*mem, addr, len),
{
    if addr < 0x1000 || len == 0 {
        return hex_string(addr);
    }
    match mem.get(addr, address_size(len)) {
        Some(buf) => {
            if buf.len() < 2 {
                hex_string(addr)
            } else {
                format_sockaddr(buf)
            }
        },
        None => hex_string(addr),
    }
}

/// The first arguments in hexadecimal.
pub open spec fn hex_args(args: Seq<u64>, n: nat) -> Seq<Seq<char>> {
    Seq::new(n, |i: int| hex_of(args[i]))
}

fn hex_arg_texts(args: &[u64; 6], n: usize) -> (out: Vec<String>)
    requires
        n <= 6,
    ensures
        views(out@) == hex_args(args@, n as nat),
{
    let mut out: Vec<String> = Vec::new();
    let mut i: usize = 0;
    while i < n
        invariant
            i <= n <= 6,
            views(out@) == hex_args(args@, i as nat),
        decreases n - i,
    {
        let s = hex_string(args[i]);
        let ghost before = out@;
        out.push(s);
        i = i + 1;
        assert(views(out@) =~= views(before).push(s@));
        assert(views(out@) =~= hex_args(args@, i as nat));
    }
    out
}

/// A system call written out.
pub open spec fn call_text(mem: Readings, name: Seq<char>, a: Seq<u64>, retval: Option<i64>) -> Seq<
    char,
> {
    match form_of(name) {
        Form::PathSecond => name + "("@ + hex_of(a[0]) + ", \""@ + escaped(path_or_hex(mem, a[1]))
            + "\", "@ + hex_of(a[2]) + ", "@ + hex_of(a[3]) + ")"@,
        Form::PathFirst => name + "(\""@ + escaped(path_or_hex(mem, a[0])) + "\", "@ + hex_of(a[1])
            + ", "@ + hex_of(a[2]) + ", "@ + hex_of(a[3]) + ")"@,
        Form::Seek => "lseek("@ + hex_of(a[0]) + ", "@ + hex_of(a[1]) + ", whence="@ + hex_of(a[2])
            + ")"@,
        Form::Buffer => name + "("@ + hex_of(a[0]) + ", "@ + preview(
            mem,
            a[1],
            dump_len(name, a[2], retval),
        ) + ", "@ + hex_of(a[2]) + ")"@,
        Form::BufferAt => name + "("@ + hex_of(a[0]) + ", "@ + preview(
            mem,
            a[1],
            dump_len(name, a[2], retval),
        ) + ", "@ + hex_of(a[2]) + ", "@ + hex_of(a[3]) + ")"@,
        Form::Vector => name + "("@ + hex_of(a[0]) + ", "@ + list_preview(
            mem,
            name,
            a[1],
            a[2],
            retval,
        ) + ", "@ + decimal(a[2] as nat) + ")"@,
        Form::Datagram => name + "("@ + hex_of(a[0]) + ", "@ + preview(
            mem,
            a[1],
            dump_len(name, a[2], retval),
        ) + ", "@ + hex_of(a[2]) + ", "@ + hex_of(a[3]) + ", "@ + (if a[4] != 0 {
            address_or_hex(mem, a[4], a[5])
        } else {
            "null"@
        }) + ", "@ + hex_of(a[5]) + ")"@,
        Form::Address => name + "("@ + hex_of(a[0]) + ", "@ + address_or_hex(mem, a[1], a[2])
            + ", "@ + hex_of(a[2]) + ")"@,
        Form::Socket => "socket(domain="@ + hex_of(a[0]) + ", type="@ + hex_of(a[1]) + ", proto="@
            + hex_of(a[2]) + ")"@,
        Form::Clone => "clone(flags="@ + hex_of(a[0]) + ", stack="@ + hex_of(a[1]) + ", ptid="@
            + hex_of(a[2]) + ", tls="@ + hex_of(a[3]) + ", ctid="@ + hex_of(a[4]) + ")"@,
        Form::Futex => "futex("@ + hex_of(a[0]) + ", op="@ + hex_of(a[1]) + ", val="@ + hex_of(a[2])
            + ", \u{2026})"@,
        Form::Plain(n) => name + "("@ + joined(hex_args(a, n as nat), ", "@) + ")"@,
    }
}

/// Writes a system call out, with what was read of the process.
pub fn format_syscall_call(mem: &Readings, name: &str, args: &[u64; 6], retval: Option<i64>) -> (s:
    String)
    ensures
        s@ == call_text(*mem, name@, args@, retval),
{
    match form(name) {
        Form::PathSecond => {
            let mut s = name.to_owned();
            s.append("(");
            push_hex_of(&mut s, args[0]);
            s.append(", \"");
            let path = path_text(mem, args[1]);
            s.append(escape_str(path.as_str()).as_str());
            s.append("\", ");
            push_hex_of(&mut s, args[2]);
            s.append(", ");
            push_hex_of(&mut s, args[3]);
            s.append(")");
            s
        },
        Form::PathFirst => {
            let mut s = name.to_owned();
            s.append("(\"");
            let path = path_text(mem, args[0]);
            s.append(escape_str(path.as_str()).as_str());
            s.append("\", ");
            push_hex_of(&mut s, args[1]);
            s.append(", ");
            push_hex_of(&mut s, args[2]);
            s.append(", ");
            push_hex_of(&mut s, args[3]);
            s.append(")");
            s
        },
        Form::Seek => {
            let mut s = "lseek(".to_owned();
            push_hex_of(&mut s, args[0]);
            s.append(", ");
            push_hex_of(&mut s, args[1]);
            s.append(", whence=");
            push_hex_of(&mut s, args[2]);
            s.append(")");
            s
        },
        Form::Buffer => {
            let len: usize = buffer_dump_len(name, args[2], retval);
            let mut s = name.to_owned();
            s.append("(");
            push_hex_of(&mut s, args[0]);
            s.append(", ");
            s.append(format_mem_preview(mem, args[1], len).as_str());
            s.append(", ");
            push_hex_of(&mut s, args[2]);
            s.append(")");
            s
        },
        Form::BufferAt => {
            let len: usize = buffer_dump_len(name, args[2], retval);
            let mut s = name.to_owned();
            s.append("(");
            push_hex_of(&mut s, args[0]);
            s.append(", ");
            s.append(format_mem_preview(mem, args[1], len).as_str());
            s.append(", ");
            push_hex_of(&mut s, args[2]);
            s.append(", ");
            push_hex_of(&mut s, args[3]);
            s.append(")");
            s
        },
        Form::Vector => {
            let mut s = name.to_owned();
            s.append("(");
            push_hex_of(&mut s, args[0]);
            s.append(", ");
            s.append(format_iovec_preview(mem, name, args[1], args[2], retval).as_str());
            s.append(", ");
            push_decimal(&mut s, args[2]);
            s.append(")");
            s
        },
        Form::Datagram => {
            let len: usize = buffer_dump_len(name, args[2], retval);
            let mut s = name.to_owned();
            s.append("(");
            push_hex_of(&mut s, args[0]);
            s.append(", ");
            s.append(format_mem_preview(mem, args[1], len).as_str());
            s.append(", ");
            push_hex_of(&mut s, args[2]);
            s.append(", ");
            push_hex_of(&mut s, args[3]);
            s.append(", ");
            if args[4] != 0 {
                s.append(peek_sockaddr(mem, args[4], args[5]).as_str());
            } else {
                s.append("null");
            }
            s.append(", ");
            push_hex_of(&mut s, args[5]);
            s.append(")");
            s
        },
        Form::Address => {
            let mut s = name.to_owned();
            s.append("(");
            push_hex_of(&mut s, args[0]);
            s.append(", ");
            s.append(peek_sockaddr(mem, args[1], args[2]).as_str());
            s.append(", ");
            push_hex_of(&mut s, args[2]);
            s.append(")");
            s
        },
        Form::Socket => {
            let mut s = "socket(domain=".to_owned();
            push_hex_of(&mut s, args[0]);
            s.append(", type=");
            push_hex_of(&mut s, args[1]);
            s.append(", proto=");
            push_hex_of(&mut s, args[2]);
            s.append(")");
            s
        },
        Form::Clone => {
            let mut s = "clone(flags=".to_owned();
            push_hex_of(&mut s, args[0]);
            s.append(", stack=");
            push_hex_of(&mut s, args[1]);
            s.append(", ptid=");
            push_hex_of(&mut s, args[2]);
            s.append(", tls=");
            push_hex_of(&mut s, args[3]);
            s.append(", ctid=");
            push_hex_of(&mut s, args[4]);
            s.append(")");
            s
        },
        Form::Futex => {
            let mut s = "futex(".to_owned();
            push_hex_of(&mut s, args[0]);
            s.append(", op=");
            push_hex_of(&mut s, args[1]);
            s.append(", val=");
            push_hex_of(&mut s, args[2]);
            s.append(", \u{2026})");
            s
        },
        Form::Plain(n) => {
            let mut s = name.to_owned();
            s.append("(");
            let hexes = hex_arg_texts(args, n);
            s.append(join(&hexes, ", ").as_str());
            s.append(")");
            s
        },
    }
}

/// The place of a string, where there can be one.
pub open spec fn string_read(addr: u64) -> Seq<(u64, int)> {
    if addr < 0x1000 {
        Seq::empty()
    } else {
        seq![(addr, 128int)]
    }
}

/// The place of a buffer, where there is something to show.
pub open spec fn buffer_read(addr: u64, len: int) -> Seq<(u64, int)> {
    if worth_reading(addr, len) {
        seq![(addr, len)]
    } else {
        Seq::empty()
    }
}

/// The place of a socket address, where there can be one.
pub open spec fn address_read(addr: u64, len: u64) -> Seq<(u64, int)> {
    if addr < 0x1000 || len == 0 {
        Seq::empty()
    } else {
        seq![(addr, address_len(len))]
    }
}

/// The places of the buffers of a list.
pub open spec fn vector_reads(raw: Seq<u8>, n: int, i: int, total: int, left: int) -> Seq<
    (u64, int),
>
    decreases n - i,
{
    if i >= n || total >= 128 || left == 0 || 16 * i + 16 > raw.len() {
        Seq::empty()
    } else {
        let take = vector_take(raw, i, total, left);
        buffer_read(quad_at(raw, 16 * i), take) + vector_reads(
            raw,
            n,
            i + 1,
            total + take,
            left - take,
        )
    }
}

/// The places of a list of buffers: the list, and what it points to once it was read.
pub open spec fn list_reads(
    mem: Readings,
    name: Seq<char>,
    iov: u64,
    iovcnt: u64,
    retval: Option<i64>,
) -> Seq<(u64, int)> {
    let n = list_len(iovcnt);
    let budget = list_budget(name, retval);
    let read = mem.at(iov, 16 * n);
    if iov < 0x1000 || iovcnt == 0 {
        Seq::empty()
    } else if read is None || read.unwrap().len() < 16 || (budget == 0 && fills_list(name)) {
        seq![(iov, 16 * n)]
    } else {
        seq![(iov, 16 * n)] + vector_reads(read.unwrap(), n, 0, 0, budget)
    }
}

/// The places that are shown when a system call is written out.
pub open spec fn reads_of(mem: Readings, name: Seq<char>, a: Seq<u64>, retval: Option<i64>) -> Seq<
    (u64, int),
> {
    match form_of(name) {
        Form::PathSecond => string_read(a[1]),
        Form::PathFirst => string_read(a[0]),
        Form::Buffer | Form::BufferAt => buffer_read(a[1], dump_len(name, a[2], retval)),
        Form::Vector => list_reads(mem, name, a[1], a[2], retval),
        Form::Datagram => buffer_read(a[1], dump_len(name, a[2], retval)) + (if a[4] != 0 {
            address_read(a[4], a[5])
        } else {
            Seq::empty()
        }),
        Form::Address => address_read(a[1], a[2]),
        _ => Seq::empty(),
    }
}

/// Some places with their lengths.
pub open spec fn places(v: Seq<(u64, usize)>) -> Seq<(u64, int)> {
    v.map_values(|p: (u64, usize)| (p.0, p.1 as int))
}

fn vector_places(raw: &Vec<u8>, n: usize, budget: usize) -> (out: Vec<(u64, usize)>)
    requires
        n <= 8,
        budget <= 128,
    ensures
        places(out@) == vector_reads(raw@, n as int, 0, 0, budget as int),
{
    let mut out: Vec<(u64, usize)> = Vec::new();
    let mut i: usize = 0;
    let mut total: usize = 0;
    let mut left: usize = budget;
    let len: usize = raw.len();
    let ghost all = vector_reads(raw@, n as int, 0, 0, budget as int);
    assert(places(out@) + all =~= all);
    while i < n && total < 128 && left > 0 && 16 * i + 16 <= len
        invariant
            n <= 8,
            i <= n,
            len == raw@.len(),
            total <= 128,
            left <= 128,
            places(out@) + vector_reads(raw@, n as int, i as int, total as int, left as int)
                == all,
        decreases n - i,
    {
        let ghost before = out@;
        let base: u64 = crate::bytes::get_u64(raw.as_slice(), 16 * i);
        let ilen: u64 = crate::bytes::get_u64(raw.as_slice(), 16 * i + 8);
        let take: usize = least_u64(
            least_u64(ilen, left as u64),
            (128 - total) as u64,
        ) as usize;
        let ghost later = vector_reads(raw@, n as int, i + 1, total + take, left - take);
        if base >= 0x1000 && take > 0 {
            out.push((base, take));
            assert(places(out@) =~= places(before) + buffer_read(base, take as int));
        } else {
            assert(places(out@) =~= places(before) + buffer_read(base, take as int));
        }
        assert(places(before) + (buffer_read(base, take as int) + later) =~= places(out@) + later);
        total = total + take;
        left = left - take;
        i = i + 1;
    }
    assert(places(out@) =~= all);
    out
}

fn list_places(
    mem: &Readings,
    name: &str,
    iov: u64,
    iovcnt: u64,
    retval: Option<i64>,
) -> (out: Vec<(u64, usize)>)
    ensures
        places(out@) == list_reads(*mem, name@, iov, iovcnt, retval),
{
    let mut out: Vec<(u64, usize)> = Vec::new();
    if iov < 0x1000 || iovcnt == 0 {
        assert(places(out@) =~= Seq::<(u64, int)>::empty());
        return out;
    }
    let n: usize = least_u64(iovcnt, 8) as usize;
    out.push((iov, 16 * n));
    assert(places(out@) =~= seq![(iov, 16 * (n as int))]);
    match mem.get(iov, 16 * n) {
        Some(raw) => {
            let (budget, inbound) = budget_of(name, retval);
            if raw.len() >= 16 && !(budget == 0 && inbound) {
                let mut more = vector_places(raw, n, budget);
                let ghost first = out@;
                let ghost rest = more@;
                out.append(&mut more);
                assert(places(out@) =~= places(first) + places(rest));
            }
        },
        None => {},
    }
    out
}

fn wanted_places(mem: &Readings, name: &str, args: &[u64; 6], retval: Option<i64>) -> (out: Vec<
    (u64, usize),
>)
    ensures
        places(out@) == reads_of(*mem, name@, args@, retval),
{
    let mut out: Vec<(u64, usize)> = Vec::new();
    match form(name) {
        Form::PathSecond => {
            if args[1] >= 0x1000 {
                out.push((args[1], 128));
            }
        },
        Form::PathFirst => {
            if args[0] >= 0x1000 {
                out.push((args[0], 128));
            }
        },
        Form::Buffer | Form::BufferAt => {
            let len: usize = buffer_dump_len(name, args[2], retval);
            if args[1] >= 0x1000 && len > 0 {
                out.push((args[1], len));
            }
        },
        Form::Vector => {
            return list_places(mem, name, args[1], args[2], retval);
        },
        Form::Datagram => {
            let len: usize = buffer_dump_len(name, args[2], retval);
            if args[1] >= 0x1000 && len > 0 {
                out.push((args[1], len));
            }
            if args[4] >= 0x1000 && args[5] != 0 {
                out.push((args[4], address_size(args[5])));
            }
        },
        Form::Address => {
            if args[1] >= 0x1000 && args[2] != 0 {
                out.push((args[1], address_size(args[2])));
            }
        },
        _ => {},
    }
    assert(places(out@) =~= reads_of(*mem, name@, args@, retval));
    out
}

/// The next place to read before a system call is written out; `None` once all was read.
pub fn next_read(mem: &Readings, name: &str, args: &[u64; 6], retval: Option<i64>) -> (r: Option<
    (u64, usize),
>)
    ensures
        match r {
            Some((addr, len)) => reads_of(*mem, name@, args@, retval).contains((addr, len as int))
                && !mem.knows(addr, len as int),
            None => forall|i: int|
                0 <= i < reads_of(*mem, name@, args@, retval).len() ==> mem.knows(
                    (#[trigger] reads_of(*mem, name@, args@, retval)[i]).0,
                    reads_of(*mem, name@, args@, retval)[i].1,
                ),
        },
{
    let wanted = wanted_places(mem, name, args, retval);
    let mut i: usize = 0;
    let ghost all = reads_of(*mem, name@, args@, retval);
    while i < wanted.len()
        invariant
            i <= wanted@.len(),
            places(wanted@) == all,
            all == reads_of(*mem, name@, args@, retval),
            forall|j: int| 0 <= j < i ==> mem.knows((#[trigger] all[j]).0, all[j].1),
        decreases wanted@.len() - i,
    {
        let (addr, len) = wanted[i];
        assert(all[i as int] == (addr, len as int));
        match mem.find(addr, len) {
            Some(_) => {},
            None => {
                return Some((addr, len));
            },
        }
        i = i + 1;
    }
    None
}

/// Whether two collections of readings agree on some places.
pub open spec fn agree(a: Readings, b: Readings, at: Seq<(u64, int)>) -> bool {
    forall|i: int| 0 <= i < at.len() ==> a.at((#[trigger] at[i]).0, at[i].1) == b.at(at[i].0, at[i].1)
}

/// What is written of a system call depends on nothing but its arguments, what it returned,
/// and the places that are read for it.
pub proof fn law_text_depends_on_reads(
    a: Readings,
    b: Readings,
    name: Seq<char>,
    args: Seq<u64>,
    retval: Option<i64>,
)
    requires
        args.len() == 6,
        agree(a, b, reads_of(a, name, args, retval)),
    ensures
        call_text(a, name, args, retval) == call_text(b, name, args, retval),
{
    let at = reads_of(a, name, args, retval);
    match form_of(name) {
        Form::PathSecond => {
            if args[1] >= 0x1000 {
                assert(at[0] == (args[1], 128int));
            }
        },
        Form::PathFirst => {
            if args[0] >= 0x1000 {
                assert(at[0] == (args[0], 128int));
            }
        },
        Form::Buffer | Form::BufferAt => {
            lemma_preview(a, b, args[1], dump_len(name, args[2], retval));
        },
        Form::Vector => {
            lemma_list(a, b, name, args[1], args[2], retval);
        },
        Form::Datagram => {
            let len = dump_len(name, args[2], retval);
            let first = buffer_read(args[1], len);
            let second = address_read(args[4], args[5]);
            assert(agree(a, b, first)) by {
                assert forall|i: int| 0 <= i < first.len() implies a.at(
                    (#[trigger] first[i]).0,
                    first[i].1,
                ) == b.at(first[i].0, first[i].1) by {
                    assert(at[i] == first[i]);
                }
            }
            lemma_preview(a, b, args[1], len);
            if args[4] != 0 && second.len() > 0 {
                assert(at[first.len() as int] == second[0]);
            }
        },
        Form::Address => {
            if args[1] >= 0x1000 && args[2] != 0 {
                assert(at[0] == (args[1], address_len(args[2])));
            }
        },
        _ => {},
    }
}

proof fn lemma_preview(a: Readings, b: Readings, addr: u64, len: int)
    requires
        agree(a, b, buffer_read(addr, len)),
    ensures
        preview(a, addr, len) == preview(b, addr, len),
{
    if worth_reading(addr, len) {
        assert(buffer_read(addr, len)[0] == (addr, len));
    }
}

proof fn lemma_vector(
    a: Readings,
    b: Readings,
    raw: Seq<u8>,
    n: int,
    i: int,
    total: int,
    left: int,
)
    requires
        agree(a, b, vector_reads(raw, n, i, total, left)),
    ensures
        vector_parts(a, raw, n, i, total, left) == vector_parts(b, raw, n, i, total, left),
    decreases n - i,
{
    if i < n && total < 128 && left != 0 && 16 * i + 16 <= raw.len() {
        let take = vector_take(raw, i, total, left);
        let first = buffer_read(quad_at(raw, 16 * i), take);
        let rest = vector_reads(raw, n, i + 1, total + take, left - take);
        let at = vector_reads(raw, n, i, total, left);
        assert(at == first + rest);
        assert forall|k: int| 0 <= k < first.len() implies a.at((#[trigger] first[k]).0, first[k].1)
            == b.at(first[k].0, first[k].1) by {
            assert(at[k] == first[k]);
        }
        assert forall|k: int| 0 <= k < rest.len() implies a.at((#[trigger] rest[k]).0, rest[k].1)
            == b.at(rest[k].0, rest[k].1) by {
            assert(at[first.len() + k] == rest[k]);
        }
        lemma_preview(a, b, quad_at(raw, 16 * i), take);
        lemma_vector(a, b, raw, n, i + 1, total + take, left - take);
    }
}

proof fn lemma_list(
    a: Readings,
    b: Readings,
    name: Seq<char>,
    iov: u64,
    iovcnt: u64,
    retval: Option<i64>,
)
    requires
        agree(a, b, list_reads(a, name, iov, iovcnt, retval)),
    ensures
        list_preview(a, name, iov, iovcnt, retval) == list_preview(b, name, iov, iovcnt, retval),
{
    let at = list_reads(a, name, iov, iovcnt, retval);
    let n = list_len(iovcnt);
    let budget = list_budget(name, retval);
    if iov >= 0x1000 && iovcnt != 0 {
        assert(at[0] == (iov, 16 * n));
        let read = a.at(iov, 16 * n);
        if read is Some && read.unwrap().len() >= 16 && !(budget == 0 && fills_list(name)) {
            let rest = vector_reads(read.unwrap(), n, 0, 0, budget);
            assert forall|k: int| 0 <= k < rest.len() implies a.at((#[trigger] rest[k]).0, rest[k].1)
                == b.at(rest[k].0, rest[k].1) by {
                assert(at[1 + k] == rest[k]);
            }
            lemma_vector(a, b, read.unwrap(), n, 0, 0, budget);
        }
    }
}

} // verus!
