//! Loading a library from memory, and in a name space of its own.
use crate::bytes::{le32, le64};
use crate::elf::{find_nul, lossy, nul_from, utf8_lossy};
use crate::inject::{
    caller_at, is_bad_map, is_handle, moved, plausible_so_handle, value, value_of, Answer,
};
use crate::remote::{hex_of, push_hex_of, TraceeError};
use crate::syscall_trace::{as_signed64, signed64};
use crate::text::{
    chars_of, decimal, push_decimal, push_signed, same_chars, signed_decimal, string_of, views,
};
use vstd::prelude::*;
use vstd::string::*;

verus! {

/// What the loader is told about a library: flags, the file to load from and the name space.
#[derive(Debug, Clone, Copy, PartialEq, Eq, Structural)]
pub struct LoadInfo {
    pub flags: u64,
    pub fd: u32,
    pub namespace: u64,
}

/// The bytes of what the loader is told: flags, two empty words, no file for relocations, the
/// file, its offset and the name space.
pub open spec fn info_bytes(i: LoadInfo) -> Seq<u8> {
    le64(i.flags) + le64(0) + le64(0) + le32(0xffff_ffff) + le32(i.fd) + le64(0) + le64(i.namespace)
}

/// The bytes of what the loader is told.
pub fn encode_info(i: LoadInfo) -> (out: Vec<u8>)
    ensures
        out@ == info_bytes(i),
        out@.len() == 0x30,
{
    let mut out: Vec<u8> = Vec::new();
    crate::bytes::push_u64(&mut out, i.flags);
    crate::bytes::push_u64(&mut out, 0);
    crate::bytes::push_u64(&mut out, 0);
    crate::bytes::push_u32(&mut out, 0xffff_ffff);
    crate::bytes::push_u32(&mut out, i.fd);
    crate::bytes::push_u64(&mut out, 0);
    crate::bytes::push_u64(&mut out, i.namespace);
    assert(out@ =~= info_bytes(i));
    out
}

/// Flags: load from a file, at an offset.
pub const USE_FD: u64 = 0x30;

/// Flags: load in a name space.
pub const USE_NAMESPACE: u64 = 0x200;

/// Size of the stack that the loader is called on.
pub const STACK_LEN: u64 = 0x4_0000;

/// `n` rounded up to whole pages.
pub open spec fn page_up(n: u64) -> u64 {
    ((n + 0xfff) / 0x1000 * 0x1000) as u64
}

/// The top of a stack, aligned.
pub open spec fn stack_top(stack: u64) -> u64 {
    let end = moved(stack, STACK_LEN as int);
    (end - end % 16) as u64
}

/// Why a library was not loaded from memory.
#[derive(Debug, Clone, Copy, PartialEq, Eq, Structural)]
pub enum MemoryReason {
    /// Its file could not be read.
    Unreadable,
    /// An operation in the process failed.
    Remote,
    /// The memory file could not be made; the kernel's answer.
    NoFile(u64),
    /// No buffer for the library; the kernel's answer.
    NoBuffer(u64),
    /// The memory file could not be filled: how far it was, and the kernel's answer.
    NotWritten(u64, u64),
    /// No page to return to; the kernel's answer.
    NoPage(u64),
    /// That page could not be made executable; the kernel's answer.
    NotExecutable(u64),
    /// No stack; the kernel's answer.
    NoStack(u64),
    /// The loader's answer is no handle.
    NoHandle(u64),
}

#[derive(Debug, Clone, Copy, PartialEq, Eq, Structural)]
pub enum MemoryOutcome {
    /// The handle; zero where the loader was not found.
    Loaded(u64),
    Failed(MemoryReason),
}

/// Where loading from memory stands: the operation whose answer it waits for.
#[derive(Debug, Clone, Copy, PartialEq, Eq, Structural)]
pub enum MemoryPhase {
    Reading,
    Unprotecting,
    WritingName,
    Creating,
    MappingBuffer,
    Copying,
    Filling,
    Seeking,
    NamingAgain,
    WritingInfo,
    MappingPage,
    WritingBreak,
    Protecting,
    MappingStack,
    ResolvingLoader,
    ResolvingPlain,
    Calling,
    AskingError,
    Closing,
    Finished,
}

/// An operation of loading from memory.
#[derive(Debug, Clone, Copy, PartialEq, Eq, Structural)]
pub enum MemoryOp {
    /// Read the library's file; its size.
    ReadLibrary,
    Protect { addr: u64, run: bool },
    WriteName { addr: u64 },
    CreateFile { name: u64 },
    NewMemory { len: u64 },
    WriteLibrary { addr: u64 },
    WriteFile { fd: u64, addr: u64, len: u64 },
    Rewind { fd: u64 },
    WriteInfo { addr: u64, info: LoadInfo },
    WriteBreak { addr: u64 },
    /// The address of the loader's own function.
    ResolveLoader,
    /// The address of the function for everyone.
    ResolvePlain,
    /// Call it, to return to `lr`; the loader's own also takes a caller's address.
    Call { func: u64, name: u64, info_addr: u64, caller: Option<u64>, lr: u64, sp: u64 },
    LastError,
    Close { fd: u64 },
    Finish(MemoryOutcome),
}

/// The state of loading from memory.
#[derive(Debug, Clone, Copy, PartialEq, Eq, Structural)]
pub struct MemoryLoad {
    pub phase: MemoryPhase,
    /// Page of scratch memory in the process.
    pub page: u64,
    pub libc: u64,
    /// Size of the library.
    pub len: u64,
    pub fd: u64,
    pub buf: u64,
    /// How much of the memory file is filled.
    pub off: u64,
    /// Page to return to.
    pub brk: u64,
    pub stack: u64,
    pub func: u64,
    pub own: bool,
    pub outcome: MemoryOutcome,
}

impl MemoryLoad {
    /// The operation that is due.
    pub open spec fn due(self) -> MemoryOp {
        match self.phase {
            MemoryPhase::Reading => MemoryOp::ReadLibrary,
            MemoryPhase::Unprotecting => MemoryOp::Protect { addr: self.page, run: false },
            MemoryPhase::WritingName | MemoryPhase::NamingAgain => MemoryOp::WriteName {
                addr: self.page,
            },
            MemoryPhase::Creating => MemoryOp::CreateFile { name: self.page },
            MemoryPhase::MappingBuffer => MemoryOp::NewMemory { len: page_up(self.len) },
            MemoryPhase::Copying => MemoryOp::WriteLibrary { addr: self.buf },
            MemoryPhase::Filling => MemoryOp::WriteFile {
                fd: self.fd,
                addr: moved(self.buf, self.off as int),
                len: (self.len - self.off) as u64,
            },
            MemoryPhase::Seeking => MemoryOp::Rewind { fd: self.fd },
            MemoryPhase::WritingInfo => MemoryOp::WriteInfo {
                addr: moved(self.page, 0x400),
                info: LoadInfo {
                    flags: USE_FD,
                    fd: (self.fd % 0x1_0000_0000) as u32,
                    namespace: 0,
                },
            },
            MemoryPhase::MappingPage => MemoryOp::NewMemory { len: 0x1000 },
            MemoryPhase::WritingBreak => MemoryOp::WriteBreak { addr: self.brk },
            MemoryPhase::Protecting => MemoryOp::Protect { addr: self.brk, run: true },
            MemoryPhase::MappingStack => MemoryOp::NewMemory { len: STACK_LEN },
            MemoryPhase::ResolvingLoader => MemoryOp::ResolveLoader,
            MemoryPhase::ResolvingPlain => MemoryOp::ResolvePlain,
            MemoryPhase::Calling => MemoryOp::Call {
                func: self.func,
                name: self.page,
                info_addr: moved(self.page, 0x400),
                caller: if self.own {
                    Some(caller_at(self.libc))
                } else {
                    None
                },
                lr: self.brk,
                sp: stack_top(self.stack),
            },
            MemoryPhase::AskingError => MemoryOp::LastError,
            MemoryPhase::Closing => MemoryOp::Close { fd: self.fd },
            MemoryPhase::Finished => MemoryOp::Finish(self.outcome),
        }
    }

    pub open spec fn at(self, phase: MemoryPhase) -> MemoryLoad {
        MemoryLoad { phase, ..self }
    }

    /// Over, with nothing to close or an operation that failed.
    pub open spec fn ends(self, outcome: MemoryOutcome) -> MemoryLoad {
        MemoryLoad { phase: MemoryPhase::Finished, outcome, ..self }
    }

    /// Over, once the memory file is closed.
    pub open spec fn closes(self, outcome: MemoryOutcome) -> MemoryLoad {
        MemoryLoad { phase: MemoryPhase::Closing, outcome, ..self }
    }

    pub open spec fn unless_fault(self, a: Answer, phase: MemoryPhase) -> MemoryLoad {
        if a is Fault {
            self.ends(MemoryOutcome::Failed(MemoryReason::Remote))
        } else {
            self.at(phase)
        }
    }

    /// On to fill the memory file, or past that where it is full.
    pub open spec fn fills(self) -> MemoryLoad {
        if self.off < self.len {
            self.at(MemoryPhase::Filling)
        } else {
            self.at(MemoryPhase::Seeking)
        }
    }

    /// On to the call of a function; over where there is none.
    pub open spec fn calls(self, func: u64, own: bool) -> MemoryLoad {
        if func == 0 {
            self.closes(MemoryOutcome::Loaded(0))
        } else {
            MemoryLoad { func, own, ..self.at(MemoryPhase::Calling) }
        }
    }

    /// The state after an answer.
    pub open spec fn after(self, a: Answer) -> MemoryLoad {
        let v = value_of(a);
        let remote = self.ends(MemoryOutcome::Failed(MemoryReason::Remote));
        match self.phase {
            MemoryPhase::Reading => if a is Value {
                MemoryLoad { len: v, ..self.at(MemoryPhase::Unprotecting) }
            } else {
                self.ends(MemoryOutcome::Failed(MemoryReason::Unreadable))
            },
            MemoryPhase::Unprotecting => self.at(MemoryPhase::WritingName),
            MemoryPhase::WritingName => self.unless_fault(a, MemoryPhase::Creating),
            MemoryPhase::Creating => if a is Fault {
                remote
            } else if signed64(v) < 0 {
                self.ends(MemoryOutcome::Failed(MemoryReason::NoFile(v)))
            } else {
                MemoryLoad { fd: v, ..self.at(MemoryPhase::MappingBuffer) }
            },
            MemoryPhase::MappingBuffer => if a is Fault {
                remote
            } else if is_bad_map(v) {
                self.closes(MemoryOutcome::Failed(MemoryReason::NoBuffer(v)))
            } else {
                MemoryLoad { buf: v, off: 0, ..self.at(MemoryPhase::Copying) }
            },
            MemoryPhase::Copying => if a is Fault {
                remote
            } else {
                self.fills()
            },
            MemoryPhase::Filling => if a is Fault {
                remote
            } else if signed64(v) <= 0 {
                self.closes(MemoryOutcome::Failed(MemoryReason::NotWritten(self.off, v)))
            } else {
                MemoryLoad { off: (self.off + v) as u64, ..self }.fills()
            },
            MemoryPhase::Seeking => self.unless_fault(a, MemoryPhase::NamingAgain),
            MemoryPhase::NamingAgain => self.unless_fault(a, MemoryPhase::WritingInfo),
            MemoryPhase::WritingInfo => self.unless_fault(a, MemoryPhase::MappingPage),
            MemoryPhase::MappingPage => if a is Fault {
                remote
            } else if is_bad_map(v) {
                self.closes(MemoryOutcome::Failed(MemoryReason::NoPage(v)))
            } else {
                MemoryLoad { brk: v, ..self.at(MemoryPhase::WritingBreak) }
            },
            MemoryPhase::WritingBreak => self.unless_fault(a, MemoryPhase::Protecting),
            MemoryPhase::Protecting => if a is Fault {
                remote
            } else if v != 0 {
                self.closes(MemoryOutcome::Failed(MemoryReason::NotExecutable(v)))
            } else {
                self.at(MemoryPhase::MappingStack)
            },
            MemoryPhase::MappingStack => if a is Fault {
                remote
            } else if is_bad_map(v) {
                self.closes(MemoryOutcome::Failed(MemoryReason::NoStack(v)))
            } else {
                MemoryLoad { stack: v, ..self.at(MemoryPhase::ResolvingLoader) }
            },
            MemoryPhase::ResolvingLoader => if a is Value {
                self.calls(v, true)
            } else {
                self.at(MemoryPhase::ResolvingPlain)
            },
            MemoryPhase::ResolvingPlain => self.calls(v, false),
            MemoryPhase::Calling => if a is Fault {
                remote
            } else if is_handle(v) {
                self.closes(MemoryOutcome::Loaded(v))
            } else {
                MemoryLoad {
                    outcome: MemoryOutcome::Failed(MemoryReason::NoHandle(v)),
                    ..self.at(MemoryPhase::AskingError)
                }
            },
            MemoryPhase::AskingError => self.at(MemoryPhase::Closing),
            MemoryPhase::Closing => self.at(MemoryPhase::Finished),
            MemoryPhase::Finished => self,
        }
    }

    /// Whether the state is in order: no more than the library's size is left to write, and an
    /// outcome with a handle has a plausible one.
    pub open spec fn wf(self) -> bool {
        &&& self.len <= i64::MAX
        &&& self.phase is Filling ==> self.off < self.len
        &&& self.outcome matches MemoryOutcome::Loaded(h) ==> h == 0 || is_handle(h)
    }

    /// Loading from memory that is about to start.
    pub fn new(page: u64, libc: u64) -> (s: MemoryLoad)
        ensures
            s.wf(),
            s == (MemoryLoad {
                phase: MemoryPhase::Reading,
                page,
                libc,
                len: 0,
                fd: 0,
                buf: 0,
                off: 0,
                brk: 0,
                stack: 0,
                func: 0,
                own: false,
                outcome: MemoryOutcome::Loaded(0),
            }),
    {
        MemoryLoad {
            phase: MemoryPhase::Reading,
            page,
            libc,
            len: 0,
            fd: 0,
            buf: 0,
            off: 0,
            brk: 0,
            stack: 0,
            func: 0,
            own: false,
            outcome: MemoryOutcome::Loaded(0),
        }
    }

    /// The operation that is due.
    pub fn op(&self) -> (op: MemoryOp)
        requires
            self.wf(),
        ensures
            op == self.due(),
    {
        match self.phase {
            MemoryPhase::Reading => MemoryOp::ReadLibrary,
            MemoryPhase::Unprotecting => MemoryOp::Protect { addr: self.page, run: false },
            MemoryPhase::WritingName | MemoryPhase::NamingAgain => MemoryOp::WriteName {
                addr: self.page,
            },
            MemoryPhase::Creating => MemoryOp::CreateFile { name: self.page },
            MemoryPhase::MappingBuffer => MemoryOp::NewMemory {
                len: (self.len + 0xfff) / 0x1000 * 0x1000,
            },
            MemoryPhase::Copying => MemoryOp::WriteLibrary { addr: self.buf },
            MemoryPhase::Filling => MemoryOp::WriteFile {
                fd: self.fd,
                addr: self.buf.wrapping_add(self.off),
                len: self.len - self.off,
            },
            MemoryPhase::Seeking => MemoryOp::Rewind { fd: self.fd },
            MemoryPhase::WritingInfo => MemoryOp::WriteInfo {
                addr: self.page.wrapping_add(0x400),
                info: LoadInfo {
                    flags: USE_FD,
                    fd: (self.fd % 0x1_0000_0000) as u32,
                    namespace: 0,
                },
            },
            MemoryPhase::MappingPage => MemoryOp::NewMemory { len: 0x1000 },
            MemoryPhase::WritingBreak => MemoryOp::WriteBreak { addr: self.brk },
            MemoryPhase::Protecting => MemoryOp::Protect { addr: self.brk, run: true },
            MemoryPhase::MappingStack => MemoryOp::NewMemory { len: STACK_LEN },
            MemoryPhase::ResolvingLoader => MemoryOp::ResolveLoader,
            MemoryPhase::ResolvingPlain => MemoryOp::ResolvePlain,
            MemoryPhase::Calling => {
                let end: u64 = self.stack.wrapping_add(STACK_LEN);
                MemoryOp::Call {
                    func: self.func,
                    name: self.page,
                    info_addr: self.page.wrapping_add(0x400),
                    caller: if self.own {
                        Some(
                            if self.libc == 0 {
                                1
                            } else {
                                self.libc
                            },
                        )
                    } else {
                        None
                    },
                    lr: self.brk,
                    sp: end - end % 16,
                }
            },
            MemoryPhase::AskingError => MemoryOp::LastError,
            MemoryPhase::Closing => MemoryOp::Close { fd: self.fd },
            MemoryPhase::Finished => MemoryOp::Finish(self.outcome),
        }
    }

    fn go(&mut self, phase: MemoryPhase)
        ensures
            *final(self) == old(self).at(phase),
    {
        self.phase = phase;
    }

    fn fail(&mut self, r: MemoryReason)
        ensures
            *final(self) == old(self).ends(MemoryOutcome::Failed(r)),
    {
        self.phase = MemoryPhase::Finished;
        self.outcome = MemoryOutcome::Failed(r);
    }

    fn close(&mut self, outcome: MemoryOutcome)
        ensures
            *final(self) == old(self).closes(outcome),
    {
        self.phase = MemoryPhase::Closing;
        self.outcome = outcome;
    }

    fn go_unless_fault(&mut self, a: Answer, phase: MemoryPhase)
        ensures
            *final(self) == old(self).unless_fault(a, phase),
    {
        match a {
            Answer::Fault => {
                self.fail(MemoryReason::Remote);
            },
            _ => {
                self.go(phase);
            },
        }
    }

    fn fill(&mut self)
        ensures
            *final(self) == old(self).fills(),
    {
        if self.off < self.len {
            self.go(MemoryPhase::Filling);
        } else {
            self.go(MemoryPhase::Seeking);
        }
    }

    fn call(&mut self, func: u64, own: bool)
        ensures
            *final(self) == old(self).calls(func, own),
    {
        if func == 0 {
            self.close(MemoryOutcome::Loaded(0));
        } else {
            self.func = func;
            self.own = own;
            self.go(MemoryPhase::Calling);
        }
    }

    /// Goes on with the answer to the operation that was due. The size of a file is at most
    /// that of a signed number.
    pub fn step(&mut self, a: Answer)
        requires
            old(self).wf(),
            old(self).phase is Reading ==> value_of(a) <= i64::MAX,
        ensures
            *final(self) == old(self).after(a),
            final(self).wf(),
    {
        let v: u64 = value(a);
        let fault = matches!(a, Answer::Fault);
        let valued = matches!(a, Answer::Value(_));
        let bad = v == 0 || v >= 0xffff_ffff_ffff_f000;
        match self.phase {
            MemoryPhase::Reading => {
                if valued {
                    self.len = v;
                    self.go(MemoryPhase::Unprotecting);
                } else {
                    self.fail(MemoryReason::Unreadable);
                }
            },
            MemoryPhase::Unprotecting => {
                self.go(MemoryPhase::WritingName);
            },
            MemoryPhase::WritingName => {
                self.go_unless_fault(a, MemoryPhase::Creating);
            },
            MemoryPhase::Creating => {
                if fault {
                    self.fail(MemoryReason::Remote);
                } else if v > 0x7fff_ffff_ffff_ffff {
                    self.fail(MemoryReason::NoFile(v));
                } else {
                    self.fd = v;
                    self.go(MemoryPhase::MappingBuffer);
                }
            },
            MemoryPhase::MappingBuffer => {
                if fault {
                    self.fail(MemoryReason::Remote);
                } else if bad {
                    self.close(MemoryOutcome::Failed(MemoryReason::NoBuffer(v)));
                } else {
                    self.buf = v;
                    self.off = 0;
                    self.go(MemoryPhase::Copying);
                }
            },
            MemoryPhase::Copying => {
                if fault {
                    self.fail(MemoryReason::Remote);
                } else {
                    self.fill();
                }
            },
            MemoryPhase::Filling => {
                if fault {
                    self.fail(MemoryReason::Remote);
                } else if v == 0 || v > 0x7fff_ffff_ffff_ffff {
                    self.close(MemoryOutcome::Failed(MemoryReason::NotWritten(self.off, v)));
                } else {
                    self.off = self.off + v;
                    self.fill();
                }
            },
            MemoryPhase::Seeking => {
                self.go_unless_fault(a, MemoryPhase::NamingAgain);
            },
            MemoryPhase::NamingAgain => {
                self.go_unless_fault(a, MemoryPhase::WritingInfo);
            },
            MemoryPhase::WritingInfo => {
                self.go_unless_fault(a, MemoryPhase::MappingPage);
            },
            MemoryPhase::MappingPage => {
                if fault {
                    self.fail(MemoryReason::Remote);
                } else if bad {
                    self.close(MemoryOutcome::Failed(MemoryReason::NoPage(v)));
                } else {
                    self.brk = v;
                    self.go(MemoryPhase::WritingBreak);
                }
            },
            MemoryPhase::WritingBreak => {
                self.go_unless_fault(a, MemoryPhase::Protecting);
            },
            MemoryPhase::Protecting => {
                if fault {
                    self.fail(MemoryReason::Remote);
                } else if v != 0 {
                    self.close(MemoryOutcome::Failed(MemoryReason::NotExecutable(v)));
                } else {
                    self.go(MemoryPhase::MappingStack);
                }
            },
            MemoryPhase::MappingStack => {
                if fault {
                    self.fail(MemoryReason::Remote);
                } else if bad {
                    self.close(MemoryOutcome::Failed(MemoryReason::NoStack(v)));
                } else {
                    self.stack = v;
                    self.go(MemoryPhase::ResolvingLoader);
                }
            },
            MemoryPhase::ResolvingLoader => {
                if valued {
                    self.call(v, true);
                } else {
                    self.go(MemoryPhase::ResolvingPlain);
                }
            },
            MemoryPhase::ResolvingPlain => {
                self.call(v, false);
            },
            MemoryPhase::Calling => {
                if fault {
                    self.fail(MemoryReason::Remote);
                } else if plausible_so_handle(v) {
                    self.close(MemoryOutcome::Loaded(v));
                } else {
                    self.outcome = MemoryOutcome::Failed(MemoryReason::NoHandle(v));
                    self.go(MemoryPhase::AskingError);
                }
            },
            MemoryPhase::AskingError => {
                self.go(MemoryPhase::Closing);
            },
            MemoryPhase::Closing => {
                self.go(MemoryPhase::Finished);
            },
            MemoryPhase::Finished => {},
        }
    }

    /// Whether the memory file is open.
    pub open spec fn holds_file(self) -> bool {
        !(self.phase is Reading || self.phase is Unprotecting || self.phase is WritingName
            || self.phase is Creating || self.phase is Finished)
    }
}

/// The memory file is closed before loading from memory is over, unless an operation in the
/// process failed.
pub proof fn law_file_is_closed(s: MemoryLoad, a: Answer)
    requires
        s.holds_file(),
        s.after(a).phase is Finished,
    ensures
        s.due() is Close || (a is Fault && s.after(a).outcome == MemoryOutcome::Failed(
            MemoryReason::Remote,
        )),
{
}

/// What is written to the memory file is the library from where the last write ended, and
/// every write brings it nearer to its end.
pub proof fn law_filling_goes_on(s: MemoryLoad, a: Answer)
    requires
        s.wf(),
        s.phase is Filling,
        s.after(a).phase is Filling,
    ensures
        s.due() == (MemoryOp::WriteFile {
            fd: s.fd,
            addr: moved(s.buf, s.off as int),
            len: (s.len - s.off) as u64,
        }),
        s.after(a).off == s.off + value_of(a),
        s.after(a).len - s.after(a).off < s.len - s.off,
{
}

/// The text of a failed load from memory, given the text of an error.
pub open spec fn memory_text(r: MemoryReason, inner: Seq<char>) -> Seq<char> {
    match r {
        MemoryReason::Unreadable => "read agent for memfd: "@ + inner,
        MemoryReason::Remote => inner,
        MemoryReason::NoFile(v) => "memfd_create failed: "@ + signed_decimal(signed64(v)),
        MemoryReason::NoBuffer(v) => "memfd buffer mmap failed: "@ + hex_of(v),
        MemoryReason::NotWritten(off, v) => "memfd write failed at "@ + decimal(off as nat) + ": "@
            + signed_decimal(signed64(v)),
        MemoryReason::NoPage(v) => "brk page mmap failed: "@ + hex_of(v),
        MemoryReason::NotExecutable(v) => "mprotect RX for memfd dlopen failed: "@ + hex_of(v),
        MemoryReason::NoStack(v) => "call stack mmap failed: "@ + hex_of(v),
        MemoryReason::NoHandle(v) => "memfd dlopen returned "@ + hex_of(v) + " ("@ + inner + ")"@,
    }
}

/// The text of a failed load from memory.
pub fn memory_failure(r: MemoryReason, inner: &str) -> (s: String)
    ensures
        s@ == memory_text(r, inner@),
{
    match r {
        MemoryReason::Unreadable => "read agent for memfd: ".to_owned().concat(inner),
        MemoryReason::Remote => inner.to_owned(),
        MemoryReason::NoFile(v) => {
            let mut s = "memfd_create failed: ".to_owned();
            push_signed(&mut s, as_signed64(v));
            s
        },
        MemoryReason::NoBuffer(v) => {
            let mut s = "memfd buffer mmap failed: ".to_owned();
            push_hex_of(&mut s, v);
            s
        },
        MemoryReason::NotWritten(off, v) => {
            let mut s = "memfd write failed at ".to_owned();
            push_decimal(&mut s, off);
            s.append(": ");
            push_signed(&mut s, as_signed64(v));
            s
        },
        MemoryReason::NoPage(v) => {
            let mut s = "brk page mmap failed: ".to_owned();
            push_hex_of(&mut s, v);
            s
        },
        MemoryReason::NotExecutable(v) => {
            let mut s = "mprotect RX for memfd dlopen failed: ".to_owned();
            push_hex_of(&mut s, v);
            s
        },
        MemoryReason::NoStack(v) => {
            let mut s = "call stack mmap failed: ".to_owned();
            push_hex_of(&mut s, v);
            s
        },
        MemoryReason::NoHandle(v) => {
            let mut s = "memfd dlopen returned ".to_owned();
            push_hex_of(&mut s, v);
            s.append(" (");
            s.append(inner);
            s.append(")");
            s
        },
    }
}

/// Where loading in a name space stands: the operation whose answer it waits for.
#[derive(Debug, Clone, Copy, PartialEq, Eq, Structural)]
pub enum SpacePhase {
    ResolvingCreate,
    ResolvingCreatePlain,
    ResolvingLoad,
    ResolvingLoadPlain,
    WritingName,
    WritingSearch,
    Creating,
    AskingError,
    WritingInfo,
    Loading,
    Finished,
}

/// An operation of loading in a name space.
#[derive(Debug, Clone, Copy, PartialEq, Eq, Structural)]
pub enum SpaceOp {
    /// The address of the loader's own function that makes name spaces.
    ResolveCreate,
    /// The address of the one for everyone.
    ResolveCreatePlain,
    /// The address of the loader's own function that loads.
    ResolveLoad,
    /// The address of the one for everyone.
    ResolveLoadPlain,
    WriteName { addr: u64 },
    WriteSearch { addr: u64 },
    /// Make a name space.
    Create { func: u64, name: u64, dir: u64, caller: Option<u64> },
    LastError,
    WriteInfo { addr: u64, info: LoadInfo },
    Load { func: u64, path: u64, info_addr: u64, caller: Option<u64> },
    /// Over: the handle, zero where there is none, or `None` where an operation failed.
    Finish(Option<u64>),
}

/// The state of loading in a name space.
#[derive(Debug, Clone, Copy, PartialEq, Eq, Structural)]
pub struct SpaceLoad {
    pub phase: SpacePhase,
    pub page: u64,
    pub libc: u64,
    pub create: u64,
    pub create_own: bool,
    pub load: u64,
    pub load_own: bool,
    pub namespace: u64,
    pub outcome: Option<u64>,
}

/// The caller's address for a function that takes one.
pub open spec fn caller_for(own: bool, libc: u64) -> Option<u64> {
    if own {
        Some(libc)
    } else {
        None
    }
}

impl SpaceLoad {
    /// The operation that is due.
    pub open spec fn due(self) -> SpaceOp {
        match self.phase {
            SpacePhase::ResolvingCreate => SpaceOp::ResolveCreate,
            SpacePhase::ResolvingCreatePlain => SpaceOp::ResolveCreatePlain,
            SpacePhase::ResolvingLoad => SpaceOp::ResolveLoad,
            SpacePhase::ResolvingLoadPlain => SpaceOp::ResolveLoadPlain,
            SpacePhase::WritingName => SpaceOp::WriteName { addr: moved(self.page, 0x200) },
            SpacePhase::WritingSearch => SpaceOp::WriteSearch { addr: moved(self.page, 0x280) },
            SpacePhase::Creating => SpaceOp::Create {
                func: self.create,
                name: moved(self.page, 0x200),
                dir: moved(self.page, 0x280),
                caller: caller_for(self.create_own, self.libc),
            },
            SpacePhase::AskingError => SpaceOp::LastError,
            SpacePhase::WritingInfo => SpaceOp::WriteInfo {
                addr: moved(self.page, 0x400),
                info: LoadInfo {
                    flags: USE_NAMESPACE,
                    fd: 0xffff_ffff,
                    namespace: self.namespace,
                },
            },
            SpacePhase::Loading => SpaceOp::Load {
                func: self.load,
                path: self.page,
                info_addr: moved(self.page, 0x400),
                caller: caller_for(self.load_own, self.libc),
            },
            SpacePhase::Finished => SpaceOp::Finish(self.outcome),
        }
    }

    pub open spec fn at(self, phase: SpacePhase) -> SpaceLoad {
        SpaceLoad { phase, ..self }
    }

    pub open spec fn ends(self, outcome: Option<u64>) -> SpaceLoad {
        SpaceLoad { phase: SpacePhase::Finished, outcome, ..self }
    }

    pub open spec fn unless_fault(self, a: Answer, phase: SpacePhase) -> SpaceLoad {
        if a is Fault {
            self.ends(None)
        } else {
            self.at(phase)
        }
    }

    /// With a function that makes name spaces; over where there is none.
    pub open spec fn creates(self, func: u64, own: bool) -> SpaceLoad {
        if func == 0 {
            self.ends(Some(0))
        } else {
            SpaceLoad { create: func, create_own: own, ..self.at(SpacePhase::ResolvingLoad) }
        }
    }

    /// With a function that loads; over where there is none.
    pub open spec fn loads(self, func: u64, own: bool) -> SpaceLoad {
        if func == 0 {
            self.ends(Some(0))
        } else {
            SpaceLoad { load: func, load_own: own, ..self.at(SpacePhase::WritingName) }
        }
    }

    /// The state after an answer.
    pub open spec fn after(self, a: Answer) -> SpaceLoad {
        let v = value_of(a);
        match self.phase {
            SpacePhase::ResolvingCreate => if a is Value {
                self.creates(v, true)
            } else {
                self.at(SpacePhase::ResolvingCreatePlain)
            },
            SpacePhase::ResolvingCreatePlain => self.creates(v, false),
            SpacePhase::ResolvingLoad => if a is Value {
                self.loads(v, true)
            } else {
                self.at(SpacePhase::ResolvingLoadPlain)
            },
            SpacePhase::ResolvingLoadPlain => self.loads(v, false),
            SpacePhase::WritingName => self.unless_fault(a, SpacePhase::WritingSearch),
            SpacePhase::WritingSearch => self.unless_fault(a, SpacePhase::Creating),
            SpacePhase::Creating => if a is Fault {
                self.ends(None)
            } else if v == 0 {
                self.at(SpacePhase::AskingError)
            } else {
                SpaceLoad { namespace: v, ..self.at(SpacePhase::WritingInfo) }
            },
            SpacePhase::AskingError => self.ends(Some(0)),
            SpacePhase::WritingInfo => self.unless_fault(a, SpacePhase::Loading),
            SpacePhase::Loading => if a is Fault {
                self.ends(None)
            } else {
                self.ends(Some(v))
            },
            SpacePhase::Finished => self,
        }
    }

    /// Whether the state is in order: what needs a name space has one.
    pub open spec fn wf(self) -> bool {
        self.phase is WritingInfo || self.phase is Loading ==> self.namespace != 0
    }

    /// Loading in a name space that is about to start.
    pub fn new(page: u64, libc: u64) -> (s: SpaceLoad)
        ensures
            s == (SpaceLoad {
                phase: SpacePhase::ResolvingCreate,
                page,
                libc,
                create: 0,
                create_own: false,
                load: 0,
                load_own: false,
                namespace: 0,
                outcome: None,
            }),
            s.wf(),
    {
        SpaceLoad {
            phase: SpacePhase::ResolvingCreate,
            page,
            libc,
            create: 0,
            create_own: false,
            load: 0,
            load_own: false,
            namespace: 0,
            outcome: None,
        }
    }

    fn caller(&self, own: bool) -> (c: Option<u64>)
        ensures
            c == caller_for(own, self.libc),
    {
        if own {
            Some(self.libc)
        } else {
            None
        }
    }

    /// The operation that is due.
    pub fn op(&self) -> (op: SpaceOp)
        ensures
            op == self.due(),
    {
        match self.phase {
            SpacePhase::ResolvingCreate => SpaceOp::ResolveCreate,
            SpacePhase::ResolvingCreatePlain => SpaceOp::ResolveCreatePlain,
            SpacePhase::ResolvingLoad => SpaceOp::ResolveLoad,
            SpacePhase::ResolvingLoadPlain => SpaceOp::ResolveLoadPlain,
            SpacePhase::WritingName => SpaceOp::WriteName { addr: self.page.wrapping_add(0x200) },
            SpacePhase::WritingSearch => SpaceOp::WriteSearch {
                addr: self.page.wrapping_add(0x280),
            },
            SpacePhase::Creating => SpaceOp::Create {
                func: self.create,
                name: self.page.wrapping_add(0x200),
                dir: self.page.wrapping_add(0x280),
                caller: self.caller(self.create_own),
            },
            SpacePhase::AskingError => SpaceOp::LastError,
            SpacePhase::WritingInfo => SpaceOp::WriteInfo {
                addr: self.page.wrapping_add(0x400),
                info: LoadInfo {
                    flags: USE_NAMESPACE,
                    fd: 0xffff_ffff,
                    namespace: self.namespace,
                },
            },
            SpacePhase::Loading => SpaceOp::Load {
                func: self.load,
                path: self.page,
                info_addr: self.page.wrapping_add(0x400),
                caller: self.caller(self.load_own),
            },
            SpacePhase::Finished => SpaceOp::Finish(self.outcome),
        }
    }

    fn end(&mut self, outcome: Option<u64>)
        ensures
            *final(self) == old(self).ends(outcome),
    {
        self.phase = SpacePhase::Finished;
        self.outcome = outcome;
    }

    fn go_unless_fault(&mut self, a: Answer, phase: SpacePhase)
        ensures
            *final(self) == old(self).unless_fault(a, phase),
    {
        match a {
            Answer::Fault => {
                self.end(None);
            },
            _ => {
                self.phase = phase;
            },
        }
    }

    fn set_create(&mut self, func: u64, own: bool)
        ensures
            *final(self) == old(self).creates(func, own),
    {
        if func == 0 {
            self.end(Some(0));
        } else {
            self.create = func;
            self.create_own = own;
            self.phase = SpacePhase::ResolvingLoad;
        }
    }

    fn set_load(&mut self, func: u64, own: bool)
        ensures
            *final(self) == old(self).loads(func, own),
    {
        if func == 0 {
            self.end(Some(0));
        } else {
            self.load = func;
            self.load_own = own;
            self.phase = SpacePhase::WritingName;
        }
    }

    /// Goes on with the answer to the operation that was due.
    pub fn step(&mut self, a: Answer)
        ensures
            *final(self) == old(self).after(a),
    {
        let v: u64 = value(a);
        let fault = matches!(a, Answer::Fault);
        let valued = matches!(a, Answer::Value(_));
        match self.phase {
            SpacePhase::ResolvingCreate => {
                if valued {
                    self.set_create(v, true);
                } else {
                    self.phase = SpacePhase::ResolvingCreatePlain;
                }
            },
            SpacePhase::ResolvingCreatePlain => {
                self.set_create(v, false);
            },
            SpacePhase::ResolvingLoad => {
                if valued {
                    self.set_load(v, true);
                } else {
                    self.phase = SpacePhase::ResolvingLoadPlain;
                }
            },
            SpacePhase::ResolvingLoadPlain => {
                self.set_load(v, false);
            },
            SpacePhase::WritingName => {
                self.go_unless_fault(a, SpacePhase::WritingSearch);
            },
            SpacePhase::WritingSearch => {
                self.go_unless_fault(a, SpacePhase::Creating);
            },
            SpacePhase::Creating => {
                if fault {
                    self.end(None);
                } else if v == 0 {
                    self.phase = SpacePhase::AskingError;
                } else {
                    self.namespace = v;
                    self.phase = SpacePhase::WritingInfo;
                }
            },
            SpacePhase::AskingError => {
                self.end(Some(0));
            },
            SpacePhase::WritingInfo => {
                self.go_unless_fault(a, SpacePhase::Loading);
            },
            SpacePhase::Loading => {
                if fault {
                    self.end(None);
                } else {
                    self.end(Some(v));
                }
            },
            SpacePhase::Finished => {},
        }
    }
}

/// No answer breaks the state, so a library is loaded in a name space only once that was made.
pub proof fn law_space_before_load(s: SpaceLoad, a: Answer)
    requires
        s.wf(),
    ensures
        s.after(a).wf(),
        s.after(a).due() is Load ==> s.after(a).namespace != 0,
{
}

/// The arguments of a call that makes a name space: its name, the directories to search and to
/// allow, isolated and shared, no parent, and the caller for the loader's own function.
pub fn create_args(name: u64, dir: u64, caller: Option<u64>) -> (args: Vec<u64>)
    ensures
        args@ == match caller {
            Some(c) => seq![name, dir, dir, 3, dir, 0, c],
            None => seq![name, dir, dir, 3, dir, 0],
        },
{
    let mut args: Vec<u64> = Vec::new();
    args.push(name);
    args.push(dir);
    args.push(dir);
    args.push(3);
    args.push(dir);
    args.push(0);
    match caller {
        Some(c) => {
            args.push(c);
            assert(args@ =~= seq![name, dir, dir, 3, dir, 0, c]);
        },
        None => {
            assert(args@ =~= seq![name, dir, dir, 3, dir, 0]);
        },
    }
    args
}

/// The arguments of a call that loads: the path, at once, what the loader is told, and the
/// caller for the loader's own function.
pub fn load_args(path: u64, info: u64, caller: Option<u64>) -> (args: Vec<u64>)
    ensures
        args@ == match caller {
            Some(c) => seq![path, 2, info, c],
            None => seq![path, 2, info],
        },
{
    let mut args: Vec<u64> = Vec::new();
    args.push(path);
    args.push(2);
    args.push(info);
    match caller {
        Some(c) => {
            args.push(c);
            assert(args@ =~= seq![path, 2, info, c]);
        },
        None => {
            assert(args@ =~= seq![path, 2, info]);
        },
    }
    args
}

/// The directories that a name space searches, given that of the library.
pub fn search_path(dir: &Option<String>) -> (s: String)
    ensures
        s@ == (match *dir {
            Some(d) => d@,
            None => "/data/local/tmp"@,
        }) + ":/system/lib64:/apex/com.android.runtime/lib64/bionic"@,
{
    let mut s = match dir {
        Some(d) => d.clone(),
        None => "/data/local/tmp".to_owned(),
    };
    s.append(":/system/lib64:/apex/com.android.runtime/lib64/bionic");
    s
}

/// What the loader says of its last error: whether the function that tells it was found, what
/// that returned, and the bytes at the place it returned.
pub open spec fn error_text(
    found: bool,
    answer: Result<u64, TraceeError>,
    read: Option<Seq<u8>>,
) -> Seq<char> {
    if !found {
        "dlerror symbol missing"@
    } else {
        match answer {
            Ok(p) => if p == 0 {
                "dlerror empty"@
            } else {
                match read {
                    Some(b) => utf8_lossy(b.take(nul_from(b, 0, b.len() as int))),
                    None => "unreadable dlerror @"@ + hex_of(p),
                }
            },
            Err(e) => "dlerror call failed: "@ + e.text(),
        }
    }
}

/// What the loader says of its last error.
pub fn dlerror_text(
    found: bool,
    answer: &Result<u64, TraceeError>,
    read: &Option<Vec<u8>>,
) -> (s: String)
    ensures
        s@ == error_text(found, *answer, crate::syscall_format::bytes_view(*read)),
{
    if !found {
        return "dlerror symbol missing".to_owned();
    }
    match answer {
        Ok(p) => {
            if *p == 0 {
                return "dlerror empty".to_owned();
            }
            match read {
                Some(b) => {
                    let end: usize = find_nul(b.as_slice(), 0, b.len());
                    let piece = vstd::slice::slice_subrange(b.as_slice(), 0, end);
                    assert(piece@ =~= b@.take(end as int));
                    lossy(piece)
                },
                None => {
                    let mut s = "unreadable dlerror @".to_owned();
                    push_hex_of(&mut s, *p);
                    s
                },
            }
        },
        Err(e) => "dlerror call failed: ".to_owned().concat(e.message().as_str()),
    }
}

/// The texts of a list other than one.
pub open spec fn without_text(names: Seq<Seq<char>>, one: Seq<char>) -> Seq<Seq<char>>
    decreases names.len(),
{
    if names.len() == 0 {
        names
    } else if names.last() != one {
        without_text(names.drop_last(), one).push(names.last())
    } else {
        without_text(names.drop_last(), one)
    }
}

/// The first eight of a list, or all of it.
pub open spec fn first_eight(names: Seq<Seq<char>>) -> Seq<Seq<char>> {
    if names.len() <= 8 {
        names
    } else {
        names.take(8)
    }
}

/// The files whose label a file may take: the first eight of its directory other than itself,
/// then the directory. None where there is no directory.
pub fn label_donors(parent: &str, neighbours: &Vec<String>, path: &str) -> (out: Vec<String>)
    ensures
        views(out@) == if parent@.len() == 0 {
            Seq::<Seq<char>>::empty()
        } else {
            without_text(first_eight(views(neighbours@)), path@).push(parent@)
        },
{
    let mut out: Vec<String> = Vec::new();
    let pv = chars_of(parent);
    if pv.len() == 0 {
        assert(views(out@) =~= Seq::<Seq<char>>::empty());
        return out;
    }
    let n: usize = if neighbours.len() <= 8 {
        neighbours.len()
    } else {
        8
    };
    let ghost eight = first_eight(views(neighbours@));
    let want = chars_of(path);
    let mut i: usize = 0;
    assert(eight.take(0) =~= Seq::<Seq<char>>::empty());
    assert(views(out@) =~= without_text(eight.take(0), path@));
    while i < n
        invariant
            i <= n,
            n <= neighbours@.len(),
            n == eight.len(),
            want@ == path@,
            forall|k: int| 0 <= k < n ==> eight[k] == neighbours@[k]@,
            views(out@) == without_text(eight.take(i as int), path@),
        decreases n - i,
    {
        let cs = chars_of(neighbours[i].as_str());
        assert(eight.take(i + 1).drop_last() =~= eight.take(i as int));
        assert(eight.take(i + 1).last() == cs@);
        if !same_chars(cs.as_slice(), want.as_slice()) {
            let ghost before = out@;
            let s = string_of(cs.as_slice());
            out.push(s);
            assert(views(out@) =~= views(before).push(s@));
        }
        i = i + 1;
    }
    assert(eight.take(i as int) =~= eight);
    let ghost before = out@;
    out.push(parent.to_owned());
    assert(views(out@) =~= views(before).push(parent@));
    out
}

/// The path of a file as a process sees it.
pub fn path_in_root(pid: i32, path: &str) -> (s: String)
    ensures
        s@ == "/proc/"@ + signed_decimal(pid as int) + "/root"@ + path@,
{
    let mut s = "/proc/".to_owned();
    push_signed(&mut s, pid as i64);
    s.append("/root");
    s.append(path);
    s
}

} // verus!
