//! Calling functions in a stopped process.
use crate::bytes::word_at;
use crate::maps::{libc_code, last_libc};
use crate::split::{lines_of, pieces, split, texts};
use crate::text::{
    chars_of, contains, has_part, has_prefix, hexadecimal, push_hex, push_signed, signed_decimal,
    spells, starts_with, string_of,
};
use vstd::prelude::*;
use vstd::string::*;

verus! {

#[derive(Debug)]
pub enum TraceeError {
    Unsupported,
    Ptrace(String),
    Wait(String),
    Io(String),
    Msg(String),
}

impl TraceeError {
    /// The text of the error.
    pub open spec fn text(&self) -> Seq<char> {
        match self {
            TraceeError::Unsupported =>
                "ptrace unsupported on this host (need on-device aarch64 Android/Linux)"@,
            TraceeError::Ptrace(m) => "ptrace: "@ + m@,
            TraceeError::Wait(m) => "waitpid: "@ + m@,
            TraceeError::Io(m) => "io: "@ + m@,
            TraceeError::Msg(m) => m@,
        }
    }

    pub fn message(&self) -> (m: String)
        ensures
            m@ == self.text(),
    {
        match self {
            TraceeError::Unsupported =>
                "ptrace unsupported on this host (need on-device aarch64 Android/Linux)".to_owned(),
            TraceeError::Ptrace(m) => "ptrace: ".to_owned().concat(m.as_str()),
            TraceeError::Wait(m) => "waitpid: ".to_owned().concat(m.as_str()),
            TraceeError::Io(m) => "io: ".to_owned().concat(m.as_str()),
            TraceeError::Msg(m) => m.clone(),
        }
    }
}

/// Whether an error is that the operation is not permitted.
pub fn is_eperm(err: &TraceeError) -> (r: bool)
    ensures
        r == (has_part(err.text(), "Operation not permitted"@) || has_part(
            err.text(),
            "os error 1"@,
        )),
{
    let m = err.message();
    let cs = chars_of(m.as_str());
    contains(cs.as_slice(), "Operation not permitted") || contains(cs.as_slice(), "os error 1")
}

/// What to do where a thread could not be stopped: try the policy once where the kernel denied
/// it, else give up.
pub fn should_relax(relaxed: bool, err: &TraceeError) -> (r: bool)
    ensures
        r == (!relaxed && (has_part(err.text(), "Operation not permitted"@) || has_part(
            err.text(),
            "os error 1"@,
        ))),
{
    !relaxed && is_eperm(err)
}

/// The low seven bits of a wait status.
pub open spec fn low_bits(status: i32) -> u32 {
    (status as u32) % 128
}

/// The signal that a wait status names.
pub open spec fn stop_signal(status: i32) -> i32 {
    (((status as u32) / 256) % 256) as i32
}

/// Whether a wait status is that of a stop.
pub open spec fn is_stop(status: i32) -> bool {
    (status as u32) % 256 == 0x7f
}

/// Whether a wait status is that of an exit.
pub open spec fn is_exit(status: i32) -> bool {
    low_bits(status) == 0
}

/// Whether a wait status is that of a death by signal.
pub open spec fn is_death(status: i32) -> bool {
    low_bits(status) != 0 && low_bits(status) != 0x7f
}

/// `libc::WIFSTOPPED`: whether the low byte is 0x7f.
#[verifier::external_body]
pub(crate) fn stopped(status: i32) -> (r: bool)
    ensures
        r == is_stop(status),
{
    libc::WIFSTOPPED(status)
}

/// `libc::WSTOPSIG`: the second byte.
#[verifier::external_body]
pub(crate) fn signal_of(status: i32) -> (r: i32)
    ensures
        r == stop_signal(status),
{
    libc::WSTOPSIG(status)
}

/// `libc::WIFEXITED`: whether the low seven bits are zero.
#[verifier::external_body]
pub(crate) fn exited(status: i32) -> (r: bool)
    ensures
        r == is_exit(status),
{
    libc::WIFEXITED(status)
}

/// `libc::WIFSIGNALED`: whether the low seven bits are neither zero nor all set.
#[verifier::external_body]
pub(crate) fn signaled(status: i32) -> (r: bool)
    ensures
        r == is_death(status),
{
    libc::WIFSIGNALED(status)
}

/// The registers of a thread.
#[derive(Debug, Clone, Copy)]
pub struct Regs {
    pub regs: [u64; 31],
    pub sp: u64,
    pub pc: u64,
    pub pstate: u64,
}

/// A stopped process.
#[derive(Debug)]
pub struct Tracee {
    pub pid: i32,
    pub tids: Vec<i32>,
    pub saved_regs: Option<Regs>,
}

impl Tracee {
    /// Stops a process. Off the device there is none to stop.
    pub fn seize(pid: i32) -> (r: Result<Tracee, TraceeError>)
        ensures
            r is Err,
            r->Err_0 is Unsupported,
    {
        Err(TraceeError::Unsupported)
    }

    /// Lets a process go. Off the device there is nothing to do.
    pub fn detach(self) -> (r: Result<(), TraceeError>)
        ensures
            r is Ok,
    {
        Ok(())
    }
}

/// Calls of functions in a stopped process.
pub struct RemoteCall<'a> {
    pub tracee: &'a Tracee,
}

impl<'a> RemoteCall<'a> {
    /// Calls a function with at most eight arguments. Off the device it cannot be called.
    pub fn call(&self, func_addr: u64, args: &[u64]) -> (r: Result<u64, TraceeError>)
        ensures
            match r {
                Ok(_) => false,
                Err(TraceeError::Msg(m)) => args@.len() > 8 && m@ == "too many args (max 8)"@,
                Err(e) => args@.len() <= 8 && e is Unsupported,
            },
    {
        match check_args(args) {
            Err(e) => Err(e),
            Ok(_) => Err(TraceeError::Unsupported),
        }
    }
}

/// Refuses more than eight arguments.
pub fn check_args(args: &[u64]) -> (r: Result<(), TraceeError>)
    ensures
        match r {
            Ok(_) => args@.len() <= 8,
            Err(e) => args@.len() > 8 && (e matches TraceeError::Msg(m) && m@
                == "too many args (max 8)"@),
        },
{
    if args.len() > 8 {
        return Err(TraceeError::Msg("too many args (max 8)".to_owned()));
    }
    Ok(())
}

/// The registers with the arguments in the first of them.
pub open spec fn with_args(x: Seq<u64>, args: Seq<u64>) -> Seq<u64> {
    Seq::new(
        x.len(),
        |i: int|
            if i < args.len() {
                args[i]
            } else {
                x[i]
            },
    )
}

fn put_args(regs: &mut Regs, args: &[u64], n: usize)
    requires
        n <= args@.len(),
        n <= 31,
    ensures
        final(regs).regs@ == with_args(old(regs).regs@, args@.take(n as int)),
        final(regs).sp == old(regs).sp,
        final(regs).pc == old(regs).pc,
        final(regs).pstate == old(regs).pstate,
{
    let mut i: usize = 0;
    while i < n
        invariant
            i <= n <= 31,
            n <= args@.len(),
            regs.regs@ == with_args(old(regs).regs@, args@.take(i as int)),
            regs.sp == old(regs).sp,
            regs.pc == old(regs).pc,
            regs.pstate == old(regs).pstate,
        decreases n - i,
    {
        regs.regs[i] = args[i];
        i = i + 1;
        assert(regs.regs@ =~= with_args(old(regs).regs@, args@.take(i as int)));
    }
}

/// The registers for a call of a function that returns to `lr`, on a stack of its own where one
/// is given.
pub fn remote_call_with_lr(
    regs: &Regs,
    func_addr: u64,
    args: &[u64],
    lr: u64,
    stack: Option<u64>,
) -> (r: Regs)
    requires
        args@.len() <= 31,
    ensures
        r.pc == func_addr,
        r.pstate == regs.pstate,
        match stack {
            Some(sp) => r.sp == sp && r.regs@ == with_args(regs.regs@, args@).update(30, lr).update(
                29,
                0,
            ),
            None => r.sp == regs.sp && r.regs@ == with_args(regs.regs@, args@).update(30, lr),
        },
{
    let mut r: Regs = *regs;
    assert(args@.take(args@.len() as int) =~= args@);
    put_args(&mut r, args, args.len());
    r.regs[30] = lr;
    r.pc = func_addr;
    match stack {
        Some(sp) => {
            r.sp = sp;
            r.regs[29] = 0;
        },
        None => {},
    }
    r
}

/// The registers for a run of a call stub, and where the stub stops: at its third instruction.
pub fn remote_call_stub(regs: &Regs, stub_addr: u64, args: &[u64]) -> (r: (Regs, u64))
    requires
        args@.len() <= 31,
    ensures
        r.0.pc == stub_addr,
        r.0.sp == regs.sp,
        r.0.pstate == regs.pstate,
        r.0.regs@ == with_args(regs.regs@, args@),
        r.1 == (stub_addr + 8) % 0x1_0000_0000_0000_0000,
{
    let mut r: Regs = *regs;
    assert(args@.take(args@.len() as int) =~= args@);
    put_args(&mut r, args, args.len());
    r.pc = stub_addr;
    (r, stub_addr.wrapping_add(8))
}

/// Whether `r` are the registers of `regs` set up for a system call at `svc`.
pub open spec fn calls(r: Regs, regs: Regs, svc: u64, nr: u64, args: Seq<u64>) -> bool {
    &&& r.pc == svc
    &&& r.sp == regs.sp
    &&& r.pstate == regs.pstate
    &&& r.regs@ == with_args(regs.regs@, args).update(8, nr)
}

/// The registers for a system call with at most six arguments.
pub fn remote_syscall(regs: &Regs, svc_addr: u64, nr: u64, args: &[u64]) -> (r: Regs)
    ensures
        calls(
            r,
            *regs,
            svc_addr,
            nr,
            if args@.len() <= 6 {
                args@
            } else {
                args@.take(6)
            },
        ),
{
    let mut r: Regs = *regs;
    let n: usize = if args.len() <= 6 {
        args.len()
    } else {
        6
    };
    assert(args@.take(args@.len() as int) =~= args@);
    put_args(&mut r, args, n);
    r.regs[8] = nr;
    r.pc = svc_addr;
    r
}

/// The registers for a new private mapping.
pub fn remote_mmap_svc(regs: &Regs, svc_addr: u64, size: u64, prot: u64, flags: u64) -> (r: Regs)
    ensures
        calls(r, *regs, svc_addr, 222, seq![0, size, prot, flags, u64::MAX, 0]),
{
    let args: [u64; 6] = [0, size, prot, flags, u64::MAX, 0];
    let r = remote_syscall(regs, svc_addr, 222, args.as_slice());
    assert(args@ =~= seq![0, size, prot, flags, u64::MAX, 0]);
    r
}

/// The registers for a change of protection.
pub fn remote_mprotect_svc(regs: &Regs, svc_addr: u64, addr: u64, len: u64, prot: u64) -> (r: Regs)
    ensures
        calls(r, *regs, svc_addr, 226, seq![addr, len, prot]),
{
    let args: [u64; 3] = [addr, len, prot];
    let r = remote_syscall(regs, svc_addr, 226, args.as_slice());
    assert(args@ =~= seq![addr, len, prot]);
    r
}

/// The registers for opening a file to read, below the working directory.
pub fn remote_openat(regs: &Regs, svc_addr: u64, path_addr: u64) -> (r: Regs)
    ensures
        calls(r, *regs, svc_addr, 56, seq![0xffff_ffff_ffff_ff9c, path_addr, 0, 0]),
{
    let args: [u64; 4] = [0xffff_ffff_ffff_ff9c, path_addr, 0, 0];
    let r = remote_syscall(regs, svc_addr, 56, args.as_slice());
    assert(args@ =~= seq![0xffff_ffff_ffff_ff9c, path_addr, 0, 0]);
    r
}

/// The registers for closing a file.
pub fn remote_close(regs: &Regs, svc_addr: u64, fd: u64) -> (r: Regs)
    ensures
        calls(r, *regs, svc_addr, 57, seq![fd]),
{
    let args: [u64; 1] = [fd];
    let r = remote_syscall(regs, svc_addr, 57, args.as_slice());
    assert(args@ =~= seq![fd]);
    r
}

/// The registers for a new memory file that is closed on exec.
pub fn remote_memfd_create(regs: &Regs, svc_addr: u64, name_addr: u64) -> (r: Regs)
    ensures
        calls(r, *regs, svc_addr, 279, seq![name_addr, 1]),
{
    let args: [u64; 2] = [name_addr, 1];
    let r = remote_syscall(regs, svc_addr, 279, args.as_slice());
    assert(args@ =~= seq![name_addr, 1]);
    r
}

/// The registers for a write.
pub fn remote_write(regs: &Regs, svc_addr: u64, fd: u64, buf_addr: u64, len: u64) -> (r: Regs)
    ensures
        calls(r, *regs, svc_addr, 64, seq![fd, buf_addr, len]),
{
    let args: [u64; 3] = [fd, buf_addr, len];
    let r = remote_syscall(regs, svc_addr, 64, args.as_slice());
    assert(args@ =~= seq![fd, buf_addr, len]);
    r
}

/// The registers for a seek.
pub fn remote_lseek(regs: &Regs, svc_addr: u64, fd: u64, offset: u64, whence: u64) -> (r: Regs)
    ensures
        calls(r, *regs, svc_addr, 62, seq![fd, offset, whence]),
{
    let args: [u64; 3] = [fd, offset, whence];
    let r = remote_syscall(regs, svc_addr, 62, args.as_slice());
    assert(args@ =~= seq![fd, offset, whence]);
    r
}

/// What a stop on the way to a landing place means.
#[derive(Debug)]
pub enum Landing {
    /// The call returned this value.
    Done(u64),
    /// The call failed.
    Failed(TraceeError),
    /// Let the thread go on.
    Again,
}

/// How many stops a call may take.
pub const MAX_STOPS: u32 = 64;

/// `0x` and the hexadecimal numeral.
pub open spec fn hex_of(n: u64) -> Seq<char> {
    "0x"@ + hexadecimal(n as nat)
}

pub(crate) fn push_hex_of(s: &mut String, n: u64)
    ensures
        final(s)@ == old(s)@ + hex_of(n),
{
    s.append("0x");
    push_hex(s, n);
    assert(s@ =~= old(s)@ + hex_of(n));
}

/// Whether the program counter is at a landing place or just behind it.
pub open spec fn landed(pc: u64, expected_pc: u64) -> bool {
    pc == expected_pc || pc == (expected_pc + 4) % 0x1_0000_0000_0000_0000
}

/// The signal of a stop; zero where the status is that of none.
pub open spec fn signal_at(status: i32) -> i32 {
    if is_stop(status) {
        stop_signal(status)
    } else {
        0
    }
}

/// Whether a signal says that the call cannot go on.
pub open spec fn is_fatal(sig: i32) -> bool {
    sig == 4 || sig == 7 || sig == 8 || sig == 11
}

/// What a fault of a call is reported as.
pub open spec fn fault_text(sig: i32, pc: u64, x0: u64, expected_pc: u64) -> Seq<char> {
    "remote call fault sig="@ + signed_decimal(sig as int) + " pc="@ + hex_of(pc) + " x0="@
        + hex_of(x0) + " (want brk "@ + hex_of(expected_pc) + ")"@
}

/// What the stop number `step` of a call means. The last of the stops ends the call.
pub fn cont_until_pc(step: u32, status: i32, pc: u64, x0: u64, expected_pc: u64) -> (r: Landing)
    ensures
        match r {
            Landing::Done(v) => landed(pc, expected_pc) && v == x0,
            Landing::Failed(e) => !landed(pc, expected_pc) && (e matches TraceeError::Msg(m)
                && if is_fatal(signal_at(status)) {
                m@ == fault_text(signal_at(status), pc, x0, expected_pc)
            } else {
                step + 1 >= MAX_STOPS && m@ == "remote call did not reach brk "@ + hex_of(
                    expected_pc,
                ) + "; last pc="@ + hex_of(pc)
            }),
            Landing::Again => !landed(pc, expected_pc) && !is_fatal(signal_at(status)) && step + 1
                < MAX_STOPS,
        },
{
    let sig: i32 = if stopped(status) {
        signal_of(status)
    } else {
        0
    };
    if pc == expected_pc || pc == expected_pc.wrapping_add(4) {
        return Landing::Done(x0);
    }
    if sig == 4 || sig == 7 || sig == 8 || sig == 11 {
        let mut m = "remote call fault sig=".to_owned();
        push_signed(&mut m, sig as i64);
        m.append(" pc=");
        push_hex_of(&mut m, pc);
        m.append(" x0=");
        push_hex_of(&mut m, x0);
        m.append(" (want brk ");
        push_hex_of(&mut m, expected_pc);
        m.append(")");
        return Landing::Failed(TraceeError::Msg(m));
    }
    if step >= MAX_STOPS - 1 {
        let mut m = "remote call did not reach brk ".to_owned();
        push_hex_of(&mut m, expected_pc);
        m.append("; last pc=");
        push_hex_of(&mut m, pc);
        return Landing::Failed(TraceeError::Msg(m));
    }
    Landing::Again
}

/// What waiting for a thread came to.
#[derive(Debug)]
pub enum Waited {
    Stopped(i32),
    Failed(TraceeError),
    Again,
}

/// What the answer `w` of a wait for a thread with a status means, where no error was raised.
pub fn wait_stop_status(tid: i32, w: i32, status: i32, late: bool) -> (r: Waited)
    ensures
        match r {
            Waited::Stopped(s) => w == tid && is_stop(status) && s == status,
            Waited::Failed(e) => !(w == tid && is_stop(status)) && (e matches TraceeError::Wait(m)
                && if w == tid && (is_exit(status) || is_death(status)) {
                m@ == "tid "@ + signed_decimal(tid as int) + " exited: "@ + hex_of(
                    (status as u32) as u64,
                )
            } else {
                late && m@ == "timeout waiting for tid "@ + signed_decimal(tid as int) + " stop"@
            }),
            Waited::Again => !(w == tid && (is_stop(status) || is_exit(status) || is_death(status)))
                && !late,
        },
{
    if w == tid {
        if stopped(status) {
            return Waited::Stopped(status);
        }
        if exited(status) || signaled(status) {
            let mut m = "tid ".to_owned();
            push_signed(&mut m, tid as i64);
            m.append(" exited: ");
            push_hex_of(&mut m, (status as u32) as u64);
            return Waited::Failed(TraceeError::Wait(m));
        }
    }
    if late {
        let mut m = "timeout waiting for tid ".to_owned();
        push_signed(&mut m, tid as i64);
        m.append(" stop");
        return Waited::Failed(TraceeError::Wait(m));
    }
    Waited::Again
}

/// Whether the instruction at `i` is looked at: a whole word, and not the last one.
pub open spec fn looked_at(code: Seq<u8>, i: int) -> bool {
    0 <= i && i % 4 == 0 && i + 4 < code.len()
}

/// Whether a word is a breakpoint instruction.
pub open spec fn is_brk(w: u32) -> bool {
    w / 0x20_0000 == 0x6a1 && w % 32 == 0
}

/// Whether `r` is the first breakpoint instruction that is looked at; `None` where there is none.
pub open spec fn first_brk(code: Seq<u8>, r: Option<usize>) -> bool {
    match r {
        Some(i) => looked_at(code, i as int) && is_brk(word_at(code, i as int)) && forall|j: int|
            looked_at(code, j) && j < i ==> !is_brk(#[trigger] word_at(code, j)),
        None => forall|j: int| looked_at(code, j) ==> !is_brk(#[trigger] word_at(code, j)),
    }
}

/// Whether `r` is the first system call instruction that is looked at; `None` where there is
/// none.
pub open spec fn first_svc(code: Seq<u8>, r: Option<usize>) -> bool {
    match r {
        Some(i) => looked_at(code, i as int) && word_at(code, i as int) == 0xd400_0001u32 && forall|
            j: int,
        |
            looked_at(code, j) && j < i ==> #[trigger] word_at(code, j) != 0xd400_0001u32,
        None => forall|j: int|
            looked_at(code, j) ==> #[trigger] word_at(code, j) != 0xd400_0001u32,
    }
}

/// Finds the first breakpoint instruction.
pub fn find_brk_gadget(code: &[u8]) -> (r: Option<usize>)
    ensures
        first_brk(code@, r),
{
    let n: usize = code.len();
    let mut i: usize = 0;
    while i < n && n - i > 4
        invariant
            n == code@.len(),
            i <= n,
            i % 4 == 0,
            forall|j: int| looked_at(code@, j) && j < i ==> !is_brk(#[trigger] word_at(code@, j)),
        decreases n - i,
    {
        let w: u32 = crate::bytes::get_u32(code, i);
        if w / 0x20_0000 == 0x6a1 && w % 32 == 0 {
            return Some(i);
        }
        i = i + 4;
    }
    None
}

/// Finds the first system call instruction.
pub fn find_svc_gadget(code: &[u8]) -> (r: Option<usize>)
    ensures
        first_svc(code@, r),
{
    let n: usize = code.len();
    let mut i: usize = 0;
    while i < n && n - i > 4
        invariant
            n == code@.len(),
            i <= n,
            i % 4 == 0,
            forall|j: int|
                looked_at(code@, j) && j < i ==> #[trigger] word_at(code@, j) != 0xd400_0001u32,
        decreases n - i,
    {
        if crate::bytes::get_u32(code, i) == 0xd400_0001 {
            return Some(i);
        }
        i = i + 4;
    }
    None
}

/// Where a breakpoint is planted: its address, and the page that it lies in.
#[derive(Debug, Clone, Copy, PartialEq, Eq, Structural)]
pub struct PlantedBrk {
    pub addr: u64,
    pub page: u64,
    pub page_len: u64,
}

/// Where to plant a breakpoint: in place of the last instruction of the C library's code.
pub fn plant_brk_in_libc(maps: &str, page_size: u64) -> (r: Result<PlantedBrk, TraceeError>)
    requires
        page_size > 0,
    ensures
        match last_libc(lines_of(maps@), lines_of(maps@).len() as int) {
            Some((_, end)) => r matches Ok(p) && p.addr == (end - 4) - (end - 4) % 4 && p.page
                == p.addr - p.addr % page_size && p.page_len == page_size,
            None => r matches Err(TraceeError::Msg(m)) && m@ == "libc exec mapping not found"@,
        },
{
    match libc_code(maps) {
        Some((start, end)) => {
            proof {
                lemma_libc_end(lines_of(maps@), lines_of(maps@).len() as int);
            }
            let last: u64 = end - 4;
            let addr: u64 = last - last % 4;
            assert(addr % page_size <= addr) by (nonlinear_arith)
                requires
                    page_size > 0,
            ;
            Ok(PlantedBrk { addr, page: addr - addr % page_size, page_len: page_size })
        },
        None => Err(TraceeError::Msg("libc exec mapping not found".to_owned())),
    }
}

proof fn lemma_libc_end(ls: Seq<Seq<char>>, k: int)
    ensures
        last_libc(ls, k) matches Some((start, end)) ==> end > start + 4,
    decreases k,
{
    if k > 0 {
        lemma_libc_end(ls, k - 1);
    }
}

/// The words that some bytes make, eight bytes each; missing bytes of the last word are zero.
pub open spec fn padded_words(data: Seq<u8>) -> Seq<u64> {
    Seq::new(
        ((data.len() + 7) / 8) as nat,
        |i: int| crate::bytes::quad_at(data + Seq::new(8, |k: int| 0u8), 8 * i),
    )
}

/// Cuts bytes into words, with zeros for the missing bytes of the last one.
pub fn words_to_poke(data: &[u8]) -> (out: Vec<u64>)
    ensures
        out@ == padded_words(data@),
{
    let mut all: Vec<u8> = crate::bytes::to_vec(data);
    let n: usize = all.len();
    let zeros: [u8; 8] = [0, 0, 0, 0, 0, 0, 0, 0];
    crate::bytes::push_bytes(&mut all, zeros.as_slice());
    assert(zeros@ =~= Seq::new(8, |k: int| 0u8));
    let total: usize = all.len();
    let mut out: Vec<u64> = Vec::new();
    let mut i: usize = 0;
    while i < n
        invariant
            n == data@.len(),
            total == n + 8,
            all@.len() == total,
            all@ == data@ + Seq::new(8, |k: int| 0u8),
            i % 8 == 0,
            i < n + 8,
            out@.len() == i / 8,
            forall|k: int| 0 <= k < out@.len() ==> out@[k] == crate::bytes::quad_at(all@, 8 * k),
        decreases n + 8 - i,
    {
        out.push(crate::bytes::get_u64(all.as_slice(), i));
        i = i + 8;
    }
    assert(out@ =~= padded_words(data@));
    out
}

/// The third part of a security context, between colons.
pub open spec fn context_type(ctx: Seq<char>) -> Seq<char> {
    if pieces(ctx, ':').len() > 2 {
        pieces(ctx, ':')[2]
    } else {
        Seq::empty()
    }
}

/// The type in a security context.
pub fn selinux_type(ctx: &str) -> (r: String)
    ensures
        r@ == context_type(ctx@),
{
    let cs = chars_of(ctx);
    let ps = split(cs.as_slice(), ':');
    if ps.len() > 2 {
        assert(texts(ps@)[2] == ps@[2]@);
        string_of(ps[2].as_slice())
    } else {
        String::new()
    }
}

/// The rule that lets one type trace another.
pub fn ptrace_rule(source: &str, target: &str) -> (r: String)
    ensures
        r@ == "allow "@ + source@ + " "@ + target@ + " process ptrace"@,
{
    let mut r = "allow ".to_owned();
    r.append(source);
    r.append(" ");
    r.append(target);
    r.append(" process ptrace");
    r
}

/// Whether to change to another domain first: where the own one is the shell's, or unknown.
pub fn should_change_domain(self_type: &str) -> (r: bool)
    ensures
        r == (self_type@ == "shell"@ || self_type@.len() == 0),
{
    let cs = chars_of(self_type);
    spells(cs.as_slice(), "shell") || cs.len() == 0
}

/// The type that a rule is made for: the one after the change where it is known, else the one
/// before. `None` where no rule can be made.
pub fn rule_source(self_type: &str, now_type: &str, target_type: &str) -> (r: Option<String>)
    ensures
        ({
            let source = if now_type@.len() == 0 {
                self_type@
            } else {
                now_type@
            };
            match r {
                Some(s) => target_type@.len() > 0 && source.len() > 0 && s@ == source,
                None => target_type@.len() == 0 || source.len() == 0,
            }
        }),
{
    let t = chars_of(target_type);
    let n = chars_of(now_type);
    let s = chars_of(self_type);
    if t.len() == 0 {
        return None;
    }
    if n.len() == 0 {
        if s.len() == 0 {
            None
        } else {
            Some(self_type.to_owned())
        }
    } else {
        Some(now_type.to_owned())
    }
}

/// Whether the tracing scope has to be opened: it is known and not open.
pub fn should_open_scope(current: &str) -> (r: bool)
    ensures
        r == !(current@.len() == 0 || current@ == "0"@),
{
    let cs = chars_of(current);
    !(cs.len() == 0 || spells(cs.as_slice(), "0"))
}

/// What is known about tracing a process, as it is logged.
pub open spec fn context_text(
    self_ctx: Seq<char>,
    target_ctx: Seq<char>,
    tracer: Option<i32>,
    scope: Seq<char>,
    enforce: Seq<char>,
    caps: u64,
) -> Seq<char> {
    "ptrace context self="@ + self_ctx + " target="@ + target_ctx + " TracerPid="@ + (match tracer {
        Some(t) => signed_decimal(t as int),
        None => "?"@,
    }) + " yama="@ + (if scope.len() == 0 {
        "?"@
    } else {
        scope
    }) + " enforce="@ + (if enforce.len() == 0 {
        "off"@
    } else {
        enforce
    }) + " CapEff="@ + hex_of(caps) + " cap_sys_ptrace="@ + (if (caps / 0x8_0000) % 2 == 1 {
        "true"@
    } else {
        "false"@
    })
}

/// What is known about tracing a process.
pub fn ptrace_context(
    self_ctx: &str,
    target_ctx: &str,
    tracer: Option<i32>,
    scope: &str,
    enforce: &str,
    caps: u64,
) -> (s: String)
    ensures
        s@ == context_text(self_ctx@, target_ctx@, tracer, scope@, enforce@, caps),
{
    let mut s = "ptrace context self=".to_owned();
    s.append(self_ctx);
    s.append(" target=");
    s.append(target_ctx);
    s.append(" TracerPid=");
    match tracer {
        Some(t) => {
            push_signed(&mut s, t as i64);
        },
        None => {
            s.append("?");
        },
    }
    s.append(" yama=");
    let sc = chars_of(scope);
    if sc.len() == 0 {
        s.append("?");
    } else {
        s.append(scope);
    }
    s.append(" enforce=");
    let en = chars_of(enforce);
    if en.len() == 0 {
        s.append("off");
    } else {
        s.append(enforce);
    }
    s.append(" CapEff=");
    push_hex_of(&mut s, caps);
    s.append(" cap_sys_ptrace=");
    if crate::procfs::can_trace(caps) {
        s.append("true");
    } else {
        s.append("false");
    }
    s
}

/// `pid <target> is already traced by pid <tracer>`
pub open spec fn traced_text(target: i32, tracer: i32) -> Seq<char> {
    "pid "@ + signed_decimal(target as int) + " is already traced by pid "@ + signed_decimal(
        tracer as int,
    )
}

/// Whether a tracer is a leftover of this program, by its command line and name.
pub open spec fn is_leftover(cmd: Seq<char>, comm: Seq<char>) -> bool {
    has_part(cmd, "goauld-injector"@) || has_prefix(comm, "goauld-inject"@)
}

/// Whether the process that traces the target may be stopped: only where it is a leftover of
/// this program, and neither process 1 nor this one.
pub fn may_stop_tracer(target: i32, tracer: i32, own: i32, cmd: &str, comm: &str) -> (r: Result<
    (),
    TraceeError,
>)
    ensures
        match r {
            Ok(_) => tracer > 1 && tracer != own && is_leftover(cmd@, comm@),
            Err(e) => e matches TraceeError::Ptrace(m) && if tracer <= 1 || tracer == own {
                m@ == traced_text(target, tracer)
            } else {
                !is_leftover(cmd@, comm@) && m@ == traced_text(target, tracer) + " ("@ + (if cmd@.len()
                    == 0 {
                    comm@
                } else {
                    cmd@
                }) + ") \u{2014} detach that debugger first"@
            },
        },
{
    let mut m = "pid ".to_owned();
    push_signed(&mut m, target as i64);
    m.append(" is already traced by pid ");
    push_signed(&mut m, tracer as i64);
    if tracer <= 1 || tracer == own {
        return Err(TraceeError::Ptrace(m));
    }
    let cv = chars_of(cmd);
    let nv = chars_of(comm);
    if contains(cv.as_slice(), "goauld-injector") || starts_with(nv.as_slice(), "goauld-inject") {
        return Ok(());
    }
    m.append(" (");
    if cv.len() == 0 {
        m.append(comm);
    } else {
        m.append(cmd);
    }
    m.append(") \u{2014} detach that debugger first");
    Err(TraceeError::Ptrace(m))
}

/// What became of a target once its leftover tracer was stopped.
#[derive(Debug)]
pub enum Release {
    Free,
    Failed(TraceeError),
    Wait,
}

/// What the state of a target means once its leftover tracer was stopped.
pub fn after_stop(target: i32, tracer: i32, alive: bool, now: Option<i32>, late: bool) -> (r:
    Release)
    ensures
        match r {
            Release::Free => alive && (now is None || now == Some(0i32)),
            Release::Failed(e) => e matches TraceeError::Ptrace(m) && if !alive {
                m@ == "leftover injector pid "@ + signed_decimal(tracer as int)
                    + " was still attached; stopping it also stopped pid "@ + signed_decimal(
                    target as int,
                ) + ". Relaunch the app and inject again"@
            } else {
                now is Some && now != Some(0i32) && if now != Some(tracer) {
                    m@ == "pid "@ + signed_decimal(target as int) + " is now traced by pid "@
                        + signed_decimal(now.unwrap() as int)
                } else {
                    late && m@ == "leftover injector pid "@ + signed_decimal(tracer as int)
                        + " did not detach from pid "@ + signed_decimal(target as int)
                }
            },
            Release::Wait => alive && now == Some(tracer) && tracer != 0 && !late,
        },
{
    if !alive {
        let mut m = "leftover injector pid ".to_owned();
        push_signed(&mut m, tracer as i64);
        m.append(" was still attached; stopping it also stopped pid ");
        push_signed(&mut m, target as i64);
        m.append(". Relaunch the app and inject again");
        return Release::Failed(TraceeError::Ptrace(m));
    }
    match now {
        None => Release::Free,
        Some(next) => {
            if next == 0 {
                return Release::Free;
            }
            if next != tracer {
                let mut m = "pid ".to_owned();
                push_signed(&mut m, target as i64);
                m.append(" is now traced by pid ");
                push_signed(&mut m, next as i64);
                return Release::Failed(TraceeError::Ptrace(m));
            }
            if late {
                let mut m = "leftover injector pid ".to_owned();
                push_signed(&mut m, tracer as i64);
                m.append(" did not detach from pid ");
                push_signed(&mut m, target as i64);
                return Release::Failed(TraceeError::Ptrace(m));
            }
            Release::Wait
        },
    }
}

/// Where the stopping of a thread stands.
#[derive(Debug, Clone, Copy, PartialEq, Eq, Structural)]
pub enum StopPhase {
    /// To take the thread.
    Seize,
    /// To stop a thread that was taken.
    Interrupt,
    /// To take and stop it the older way.
    Attach,
    /// To wait until it stopped.
    Wait,
    Stopped,
    /// It could not be stopped, for what this phase met.
    Failed(StopFault),
}

/// What kept a thread from being stopped.
#[derive(Debug, Clone, Copy, PartialEq, Eq, Structural)]
pub enum StopFault {
    Interrupt,
    Attach,
    Wait,
}

impl StopPhase {
    /// Whether nothing is left to do.
    pub open spec fn ended(self) -> bool {
        self is Stopped || self is Failed
    }

    /// The next phase.
    pub open spec fn after(self, worked: bool) -> StopPhase {
        match self {
            StopPhase::Seize => if worked {
                StopPhase::Interrupt
            } else {
                StopPhase::Attach
            },
            StopPhase::Interrupt => if worked {
                StopPhase::Wait
            } else {
                StopPhase::Failed(StopFault::Interrupt)
            },
            StopPhase::Attach => if worked {
                StopPhase::Wait
            } else {
                StopPhase::Failed(StopFault::Attach)
            },
            StopPhase::Wait => if worked {
                StopPhase::Stopped
            } else {
                StopPhase::Failed(StopFault::Wait)
            },
            p => p,
        }
    }

    /// The number of steps that are left at most.
    pub open spec fn left(self) -> nat {
        match self {
            StopPhase::Seize => 3,
            StopPhase::Interrupt => 2,
            StopPhase::Attach => 2,
            StopPhase::Wait => 1,
            _ => 0,
        }
    }

    /// Takes in whether the step worked.
    pub fn step(self, worked: bool) -> (p: StopPhase)
        ensures
            p == self.after(worked),
    {
        match self {
            StopPhase::Seize => if worked {
                StopPhase::Interrupt
            } else {
                StopPhase::Attach
            },
            StopPhase::Interrupt => if worked {
                StopPhase::Wait
            } else {
                StopPhase::Failed(StopFault::Interrupt)
            },
            StopPhase::Attach => if worked {
                StopPhase::Wait
            } else {
                StopPhase::Failed(StopFault::Attach)
            },
            StopPhase::Wait => if worked {
                StopPhase::Stopped
            } else {
                StopPhase::Failed(StopFault::Wait)
            },
            StopPhase::Stopped => StopPhase::Stopped,
            StopPhase::Failed(f) => StopPhase::Failed(f),
        }
    }
}

/// Stopping a thread ends, whatever the steps give.
pub proof fn law_stopping_ends(p: StopPhase, worked: bool)
    ensures
        !p.ended() ==> p.after(worked).left() < p.left(),
        p.ended() ==> p.after(worked) == p,
        p.left() == 0 <==> p.ended(),
{
}

/// Where a call that returns to a planted breakpoint stands: the operation that comes next.
#[derive(Debug, Clone, Copy, PartialEq, Eq, Structural)]
pub enum PlantPhase {
    /// To read what stands in its place.
    Save,
    /// To make its page writable.
    Open,
    /// To write it.
    Plant,
    /// To make the page executable again.
    Close,
    /// To call the function.
    Call,
    /// To make the page writable once more.
    Reopen(PlantEnd),
    /// To write back what stood in its place.
    Restore(PlantEnd),
    /// To make the page executable as it was.
    Reclose(PlantEnd),
    Finished(PlantEnd),
}

/// What a call that returns to a planted breakpoint came to.
#[derive(Debug, Clone, Copy, PartialEq, Eq, Structural)]
pub enum PlantEnd {
    /// The function was called.
    Called,
    /// An operation failed before that.
    Fault,
    /// The page did not become writable, for this error.
    NotWritable(u64),
    /// The page did not become executable, for this error.
    NotExecutable(u64),
}

impl PlantPhase {
    /// Whether the breakpoint is there and has to be taken out again.
    pub open spec fn planted(self) -> bool {
        self is Call || self is Reopen || self is Restore || self is Reclose
    }

    /// The next phase, by what the operation gave; `None` where it failed.
    pub open spec fn after(self, got: Option<u64>) -> PlantPhase {
        match self {
            PlantPhase::Save => match got {
                Some(_) => PlantPhase::Open,
                None => PlantPhase::Finished(PlantEnd::Fault),
            },
            PlantPhase::Open => match got {
                Some(v) => if v == 0 {
                    PlantPhase::Plant
                } else {
                    PlantPhase::Finished(PlantEnd::NotWritable(v))
                },
                None => PlantPhase::Finished(PlantEnd::Fault),
            },
            PlantPhase::Plant => match got {
                Some(_) => PlantPhase::Close,
                None => PlantPhase::Finished(PlantEnd::Fault),
            },
            PlantPhase::Close => match got {
                Some(v) => if v == 0 {
                    PlantPhase::Call
                } else {
                    PlantPhase::Reopen(PlantEnd::NotExecutable(v))
                },
                None => PlantPhase::Finished(PlantEnd::Fault),
            },
            PlantPhase::Call => PlantPhase::Reopen(PlantEnd::Called),
            PlantPhase::Reopen(e) => PlantPhase::Restore(e),
            PlantPhase::Restore(e) => PlantPhase::Reclose(e),
            PlantPhase::Reclose(e) => PlantPhase::Finished(e),
            PlantPhase::Finished(e) => PlantPhase::Finished(e),
        }
    }

    /// The number of operations that are left at most.
    pub open spec fn left(self) -> nat {
        match self {
            PlantPhase::Save => 8,
            PlantPhase::Open => 7,
            PlantPhase::Plant => 6,
            PlantPhase::Close => 5,
            PlantPhase::Call => 4,
            PlantPhase::Reopen(_) => 3,
            PlantPhase::Restore(_) => 2,
            PlantPhase::Reclose(_) => 1,
            PlantPhase::Finished(_) => 0,
        }
    }

    /// Takes in what the operation gave; `None` where it failed.
    pub fn step(self, got: Option<u64>) -> (p: PlantPhase)
        ensures
            p == self.after(got),
    {
        let v: u64 = match got {
            Some(v) => v,
            None => match self {
                PlantPhase::Save | PlantPhase::Open | PlantPhase::Plant | PlantPhase::Close => {
                    return PlantPhase::Finished(PlantEnd::Fault);
                },
                _ => 0,
            },
        };
        match self {
            PlantPhase::Save => PlantPhase::Open,
            PlantPhase::Open => if v == 0 {
                PlantPhase::Plant
            } else {
                PlantPhase::Finished(PlantEnd::NotWritable(v))
            },
            PlantPhase::Plant => PlantPhase::Close,
            PlantPhase::Close => if v == 0 {
                PlantPhase::Call
            } else {
                PlantPhase::Reopen(PlantEnd::NotExecutable(v))
            },
            PlantPhase::Call => PlantPhase::Reopen(PlantEnd::Called),
            PlantPhase::Reopen(e) => PlantPhase::Restore(e),
            PlantPhase::Restore(e) => PlantPhase::Reclose(e),
            PlantPhase::Reclose(e) => PlantPhase::Finished(e),
            PlantPhase::Finished(e) => PlantPhase::Finished(e),
        }
    }
}

/// A call that returns to a planted breakpoint ends. Once the function can be called, what stood
/// in the breakpoint's place is written back before the end, whatever the operations give.
pub proof fn law_break_is_taken_out(p: PlantPhase, got: Option<u64>)
    ensures
        p.left() > 0 ==> p.after(got).left() < p.left(),
        p.left() == 0 <==> p is Finished,
        p.planted() ==> p.after(got).planted() || p is Reclose,
        p.after(got) is Reclose ==> p is Restore,
        p.after(got) == PlantPhase::Finished(PlantEnd::Called) ==> p == PlantPhase::Reclose(
            PlantEnd::Called,
        ) || p == PlantPhase::Finished(PlantEnd::Called),
{
}

/// The error that a call through a planted breakpoint ended with, where its page did not change.
pub fn plant_fault(end: PlantEnd, page: u64) -> (r: Option<TraceeError>)
    ensures
        match end {
            PlantEnd::NotWritable(v) => r matches Some(TraceeError::Msg(m)) && m@
                == "mprotect RW libc @"@ + hex_of(page) + " failed: "@ + hex_of(v),
            PlantEnd::NotExecutable(v) => r matches Some(TraceeError::Msg(m)) && m@
                == "mprotect RX libc @"@ + hex_of(page) + " failed: "@ + hex_of(v),
            _ => r is None,
        },
{
    let (mut m, v): (String, u64) = match end {
        PlantEnd::NotWritable(v) => ("mprotect RW libc @".to_owned(), v),
        PlantEnd::NotExecutable(v) => ("mprotect RX libc @".to_owned(), v),
        PlantEnd::Called => {
            return None;
        },
        PlantEnd::Fault => {
            return None;
        },
    };
    push_hex_of(&mut m, page);
    m.append(" failed: ");
    push_hex_of(&mut m, v);
    Some(TraceeError::Msg(m))
}

/// The text for a thread that could not be stopped, given what the system said.
pub open spec fn stop_text(attach: bool, tid: i32, why: Seq<char>) -> Seq<char> {
    (if attach {
        "ATTACH tid="@
    } else {
        "INTERRUPT tid="@
    }) + signed_decimal(tid as int) + ": "@ + why
}

/// The error of a thread that could not be stopped, by the step that failed; a wait has its own.
pub fn stop_failed(attach: bool, tid: i32, why: &str) -> (e: TraceeError)
    ensures
        e matches TraceeError::Ptrace(m) && m@ == stop_text(attach, tid, why@),
{
    let mut m = if attach {
        "ATTACH tid=".to_owned()
    } else {
        "INTERRUPT tid=".to_owned()
    };
    push_signed(&mut m, tid as i64);
    m.append(": ");
    m.append(why);
    TraceeError::Ptrace(m)
}

} // verus!
