//! Loading a library into a running process.
use crate::elf::{dynamic_symbol, find_dynsym_offset, Lookup, SymbolRule};
use crate::maps::{find_so, literals, so_place, SoFound, SoPlace};
use crate::remote::{hex_of, push_hex_of, TraceeError};
use crate::split::{lines_of, texts, words, words_of};
use crate::text::{
    chars_of, contains, has_part, has_prefix, joined, starts_with, string_of,
};
use vstd::prelude::*;
use vstd::string::*;

verus! {

#[derive(Debug)]
pub enum InjectError {
    Tracee(TraceeError),
    Symbol(String),
    DlOpen(u64),
    Msg(String),
}

impl InjectError {
    /// The text of the error.
    pub open spec fn text(&self) -> Seq<char> {
        match self {
            InjectError::Tracee(e) => e.text(),
            InjectError::Symbol(m) => "symbol not found: "@ + m@,
            InjectError::DlOpen(h) => "dlopen failed: "@ + hex_of(*h),
            InjectError::Msg(m) => m@,
        }
    }

    pub fn message(&self) -> (m: String)
        ensures
            m@ == self.text(),
    {
        match self {
            InjectError::Tracee(e) => e.message(),
            InjectError::Symbol(m) => "symbol not found: ".to_owned().concat(m.as_str()),
            InjectError::DlOpen(h) => {
                let mut s = "dlopen failed: ".to_owned();
                push_hex_of(&mut s, *h);
                s
            },
            InjectError::Msg(m) => m.clone(),
        }
    }
}

#[derive(Debug)]
pub struct InjectOptions {
    /// Path of the library on the device.
    pub library_path: String,
    /// Whether to load it in the name space of the class loader.
    pub use_namespace: bool,
}

/// `library not found on device: ` and the path.
pub open spec fn absent_text(path: Seq<char>) -> Seq<char> {
    "library not found on device: "@ + path
}

/// Loads a library into a process. Off the device no process can be stopped.
pub fn inject_library(pid: i32, found: bool, opts: &InjectOptions) -> (r: Result<u64, InjectError>)
    ensures
        match r {
            Ok(_) => false,
            Err(InjectError::Msg(m)) => !found && m@ == absent_text(opts.library_path@),
            Err(e) => found && (e matches InjectError::Tracee(t) && t is Unsupported),
        },
{
    if !found {
        return Err(
            InjectError::Msg(
                "library not found on device: ".to_owned().concat(opts.library_path.as_str()),
            ),
        );
    }
    match crate::remote::Tracee::seize(pid) {
        Err(e) => Err(InjectError::Tracee(e)),
        Ok(_) => Err(InjectError::Tracee(TraceeError::Unsupported)),
    }
}

/// A list of names as it is shown.
pub open spec fn shown_names(names: Seq<Seq<char>>) -> Seq<char> {
    "["@ + joined(names.map_values(|n: Seq<char>| "\""@ + n + "\""@), ", "@) + "]"@
}

fn names_text(names: &[&'static str]) -> (s: String)
    ensures
        s@ == shown_names(literals(names@)),
{
    let mut quoted: Vec<String> = Vec::new();
    let mut i: usize = 0;
    let ghost f = |n: Seq<char>| "\""@ + n + "\""@;
    let ghost want = literals(names@).map_values(f);
    assert(crate::text::views(quoted@) =~= want.take(0));
    while i < names.len()
        invariant
            i <= names@.len(),
            f == (|n: Seq<char>| "\""@ + n + "\""@),
            want == literals(names@).map_values(f),
            crate::text::views(quoted@) == want.take(i as int),
        decreases names@.len() - i,
    {
        let mut q = "\"".to_owned();
        q.append(names[i]);
        q.append("\"");
        let ghost before = quoted@;
        quoted.push(q);
        assert(q@ == want[i as int]);
        i = i + 1;
        assert(crate::text::views(quoted@) =~= crate::text::views(before).push(q@));
        assert(crate::text::views(quoted@) =~= want.take(i as int));
    }
    assert(want.take(i as int) =~= want);
    let mut s = "[".to_owned();
    s.append(crate::text::join(&quoted, ", ").as_str());
    s.append("]");
    s
}

/// What the search for a shared object comes to.
pub open spec fn bias_result(
    r: Result<(u64, String), InjectError>,
    maps: Seq<char>,
    needles: Seq<Seq<char>>,
) -> bool {
    match so_place(lines_of(maps), needles, 0) {
        SoFound::At(bias, path) => r matches Ok(p) && p.0 == bias && p.1@ == path,
        SoFound::Bad(f) => r matches Err(InjectError::Msg(m)) && m@ == f.text(),
        SoFound::Absent => r matches Err(InjectError::Msg(m)) && m@ == "shared object not found ("@
            + shown_names(needles) + ")"@,
    }
}

/// Load bias and path of the first mapped object with one of some names.
pub fn find_so_load_bias(maps: &str, needles: &[&'static str]) -> (r: Result<
    (u64, String),
    InjectError,
>)
    ensures
        bias_result(r, maps@, literals(needles@)),
{
    match find_so(maps, needles) {
        SoPlace::At(bias, path) => Ok((bias, path)),
        SoPlace::Bad(f) => Err(InjectError::Msg(f.message())),
        SoPlace::Absent => {
            let mut m = "shared object not found (".to_owned();
            m.append(names_text(needles).as_str());
            m.append(")");
            Err(InjectError::Msg(m))
        },
    }
}

/// The names of the library that opens libraries.
pub open spec fn libdl_names() -> Seq<Seq<char>> {
    seq!["/libdl.so"@, "libdl.so"@, "/linker64"@, "/linker"@]
}

/// The names of the C library.
pub open spec fn libc_names() -> Seq<Seq<char>> {
    seq!["/bionic/libc.so"@, "/libc.so"@]
}

/// The names of the dynamic loader.
pub open spec fn linker_names() -> Seq<Seq<char>> {
    seq!["/linker64"@, "/linker"@]
}

/// Load bias and path of the library that opens libraries.
pub fn find_libdl(maps: &str) -> (r: Result<(u64, String), InjectError>)
    ensures
        bias_result(r, maps@, libdl_names()),
{
    let names = ["/libdl.so", "libdl.so", "/linker64", "/linker"];
    assert(literals(names@) =~= libdl_names());
    find_so_load_bias(maps, names.as_slice())
}

/// Load bias and path of the C library.
pub fn find_libc(maps: &str) -> (r: Result<(u64, String), InjectError>)
    ensures
        bias_result(r, maps@, libc_names()),
{
    let names = ["/bionic/libc.so", "/libc.so"];
    assert(literals(names@) =~= libc_names());
    find_so_load_bias(maps, names.as_slice())
}

/// Load bias and path of the dynamic loader.
pub fn find_linker(maps: &str) -> (r: Option<(u64, String)>)
    ensures
        match so_place(lines_of(maps@), linker_names(), 0) {
            SoFound::At(bias, path) => r matches Some(p) && p.0 == bias && p.1@ == path,
            _ => r is None,
        },
{
    let names = ["/linker64", "/linker"];
    assert(literals(names@) =~= linker_names());
    match find_so(maps, names.as_slice()) {
        SoPlace::At(bias, path) => Some((bias, path)),
        _ => None,
    }
}

/// The address of a symbol of a loaded object: its load bias and its value in the image.
pub fn resolve_elf_symbol(base: u64, image: &[u8], name: &str) -> (r: Lookup)
    ensures
        r == match dynamic_symbol(image@, name@, SymbolRule::Defined, 8192) {
            Lookup::At(off) => Lookup::At(moved(base, off as int)),
            other => other,
        },
{
    match find_dynsym_offset(image, name) {
        Lookup::At(off) => Lookup::At(base.wrapping_add(off)),
        Lookup::Absent => Lookup::Absent,
        Lookup::Fault => Lookup::Fault,
    }
}

/// Whether a word of a listing is the security label of a file.
pub open spec fn is_label(w: Seq<char>) -> bool {
    has_prefix(w, "u:"@) && has_part(w, ":object_r:"@)
}

/// The first label among some words, from the `k`th on.
pub open spec fn label_from(ws: Seq<Seq<char>>, k: int) -> Option<Seq<char>>
    decreases ws.len() - k,
{
    if k >= ws.len() {
        None
    } else if is_label(ws[k]) {
        Some(ws[k])
    } else {
        label_from(ws, k + 1)
    }
}

/// The security label in a listing of a file.
pub fn selinux_context(listing: &str) -> (r: Option<String>)
    ensures
        match r {
            Some(s) => label_from(words_of(listing@), 0) == Some(s@),
            None => label_from(words_of(listing@), 0) is None,
        },
{
    let cs = chars_of(listing);
    let ws = words(cs.as_slice());
    let mut i: usize = 0;
    while i < ws.len()
        invariant
            i <= ws@.len(),
            texts(ws@) == words_of(listing@),
            label_from(words_of(listing@), 0) == label_from(words_of(listing@), i as int),
        decreases ws@.len() - i,
    {
        assert(texts(ws@)[i as int] == ws@[i as int]@);
        if starts_with(ws[i].as_slice(), "u:") && contains(ws[i].as_slice(), ":object_r:") {
            return Some(string_of(ws[i].as_slice()));
        }
        i = i + 1;
    }
    None
}

/// Whether a value can be the handle of a library: not small, canonical and aligned.
pub open spec fn is_handle(h: u64) -> bool {
    h >= 0x1_0000 && h < 0x1_0000_0000_0000 && h % 8 == 0
}

/// Whether a value can be the handle of a library.
pub fn plausible_so_handle(h: u64) -> (r: bool)
    ensures
        r == is_handle(h),
{
    h >= 0x1_0000 && h < 0x1_0000_0000_0000 && h % 8 == 0
}

/// A string with the zero that ends it.
pub fn cstr(s: &str) -> (out: Vec<u8>)
    ensures
        out@ == vstd::utf8::encode_utf8(s@).push(0),
{
    let mut out: Vec<u8> = crate::bytes::to_vec(s.as_bytes());
    out.push(0);
    out
}

/// Whether the kernel's answer to a request for memory is none: zero, or an error number.
pub open spec fn is_bad_map(page: u64) -> bool {
    page == 0 || page >= 0xffff_ffff_ffff_f000
}

/// `a` moved by `n`.
pub open spec fn moved(a: u64, n: int) -> u64 {
    ((a + n) % 0x1_0000_0000_0000_0000) as u64
}

/// The address that a caller is said to be at: in the C library, and never zero.
pub open spec fn caller_at(libc: u64) -> u64 {
    if libc == 0 {
        1
    } else {
        libc
    }
}

/// What an operation in the process came to.
#[derive(Debug, Clone, Copy, PartialEq, Eq, Structural)]
pub enum Answer {
    Value(u64),
    /// There is no such thing.
    Missing,
    /// It could not be done.
    Fault,
}

/// The value of an answer; zero where there is none.
pub open spec fn value_of(a: Answer) -> u64 {
    match a {
        Answer::Value(v) => v,
        _ => 0,
    }
}

pub(crate) fn value(a: Answer) -> (v: u64)
    ensures
        v == value_of(a),
{
    match a {
        Answer::Value(v) => v,
        _ => 0,
    }
}

/// Why a library was not loaded.
#[derive(Debug, Clone, Copy, PartialEq, Eq, Structural)]
pub enum Reason {
    /// Its file is not there.
    Absent,
    /// An operation in the process failed.
    Remote,
    /// Memory could not be had; the kernel's answer.
    NoMemory(u64),
    /// The C library was not found.
    NoLibc,
    /// The function that opens libraries was not found.
    NoSymbol,
    /// That function lies in no executable mapping.
    OutsideCode(u64),
    /// Memory could not be made executable; the kernel's answer.
    NotExecutable(u64),
    /// Loading from memory or in a name space failed, with an error of its own.
    Loader,
    /// Loading from memory gave nothing.
    NothingFromMemory,
    /// Nothing worked.
    Nothing,
}

#[derive(Debug, Clone, Copy, PartialEq, Eq, Structural)]
pub enum Outcome {
    Loaded(u64),
    Failed(Reason),
}

/// Where an injection stands: the operation whose answer it waits for.
#[derive(Debug, Clone, Copy, PartialEq, Eq, Structural)]
pub enum Phase {
    Checking,
    Seizing,
    Mapping,
    WritingPath,
    Opening,
    Closing,
    Labeling,
    RewritingPath,
    Reopening,
    Reclosing,
    FindingLibc,
    ResolvingFirst,
    ResolvingSecond,
    CheckingCode,
    WritingBreak,
    Protecting,
    LoadingMemory,
    MemoryError,
    ResolvingLoader,
    CallingLoader,
    Unprotecting,
    CallingDlopen,
    FirstError,
    UnprotectingAgain,
    WritingAgain,
    LoadingNamespace,
    FallbackMemory,
    SecondError,
    Detaching,
    Finished,
}

/// An operation of an injection.
#[derive(Debug, Clone, Copy, PartialEq, Eq, Structural)]
pub enum Op {
    /// Whether the library's file exists (a value other than zero).
    CheckFile,
    Seize,
    NewMemory { len: u64 },
    WritePath { addr: u64 },
    Open { addr: u64 },
    Close { fd: u64 },
    /// Give the library's file the label of its neighbours.
    FixLabel,
    /// The load bias of the C library.
    FindLibc,
    /// The address of `dlopen` in the library that opens libraries.
    ResolveFirst,
    /// The same in the C library.
    ResolveSecond,
    /// Whether an executable mapping holds the address (a value other than zero).
    CheckCode { addr: u64 },
    WriteBreak { addr: u64 },
    Protect { addr: u64, run: bool },
    /// Load from memory; the handle.
    LoadMemory,
    /// Load in a name space; the handle.
    LoadNamespace,
    /// The address of the loader's own `dlopen`.
    ResolveLoader,
    /// Call the loader's own `dlopen` with a caller's address, to return to `lr`.
    CallLoader { func: u64, path: u64, caller: u64, lr: u64 },
    /// Call `dlopen`, to return into the C library.
    CallDlopen { func: u64, path: u64 },
    /// Ask for the text of the last error.
    LastError,
    Detach,
    Finish(Outcome),
}

/// The state of an injection.
#[derive(Debug, Clone, Copy, PartialEq, Eq, Structural)]
pub struct Injection {
    pub phase: Phase,
    /// Page of scratch memory in the process.
    pub page: u64,
    /// File that was opened to see whether the process can.
    pub fd: u64,
    /// Whether the process can open the library's file.
    pub can_open: bool,
    pub libc: u64,
    /// Function to call.
    pub func: u64,
    pub dlopen: u64,
    pub outcome: Outcome,
}

impl Injection {
    /// The operation that is due.
    pub open spec fn due(self) -> Op {
        match self.phase {
            Phase::Checking => Op::CheckFile,
            Phase::Seizing => Op::Seize,
            Phase::Mapping => Op::NewMemory { len: 0x1000 },
            Phase::WritingPath | Phase::RewritingPath | Phase::WritingAgain => Op::WritePath {
                addr: self.page,
            },
            Phase::Opening | Phase::Reopening => Op::Open { addr: self.page },
            Phase::Closing | Phase::Reclosing => Op::Close { fd: self.fd },
            Phase::Labeling => Op::FixLabel,
            Phase::FindingLibc => Op::FindLibc,
            Phase::ResolvingFirst => Op::ResolveFirst,
            Phase::ResolvingSecond => Op::ResolveSecond,
            Phase::CheckingCode => Op::CheckCode { addr: self.dlopen },
            Phase::WritingBreak => Op::WriteBreak { addr: moved(self.page, 0x800) },
            Phase::Protecting => Op::Protect { addr: self.page, run: true },
            Phase::LoadingMemory | Phase::FallbackMemory => Op::LoadMemory,
            Phase::MemoryError | Phase::FirstError | Phase::SecondError => Op::LastError,
            Phase::ResolvingLoader => Op::ResolveLoader,
            Phase::CallingLoader => Op::CallLoader {
                func: self.func,
                path: self.page,
                caller: caller_at(self.libc),
                lr: moved(self.page, 0x800),
            },
            Phase::Unprotecting | Phase::UnprotectingAgain => Op::Protect {
                addr: self.page,
                run: false,
            },
            Phase::CallingDlopen => Op::CallDlopen { func: self.dlopen, path: self.page },
            Phase::LoadingNamespace => Op::LoadNamespace,
            Phase::Detaching => Op::Detach,
            Phase::Finished => Op::Finish(self.outcome),
        }
    }

    /// The same state, waiting for another operation.
    pub open spec fn at(self, phase: Phase) -> Injection {
        Injection { phase, ..self }
    }

    /// The same state, with its outcome and the process still to let go.
    pub open spec fn ends(self, outcome: Outcome) -> Injection {
        Injection { phase: Phase::Detaching, outcome, ..self }
    }

    /// The same state, over before the process was stopped.
    pub open spec fn ends_early(self, reason: Reason) -> Injection {
        Injection { phase: Phase::Finished, outcome: Outcome::Failed(reason), ..self }
    }

    /// On to another operation, unless this one could not be done.
    pub open spec fn unless_fault(self, a: Answer, phase: Phase) -> Injection {
        if a is Fault {
            self.ends(Outcome::Failed(Reason::Remote))
        } else {
            self.at(phase)
        }
    }

    /// Loaded where the answer is a handle, else on to another operation.
    pub open spec fn loaded_or(self, a: Answer, phase: Phase) -> Injection {
        if value_of(a) != 0 {
            self.ends(Outcome::Loaded(value_of(a)))
        } else {
            self.at(phase)
        }
    }

    /// The state after an answer.
    pub open spec fn after(self, a: Answer) -> Injection {
        match self.phase {
            Phase::Checking => if value_of(a) != 0 {
                self.at(Phase::Seizing)
            } else {
                self.ends_early(Reason::Absent)
            },
            Phase::Seizing => if a is Fault {
                self.ends_early(Reason::Remote)
            } else {
                self.at(Phase::Mapping)
            },
            Phase::Mapping => if a is Fault {
                self.ends(Outcome::Failed(Reason::Remote))
            } else if is_bad_map(value_of(a)) {
                self.ends(Outcome::Failed(Reason::NoMemory(value_of(a))))
            } else {
                Injection { page: value_of(a), ..self.at(Phase::WritingPath) }
            },
            Phase::WritingPath => self.unless_fault(a, Phase::Opening),
            Phase::Opening => if a is Value && value_of(a) <= i64::MAX {
                Injection { fd: value_of(a), can_open: true, ..self.at(Phase::Closing) }
            } else {
                self.at(Phase::Labeling)
            },
            Phase::Closing => self.at(Phase::FindingLibc),
            Phase::Labeling => self.at(Phase::RewritingPath),
            Phase::RewritingPath => self.unless_fault(a, Phase::Reopening),
            Phase::Reopening => if a is Value && value_of(a) <= i64::MAX {
                Injection { fd: value_of(a), can_open: true, ..self.at(Phase::Reclosing) }
            } else {
                self.at(Phase::FindingLibc)
            },
            Phase::Reclosing => self.at(Phase::FindingLibc),
            Phase::FindingLibc => if a is Value {
                Injection { libc: value_of(a), ..self.at(Phase::ResolvingFirst) }
            } else {
                self.ends(Outcome::Failed(Reason::NoLibc))
            },
            Phase::ResolvingFirst => if a is Value {
                Injection { dlopen: value_of(a), ..self.at(Phase::CheckingCode) }
            } else {
                self.at(Phase::ResolvingSecond)
            },
            Phase::ResolvingSecond => if a is Value {
                Injection { dlopen: value_of(a), ..self.at(Phase::CheckingCode) }
            } else {
                self.ends(Outcome::Failed(Reason::NoSymbol))
            },
            Phase::CheckingCode => if value_of(a) != 0 {
                self.at(Phase::WritingBreak)
            } else {
                self.ends(Outcome::Failed(Reason::OutsideCode(self.dlopen)))
            },
            Phase::WritingBreak => self.unless_fault(a, Phase::Protecting),
            Phase::Protecting => if a is Fault {
                self.ends(Outcome::Failed(Reason::Remote))
            } else if value_of(a) != 0 {
                self.ends(Outcome::Failed(Reason::NotExecutable(value_of(a))))
            } else if self.can_open {
                self.at(Phase::ResolvingLoader)
            } else {
                self.at(Phase::LoadingMemory)
            },
            Phase::LoadingMemory => if a is Fault {
                self.ends(Outcome::Failed(Reason::Loader))
            } else {
                self.loaded_or(a, Phase::MemoryError)
            },
            Phase::MemoryError => self.ends(Outcome::Failed(Reason::NothingFromMemory)),
            Phase::ResolvingLoader => if a is Value {
                Injection { func: value_of(a), ..self.at(Phase::CallingLoader) }
            } else {
                self.at(Phase::Unprotecting)
            },
            Phase::CallingLoader => if a is Fault {
                self.ends(Outcome::Failed(Reason::Remote))
            } else {
                self.loaded_or(a, Phase::Unprotecting)
            },
            Phase::Unprotecting => self.at(Phase::CallingDlopen),
            Phase::CallingDlopen => self.loaded_or(a, Phase::FirstError),
            Phase::FirstError => self.at(Phase::UnprotectingAgain),
            Phase::UnprotectingAgain => self.at(Phase::WritingAgain),
            Phase::WritingAgain => self.unless_fault(a, Phase::LoadingNamespace),
            Phase::LoadingNamespace => if a is Fault {
                self.ends(Outcome::Failed(Reason::Loader))
            } else {
                self.loaded_or(a, Phase::FallbackMemory)
            },
            Phase::FallbackMemory => if a is Fault {
                self.ends(Outcome::Failed(Reason::Loader))
            } else {
                self.loaded_or(a, Phase::SecondError)
            },
            Phase::SecondError => self.ends(Outcome::Failed(Reason::Nothing)),
            Phase::Detaching => self.at(Phase::Finished),
            Phase::Finished => self,
        }
    }

    /// An injection that is about to start.
    pub fn new() -> (s: Injection)
        ensures
            s == (Injection {
                phase: Phase::Checking,
                page: 0,
                fd: 0,
                can_open: false,
                libc: 0,
                func: 0,
                dlopen: 0,
                outcome: Outcome::Failed(Reason::Nothing),
            }),
            s.wf(),
    {
        Injection {
            phase: Phase::Checking,
            page: 0,
            fd: 0,
            can_open: false,
            libc: 0,
            func: 0,
            dlopen: 0,
            outcome: Outcome::Failed(Reason::Nothing),
        }
    }

    /// The operation that is due.
    pub fn op(&self) -> (op: Op)
        ensures
            op == self.due(),
    {
        match self.phase {
            Phase::Checking => Op::CheckFile,
            Phase::Seizing => Op::Seize,
            Phase::Mapping => Op::NewMemory { len: 0x1000 },
            Phase::WritingPath | Phase::RewritingPath | Phase::WritingAgain => Op::WritePath {
                addr: self.page,
            },
            Phase::Opening | Phase::Reopening => Op::Open { addr: self.page },
            Phase::Closing | Phase::Reclosing => Op::Close { fd: self.fd },
            Phase::Labeling => Op::FixLabel,
            Phase::FindingLibc => Op::FindLibc,
            Phase::ResolvingFirst => Op::ResolveFirst,
            Phase::ResolvingSecond => Op::ResolveSecond,
            Phase::CheckingCode => Op::CheckCode { addr: self.dlopen },
            Phase::WritingBreak => Op::WriteBreak { addr: self.page.wrapping_add(0x800) },
            Phase::Protecting => Op::Protect { addr: self.page, run: true },
            Phase::LoadingMemory | Phase::FallbackMemory => Op::LoadMemory,
            Phase::MemoryError | Phase::FirstError | Phase::SecondError => Op::LastError,
            Phase::ResolvingLoader => Op::ResolveLoader,
            Phase::CallingLoader => Op::CallLoader {
                func: self.func,
                path: self.page,
                caller: if self.libc == 0 {
                    1
                } else {
                    self.libc
                },
                lr: self.page.wrapping_add(0x800),
            },
            Phase::Unprotecting | Phase::UnprotectingAgain => Op::Protect {
                addr: self.page,
                run: false,
            },
            Phase::CallingDlopen => Op::CallDlopen { func: self.dlopen, path: self.page },
            Phase::LoadingNamespace => Op::LoadNamespace,
            Phase::Detaching => Op::Detach,
            Phase::Finished => Op::Finish(self.outcome),
        }
    }

    fn go(&mut self, phase: Phase)
        ensures
            *final(self) == old(self).at(phase),
    {
        self.phase = phase;
    }

    fn end(&mut self, outcome: Outcome)
        ensures
            *final(self) == old(self).ends(outcome),
    {
        self.phase = Phase::Detaching;
        self.outcome = outcome;
    }

    fn go_unless_fault(&mut self, a: Answer, phase: Phase)
        ensures
            *final(self) == old(self).unless_fault(a, phase),
    {
        match a {
            Answer::Fault => {
                self.end(Outcome::Failed(Reason::Remote));
            },
            _ => {
                self.go(phase);
            },
        }
    }

    fn load_or(&mut self, a: Answer, phase: Phase)
        ensures
            *final(self) == old(self).loaded_or(a, phase),
    {
        let h: u64 = value(a);
        if h != 0 {
            self.end(Outcome::Loaded(h));
        } else {
            self.go(phase);
        }
    }

    /// Goes on with the answer to the operation that was due.
    pub fn step(&mut self, a: Answer)
        ensures
            *final(self) == old(self).after(a),
    {
        let v: u64 = value(a);
        let fault = matches!(a, Answer::Fault);
        let valued = matches!(a, Answer::Value(_));
        match self.phase {
            Phase::Checking => {
                if v != 0 {
                    self.go(Phase::Seizing);
                } else {
                    self.phase = Phase::Finished;
                    self.outcome = Outcome::Failed(Reason::Absent);
                }
            },
            Phase::Seizing => {
                if fault {
                    self.phase = Phase::Finished;
                    self.outcome = Outcome::Failed(Reason::Remote);
                } else {
                    self.go(Phase::Mapping);
                }
            },
            Phase::Mapping => {
                if fault {
                    self.end(Outcome::Failed(Reason::Remote));
                } else if v == 0 || v >= 0xffff_ffff_ffff_f000 {
                    self.end(Outcome::Failed(Reason::NoMemory(v)));
                } else {
                    self.page = v;
                    self.go(Phase::WritingPath);
                }
            },
            Phase::WritingPath => {
                self.go_unless_fault(a, Phase::Opening);
            },
            Phase::Opening => {
                if valued && v <= 0x7fff_ffff_ffff_ffff {
                    self.fd = v;
                    self.can_open = true;
                    self.go(Phase::Closing);
                } else {
                    self.go(Phase::Labeling);
                }
            },
            Phase::Closing => {
                self.go(Phase::FindingLibc);
            },
            Phase::Labeling => {
                self.go(Phase::RewritingPath);
            },
            Phase::RewritingPath => {
                self.go_unless_fault(a, Phase::Reopening);
            },
            Phase::Reopening => {
                if valued && v <= 0x7fff_ffff_ffff_ffff {
                    self.fd = v;
                    self.can_open = true;
                    self.go(Phase::Reclosing);
                } else {
                    self.go(Phase::FindingLibc);
                }
            },
            Phase::Reclosing => {
                self.go(Phase::FindingLibc);
            },
            Phase::FindingLibc => {
                if valued {
                    self.libc = v;
                    self.go(Phase::ResolvingFirst);
                } else {
                    self.end(Outcome::Failed(Reason::NoLibc));
                }
            },
            Phase::ResolvingFirst => {
                if valued {
                    self.dlopen = v;
                    self.go(Phase::CheckingCode);
                } else {
                    self.go(Phase::ResolvingSecond);
                }
            },
            Phase::ResolvingSecond => {
                if valued {
                    self.dlopen = v;
                    self.go(Phase::CheckingCode);
                } else {
                    self.end(Outcome::Failed(Reason::NoSymbol));
                }
            },
            Phase::CheckingCode => {
                if v != 0 {
                    self.go(Phase::WritingBreak);
                } else {
                    self.end(Outcome::Failed(Reason::OutsideCode(self.dlopen)));
                }
            },
            Phase::WritingBreak => {
                self.go_unless_fault(a, Phase::Protecting);
            },
            Phase::Protecting => {
                if fault {
                    self.end(Outcome::Failed(Reason::Remote));
                } else if v != 0 {
                    self.end(Outcome::Failed(Reason::NotExecutable(v)));
                } else if self.can_open {
                    self.go(Phase::ResolvingLoader);
                } else {
                    self.go(Phase::LoadingMemory);
                }
            },
            Phase::LoadingMemory => {
                if fault {
                    self.end(Outcome::Failed(Reason::Loader));
                } else {
                    self.load_or(a, Phase::MemoryError);
                }
            },
            Phase::MemoryError => {
                self.end(Outcome::Failed(Reason::NothingFromMemory));
            },
            Phase::ResolvingLoader => {
                if valued {
                    self.func = v;
                    self.go(Phase::CallingLoader);
                } else {
                    self.go(Phase::Unprotecting);
                }
            },
            Phase::CallingLoader => {
                if fault {
                    self.end(Outcome::Failed(Reason::Remote));
                } else {
                    self.load_or(a, Phase::Unprotecting);
                }
            },
            Phase::Unprotecting => {
                self.go(Phase::CallingDlopen);
            },
            Phase::CallingDlopen => {
                self.load_or(a, Phase::FirstError);
            },
            Phase::FirstError => {
                self.go(Phase::UnprotectingAgain);
            },
            Phase::UnprotectingAgain => {
                self.go(Phase::WritingAgain);
            },
            Phase::WritingAgain => {
                self.go_unless_fault(a, Phase::LoadingNamespace);
            },
            Phase::LoadingNamespace => {
                if fault {
                    self.end(Outcome::Failed(Reason::Loader));
                } else {
                    self.load_or(a, Phase::FallbackMemory);
                }
            },
            Phase::FallbackMemory => {
                if fault {
                    self.end(Outcome::Failed(Reason::Loader));
                } else {
                    self.load_or(a, Phase::SecondError);
                }
            },
            Phase::SecondError => {
                self.end(Outcome::Failed(Reason::Nothing));
            },
            Phase::Detaching => {
                self.go(Phase::Finished);
            },
            Phase::Finished => {},
        }
    }

    /// How far an injection is from its end at most.
    pub open spec fn distance(self) -> nat {
        match self.phase {
            Phase::Checking => 26,
            Phase::Seizing => 25,
            Phase::Mapping => 24,
            Phase::WritingPath => 23,
            Phase::Opening => 22,
            Phase::Labeling => 21,
            Phase::RewritingPath => 20,
            Phase::Reopening => 19,
            Phase::Closing => 18,
            Phase::Reclosing => 18,
            Phase::FindingLibc => 17,
            Phase::ResolvingFirst => 16,
            Phase::ResolvingSecond => 15,
            Phase::CheckingCode => 14,
            Phase::WritingBreak => 13,
            Phase::Protecting => 12,
            Phase::ResolvingLoader => 11,
            Phase::CallingLoader => 10,
            Phase::Unprotecting => 9,
            Phase::CallingDlopen => 8,
            Phase::FirstError => 7,
            Phase::UnprotectingAgain => 6,
            Phase::WritingAgain => 5,
            Phase::LoadingNamespace => 4,
            Phase::LoadingMemory => 3,
            Phase::FallbackMemory => 3,
            Phase::MemoryError => 2,
            Phase::SecondError => 2,
            Phase::Detaching => 1,
            Phase::Finished => 0,
        }
    }

    /// Whether the state is in order.
    pub open spec fn wf(self) -> bool {
        &&& self.outcome matches Outcome::Loaded(h) ==> h != 0
        &&& self.phase is ResolvingLoader || self.phase is CallingLoader || self.phase
            is Unprotecting || self.phase is CallingDlopen || self.phase is FirstError
            || self.phase is UnprotectingAgain || self.phase is WritingAgain || self.phase
            is LoadingNamespace ==> self.can_open
    }

    /// Whether the process is stopped.
    pub open spec fn holds_process(self) -> bool {
        !(self.phase is Checking || self.phase is Seizing || self.phase is Finished)
    }
}

/// Every answer brings an injection nearer to its end.
pub proof fn law_injection_ends(s: Injection, a: Answer)
    requires
        !(s.phase is Finished),
    ensures
        s.after(a).distance() < s.distance(),
{
}

/// A process that was stopped is let go before the injection is over, whatever happens.
pub proof fn law_process_is_let_go(s: Injection, a: Answer)
    requires
        s.holds_process(),
        s.after(a).phase is Finished,
    ensures
        s.due() is Detach,
{
}

/// No answer breaks the state of an injection. So a library counts as loaded only with a handle
/// that is not zero, and only a process that can open the library's file is asked to load it by
/// its path.
pub proof fn law_injection_keeps_state(s: Injection, a: Answer)
    requires
        s.wf(),
    ensures
        s.after(a).wf(),
        s.after(a).due() matches Op::Finish(Outcome::Loaded(h)) ==> h != 0,
        s.after(a).due() is CallLoader || s.after(a).due() is CallDlopen || s.after(a).due()
            is LoadNamespace ==> s.after(a).can_open,
{
}

/// The outcome that was reached stays.
pub proof fn law_outcome_stays(s: Injection, a: Answer)
    requires
        s.phase is Detaching || s.phase is Finished,
    ensures
        s.after(a).outcome == s.outcome,
        s.after(a).phase is Finished,
{
}

/// The text of a failed injection, given the path, the texts of the first and the last error,
/// and that of an operation or a loader that failed.
pub open spec fn reason_text(
    r: Reason,
    path: Seq<char>,
    first: Seq<char>,
    last: Seq<char>,
    inner: Seq<char>,
) -> Seq<char> {
    match r {
        Reason::Absent => absent_text(path),
        Reason::Remote | Reason::NoLibc | Reason::NoSymbol | Reason::Loader => inner,
        Reason::NoMemory(v) => "mmap failed: "@ + hex_of(v),
        Reason::OutsideCode(v) => "resolved dlopen "@ + hex_of(v)
            + " not in any r-xp mapping (bad load bias?)"@,
        Reason::NotExecutable(v) => "mprotect RX scratch failed: "@ + hex_of(v),
        Reason::NothingFromMemory => "memfd dlopen failed: "@ + last,
        Reason::Nothing => "dlopen failed: "@ + last + " (plain dlopen: "@ + first + ")"@,
    }
}

/// The text of a failed injection.
pub fn failure_text(r: Reason, path: &str, first: &str, last: &str, inner: &str) -> (s: String)
    ensures
        s@ == reason_text(r, path@, first@, last@, inner@),
{
    match r {
        Reason::Absent => "library not found on device: ".to_owned().concat(path),
        Reason::Remote | Reason::NoLibc | Reason::NoSymbol | Reason::Loader => inner.to_owned(),
        Reason::NoMemory(v) => {
            let mut s = "mmap failed: ".to_owned();
            push_hex_of(&mut s, v);
            s
        },
        Reason::OutsideCode(v) => {
            let mut s = "resolved dlopen ".to_owned();
            push_hex_of(&mut s, v);
            s.append(" not in any r-xp mapping (bad load bias?)");
            s
        },
        Reason::NotExecutable(v) => {
            let mut s = "mprotect RX scratch failed: ".to_owned();
            push_hex_of(&mut s, v);
            s
        },
        Reason::NothingFromMemory => "memfd dlopen failed: ".to_owned().concat(last),
        Reason::Nothing => {
            let mut s = "dlopen failed: ".to_owned();
            s.append(last);
            s.append(" (plain dlopen: ");
            s.append(first);
            s.append(")");
            s
        },
    }
}

} // verus!
