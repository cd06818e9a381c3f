//! Finding the process to work on.
use crate::elf::{lossy, utf8_lossy};
use crate::split::{texts, words, words_of};
use crate::text::{
    chars_of, contains, copy_chars, has_part, has_prefix, join, joined, matches_at,
    numeral_max, parse_number, same_chars, string_of, views,
};
use vstd::prelude::*;
use vstd::string::*;

verus! {

#[derive(Debug)]
pub enum DiscoverError {
    Io(String),
    NotFound(String),
}

impl DiscoverError {
    /// The text of the error.
    pub open spec fn text(&self) -> Seq<char> {
        match self {
            DiscoverError::Io(m) => "io: "@ + m@,
            DiscoverError::NotFound(m) => "process not found: "@ + m@,
        }
    }

    pub fn message(&self) -> (m: String)
        ensures
            m@ == self.text(),
    {
        match self {
            DiscoverError::Io(m) => "io: ".to_owned().concat(m.as_str()),
            DiscoverError::NotFound(m) => "process not found: ".to_owned().concat(m.as_str()),
        }
    }
}

/// A process.
#[derive(Debug)]
pub struct ProcessInfo {
    pub pid: u32,
    pub cmdline: String,
    pub package: Option<String>,
    pub abi: Option<String>,
}

/// The text of something that may be missing.
pub open spec fn text_view(s: Option<String>) -> Option<Seq<char>> {
    match s {
        Some(t) => Some(t@),
        None => None,
    }
}

/// A process, as contracts speak of it.
#[verifier::ext_equal]
pub struct ProcessState {
    pub pid: u32,
    pub cmdline: Seq<char>,
    pub package: Option<Seq<char>>,
    pub abi: Option<Seq<char>>,
}

impl View for ProcessInfo {
    type V = ProcessState;

    open spec fn view(&self) -> ProcessState {
        ProcessState {
            pid: self.pid,
            cmdline: self.cmdline@,
            package: text_view(self.package),
            abi: text_view(self.abi),
        }
    }
}

/// The first word of a command line; `None` where it has none.
pub open spec fn command(cmdline: Seq<char>) -> Option<Seq<char>> {
    if words_of(cmdline).len() > 0 {
        Some(words_of(cmdline)[0])
    } else {
        None
    }
}

/// The package that a command line names: its first word, where that has a dot and is no path.
pub open spec fn package_of(cmdline: Seq<char>) -> Option<Seq<char>> {
    match command(cmdline) {
        Some(w) => if w.contains('.') && !(w.len() > 0 && w[0] == '/') {
            Some(w)
        } else {
            None
        },
        None => None,
    }
}

/// The package that a command line names.
pub fn guess_package(cmdline: &str) -> (r: Option<String>)
    ensures
        text_view(r) == package_of(cmdline@),
{
    let cs = chars_of(cmdline);
    let ws = words(cs.as_slice());
    if ws.len() == 0 {
        return None;
    }
    assert(texts(ws@)[0] == ws@[0]@);
    let w = &ws[0];
    let dot: usize = crate::split::find_char(w.as_slice(), '.', 0);
    assert(dot < w@.len() ==> w@[dot as int] == '.');
    if dot < w.len() && w[0] != '/' {
        Some(string_of(w.as_slice()))
    } else {
        None
    }
}

/// The pieces of a command line file between zeros that are not empty, from `from` on.
pub open spec fn arguments(raw: Seq<u8>, from: int) -> Seq<Seq<u8>>
    decreases raw.len() + 1 - from,
    via arguments_decreases
{
    if from >= raw.len() {
        Seq::empty()
    } else {
        let end = crate::elf::nul_from(raw, from, raw.len() as int);
        let rest = arguments(raw, end + 1);
        if end > from {
            seq![raw.subrange(from, end)] + rest
        } else {
            rest
        }
    }
}

#[via_fn]
proof fn arguments_decreases(raw: Seq<u8>, from: int) {
    if from < raw.len() {
        lemma_nul_bound(raw, from, raw.len() as int);
    }
}

proof fn lemma_nul_bound(raw: Seq<u8>, from: int, to: int)
    requires
        from <= to,
    ensures
        from <= crate::elf::nul_from(raw, from, to) <= to,
    decreases to - from,
{
    if from < to && raw[from] != 0 {
        lemma_nul_bound(raw, from + 1, to);
    }
}

/// The text of a command line file.
pub open spec fn cmdline_of(raw: Seq<u8>) -> Seq<char> {
    joined(arguments(raw, 0).map_values(|b: Seq<u8>| utf8_lossy(b)), " "@)
}

/// The text of a command line file: its arguments with spaces between them.
pub fn cmdline_text(raw: &[u8]) -> (s: String)
    ensures
        s@ == cmdline_of(raw@),
{
    let n: usize = raw.len();
    let mut out: Vec<String> = Vec::new();
    let mut from: usize = 0;
    let ghost f = |b: Seq<u8>| utf8_lossy(b);
    let ghost all = arguments(raw@, 0).map_values(f);
    assert(views(out@) + all =~= all);
    while from < n
        invariant
            n == raw@.len(),
            from <= n,
            f == (|b: Seq<u8>| utf8_lossy(b)),
            views(out@) + arguments(raw@, from as int).map_values(f) == all,
        decreases n - from,
    {
        let end: usize = crate::elf::find_nul(raw, from, n);
        let ghost before = out@;
        let ghost rest = arguments(raw@, end + 1);
        if end > from {
            let piece = vstd::slice::slice_subrange(raw, from, end);
            let text = lossy(piece);
            out.push(text);
            assert(views(out@) =~= views(before).push(text@));
            assert((seq![piece@] + rest).map_values(f) =~= seq![f(piece@)] + rest.map_values(f));
            assert(views(out@) + rest.map_values(f) =~= views(before) + (seq![f(piece@)]
                + rest.map_values(f)));
        }
        if end >= n {
            assert(arguments(raw@, end + 1) =~= Seq::<Seq<u8>>::empty());
            assert(arguments(raw@, n as int) =~= Seq::<Seq<u8>>::empty());
            from = n;
        } else {
            from = end + 1;
        }
    }
    assert(arguments(raw@, from as int).map_values(f) =~= Seq::<Seq<char>>::empty());
    assert(views(out@) =~= all);
    join(&out, " ")
}

/// The number that the name of an entry of `/proc` is, if it is one.
pub open spec fn number_of(name: Seq<char>) -> Option<u32> {
    match numeral_max(name, 10, u32::MAX as nat) {
        Some(v) => if name[0] == '+' {
            None
        } else {
            Some(v as u32)
        },
        None => None,
    }
}

/// The number that the name of an entry of `/proc` is, if it is one.
pub fn process_number(name: &str) -> (r: Option<u32>)
    ensures
        r == number_of(name@),
{
    let cs = chars_of(name);
    if cs.len() > 0 && cs[0] == '+' {
        return None;
    }
    match parse_number(cs.as_slice(), 10, 0xffff_ffff) {
        Some(v) => Some(v as u32),
        None => None,
    }
}

/// The process with a number and a command line; none where the command line is empty.
pub fn process_info(pid: u32, cmdline: String, abi: Option<String>) -> (r: Option<ProcessInfo>)
    ensures
        if cmdline@.len() == 0 {
            r is None
        } else {
            r matches Some(p) && p.pid == pid && p.cmdline@ == cmdline@ && text_view(p.package)
                == package_of(cmdline@) && p.abi == abi
        },
{
    let cs = chars_of(cmdline.as_str());
    if cs.len() == 0 {
        return None;
    }
    let package = guess_package(cmdline.as_str());
    Some(ProcessInfo { pid, cmdline, package, abi })
}

/// The machine that a process runs on, by its memory map and the file that it runs.
pub open spec fn abi_of(maps: Seq<char>, exe: Option<Seq<char>>) -> Seq<char> {
    if has_part(maps, "/system/bin/app_process64"@) || has_part(maps, "lib64/"@) {
        "arm64-v8a"@
    } else if has_part(maps, "/system/bin/app_process32"@) || has_part(maps, "/lib/"@) {
        "armeabi-v7a"@
    } else if exe is Some && has_part(exe.unwrap(), "64"@) {
        "arm64-v8a"@
    } else {
        "unknown"@
    }
}

/// The machine that a process runs on, by its memory map and the file that it runs.
pub fn resolve_abi(maps: &str, exe: &Option<String>) -> (abi: String)
    ensures
        abi@ == abi_of(maps@, text_view(*exe)),
{
    let m = chars_of(maps);
    if contains(m.as_slice(), "/system/bin/app_process64") || contains(m.as_slice(), "lib64/") {
        return "arm64-v8a".to_owned();
    }
    if contains(m.as_slice(), "/system/bin/app_process32") || contains(m.as_slice(), "/lib/") {
        return "armeabi-v7a".to_owned();
    }
    match exe {
        Some(link) => {
            let l = chars_of(link.as_str());
            if contains(l.as_slice(), "64") {
                return "arm64-v8a".to_owned();
            }
        },
        None => {},
    }
    "unknown".to_owned()
}

/// What `/proc` has of an entry: its name, and those of its files that could be read.
#[derive(Debug)]
pub struct ProcEntry {
    pub name: String,
    pub cmdline: Option<Vec<u8>>,
    pub maps: Option<String>,
    /// The file that the process runs.
    pub exe: Option<String>,
}

/// The process that an entry of `/proc` is; none where its name is no number, or its command
/// line is empty or could not be read.
pub open spec fn listed(e: ProcEntry) -> Option<ProcessState> {
    match (number_of(e.name@), e.cmdline) {
        (Some(pid), Some(raw)) => if cmdline_of(raw@).len() == 0 {
            None
        } else {
            Some(
                ProcessState {
                    pid,
                    cmdline: cmdline_of(raw@),
                    package: package_of(cmdline_of(raw@)),
                    abi: match e.maps {
                        Some(m) => Some(abi_of(m@, text_view(e.exe))),
                        None => None,
                    },
                },
            )
        },
        _ => None,
    }
}

/// The processes among some entries of `/proc`, in their order.
pub open spec fn all_listed(entries: Seq<ProcEntry>) -> Seq<ProcessState>
    decreases entries.len(),
{
    if entries.len() == 0 {
        Seq::empty()
    } else {
        match listed(entries.last()) {
            Some(p) => all_listed(entries.drop_last()).push(p),
            None => all_listed(entries.drop_last()),
        }
    }
}

/// Processes, as contracts speak of them.
pub open spec fn process_states(procs: Seq<ProcessInfo>) -> Seq<ProcessState> {
    procs.map_values(|p: ProcessInfo| p@)
}

fn read_entry(e: &ProcEntry) -> (r: Option<ProcessInfo>)
    ensures
        match r {
            Some(p) => listed(*e) == Some(p@),
            None => listed(*e) is None,
        },
{
    let pid: u32 = match process_number(e.name.as_str()) {
        Some(n) => n,
        None => {
            return None;
        },
    };
    let cmdline = match &e.cmdline {
        Some(raw) => cmdline_text(raw.as_slice()),
        None => {
            return None;
        },
    };
    let abi = match &e.maps {
        Some(m) => Some(resolve_abi(m.as_str(), &e.exe)),
        None => None,
    };
    process_info(pid, cmdline, abi)
}

/// The processes among the entries of `/proc`, in their order.
pub fn enumerate_processes(entries: &Vec<ProcEntry>) -> (out: Vec<ProcessInfo>)
    ensures
        process_states(out@) == all_listed(entries@),
{
    let mut out: Vec<ProcessInfo> = Vec::new();
    let mut i: usize = 0;
    assert(entries@.take(0) =~= Seq::<ProcEntry>::empty());
    assert(process_states(out@) =~= Seq::<ProcessState>::empty());
    while i < entries.len()
        invariant
            i <= entries@.len(),
            process_states(out@) == all_listed(entries@.take(i as int)),
        decreases entries@.len() - i,
    {
        assert(entries@.take(i + 1).drop_last() =~= entries@.take(i as int));
        match read_entry(&entries[i]) {
            Some(p) => {
                let ghost before = out@;
                out.push(p);
                assert(process_states(out@) =~= process_states(before).push(p@));
            },
            None => {},
        }
        i = i + 1;
    }
    assert(entries@.take(i as int) =~= entries@);
    out
}

/// Whether a command line is that of an app: its first word is the package, or the package, a
/// colon and more.
pub open spec fn is_app(cmdline: Seq<char>, package: Seq<char>) -> bool {
    match command(cmdline) {
        Some(w) => w == package || has_prefix(w, package.push(':')),
        None => package.len() == 0,
    }
}

/// Whether a command line is that of the main process of an app.
pub open spec fn is_main(cmdline: Seq<char>, package: Seq<char>) -> bool {
    match command(cmdline) {
        Some(w) => w == package,
        None => package.len() == 0,
    }
}

/// Whether a command line is that of an app, and of its main process.
pub(crate) fn app_kind(cmdline: &str, package: &str) -> (r: (bool, bool))
    ensures
        r.0 == is_app(cmdline@, package@),
        r.1 == is_main(cmdline@, package@),
{
    let cs = chars_of(cmdline);
    let pv = chars_of(package);
    let ws = words(cs.as_slice());
    if ws.len() == 0 {
        return (pv.len() == 0, pv.len() == 0);
    }
    assert(texts(ws@)[0] == ws@[0]@);
    let w = &ws[0];
    let main = same_chars(w.as_slice(), pv.as_slice());
    let mut tagged = chars_of(package);
    tagged.push(':');
    let sub = matches_at(w.as_slice(), tagged.as_slice(), 0);
    assert(sub == has_prefix(w@, tagged@)) by {
        if w@.len() >= tagged@.len() {
            assert(w@.subrange(0, tagged@.len() as int) =~= w@.take(tagged@.len() as int));
        }
    }
    (main || sub, main)
}

/// Whether a process may be chosen: an app of the package that runs as an app user and is not
/// one of those to skip.
pub open spec fn eligible(p: (u32, ProcessInfo), package: Seq<char>, skip: Seq<u32>) -> bool {
    !skip.contains(p.1.pid) && is_app(p.1.cmdline@, package) && p.0 >= 10_000
}

/// Whether the first process goes before the second: main processes first, then by user and
/// number.
pub open spec fn before(a: (u32, ProcessInfo), b: (u32, ProcessInfo), package: Seq<char>) -> bool {
    let am = is_main(a.1.cmdline@, package);
    let bm = is_main(b.1.cmdline@, package);
    if am != bm {
        am
    } else if a.0 != b.0 {
        a.0 < b.0
    } else {
        a.1.pid < b.1.pid
    }
}

/// Whether the `i`th process is the one to choose: eligible, no eligible one goes before it,
/// and the first of those that are alike.
pub open spec fn is_choice(
    procs: Seq<(u32, ProcessInfo)>,
    package: Seq<char>,
    skip: Seq<u32>,
    i: int,
) -> bool {
    &&& 0 <= i < procs.len()
    &&& eligible(procs[i], package, skip)
    &&& forall|j: int|
        0 <= j < procs.len() && eligible(#[trigger] procs[j], package, skip) ==> !before(
            procs[j],
            procs[i],
            package,
        )
    &&& forall|j: int|
        0 <= j < i && eligible(#[trigger] procs[j], package, skip) ==> before(
            procs[i],
            procs[j],
            package,
        )
}

/// At most one process is the one to choose.
pub proof fn law_choice_is_unique(
    procs: Seq<(u32, ProcessInfo)>,
    package: Seq<char>,
    skip: Seq<u32>,
    i: int,
    j: int,
)
    requires
        is_choice(procs, package, skip, i),
        is_choice(procs, package, skip, j),
    ensures
        i == j,
{
    assert(eligible(procs[i], package, skip));
    assert(eligible(procs[j], package, skip));
}

fn skips(skip: &Vec<u32>, pid: u32) -> (r: bool)
    ensures
        r == skip@.contains(pid),
{
    let mut i: usize = 0;
    while i < skip.len()
        invariant
            i <= skip@.len(),
            forall|j: int| 0 <= j < i ==> skip@[j] != pid,
        decreases skip@.len() - i,
    {
        if skip[i] == pid {
            return true;
        }
        i = i + 1;
    }
    false
}

fn goes_before(a: &(u32, ProcessInfo), b: &(u32, ProcessInfo), package: &str) -> (r: bool)
    ensures
        r == before(*a, *b, package@),
{
    let am = app_kind(a.1.cmdline.as_str(), package).1;
    let bm = app_kind(b.1.cmdline.as_str(), package).1;
    if am != bm {
        am
    } else if a.0 != b.0 {
        a.0 < b.0
    } else {
        a.1.pid < b.1.pid
    }
}

/// Chooses the process of a package among those that run, each with its user.
pub fn find_by_package(package: &str, procs: Vec<(u32, ProcessInfo)>, skip: &Vec<u32>) -> (r:
    Result<ProcessInfo, DiscoverError>)
    ensures
        match r {
            Ok(p) => exists|i: int|
                #[trigger] is_choice(procs@, package@, skip@, i) && p == procs@[i].1,
            Err(e) => (forall|i: int|
                0 <= i < procs@.len() ==> !eligible(#[trigger] procs@[i], package@, skip@)) && (
            e matches DiscoverError::NotFound(m) && m@ == package@
                + " (no running app process; a shell mentioning the name does not count)"@),
        },
{
    let mut best: Option<usize> = None;
    let mut i: usize = 0;
    while i < procs.len()
        invariant
            i <= procs@.len(),
            match best {
                Some(b) => b < i && is_choice(procs@.take(i as int), package@, skip@, b as int),
                None => forall|j: int|
                    0 <= j < i ==> !eligible(#[trigger] procs@[j], package@, skip@),
            },
        decreases procs@.len() - i,
    {
        let uid: u32 = procs[i].0;
        let (app, _) = app_kind(procs[i].1.cmdline.as_str(), package);
        let ghost now = procs@.take(i + 1);
        let ghost was = procs@.take(i as int);
        assert forall|j: int| 0 <= j < i implies now[j] == was[j] by {}
        if app && uid >= 10_000 && !skips(skip, procs[i].1.pid) {
            match best {
                Some(b) => {
                    if goes_before(&procs[i], &procs[b], package) {
                        assert forall|j: int|
                            0 <= j < now.len() && eligible(
                                #[trigger] now[j],
                                package@,
                                skip@,
                            ) implies !before(now[j], now[i as int], package@) by {
                            if j < i {
                                assert(eligible(was[j], package@, skip@));
                                assert(!before(was[j], was[b as int], package@));
                            }
                        }
                        assert forall|j: int|
                            0 <= j < i && eligible(#[trigger] now[j], package@, skip@) implies before(
                            now[i as int],
                            now[j],
                            package@,
                        ) by {
                            assert(eligible(was[j], package@, skip@));
                            assert(!before(was[j], was[b as int], package@));
                        }
                        best = Some(i);
                    }
                },
                None => {
                    best = Some(i);
                },
            }
        }
        i = i + 1;
    }
    assert(procs@.take(i as int) =~= procs@);
    match best {
        Some(b) => {
            let mut procs = procs;
            let ghost all = procs@;
            let p = procs.remove(b);
            assert(is_choice(all, package@, skip@, b as int));
            Ok(p.1)
        },
        None => Err(
            DiscoverError::NotFound(
                package.to_owned().concat(
                    " (no running app process; a shell mentioning the name does not count)",
                ),
            ),
        ),
    }
}

/// A command line as it is shown: 140 characters at most, and an ellipsis where more follow.
pub fn clip_cmd(cmd: &str) -> (s: String)
    ensures
        s@ == if cmd@.len() > 140 {
            cmd@.take(140).push('\u{2026}')
        } else {
            cmd@
        },
{
    let cs = chars_of(cmd);
    if cs.len() > 140 {
        let mut out = copy_chars(cs.as_slice(), 0, 140);
        assert(out@ =~= cmd@.take(140));
        out.push('\u{2026}');
        string_of(out.as_slice())
    } else {
        string_of(cs.as_slice())
    }
}

} // verus!
