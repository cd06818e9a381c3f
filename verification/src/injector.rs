//! What the program on the device decides.
use crate::discover::{clip_cmd, is_app, text_view, ProcessInfo};
use crate::host::HostError;
use crate::split::{lines, lines_of, pieces, split, texts, words, words_of};
use crate::text::{
    chars_of, copy_chars, decimal, has_prefix, numeral_max, parse_number, push_char, push_decimal,
    push_signed, signed_decimal, starts_with, string_of, trim, trimmed, views,
};
use vstd::prelude::*;
use vstd::string::*;

verus! {

/// What a process that was named is good for.
#[derive(Debug)]
pub enum PidCheck {
    /// It is the one.
    Use,
    /// It does not run: look the package up.
    LookUp,
    Refuse(HostError),
}

/// A command line as it is shown.
pub open spec fn clipped(cmd: Seq<char>) -> Seq<char> {
    if cmd.len() > 140 {
        cmd.take(140).push('\u{2026}')
    } else {
        cmd
    }
}

/// What a process with a command line is good for. One that only mentions the package is
/// refused.
pub fn check_pid(pid: i32, cmd: &str, package: &Option<String>) -> (r: PidCheck)
    ensures
        match r {
            PidCheck::Use => cmd@.len() > 0 && (*package matches Some(pkg) ==> is_app(
                cmd@,
                pkg@,
            )),
            PidCheck::LookUp => cmd@.len() == 0 && package is Some,
            PidCheck::Refuse(e) => e matches HostError::Msg(m) && if cmd@.len() == 0 {
                package is None && m@ == "pid "@ + signed_decimal(pid as int) + " is not running"@
            } else {
                *package matches Some(pkg) && !is_app(cmd@, pkg@) && m@ == "pid "@
                    + signed_decimal(pid as int) + " is not "@ + pkg@ + " (cmdline: "@ + clipped(
                    cmd@,
                )
                    + "). Refusing to inject into a shell that only mentions the package."@
            },
        },
{
    let cs = chars_of(cmd);
    if cs.len() == 0 {
        if package.is_some() {
            return PidCheck::LookUp;
        }
        let mut m = "pid ".to_owned();
        push_signed(&mut m, pid as i64);
        m.append(" is not running");
        return PidCheck::Refuse(HostError::Msg(m));
    }
    match package {
        Some(pkg) => {
            if !crate::discover::app_kind(cmd, pkg.as_str()).0 {
                let mut m = "pid ".to_owned();
                push_signed(&mut m, pid as i64);
                m.append(" is not ");
                m.append(pkg.as_str());
                m.append(" (cmdline: ");
                m.append(clip_cmd(cmd).as_str());
                m.append("). Refusing to inject into a shell that only mentions the package.");
                return PidCheck::Refuse(HostError::Msg(m));
            }
        },
        None => {},
    }
    PidCheck::Use
}

/// The package of the first process with a number, from the `k`th on.
pub open spec fn package_from(procs: Seq<ProcessInfo>, pid: i32, k: int) -> Option<Seq<char>>
    decreases procs.len() - k,
{
    if k >= procs.len() {
        None
    } else if procs[k].pid as i32 == pid {
        text_view(procs[k].package)
    } else {
        package_from(procs, pid, k + 1)
    }
}

/// The package to work on: the one that was named, else that of the process.
pub fn target_package(package: Option<String>, procs: &Vec<ProcessInfo>, pid: i32) -> (r: Option<
    String,
>)
    ensures
        match package {
            Some(p) => text_view(r) == Some(p@),
            None => text_view(r) == package_from(procs@, pid, 0),
        },
{
    match package {
        Some(p) => {
            return Some(p);
        },
        None => {},
    }
    let mut i: usize = 0;
    while i < procs.len()
        invariant
            i <= procs@.len(),
            package is None,
            package_from(procs@, pid, 0) == package_from(procs@, pid, i as int),
        decreases procs@.len() - i,
    {
        if procs[i].pid as i32 == pid {
            return match &procs[i].package {
                Some(p) => Some(p.clone()),
                None => None,
            };
        }
        i = i + 1;
    }
    None
}

/// Where neither a process nor a package was named.
pub fn no_target() -> (e: HostError)
    ensures
        e is NoTarget,
{
    HostError::NoTarget
}

/// The texts between commas, trimmed, without the empty ones.
pub open spec fn names_of(parts: Seq<Seq<char>>) -> Seq<Seq<char>>
    decreases parts.len(),
{
    if parts.len() == 0 {
        Seq::empty()
    } else {
        let t = trimmed(parts.last());
        if t.len() > 0 {
            names_of(parts.drop_last()).push(t)
        } else {
            names_of(parts.drop_last())
        }
    }
}

/// The names in a list with commas.
pub fn filter_names(filter: &str) -> (out: Vec<String>)
    ensures
        views(out@) == names_of(pieces(filter@, ',')),
{
    let cs = chars_of(filter);
    let ps = split(cs.as_slice(), ',');
    let ghost all = pieces(filter@, ',');
    let mut out: Vec<String> = Vec::new();
    let mut i: usize = 0;
    assert(all.take(0) =~= Seq::<Seq<char>>::empty());
    assert(views(out@) =~= Seq::<Seq<char>>::empty());
    while i < ps.len()
        invariant
            i <= ps@.len(),
            texts(ps@) == all,
            views(out@) == names_of(all.take(i as int)),
        decreases ps@.len() - i,
    {
        assert(texts(ps@)[i as int] == ps@[i as int]@);
        assert(all.take(i + 1).drop_last() =~= all.take(i as int));
        let t = trim(ps[i].as_slice());
        if t.len() > 0 {
            let s = string_of(t.as_slice());
            let ghost before = out@;
            out.push(s);
            assert(views(out@) =~= views(before).push(s@));
        }
        i = i + 1;
    }
    assert(all.take(i as int) =~= all);
    out
}

/// Seconds to trace: no limit where they are zero.
pub fn trace_duration(secs: u64) -> (d: Option<u64>)
    ensures
        d == if secs == 0 {
            None
        } else {
            Some(secs)
        },
{
    if secs == 0 {
        None
    } else {
        Some(secs)
    }
}

/// The user that a status line names: the effective one, else the real one.
pub open spec fn line_user(rest: Seq<char>) -> Option<u32> {
    let ws = words_of(rest);
    if ws.len() > 1 && numeral_max(ws[1], 10, u32::MAX as nat) is Some {
        Some(numeral_max(ws[1], 10, u32::MAX as nat).unwrap() as u32)
    } else if ws.len() > 0 && numeral_max(ws[0], 10, u32::MAX as nat) is Some {
        Some(numeral_max(ws[0], 10, u32::MAX as nat).unwrap() as u32)
    } else {
        None
    }
}

/// The user in the first line of a status that names one, from the `k`th on; zero where none
/// does.
pub open spec fn user_from(ls: Seq<Seq<char>>, k: int) -> u32
    decreases ls.len() - k,
{
    if k >= ls.len() {
        0
    } else if has_prefix(ls[k], "Uid:"@) && line_user(ls[k].skip("Uid:"@.len() as int)) is Some {
        line_user(ls[k].skip("Uid:"@.len() as int)).unwrap()
    } else {
        user_from(ls, k + 1)
    }
}

fn read_user(rest: &Vec<char>) -> (r: Option<u32>)
    ensures
        r == line_user(rest@),
{
    let ws = words(rest.as_slice());
    if ws.len() > 1 {
        assert(texts(ws@)[1] == ws@[1]@);
        match parse_number(ws[1].as_slice(), 10, 0xffff_ffff) {
            Some(v) => {
                return Some(v as u32);
            },
            None => {},
        }
    }
    if ws.len() > 0 {
        assert(texts(ws@)[0] == ws@[0]@);
        match parse_number(ws[0].as_slice(), 10, 0xffff_ffff) {
            Some(v) => {
                return Some(v as u32);
            },
            None => {},
        }
    }
    None
}

/// The user that this program runs as, by its status.
pub fn effective_uid(status: &str) -> (uid: u32)
    ensures
        uid == user_from(lines_of(status@), 0),
{
    let cs = chars_of(status);
    let ls = lines(cs.as_slice());
    let prefix = chars_of("Uid:");
    let mut i: usize = 0;
    while i < ls.len()
        invariant
            i <= ls@.len(),
            prefix@ == "Uid:"@,
            texts(ls@) == lines_of(status@),
            user_from(lines_of(status@), 0) == user_from(lines_of(status@), i as int),
        decreases ls@.len() - i,
    {
        assert(texts(ls@)[i as int] == ls@[i as int]@);
        if starts_with(ls[i].as_slice(), "Uid:") {
            let rest = copy_chars(ls[i].as_slice(), prefix.len(), ls[i].len());
            assert(rest@ =~= ls@[i as int]@.skip("Uid:"@.len() as int));
            match read_user(&rest) {
                Some(v) => {
                    return v;
                },
                None => {},
            }
        }
        i = i + 1;
    }
    0
}

/// The directories that an app's files can be in, for the device's user that its own user
/// belongs to.
pub open spec fn app_dirs(uid: u32, package: Seq<char>) -> Seq<Seq<char>> {
    let user = decimal((uid / 100_000) as nat);
    seq![
        "/data/user/"@ + user + "/"@ + package,
        "/data/user_de/"@ + user + "/"@ + package,
        "/data/data/"@ + package,
    ]
}

/// The directories that an app's files can be in.
pub fn package_dirs(uid: u32, package: &str) -> (out: Vec<String>)
    ensures
        views(out@) == app_dirs(uid, package@),
{
    let user: u64 = (uid / 100_000) as u64;
    let mut a = "/data/user/".to_owned();
    push_decimal(&mut a, user);
    a.append("/");
    a.append(package);
    let mut b = "/data/user_de/".to_owned();
    push_decimal(&mut b, user);
    b.append("/");
    b.append(package);
    let mut c = "/data/data/".to_owned();
    c.append(package);
    let mut out: Vec<String> = Vec::new();
    out.push(a);
    out.push(b);
    out.push(c);
    assert(views(out@) =~= app_dirs(uid, package@));
    out
}

/// The directory of an app: the first that is there, from the `k`th on, else the last.
pub open spec fn chosen_dir(dirs: Seq<Seq<char>>, present: Seq<bool>, k: int) -> Seq<char>
    decreases dirs.len() - k,
{
    if k >= dirs.len() {
        dirs.last()
    } else if present[k] {
        dirs[k]
    } else {
        chosen_dir(dirs, present, k + 1)
    }
}

/// Chooses the directory of an app.
pub fn choose_dir(dirs: &Vec<String>, present: &Vec<bool>) -> (s: String)
    requires
        dirs@.len() > 0,
        dirs@.len() == present@.len(),
    ensures
        s@ == chosen_dir(views(dirs@), present@, 0),
{
    let n: usize = dirs.len();
    let mut i: usize = 0;
    let ghost all = views(dirs@);
    while i < n
        invariant
            n == dirs@.len(),
            n > 0,
            n == present@.len(),
            i <= n,
            all == views(dirs@),
            chosen_dir(all, present@, 0) == chosen_dir(all, present@, i as int),
        decreases n - i,
    {
        assert(all[i as int] == dirs@[i as int]@);
        if present[i] {
            return dirs[i].clone();
        }
        i = i + 1;
    }
    assert(all[n - 1] == dirs@[n - 1]@);
    dirs[n - 1].clone()
}

/// The directory and the path of a library in an app's files.
pub fn staged_paths(dir: &str, name: &str) -> (r: (String, String))
    ensures
        r.0@ == dir@ + "/files"@,
        r.1@ == dir@ + "/files"@ + "/"@ + name@,
{
    let files = dir.to_owned().concat("/files");
    let mut path = files.clone();
    path.append("/");
    path.append(name);
    (files, path)
}

/// Refuses to stage a library other than as root.
pub fn check_root(euid: u32) -> (r: Result<(), HostError>)
    ensures
        match r {
            Ok(_) => euid == 0,
            Err(e) => euid != 0 && (e matches HostError::Msg(m) && m@ == "not root (euid="@
                + decimal(euid as nat)
                + ") \u{2014} refuse to stage into the app mount namespace; Magisk must grant su to the adb shell"@),
        },
{
    if euid != 0 {
        let mut m = "not root (euid=".to_owned();
        push_decimal(&mut m, euid as u64);
        m.append(
            ") \u{2014} refuse to stage into the app mount namespace; Magisk must grant su to the adb shell",
        );
        return Err(HostError::Msg(m));
    }
    Ok(())
}

/// The ways to stage a library, in the order they are tried.
#[derive(Debug, Clone, Copy, PartialEq, Eq, Structural)]
pub enum StageWay {
    /// Copy through the process's root.
    Copy,
    /// Copy inside the process's mounts.
    Enter,
    /// Copy as the app.
    RunAs,
}

/// What comes next once a way to stage a library was tried.
#[derive(Debug, Clone, Copy, PartialEq, Eq, Structural)]
pub enum StageNext {
    Staged,
    Try(StageWay),
    GiveUp,
}

/// What comes next once a way was tried.
pub fn stage_next(way: StageWay, worked: bool) -> (r: StageNext)
    ensures
        r == if worked {
            StageNext::Staged
        } else {
            match way {
                StageWay::Copy => StageNext::Try(StageWay::Enter),
                StageWay::Enter => StageNext::Try(StageWay::RunAs),
                StageWay::RunAs => StageNext::GiveUp,
            }
        },
{
    if worked {
        return StageNext::Staged;
    }
    match way {
        StageWay::Copy => StageNext::Try(StageWay::Enter),
        StageWay::Enter => StageNext::Try(StageWay::RunAs),
        StageWay::RunAs => StageNext::GiveUp,
    }
}

/// The error where no way worked to stage a library, which is shown as `so`.
pub fn stage_failed(pid: i32, so: &str, visible: &str) -> (e: HostError)
    ensures
        e matches HostError::Msg(m) && m@ == "could not stage "@ + so@ + " into "@ + visible@
            + " (/proc/"@ + signed_decimal(pid as int)
            + "/root copy failed; nsenter copy failed)"@,
{
    let mut m = "could not stage ".to_owned();
    m.append(so);
    m.append(" into ");
    m.append(visible);
    m.append(" (/proc/");
    push_signed(&mut m, pid as i64);
    m.append("/root copy failed; nsenter copy failed)");
    HostError::Msg(m)
}

/// `s` with spaces before it up to a width.
pub open spec fn right_aligned(s: Seq<char>, width: nat) -> Seq<char> {
    if s.len() >= width {
        s
    } else {
        Seq::new((width - s.len()) as nat, |i: int| ' ') + s
    }
}

/// `s` with spaces behind it up to a width.
pub open spec fn left_aligned(s: Seq<char>, width: nat) -> Seq<char> {
    if s.len() >= width {
        s
    } else {
        s + Seq::new((width - s.len()) as nat, |i: int| ' ')
    }
}

fn push_spaces(s: &mut String, n: usize)
    ensures
        final(s)@ == old(s)@ + Seq::new(n as nat, |i: int| ' '),
{
    let mut i: usize = 0;
    assert(s@ =~= old(s)@ + Seq::new(0, |i: int| ' '));
    while i < n
        invariant
            i <= n,
            s@ == old(s)@ + Seq::new(i as nat, |i: int| ' '),
        decreases n - i,
    {
        push_char(s, ' ');
        i = i + 1;
        assert(s@ =~= old(s)@ + Seq::new(i as nat, |i: int| ' '));
    }
}

/// The line that lists a process: its number, machine, and package or command line.
pub fn ps_line(p: &ProcessInfo) -> (s: String)
    ensures
        s@ == right_aligned(decimal(p.pid as nat), 6) + "  "@ + left_aligned(
            match p.abi {
                Some(a) => a@,
                None => "?"@,
            },
            12,
        ) + "  "@ + (match p.package {
            Some(k) => k@,
            None => p.cmdline@,
        }),
{
    let mut number = String::new();
    push_decimal(&mut number, p.pid as u64);
    assert(number@ =~= decimal(p.pid as nat));
    let nv = chars_of(number.as_str());
    let mut s = String::new();
    if nv.len() < 6 {
        push_spaces(&mut s, 6 - nv.len());
    }
    s.append(number.as_str());
    assert(s@ =~= right_aligned(decimal(p.pid as nat), 6));
    s.append("  ");
    let ghost head = s@;
    let abi = match &p.abi {
        Some(a) => a.clone(),
        None => "?".to_owned(),
    };
    s.append(abi.as_str());
    let av = chars_of(abi.as_str());
    if av.len() < 12 {
        push_spaces(&mut s, 12 - av.len());
    }
    assert(s@ =~= head + left_aligned(abi@, 12));
    s.append("  ");
    match &p.package {
        Some(k) => {
            s.append(k.as_str());
        },
        None => {
            s.append(p.cmdline.as_str());
        },
    }
    s
}

/// An owner as `stat` tells it: a user and a group, with a colon between them.
pub fn owner_text(output: &str) -> (r: Option<String>)
    ensures
        match r {
            Some(s) => trimmed(output@).contains(':') && s@ == trimmed(output@),
            None => !trimmed(output@).contains(':'),
        },
{
    let cs = chars_of(output);
    let t = trim(cs.as_slice());
    let at: usize = crate::split::find_char(t.as_slice(), ':', 0);
    if at < t.len() {
        assert(t@[at as int] == ':');
        Some(string_of(t.as_slice()))
    } else {
        None
    }
}

} // verus!
