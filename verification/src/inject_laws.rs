//! What holds of an injection as a whole.
use crate::inject::{is_bad_map, moved, Answer, Injection, Op, Outcome, Phase, Reason};
use vstd::prelude::*;

verus! {

/// Whether an operation loads the library.
pub open spec fn loads(op: Op) -> bool {
    op is LoadMemory || op is LoadNamespace || op is CallLoader || op is CallDlopen
}

/// A load that gives a handle is the outcome: the process is let go, and the injection is over
/// with that handle.
pub proof fn law_handle_is_the_outcome(s: Injection, h: u64, a: Answer)
    requires
        loads(s.due()),
        h != 0,
    ensures
        s.after(Answer::Value(h)).due() is Detach,
        s.after(Answer::Value(h)).after(a).due() == Op::Finish(Outcome::Loaded(h)),
{
}

/// Nothing but a load that gives a handle makes an injection one that loaded the library.
pub proof fn law_only_a_handle_counts(s: Injection, a: Answer, h: u64)
    requires
        !(s.outcome is Loaded),
        s.after(a).outcome == Outcome::Loaded(h),
    ensures
        loads(s.due()) && a == Answer::Value(h) && h != 0,
{
}

/// An injection as it starts.
pub open spec fn started() -> Injection {
    Injection {
        phase: Phase::Checking,
        page: 0,
        fd: 0,
        can_open: false,
        libc: 0,
        func: 0,
        dlopen: 0,
        outcome: Outcome::Failed(Reason::Nothing),
    }
}

/// The injection up to the answer that its memory is executable, in a process that can open the
/// library's file. Whatever the values, each operation works with what the ones before it gave.
pub proof fn law_preparation(page: u64, fd: u64, libc: u64, dlopen: u64) -> (s: Injection)
    requires
        !is_bad_map(page),
        fd <= i64::MAX,
    ensures
        ({
            let s1 = started().after(Answer::Value(1));
            let s2 = s1.after(Answer::Value(0));
            let s3 = s2.after(Answer::Value(page));
            let s4 = s3.after(Answer::Value(0));
            let s5 = s4.after(Answer::Value(fd));
            let s6 = s5.after(Answer::Value(0));
            let s7 = s6.after(Answer::Value(libc));
            let s8 = s7.after(Answer::Value(dlopen));
            let s9 = s8.after(Answer::Value(1));
            let s10 = s9.after(Answer::Value(0));
            let s11 = s10.after(Answer::Value(0));
            &&& started().due() is CheckFile
            &&& s1.due() is Seize
            &&& s2.due() == (Op::NewMemory { len: 4096 })
            &&& s3.due() == (Op::WritePath { addr: page })
            &&& s4.due() == (Op::Open { addr: page })
            &&& s5.due() == (Op::Close { fd })
            &&& s6.due() is FindLibc
            &&& s7.due() is ResolveFirst
            &&& s8.due() == (Op::CheckCode { addr: dlopen })
            &&& s9.due() == (Op::WriteBreak { addr: moved(page, 2048) })
            &&& s10.due() == (Op::Protect { addr: page, run: true })
            &&& s11.due() is ResolveLoader
            &&& s == s11
            &&& s.page == page && s.libc == libc && s.dlopen == dlopen
        }),
{
    let s1 = started().after(Answer::Value(1));
    let s2 = s1.after(Answer::Value(0));
    let s3 = s2.after(Answer::Value(page));
    let s4 = s3.after(Answer::Value(0));
    let s5 = s4.after(Answer::Value(fd));
    let s6 = s5.after(Answer::Value(0));
    let s7 = s6.after(Answer::Value(libc));
    let s8 = s7.after(Answer::Value(dlopen));
    let s9 = s8.after(Answer::Value(1));
    let s10 = s9.after(Answer::Value(0));
    s10.after(Answer::Value(0))
}

/// Where everything works, the loader's own function is called with the path and an address in
/// the C library, to return to the break, and what it gives is the handle.
pub proof fn law_loader_way(
    page: u64,
    fd: u64,
    libc: u64,
    dlopen: u64,
    loader: u64,
    h: u64,
    a: Answer,
)
    requires
        !is_bad_map(page),
        fd <= i64::MAX,
        libc != 0,
        h != 0,
    ensures
        ({
            let s = started().after(Answer::Value(1)).after(Answer::Value(0)).after(
                Answer::Value(page),
            ).after(Answer::Value(0)).after(Answer::Value(fd)).after(Answer::Value(0)).after(
                Answer::Value(libc),
            ).after(Answer::Value(dlopen)).after(Answer::Value(1)).after(Answer::Value(0)).after(
                Answer::Value(0),
            );
            let calls = s.after(Answer::Value(loader));
            &&& calls.due() == (Op::CallLoader {
                func: loader,
                path: page,
                caller: libc,
                lr: moved(page, 2048),
            })
            &&& calls.after(Answer::Value(h)).due() is Detach
            &&& calls.after(Answer::Value(h)).after(a).due() == Op::Finish(Outcome::Loaded(h))
        }),
{
    let s = law_preparation(page, fd, libc, dlopen);
    law_handle_is_the_outcome(s.after(Answer::Value(loader)), h, a);
}

/// The ways to load come one after another: where the loader's function is not there or gives
/// nothing, `dlopen` is called with the path; where that gives nothing, the name space is tried,
/// and then memory; and where nothing works the injection fails.
pub proof fn law_ways_in_turn(s: Injection, a: Answer, b: Answer, c: Answer, d: Answer)
    ensures
        s.due() is ResolveLoader && !(a is Value) ==> s.after(a).due() == (Op::Protect {
            addr: s.page,
            run: false,
        }) && s.after(a).after(b).due() == (Op::CallDlopen { func: s.dlopen, path: s.page }),
        s.due() is CallLoader && (a is Missing || a == Answer::Value(0)) ==> s.after(a).due() == (
        Op::Protect { addr: s.page, run: false }) && s.after(a).after(b).due() == (
        Op::CallDlopen { func: s.dlopen, path: s.page }),
        s.due() is CallDlopen && !(a matches Answer::Value(h) && h != 0) && !(d is Fault) ==> {
            &&& s.after(a).due() is LastError
            &&& s.after(a).after(b).due() == (Op::Protect { addr: s.page, run: false })
            &&& s.after(a).after(b).after(c).due() == (Op::WritePath { addr: s.page })
            &&& s.after(a).after(b).after(c).after(d).due() is LoadNamespace
        },
        s.due() is LoadNamespace && (a is Missing || a == Answer::Value(0)) ==> s.after(a).due()
            is LoadMemory,
        s.due() is LoadMemory && (a is Missing || a == Answer::Value(0)) ==> s.after(a).due()
            is LastError && s.after(a).after(b).due() is Detach && s.after(a).after(b).after(
            c,
        ).due() is Finish && !(s.after(a).after(b).outcome is Loaded),
        s.due() is LoadMemory && s.phase is FallbackMemory && (a is Missing || a
            == Answer::Value(0)) ==> s.after(a).after(b).outcome == Outcome::Failed(Reason::Nothing),
        s.due() is LoadMemory && s.phase is LoadingMemory && (a is Missing || a
            == Answer::Value(0)) ==> s.after(a).after(b).outcome == Outcome::Failed(
            Reason::NothingFromMemory,
        ),
{
}

/// A process that cannot open the library's file, not even after the file got another label, is
/// given the library from memory.
pub proof fn law_memory_way(
    page: u64,
    libc: u64,
    dlopen: u64,
    h: u64,
    x: Answer,
    y: Answer,
    z: Answer,
)
    requires
        !is_bad_map(page),
        h != 0,
        x matches Answer::Value(v) ==> v > i64::MAX,
        z matches Answer::Value(v) ==> v > i64::MAX,
    ensures
        ({
            let s0 = started().after(Answer::Value(1)).after(Answer::Value(0)).after(
                Answer::Value(page),
            ).after(Answer::Value(0));
            let s1 = s0.after(x);
            let s2 = s1.after(y);
            let s3 = s2.after(Answer::Value(0));
            let s4 = s3.after(z);
            let s5 = s4.after(Answer::Value(libc));
            let s6 = s5.after(Answer::Missing);
            let s7 = s6.after(Answer::Value(dlopen));
            let s8 = s7.after(Answer::Value(1));
            let s9 = s8.after(Answer::Value(0));
            let s10 = s9.after(Answer::Value(0));
            &&& s0.due() == (Op::Open { addr: page })
            &&& s1.due() is FixLabel
            &&& s2.due() == (Op::WritePath { addr: page })
            &&& s3.due() == (Op::Open { addr: page })
            &&& s4.due() is FindLibc
            &&& s5.due() is ResolveFirst
            &&& s6.due() is ResolveSecond
            &&& s7.due() == (Op::CheckCode { addr: dlopen })
            &&& s9.due() == (Op::Protect { addr: page, run: true })
            &&& s10.due() is LoadMemory
            &&& s10.after(Answer::Value(h)).after(x).due() == Op::Finish(Outcome::Loaded(h))
        }),
{
}

/// A file that can be opened once its label was changed is closed again and not loaded from
/// memory.
pub proof fn law_relabelled_file(s: Injection, fd: u64, a: Answer)
    requires
        s.phase is Reopening,
        fd <= i64::MAX,
    ensures
        s.due() == (Op::Open { addr: s.page }),
        s.after(Answer::Value(fd)).due() == (Op::Close { fd }),
        s.after(Answer::Value(fd)).after(a).due() is FindLibc,
        s.after(Answer::Value(fd)).after(a).can_open,
{
}

/// What stops an injection, and what it is then said to have failed for: nothing was done where
/// the file is not there or the process cannot be taken, and otherwise the process is let go.
pub proof fn law_what_stops_an_injection(s: Injection, a: Answer, b: Answer)
    ensures
        s.due() is CheckFile && (a is Missing || a is Fault || a == Answer::Value(0)) ==> s.after(
            a,
        ).due() == Op::Finish(Outcome::Failed(Reason::Absent)),
        s.due() is Seize && a is Fault ==> s.after(a).due() == Op::Finish(
            Outcome::Failed(Reason::Remote),
        ),
        s.due() is NewMemory && (a matches Answer::Value(v) && (v == 0 || v
            >= 0xffff_ffff_ffff_f000)) ==> s.after(a).due() is Detach && s.after(a).after(b).due()
            == Op::Finish(Outcome::Failed(Reason::NoMemory(a->Value_0))),
        s.due() is FindLibc && !(a is Value) ==> s.after(a).due() is Detach && s.after(a).after(
            b,
        ).due() == Op::Finish(Outcome::Failed(Reason::NoLibc)),
        s.due() is ResolveSecond && !(a is Value) ==> s.after(a).due() is Detach && s.after(a).after(
            b,
        ).due() == Op::Finish(Outcome::Failed(Reason::NoSymbol)),
        s.due() is CheckCode && (a is Missing || a is Fault || a == Answer::Value(0)) ==> s.after(
            a,
        ).due() is Detach && s.after(a).after(b).due() == Op::Finish(
            Outcome::Failed(Reason::OutsideCode(s.dlopen)),
        ),
        s.due() == (Op::Protect { addr: s.page, run: true }) && (a matches Answer::Value(v) && v
            != 0) ==> s.after(a).due() is Detach && s.after(a).after(b).due() == Op::Finish(
            Outcome::Failed(Reason::NotExecutable(a->Value_0)),
        ),
        (s.due() is WritePath || s.due() is WriteBreak || s.due() is CallLoader || s.due() == (
        Op::Protect { addr: s.page, run: true })) && a is Fault ==> s.after(a).due() is Detach
            && s.after(a).after(b).due() == Op::Finish(Outcome::Failed(Reason::Remote)),
        (s.due() is LoadMemory || s.due() is LoadNamespace) && a is Fault ==> s.after(a).due()
            is Detach && s.after(a).after(b).due() == Op::Finish(Outcome::Failed(Reason::Loader)),
{
}

} // verus!
