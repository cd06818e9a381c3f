//! What listings and records of a process hold.
use crate::discover::{
    all_listed, clip_cmd, cmdline_of, guess_package, listed, package_of, resolve_abi, text_view,
    ProcEntry, ProcessInfo,
};
use crate::host::{send_line, trace_command, HostError, RestartPhase, DEVICE_INJECTOR, MAX_POLLS};
use crate::inject::{reason_text, Reason};
use crate::injector::{ps_line, right_aligned};
use crate::java_laws::{law_quoted_text_reads_back, string_value};
use crate::java_walk::{ClassWalk, Got, WalkPhase};
use crate::json::{array_of, json_normal, json_quoted, members, object_of, object_text};
use crate::ordered::TextMap;
use crate::remote::hex_of;
use crate::split::pieces;
use crate::storage::{dirs_to_list, preference_key, preference_value, storage_json};
use crate::stress::{
    comm_event, json_number, json_text, part_place, stress_event, tick_of, CommKind, StressKind,
};
use crate::syscall_trace::others;
use crate::text::{
    decimal, has_part, has_prefix, has_suffix, hexadecimal, joined, numeral, occurs_at, views,
};
use crate::text_laws::{
    is_digit, is_word, lacks, law_decimal_reads_back, law_hexadecimal_reads_back,
    lemma_decimal_lacks, lemma_joined_at, lemma_numerals_are_words, lemma_pieces_first,
    lemma_words_first,
};
use crate::java_types::{field_desc, method_desc};
use crate::art::{FieldDesc, MethodDesc};
use vstd::prelude::*;
use vstd::string::*;

verus! {

/// A process that is listed is one whose directory has a number and whose command line says
/// something; it has that number and that command line.
pub proof fn law_listed_process(e: ProcEntry, raw: Vec<u8>, pid: u32)
    requires
        e.name@ == decimal(pid as nat),
        e.cmdline == Some(raw),
    ensures
        listed(e) is Some <==> cmdline_of(raw@).len() > 0,
        listed(e) matches Some(p) ==> p.pid == pid && p.cmdline == cmdline_of(raw@) && p.package
            == package_of(p.cmdline) && (p.abi is Some <==> e.maps is Some),
{
    law_decimal_reads_back(pid as nat);
    assert(is_digit(e.name@[0]));
}

/// Every process that is listed comes from an entry, and the entries that are processes are all
/// listed, in their order.
pub proof fn law_processes_in_order(entries: Seq<ProcEntry>, more: ProcEntry)
    ensures
        listed(more) matches Some(p) ==> all_listed(entries.push(more)) == all_listed(entries).push(
            p,
        ),
        listed(more) is None ==> all_listed(entries.push(more)) == all_listed(entries),
        all_listed(entries).len() <= entries.len(),
    decreases entries.len(),
{
    let all = entries.push(more);
    assert(all.drop_last() =~= entries);
    assert(all.last() == more);
    if entries.len() > 0 {
        law_processes_in_order(entries.drop_last(), entries.last());
        assert(entries.drop_last().push(entries.last()) =~= entries);
    }
}

/// A process with 64-bit libraries is a 64-bit one, whatever else it has.
pub proof fn law_abi_by_libraries(maps: &str, exe: &Option<String>, abi: String)
    requires
        call_ensures(resolve_abi, (maps, exe), abi),
    ensures
        has_part(maps@, "lib64/"@) ==> abi@ == "arm64-v8a"@,
        !has_part(maps@, "lib64/"@) && !has_part(maps@, "/system/bin/app_process64"@) && has_part(
            maps@,
            "/lib/"@,
        ) ==> abi@ == "armeabi-v7a"@,
{
}

/// A walk over the classes of a loader, where all is there: from the loader's class to the first
/// of its elements.
pub proof fn law_walk_reaches_the_elements(n: u32)
    requires
        n > 0,
    ensures
        ({
            let w0 = ClassWalk { phase: WalkPhase::OwnClass, index: 0, count: 0 };
            let w1 = w0.after(Got::Yes);
            let by_method = w1.after(Got::Yes).after(Got::Yes).after(Got::Count(n));
            let by_field = w1.after(Got::No).after(Got::Yes).after(Got::Yes).after(Got::Yes).after(
                Got::Yes,
            ).after(Got::Yes).after(Got::Yes).after(Got::Count(n));
            &&& by_method == (ClassWalk { phase: WalkPhase::Element, index: 0, count: n })
            &&& by_field == by_method
            &&& by_method.after(Got::Yes).after(Got::Yes).after(Got::Yes) == (ClassWalk {
                phase: WalkPhase::More,
                index: 0,
                count: n,
            })
        }),
{
    let w0 = ClassWalk { phase: WalkPhase::OwnClass, index: 0, count: 0 };
    let w1 = w0.after(Got::Yes);
    let w2 = w1.after(Got::No).after(Got::Yes).after(Got::Yes);
    let w3 = w2.after(Got::Yes).after(Got::Yes).after(Got::Yes);
    assert(w3.after(Got::Yes).after(Got::Count(n)).phase is Element);
}

/// A package is restarted by stopping and starting it and waiting for its process.
pub proof fn law_restart_runs(fall_back: bool, n: u32)
    requires
        1 <= n < MAX_POLLS,
    ensures
        RestartPhase::Stop.after(fall_back, true) is Start,
        RestartPhase::Start.after(fall_back, true) == RestartPhase::Poll(1),
        RestartPhase::Start.after(true, false) is Launcher,
        RestartPhase::Start.after(false, false) is Failed,
        RestartPhase::Launcher.after(fall_back, true) == RestartPhase::Poll(1),
        RestartPhase::Launcher.after(fall_back, false) is Failed,
        RestartPhase::Poll(n).after(fall_back, true) is Started,
        RestartPhase::Poll(n).after(fall_back, false) == RestartPhase::Poll((n + 1) as u32),
        RestartPhase::Poll(MAX_POLLS).after(fall_back, false) is NotStarted,
{
}

/// The members of an object are its entries: each key in quotes, a colon and its value, with
/// commas between them.
pub proof fn law_object_members(m: &TextMap, s: String, k: int)
    requires
        m@.wf(),
        call_ensures(object_text, (m,), s),
        0 <= k < m@.keys.len(),
    ensures
        s@[0] == '{',
        s@.last() == '}',
        ({
            let all = members(m@);
            let from = if k == 0 {
                1int
            } else {
                2 + joined(all.take(k), seq![',']).len() as int
            };
            let value = from + json_quoted(m@.keys[k]).len() as int + 1;
            let end = value + m@.values[k].len() as int;
            &&& s@[from] == '"'
            &&& string_value(s@.skip(from + 1)) == m@.keys[k]
            &&& s@[value - 1] == ':'
            &&& s@.subrange(value, end) == m@.values[k]
            &&& s@[end] == if k == m@.keys.len() - 1 {
                '}'
            } else {
                ','
            }
        }),
{
    reveal_strlit("{");
    reveal_strlit("}");
    reveal_strlit(",");
    reveal_strlit(":");
    assert(","@ =~= seq![',']);
    let all = members(m@);
    lemma_joined_at(all, k);
    let list = joined(all, seq![',']);
    let at = if k == 0 {
        0int
    } else {
        1 + joined(all.take(k), seq![',']).len() as int
    };
    let q = json_quoted(m@.keys[k]);
    let v = m@.values[k];
    let part = all[k];
    assert(part == q + ":"@ + v);
    assert(s@ =~= seq!['{'] + list + seq!['}']);
    assert(s@.subrange(at + 1, at + 1 + part.len() as int) =~= list.subrange(
        at,
        at + part.len() as int,
    ));
    assert(":"@ =~= seq![':']);
    lemma_member(s@, at + 1, q, v);
    let rest = s@.skip(at + 1 + q.len() as int);
    assert(s@.skip(at + 1) =~= q + rest);
    law_quoted_text_reads_back(m@.keys[k], rest);
    assert(s@.skip(at + 2) =~= (q + rest).skip(1));
    assert(s@[at + 1] == (q + rest)[0]);
}

proof fn lemma_member(s: Seq<char>, from: int, q: Seq<char>, v: Seq<char>)
    requires
        0 <= from,
        from + q.len() + 1 + v.len() <= s.len(),
        s.subrange(from, from + (q + ":"@ + v).len() as int) == q + ":"@ + v,
        ":"@ == seq![':'],
    ensures
        s.subrange(from, from + q.len() as int) == q,
        s[from + q.len() as int] == ':',
        s.subrange(from + q.len() as int + 1, from + q.len() as int + 1 + v.len() as int) == v,
{
    let part = q + ":"@ + v;
    let sub = s.subrange(from, from + part.len() as int);
    assert forall|i: int| 0 <= i < part.len() implies s[from + i] == #[trigger] part[i] by {
        assert(sub[i] == s[from + i]);
    }
    assert(s.subrange(from, from + q.len() as int) =~= q) by {
        assert forall|i: int| 0 <= i < q.len() implies s[from + i] == #[trigger] q[i] by {
            assert(part[i] == q[i]);
        }
    }
    assert(part[q.len() as int] == ':');
    let at = from + q.len() as int + 1;
    assert(s.subrange(at, at + v.len() as int) =~= v) by {
        assert forall|i: int| 0 <= i < v.len() implies s[at + i] == #[trigger] v[i] by {
            assert(part[q.len() as int + 1 + i] == v[i]);
        }
    }
}

/// A key that is kept as a quoted text is the text.
pub proof fn law_preference_key(key: String, r: String, s: Seq<char>)
    requires
        call_ensures(preference_key, (key,), r),
        key@ == json_quoted(s),
    ensures
        r@ == s,
{
}

/// The storage of a package starts with its directory and ends with its preferences.
pub proof fn law_storage_record(
    package: &str,
    data_dir: &str,
    prefs: &TextMap,
    folders: &Vec<String>,
    snippets: &TextMap,
    s: String,
)
    requires
        prefs@.wf(),
        snippets@.wf(),
        call_ensures(storage_json, (package, data_dir, prefs, folders, snippets), s),
    ensures
        has_prefix(s@, "{\"dataDir\":"@),
        s@[11] == '"',
        string_value(s@.skip(12)) == data_dir@,
        has_suffix(
            s@,
            ",\"package\":"@ + json_quoted(package@) + ",\"sharedPrefs\":"@ + object_of(prefs@)
                + "}"@,
        ),
{
    reveal_strlit("{\"dataDir\":");
    let tail = ",\"package\":"@ + json_quoted(package@) + ",\"sharedPrefs\":"@ + object_of(prefs@)
        + "}"@;
    let head = "{\"dataDir\":"@;
    let q = json_quoted(data_dir@);
    let mid = ",\"dataDirListing\":"@ + array_of(views(folders@)) + ",\"filesSnippets\":"@
        + object_of(snippets@);
    assert(s@ =~= head + q + mid + tail);
    lemma_record(head, q, mid, tail, s@);
    law_quoted_text_reads_back(data_dir@, mid + tail);
    assert(q.len() > 0) by {
        reveal_strlit("\"");
    }
    assert(s@.len() >= 12);
    assert(s@.skip(11) == q + (mid + tail));
    assert(s@.skip(12) =~= s@.skip(11).skip(1));
    assert(s@[11] == s@.skip(11)[0]);
}

proof fn lemma_record(
    head: Seq<char>,
    q: Seq<char>,
    mid: Seq<char>,
    tail: Seq<char>,
    s: Seq<char>,
)
    requires
        s == head + q + mid + tail,
    ensures
        has_prefix(s, head),
        has_suffix(s, tail),
        s.skip(head.len() as int) == q + (mid + tail),
{
    assert(s.take(head.len() as int) =~= head);
    assert(s.skip(s.len() - tail.len()) =~= tail);
    assert(s.skip(head.len() as int) =~= q + (mid + tail));
}

/// A line of the list of processes: its number at the right of its column, and its package, or
/// else its command line, last.
pub proof fn law_process_line(p: &ProcessInfo, s: String)
    requires
        call_ensures(ps_line, (p,), s),
    ensures
        has_suffix(
            s@,
            match p.package {
                Some(k) => k@,
                None => p.cmdline@,
            },
        ),
        p.pid < 1_000_000 ==> {
            let d = decimal(p.pid as nat).len() as int;
            d <= 6 ==> numeral(s@.subrange(6 - d, 6), 10) == Some(p.pid as nat)
        },
{
    let last = match p.package {
        Some(k) => k@,
        None => p.cmdline@,
    };
    assert(s@.skip(s@.len() - last.len()) =~= last);
    law_decimal_reads_back(p.pid as nat);
    let d = decimal(p.pid as nat);
    if d.len() <= 6 {
        let right = right_aligned(d, 6);
        assert(right.len() == 6);
        assert(right.subrange(6 - d.len(), 6) =~= d);
        assert(s@.subrange(6 - d.len(), 6) =~= d);
    }
}

/// A trace's command starts with how long it may take and how many calls it may show.
pub proof fn law_trace_command(
    pid: Option<i32>,
    package: &Option<String>,
    secs: u64,
    max: u64,
    filter: &str,
    enter_only: bool,
    r: Result<String, HostError>,
)
    requires
        call_ensures(trace_command, (pid, package, secs, max, filter, enter_only), r),
    ensures
        r is Ok <==> pid is Some || package is Some,
        r matches Ok(s) ==> {
            let head = DEVICE_INJECTOR@ + " trace-syscalls --duration-secs "@;
            let d = decimal(secs as nat).len() as int;
            let at = head.len() + d + 14;
            &&& has_prefix(s@, head)
            &&& numeral(s@.subrange(head.len() as int, head.len() + d), 10) == Some(secs as nat)
            &&& s@.subrange(head.len() + d, at) == " --max-events "@
            &&& numeral(s@.subrange(at, at + decimal(max as nat).len()), 10) == Some(max as nat)
            &&& enter_only ==> has_suffix(s@, " --enter-only"@)
            &&& !enter_only && filter@.len() > 0 ==> has_suffix(s@, " --filter "@ + filter@)
        },
{
    if let Ok(s) = r {
        let head = DEVICE_INJECTOR@ + " trace-syscalls --duration-secs "@;
        let a = decimal(secs as nat);
        let b = decimal(max as nat);
        law_decimal_reads_back(secs as nat);
        law_decimal_reads_back(max as nat);
        let target = crate::host::target_text(pid, text_view(*package));
        let f = if filter@.len() > 0 {
            " --filter "@ + filter@
        } else {
            Seq::empty()
        };
        let e = if enter_only {
            " --enter-only"@
        } else {
            Seq::empty()
        };
        assert(s@ == head + a + " --max-events "@ + b + target + f + e);
        lemma_trace_head(head, a, b, target + f + e, s@);
        lemma_trace_tail(head + a + " --max-events "@ + b + target, f, e, s@);
    }
}

proof fn lemma_trace_head(
    head: Seq<char>,
    a: Seq<char>,
    b: Seq<char>,
    rest: Seq<char>,
    s: Seq<char>,
)
    requires
        s =~= head + a + " --max-events "@ + b + rest,
    ensures
        has_prefix(s, head),
        s.subrange(head.len() as int, head.len() + a.len() as int) == a,
        ({
            let at = head.len() + a.len() as int + 14;
            &&& s.subrange(head.len() + a.len() as int, at) == " --max-events "@
            &&& s.subrange(at, at + b.len()) == b
        }),
{
    reveal_strlit(" --max-events ");
    let at = head.len() + a.len() as int + 14;
    assert(s.take(head.len() as int) =~= head);
    assert(s.subrange(head.len() as int, head.len() + a.len() as int) =~= a);
    assert(s.subrange(head.len() + a.len() as int, at) =~= " --max-events "@);
    assert(s.subrange(at, at + b.len()) =~= b);
}

proof fn lemma_trace_tail(head: Seq<char>, f: Seq<char>, e: Seq<char>, s: Seq<char>)
    requires
        s == head + f + e,
    ensures
        has_suffix(s, e),
        e.len() == 0 ==> has_suffix(s, f),
{
    assert(s.skip(s.len() - e.len()) =~= e);
    if e.len() == 0 {
        assert(s.skip(s.len() - f.len()) =~= f);
    }
}

/// A line of a message tells whose script sent it and what, and how many bytes came with it.
pub proof fn law_message_line(id: u32, payload: &str, s: String)
    requires
        call_ensures(send_line, (id, payload, None::<u64>), s),
    ensures
        has_prefix(s@, "send["@),
        has_suffix(s@, payload@),
        numeral(pieces(s@, ']')[0].skip(5), 10) == Some(id as nat),
{
    reveal_strlit("send[");
    reveal_strlit("]: ");
    law_decimal_reads_back(id as nat);
    lemma_decimal_lacks(id as nat, ']');
    let first = "send["@ + decimal(id as nat);
    let rest = "]: "@.skip(1) + payload@;
    assert(s@ =~= first + seq![']'] + rest);
    assert(lacks(first, ']'));
    lemma_pieces_first(first, rest, ']');
    assert(first.skip(5) =~= decimal(id as nat));
    assert(s@.take(5) =~= "send["@);
    assert(s@.skip(s@.len() - payload@.len()) =~= payload@);
}

/// A tick of the sample app is the number behind the mark in its line.
pub proof fn law_tick_reads_back(n: u64, k: u64)
    ensures
        tick_of("apk-tick "@ + decimal(k as nat) + " t="@ + decimal(n as nat)) == Some(n),
{
    reveal_strlit("apk-tick ");
    reveal_strlit(" t=");
    let a = "apk-tick "@;
    let d = decimal(k as nat);
    let m = " t="@;
    let v = decimal(n as nat);
    let line = a + d + m + v;
    law_decimal_reads_back(k as nat);
    law_decimal_reads_back(n as nat);
    lemma_numerals_are_words(n as nat);
    assert(line.subrange(0, a.len() as int) =~= a);
    assert(occurs_at(line, a, 0));
    assert(part_place(line, a, 0) == Some(0int));
    assert(line.skip(0) =~= line);
    let at = a.len() + d.len() as int;
    assert(line.subrange(at, at + 3) =~= m);
    assert(line.subrange(0, (a.len() + d.len()) as int) =~= a + d);
    assert forall|i: int| 0 <= i < at implies !occurs_at(line, m, i) by {
        lemma_no_mark(line, a, d, m, i);
    }
    lemma_place_found(line, m, 0, at);
    assert(line.skip(at + 3) =~= v);
    lemma_words_first(v, Seq::empty());
}

proof fn lemma_no_mark(line: Seq<char>, a: Seq<char>, d: Seq<char>, m: Seq<char>, i: int)
    requires
        a == "apk-tick "@,
        m == " t="@,
        forall|j: int| 0 <= j < d.len() ==> is_digit(#[trigger] d[j]),
        d.len() > 0,
        line.len() >= a.len() + d.len() + 3,
        line.subrange(0, (a.len() + d.len()) as int) == a + d,
        0 <= i < a.len() + d.len(),
    ensures
        !occurs_at(line, m, i),
{
    reveal_strlit("apk-tick ");
    reveal_strlit(" t=");
    let front = line.subrange(0, (a.len() + d.len()) as int);
    if occurs_at(line, m, i) {
        let sub = line.subrange(i, i + 3);
        assert(sub[0] == ' ');
        assert(sub[1] == 't');
        assert(line[i] == ' ');
        assert(line[i + 1] == 't');
        assert(front[i] == (a + d)[i]);
        if i == 8 {
            assert(front[9] == (a + d)[9]);
            assert((a + d)[9] == d[0]);
            assert(is_digit(d[0]));
        } else if i > 8 {
            assert((a + d)[i] == d[i - 9]);
            assert(is_digit(d[i - 9]));
        }
    }
}

proof fn lemma_place_found(s: Seq<char>, p: Seq<char>, from: int, at: int)
    requires
        0 <= from <= at <= s.len(),
        occurs_at(s, p, at),
        forall|i: int| from <= i < at ==> !occurs_at(s, p, i),
    ensures
        part_place(s, p, from) == Some(at),
    decreases at - from,
{
    if from < at {
        lemma_place_found(s, p, from + 1, at);
    }
}

/// A thread that is gone is not traced any more, and the others stay as they are.
pub proof fn law_other_threads_stay(s: Seq<i32>, tid: i32, other: i32)
    requires
        other != tid,
    ensures
        !others(s, tid).contains(tid),
        others(s, tid).contains(other) <==> s.contains(other),
    decreases s.len(),
{
    if s.len() > 0 {
        let init = s.drop_last();
        let last = s.last();
        law_other_threads_stay(init, tid, other);
        let kept = others(init, tid);
        if s.contains(other) {
            let i = choose|i: int| 0 <= i < s.len() && s[i] == other;
            if i < init.len() {
                assert(init[i] == other);
                assert(init.contains(other));
            }
        }
        if init.contains(other) {
            let i = choose|i: int| 0 <= i < init.len() && init[i] == other;
            assert(s[i] == other);
        }
        if last != tid {
            assert(others(s, tid) == kept.push(last));
            if kept.contains(other) {
                let i = choose|i: int| 0 <= i < kept.len() && kept[i] == other;
                assert(kept.push(last)[i] == other);
            }
            assert(kept.push(last)[kept.len() as int] == last);
            assert(s[s.len() - 1] == last);
            assert forall|i: int| 0 <= i < kept.push(last).len() implies kept.push(last)[i] != tid by {
                if i < kept.len() {
                    assert(kept.contains(kept[i]));
                }
            }
            if kept.push(last).contains(other) {
                let i = choose|i: int| 0 <= i < kept.push(last).len() && kept.push(last)[i] == other;
                if i < kept.len() {
                    assert(kept[i] == other);
                }
            }
        }
    }
}

/// What a message of a script says of a run, and that it carries the number that it says.
pub proof fn law_stress_message(payload: &str, r: (StressKind, Option<u64>), ty: Seq<char>)
    requires
        call_ensures(stress_event, (payload,), r),
        json_text(payload@, "type"@) == Some(ty),
    ensures
        r.0 is Start <==> ty == "stress-start"@,
        r.0 is Message <==> ty == "stress"@,
        r.0 is Done <==> ty == "stress-done"@,
        r.1 == json_number(payload@, "n"@),
{
    reveal_strlit("stress-start");
    reveal_strlit("stress");
    reveal_strlit("stress-done");
    assert("stress-start"@.len() == 12);
    assert("stress"@.len() == 6);
    assert("stress-done"@.len() == 11);
}

/// What a message of a script says of the connection.
pub proof fn law_comm_message(payload: &str, r: (CommKind, u64), ty: Seq<char>)
    requires
        call_ensures(comm_event, (payload,), r),
        json_text(payload@, "type"@) == Some(ty),
    ensures
        r.0 is Ready <==> ty == "comm-ready"@,
        r.0 is Failure <==> ty == "comm-err"@,
        r.0 is Ping <==> ty == "ping"@,
        r.0 is Done <==> ty == "comm-done"@,
        json_number(payload@, "n"@) matches Some(n) ==> r.1 == n,
        json_number(payload@, "n"@) is None ==> r.1 == 0,
{
    reveal_strlit("comm-ready");
    reveal_strlit("comm-err");
    reveal_strlit("ping");
    reveal_strlit("comm-done");
    assert("comm-ready"@.len() == 10);
    assert("comm-err"@.len() == 8);
    assert("ping"@.len() == 4);
    assert("comm-done"@.len() == 9);
}

/// The package of a process is the first word of its command line, where this is dotted and no
/// path, whatever follows it.
pub proof fn law_package_is_the_first_word(
    cmd: &str,
    w: Seq<char>,
    rest: Seq<char>,
    r: Option<String>,
)
    requires
        call_ensures(guess_package, (cmd,), r),
        is_word(w),
        cmd@ == w || cmd@ == w + seq![' '] + rest,
    ensures
        w.contains('.') && w[0] != '/' ==> (r matches Some(p) && p@ == w),
        !w.contains('.') || w[0] == '/' ==> r is None,
{
    if cmd@ == w {
        lemma_words_first(w, Seq::empty());
    } else {
        lemma_words_first(w, rest);
    }
}

/// A preference's value is shown as the JSON that it is, and as a quoted text that reads back
/// where it is none.
pub proof fn law_preference_value_is_shown(value: String, s: String)
    requires
        call_ensures(preference_value, (value,), s),
    ensures
        json_normal(value@) matches Some(t) ==> s@ == t,
        json_normal(value@) is None ==> s@[0] == '"' && string_value(s@.skip(1)) == value@,
{
    law_quoted_text_reads_back(value@, Seq::empty());
    assert(json_quoted(value@) + Seq::<char>::empty() =~= json_quoted(value@));
}

/// A failure tells the number that came with it.
pub proof fn law_failure_tells_its_number(
    v: u64,
    path: Seq<char>,
    a: Seq<char>,
    b: Seq<char>,
    c: Seq<char>,
)
    ensures
        has_suffix(reason_text(Reason::NoMemory(v), path, a, b, c), hex_of(v)),
        has_suffix(reason_text(Reason::NotExecutable(v), path, a, b, c), hex_of(v)),
        has_suffix(reason_text(Reason::NothingFromMemory, path, a, b, c), b),
        reason_text(Reason::Loader, path, a, b, c) == c,
        numeral(hex_of(v).skip(2), 16) == Some(v as nat),
{
    reveal_strlit("0x");
    law_hexadecimal_reads_back(v as nat);
    assert(hex_of(v).skip(2) =~= hexadecimal(v as nat));
    lemma_tail("mmap failed: "@, hex_of(v));
    lemma_tail("mprotect RX scratch failed: "@, hex_of(v));
    lemma_tail("memfd dlopen failed: "@, b);
}

proof fn lemma_tail(a: Seq<char>, b: Seq<char>)
    ensures
        has_suffix(a + b, b),
{
    assert((a + b).skip((a + b).len() - b.len()) =~= b);
}

/// The directories of an app that are listed: its own and four below it.
pub proof fn law_listed_directories(root: &str, out: Vec<String>)
    requires
        call_ensures(dirs_to_list, (root,), out),
        root@.len() > 0,
    ensures
        out@.len() == 5,
        out@[0]@ == root@,
        out@[1]@ == root@ + "/shared_prefs"@,
        out@[2]@ == root@ + "/files"@,
        out@[3]@ == root@ + "/databases"@,
        out@[4]@ == root@ + "/cache"@,
{
    reveal_strlit("/");
    reveal_strlit("shared_prefs");
    reveal_strlit("files");
    reveal_strlit("databases");
    reveal_strlit("cache");
    reveal_strlit("/shared_prefs");
    reveal_strlit("/files");
    reveal_strlit("/databases");
    reveal_strlit("/cache");
    let all = views(out@);
    assert(all.len() == 5);
    assert(all[0] == out@[0]@);
    assert(all[1] == out@[1]@);
    assert(all[2] == out@[2]@);
    assert(all[3] == out@[3]@);
    assert(all[4] == out@[4]@);
    assert("/"@ + "shared_prefs"@ =~= "/shared_prefs"@);
    assert("/"@ + "files"@ =~= "/files"@);
    assert("/"@ + "databases"@ =~= "/databases"@);
    assert("/"@ + "cache"@ =~= "/cache"@);
    assert(root@ + "/"@ + "shared_prefs"@ =~= root@ + ("/"@ + "shared_prefs"@));
    assert(root@ + "/"@ + "files"@ =~= root@ + ("/"@ + "files"@));
    assert(root@ + "/"@ + "databases"@ =~= root@ + ("/"@ + "databases"@));
    assert(root@ + "/"@ + "cache"@ =~= root@ + ("/"@ + "cache"@));
}

/// A method and a field are static where their modifiers say so, and keep their names.
pub proof fn law_members_are_described(
    name: String,
    ty: String,
    mods: u32,
    m: MethodDesc,
    f: FieldDesc,
)
    requires
        call_ensures(method_desc, (name, ty, mods), m),
        call_ensures(field_desc, (name, ty, mods), f),
    ensures
        m.name == name && m.sig == ty && m.flags == mods,
        f.name == name && f.ty == ty && f.flags == mods,
        m.is_static <==> mods & 8 != 0,
        f.is_static <==> mods & 8 != 0,
{
    assert((mods / 8) % 2 == 1 <==> mods & 8 != 0) by (bit_vector);
}

/// A command line that is shown is the whole of it, or its first 140 characters and an ellipsis.
pub proof fn law_command_is_clipped(cmd: &str, s: String)
    requires
        call_ensures(clip_cmd, (cmd,), s),
    ensures
        s@.len() <= 141,
        cmd@.len() <= 140 ==> s@ == cmd@,
        cmd@.len() > 140 ==> s@.len() == 141 && s@.last() == '\u{2026}' && s@.drop_last()
            == cmd@.take(140),
{
    if cmd@.len() > 140 {
        assert(s@.drop_last() =~= cmd@.take(140));
    }
}

} // verus!
