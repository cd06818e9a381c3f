//! What the host side asks for and how it reads the answers.
use crate::agent::{abstract_path, hello, on_message, socket_name, Engine, Task};
use crate::discover::{is_app, text_view, ProcessInfo};
use crate::host::{
    build_java_trace_script, hook_json, inject_command, is_forward, local_spec, quoted, quoted_char,
    resolve_pid_on_device, target_text, tcp_spec, trace_filter, DialStep, Dialer, Heard, HostError,
    Listener, Reached, DEVICE_AGENT, DEVICE_INJECTOR, MAX_ATTEMPTS,
};
use crate::inject::InjectError;
use crate::injector::{
    check_pid, choose_dir, chosen_dir, effective_uid, filter_names, line_user, names_of,
    package_dirs, package_from, stage_next, staged_paths, target_package, trace_duration, user_from,
    PidCheck, StageNext, StageWay,
};
use crate::numbers::{law_fault_iff_no_number, number_fault};
use crate::proto::{Hello, Message, RpcCall, ScriptLoad, ScriptUnload};
use crate::spawn::{adb_args, component_package, pidof};
use crate::split::{lines_of, pieces, words_of};
use crate::stress::{
    pong_json, rpc_request, steps_of, tick_steps, CommCount, RpcRun, StressCount, StressKind,
};
use crate::text::{
    decimal, has_part, has_prefix, has_suffix, is_space, joined, numeral, numeral_max,
    signed_decimal, trimmed, trimmed_end, trimmed_start, views,
};
use crate::text_laws::{
    is_word, lacks, law_decimal_reads_back, law_split_undoes_join, law_trimmed, law_words_undo_join,
    lemma_decimal_lacks, lemma_numerals_are_words, lemma_pieces_first, lemma_place_of_first,
    lemma_trimmed_word,
};
use vstd::prelude::*;
use vstd::string::*;

verus! {

/// A port and a socket are named so that they read back.
pub proof fn law_endpoints_read_back(port: u16, name: &str, tcp: String, local: String)
    requires
        call_ensures(tcp_spec, (port,), tcp),
        call_ensures(local_spec, (name,), local),
    ensures
        has_prefix(tcp@, "tcp:"@),
        numeral(tcp@.skip(4), 10) == Some(port as nat),
        has_prefix(local@, "localabstract:"@),
        local@.skip(14) == name@,
{
    reveal_strlit("tcp:");
    reveal_strlit("localabstract:");
    law_decimal_reads_back(port as nat);
    assert(tcp@.skip(4) =~= decimal(port as nat));
    assert(tcp@.take(4) =~= "tcp:"@);
    assert(local@.skip(14) =~= name@);
    assert(local@.take(14) =~= "localabstract:"@);
}

/// A line that lists a forward has the device, the port and the socket, in this order.
pub proof fn law_forward_line(
    port: u16,
    name: &str,
    tcp: String,
    local: String,
    device: Seq<char>,
)
    requires
        call_ensures(tcp_spec, (port,), tcp),
        call_ensures(local_spec, (name,), local),
        is_word(device),
        is_word(name@),
    ensures
        is_forward(joined(seq![device, tcp@, local@], seq![' ']), port, name@),
{
    let ws = seq![device, tcp@, local@];
    law_decimal_reads_back(port as nat);
    lemma_numerals_are_words(port as nat);
    reveal_strlit("tcp:");
    reveal_strlit("localabstract:");
    assert(is_word(tcp@)) by {
        let d = decimal(port as nat);
        assert forall|i: int| 0 <= i < tcp@.len() implies !is_space(#[trigger] tcp@[i]) by {
            if i >= 4 {
                assert(tcp@[i] == d[i - 4]);
            }
        }
    }
    assert(is_word(local@)) by {
        assert forall|i: int| 0 <= i < local@.len() implies !is_space(#[trigger] local@[i]) by {
            if i >= 14 {
                assert(local@[i] == name@[i - 14]);
            }
        }
    }
    law_words_undo_join(ws);
}

/// A process that is named is the one; otherwise the device's answer is read.
pub proof fn law_process_is_resolved(
    pid: Option<i32>,
    package: &Option<String>,
    output: &str,
    r: Result<u32, HostError>,
    n: u32,
)
    requires
        call_ensures(resolve_pid_on_device, (pid, package, output), r),
    ensures
        pid matches Some(p) ==> p >= 0 ==> r == Ok::<u32, HostError>(p as u32),
        pid is None && package is Some && output@ == decimal(n as nat).push('\n') ==> r == Ok::<
            u32,
            HostError,
        >(n),
        pid is None && package is None ==> r is Err,
        pid is None && package is Some && output@.len() == 0 ==> (r matches Err(
            HostError::NotRunning(m),
        ) && m@ == package.unwrap()@),
{
    if pid is None && package is Some {
        if output@ == decimal(n as nat).push('\n') {
            lemma_line(n);
        } else if output@.len() == 0 {
            assert(trimmed(output@).len() == 0);
        }
    }
}

proof fn lemma_line(n: u32)
    ensures
        trimmed(decimal(n as nat).push('\n')) == decimal(n as nat),
        number_fault(decimal(n as nat), 10, u32::MAX as nat) is None,
        numeral_max(decimal(n as nat), 10, u32::MAX as nat) == Some(n as nat),
        decimal(n as nat).len() > 0,
{
    let d = decimal(n as nat);
    let s = d.push('\n');
    law_decimal_reads_back(n as nat);
    lemma_numerals_are_words(n as nat);
    assert(!is_space(d[0]));
    assert(s[0] == d[0]);
    assert(trimmed_start(s) == s);
    assert(is_space(s.last()));
    assert(s.drop_last() =~= d);
    assert(!is_space(d[d.len() - 1]));
    assert(trimmed_end(d) == d);
    law_fault_iff_no_number(d, 10, u32::MAX as nat);
}

/// The number of a process is the first that its name gives.
pub proof fn law_pidof_reads_back(
    output: &str,
    r: Result<u32, InjectError>,
    n: u32,
    more: Seq<Seq<char>>,
)
    requires
        call_ensures(pidof, (output,), r),
        forall|i: int| 0 <= i < more.len() ==> is_word(#[trigger] more[i]),
        output@ == joined(seq![decimal(n as nat)] + more, seq![' ']),
    ensures
        r matches Ok(pid) && pid == n,
{
    let ws = seq![decimal(n as nat)] + more;
    lemma_numerals_are_words(n as nat);
    assert forall|i: int| 0 <= i < ws.len() implies is_word(#[trigger] ws[i]) by {
        if i > 0 {
            assert(ws[i] == more[i - 1]);
        }
    }
    law_words_undo_join(ws);
    lemma_line(n);
}

/// A command for a process or a package names it, as its last words but for the flag.
pub proof fn law_inject_command_names_the_target(
    pid: Option<i32>,
    package: &Option<String>,
    stage: bool,
    r: Result<String, HostError>,
)
    requires
        call_ensures(inject_command, (pid, package, stage), r),
    ensures
        r is Ok <==> pid is Some || package is Some,
        r matches Ok(s) ==> {
            &&& has_prefix(s@, DEVICE_INJECTOR@ + " inject --so "@ + DEVICE_AGENT@)
            &&& has_suffix(s@, " --stage-into-app"@) || !stage
            &&& !stage ==> (*package matches Some(p) ==> has_suffix(s@, " --package "@ + p@))
            &&& !stage && package is None ==> (pid matches Some(n) ==> has_suffix(
                s@,
                " --pid "@ + signed_decimal(n as int),
            ))
        },
{
    if let Ok(s) = r {
        let head = DEVICE_INJECTOR@ + " inject --so "@ + DEVICE_AGENT@;
        let t = target_text(pid, text_view(*package));
        assert(s@.take(head.len() as int) =~= head);
        if stage {
            let flag = " --stage-into-app"@;
            assert(s@.skip(s@.len() - flag.len()) =~= flag);
        } else {
            assert(s@ =~= head + t);
            if let Some(p) = *package {
                let tail = " --package "@ + p@;
                assert(s@.skip(s@.len() - tail.len()) =~= tail);
            } else if let Some(n) = pid {
                let tail = " --pid "@ + signed_decimal(n as int);
                assert(s@.skip(s@.len() - tail.len()) =~= tail);
            }
        }
    }
}

/// A hook that is asked for by class, method and signature is made of them: the method is what
/// stands behind the last dot, the signature what stands behind the colon.
pub proof fn law_hook_is_split(class: Seq<char>, method: Seq<char>, sig: Seq<char>)
    requires
        lacks(class, ':'),
        lacks(method, ':'),
        lacks(method, '.'),
    ensures
        ({
            let r = hook_json(class + seq!['.'] + method + seq![':'] + sig);
            &&& r is Some
            &&& r.unwrap() == "{\"class\":\""@ + class + "\",\"method\":\""@ + method
                + "\",\"sig\":\""@ + sig + "\"}"@
        }),
        ({
            let r = hook_json(class + seq!['.'] + method);
            &&& r is Some
            &&& r.unwrap() == "{\"class\":\""@ + class + "\",\"method\":\""@ + method
                + "\",\"sig\":\""@ + "(I)I"@ + "\"}"@
        }),
{
    let left = class + seq!['.'] + method;
    let part = left + seq![':'] + sig;
    assert(lacks(left, ':'));
    lemma_place_of_first(left, sig, ':', 0);
    assert(part.take(left.len() as int) =~= left);
    assert(part.skip(left.len() as int + 1) =~= sig);
    assert(part =~= class + seq!['.'] + method + seq![':'] + sig);
    lemma_last_dot(class, method, left.len() as int);
    assert(left.take(class.len() as int) =~= class);
    assert(left.skip(class.len() as int + 1) =~= method);
}

proof fn lemma_last_dot(class: Seq<char>, method: Seq<char>, to: int)
    requires
        lacks(method, '.'),
        class.len() < to <= class.len() + 1 + method.len(),
    ensures
        crate::api_trace::last_place(class + seq!['.'] + method, '.', to) == class.len(),
    decreases to,
{
    let s = class + seq!['.'] + method;
    if to == class.len() + 1 {
        assert(s[to - 1] == '.');
    } else {
        assert(s[to - 1] == method[to - 2 - class.len()]);
        lemma_last_dot(class, method, to - 1);
    }
}

/// A text in the quotes of a script read from behind the opening one up to the closing one.
pub open spec fn script_read(s: Seq<char>) -> Seq<char>
    decreases s.len(),
{
    if s.len() == 0 || s[0] == '\'' {
        Seq::empty()
    } else if s[0] == '\\' && s.len() >= 2 {
        seq![s[1]] + script_read(s.skip(2))
    } else {
        seq![s[0]] + script_read(s.skip(1))
    }
}

proof fn lemma_quoted_first(s: Seq<char>)
    requires
        s.len() > 0,
    ensures
        quoted(s) == quoted_char(s[0]) + quoted(s.skip(1)),
    decreases s.len(),
{
    if s.len() == 1 {
        assert(s.drop_last() =~= Seq::<char>::empty());
        assert(s.skip(1) =~= Seq::<char>::empty());
        assert(quoted(s) =~= quoted_char(s[0]) + quoted(s.skip(1)));
    } else {
        let init = s.drop_last();
        lemma_quoted_first(init);
        assert(s.skip(1).drop_last() =~= init.skip(1));
        assert(s.skip(1).last() == s.last());
        assert(quoted(s) =~= quoted_char(s[0]) + quoted(s.skip(1)));
    }
}

/// A text that was put into the quotes of a script reads back up to the closing one.
pub proof fn law_script_text_reads_back(s: Seq<char>, rest: Seq<char>)
    ensures
        script_read(quoted(s) + seq!['\''] + rest) == s,
    decreases s.len(),
{
    let t = quoted(s) + seq!['\''] + rest;
    if s.len() == 0 {
        assert(t[0] == '\'');
    } else {
        reveal_strlit("\\\\");
        reveal_strlit("\\'");
        lemma_quoted_first(s);
        law_script_text_reads_back(s.skip(1), rest);
        let e = quoted_char(s[0]);
        let more = quoted(s.skip(1)) + seq!['\''] + rest;
        assert(t =~= e + more);
        assert(t.skip(e.len() as int) =~= more);
        assert(t[0] == e[0]);
        assert(seq![s[0]] + s.skip(1) =~= s);
    }
}

/// A trace's script starts with its filter, which reads back, and ends with the script it is for.
pub proof fn law_trace_script(base: &str, filter: &str, max: u64, hooks: &str, s: String)
    requires
        call_ensures(build_java_trace_script, (base, filter, max, hooks), s),
    ensures
        has_prefix(s@, "globalThis.__GOAULD_API_FILTER = '"@),
        script_read(s@.skip("globalThis.__GOAULD_API_FILTER = '"@.len() as int)) == trace_filter(
            filter@,
        ),
        has_suffix(s@, base@),
{
    let head = "globalThis.__GOAULD_API_FILTER = '"@;
    let f = quoted(trace_filter(filter@));
    let next = "';\nglobalThis.__GOAULD_API_MAX_EVENTS = "@;
    let tail = decimal(max as nat) + ";\nglobalThis.__GOAULD_JAVA_HOOKS = "@
        + crate::host::hook_list(hooks@) + ";\n"@ + base@;
    assert(next.len() > 0 && next[0] == '\'') by {
        reveal_strlit("';\nglobalThis.__GOAULD_API_MAX_EVENTS = ");
    }
    assert(s@ =~= head + (f + seq!['\''] + (next.skip(1) + tail)));
    law_script_text_reads_back(trace_filter(filter@), next.skip(1) + tail);
    assert(s@.take(head.len() as int) =~= head);
    assert(s@.skip(head.len() as int) =~= f + seq!['\''] + (next.skip(1) + tail));
    assert(s@.skip(s@.len() - base@.len()) =~= base@);
}

/// Dialing an agent is over with its first message, and goes on after a failure until the
/// attempts are used up.
pub proof fn law_dialing(d: &mut Dialer, r: Reached, step: DialStep)
    requires
        call_ensures(Dialer::step, (d, r), step),
    ensures
        step is Found <==> r is Hello,
        r is Failed ==> (step is GivenUp <==> old(d).attempt >= MAX_ATTEMPTS),
        step is Wait ==> final(d).attempt == old(d).attempt + 1,
        r matches Reached::Failed(w) ==> final(d).why == Some(w),
{
}

/// A listener has heard what it waits for where a message holds it.
pub proof fn law_listener(l: &mut Listener, payload: &str, r: Heard, needle: String)
    requires
        call_ensures(Listener::on_send, (l, payload), r),
        old(l).expect == Some(needle),
    ensures
        r is Other <==> !has_part(payload@, needle@),
        r is Last <==> has_part(payload@, needle@) && !old(l).keep_on,
        r is Matched ==> final(l).expect is None,
{
}

/// The package of a component is what stands before its slash.
pub proof fn law_component_package(
    component: &str,
    s: String,
    package: Seq<char>,
    activity: Seq<char>,
)
    requires
        call_ensures(component_package, (component,), s),
        lacks(package, '/'),
        component@ == package + seq!['/'] + activity,
    ensures
        s@ == package,
{
    lemma_pieces_first(package, activity, '/');
}

/// A command for one device names it first, and is the command otherwise.
pub proof fn law_device_is_named(
    serial: &Option<String>,
    rest: &Vec<String>,
    out: Vec<String>,
    i: int,
)
    requires
        call_ensures(adb_args, (serial, rest), out),
        0 <= i < rest@.len(),
    ensures
        *serial matches Some(s) ==> out@.len() == rest@.len() + 2 && out@[1]@ == s@ && out@[0]@
            == "-s"@ && out@[i + 2]@ == rest@[i]@,
        serial is None ==> out@.len() == rest@.len() && out@[i]@ == rest@[i]@,
{
    let all = views(out@);
    assert(views(rest@)[i] == rest@[i]@);
    assert(all.len() == out@.len());
    if serial is Some {
        assert(all[0] == out@[0]@);
        assert(all[1] == out@[1]@);
        assert(all[i + 2] == out@[i + 2]@);
    } else {
        assert(all[i] == out@[i]@);
    }
}

/// A process is used only where it runs and, where a package is named, runs that package; one
/// that does not run is looked up by its package.
pub proof fn law_process_is_checked(pid: i32, cmd: &str, package: &Option<String>, r: PidCheck)
    requires
        call_ensures(check_pid, (pid, cmd, package), r),
    ensures
        r is LookUp <==> cmd@.len() == 0 && package is Some,
        r is Use ==> cmd@.len() > 0,
        r is Use ==> (*package matches Some(p) ==> is_app(cmd@, p@)),
        cmd@.len() > 0 && package is None ==> r is Use,
        cmd@.len() > 0 ==> (*package matches Some(p) ==> (r is Use <==> is_app(cmd@, p@))),
{
}

/// The directories of a package are those of its user, and end with the package.
pub proof fn law_package_dirs(uid: u32, package: &str, out: Vec<String>)
    requires
        call_ensures(package_dirs, (uid, package), out),
    ensures
        out@.len() == 3,
        has_suffix(out@[0]@, "/"@ + package@),
        has_suffix(out@[1]@, "/"@ + package@),
        has_suffix(out@[2]@, "/"@ + package@),
        has_prefix(out@[0]@, "/data/user/"@),
        numeral(out@[0]@.subrange(11, out@[0]@.len() - package@.len() - 1), 10) == Some(
            (uid / 100_000) as nat,
        ),
        has_prefix(out@[2]@, "/data/data/"@),
{
    let all = views(out@);
    assert(all.len() == out@.len());
    assert(all.len() == 3);
    assert(all[0] == out@[0]@);
    assert(all[1] == out@[1]@);
    assert(all[2] == out@[2]@);
    reveal_strlit("/data/user/");
    reveal_strlit("/data/data/");
    reveal_strlit("/");
    let user = decimal((uid / 100_000) as nat);
    law_decimal_reads_back((uid / 100_000) as nat);
    let tail = "/"@ + package@;
    let a = all[0];
    let b = all[1];
    let c = all[2];
    assert(a.skip(a.len() - tail.len()) =~= tail);
    assert(b.skip(b.len() - tail.len()) =~= tail);
    assert(c.skip(c.len() - tail.len()) =~= tail);
    assert(a.take(11) =~= "/data/user/"@);
    assert(c.take(11) =~= "/data/data/"@);
    assert(a.subrange(11, a.len() - package@.len() - 1) =~= user);
}

/// The directory that is chosen is the first that is there.
pub proof fn law_first_present_dir(dirs: &Vec<String>, present: &Vec<bool>, s: String, k: int)
    requires
        call_ensures(choose_dir, (dirs, present), s),
        dirs@.len() == present@.len(),
        0 <= k < dirs@.len(),
        present@[k],
        forall|j: int| 0 <= j < k ==> !#[trigger] present@[j],
    ensures
        s@ == dirs@[k]@,
{
    lemma_chosen(views(dirs@), present@, 0, k);
    assert(views(dirs@)[k] == dirs@[k]@);
}

proof fn lemma_chosen(dirs: Seq<Seq<char>>, present: Seq<bool>, i: int, k: int)
    requires
        0 <= i <= k < dirs.len(),
        dirs.len() == present.len(),
        present[k],
        forall|j: int| 0 <= j < k ==> !#[trigger] present[j],
    ensures
        chosen_dir(dirs, present, i) == dirs[k],
    decreases k - i,
{
    if i < k {
        assert(!present[i]);
        lemma_chosen(dirs, present, i + 1, k);
    }
}

/// The names of a filter are those that it was joined from.
pub proof fn law_filter_reads_back(filter: &str, out: Vec<String>, names: Seq<Seq<char>>)
    requires
        call_ensures(filter_names, (filter,), out),
        names.len() > 0,
        forall|i: int| 0 <= i < names.len() ==> is_word(#[trigger] names[i]) && lacks(names[i], ','),
        filter@ == joined(names, seq![',']),
    ensures
        views(out@) == names,
{
    assert forall|i: int| 0 <= i < names.len() implies lacks(#[trigger] names[i], ',') by {
        assert(is_word(names[i]) && lacks(names[i], ','));
    }
    law_split_undoes_join(names, ',');
    lemma_names_of(names);
}

proof fn lemma_names_of(names: Seq<Seq<char>>)
    requires
        forall|i: int| 0 <= i < names.len() ==> is_word(#[trigger] names[i]) && lacks(names[i], ','),
    ensures
        names_of(names) == names,
    decreases names.len(),
{
    if names.len() > 0 {
        let init = names.drop_last();
        assert(is_word(names[names.len() - 1]));
        lemma_trimmed_word(names.last());
        assert forall|i: int| 0 <= i < init.len() implies is_word(#[trigger] init[i]) && lacks(
            init[i],
            ',',
        ) by {
            assert(is_word(names[i]) && lacks(names[i], ','));
        }
        lemma_names_of(init);
        assert(init.push(names.last()) =~= names);
    } else {
        assert(names_of(names) =~= names);
    }
}

/// The effective user of a process is the second that its status tells.
pub proof fn law_effective_user_reads_back(
    status: &str,
    uid: u32,
    own: u32,
    n: u32,
    more: Seq<Seq<char>>,
)
    requires
        call_ensures(effective_uid, (status,), uid),
        forall|i: int| 0 <= i < more.len() ==> is_word(#[trigger] more[i]),
        lines_of(status@).len() > 0,
        lines_of(status@)[0] == "Uid:"@ + (seq!['\t'] + joined(
            seq![decimal(own as nat), decimal(n as nat)] + more,
            seq![' '],
        )),
    ensures
        uid == n,
{
    let ws = seq![decimal(own as nat), decimal(n as nat)] + more;
    let v = joined(ws, seq![' ']);
    let t = seq!['\t'] + v;
    let line = lines_of(status@)[0];
    lemma_numerals_are_words(own as nat);
    lemma_numerals_are_words(n as nat);
    assert forall|i: int| 0 <= i < ws.len() implies is_word(#[trigger] ws[i]) by {
        if i >= 2 {
            assert(ws[i] == more[i - 2]);
        }
    }
    law_words_undo_join(ws);
    assert(words_of(t) == words_of(v)) by {
        assert(is_space(t[0]));
        assert(t.skip(1) =~= v);
        assert(trimmed_start(t) == trimmed_start(v));
    }
    assert(line.take("Uid:"@.len() as int) =~= "Uid:"@);
    assert(line.skip("Uid:"@.len() as int) =~= t);
    law_decimal_reads_back(n as nat);
    assert(line_user(t) == Some(n));
}

/// Staging tries each way once, and ends with the first that works.
pub proof fn law_staging(way: StageWay, worked: bool, r: StageNext)
    requires
        call_ensures(stage_next, (way, worked), r),
    ensures
        r is Staged <==> worked,
        r matches StageNext::Try(next) ==> next != way,
        r is GiveUp <==> !worked && way is RunAs,
{
}

/// A file is staged under the package's own directory.
pub proof fn law_staged_path(dir: &str, name: &str, r: (String, String))
    requires
        call_ensures(staged_paths, (dir, name), r),
    ensures
        has_prefix(r.1@, r.0@),
        has_prefix(r.0@, dir@),
        has_suffix(r.1@, "/"@ + name@),
{
    let tail = "/"@ + name@;
    assert(r.1@.take(r.0@.len() as int) =~= r.0@);
    assert(r.0@.take(dir@.len() as int) =~= dir@);
    assert(r.1@.skip(r.1@.len() - tail.len()) =~= tail);
}

/// The socket of an agent names its process.
pub proof fn law_socket_names_the_process(pid: u32, s: String)
    requires
        call_ensures(socket_name, (pid,), s),
    ensures
        has_prefix(s@, "goauld-agent-"@),
        numeral(s@.skip(13), 10) == Some(pid as nat),
{
    reveal_strlit("goauld-agent-");
    law_decimal_reads_back(pid as nat);
    assert(s@.skip(13) =~= decimal(pid as nat));
    assert(s@.take(13) =~= "goauld-agent-"@);
}

/// An abstract socket's address is its name behind a zero.
pub proof fn law_abstract_address(name: &str, out: Vec<u8>)
    requires
        call_ensures(abstract_path, (name,), out),
    ensures
        out@[0] == 0,
        out@.skip(1) == vstd::utf8::encode_utf8(name@),
{
    assert(out@.skip(1) =~= vstd::utf8::encode_utf8(name@));
}

/// The first message of an agent tells its process and its package, and the level of its device
/// as far as it is known.
pub proof fn law_hello(
    pid: u32,
    package: Option<String>,
    sdk: u32,
    level: &Option<String>,
    e: Engine,
    h: Hello,
    n: u32,
    var: String,
)
    requires
        call_ensures(hello, (pid, package, sdk, level, e), h),
    ensures
        h.pid == pid,
        package matches Some(p) ==> h.package@ == p@,
        sdk != 0 ==> h.sdk_int == sdk,
        sdk == 0 && *level == Some(var) && var@ == decimal(n as nat) ==> h.sdk_int == n,
        sdk == 0 && level is None ==> h.sdk_int == 0,
{
    law_decimal_reads_back(n as nat);
}

/// What an agent is asked for is what the message holds.
pub proof fn law_messages_become_tasks(m: Message, t: Task)
    requires
        call_ensures(on_message, (m,), t),
    ensures
        m matches Message::ScriptLoad(s) ==> (t matches Task::Load { script_id, source } && script_id
            == s.script_id && source == s.source),
        m matches Message::ScriptUnload(s) ==> (t matches Task::Unload { script_id } && script_id
            == s.script_id),
        m matches Message::RpcCall(c) ==> (t matches Task::Call { call_id, fn_name, args_json }
            && call_id == c.call_id && fn_name == c.fn_name && args_json == c.args_json),
{
}

/// The answer to a ping has its number.
pub proof fn law_pong_reads_back(n: u64, s: String)
    requires
        call_ensures(pong_json, (n,), s),
    ensures
        has_prefix(s@, "{\"n\":"@),
        numeral(pieces(s@, ',')[0].skip(5), 10) == Some(n as nat),
        has_suffix(s@, ",\"type\":\"pong\"}"@),
{
    reveal_strlit("{\"n\":");
    reveal_strlit(",\"type\":\"pong\"}");
    law_decimal_reads_back(n as nat);
    lemma_decimal_lacks(n as nat, ',');
    let first = "{\"n\":"@ + decimal(n as nat);
    let tail = ",\"type\":\"pong\"}"@;
    assert(lacks(first, ','));
    assert(s@ =~= first + seq![','] + tail.skip(1));
    lemma_pieces_first(first, tail.skip(1), ',');
    assert(first.skip(5) =~= decimal(n as nat));
    assert(s@.take(5) =~= "{\"n\":"@);
    assert(s@.skip(s@.len() - tail.len()) =~= tail);
}

/// A flood is complete where every message came, in order, and the process lives.
pub proof fn law_flood_verdict(s: &StressCount, count: u64, alive: bool, r: Result<(), HostError>)
    requires
        call_ensures(StressCount::verdict, (s, count, alive), r),
    ensures
        r is Ok <==> s.gaps == 0 && s.received == count && alive,
{
}

/// Messages both ways are complete where every round was made, every call answered, and the
/// process lives.
pub proof fn law_comm_verdict(
    c: &CommCount,
    count: u64,
    answered: u64,
    calls: u64,
    alive: bool,
    r: Result<(), HostError>,
)
    requires
        call_ensures(CommCount::verdict, (c, count, answered, calls, alive), r),
    ensures
        r is Ok <==> c.rounds == count && answered == calls && alive,
{
}

/// A message of a flood is counted with its size, and as a gap where its number is not the one
/// that is due; the number behind it is due next.
pub proof fn law_message_is_counted(s: &mut StressCount, n: u64, size: u64)
    requires
        old(s).received < u64::MAX,
        old(s).gaps <= old(s).received,
        old(s).bytes + size <= u64::MAX,
        n < u64::MAX,
        call_ensures(StressCount::take, (s, StressKind::Message, Some(n), size), ()),
    ensures
        final(s).received == old(s).received + 1,
        final(s).bytes == old(s).bytes + size,
        final(s).gaps == old(s).gaps + if n == old(s).next {
            0int
        } else {
            1
        },
        final(s).next == n + 1,
        final(s).started == old(s).started,
        final(s).done == old(s).done,
{
}

/// A round takes from its ping to the next one.
pub proof fn law_round_time(c: &mut CommCount, now: u64, size: u64, before: u64)
    requires
        old(c).wf(),
        old(c).rounds < u64::MAX,
        old(c).bytes + size <= u64::MAX,
        old(c).pending == Some(before),
        before <= now,
        call_ensures(CommCount::on_ping, (c, now, size), ()),
    ensures
        final(c).times@.len() == old(c).times@.len() + 1,
        final(c).times@.last() + before == now,
        final(c).pending == Some(now),
        final(c).rounds == old(c).rounds + 1,
{
}

/// The calls that are made in turn: a sum of two numbers that follow each other, and an echo.
pub proof fn law_request_reads_back(i: u64, r: (String, String))
    requires
        i < u64::MAX,
        call_ensures(rpc_request, (i,), r),
    ensures
        i % 2 == 0 ==> r.0@ == "add"@ && ({
            let args = pieces(r.1@.subrange(1, r.1@.len() - 1), ',');
            &&& args.len() == 2
            &&& numeral(args[0], 10) == Some(i as nat)
            &&& numeral(args[1], 10) == Some((i + 1) as nat)
        }),
        i % 2 == 1 ==> r.0@ == "echo"@ && numeral(r.1@.subrange(7, r.1@.len() - 2), 10) == Some(
            i as nat,
        ),
{
    reveal_strlit("[");
    reveal_strlit("]");
    reveal_strlit(",");
    reveal_strlit("[\"echo-");
    reveal_strlit("\"]");
    law_decimal_reads_back(i as nat);
    law_decimal_reads_back((i + 1) as nat);
    lemma_decimal_lacks(i as nat, ',');
    lemma_decimal_lacks((i + 1) as nat, ',');
    let a = decimal(i as nat);
    let b = decimal((i + 1) as nat);
    if i % 2 == 0 {
        assert(r.1@.subrange(1, r.1@.len() - 1) =~= a + seq![','] + b);
        lemma_pieces_first(b, Seq::empty(), ',');
        lemma_pieces_first(a, b, ',');
    } else {
        assert(r.1@.subrange(7, r.1@.len() - 2) =~= a);
    }
}

/// A call that was answered took from when it began to its answer, and the next one is due.
pub proof fn law_answer_is_counted(run: &mut RpcRun, now: u64, r: bool)
    requires
        old(run).wf(),
        old(run).answered < old(run).total,
        old(run).began <= now,
        call_ensures(RpcRun::on_reply, (run, false, now), r),
    ensures
        r,
        final(run).answered == old(run).answered + 1,
        final(run).times@.len() == old(run).times@.len() + 1,
        final(run).times@.last() + old(run).began == now,
{
}

/// The steps between times that grow are their differences.
pub proof fn law_steps_are_differences(times: Seq<u64>, k: int)
    requires
        forall|i: int, j: int| 0 <= i < j < times.len() ==> times[i] < times[j],
        0 <= k < times.len() - 1,
    ensures
        steps_of(times).len() == times.len() - 1,
        steps_of(times)[k] == times[k + 1] - times[k],
    decreases times.len(),
{
    let init = times.drop_last();
    let n = times.len();
    assert(times[n - 2] < times[n - 1]);
    if n > 2 {
        assert forall|i: int, j: int| 0 <= i < j < init.len() implies init[i] < init[j] by {
            assert(times[i] < times[j]);
        }
        law_steps_are_differences(init, if k < n - 2 {
            k
        } else {
            0
        });
    } else {
        assert(steps_of(init).len() == 0);
    }
}

/// The steps are those between the last forty-one times, whatever came before.
pub proof fn law_old_times_do_not_count(
    old_times: &Vec<u64>,
    times: &Vec<u64>,
    a: Vec<u64>,
    b: Vec<u64>,
)
    requires
        call_ensures(tick_steps, (old_times,), a),
        call_ensures(tick_steps, (times,), b),
        times@.len() == 41,
        old_times@.len() >= 41,
        old_times@.skip(old_times@.len() - 41) == times@,
    ensures
        a@ == b@,
{
    if old_times@.len() == 41 {
        assert(old_times@.skip(0) =~= old_times@);
    }
}

/// What calls are traced by: what was asked for, without the space around it, and the packages of
/// the system where nothing was.
pub proof fn law_trace_filter(filter: Seq<char>, w: Seq<char>, before: Seq<char>, after: Seq<char>)
    requires
        filter == before + w + after,
        forall|i: int| 0 <= i < before.len() ==> is_space(#[trigger] before[i]),
        forall|i: int| 0 <= i < after.len() ==> is_space(#[trigger] after[i]),
        w.len() > 0 ==> !is_space(w[0]) && !is_space(w.last()),
    ensures
        w.len() > 0 ==> trace_filter(filter) == w,
        w.len() == 0 ==> trace_filter(filter)
            == "android.,androidx.,java.,javax.,com.android.,dalvik."@,
{
    let (a, b) = law_trimmed(filter);
    let n = before.len() as int;
    let m = n + w.len();
    assert forall|i: int| 0 <= i < n implies is_space(#[trigger] filter[i]) by {
        assert(filter[i] == before[i]);
    }
    assert forall|i: int| m <= i < filter.len() implies is_space(#[trigger] filter[i]) by {
        assert(filter[i] == after[i - m]);
    }
    if w.len() > 0 {
        assert(filter[n] == w[0]);
        assert(filter[m - 1] == w.last());
        assert(a <= n && m <= b);
        assert(trimmed(filter)[0] == filter[a]);
        assert(trimmed(filter).last() == filter[b - 1]);
        assert(filter.subrange(n, m) =~= w);
    } else if trimmed(filter).len() > 0 {
        assert(trimmed(filter)[0] == filter[a]);
    }
}

/// Every name of a filter is a part of it between commas, without the space around it.
pub proof fn law_filter_names_are_trimmed(filter: &str, out: Vec<String>, k: int) -> (i: int)
    requires
        call_ensures(filter_names, (filter,), out),
        0 <= k < out@.len(),
    ensures
        0 <= i < pieces(filter@, ',').len(),
        out@[k]@ == trimmed(pieces(filter@, ',')[i]),
        out@[k]@.len() > 0,
{
    assert(views(out@)[k] == out@[k]@);
    lemma_name_of(pieces(filter@, ','), k)
}

proof fn lemma_name_of(parts: Seq<Seq<char>>, k: int) -> (i: int)
    requires
        0 <= k < names_of(parts).len(),
    ensures
        0 <= i < parts.len(),
        names_of(parts)[k] == trimmed(parts[i]),
        names_of(parts)[k].len() > 0,
    decreases parts.len(),
{
    let init = parts.drop_last();
    if k < names_of(init).len() {
        lemma_name_of(init, k)
    } else {
        parts.len() - 1
    }
}

/// How long a host waits before it dials again: short at first for a session, longer later, and
/// longest where messages are only counted.
pub proof fn law_dialing_waits(d: &mut Dialer, w: String, ms: u64)
    requires
        call_ensures(Dialer::step, (d, Reached::Failed(w)), DialStep::Wait(ms)),
    ensures
        old(d).kind is Attach && old(d).attempt <= 3 ==> ms == 15,
        old(d).kind is Attach && old(d).attempt > 3 ==> ms == 50,
        !(old(d).kind is Attach) ==> ms == 100,
{
}

/// The user is the first one, the superuser, where no line tells it.
pub proof fn law_no_user_line(status: &str, uid: u32)
    requires
        call_ensures(effective_uid, (status,), uid),
        forall|i: int|
            0 <= i < lines_of(status@).len() ==> !has_prefix(
                #[trigger] lines_of(status@)[i],
                "Uid:"@,
            ),
    ensures
        uid == 0,
{
    lemma_no_user(lines_of(status@), 0);
}

proof fn lemma_no_user(ls: Seq<Seq<char>>, k: int)
    requires
        0 <= k,
        forall|i: int| 0 <= i < ls.len() ==> !has_prefix(#[trigger] ls[i], "Uid:"@),
    ensures
        user_from(ls, k) == 0,
    decreases ls.len() - k,
{
    if k < ls.len() {
        assert(!has_prefix(ls[k], "Uid:"@));
        lemma_no_user(ls, k + 1);
    }
}

/// The package that is worked on is the one that was named, else that of the first process with
/// the number.
pub proof fn law_target_package(
    named: String,
    procs: &Vec<ProcessInfo>,
    pid: i32,
    a: Option<String>,
    b: Option<String>,
    k: int,
)
    requires
        call_ensures(target_package, (Some(named), procs, pid), a),
        call_ensures(target_package, (None::<String>, procs, pid), b),
        0 <= k < procs@.len(),
        procs@[k].pid == pid,
        forall|j: int| 0 <= j < k ==> (#[trigger] procs@[j]).pid as i32 != pid,
    ensures
        a matches Some(p) && p@ == named@,
        procs@[k].package matches Some(p) ==> (b matches Some(q) && q@ == p@),
        procs@[k].package is None ==> b is None,
{
    lemma_package(procs@, pid, 0, k);
}

proof fn lemma_package(procs: Seq<ProcessInfo>, pid: i32, i: int, k: int)
    requires
        0 <= i <= k < procs.len(),
        procs[k].pid == pid,
        forall|j: int| i <= j < k ==> (#[trigger] procs[j]).pid as i32 != pid,
    ensures
        package_from(procs, pid, i) == text_view(procs[k].package),
    decreases k - i,
{
    if i < k {
        assert(procs[i].pid as i32 != pid);
        lemma_package(procs, pid, i + 1, k);
    }
}

/// A first attempt at a session is given less time than any other.
pub proof fn law_dial_timeout(d: Dialer, first: u64, e: Dialer, later: u64)
    requires
        call_ensures(Dialer::timeout_ms, (&d,), first),
        call_ensures(Dialer::timeout_ms, (&e,), later),
        d.kind is Attach && d.attempt == 1,
        !(e.kind is Attach) || e.attempt != 1,
    ensures
        first == 250,
        later == 750,
{
}

/// A trace of no length goes on, and one of a length ends after it.
pub proof fn law_trace_duration(secs: u64, d: Option<u64>)
    requires
        call_ensures(trace_duration, (secs,), d),
    ensures
        d is None <==> secs == 0,
        d matches Some(n) ==> n == secs,
{
}

} // verus!
