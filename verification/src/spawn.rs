//! Starting an app and waiting for its process.
use crate::inject::InjectError;
use crate::numbers::{number_fault, read_number};
use crate::split::{pieces, split, texts, words, words_of};
use crate::text::{chars_of, numeral_max, string_of, views};
use vstd::prelude::*;
use vstd::string::*;

verus! {

/// The arguments of a command on a device: the device where one is named, then the command.
pub open spec fn device_args(serial: Option<Seq<char>>, rest: Seq<Seq<char>>) -> Seq<Seq<char>> {
    match serial {
        Some(s) => seq!["-s"@, s] + rest,
        None => rest,
    }
}

/// The arguments of a command on a device.
pub fn adb_args(serial: &Option<String>, rest: &Vec<String>) -> (out: Vec<String>)
    ensures
        views(out@) == device_args(crate::discover::text_view(*serial), views(rest@)),
{
    let mut out: Vec<String> = Vec::new();
    match serial {
        Some(s) => {
            out.push("-s".to_owned());
            out.push(s.clone());
            assert(views(out@) =~= seq!["-s"@, s@]);
        },
        None => {
            assert(views(out@) =~= Seq::<Seq<char>>::empty());
        },
    }
    let ghost head = views(out@);
    let mut i: usize = 0;
    assert(views(out@) =~= head + views(rest@).take(0));
    while i < rest.len()
        invariant
            i <= rest@.len(),
            views(out@) == head + views(rest@).take(i as int),
        decreases rest@.len() - i,
    {
        let s = rest[i].clone();
        let ghost before = out@;
        out.push(s);
        i = i + 1;
        assert(views(out@) =~= views(before).push(s@));
        assert(views(out@) =~= head + views(rest@).take(i as int));
    }
    assert(views(rest@).take(i as int) =~= views(rest@));
    assert(head + views(rest@) =~= device_args(
        crate::discover::text_view(*serial),
        views(rest@),
    ));
    out
}

/// The command that starts an activity suspended.
pub fn start_args(component: &str) -> (out: Vec<String>)
    ensures
        views(out@) == seq!["shell"@, "am"@, "start"@, "-D"@, "-n"@, component@],
{
    let mut out: Vec<String> = Vec::new();
    out.push("shell".to_owned());
    out.push("am".to_owned());
    out.push("start".to_owned());
    out.push("-D".to_owned());
    out.push("-n".to_owned());
    out.push(component.to_owned());
    assert(views(out@) =~= seq!["shell"@, "am"@, "start"@, "-D"@, "-n"@, component@]);
    out
}

/// The package of a component: what stands before its first slash.
pub fn component_package(component: &str) -> (s: String)
    ensures
        s@ == pieces(component@, '/')[0],
{
    let cs = chars_of(component);
    let ps = split(cs.as_slice(), '/');
    assert(texts(ps@)[0] == ps@[0]@);
    string_of(ps[0].as_slice())
}

/// The process number in the output of `pidof`: its first word.
pub fn pidof(output: &str) -> (r: Result<u32, InjectError>)
    ensures
        ({
            let ws = words_of(output@);
            if ws.len() == 0 {
                r matches Err(InjectError::Msg(m)) && m@ == "pidof empty"@
            } else {
                match number_fault(ws[0], 10, u32::MAX as nat) {
                    None => r matches Ok(pid) && numeral_max(ws[0], 10, u32::MAX as nat) == Some(
                        pid as nat,
                    ),
                    Some(f) => r matches Err(InjectError::Msg(m)) && m@ == f.text(),
                }
            }
        }),
{
    let cs = chars_of(output);
    let ws = words(cs.as_slice());
    if ws.len() == 0 {
        return Err(InjectError::Msg("pidof empty".to_owned()));
    }
    assert(texts(ws@)[0] == ws@[0]@);
    proof {
        crate::numbers::law_fault_iff_no_number(ws@[0]@, 10, u32::MAX as nat);
    }
    match read_number(ws[0].as_slice(), 10, 0xffff_ffff) {
        Ok(v) => Ok(v as u32),
        Err(f) => Err(InjectError::Msg(f.message())),
    }
}

/// What a wait for an app comes to.
#[derive(Debug)]
pub enum Awaited {
    Found(u32),
    Failed(InjectError),
    Again,
}

/// What one look for the process of a package means: found, or look again. No look is made once
/// the time is up, and the wait is over.
pub fn wait_for_package(package: &str, seen: Option<Result<u32, InjectError>>) -> (r: Awaited)
    ensures
        match r {
            Awaited::Found(pid) => seen == Some(Ok::<u32, InjectError>(pid)),
            Awaited::Failed(e) => seen is None && (e matches InjectError::Msg(m) && m@
                == "timeout waiting for "@ + package@),
            Awaited::Again => seen matches Some(Err(_)),
        },
{
    match seen {
        Some(Ok(pid)) => Awaited::Found(pid),
        Some(Err(_)) => Awaited::Again,
        None => Awaited::Failed(
            InjectError::Msg("timeout waiting for ".to_owned().concat(package)),
        ),
    }
}

/// The error of an activity that could not be started.
pub fn start_failed(stderr: &str) -> (e: InjectError)
    ensures
        e matches InjectError::Msg(m) && m@ == "am start failed: "@ + stderr@,
{
    InjectError::Msg("am start failed: ".to_owned().concat(stderr))
}

} // verus!
