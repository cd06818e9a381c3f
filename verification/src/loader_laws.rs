//! What holds of a library that is loaded from memory or in a name space of its own.
use crate::bytes::{law_quad_round_trip, law_word_round_trip, le32, le64, quad_at, word_at};
use crate::elf::{find_dynsym_offset, nul_from, utf8_lossy, Lookup};
use crate::inject::{
    is_bad_map, is_handle, is_label, label_from, resolve_elf_symbol, selinux_context, Answer,
};
use crate::loaders::{
    create_args, dlerror_text, encode_info, label_donors, load_args, page_up, path_in_root,
    search_path, stack_top, LoadInfo, MemoryLoad, MemoryOp, MemoryOutcome, MemoryPhase,
    MemoryReason, SpaceLoad, SpaceOp, SpacePhase, STACK_LEN,
};
use crate::remote::TraceeError;
use crate::split::words_of;
use crate::syscall_trace::signed64;
use crate::text::{has_prefix, has_suffix, signed_decimal, views};
use crate::text_laws::{integer_of, law_signed_reads_back};
use vstd::prelude::*;
use vstd::string::*;

verus! {

/// What a loader is told: its fields stand where the loader reads them.
pub proof fn law_load_info_layout(i: LoadInfo, out: Vec<u8>)
    requires
        call_ensures(encode_info, (i,), out),
    ensures
        out@.len() == 48,
        quad_at(out@, 0) == i.flags,
        quad_at(out@, 8) == 0,
        quad_at(out@, 16) == 0,
        word_at(out@, 24) == 0xffff_ffff,
        word_at(out@, 28) == i.fd,
        quad_at(out@, 32) == 0,
        quad_at(out@, 40) == i.namespace,
{
    let none = Seq::<u8>::empty();
    let a = le64(i.flags);
    let z = le64(0);
    let m = le32(0xffff_ffffu32);
    let f = le32(i.fd);
    let n = le64(i.namespace);
    lemma_seven_in_turn(out@, a, z, z, m, f, z, n);
    lemma_lengths(i.flags, i.fd);
    lemma_lengths(0, 0xffff_ffffu32);
    lemma_lengths(i.namespace, 0);
    lemma_quad_field(out@, none, i.flags, z + z + m + f + z + n, 0);
    lemma_quad_field(out@, a, 0, z + m + f + z + n, 8);
    lemma_quad_field(out@, a + z, 0, m + f + z + n, 16);
    lemma_word_field(out@, a + z + z, 0xffff_ffffu32, f + z + n, 24);
    lemma_word_field(out@, a + z + z + m, i.fd, z + n, 28);
    lemma_quad_field(out@, a + z + z + m + f, 0, n, 32);
    lemma_quad_field(out@, a + z + z + m + f + z, i.namespace, none, 40);
}

proof fn lemma_lengths(x: u64, y: u32)
    ensures
        le64(x).len() == 8,
        le32(y).len() == 4,
{
}

proof fn lemma_quad_field(s: Seq<u8>, before: Seq<u8>, x: u64, after: Seq<u8>, at: int)
    requires
        s == before + le64(x) + after,
        before.len() == at,
    ensures
        quad_at(s, at) == x,
{
    law_quad_round_trip(before, x, after);
}

proof fn lemma_word_field(s: Seq<u8>, before: Seq<u8>, x: u32, after: Seq<u8>, at: int)
    requires
        s == before + le32(x) + after,
        before.len() == at,
    ensures
        word_at(s, at) == x,
{
    law_word_round_trip(before, x, after);
}

proof fn lemma_seven_in_turn(
    s: Seq<u8>,
    a: Seq<u8>,
    b: Seq<u8>,
    c: Seq<u8>,
    d: Seq<u8>,
    e: Seq<u8>,
    f: Seq<u8>,
    g: Seq<u8>,
)
    requires
        s == a + b + c + d + e + f + g,
    ensures
        s == Seq::<u8>::empty() + a + (b + c + d + e + f + g),
        s == a + b + (c + d + e + f + g),
        s == a + b + c + (d + e + f + g),
        s == a + b + c + d + (e + f + g),
        s == a + b + c + d + e + (f + g),
        s == a + b + c + d + e + f + g + Seq::<u8>::empty(),
{
    assert(s =~= Seq::<u8>::empty() + a + (b + c + d + e + f + g));
    assert(s =~= a + b + (c + d + e + f + g));
    assert(s =~= a + b + c + (d + e + f + g));
    assert(s =~= a + b + c + d + (e + f + g));
    assert(s =~= a + b + c + d + e + (f + g));
    assert(s =~= a + b + c + d + e + f + g + Seq::<u8>::empty());
}

/// A buffer for a library is whole pages that hold it, and no page more.
pub proof fn law_pages_hold(n: u64)
    requires
        n <= 0x7fff_ffff_ffff_ffff,
    ensures
        page_up(n) % 0x1000 == 0,
        n <= page_up(n) < n + 0x1000,
{
}

/// A call's stack starts at the end of the memory for it, at a multiple of sixteen.
pub proof fn law_stack_top(stack: u64)
    requires
        stack + STACK_LEN <= u64::MAX,
    ensures
        stack_top(stack) % 16 == 0,
        stack < stack_top(stack) <= stack + STACK_LEN,
        stack + STACK_LEN - stack_top(stack) < 16,
{
}

/// The load of a library from memory up to the loader's call, in a process where all works. Each
/// operation works with what the ones before it gave: the file that was made is filled with the
/// buffer that the library was copied to and handed to the loader, the call returns to the page
/// with the break on the stack that was made for it.
pub proof fn law_memory_load_runs(
    page: u64,
    libc: u64,
    len: u64,
    fd: u64,
    buf: u64,
    brk: u64,
    stack: u64,
    func: u64,
) -> (s: MemoryLoad)
    requires
        0 < len <= i64::MAX,
        fd <= u32::MAX,
        !is_bad_map(buf),
        !is_bad_map(brk),
        !is_bad_map(stack),
        func != 0,
        libc != 0,
        page <= u64::MAX - 0x1000,
    ensures
        ({
            let s0 = MemoryLoad {
                phase: MemoryPhase::Reading,
                page,
                libc,
                len: 0,
                fd: 0,
                buf: 0,
                off: 0,
                brk: 0,
                stack: 0,
                func: 0,
                own: false,
                outcome: MemoryOutcome::Loaded(0),
            };
            let s1 = s0.after(Answer::Value(len));
            let s2 = s1.after(Answer::Value(0));
            let s3 = s2.after(Answer::Value(0));
            let s4 = s3.after(Answer::Value(fd));
            let s5 = s4.after(Answer::Value(buf));
            let s6 = s5.after(Answer::Value(0));
            let s7 = s6.after(Answer::Value(len));
            let s8 = s7.after(Answer::Value(0));
            let s9 = s8.after(Answer::Value(0));
            let s10 = s9.after(Answer::Value(0));
            let s11 = s10.after(Answer::Value(brk));
            let s12 = s11.after(Answer::Value(0));
            let s13 = s12.after(Answer::Value(0));
            let s14 = s13.after(Answer::Value(stack));
            let s15 = s14.after(Answer::Value(func));
            &&& s0.due() is ReadLibrary
            &&& s1.due() == (MemoryOp::Protect { addr: page, run: false })
            &&& s2.due() == (MemoryOp::WriteName { addr: page })
            &&& s3.due() == (MemoryOp::CreateFile { name: page })
            &&& s4.due() == (MemoryOp::NewMemory { len: page_up(len) })
            &&& s5.due() == (MemoryOp::WriteLibrary { addr: buf })
            &&& s6.due() == (MemoryOp::WriteFile { fd, addr: buf, len })
            &&& s7.due() == (MemoryOp::Rewind { fd })
            &&& s8.due() == (MemoryOp::WriteName { addr: page })
            &&& s9.due() matches MemoryOp::WriteInfo { addr: info_addr, info }
            &&& info.fd == fd
            &&& info.namespace == 0
            &&& s10.due() == (MemoryOp::NewMemory { len: 0x1000 })
            &&& s11.due() == (MemoryOp::WriteBreak { addr: brk })
            &&& s12.due() == (MemoryOp::Protect { addr: brk, run: true })
            &&& s13.due() == (MemoryOp::NewMemory { len: STACK_LEN })
            &&& s14.due() is ResolveLoader
            &&& s15.due() == (MemoryOp::Call {
                func,
                name: page,
                info_addr,
                caller: Some(libc),
                lr: brk,
                sp: stack_top(stack),
            })
            &&& page < info_addr < page + 0x1000
            &&& s == s15
        }),
{
    let s0 = MemoryLoad {
        phase: MemoryPhase::Reading,
        page,
        libc,
        len: 0,
        fd: 0,
        buf: 0,
        off: 0,
        brk: 0,
        stack: 0,
        func: 0,
        own: false,
        outcome: MemoryOutcome::Loaded(0),
    };
    assert(signed64(fd) == fd);
    assert(signed64(len) == len);
    let s4 = s0.after(Answer::Value(len)).after(Answer::Value(0)).after(Answer::Value(0)).after(
        Answer::Value(fd),
    );
    let s8 = s4.after(Answer::Value(buf)).after(Answer::Value(0)).after(Answer::Value(len)).after(
        Answer::Value(0),
    );
    let s12 = s8.after(Answer::Value(0)).after(Answer::Value(0)).after(Answer::Value(brk)).after(
        Answer::Value(0),
    );
    s12.after(Answer::Value(0)).after(Answer::Value(stack)).after(Answer::Value(func))
}

/// The handle that the loader gives is the outcome of a load from memory, once its file is
/// closed; anything else that it gives is not, and its last error is asked for first.
pub proof fn law_memory_handle_is_the_outcome(s: MemoryLoad, v: u64, a: Answer, b: Answer)
    requires
        s.due() is Call,
    ensures
        is_handle(v) ==> {
            let t = s.after(Answer::Value(v));
            &&& t.due() == (MemoryOp::Close { fd: s.fd })
            &&& t.after(a).due() == MemoryOp::Finish(MemoryOutcome::Loaded(v))
        },
        !is_handle(v) ==> {
            let t = s.after(Answer::Value(v));
            &&& t.due() is LastError
            &&& t.after(a).due() == (MemoryOp::Close { fd: s.fd })
            &&& t.after(a).after(b).due() == MemoryOp::Finish(
                MemoryOutcome::Failed(MemoryReason::NoHandle(v)),
            )
        },
{
}

/// Where the loader's own function is not there, the one for everyone is called, without the
/// address of a caller.
pub proof fn law_memory_load_by_the_other_function(s: MemoryLoad, func: u64)
    requires
        s.due() is ResolveLoader,
        func != 0,
    ensures
        s.after(Answer::Missing).due() is ResolvePlain,
        s.after(Answer::Missing).after(Answer::Value(func)).due() matches MemoryOp::Call {
            func: f,
            caller,
            ..
        } && f == func && caller is None,
{
}

/// The load of a library in a name space of its own, in a process where all works: the space that
/// was made is the one that the loader is told of, and what the loader gives is the outcome.
pub proof fn law_space_load_runs(
    page: u64,
    libc: u64,
    create: u64,
    load: u64,
    space: u64,
    h: u64,
)
    requires
        create != 0,
        load != 0,
        space != 0,
        page <= u64::MAX - 0x1000,
    ensures
        ({
            let s0 = SpaceLoad {
                phase: SpacePhase::ResolvingCreate,
                page,
                libc,
                create: 0,
                create_own: false,
                load: 0,
                load_own: false,
                namespace: 0,
                outcome: None,
            };
            let s1 = s0.after(Answer::Value(create));
            let s2 = s1.after(Answer::Value(load));
            let s3 = s2.after(Answer::Value(0));
            let s4 = s3.after(Answer::Value(0));
            let s5 = s4.after(Answer::Value(space));
            let s6 = s5.after(Answer::Value(0));
            let s7 = s6.after(Answer::Value(h));
            &&& s0.due() is ResolveCreate
            &&& s1.due() is ResolveLoad
            &&& s2.due() matches SpaceOp::WriteName { addr: name }
            &&& s3.due() matches SpaceOp::WriteSearch { addr: dir }
            &&& s4.due() == (SpaceOp::Create { func: create, name, dir, caller: Some(libc) })
            &&& s5.due() matches SpaceOp::WriteInfo { addr: info_addr, info }
            &&& info.namespace == space
            &&& s6.due() == (SpaceOp::Load { func: load, path: page, info_addr, caller: Some(libc) })
            &&& s7.due() == SpaceOp::Finish(Some(h))
            &&& page < name < dir < info_addr < page + 0x1000
        }),
{
}

/// A name space that could not be made ends the load without a handle.
pub proof fn law_no_space_no_load(s: SpaceLoad, a: Answer)
    requires
        s.due() is Create,
    ensures
        s.after(Answer::Value(0)).due() is LastError,
        s.after(Answer::Value(0)).after(a).due() == SpaceOp::Finish(Some(0)),
        s.after(Answer::Fault).due() == SpaceOp::Finish(None),
{
}

/// The address of a function in a library is its offset in the file behind the load address.
pub proof fn law_function_address(base: u64, image: &[u8], name: &str, r: Lookup, off: Lookup)
    requires
        call_ensures(resolve_elf_symbol, (base, image, name), r),
        call_ensures(find_dynsym_offset, (image, name), off),
    ensures
        off matches Lookup::At(n) ==> (r matches Lookup::At(a) && (a - base - n)
            % 0x1_0000_0000_0000_0000 == 0),
        off !is At ==> r == off,
{
    if let Lookup::At(n) = off {
        let a = r->At_0;
        assert(a == (base + n) % 0x1_0000_0000_0000_0000);
    }
}

/// The label that is found in a listing is its first word that is one.
pub proof fn law_label_is_the_first(listing: &str, r: Option<String>)
    requires
        call_ensures(selinux_context, (listing,), r),
    ensures
        r matches Some(s) ==> exists|k: int|
            {
                &&& 0 <= k < words_of(listing@).len()
                &&& #[trigger] words_of(listing@)[k] == s@
                &&& is_label(s@)
                &&& forall|j: int| 0 <= j < k ==> !is_label(#[trigger] words_of(listing@)[j])
            },
        r is None ==> forall|j: int|
            0 <= j < words_of(listing@).len() ==> !is_label(#[trigger] words_of(listing@)[j]),
{
    lemma_label_from(words_of(listing@), 0);
}

proof fn lemma_label_from(ws: Seq<Seq<char>>, i: int)
    requires
        0 <= i <= ws.len(),
        forall|j: int| 0 <= j < i ==> !is_label(#[trigger] ws[j]),
    ensures
        label_from(ws, i) matches Some(s) ==> exists|k: int|
            {
                &&& 0 <= k < ws.len()
                &&& #[trigger] ws[k] == s
                &&& is_label(s)
                &&& forall|j: int| 0 <= j < k ==> !is_label(#[trigger] ws[j])
            },
        label_from(ws, i) is None ==> forall|j: int|
            0 <= j < ws.len() ==> !is_label(#[trigger] ws[j]),
    decreases ws.len() - i,
{
    if i < ws.len() {
        if is_label(ws[i]) {
            assert(ws[i] == label_from(ws, i).unwrap());
        } else {
            lemma_label_from(ws, i + 1);
        }
    }
}

/// The path of a file in the root of a process names the process and ends with the path.
pub proof fn law_path_in_root(pid: i32, path: &str, s: String)
    requires
        call_ensures(path_in_root, (pid, path), s),
    ensures
        has_suffix(s@, path@),
        has_prefix(s@, "/proc/"@),
        ({
            let n = s@.len() - path@.len() - 5;
            integer_of(s@.subrange(6, n)) == Some(pid as int) && s@.subrange(n, n + 5) == "/root"@
        }),
{
    reveal_strlit("/proc/");
    reveal_strlit("/root");
    law_signed_reads_back(pid as int);
    let d = signed_decimal(pid as int);
    let n = s@.len() - path@.len() - 5;
    assert(s@.skip(s@.len() - path@.len()) =~= path@);
    assert(s@.take(6) =~= "/proc/"@);
    assert(s@.subrange(6, n) =~= d);
    assert(s@.subrange(n, n + 5) =~= "/root"@);
}

/// The files whose labels are tried are neighbours of the library, other than itself, and its
/// directory last.
pub proof fn law_label_donors(
    parent: &str,
    neighbours: &Vec<String>,
    path: &str,
    out: Vec<String>,
    i: int,
)
    requires
        call_ensures(label_donors, (parent, neighbours, path), out),
        parent@.len() > 0,
        0 <= i < out@.len(),
    ensures
        out@.last()@ == parent@,
        i < out@.len() - 1 ==> out@[i]@ != path@ && views(neighbours@).contains(out@[i]@),
        out@.len() <= 9,
{
    let names = crate::loaders::first_eight(views(neighbours@));
    let kept = crate::loaders::without_text(names, path@);
    lemma_without(names, path@);
    assert(views(out@) == kept.push(parent@));
    assert(views(out@)[out@.len() - 1] == out@[out@.len() - 1]@);
    if i < out@.len() - 1 {
        assert(views(out@)[i] == out@[i]@);
        assert(kept[i] == out@[i]@);
        assert(names.contains(kept[i]));
        let j = choose|j: int| 0 <= j < names.len() && names[j] == kept[i];
        assert(views(neighbours@)[j] == kept[i]);
    }
}

proof fn lemma_without(names: Seq<Seq<char>>, one: Seq<char>)
    ensures
        crate::loaders::without_text(names, one).len() <= names.len(),
        forall|i: int|
            0 <= i < crate::loaders::without_text(names, one).len() ==> (
            #[trigger] crate::loaders::without_text(names, one)[i]) != one && names.contains(
                crate::loaders::without_text(names, one)[i],
            ),
    decreases names.len(),
{
    if names.len() > 0 {
        let init = names.drop_last();
        lemma_without(init, one);
        let all = crate::loaders::without_text(names, one);
        assert forall|i: int| 0 <= i < all.len() implies (#[trigger] all[i]) != one
            && names.contains(all[i]) by {
            let kept = crate::loaders::without_text(init, one);
            if i < kept.len() {
                assert(all[i] == kept[i]);
                assert(init.contains(kept[i]));
                let j = choose|j: int| 0 <= j < init.len() && init[j] == kept[i];
                assert(names[j] == kept[i]);
            } else {
                assert(names[names.len() - 1] == all[i]);
            }
        }
    }
}

/// A load from memory that meets a failure closes its file, where it has one, and ends with what
/// it met.
pub proof fn law_memory_failures(s: MemoryLoad, v: u64, a: Answer)
    ensures
        s.due() is ReadLibrary ==> s.after(Answer::Fault).due() == MemoryOp::Finish(
            MemoryOutcome::Failed(MemoryReason::Unreadable),
        ),
        s.due() is CreateFile && v > i64::MAX ==> s.after(Answer::Value(v)).due()
            == MemoryOp::Finish(MemoryOutcome::Failed(MemoryReason::NoFile(v))),
        s.phase is MappingBuffer && is_bad_map(v) ==> s.after(Answer::Value(v)).due() == (
        MemoryOp::Close { fd: s.fd }) && s.after(Answer::Value(v)).after(a).due()
            == MemoryOp::Finish(MemoryOutcome::Failed(MemoryReason::NoBuffer(v))),
        s.due() is WriteFile && (v == 0 || v > i64::MAX) ==> s.after(Answer::Value(v)).due() == (
        MemoryOp::Close { fd: s.fd }) && s.after(Answer::Value(v)).after(a).due()
            == MemoryOp::Finish(MemoryOutcome::Failed(MemoryReason::NotWritten(s.off, v))),
        s.phase is MappingPage && is_bad_map(v) ==> s.after(Answer::Value(v)).due() == (
        MemoryOp::Close { fd: s.fd }) && s.after(Answer::Value(v)).after(a).due()
            == MemoryOp::Finish(MemoryOutcome::Failed(MemoryReason::NoPage(v))),
        s.phase is Protecting && v != 0 ==> s.after(Answer::Value(v)).due() == (MemoryOp::Close {
            fd: s.fd,
        }) && s.after(Answer::Value(v)).after(a).due() == MemoryOp::Finish(
            MemoryOutcome::Failed(MemoryReason::NotExecutable(v)),
        ),
        s.phase is MappingStack && is_bad_map(v) ==> s.after(Answer::Value(v)).due() == (
        MemoryOp::Close { fd: s.fd }) && s.after(Answer::Value(v)).after(a).due()
            == MemoryOp::Finish(MemoryOutcome::Failed(MemoryReason::NoStack(v))),
{
}

/// A file that was filled in part is filled from there on.
pub proof fn law_filling_in_parts(s: MemoryLoad, n: u64)
    requires
        s.wf(),
        s.due() is WriteFile,
        0 < n <= s.len - s.off,
        s.buf + s.len <= u64::MAX,
    ensures
        n < s.len - s.off ==> s.after(Answer::Value(n)).due() == (MemoryOp::WriteFile {
            fd: s.fd,
            addr: (s.buf + s.off + n) as u64,
            len: (s.len - s.off - n) as u64,
        }),
        n == s.len - s.off ==> s.after(Answer::Value(n)).due() == (MemoryOp::Rewind { fd: s.fd }),
{
    assert(signed64(n) == n);
}

/// What the loader's functions are called with: the path first and what it is told third, the
/// name of the space and its directories, and the caller's address last where it is asked for.
pub proof fn law_loader_arguments(
    name: u64,
    dir: u64,
    info: u64,
    caller: Option<u64>,
    made: Vec<u64>,
    loaded: Vec<u64>,
)
    requires
        call_ensures(create_args, (name, dir, caller), made),
        call_ensures(load_args, (name, info, caller), loaded),
    ensures
        made@[0] == name,
        made@[1] == dir,
        made@[2] == dir,
        made@[4] == dir,
        loaded@[0] == name,
        loaded@[2] == info,
        caller matches Some(c) ==> made@.last() == c && made@.len() == 7 && loaded@.last() == c
            && loaded@.len() == 4,
        caller is None ==> made@.len() == 6 && loaded@.len() == 3,
{
}

/// The loader's last error is the text at the address that it gives, up to the first zero.
pub proof fn law_last_error_reads_back(
    p: u64,
    answer: &Result<u64, TraceeError>,
    read: &Option<Vec<u8>>,
    s: String,
    bytes: Vec<u8>,
    k: int,
)
    requires
        call_ensures(dlerror_text, (true, answer, read), s),
        *answer == Ok::<u64, TraceeError>(p),
        p != 0,
        *read == Some(bytes),
        0 <= k < bytes@.len(),
        bytes@[k] == 0,
        forall|i: int| 0 <= i < k ==> bytes@[i] != 0,
    ensures
        s@ == utf8_lossy(bytes@.take(k)),
{
    lemma_first_zero(bytes@, 0, k);
}

proof fn lemma_first_zero(b: Seq<u8>, from: int, k: int)
    requires
        0 <= from <= k < b.len(),
        b[k] == 0,
        forall|i: int| from <= i < k ==> b[i] != 0,
    ensures
        nul_from(b, from, b.len() as int) == k,
    decreases k - from,
{
    if from < k {
        lemma_first_zero(b, from + 1, k);
    }
}

/// A name space searches the library's own directory first.
pub proof fn law_search_path(dir: &Option<String>, s: String, d: String)
    requires
        call_ensures(search_path, (dir,), s),
    ensures
        *dir == Some(d) ==> has_prefix(s@, d@.push(':')),
        has_suffix(s@, ":/system/lib64:/apex/com.android.runtime/lib64/bionic"@),
{
    reveal_strlit(":/system/lib64:/apex/com.android.runtime/lib64/bionic");
    let tail = ":/system/lib64:/apex/com.android.runtime/lib64/bionic"@;
    assert(s@.skip(s@.len() - tail.len()) =~= tail);
    if *dir == Some(d) {
        assert(s@.take(d@.len() as int + 1) =~= d@.push(':'));
    }
}

} // verus!
