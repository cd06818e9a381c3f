//! What the calls with forms of their own show, and which calls are made elsewhere.
use crate::bytes::quad_at;
use crate::logical::run_field;
use crate::remote::{
    calls, hex_of, remote_close, remote_lseek, remote_memfd_create, remote_mmap_svc,
    remote_mprotect_svc, remote_openat, remote_write, Regs,
};
use crate::split::pieces;
use crate::syscall_format::{
    address_or_hex, address_text, form_of, format_syscall_call, list_preview, vector_part,
    vector_parts, Readings,
};
use crate::syscall_laws::law_hex_reads_back;
use crate::syscall_names::call_name;
use crate::text::{decimal, has_suffix, numeral};
use crate::text_laws::{lacks, lemma_four_pieces, lemma_pieces_first};
use vstd::prelude::*;
use vstd::string::*;

verus! {

proof fn lemma_three_pieces(a: Seq<char>, b: Seq<char>, c: Seq<char>)
    requires
        lacks(a, ','),
        lacks(b, ','),
        lacks(c, ','),
    ensures
        pieces(a + seq![','] + (b + seq![','] + c), ',') == seq![a, b, c],
{
    lemma_pieces_first(c, Seq::empty(), ',');
    lemma_pieces_first(b, c, ',');
    lemma_pieces_first(a, b + seq![','] + c, ',');
    assert(seq![a] + (seq![b] + seq![c]) =~= seq![a, b, c]);
}

/// A socket call shows its domain, its type and its protocol: its three arguments in order.
pub proof fn law_socket_call_reads_back(
    mem: &Readings,
    name: &str,
    args: &[u64; 6],
    retval: Option<i64>,
    s: String,
)
    requires
        call_ensures(format_syscall_call, (mem, name, args, retval), s),
        form_of(name@) is Socket,
    ensures
        ({
            let p = pieces(s@, ',');
            &&& p.len() == 3
            &&& numeral(p[0].skip(16), 16) == Some(args@[0] as nat)
            &&& numeral(p[1].skip(8), 16) == Some(args@[1] as nat)
            &&& numeral(p[2].subrange(9, p[2].len() - 1), 16) == Some(args@[2] as nat)
        }),
{
    reveal_strlit("socket(domain=");
    reveal_strlit(", type=");
    reveal_strlit(", proto=");
    reveal_strlit(")");
    let a = "socket(domain="@ + hex_of(args@[0]);
    let b = ", type="@.skip(1) + hex_of(args@[1]);
    let c = ", proto="@.skip(1) + hex_of(args@[2]) + ")"@;
    law_hex_reads_back(args@[0]);
    law_hex_reads_back(args@[1]);
    law_hex_reads_back(args@[2]);
    assert(s@ =~= a + seq![','] + (b + seq![','] + c));
    assert(lacks(a, ',') && lacks(b, ',') && lacks(c, ','));
    lemma_three_pieces(a, b, c);
    assert(a.skip(16) =~= hex_of(args@[0]).skip(2));
    assert(b.skip(8) =~= hex_of(args@[1]).skip(2));
    assert(c.subrange(9, c.len() - 1) =~= hex_of(args@[2]).skip(2));
}

/// A seek shows its file, its offset and from where it counts.
pub proof fn law_seek_call_reads_back(
    mem: &Readings,
    name: &str,
    args: &[u64; 6],
    retval: Option<i64>,
    s: String,
)
    requires
        call_ensures(format_syscall_call, (mem, name, args, retval), s),
        form_of(name@) is Seek,
    ensures
        ({
            let p = pieces(s@, ',');
            &&& p.len() == 3
            &&& numeral(p[0].skip(8), 16) == Some(args@[0] as nat)
            &&& numeral(p[1].skip(3), 16) == Some(args@[1] as nat)
            &&& numeral(p[2].subrange(10, p[2].len() - 1), 16) == Some(args@[2] as nat)
        }),
{
    reveal_strlit("lseek(");
    reveal_strlit(", ");
    reveal_strlit(", whence=");
    reveal_strlit(")");
    let a = "lseek("@ + hex_of(args@[0]);
    let b = ", "@.skip(1) + hex_of(args@[1]);
    let c = ", whence="@.skip(1) + hex_of(args@[2]) + ")"@;
    law_hex_reads_back(args@[0]);
    law_hex_reads_back(args@[1]);
    law_hex_reads_back(args@[2]);
    assert(s@ =~= a + seq![','] + (b + seq![','] + c));
    assert(lacks(a, ',') && lacks(b, ',') && lacks(c, ','));
    lemma_three_pieces(a, b, c);
    assert(a.skip(8) =~= hex_of(args@[0]).skip(2));
    assert(b.skip(3) =~= hex_of(args@[1]).skip(2));
    assert(c.subrange(10, c.len() - 1) =~= hex_of(args@[2]).skip(2));
}

/// A futex call shows its word, its operation and its value.
pub proof fn law_futex_call_reads_back(
    mem: &Readings,
    name: &str,
    args: &[u64; 6],
    retval: Option<i64>,
    s: String,
)
    requires
        call_ensures(format_syscall_call, (mem, name, args, retval), s),
        form_of(name@) is Futex,
    ensures
        ({
            let p = pieces(s@, ',');
            &&& p.len() == 4
            &&& numeral(p[0].skip(8), 16) == Some(args@[0] as nat)
            &&& numeral(p[1].skip(6), 16) == Some(args@[1] as nat)
            &&& numeral(p[2].skip(7), 16) == Some(args@[2] as nat)
        }),
{
    reveal_strlit("futex(");
    reveal_strlit(", op=");
    reveal_strlit(", val=");
    reveal_strlit(", \u{2026})");
    let a = "futex("@ + hex_of(args@[0]);
    let b = ", op="@.skip(1) + hex_of(args@[1]);
    let c = ", val="@.skip(1) + hex_of(args@[2]);
    let d = ", \u{2026})"@.skip(1);
    law_hex_reads_back(args@[0]);
    law_hex_reads_back(args@[1]);
    law_hex_reads_back(args@[2]);
    assert(s@ =~= a + seq![','] + (b + seq![','] + (c + seq![','] + d)));
    assert(lacks(a, ',') && lacks(b, ',') && lacks(c, ',') && lacks(d, ','));
    lemma_four_pieces(a, b, c, d, ',');
    assert(a.skip(8) =~= hex_of(args@[0]).skip(2));
    assert(b.skip(6) =~= hex_of(args@[1]).skip(2));
    assert(c.skip(7) =~= hex_of(args@[2]).skip(2));
}

/// A call that makes a thread shows its five arguments in their order.
pub proof fn law_clone_call_reads_back(
    mem: &Readings,
    name: &str,
    args: &[u64; 6],
    retval: Option<i64>,
    s: String,
)
    requires
        call_ensures(format_syscall_call, (mem, name, args, retval), s),
        form_of(name@) is Clone,
    ensures
        ({
            let p = pieces(s@, ',');
            &&& p.len() == 5
            &&& numeral(p[0].skip(14), 16) == Some(args@[0] as nat)
            &&& numeral(p[1].skip(9), 16) == Some(args@[1] as nat)
            &&& numeral(p[2].skip(8), 16) == Some(args@[2] as nat)
            &&& numeral(p[3].skip(7), 16) == Some(args@[3] as nat)
            &&& numeral(p[4].subrange(8, p[4].len() - 1), 16) == Some(args@[4] as nat)
        }),
{
    let a = "clone(flags="@ + hex_of(args@[0]);
    let b = ", stack="@.skip(1) + hex_of(args@[1]);
    let c = ", ptid="@.skip(1) + hex_of(args@[2]);
    let d = ", tls="@.skip(1) + hex_of(args@[3]);
    let e = ", ctid="@.skip(1) + hex_of(args@[4]) + ")"@;
    lemma_clone_parts(args@, a, b, c, d, e);
    let p1 = a + ", stack="@ + hex_of(args@[1]);
    let p2 = p1 + ", ptid="@ + hex_of(args@[2]);
    let p3 = p2 + ", tls="@ + hex_of(args@[3]);
    assert(s@ == p3 + ", ctid="@ + hex_of(args@[4]) + ")"@);
    lemma_behind_comma(p3, ", ctid="@, hex_of(args@[4]) + ")"@);
    assert(s@ =~= p3 + ", ctid="@ + (hex_of(args@[4]) + ")"@));
    assert(e =~= ", ctid="@.skip(1) + (hex_of(args@[4]) + ")"@));
    assert(s@ == p3 + (seq![','] + e));
    lemma_behind_comma(p2, ", tls="@, hex_of(args@[3]));
    lemma_regroup(p2, d, e);
    lemma_behind_comma(p1, ", ptid="@, hex_of(args@[2]));
    lemma_regroup(p1, c, d + seq![','] + e);
    lemma_behind_comma(a, ", stack="@, hex_of(args@[1]));
    lemma_regroup(a, b, c + seq![','] + (d + seq![','] + e));
    let rest = b + seq![','] + (c + seq![','] + (d + seq![','] + e));
    assert(s@ == a + (seq![','] + rest));
    assert(a + (seq![','] + rest) =~= a + seq![','] + rest);
    lemma_four_pieces(b, c, d, e, ',');
    lemma_pieces_first(a, rest, ',');
    assert(seq![a] + seq![b, c, d, e] =~= seq![a, b, c, d, e]);
}

/// A label that starts with a comma, taken apart.
proof fn lemma_behind_comma(p: Seq<char>, label: Seq<char>, v: Seq<char>)
    requires
        label.len() > 0,
        label[0] == ',',
    ensures
        p + label + v == p + (seq![','] + (label.skip(1) + v)),
{
    assert(p + label + v =~= p + (seq![','] + (label.skip(1) + v)));
}

proof fn lemma_regroup(p: Seq<char>, x: Seq<char>, y: Seq<char>)
    ensures
        p + (seq![','] + x) + (seq![','] + y) == p + (seq![','] + (x + seq![','] + y)),
{
    assert(p + (seq![','] + x) + (seq![','] + y) =~= p + (seq![','] + (x + seq![','] + y)));
}

proof fn lemma_clone_parts(
    args: Seq<u64>,
    a: Seq<char>,
    b: Seq<char>,
    c: Seq<char>,
    d: Seq<char>,
    e: Seq<char>,
)
    requires
        a == "clone(flags="@ + hex_of(args[0]),
        b == ", stack="@.skip(1) + hex_of(args[1]),
        c == ", ptid="@.skip(1) + hex_of(args[2]),
        d == ", tls="@.skip(1) + hex_of(args[3]),
        e == ", ctid="@.skip(1) + hex_of(args[4]) + ")"@,
    ensures
        lacks(a, ',') && numeral(a.skip(14), 16) == Some(args[0] as nat),
        lacks(b, ',') && numeral(b.skip(9), 16) == Some(args[1] as nat),
        lacks(c, ',') && numeral(c.skip(8), 16) == Some(args[2] as nat),
        lacks(d, ',') && numeral(d.skip(7), 16) == Some(args[3] as nat),
        lacks(e, ',') && numeral(e.subrange(8, e.len() - 1), 16) == Some(args[4] as nat),
        ", stack="@.len() > 0 && ", stack="@[0] == ',',
        ", ptid="@.len() > 0 && ", ptid="@[0] == ',',
        ", tls="@.len() > 0 && ", tls="@[0] == ',',
        ", ctid="@.len() > 0 && ", ctid="@[0] == ',',
{
    law_hex_reads_back(args[0]);
    law_hex_reads_back(args[1]);
    law_hex_reads_back(args[2]);
    law_hex_reads_back(args[3]);
    law_hex_reads_back(args[4]);
    reveal_strlit("clone(flags=");
    reveal_strlit(", stack=");
    reveal_strlit(", ptid=");
    reveal_strlit(", tls=");
    reveal_strlit(", ctid=");
    reveal_strlit(")");
    assert(a.skip(14) =~= hex_of(args[0]).skip(2));
    assert(b.skip(9) =~= hex_of(args[1]).skip(2));
    assert(c.skip(8) =~= hex_of(args[2]).skip(2));
    assert(d.skip(7) =~= hex_of(args[3]).skip(2));
    assert(e.subrange(8, e.len() - 1) =~= hex_of(args[4]).skip(2));
}

/// A message to a peer shows the peer, from its fifth argument, and the length of its address
/// last; where there is no peer, it says so.
pub proof fn law_datagram_shows_its_peer(
    mem: &Readings,
    name: &str,
    args: &[u64; 6],
    retval: Option<i64>,
    s: String,
)
    requires
        call_ensures(format_syscall_call, (mem, name, args, retval), s),
        form_of(name@) is Datagram,
    ensures
        args@[4] == 0 ==> has_suffix(s@, ", null, "@ + hex_of(args@[5]) + ")"@),
        args@[4] >= 0x1000 && 2 <= args@[5] <= 128 ==> (mem.at(args@[4], args@[5] as int) matches Some(
            buf,
        ) ==> buf.len() >= 2 ==> has_suffix(
            s@,
            ", "@ + address_text(buf) + ", "@ + hex_of(args@[5]) + ")"@,
        )),
{
    reveal_strlit(", null, ");
    reveal_strlit(", ");
    reveal_strlit("null");
    if args@[4] == 0 {
        let tail = ", null, "@ + hex_of(args@[5]) + ")"@;
        assert(s@.skip(s@.len() - tail.len()) =~= tail);
    } else if args@[4] >= 0x1000 && 2 <= args@[5] <= 128 {
        if let Some(buf) = mem.at(args@[4], args@[5] as int) {
            if buf.len() >= 2 {
                assert(address_or_hex(*mem, args@[4], args@[5]) == address_text(buf));
                let tail = ", "@ + address_text(buf) + ", "@ + hex_of(args@[5]) + ")"@;
                assert(s@.skip(s@.len() - tail.len()) =~= tail);
            }
        }
    }
}

/// A call with a list of buffers shows the list at its second argument, and how many there are
/// last.
pub proof fn law_list_call_shows_its_list(
    mem: &Readings,
    name: &str,
    args: &[u64; 6],
    retval: Option<i64>,
    s: String,
)
    requires
        call_ensures(format_syscall_call, (mem, name, args, retval), s),
        form_of(name@) is Vector,
    ensures
        has_suffix(s@, ", "@ + decimal(args@[2] as nat) + ")"@),
        ({
            let at = name@.len() + hex_of(args@[0]).len() + 3;
            let list = list_preview(*mem, name@, args@[1], args@[2], retval);
            s@.subrange(at as int, at + list.len() as int) == list
        }),
{
    reveal_strlit("(");
    reveal_strlit(", ");
    let tail = ", "@ + decimal(args@[2] as nat) + ")"@;
    let at = name@.len() + hex_of(args@[0]).len() + 3;
    let list = list_preview(*mem, name@, args@[1], args@[2], retval);
    assert(s@.skip(s@.len() - tail.len()) =~= tail);
    assert(s@.subrange(at as int, at + list.len() as int) =~= list);
}

/// Every entry of a list of buffers that is shown is one of the list, in its order: its address
/// and its length are those that stand there.
pub proof fn law_list_entries_in_order(
    mem: Readings,
    raw: Seq<u8>,
    n: int,
    i: int,
    total: int,
    left: int,
    k: int,
) -> (take: int)
    requires
        0 <= i,
        0 <= k < vector_parts(mem, raw, n, i, total, left).len(),
    ensures
        vector_parts(mem, raw, n, i, total, left)[k] == "\u{2026}"@ || vector_parts(
            mem,
            raw,
            n,
            i,
            total,
            left,
        )[k] == vector_part(
            mem,
            quad_at(raw, 16 * (i + k)),
            quad_at(raw, 16 * (i + k) + 8),
            take,
        ),
    decreases n - i,
{
    if total >= 128 || left == 0 {
        0
    } else {
        let take = crate::syscall_format::vector_take(raw, i, total, left);
        if k == 0 {
            take
        } else {
            law_list_entries_in_order(mem, raw, n, i + 1, total + take, left - take, k - 1)
        }
    }
}

/// The system calls that are made in another process are the ones of their names.
pub proof fn law_remote_calls_by_name(
    regs: &Regs,
    svc: u64,
    a: u64,
    b: u64,
    c: u64,
    opened: Regs,
    closed: Regs,
    mapped: Regs,
    protected: Regs,
    created: Regs,
    written: Regs,
    moved: Regs,
)
    requires
        call_ensures(remote_openat, (regs, svc, a), opened),
        call_ensures(remote_close, (regs, svc, a), closed),
        call_ensures(remote_mmap_svc, (regs, svc, a, b, c), mapped),
        call_ensures(remote_mprotect_svc, (regs, svc, a, b, c), protected),
        call_ensures(remote_memfd_create, (regs, svc, a), created),
        call_ensures(remote_write, (regs, svc, a, b, c), written),
        call_ensures(remote_lseek, (regs, svc, a, b, c), moved),
    ensures
        call_name(opened.regs@[8]) == "openat"@ && opened.regs@[1] == a && opened.pc == svc,
        call_name(closed.regs@[8]) == "close"@ && closed.regs@[0] == a && closed.pc == svc,
        call_name(mapped.regs@[8]) == "mmap"@ && mapped.regs@[1] == a && mapped.regs@[2] == b
            && mapped.regs@[3] == c && mapped.pc == svc,
        call_name(protected.regs@[8]) == "mprotect"@ && protected.regs@[0] == a
            && protected.regs@[1] == b && protected.regs@[2] == c && protected.pc == svc,
        call_name(created.regs@[8]) == "memfd_create"@ && created.regs@[0] == a && created.pc
            == svc,
        call_name(written.regs@[8]) == "write"@ && written.regs@[0] == a && written.regs@[1] == b
            && written.regs@[2] == c && written.pc == svc,
        call_name(moved.regs@[8]) == "lseek"@ && moved.regs@[0] == a && moved.regs@[1] == b
            && moved.regs@[2] == c && moved.pc == svc,
{
    lemma_called(opened, *regs, svc, 56, seq![0xffff_ffff_ffff_ff9c, a, 0, 0], 1);
    lemma_called(closed, *regs, svc, 57, seq![a], 0);
    lemma_called(mapped, *regs, svc, 222, seq![0, a, b, c, u64::MAX, 0], 1);
    lemma_called(mapped, *regs, svc, 222, seq![0, a, b, c, u64::MAX, 0], 2);
    lemma_called(mapped, *regs, svc, 222, seq![0, a, b, c, u64::MAX, 0], 3);
    lemma_called(protected, *regs, svc, 226, seq![a, b, c], 0);
    lemma_called(protected, *regs, svc, 226, seq![a, b, c], 1);
    lemma_called(protected, *regs, svc, 226, seq![a, b, c], 2);
    lemma_called(created, *regs, svc, 279, seq![a, 1], 0);
    lemma_called(written, *regs, svc, 64, seq![a, b, c], 0);
    lemma_called(written, *regs, svc, 64, seq![a, b, c], 1);
    lemma_called(written, *regs, svc, 64, seq![a, b, c], 2);
    lemma_called(moved, *regs, svc, 62, seq![a, b, c], 0);
    lemma_called(moved, *regs, svc, 62, seq![a, b, c], 1);
    lemma_called(moved, *regs, svc, 62, seq![a, b, c], 2);
    lemma_names();
}

proof fn lemma_called(r: Regs, regs: Regs, svc: u64, nr: u64, args: Seq<u64>, k: int)
    requires
        calls(r, regs, svc, nr, args),
        0 <= k < args.len() <= 6,
    ensures
        r.pc == svc,
        r.regs@[8] == nr,
        r.regs@[k] == args[k],
{
}

proof fn lemma_names()
    ensures
        call_name(56) == "openat"@,
        call_name(57) == "close"@,
        call_name(62) == "lseek"@,
        call_name(64) == "write"@,
        call_name(222) == "mmap"@,
        call_name(226) == "mprotect"@,
        call_name(279) == "memfd_create"@,
{
}

/// The size of the pattern that the field of a logical immediate stands for, as the processor
/// reads it.
pub open spec fn pattern_size(enc: int) -> int {
    let low = enc % 64;
    if enc / 0x1000 == 1 {
        64
    } else if low < 32 {
        32
    } else if low < 48 {
        16
    } else if low < 56 {
        8
    } else if low < 60 {
        4
    } else {
        2
    }
}

/// The field of a logical immediate gives back the size of its pattern, how many ones are in it
/// and how far it is turned.
pub proof fn law_logical_field_reads_back(e: u32, len: u32, rot: u32)
    requires
        crate::logical::is_elem_size(e),
        1 <= len < e,
        rot < e,
    ensures
        ({
            let enc = run_field(e, len, rot) as int;
            &&& pattern_size(enc) == e
            &&& (enc % 64) % (e as int) == len - 1
            &&& (enc / 64) % 64 == rot
        }),
{
    let enc = run_field(e, len, rot) as int;
    let n = if e == 64 {
        0x1000int
    } else {
        0
    };
    let size = if e == 64 {
        0int
    } else {
        64 - 2 * e
    };
    let low = size + (len - 1);
    assert(enc == n + rot * 64 + low);
    assert(0 <= low < 64);
    assert(enc % 64 == low);
    assert(enc / 64 == n / 64 + rot);
    assert(enc / 0x1000 == n / 0x1000);
    if e == 2 {
        assert(low % 2 == len - 1);
    } else if e == 4 {
        assert(low % 4 == len - 1);
    } else if e == 8 {
        assert(low % 8 == len - 1);
    } else if e == 16 {
        assert(low % 16 == len - 1);
    } else if e == 32 {
        assert(low % 32 == len - 1);
    } else {
        assert(low % 64 == len - 1);
    }
}

} // verus!
