//! What holds of the names of system calls.
use crate::syscall_names::{call_name, numbered, table_name};
use crate::text::{decimal, digit};
use vstd::prelude::*;
use vstd::string::*;

verus! {

/// No two system calls have the same name, and none has an empty one. One that is not in the
/// table has `sys_` and its number.
pub proof fn law_names_are_distinct(a: u64, b: u64)
    ensures
        a != b ==> call_name(a) != call_name(b),
        call_name(a).len() > 0,
        table_name(a) is None ==> call_name(a) == "sys_"@ + decimal(a as nat),
{
    lemma_reads_back(a);
    lemma_reads_back(b);
    lemma_numbered(a);
    lemma_numbered(b);
    reveal(reads);
    if call_name(a) == call_name(b) && table_name(a) is None && table_name(b) is None {
        assert(numbered(a).skip(4) =~= decimal(a as nat));
        assert(numbered(b).skip(4) =~= decimal(b as nat));
        lemma_decimal_injective(a as nat, b as nat);
    }
}

/// Whether a text starts as the names that hold a number do.
spec fn has_number(s: Seq<char>) -> bool {
    s.len() > 4 && s[0] == 's' && s[1] == 'y' && s[2] == 's' && s[3] == '_'
}

proof fn lemma_numbered(nr: u64)
    ensures
        has_number(numbered(nr)),
        numbered(nr).len() == 4 + decimal(nr as nat).len(),
{
    reveal_strlit("sys_");
    lemma_decimal_len(nr as nat);
}

proof fn lemma_decimal_len(n: nat)
    ensures
        decimal(n).len() > 0,
        n >= 10 ==> decimal(n).len() > 1,
    decreases n,
{
    if n >= 10 {
        lemma_decimal_len(n / 10);
    }
}

proof fn lemma_decimal_injective(a: nat, b: nat)
    requires
        decimal(a) == decimal(b),
    ensures
        a == b,
    decreases a,
{
    lemma_decimal_len(a);
    lemma_decimal_len(b);
    assert(decimal(a).last() == digit(a % 10));
    assert(decimal(b).last() == digit(b % 10));
    if a >= 10 && b >= 10 {
        assert(decimal(a).drop_last() =~= decimal(a / 10));
        assert(decimal(b).drop_last() =~= decimal(b / 10));
        lemma_decimal_injective(a / 10, b / 10);
    }
}

/// Whether a name is one that its number can be told from.
#[verifier::opaque]
spec fn reads(s: Seq<char>, nr: u64) -> bool {
    s.len() > 0 && !has_number(s) && number_of(s) == nr
}

/// The number of the name in the table that has these characters.
spec fn number_of(s: Seq<char>) -> u64 {
    if s.len() == 3 {
        of_length_3(s)
    } else if s.len() == 4 {
        of_length_4(s)
    } else if s.len() == 5 {
        of_length_5(s)
    } else if s.len() == 6 {
        of_length_6(s)
    } else if s.len() == 7 {
        of_length_7(s)
    } else if s.len() == 8 {
        of_length_8(s)
    } else if s.len() == 9 {
        of_length_9(s)
    } else if s.len() == 10 {
        of_length_10(s)
    } else if s.len() == 11 {
        of_length_11(s)
    } else if s.len() == 12 {
        of_length_12(s)
    } else if s.len() == 13 {
        of_length_13(s)
    } else if s.len() == 14 {
        of_length_14(s)
    } else if s.len() == 15 {
        of_length_15(s)
    } else if s.len() == 16 {
        of_length_16(s)
    } else if s.len() == 17 {
        of_length_17(s)
    } else if s.len() == 18 {
        of_length_18(s)
    } else if s.len() == 21 {
        127
    } else if s.len() == 22 {
        of_length_22(s)
    } else {
        450
    }
}

/// The number of a name of 3 characters, told by as few of them as it takes.
spec fn of_length_3(s: Seq<char>) -> u64 {
    if s[0] == 'd' {
        23
    } else if s[1] == 'r' {
        214
    } else {
        280
    }
}

/// The number of a name of 4 characters, told by as few of them as it takes.
spec fn of_length_4(s: Seq<char>) -> u64 {
    if s[0] == 'd' {
        24
    } else if s[0] == 's' {
        81
    } else if s[0] == 'e' {
        93
    } else if s[0] == 'b' {
        200
    } else if s[0] == 'm' {
        222
    } else if s[1] == 'e' {
        63
    } else if s[0] == 'r' {
        293
    } else if s[1] == 'i' {
        129
    } else {
        272
    }
}

/// The number of a name of 5 characters, told by as few of them as it takes.
spec fn of_length_5(s: Seq<char>) -> u64 {
    if s[0] == 'i' {
        29
    } else if s[0] == 'l' {
        62
    } else if s[0] == 'r' {
        65
    } else if s[1] == 'c' {
        25
    } else if s[1] == 'h' {
        49
    } else if s[1] == 'p' {
        73
    } else if s[1] == 'u' {
        98
    } else if s[1] == 'k' {
        130
    } else if s[0] == 't' {
        153
    } else if s[1] == 'i' {
        59
    } else if s[0] == 'p' {
        167
    } else if s[1] == 'r' {
        64
    } else if s[0] == 'w' {
        260
    } else if s[1] == 'n' {
        160
    } else if s[0] == 'u' {
        166
    } else if s[1] == 'b' {
        235
    } else if s[1] == 'e' {
        268
    } else if s[0] == 's' {
        291
    } else if s[2] == 't' {
        80
    } else if s[3] == 's' {
        57
    } else if s[0] == 'c' {
        220
    } else if s[0] == 'f' && s[1] == 'l' {
        32
    } else if s[0] == 'f' {
        82
    } else if s[1] == 's' {
        227
    } else {
        228
    }
}

/// The number of a name of 6 characters, told by as few of them as it takes.
spec fn of_length_6(s: Seq<char>) -> u64 {
    if s[0] == 'o' {
        56
    } else if s[0] == 't' {
        131
    } else if s[0] == 'a' {
        202
    } else if s[0] == 'k' {
        219
    } else if s[0] == 'e' {
        221
    } else if s[0] == 'c' {
        435
    } else if s[1] == 'a' {
        95
    } else if s[0] == 'w' {
        66
    } else if s[1] == 'o' {
        198
    } else if s[1] == 'u' {
        215
    } else if s[1] == 'w' {
        224
    } else if s[1] == 'l' {
        284
    } else if s[0] == 'm' {
        216
    } else if s[1] == 'r' {
        69
    } else if s[0] == 'p' {
        117
    } else if s[1] == 't' {
        43
    } else if s[3] == 'k' {
        37
    } else if s[0] == 'l' {
        201
    } else if s[2] == 's' {
        116
    } else if s[1] == 'y' {
        267
    } else if s[2] == 'n' {
        206
    } else if s[3] == 'd' {
        50
    } else if s[3] == 'm' {
        52
    } else if s[0] == 'f' {
        55
    } else if s[3] == 'p' {
        172
    } else if s[3] == 't' {
        178
    } else if s[4] == 'w' {
        17
    } else if s[3] == 'c' {
        168
    } else if s[0] == 's' && s[3] == 'g' {
        144
    } else if s[3] == 'g' {
        176
    } else if s[0] == 's' && s[3] == 'u' {
        146
    } else if s[0] == 's' {
        157
    } else if s[3] == 's' {
        156
    } else {
        174
    }
}

/// The number of a name of 7 characters, told by as few of them as it takes.
spec fn of_length_7(s: Seq<char>) -> u64 {
    if s[0] == 'u' {
        97
    } else if s[0] == 'c' {
        203
    } else if s[0] == 'r' {
        212
    } else if s[0] == 'o' {
        437
    } else if s[1] == 'y' {
        179
    } else if s[1] == 'd' {
        217
    } else if s[0] == 'a' {
        242
    } else if s[1] == 'u' {
        229
    } else if s[1] == 'i' {
        232
    } else if s[1] == 'a' {
        233
    } else if s[2] == 'd' {
        34
    } else if s[0] == 'm' {
        33
    } else if s[2] == 'r' {
        70
    } else if s[1] == 'w' {
        225
    } else if s[2] == 'n' {
        211
    } else if s[2] == 'c' {
        277
    } else if s[0] == 's' {
        154
    } else if s[4] == 'p' {
        173
    } else if s[3] == 'p' {
        155
    } else if s[4] == 'u' {
        175
    } else if s[0] == 'g' {
        177
    } else if s[5] == 'f' {
        44
    } else if s[0] == 'f' {
        79
    } else if s[5] == '6' {
        67
    } else {
        286
    }
}

/// The number of a name of 8 characters, told by as few of them as it takes.
spec fn of_length_8(s: Seq<char>) -> u64 {
    if s[0] == 'i' {
        0
    } else if s[0] == 'u' {
        35
    } else if s[0] == 't' {
        45
    } else if s[1] == 'v' {
        19
    } else if s[0] == 'e' {
        281
    } else if s[1] == 's' {
        72
    } else if s[1] == 'h' {
        210
    } else if s[1] == 'p' {
        226
    } else if s[0] == 'm' {
        230
    } else if s[3] == 'a' {
        38
    } else if s[3] == 'm' {
        53
    } else if s[0] == 'f' {
        54
    } else if s[5] == 'i' {
        71
    } else if s[2] == 'n' {
        269
    } else if s[4] == 'f' {
        207
    } else if s[0] == 'r' {
        243
    } else if s[6] == '6' {
        68
    } else if s[0] == 'p' {
        287
    } else if s[3] == 'r' && s[5] == 'g' {
        143
    } else if s[3] == 'r' {
        145
    } else if s[5] == 'u' {
        151
    } else {
        152
    }
}

/// The number of a name of 9 characters, told by as few of them as it takes.
spec fn of_length_9(s: Seq<char>) -> u64 {
    if s[0] == 'e' {
        21
    } else if s[0] == 'u' {
        88
    } else if s[0] == 'n' {
        101
    } else if s[0] == 'p' {
        261
    } else if s[1] == 'y' {
        36
    } else if s[1] == 't' {
        46
    } else if s[1] == 'i' {
        74
    } else if s[1] == 'd' {
        83
    } else if s[2] == 'l' {
        47
    } else if s[2] == 'c' {
        48
    } else if s[0] == 'f' {
        223
    } else if s[2] == 'a' {
        213
    } else if s[0] == 'r' {
        276
    } else if s[3] == 's' {
        2
    } else if s[0] == 'i' {
        3
    } else if s[4] == 'u' {
        165
    } else if s[4] == 'a' {
        278
    } else if s[0] == 'g' && s[3] == 'i' {
        102
    } else if s[3] == 'i' {
        103
    } else if s[0] == 'g' && s[3] == 'g' {
        158
    } else if s[3] == 'g' {
        159
    } else if s[0] == 'g' && s[4] == 'l' {
        163
    } else if s[4] == 'l' {
        164
    } else if s[0] == 's' && s[6] == 'u' {
        147
    } else if s[0] == 's' {
        149
    } else if s[6] == 'u' {
        148
    } else {
        150
    }
}

/// The number of a name of 10 characters, told by as few of them as it takes.
spec fn of_length_10(s: Seq<char>) -> u64 {
    if s[0] == 'i' {
        1
    } else if s[0] == 'r' {
        78
    } else if s[0] == 'e' {
        94
    } else if s[0] == 'p' {
        434
    } else if s[0] == 'f' {
        439
    } else if s[1] == 'u' {
        231
    } else if s[2] == 'c' {
        199
    } else if s[0] == 's' {
        208
    } else if s[1] == 'o' {
        239
    } else if s[0] == 'm' {
        283
    } else if s[3] == 'd' {
        61
    } else {
        209
    }
}

/// The number of a name of 11 characters, told by as few of them as it takes.
spec fn of_length_11(s: Seq<char>) -> u64 {
    if s[0] == 'e' {
        22
    } else if s[0] == 'r' {
        218
    } else if s[0] == 'u' {
        282
    } else if s[0] == 'c' {
        436
    } else if s[0] == 'p' {
        438
    } else if s[1] == 'c' {
        124
    } else if s[1] == 'i' {
        132
    } else if s[0] == 's' {
        140
    } else if s[3] == 's' {
        204
    } else if s[4] == 'r' {
        141
    } else {
        205
    }
}

/// The number of a name of 12 characters, told by as few of them as it takes.
spec fn of_length_12(s: Seq<char>) -> u64 {
    if s[0] == 'i' {
        4
    } else if s[0] == 'c' {
        114
    } else if s[0] == 'g' {
        169
    } else if s[0] == 'f' {
        273
    } else if s[0] == 'e' {
        441
    } else if s[6] == 'a' {
        134
    } else if s[0] == 'r' {
        139
    } else if s[6] == 'c' {
        279
    } else {
        447
    }
}

/// The number of a name of 13 characters, told by as few of them as it takes.
spec fn of_length_13(s: Seq<char>) -> u64 {
    if s[0] == 'e' {
        20
    } else if s[0] == 'g' {
        236
    } else if s[0] == 'm' {
        238
    } else if s[0] == 'p' {
        288
    } else if s[1] == 'n' {
        26
    } else if s[0] == 'i' {
        292
    } else if s[1] == 'e' {
        237
    } else if s[6] == 'p' {
        136
    } else if s[0] == 'r' {
        133
    } else if s[6] == 'a' {
        266
    } else if s[0] == 'c' {
        113
    } else if s[6] == 's' {
        274
    } else if s[0] == 's' {
        275
    } else if s[9] == 'i' {
        262
    } else {
        263
    }
}

/// The number of a name of 14 characters, told by as few of them as it takes.
spec fn of_length_14(s: Seq<char>) -> u64 {
    if s[0] == 't' {
        85
    } else if s[0] == 'r' {
        135
    } else if s[6] == 's' {
        118
    } else {
        121
    }
}

/// The number of a name of 15 characters, told by as few of them as it takes.
spec fn of_length_15(s: Seq<char>) -> u64 {
    if s[0] == 'g' {
        100
    } else if s[0] == 'p' {
        241
    } else if s[1] == 'l' {
        115
    } else if s[0] == 'c' {
        285
    } else if s[2] == 's' {
        128
    } else if s[4] == 't' {
        96
    } else if s[0] == 's' {
        99
    } else if s[6] == 't' {
        137
    } else if s[0] == 'r' {
        138
    } else if s[8] == 's' {
        86
    } else {
        87
    }
}

/// The number of a name of 16 characters, told by as few of them as it takes.
spec fn of_length_16(s: Seq<char>) -> u64 {
    if s[0] == 'i' {
        28
    } else if s[0] == 'r' {
        234
    } else {
        270
    }
}

/// The number of a name of 17 characters, told by as few of them as it takes.
spec fn of_length_17(s: Seq<char>) -> u64 {
    if s[0] == 'i' {
        27
    } else if s[0] == 'r' {
        240
    } else if s[0] == 'n' {
        264
    } else if s[0] == 'o' {
        265
    } else if s[1] == 'r' {
        271
    } else if s[0] == 'p' {
        424
    } else if s[6] == 's' {
        122
    } else {
        123
    }
}

/// The number of a name of 18 characters, told by as few of them as it takes.
spec fn of_length_18(s: Seq<char>) -> u64 {
    if s[6] == 's' {
        119
    } else {
        120
    }
}

/// The number of a name of 22 characters, told by as few of them as it takes.
spec fn of_length_22(s: Seq<char>) -> u64 {
    if s[20] == 'a' {
        125
    } else {
        126
    }
}

proof fn lemma_reads_back_0(nr: u64)
    requires
        0 <= nr <= 28,
    ensures
        table_name(nr) matches Some(s) ==> reads(s, nr),
{
    reveal(reads);
    assert(reads("io_setup"@, 0)) by {
        reveal_strlit("io_setup");
    }
    assert(reads("io_destroy"@, 1)) by {
        reveal_strlit("io_destroy");
    }
    assert(reads("io_submit"@, 2)) by {
        reveal_strlit("io_submit");
    }
    assert(reads("io_cancel"@, 3)) by {
        reveal_strlit("io_cancel");
    }
    assert(reads("io_getevents"@, 4)) by {
        reveal_strlit("io_getevents");
    }
    assert(reads("getcwd"@, 17)) by {
        reveal_strlit("getcwd");
    }
    assert(reads("eventfd2"@, 19)) by {
        reveal_strlit("eventfd2");
    }
    assert(reads("epoll_create1"@, 20)) by {
        reveal_strlit("epoll_create1");
    }
    assert(reads("epoll_ctl"@, 21)) by {
        reveal_strlit("epoll_ctl");
    }
    assert(reads("epoll_pwait"@, 22)) by {
        reveal_strlit("epoll_pwait");
    }
    assert(reads("dup"@, 23)) by {
        reveal_strlit("dup");
    }
    assert(reads("dup3"@, 24)) by {
        reveal_strlit("dup3");
    }
    assert(reads("fcntl"@, 25)) by {
        reveal_strlit("fcntl");
    }
    assert(reads("inotify_init1"@, 26)) by {
        reveal_strlit("inotify_init1");
    }
    assert(reads("inotify_add_watch"@, 27)) by {
        reveal_strlit("inotify_add_watch");
    }
    assert(reads("inotify_rm_watch"@, 28)) by {
        reveal_strlit("inotify_rm_watch");
    }
}

proof fn lemma_reads_back_1(nr: u64)
    requires
        29 <= nr <= 50,
    ensures
        table_name(nr) matches Some(s) ==> reads(s, nr),
{
    reveal(reads);
    assert(reads("ioctl"@, 29)) by {
        reveal_strlit("ioctl");
    }
    assert(reads("flock"@, 32)) by {
        reveal_strlit("flock");
    }
    assert(reads("mknodat"@, 33)) by {
        reveal_strlit("mknodat");
    }
    assert(reads("mkdirat"@, 34)) by {
        reveal_strlit("mkdirat");
    }
    assert(reads("unlinkat"@, 35)) by {
        reveal_strlit("unlinkat");
    }
    assert(reads("symlinkat"@, 36)) by {
        reveal_strlit("symlinkat");
    }
    assert(reads("linkat"@, 37)) by {
        reveal_strlit("linkat");
    }
    assert(reads("renameat"@, 38)) by {
        reveal_strlit("renameat");
    }
    assert(reads("statfs"@, 43)) by {
        reveal_strlit("statfs");
    }
    assert(reads("fstatfs"@, 44)) by {
        reveal_strlit("fstatfs");
    }
    assert(reads("truncate"@, 45)) by {
        reveal_strlit("truncate");
    }
    assert(reads("ftruncate"@, 46)) by {
        reveal_strlit("ftruncate");
    }
    assert(reads("fallocate"@, 47)) by {
        reveal_strlit("fallocate");
    }
    assert(reads("faccessat"@, 48)) by {
        reveal_strlit("faccessat");
    }
    assert(reads("chdir"@, 49)) by {
        reveal_strlit("chdir");
    }
    assert(reads("fchdir"@, 50)) by {
        reveal_strlit("fchdir");
    }
}

proof fn lemma_reads_back_2(nr: u64)
    requires
        52 <= nr <= 69,
    ensures
        table_name(nr) matches Some(s) ==> reads(s, nr),
{
    reveal(reads);
    assert(reads("fchmod"@, 52)) by {
        reveal_strlit("fchmod");
    }
    assert(reads("fchmodat"@, 53)) by {
        reveal_strlit("fchmodat");
    }
    assert(reads("fchownat"@, 54)) by {
        reveal_strlit("fchownat");
    }
    assert(reads("fchown"@, 55)) by {
        reveal_strlit("fchown");
    }
    assert(reads("openat"@, 56)) by {
        reveal_strlit("openat");
    }
    assert(reads("close"@, 57)) by {
        reveal_strlit("close");
    }
    assert(reads("pipe2"@, 59)) by {
        reveal_strlit("pipe2");
    }
    assert(reads("getdents64"@, 61)) by {
        reveal_strlit("getdents64");
    }
    assert(reads("lseek"@, 62)) by {
        reveal_strlit("lseek");
    }
    assert(reads("read"@, 63)) by {
        reveal_strlit("read");
    }
    assert(reads("write"@, 64)) by {
        reveal_strlit("write");
    }
    assert(reads("readv"@, 65)) by {
        reveal_strlit("readv");
    }
    assert(reads("writev"@, 66)) by {
        reveal_strlit("writev");
    }
    assert(reads("pread64"@, 67)) by {
        reveal_strlit("pread64");
    }
    assert(reads("pwrite64"@, 68)) by {
        reveal_strlit("pwrite64");
    }
    assert(reads("preadv"@, 69)) by {
        reveal_strlit("preadv");
    }
}

proof fn lemma_reads_back_3(nr: u64)
    requires
        70 <= nr <= 93,
    ensures
        table_name(nr) matches Some(s) ==> reads(s, nr),
{
    reveal(reads);
    assert(reads("pwritev"@, 70)) by {
        reveal_strlit("pwritev");
    }
    assert(reads("sendfile"@, 71)) by {
        reveal_strlit("sendfile");
    }
    assert(reads("pselect6"@, 72)) by {
        reveal_strlit("pselect6");
    }
    assert(reads("ppoll"@, 73)) by {
        reveal_strlit("ppoll");
    }
    assert(reads("signalfd4"@, 74)) by {
        reveal_strlit("signalfd4");
    }
    assert(reads("readlinkat"@, 78)) by {
        reveal_strlit("readlinkat");
    }
    assert(reads("fstatat"@, 79)) by {
        reveal_strlit("fstatat");
    }
    assert(reads("fstat"@, 80)) by {
        reveal_strlit("fstat");
    }
    assert(reads("sync"@, 81)) by {
        reveal_strlit("sync");
    }
    assert(reads("fsync"@, 82)) by {
        reveal_strlit("fsync");
    }
    assert(reads("fdatasync"@, 83)) by {
        reveal_strlit("fdatasync");
    }
    assert(reads("timerfd_create"@, 85)) by {
        reveal_strlit("timerfd_create");
    }
    assert(reads("timerfd_settime"@, 86)) by {
        reveal_strlit("timerfd_settime");
    }
    assert(reads("timerfd_gettime"@, 87)) by {
        reveal_strlit("timerfd_gettime");
    }
    assert(reads("utimensat"@, 88)) by {
        reveal_strlit("utimensat");
    }
    assert(reads("exit"@, 93)) by {
        reveal_strlit("exit");
    }
}

proof fn lemma_reads_back_4(nr: u64)
    requires
        94 <= nr <= 118,
    ensures
        table_name(nr) matches Some(s) ==> reads(s, nr),
{
    reveal(reads);
    assert(reads("exit_group"@, 94)) by {
        reveal_strlit("exit_group");
    }
    assert(reads("waitid"@, 95)) by {
        reveal_strlit("waitid");
    }
    assert(reads("set_tid_address"@, 96)) by {
        reveal_strlit("set_tid_address");
    }
    assert(reads("unshare"@, 97)) by {
        reveal_strlit("unshare");
    }
    assert(reads("futex"@, 98)) by {
        reveal_strlit("futex");
    }
    assert(reads("set_robust_list"@, 99)) by {
        reveal_strlit("set_robust_list");
    }
    assert(reads("get_robust_list"@, 100)) by {
        reveal_strlit("get_robust_list");
    }
    assert(reads("nanosleep"@, 101)) by {
        reveal_strlit("nanosleep");
    }
    assert(reads("getitimer"@, 102)) by {
        reveal_strlit("getitimer");
    }
    assert(reads("setitimer"@, 103)) by {
        reveal_strlit("setitimer");
    }
    assert(reads("clock_gettime"@, 113)) by {
        reveal_strlit("clock_gettime");
    }
    assert(reads("clock_getres"@, 114)) by {
        reveal_strlit("clock_getres");
    }
    assert(reads("clock_nanosleep"@, 115)) by {
        reveal_strlit("clock_nanosleep");
    }
    assert(reads("syslog"@, 116)) by {
        reveal_strlit("syslog");
    }
    assert(reads("ptrace"@, 117)) by {
        reveal_strlit("ptrace");
    }
    assert(reads("sched_setparam"@, 118)) by {
        reveal_strlit("sched_setparam");
    }
}

proof fn lemma_reads_back_5(nr: u64)
    requires
        119 <= nr <= 134,
    ensures
        table_name(nr) matches Some(s) ==> reads(s, nr),
{
    reveal(reads);
    assert(reads("sched_setscheduler"@, 119)) by {
        reveal_strlit("sched_setscheduler");
    }
    assert(reads("sched_getscheduler"@, 120)) by {
        reveal_strlit("sched_getscheduler");
    }
    assert(reads("sched_getparam"@, 121)) by {
        reveal_strlit("sched_getparam");
    }
    assert(reads("sched_setaffinity"@, 122)) by {
        reveal_strlit("sched_setaffinity");
    }
    assert(reads("sched_getaffinity"@, 123)) by {
        reveal_strlit("sched_getaffinity");
    }
    assert(reads("sched_yield"@, 124)) by {
        reveal_strlit("sched_yield");
    }
    assert(reads("sched_get_priority_max"@, 125)) by {
        reveal_strlit("sched_get_priority_max");
    }
    assert(reads("sched_get_priority_min"@, 126)) by {
        reveal_strlit("sched_get_priority_min");
    }
    assert(reads("sched_rr_get_interval"@, 127)) by {
        reveal_strlit("sched_rr_get_interval");
    }
    assert(reads("restart_syscall"@, 128)) by {
        reveal_strlit("restart_syscall");
    }
    assert(reads("kill"@, 129)) by {
        reveal_strlit("kill");
    }
    assert(reads("tkill"@, 130)) by {
        reveal_strlit("tkill");
    }
    assert(reads("tgkill"@, 131)) by {
        reveal_strlit("tgkill");
    }
    assert(reads("sigaltstack"@, 132)) by {
        reveal_strlit("sigaltstack");
    }
    assert(reads("rt_sigsuspend"@, 133)) by {
        reveal_strlit("rt_sigsuspend");
    }
    assert(reads("rt_sigaction"@, 134)) by {
        reveal_strlit("rt_sigaction");
    }
}

proof fn lemma_reads_back_6(nr: u64)
    requires
        135 <= nr <= 151,
    ensures
        table_name(nr) matches Some(s) ==> reads(s, nr),
{
    reveal(reads);
    assert(reads("rt_sigprocmask"@, 135)) by {
        reveal_strlit("rt_sigprocmask");
    }
    assert(reads("rt_sigpending"@, 136)) by {
        reveal_strlit("rt_sigpending");
    }
    assert(reads("rt_sigtimedwait"@, 137)) by {
        reveal_strlit("rt_sigtimedwait");
    }
    assert(reads("rt_sigqueueinfo"@, 138)) by {
        reveal_strlit("rt_sigqueueinfo");
    }
    assert(reads("rt_sigreturn"@, 139)) by {
        reveal_strlit("rt_sigreturn");
    }
    assert(reads("setpriority"@, 140)) by {
        reveal_strlit("setpriority");
    }
    assert(reads("getpriority"@, 141)) by {
        reveal_strlit("getpriority");
    }
    assert(reads("setregid"@, 143)) by {
        reveal_strlit("setregid");
    }
    assert(reads("setgid"@, 144)) by {
        reveal_strlit("setgid");
    }
    assert(reads("setreuid"@, 145)) by {
        reveal_strlit("setreuid");
    }
    assert(reads("setuid"@, 146)) by {
        reveal_strlit("setuid");
    }
    assert(reads("setresuid"@, 147)) by {
        reveal_strlit("setresuid");
    }
    assert(reads("getresuid"@, 148)) by {
        reveal_strlit("getresuid");
    }
    assert(reads("setresgid"@, 149)) by {
        reveal_strlit("setresgid");
    }
    assert(reads("getresgid"@, 150)) by {
        reveal_strlit("getresgid");
    }
    assert(reads("setfsuid"@, 151)) by {
        reveal_strlit("setfsuid");
    }
}

proof fn lemma_reads_back_7(nr: u64)
    requires
        152 <= nr <= 169,
    ensures
        table_name(nr) matches Some(s) ==> reads(s, nr),
{
    reveal(reads);
    assert(reads("setfsgid"@, 152)) by {
        reveal_strlit("setfsgid");
    }
    assert(reads("times"@, 153)) by {
        reveal_strlit("times");
    }
    assert(reads("setpgid"@, 154)) by {
        reveal_strlit("setpgid");
    }
    assert(reads("getpgid"@, 155)) by {
        reveal_strlit("getpgid");
    }
    assert(reads("getsid"@, 156)) by {
        reveal_strlit("getsid");
    }
    assert(reads("setsid"@, 157)) by {
        reveal_strlit("setsid");
    }
    assert(reads("getgroups"@, 158)) by {
        reveal_strlit("getgroups");
    }
    assert(reads("setgroups"@, 159)) by {
        reveal_strlit("setgroups");
    }
    assert(reads("uname"@, 160)) by {
        reveal_strlit("uname");
    }
    assert(reads("getrlimit"@, 163)) by {
        reveal_strlit("getrlimit");
    }
    assert(reads("setrlimit"@, 164)) by {
        reveal_strlit("setrlimit");
    }
    assert(reads("getrusage"@, 165)) by {
        reveal_strlit("getrusage");
    }
    assert(reads("umask"@, 166)) by {
        reveal_strlit("umask");
    }
    assert(reads("prctl"@, 167)) by {
        reveal_strlit("prctl");
    }
    assert(reads("getcpu"@, 168)) by {
        reveal_strlit("getcpu");
    }
    assert(reads("gettimeofday"@, 169)) by {
        reveal_strlit("gettimeofday");
    }
}

proof fn lemma_reads_back_8(nr: u64)
    requires
        172 <= nr <= 205,
    ensures
        table_name(nr) matches Some(s) ==> reads(s, nr),
{
    reveal(reads);
    assert(reads("getpid"@, 172)) by {
        reveal_strlit("getpid");
    }
    assert(reads("getppid"@, 173)) by {
        reveal_strlit("getppid");
    }
    assert(reads("getuid"@, 174)) by {
        reveal_strlit("getuid");
    }
    assert(reads("geteuid"@, 175)) by {
        reveal_strlit("geteuid");
    }
    assert(reads("getgid"@, 176)) by {
        reveal_strlit("getgid");
    }
    assert(reads("getegid"@, 177)) by {
        reveal_strlit("getegid");
    }
    assert(reads("gettid"@, 178)) by {
        reveal_strlit("gettid");
    }
    assert(reads("sysinfo"@, 179)) by {
        reveal_strlit("sysinfo");
    }
    assert(reads("socket"@, 198)) by {
        reveal_strlit("socket");
    }
    assert(reads("socketpair"@, 199)) by {
        reveal_strlit("socketpair");
    }
    assert(reads("bind"@, 200)) by {
        reveal_strlit("bind");
    }
    assert(reads("listen"@, 201)) by {
        reveal_strlit("listen");
    }
    assert(reads("accept"@, 202)) by {
        reveal_strlit("accept");
    }
    assert(reads("connect"@, 203)) by {
        reveal_strlit("connect");
    }
    assert(reads("getsockname"@, 204)) by {
        reveal_strlit("getsockname");
    }
    assert(reads("getpeername"@, 205)) by {
        reveal_strlit("getpeername");
    }
}

proof fn lemma_reads_back_9(nr: u64)
    requires
        206 <= nr <= 221,
    ensures
        table_name(nr) matches Some(s) ==> reads(s, nr),
{
    reveal(reads);
    assert(reads("sendto"@, 206)) by {
        reveal_strlit("sendto");
    }
    assert(reads("recvfrom"@, 207)) by {
        reveal_strlit("recvfrom");
    }
    assert(reads("setsockopt"@, 208)) by {
        reveal_strlit("setsockopt");
    }
    assert(reads("getsockopt"@, 209)) by {
        reveal_strlit("getsockopt");
    }
    assert(reads("shutdown"@, 210)) by {
        reveal_strlit("shutdown");
    }
    assert(reads("sendmsg"@, 211)) by {
        reveal_strlit("sendmsg");
    }
    assert(reads("recvmsg"@, 212)) by {
        reveal_strlit("recvmsg");
    }
    assert(reads("readahead"@, 213)) by {
        reveal_strlit("readahead");
    }
    assert(reads("brk"@, 214)) by {
        reveal_strlit("brk");
    }
    assert(reads("munmap"@, 215)) by {
        reveal_strlit("munmap");
    }
    assert(reads("mremap"@, 216)) by {
        reveal_strlit("mremap");
    }
    assert(reads("add_key"@, 217)) by {
        reveal_strlit("add_key");
    }
    assert(reads("request_key"@, 218)) by {
        reveal_strlit("request_key");
    }
    assert(reads("keyctl"@, 219)) by {
        reveal_strlit("keyctl");
    }
    assert(reads("clone"@, 220)) by {
        reveal_strlit("clone");
    }
    assert(reads("execve"@, 221)) by {
        reveal_strlit("execve");
    }
}

proof fn lemma_reads_back_10(nr: u64)
    requires
        222 <= nr <= 237,
    ensures
        table_name(nr) matches Some(s) ==> reads(s, nr),
{
    reveal(reads);
    assert(reads("mmap"@, 222)) by {
        reveal_strlit("mmap");
    }
    assert(reads("fadvise64"@, 223)) by {
        reveal_strlit("fadvise64");
    }
    assert(reads("swapon"@, 224)) by {
        reveal_strlit("swapon");
    }
    assert(reads("swapoff"@, 225)) by {
        reveal_strlit("swapoff");
    }
    assert(reads("mprotect"@, 226)) by {
        reveal_strlit("mprotect");
    }
    assert(reads("msync"@, 227)) by {
        reveal_strlit("msync");
    }
    assert(reads("mlock"@, 228)) by {
        reveal_strlit("mlock");
    }
    assert(reads("munlock"@, 229)) by {
        reveal_strlit("munlock");
    }
    assert(reads("mlockall"@, 230)) by {
        reveal_strlit("mlockall");
    }
    assert(reads("munlockall"@, 231)) by {
        reveal_strlit("munlockall");
    }
    assert(reads("mincore"@, 232)) by {
        reveal_strlit("mincore");
    }
    assert(reads("madvise"@, 233)) by {
        reveal_strlit("madvise");
    }
    assert(reads("remap_file_pages"@, 234)) by {
        reveal_strlit("remap_file_pages");
    }
    assert(reads("mbind"@, 235)) by {
        reveal_strlit("mbind");
    }
    assert(reads("get_mempolicy"@, 236)) by {
        reveal_strlit("get_mempolicy");
    }
    assert(reads("set_mempolicy"@, 237)) by {
        reveal_strlit("set_mempolicy");
    }
}

proof fn lemma_reads_back_11(nr: u64)
    requires
        238 <= nr <= 269,
    ensures
        table_name(nr) matches Some(s) ==> reads(s, nr),
{
    reveal(reads);
    assert(reads("migrate_pages"@, 238)) by {
        reveal_strlit("migrate_pages");
    }
    assert(reads("move_pages"@, 239)) by {
        reveal_strlit("move_pages");
    }
    assert(reads("rt_tgsigqueueinfo"@, 240)) by {
        reveal_strlit("rt_tgsigqueueinfo");
    }
    assert(reads("perf_event_open"@, 241)) by {
        reveal_strlit("perf_event_open");
    }
    assert(reads("accept4"@, 242)) by {
        reveal_strlit("accept4");
    }
    assert(reads("recvmmsg"@, 243)) by {
        reveal_strlit("recvmmsg");
    }
    assert(reads("wait4"@, 260)) by {
        reveal_strlit("wait4");
    }
    assert(reads("prlimit64"@, 261)) by {
        reveal_strlit("prlimit64");
    }
    assert(reads("fanotify_init"@, 262)) by {
        reveal_strlit("fanotify_init");
    }
    assert(reads("fanotify_mark"@, 263)) by {
        reveal_strlit("fanotify_mark");
    }
    assert(reads("name_to_handle_at"@, 264)) by {
        reveal_strlit("name_to_handle_at");
    }
    assert(reads("open_by_handle_at"@, 265)) by {
        reveal_strlit("open_by_handle_at");
    }
    assert(reads("clock_adjtime"@, 266)) by {
        reveal_strlit("clock_adjtime");
    }
    assert(reads("syncfs"@, 267)) by {
        reveal_strlit("syncfs");
    }
    assert(reads("setns"@, 268)) by {
        reveal_strlit("setns");
    }
    assert(reads("sendmmsg"@, 269)) by {
        reveal_strlit("sendmmsg");
    }
}

proof fn lemma_reads_back_12(nr: u64)
    requires
        270 <= nr <= 285,
    ensures
        table_name(nr) matches Some(s) ==> reads(s, nr),
{
    reveal(reads);
    assert(reads("process_vm_readv"@, 270)) by {
        reveal_strlit("process_vm_readv");
    }
    assert(reads("process_vm_writev"@, 271)) by {
        reveal_strlit("process_vm_writev");
    }
    assert(reads("kcmp"@, 272)) by {
        reveal_strlit("kcmp");
    }
    assert(reads("finit_module"@, 273)) by {
        reveal_strlit("finit_module");
    }
    assert(reads("sched_setattr"@, 274)) by {
        reveal_strlit("sched_setattr");
    }
    assert(reads("sched_getattr"@, 275)) by {
        reveal_strlit("sched_getattr");
    }
    assert(reads("renameat2"@, 276)) by {
        reveal_strlit("renameat2");
    }
    assert(reads("seccomp"@, 277)) by {
        reveal_strlit("seccomp");
    }
    assert(reads("getrandom"@, 278)) by {
        reveal_strlit("getrandom");
    }
    assert(reads("memfd_create"@, 279)) by {
        reveal_strlit("memfd_create");
    }
    assert(reads("bpf"@, 280)) by {
        reveal_strlit("bpf");
    }
    assert(reads("execveat"@, 281)) by {
        reveal_strlit("execveat");
    }
    assert(reads("userfaultfd"@, 282)) by {
        reveal_strlit("userfaultfd");
    }
    assert(reads("membarrier"@, 283)) by {
        reveal_strlit("membarrier");
    }
    assert(reads("mlock2"@, 284)) by {
        reveal_strlit("mlock2");
    }
    assert(reads("copy_file_range"@, 285)) by {
        reveal_strlit("copy_file_range");
    }
}

proof fn lemma_reads_back_13(nr: u64)
    requires
        286 <= nr <= 450,
    ensures
        table_name(nr) matches Some(s) ==> reads(s, nr),
{
    reveal(reads);
    assert(reads("preadv2"@, 286)) by {
        reveal_strlit("preadv2");
    }
    assert(reads("pwritev2"@, 287)) by {
        reveal_strlit("pwritev2");
    }
    assert(reads("pkey_mprotect"@, 288)) by {
        reveal_strlit("pkey_mprotect");
    }
    assert(reads("statx"@, 291)) by {
        reveal_strlit("statx");
    }
    assert(reads("io_pgetevents"@, 292)) by {
        reveal_strlit("io_pgetevents");
    }
    assert(reads("rseq"@, 293)) by {
        reveal_strlit("rseq");
    }
    assert(reads("pidfd_send_signal"@, 424)) by {
        reveal_strlit("pidfd_send_signal");
    }
    assert(reads("pidfd_open"@, 434)) by {
        reveal_strlit("pidfd_open");
    }
    assert(reads("clone3"@, 435)) by {
        reveal_strlit("clone3");
    }
    assert(reads("close_range"@, 436)) by {
        reveal_strlit("close_range");
    }
    assert(reads("openat2"@, 437)) by {
        reveal_strlit("openat2");
    }
    assert(reads("pidfd_getfd"@, 438)) by {
        reveal_strlit("pidfd_getfd");
    }
    assert(reads("faccessat2"@, 439)) by {
        reveal_strlit("faccessat2");
    }
    assert(reads("epoll_pwait2"@, 441)) by {
        reveal_strlit("epoll_pwait2");
    }
    assert(reads("memfd_secret"@, 447)) by {
        reveal_strlit("memfd_secret");
    }
    assert(reads("set_mempolicy_home_node"@, 450)) by {
        reveal_strlit("set_mempolicy_home_node");
    }
}

/// Every name in the table is one that its number can be told from.
proof fn lemma_reads_back(nr: u64)
    ensures
        table_name(nr) matches Some(s) ==> reads(s, nr),
{
    if 0 <= nr <= 28 {
        lemma_reads_back_0(nr);
    } else if 29 <= nr <= 50 {
        lemma_reads_back_1(nr);
    } else if 52 <= nr <= 69 {
        lemma_reads_back_2(nr);
    } else if 70 <= nr <= 93 {
        lemma_reads_back_3(nr);
    } else if 94 <= nr <= 118 {
        lemma_reads_back_4(nr);
    } else if 119 <= nr <= 134 {
        lemma_reads_back_5(nr);
    } else if 135 <= nr <= 151 {
        lemma_reads_back_6(nr);
    } else if 152 <= nr <= 169 {
        lemma_reads_back_7(nr);
    } else if 172 <= nr <= 205 {
        lemma_reads_back_8(nr);
    } else if 206 <= nr <= 221 {
        lemma_reads_back_9(nr);
    } else if 222 <= nr <= 237 {
        lemma_reads_back_10(nr);
    } else if 238 <= nr <= 269 {
        lemma_reads_back_11(nr);
    } else if 270 <= nr <= 285 {
        lemma_reads_back_12(nr);
    } else if 286 <= nr <= 450 {
        lemma_reads_back_13(nr);
    }
}

} // verus!
