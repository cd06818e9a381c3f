//! Names of the arm64 Linux system calls.
use crate::text::{decimal, push_decimal};
use vstd::prelude::*;
use vstd::string::*;

verus! {

/// The name of a system call number, if it has one in the table.
pub open spec fn table_name(nr: u64) -> Option<Seq<char>> {
    match nr {
        0 => Some("io_setup"@),
        1 => Some("io_destroy"@),
        2 => Some("io_submit"@),
        3 => Some("io_cancel"@),
        4 => Some("io_getevents"@),
        17 => Some("getcwd"@),
        19 => Some("eventfd2"@),
        20 => Some("epoll_create1"@),
        21 => Some("epoll_ctl"@),
        22 => Some("epoll_pwait"@),
        23 => Some("dup"@),
        24 => Some("dup3"@),
        25 => Some("fcntl"@),
        26 => Some("inotify_init1"@),
        27 => Some("inotify_add_watch"@),
        28 => Some("inotify_rm_watch"@),
        29 => Some("ioctl"@),
        32 => Some("flock"@),
        33 => Some("mknodat"@),
        34 => Some("mkdirat"@),
        35 => Some("unlinkat"@),
        36 => Some("symlinkat"@),
        37 => Some("linkat"@),
        38 => Some("renameat"@),
        43 => Some("statfs"@),
        44 => Some("fstatfs"@),
        45 => Some("truncate"@),
        46 => Some("ftruncate"@),
        47 => Some("fallocate"@),
        48 => Some("faccessat"@),
        49 => Some("chdir"@),
        50 => Some("fchdir"@),
        52 => Some("fchmod"@),
        53 => Some("fchmodat"@),
        54 => Some("fchownat"@),
        55 => Some("fchown"@),
        56 => Some("openat"@),
        57 => Some("close"@),
        59 => Some("pipe2"@),
        61 => Some("getdents64"@),
        62 => Some("lseek"@),
        63 => Some("read"@),
        64 => Some("write"@),
        65 => Some("readv"@),
        66 => Some("writev"@),
        67 => Some("pread64"@),
        68 => Some("pwrite64"@),
        69 => Some("preadv"@),
        70 => Some("pwritev"@),
        71 => Some("sendfile"@),
        72 => Some("pselect6"@),
        73 => Some("ppoll"@),
        74 => Some("signalfd4"@),
        78 => Some("readlinkat"@),
        79 => Some("fstatat"@),
        80 => Some("fstat"@),
        81 => Some("sync"@),
        82 => Some("fsync"@),
        83 => Some("fdatasync"@),
        85 => Some("timerfd_create"@),
        86 => Some("timerfd_settime"@),
        87 => Some("timerfd_gettime"@),
        88 => Some("utimensat"@),
        93 => Some("exit"@),
        94 => Some("exit_group"@),
        95 => Some("waitid"@),
        96 => Some("set_tid_address"@),
        97 => Some("unshare"@),
        98 => Some("futex"@),
        99 => Some("set_robust_list"@),
        100 => Some("get_robust_list"@),
        101 => Some("nanosleep"@),
        102 => Some("getitimer"@),
        103 => Some("setitimer"@),
        113 => Some("clock_gettime"@),
        114 => Some("clock_getres"@),
        115 => Some("clock_nanosleep"@),
        116 => Some("syslog"@),
        117 => Some("ptrace"@),
        118 => Some("sched_setparam"@),
        119 => Some("sched_setscheduler"@),
        120 => Some("sched_getscheduler"@),
        121 => Some("sched_getparam"@),
        122 => Some("sched_setaffinity"@),
        123 => Some("sched_getaffinity"@),
        124 => Some("sched_yield"@),
        125 => Some("sched_get_priority_max"@),
        126 => Some("sched_get_priority_min"@),
        127 => Some("sched_rr_get_interval"@),
        128 => Some("restart_syscall"@),
        129 => Some("kill"@),
        130 => Some("tkill"@),
        131 => Some("tgkill"@),
        132 => Some("sigaltstack"@),
        133 => Some("rt_sigsuspend"@),
        134 => Some("rt_sigaction"@),
        135 => Some("rt_sigprocmask"@),
        136 => Some("rt_sigpending"@),
        137 => Some("rt_sigtimedwait"@),
        138 => Some("rt_sigqueueinfo"@),
        139 => Some("rt_sigreturn"@),
        140 => Some("setpriority"@),
        141 => Some("getpriority"@),
        143 => Some("setregid"@),
        144 => Some("setgid"@),
        145 => Some("setreuid"@),
        146 => Some("setuid"@),
        147 => Some("setresuid"@),
        148 => Some("getresuid"@),
        149 => Some("setresgid"@),
        150 => Some("getresgid"@),
        151 => Some("setfsuid"@),
        152 => Some("setfsgid"@),
        153 => Some("times"@),
        154 => Some("setpgid"@),
        155 => Some("getpgid"@),
        156 => Some("getsid"@),
        157 => Some("setsid"@),
        158 => Some("getgroups"@),
        159 => Some("setgroups"@),
        160 => Some("uname"@),
        163 => Some("getrlimit"@),
        164 => Some("setrlimit"@),
        165 => Some("getrusage"@),
        166 => Some("umask"@),
        167 => Some("prctl"@),
        168 => Some("getcpu"@),
        169 => Some("gettimeofday"@),
        172 => Some("getpid"@),
        173 => Some("getppid"@),
        174 => Some("getuid"@),
        175 => Some("geteuid"@),
        176 => Some("getgid"@),
        177 => Some("getegid"@),
        178 => Some("gettid"@),
        179 => Some("sysinfo"@),
        198 => Some("socket"@),
        199 => Some("socketpair"@),
        200 => Some("bind"@),
        201 => Some("listen"@),
        202 => Some("accept"@),
        203 => Some("connect"@),
        204 => Some("getsockname"@),
        205 => Some("getpeername"@),
        206 => Some("sendto"@),
        207 => Some("recvfrom"@),
        208 => Some("setsockopt"@),
        209 => Some("getsockopt"@),
        210 => Some("shutdown"@),
        211 => Some("sendmsg"@),
        212 => Some("recvmsg"@),
        213 => Some("readahead"@),
        214 => Some("brk"@),
        215 => Some("munmap"@),
        216 => Some("mremap"@),
        217 => Some("add_key"@),
        218 => Some("request_key"@),
        219 => Some("keyctl"@),
        220 => Some("clone"@),
        221 => Some("execve"@),
        222 => Some("mmap"@),
        223 => Some("fadvise64"@),
        224 => Some("swapon"@),
        225 => Some("swapoff"@),
        226 => Some("mprotect"@),
        227 => Some("msync"@),
        228 => Some("mlock"@),
        229 => Some("munlock"@),
        230 => Some("mlockall"@),
        231 => Some("munlockall"@),
        232 => Some("mincore"@),
        233 => Some("madvise"@),
        234 => Some("remap_file_pages"@),
        235 => Some("mbind"@),
        236 => Some("get_mempolicy"@),
        237 => Some("set_mempolicy"@),
        238 => Some("migrate_pages"@),
        239 => Some("move_pages"@),
        240 => Some("rt_tgsigqueueinfo"@),
        241 => Some("perf_event_open"@),
        242 => Some("accept4"@),
        243 => Some("recvmmsg"@),
        260 => Some("wait4"@),
        261 => Some("prlimit64"@),
        262 => Some("fanotify_init"@),
        263 => Some("fanotify_mark"@),
        264 => Some("name_to_handle_at"@),
        265 => Some("open_by_handle_at"@),
        266 => Some("clock_adjtime"@),
        267 => Some("syncfs"@),
        268 => Some("setns"@),
        269 => Some("sendmmsg"@),
        270 => Some("process_vm_readv"@),
        271 => Some("process_vm_writev"@),
        272 => Some("kcmp"@),
        273 => Some("finit_module"@),
        274 => Some("sched_setattr"@),
        275 => Some("sched_getattr"@),
        276 => Some("renameat2"@),
        277 => Some("seccomp"@),
        278 => Some("getrandom"@),
        279 => Some("memfd_create"@),
        280 => Some("bpf"@),
        281 => Some("execveat"@),
        282 => Some("userfaultfd"@),
        283 => Some("membarrier"@),
        284 => Some("mlock2"@),
        285 => Some("copy_file_range"@),
        286 => Some("preadv2"@),
        287 => Some("pwritev2"@),
        288 => Some("pkey_mprotect"@),
        291 => Some("statx"@),
        292 => Some("io_pgetevents"@),
        293 => Some("rseq"@),
        424 => Some("pidfd_send_signal"@),
        434 => Some("pidfd_open"@),
        435 => Some("clone3"@),
        436 => Some("close_range"@),
        437 => Some("openat2"@),
        438 => Some("pidfd_getfd"@),
        439 => Some("faccessat2"@),
        441 => Some("epoll_pwait2"@),
        447 => Some("memfd_secret"@),
        450 => Some("set_mempolicy_home_node"@),
        _ => None,
    }
}

/// `sys_` and the number.
pub open spec fn numbered(nr: u64) -> Seq<char> {
    "sys_"@ + decimal(nr as nat)
}

/// The name of a system call: the one in the table, or `sys_` and its number.
pub open spec fn call_name(nr: u64) -> Seq<char> {
    match table_name(nr) {
        Some(name) => name,
        None => numbered(nr),
    }
}

fn look_up(nr: u64) -> (r: Option<&'static str>)
    ensures
        match r {
            Some(name) => table_name(nr) == Some(name@),
            None => table_name(nr) is None,
        },
{
    match nr {
        0 => Some("io_setup"),
        1 => Some("io_destroy"),
        2 => Some("io_submit"),
        3 => Some("io_cancel"),
        4 => Some("io_getevents"),
        17 => Some("getcwd"),
        19 => Some("eventfd2"),
        20 => Some("epoll_create1"),
        21 => Some("epoll_ctl"),
        22 => Some("epoll_pwait"),
        23 => Some("dup"),
        24 => Some("dup3"),
        25 => Some("fcntl"),
        26 => Some("inotify_init1"),
        27 => Some("inotify_add_watch"),
        28 => Some("inotify_rm_watch"),
        29 => Some("ioctl"),
        32 => Some("flock"),
        33 => Some("mknodat"),
        34 => Some("mkdirat"),
        35 => Some("unlinkat"),
        36 => Some("symlinkat"),
        37 => Some("linkat"),
        38 => Some("renameat"),
        43 => Some("statfs"),
        44 => Some("fstatfs"),
        45 => Some("truncate"),
        46 => Some("ftruncate"),
        47 => Some("fallocate"),
        48 => Some("faccessat"),
        49 => Some("chdir"),
        50 => Some("fchdir"),
        52 => Some("fchmod"),
        53 => Some("fchmodat"),
        54 => Some("fchownat"),
        55 => Some("fchown"),
        56 => Some("openat"),
        57 => Some("close"),
        59 => Some("pipe2"),
        61 => Some("getdents64"),
        62 => Some("lseek"),
        63 => Some("read"),
        64 => Some("write"),
        65 => Some("readv"),
        66 => Some("writev"),
        67 => Some("pread64"),
        68 => Some("pwrite64"),
        69 => Some("preadv"),
        70 => Some("pwritev"),
        71 => Some("sendfile"),
        72 => Some("pselect6"),
        73 => Some("ppoll"),
        74 => Some("signalfd4"),
        78 => Some("readlinkat"),
        79 => Some("fstatat"),
        80 => Some("fstat"),
        81 => Some("sync"),
        82 => Some("fsync"),
        83 => Some("fdatasync"),
        85 => Some("timerfd_create"),
        86 => Some("timerfd_settime"),
        87 => Some("timerfd_gettime"),
        88 => Some("utimensat"),
        93 => Some("exit"),
        94 => Some("exit_group"),
        95 => Some("waitid"),
        96 => Some("set_tid_address"),
        97 => Some("unshare"),
        98 => Some("futex"),
        99 => Some("set_robust_list"),
        100 => Some("get_robust_list"),
        101 => Some("nanosleep"),
        102 => Some("getitimer"),
        103 => Some("setitimer"),
        113 => Some("clock_gettime"),
        114 => Some("clock_getres"),
        115 => Some("clock_nanosleep"),
        116 => Some("syslog"),
        117 => Some("ptrace"),
        118 => Some("sched_setparam"),
        119 => Some("sched_setscheduler"),
        120 => Some("sched_getscheduler"),
        121 => Some("sched_getparam"),
        122 => Some("sched_setaffinity"),
        123 => Some("sched_getaffinity"),
        124 => Some("sched_yield"),
        125 => Some("sched_get_priority_max"),
        126 => Some("sched_get_priority_min"),
        127 => Some("sched_rr_get_interval"),
        128 => Some("restart_syscall"),
        129 => Some("kill"),
        130 => Some("tkill"),
        131 => Some("tgkill"),
        132 => Some("sigaltstack"),
        133 => Some("rt_sigsuspend"),
        134 => Some("rt_sigaction"),
        135 => Some("rt_sigprocmask"),
        136 => Some("rt_sigpending"),
        137 => Some("rt_sigtimedwait"),
        138 => Some("rt_sigqueueinfo"),
        139 => Some("rt_sigreturn"),
        140 => Some("setpriority"),
        141 => Some("getpriority"),
        143 => Some("setregid"),
        144 => Some("setgid"),
        145 => Some("setreuid"),
        146 => Some("setuid"),
        147 => Some("setresuid"),
        148 => Some("getresuid"),
        149 => Some("setresgid"),
        150 => Some("getresgid"),
        151 => Some("setfsuid"),
        152 => Some("setfsgid"),
        153 => Some("times"),
        154 => Some("setpgid"),
        155 => Some("getpgid"),
        156 => Some("getsid"),
        157 => Some("setsid"),
        158 => Some("getgroups"),
        159 => Some("setgroups"),
        160 => Some("uname"),
        163 => Some("getrlimit"),
        164 => Some("setrlimit"),
        165 => Some("getrusage"),
        166 => Some("umask"),
        167 => Some("prctl"),
        168 => Some("getcpu"),
        169 => Some("gettimeofday"),
        172 => Some("getpid"),
        173 => Some("getppid"),
        174 => Some("getuid"),
        175 => Some("geteuid"),
        176 => Some("getgid"),
        177 => Some("getegid"),
        178 => Some("gettid"),
        179 => Some("sysinfo"),
        198 => Some("socket"),
        199 => Some("socketpair"),
        200 => Some("bind"),
        201 => Some("listen"),
        202 => Some("accept"),
        203 => Some("connect"),
        204 => Some("getsockname"),
        205 => Some("getpeername"),
        206 => Some("sendto"),
        207 => Some("recvfrom"),
        208 => Some("setsockopt"),
        209 => Some("getsockopt"),
        210 => Some("shutdown"),
        211 => Some("sendmsg"),
        212 => Some("recvmsg"),
        213 => Some("readahead"),
        214 => Some("brk"),
        215 => Some("munmap"),
        216 => Some("mremap"),
        217 => Some("add_key"),
        218 => Some("request_key"),
        219 => Some("keyctl"),
        220 => Some("clone"),
        221 => Some("execve"),
        222 => Some("mmap"),
        223 => Some("fadvise64"),
        224 => Some("swapon"),
        225 => Some("swapoff"),
        226 => Some("mprotect"),
        227 => Some("msync"),
        228 => Some("mlock"),
        229 => Some("munlock"),
        230 => Some("mlockall"),
        231 => Some("munlockall"),
        232 => Some("mincore"),
        233 => Some("madvise"),
        234 => Some("remap_file_pages"),
        235 => Some("mbind"),
        236 => Some("get_mempolicy"),
        237 => Some("set_mempolicy"),
        238 => Some("migrate_pages"),
        239 => Some("move_pages"),
        240 => Some("rt_tgsigqueueinfo"),
        241 => Some("perf_event_open"),
        242 => Some("accept4"),
        243 => Some("recvmmsg"),
        260 => Some("wait4"),
        261 => Some("prlimit64"),
        262 => Some("fanotify_init"),
        263 => Some("fanotify_mark"),
        264 => Some("name_to_handle_at"),
        265 => Some("open_by_handle_at"),
        266 => Some("clock_adjtime"),
        267 => Some("syncfs"),
        268 => Some("setns"),
        269 => Some("sendmmsg"),
        270 => Some("process_vm_readv"),
        271 => Some("process_vm_writev"),
        272 => Some("kcmp"),
        273 => Some("finit_module"),
        274 => Some("sched_setattr"),
        275 => Some("sched_getattr"),
        276 => Some("renameat2"),
        277 => Some("seccomp"),
        278 => Some("getrandom"),
        279 => Some("memfd_create"),
        280 => Some("bpf"),
        281 => Some("execveat"),
        282 => Some("userfaultfd"),
        283 => Some("membarrier"),
        284 => Some("mlock2"),
        285 => Some("copy_file_range"),
        286 => Some("preadv2"),
        287 => Some("pwritev2"),
        288 => Some("pkey_mprotect"),
        291 => Some("statx"),
        292 => Some("io_pgetevents"),
        293 => Some("rseq"),
        424 => Some("pidfd_send_signal"),
        434 => Some("pidfd_open"),
        435 => Some("clone3"),
        436 => Some("close_range"),
        437 => Some("openat2"),
        438 => Some("pidfd_getfd"),
        439 => Some("faccessat2"),
        441 => Some("epoll_pwait2"),
        447 => Some("memfd_secret"),
        450 => Some("set_mempolicy_home_node"),
        _ => None,
    }
}

/// The name of an arm64 system call. A number without one gives `sys_` and the number.
pub fn syscall_name(nr: u64) -> (s: String)
    ensures
        s@ == call_name(nr),
{
    match look_up(nr) {
        Some(name) => name.to_owned(),
        None => {
            let mut s = "sys_".to_owned();
            push_decimal(&mut s, nr);
            s
        },
    }
}

} // verus!
