//! Verified core of an Android / arm64 dynamic instrumentation toolkit.
pub mod bytes;
pub mod text;
pub mod split;
pub mod text_laws;
pub mod numbers;
pub mod ordered;
pub mod decoder;
pub mod encode;
pub mod logical;
pub mod writer;
pub mod writer_laws;
pub mod instruction_laws;
pub mod relocator;
pub mod trampoline;
pub mod patch;
pub mod native_laws;
pub mod stream_laws;
pub mod writer_code_laws;
pub mod code_laws;
pub mod elf;
pub mod got;
pub mod elf_laws;
pub mod proto;
pub mod art;
pub mod api_trace;
pub mod api_laws;
pub mod api_filter_laws;
pub mod syscall_names;
pub mod syscall_name_laws;
pub mod maps;
pub mod procfs;
pub mod discover;
pub mod remote;
pub mod process_laws;
pub mod syscall_trace;
pub mod syscall_format;
pub mod syscall_laws;
pub mod syscall_call_laws;
pub mod inject;
pub mod inject_laws;
pub mod loaders;
pub mod loader_laws;
pub mod icache;
pub mod host;
pub mod stress;
pub mod injector;
pub mod agent;
pub mod json;
pub mod storage;
pub mod java_types;
pub mod java_walk;
pub mod java_laws;
pub mod offdevice;
pub mod java_hook;
pub mod hook_laws;
pub mod spawn;
pub mod host_laws;
pub mod record_laws;

use vstd::prelude::*;

verus! {

/// Absolute branch stub size on AArch64: `LDR X17, #8; BR X17; <u64 target>`.
pub const ABS_BRANCH_LEN: usize = 16;

} // verus!
