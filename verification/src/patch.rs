//! Inline hooks: what is written where when one is attached, and what undoes it.
use crate::bytes::{copy_range, to_vec};
use crate::decoder::{displaced, Arm64Decoder, DisasmAdapter};
use crate::encode::{abs_branch, encode_abs_branch};
use crate::relocator::{build_trampoline, first_insns, relocated_all, RelocError};
use crate::text::{push_decimal, push_signed, signed_decimal, decimal};
use crate::trampoline::{
    alloc_hook_id, build_enter_thunk, build_leave_thunk, build_simd_thunk, enter_thunk,
    law_simd_frame, law_thunk_layout, leave_thunk, list_hook_ids, simd_thunk, unregister_hook,
    EntryState, HookCallbacks, HookEntry, HookId, HookRegistry, RegistryState,
};
use crate::writer::CodeWrite;
use crate::ABS_BRANCH_LEN;
use std::collections::HashMap;
use vstd::prelude::*;
use vstd::string::*;

verus! {

broadcast use vstd::std_specs::hash::group_hash_axioms;

#[derive(Debug)]
pub enum HookError {
    Reloc(RelocError),
    Mprotect(i32),
    Mmap,
    NotFound(HookId),
    Msg(String),
}

impl HookError {
    /// The text of the error.
    pub open spec fn text(&self) -> Seq<char> {
        match self {
            HookError::Reloc(e) => "relocation: "@ + e.text(),
            HookError::Mprotect(rc) => "mprotect failed: "@ + signed_decimal(*rc as int),
            HookError::Mmap => "mmap failed"@,
            HookError::NotFound(id) => "hook not found: "@ + decimal(*id as nat),
            HookError::Msg(m) => m@,
        }
    }

    pub fn message(&self) -> (m: String)
        ensures
            m@ == self.text(),
    {
        match self {
            HookError::Reloc(e) => "relocation: ".to_owned().concat(e.message().as_str()),
            HookError::Mprotect(rc) => {
                let mut m = "mprotect failed: ".to_owned();
                push_signed(&mut m, *rc as i64);
                m
            },
            HookError::Mmap => "mmap failed".to_owned(),
            HookError::NotFound(id) => {
                let mut m = "hook not found: ".to_owned();
                push_decimal(&mut m, *id as u64);
                m
            },
            HookError::Msg(m) => m.clone(),
        }
    }
}

#[derive(Debug, Clone, Copy, PartialEq, Eq, Structural)]
pub struct InlineHook {
    pub id: HookId,
    pub target: u64,
    pub patch_len: usize,
}

/// Size of the scratch page: the enter thunk comes first, the leave thunk at `LEAVE_OFF`, the
/// relocated original at `RELOC_OFF`. An enter thunk that saves Q0 to Q31 moves both up by
/// `SIMD_ROOM`.
pub const SCRATCH_LEN: usize = 4096;

pub const LEAVE_OFF: usize = 256;

pub const RELOC_OFF: usize = 512;

pub const SIMD_ROOM: usize = 256;

/// How far the parts behind the enter thunk are moved up.
pub open spec fn simd_room(save_simd: bool) -> int {
    if save_simd {
        SIMD_ROOM as int
    } else {
        0
    }
}

/// The enter thunk of a hook.
pub open spec fn hook_thunk(
    id: HookId,
    on_enter: u64,
    body: u64,
    callbacks: HookCallbacks,
) -> Seq<u8> {
    if callbacks.save_simd {
        simd_thunk(id, on_enter, body, callbacks.replace_mode)
    } else {
        enter_thunk(id, on_enter, body, callbacks.replace_mode)
    }
}

/// Everything that attaching a hook does to memory and to the registry.
pub struct AttachPlan {
    /// Code for the scratch page.
    pub scratch: Vec<CodeWrite>,
    /// The branch at the hooked function.
    pub patch: CodeWrite,
    /// What is registered once the patch is in place.
    pub entry: HookEntry,
    pub hook: InlineHook,
}

/// The hook that attaching records.
pub open spec fn attached_entry(
    id: HookId,
    target: u64,
    scratch: u64,
    code: Seq<u8>,
    callbacks: HookCallbacks,
) -> EntryState {
    EntryState {
        id,
        target,
        trampoline: scratch,
        leave_thunk: if callbacks.on_leave is Some || callbacks.replace_mode {
            displaced(scratch, LEAVE_OFF + simd_room(callbacks.save_simd))
        } else {
            0
        },
        patch_len: 16,
        original: code.take(16),
        callbacks,
        saved: Map::empty(),
    }
}

/// Whether `plan` puts `bytes` at `addr` of the scratch page.
pub open spec fn writes(plan: AttachPlan, i: int, addr: u64, bytes: Seq<u8>) -> bool {
    plan.scratch@[i].addr == addr && plan.scratch@[i].bytes@ == bytes
}

/// What attaching with a decoder comes to.
pub open spec fn attach_outcome<D: Arm64Decoder>(
    decoder: &D,
    id: HookId,
    target: u64,
    code: Seq<u8>,
    callbacks: HookCallbacks,
    page: Result<u64, HookError>,
    on_enter: u64,
    on_leave: u64,
    r: Result<AttachPlan, HookError>,
) -> bool {
    let scratch = page->Ok_0;
    let body = displaced(scratch, RELOC_OFF + simd_room(callbacks.save_simd));
    let insns = first_insns(decoder, target, code, 4);
    let leaves = callbacks.on_leave is Some || callbacks.replace_mode;
    if page is Err {
        r == Err::<AttachPlan, HookError>(page->Err_0)
    } else if code.len() < ABS_BRANCH_LEN {
        r matches Err(HookError::Reloc(RelocError::TruncatedCode))
    } else {
        &&& r matches Ok(plan)
        &&& plan.entry@ == attached_entry(id, target, scratch, code, callbacks)
        &&& plan.hook == (InlineHook { id, target, patch_len: 16 })
        &&& plan.patch.addr == target
        &&& plan.patch.bytes@ == abs_branch(scratch)
        &&& plan.scratch@.len() == if leaves {
            3int
        } else {
            2
        }
        &&& writes(plan, 0, scratch, hook_thunk(id, on_enter, body, callbacks))
        &&& writes(
            plan,
            1,
            body,
            relocated_all(insns, body) + abs_branch(displaced(target, 16)),
        )
        &&& leaves ==> writes(
            plan,
            2,
            displaced(scratch, LEAVE_OFF + simd_room(callbacks.save_simd)),
            leave_thunk(id, on_leave),
        )
    }
}

/// The registry after a number was given out.
pub open spec fn numbered(before: RegistryState) -> RegistryState {
    RegistryState {
        next_id: (if before.next_id == u32::MAX {
            0
        } else {
            before.next_id + 1
        }) as u32,
        ..before
    }
}

/// Plans an inline hook at `target`, whose first bytes are `code`, with the scratch page at
/// `page` (or why there is none) and the two dispatch functions at `on_enter` and
/// `on_leave`. The hook gets the next number; it is to be registered once the patch is made.
pub fn attach(
    registry: &mut HookRegistry,
    target: u64,
    code: &[u8],
    callbacks: HookCallbacks,
    page: Result<u64, HookError>,
    on_enter: u64,
    on_leave: u64,
) -> (r: Result<AttachPlan, HookError>)
    ensures
        final(registry)@ == numbered(old(registry)@),
        attach_outcome(
            &DisasmAdapter,
            old(registry)@.next_id,
            target,
            code@,
            callbacks,
            page,
            on_enter,
            on_leave,
            r,
        ),
{
    attach_with_decoder(
        &DisasmAdapter,
        registry,
        target,
        code,
        callbacks,
        page,
        on_enter,
        on_leave,
    )
}

#[verifier::rlimit(40)]
pub fn attach_with_decoder<D: Arm64Decoder>(
    decoder: &D,
    registry: &mut HookRegistry,
    target: u64,
    code: &[u8],
    callbacks: HookCallbacks,
    page: Result<u64, HookError>,
    on_enter: u64,
    on_leave: u64,
) -> (r: Result<AttachPlan, HookError>)
    ensures
        final(registry)@ == numbered(old(registry)@),
        attach_outcome(
            decoder,
            old(registry)@.next_id,
            target,
            code@,
            callbacks,
            page,
            on_enter,
            on_leave,
            r,
        ),
{
    let id: HookId = alloc_hook_id(registry);
    let scratch: u64 = match page {
        Ok(p) => p,
        Err(e) => {
            return Err(e);
        },
    };
    let need_leave = callbacks.on_leave.is_some() || callbacks.replace_mode;
    let room: usize = if callbacks.save_simd {
        SIMD_ROOM
    } else {
        0
    };
    let body: u64 = scratch.wrapping_add((RELOC_OFF + room) as u64);
    assert(body == displaced(scratch, RELOC_OFF + simd_room(callbacks.save_simd)));
    let block = match build_trampoline(decoder, target, code, body) {
        Ok(b) => b,
        Err(e) => {
            return Err(HookError::Reloc(e));
        },
    };
    assert(hook_thunk(id, on_enter, body, callbacks).len() <= LEAVE_OFF + room) by {
        law_scratch_page_layout(id, on_enter, body, callbacks);
    }
    assert(leave_thunk(id, on_leave).len() <= RELOC_OFF - LEAVE_OFF) by {
        law_thunk_layout(id, on_leave, body);
    }
    let enter = if callbacks.save_simd {
        build_simd_thunk(id, on_enter, body, callbacks.replace_mode)
    } else {
        build_enter_thunk(id, on_enter, body, callbacks.replace_mode)
    };
    if enter.len() > LEAVE_OFF + room {
        return Err(HookError::Msg("enter thunk exceeds reserved space".to_owned()));
    }
    let mut writes: Vec<CodeWrite> = Vec::new();
    writes.push(CodeWrite { addr: scratch, bytes: enter });
    writes.push(CodeWrite { addr: body, bytes: block.code });
    let leave_at: u64 = scratch.wrapping_add((LEAVE_OFF + room) as u64);
    assert(leave_at == displaced(scratch, LEAVE_OFF + simd_room(callbacks.save_simd)));
    if need_leave {
        let leave = build_leave_thunk(id, on_leave);
        if leave.len() > RELOC_OFF - LEAVE_OFF {
            return Err(HookError::Msg("leave thunk exceeds reserved space".to_owned()));
        }
        writes.push(CodeWrite { addr: leave_at, bytes: leave });
    }
    let leave_thunk_at: u64 = if need_leave {
        leave_at
    } else {
        0
    };
    let original_bytes = copy_range(code, 0, block.patch_len);
    assert(original_bytes@ =~= code@.take(16));
    let entry = HookEntry {
        id,
        target,
        trampoline: scratch,
        leave_thunk: leave_thunk_at,
        patch_len: block.patch_len,
        original_bytes,
        callbacks,
        saved_lr: HashMap::new(),
    };
    assert(entry@.saved =~= Map::<u32, Seq<u64>>::empty());
    let patch = CodeWrite { addr: target, bytes: to_vec(encode_abs_branch(scratch).as_slice()) };
    Ok(
        AttachPlan {
            scratch: writes,
            patch,
            entry,
            hook: InlineHook { id, target, patch_len: block.patch_len },
        },
    )
}

/// The hook that replacing a function by an address records.
pub open spec fn replaced_entry(id: HookId, target: u64, code: Seq<u8>) -> EntryState {
    EntryState {
        id,
        target,
        trampoline: 0,
        leave_thunk: 0,
        patch_len: 16,
        original: code.take(16),
        callbacks: HookCallbacks {
            on_enter: None,
            on_leave: None,
            save_simd: false,
            replace_mode: false,
        },
        saved: Map::empty(),
    }
}

/// Plans the replacement of the function at `target` by that at `replacement`: an absolute
/// branch and nothing else.
pub fn replace_ptr(registry: &mut HookRegistry, target: u64, code: &[u8], replacement: u64) -> (r:
    Result<AttachPlan, HookError>)
    ensures
        final(registry)@ == numbered(old(registry)@),
        if code@.len() < 16 {
            r matches Err(HookError::Msg(m)) && m@ == "need ≥16 prologue bytes for replace"@
        } else {
            &&& r matches Ok(plan)
            &&& plan.scratch@.len() == 0
            &&& plan.patch.addr == target
            &&& plan.patch.bytes@ == abs_branch(replacement)
            &&& plan.entry@ == replaced_entry(old(registry)@.next_id, target, code@)
            &&& plan.hook == (InlineHook {
                id: old(registry)@.next_id,
                target,
                patch_len: 16,
            })
        },
{
    let id: HookId = alloc_hook_id(registry);
    if code.len() < 16 {
        return Err(HookError::Msg("need ≥16 prologue bytes for replace".to_owned()));
    }
    let original_bytes = copy_range(code, 0, 16);
    assert(original_bytes@ =~= code@.take(16));
    let entry = HookEntry {
        id,
        target,
        trampoline: 0,
        leave_thunk: 0,
        patch_len: 16,
        original_bytes,
        callbacks: HookCallbacks::default(),
        saved_lr: HashMap::new(),
    };
    assert(entry@.saved =~= Map::<u32, Seq<u64>>::empty());
    Ok(
        AttachPlan {
            scratch: Vec::new(),
            patch: CodeWrite {
                addr: target,
                bytes: to_vec(encode_abs_branch(replacement).as_slice()),
            },
            entry,
            hook: InlineHook { id, target, patch_len: 16 },
        },
    )
}

/// Whether `w` puts the original bytes of a hook back; none are put back where there are none.
pub open spec fn restores(w: Option<CodeWrite>, e: EntryState) -> bool {
    if e.original.len() == 0 {
        w is None
    } else {
        w matches Some(c) && c.addr == e.target && c.bytes@ == e.original
    }
}

/// Takes a hook out of the registry and gives the write that restores the function.
pub fn detach(registry: &mut HookRegistry, id: HookId) -> (r: Result<Option<CodeWrite>, HookError>)
    ensures
        final(registry)@ == (RegistryState {
            hooks: old(registry)@.hooks.remove(id),
            ..old(registry)@
        }),
        if old(registry)@.hooks.contains_key(id) {
            r matches Ok(w) && restores(w, old(registry)@.hooks[id])
        } else {
            r matches Err(HookError::NotFound(n)) && n == id
        },
{
    match unregister_hook(registry, id) {
        None => Err(HookError::NotFound(id)),
        Some(entry) => Ok(restore_bytes(entry)),
    }
}

/// The write that restores a hooked function.
fn restore_bytes(entry: HookEntry) -> (w: Option<CodeWrite>)
    ensures
        restores(w, entry@),
{
    if entry.original_bytes.is_empty() {
        return None;
    }
    Some(CodeWrite { addr: entry.target, bytes: entry.original_bytes })
}

/// Takes every hook out of the registry and gives, for each number that was there, the write
/// that restores its function.
pub fn detach_all(registry: &mut HookRegistry) -> (r: Vec<(HookId, Option<CodeWrite>)>)
    ensures
        final(registry)@.hooks == Map::<u32, EntryState>::empty(),
        final(registry)@.next_id == old(registry)@.next_id,
        forall|i: int|
            0 <= i < r@.len() ==> old(registry)@.hooks.contains_key((#[trigger] r@[i]).0)
                && restores(r@[i].1, old(registry)@.hooks[r@[i].0]),
        forall|id: u32|
            old(registry)@.hooks.contains_key(id) ==> exists|i: int|
                0 <= i < r@.len() && (#[trigger] r@[i]).0 == id,
        forall|i: int, j: int|
            0 <= i < j < r@.len() ==> (#[trigger] r@[i]).0 != (#[trigger] r@[j]).0,
{
    let ids = list_hook_ids(registry);
    let ghost all = registry@;
    let mut out: Vec<(HookId, Option<CodeWrite>)> = Vec::new();
    let mut i: usize = 0;
    assert(forall|id: u32| all.hooks.contains_key(id) <==> ids@.to_set().contains(id));
    assert(all.hooks =~= registry@.hooks);
    while i < ids.len()
        invariant
            i <= ids@.len(),
            out@.len() == i,
            all == old(registry)@,
            ids@.no_duplicates(),
            ids@.to_set() == all.hooks.dom(),
            registry@.next_id == all.next_id,
            forall|id: u32|
                #![trigger registry@.hooks.contains_key(id)]
                registry@.hooks.contains_key(id) <==> all.hooks.contains_key(id) && !ids@.take(
                    i as int,
                ).contains(id),
            forall|id: u32|
                registry@.hooks.contains_key(id) ==> #[trigger] registry@.hooks[id]
                    == all.hooks[id],
            forall|j: int|
                0 <= j < i ==> (#[trigger] out@[j]).0 == ids@[j] && restores(
                    out@[j].1,
                    all.hooks[ids@[j]],
                ),
        decreases ids@.len() - i,
    {
        let id: u32 = ids[i];
        proof {
            assert(ids@.to_set().contains(id));
            if ids@.take(i as int).contains(id) {
                let j = choose|j: int| 0 <= j < i && ids@.take(i as int)[j] == id;
                assert(ids@[j] == ids@[i as int]);
            }
            assert(registry@.hooks.contains_key(id));
        }
        let ghost before = registry@.hooks;
        let w = match detach(registry, id) {
            Ok(w) => w,
            Err(_) => None,
        };
        out.push((id, w));
        proof {
            let now = ids@.take(i + 1);
            assert(now =~= ids@.take(i as int).push(id));
            assert forall|k: u32| now.contains(k) <==> (ids@.take(i as int).contains(k) || k == id) by {
                if ids@.take(i as int).contains(k) {
                    let j = choose|j: int| 0 <= j < i && ids@.take(i as int)[j] == k;
                    assert(now[j] == k);
                }
                assert(now[i as int] == id);
            }
        }
        i = i + 1;
    }
    proof {
        assert(ids@.take(i as int) =~= ids@);
        assert forall|id: u32| !registry@.hooks.contains_key(id) by {
            if all.hooks.contains_key(id) {
                assert(ids@.to_set().contains(id));
                assert(ids@.contains(id));
            }
        }
        assert(registry@.hooks =~= Map::<u32, EntryState>::empty());
        assert forall|k: int| 0 <= k < out@.len() implies all.hooks.contains_key(
            (#[trigger] out@[k]).0,
        ) by {
            assert(ids@.to_set().contains(ids@[k]));
        }
        assert forall|id: u32| all.hooks.contains_key(id) implies exists|k: int|
            0 <= k < out@.len() && (#[trigger] out@[k]).0 == id by {
            assert(ids@.to_set().contains(id));
            let k = choose|k: int| 0 <= k < ids@.len() && ids@[k] == id;
            assert(out@[k].0 == id);
        }
    }
    out
}

/// The hooked ranges whose instruction cache is to be synchronised: address and length of each
/// hook, in no particular order.
pub fn flush(registry: &mut HookRegistry) -> (ranges: Vec<(u64, usize)>)
    ensures
        final(registry)@ == old(registry)@,
        ranges@.len() == old(registry)@.hooks.dom().len(),
        forall|i: int|
            #![trigger ranges@[i]]
            0 <= i < ranges@.len() ==> is_hooked(old(registry)@.hooks, ranges@[i]),
        forall|id: u32| #[trigger]
            old(registry)@.hooks.contains_key(id) ==> ranges@.contains(
                hooked_range(old(registry)@.hooks[id]),
            ),
{
    let ids = list_hook_ids(registry);
    proof {
        ids@.unique_seq_to_set();
    }
    let mut ranges: Vec<(u64, usize)> = Vec::new();
    let mut i: usize = 0;
    while i < ids.len()
        invariant
            i <= ids@.len(),
            ranges@.len() == i,
            ids@.to_set() == old(registry)@.hooks.dom(),
            registry@ == old(registry)@,
            forall|j: int|
                0 <= j < i ==> #[trigger] ranges@[j] == hooked_range(
                    old(registry)@.hooks[ids@[j]],
                ),
        decreases ids@.len() - i,
    {
        let id: u32 = ids[i];
        assert(ids@.to_set().contains(id));
        match unregister_hook(registry, id) {
            Some(entry) => {
                ranges.push((entry.target, entry.patch_len));
                crate::trampoline::put_back(registry, id, entry);
                assert(registry@.hooks =~= old(registry)@.hooks);
            },
            None => {},
        }
        i = i + 1;
    }
    proof {
        assert forall|k: int| #![trigger ranges@[k]] 0 <= k < ranges@.len() implies is_hooked(
            old(registry)@.hooks,
            ranges@[k],
        ) by {
            assert(ids@.to_set().contains(ids@[k]));
            assert(old(registry)@.hooks.contains_key(ids@[k]));
        }
        assert forall|id: u32| #[trigger]
            old(registry)@.hooks.contains_key(id) implies ranges@.contains(
            hooked_range(old(registry)@.hooks[id]),
        ) by {
            assert(ids@.to_set().contains(id));
            let k = choose|k: int| 0 <= k < ids@.len() && ids@[k] == id;
            assert(ranges@[k] == hooked_range(old(registry)@.hooks[id]));
        }
    }
    ranges
}

/// Whether some hook patches `range`.
pub open spec fn is_hooked(hooks: Map<u32, EntryState>, range: (u64, usize)) -> bool {
    exists|id: u32| #[trigger] hooks.contains_key(id) && range == hooked_range(hooks[id])
}

/// The range that a hook patches.
pub open spec fn hooked_range(e: EntryState) -> (u64, usize) {
    (e.target, e.patch_len)
}

/// The whole pages that hold `len` bytes at `addr`: where they start and how many bytes they
/// are.
pub fn page_span(addr: u64, len: u64, page_size: u64) -> (r: (u64, u64))
    requires
        page_size > 0,
        addr + len + page_size - 1 <= u64::MAX,
    ensures
        r.0 == addr - addr % page_size,
        r.0 % page_size == 0,
        r.1 % page_size == 0,
        r.0 <= addr,
        addr + len <= r.0 + r.1 < addr + len + page_size,
{
    proof {
        vstd::arithmetic::div_mod::lemma_mod_decreases(addr as nat, page_size as nat);
        vstd::arithmetic::div_mod::lemma_mod_decreases(
            (addr + len + (page_size - 1)) as nat,
            page_size as nat,
        );
        vstd::arithmetic::div_mod::lemma_mod_bound(addr as int, page_size as int);
        vstd::arithmetic::div_mod::lemma_mod_bound(
            addr + len + (page_size - 1),
            page_size as int,
        );
    }
    let page: u64 = addr - addr % page_size;
    let past: u64 = addr + len + (page_size - 1);
    let end: u64 = past - past % page_size;
    proof {
        vstd::arithmetic::div_mod::lemma_fundamental_div_mod(addr as int, page_size as int);
        vstd::arithmetic::div_mod::lemma_fundamental_div_mod(past as int, page_size as int);
        let a = addr as int / page_size as int;
        let b = past as int / page_size as int;
        assert(page == page_size * a);
        assert(end == page_size * b);
        vstd::arithmetic::div_mod::lemma_mod_multiples_basic(a, page_size as int);
        vstd::arithmetic::mul::lemma_mul_is_commutative(page_size as int, a);
        vstd::arithmetic::mul::lemma_mul_is_distributive_sub(page_size as int, b, a);
        vstd::arithmetic::div_mod::lemma_mod_multiples_basic(b - a, page_size as int);
        vstd::arithmetic::mul::lemma_mul_is_commutative(page_size as int, b - a);
    }
    (page, end - page)
}

/// `mem` with `bytes` written at its start.
pub open spec fn overwritten(mem: Seq<u8>, bytes: Seq<u8>) -> Seq<u8> {
    bytes + mem.skip(bytes.len() as int)
}

/// Detaching undoes attaching: the original bytes that a hook records, written back over the
/// branch, give the code as it was before, whatever the branch went to.
pub proof fn law_detach_restores_code(
    code: Seq<u8>,
    id: HookId,
    target: u64,
    scratch: u64,
    callbacks: HookCallbacks,
)
    requires
        code.len() >= 16,
    ensures
        ({
            let hooked = overwritten(code, abs_branch(scratch));
            &&& hooked.len() == code.len()
            &&& hooked.skip(16) == code.skip(16)
            &&& overwritten(
                hooked,
                attached_entry(id, target, scratch, code, callbacks).original,
            ) == code
            &&& overwritten(hooked, replaced_entry(id, target, code).original) == code
        }),
{
    let hooked = overwritten(code, abs_branch(scratch));
    assert(abs_branch(scratch).len() == 16);
    assert(hooked.skip(16) =~= code.skip(16));
    assert(overwritten(hooked, code.take(16)) =~= code);
}

/// The parts of the scratch page do not overlap and fit it: the enter thunk lies below the
/// leave thunk, that one below the relocated code, and all within the page.
pub proof fn law_scratch_page_layout(
    id: HookId,
    dispatch: u64,
    body: u64,
    callbacks: HookCallbacks,
)
    ensures
        ({
            let room = simd_room(callbacks.save_simd);
            &&& hook_thunk(id, dispatch, body, callbacks).len() <= LEAVE_OFF + room
            &&& LEAVE_OFF + room + leave_thunk(id, dispatch).len() <= RELOC_OFF + room
            &&& RELOC_OFF + room + 96 <= SCRATCH_LEN
        }),
{
    law_thunk_layout(id, dispatch, body);
    law_simd_frame(id, dispatch, body, callbacks.replace_mode);
}

} // verus!
