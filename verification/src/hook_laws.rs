//! What holds of hooks from their start to their end.
use crate::art::{
    art_method_size, calibrate_art_method_size, clear_hook_context, current_hook_context, distance,
    fnv1a, has_js_implementation, hook_art_method, hook_java_method, hook_of, set_hook_context,
    set_js_implementation, take_js_implementation, unhook_art_method, ArtError, ArtState,
    HookContext,
};
use crate::bytes::{law_quad_round_trip, law_word_round_trip, le32, le64, quad_at, word_at};
use crate::decoder::displaced;
use crate::encode::{abs_branch, law_abs_branch_layout};
use crate::java_hook::{
    ensure_calibrated, install_hook_env, law_native_flags, made_native, native_flags, original_args,
    patch_method, Bridge, Dispatch, JavaHooks, KnownLevel, MainTokens, SlotHook,
};
use crate::native_laws::{calls_with, is_jump, law_attached_code_hangs_together};
use crate::patch::{attach, detach, detach_all, replace_ptr, AttachPlan, HookError};
use crate::writer::CodeWrite;
use crate::trampoline::{
    alloc_hook_id, finish_enter, finish_leave, goauld_dispatch_enter, goauld_dispatch_leave,
    register_hook, unregister_hook, CpuContext, HookCallbacks, HookEntry, HookId, HookRegistry,
};
use vstd::prelude::*;

verus! {

/// A thread that enters a hooked function calls its enter callback. Where the hook wants to know
/// of its return, the thread returns to the leave thunk and its own return address is kept; no
/// other register changes.
pub proof fn law_enter_redirects_the_return(
    registry: &mut HookRegistry,
    ctx: &mut CpuContext,
    id: HookId,
    tid: u32,
    cb: Option<u64>,
    i: int,
)
    requires
        call_ensures(goauld_dispatch_enter, (registry, ctx, id, tid), cb),
        old(registry)@.hooks.contains_key(id),
        0 <= i < 31,
    ensures
        ({
            let e = old(registry)@.hooks[id];
            let wants = (e.callbacks.on_leave is Some || e.callbacks.replace_mode) && e.leave_thunk
                != 0;
            let after = final(registry)@.hooks[id];
            &&& cb == e.callbacks.on_enter
            &&& i != 30 ==> final(ctx).x@[i] == old(ctx).x@[i]
            &&& final(ctx).sp == old(ctx).sp
            &&& final(ctx).pc == old(ctx).pc
            &&& wants ==> final(ctx).x@[30] == e.leave_thunk && after.stack(tid) == e.stack(
                tid,
            ).push(old(ctx).x@[30])
            &&& !wants ==> final(ctx).x@[30] == old(ctx).x@[30] && after.stack(tid) == e.stack(tid)
            &&& after.callbacks.on_leave == e.callbacks.on_leave
            &&& after.callbacks.on_enter is None
        }),
{
}

/// A thread that enters a function that is not hooked keeps all it has, and calls nothing.
pub proof fn law_enter_of_nothing(
    registry: &mut HookRegistry,
    ctx: &mut CpuContext,
    id: HookId,
    tid: u32,
    cb: Option<u64>,
)
    requires
        call_ensures(goauld_dispatch_enter, (registry, ctx, id, tid), cb),
        !old(registry)@.hooks.contains_key(id),
    ensures
        cb is None,
        *final(ctx) == *old(ctx),
        final(registry)@ == old(registry)@,
{
}

/// The callback that was taken for a call is in place again after it, unless another one was set
/// meanwhile.
pub proof fn law_enter_callback_is_put_back(
    registry: &mut HookRegistry,
    id: HookId,
    cb: Option<u64>,
)
    requires
        call_ensures(finish_enter, (registry, id, cb), ()),
        old(registry)@.hooks.contains_key(id),
    ensures
        final(registry)@.hooks.contains_key(id),
        old(registry)@.hooks[id].callbacks.on_enter is None
            ==> final(registry)@.hooks[id].callbacks.on_enter == cb,
        old(registry)@.hooks[id].callbacks.on_enter is Some
            ==> final(registry)@.hooks[id] == old(registry)@.hooks[id],
{
}

/// A thread that leaves a hooked function hands its result to the leave callback.
pub proof fn law_leave_tells_the_result(
    registry: &mut HookRegistry,
    ctx: &CpuContext,
    id: HookId,
    r: Option<(Option<u64>, u64)>,
)
    requires
        call_ensures(goauld_dispatch_leave, (registry, ctx, id), r),
    ensures
        r is Some <==> old(registry)@.hooks.contains_key(id),
        r matches Some((cb, v)) ==> cb == old(registry)@.hooks[id].callbacks.on_leave && v
            == ctx.x@[0],
{
}

/// A thread that has left a hooked function returns to the address that was kept for it last; no
/// other register changes.
pub proof fn law_leave_returns_to_the_caller(
    registry: &mut HookRegistry,
    ctx: &mut CpuContext,
    id: HookId,
    tid: u32,
    cb: Option<u64>,
    kept: Seq<u64>,
    lr: u64,
    i: int,
)
    requires
        call_ensures(finish_leave, (registry, ctx, id, tid, cb), ()),
        old(registry)@.hooks.contains_key(id),
        old(registry)@.hooks[id].stack(tid) == kept.push(lr),
        0 <= i < 30,
    ensures
        final(ctx).x@[30] == lr,
        final(ctx).x@[i] == old(ctx).x@[i],
        final(ctx).sp == old(ctx).sp,
        final(registry)@.hooks[id].stack(tid) == kept,
{
    assert(kept.push(lr).drop_last() =~= kept);
}

/// A hook that is registered is listed and found under its number; one that is taken out is not.
pub proof fn law_registered_hook_is_found(registry: &mut HookRegistry, entry: HookEntry)
    requires
        call_ensures(register_hook, (registry, entry), ()),
    ensures
        final(registry)@.hooks.contains_key(entry.id),
        final(registry)@.hooks[entry.id] == entry@,
        forall|other: u32|
            other != entry.id ==> (#[trigger] final(registry)@.hooks.contains_key(other)
                <==> old(registry)@.hooks.contains_key(other)),
        forall|other: u32|
            other != entry.id && old(registry)@.hooks.contains_key(other)
                ==> #[trigger] final(registry)@.hooks[other] == old(registry)@.hooks[other],
{
}

/// A hook that is taken out is handed over and gone; the others stay.
pub proof fn law_unregistered_hook_is_gone(
    registry: &mut HookRegistry,
    id: HookId,
    e: Option<HookEntry>,
    other: u32,
)
    requires
        call_ensures(unregister_hook, (registry, id), e),
        other != id,
    ensures
        !final(registry)@.hooks.contains_key(id),
        e is Some <==> old(registry)@.hooks.contains_key(id),
        final(registry)@.hooks.contains_key(other) <==> old(registry)@.hooks.contains_key(other),
{
}

/// Numbers for hooks are given once each, in turn.
pub proof fn law_hook_numbers_in_turn(registry: &mut HookRegistry, id: HookId)
    requires
        call_ensures(alloc_hook_id, (registry,), id),
        old(registry)@.next_id < u32::MAX,
    ensures
        id == old(registry)@.next_id,
        final(registry)@.next_id == id + 1,
        final(registry)@.hooks == old(registry)@.hooks,
{
}

/// The hook that is made at a function: the function's start jumps to the enter thunk, the thunk
/// calls for the hook and goes on in the displaced code, and that code ends where the function
/// goes on.
pub proof fn law_hook_is_attached(
    registry: &mut HookRegistry,
    target: u64,
    code: &[u8],
    callbacks: HookCallbacks,
    scratch: u64,
    on_enter: u64,
    on_leave: u64,
    r: Result<AttachPlan, HookError>,
)
    requires
        call_ensures(
            attach,
            (registry, target, code, callbacks, Ok::<u64, HookError>(scratch), on_enter, on_leave),
            r,
        ),
        code@.len() >= 16,
        !callbacks.save_simd,
    ensures
        r matches Ok(plan) && ({
            let enter = plan.scratch@[0].bytes@;
            let body = plan.scratch@[1].bytes@;
            &&& plan.patch.addr == target
            &&& plan.patch.bytes@.len() == 16
            &&& is_jump(plan.patch.bytes@, 0, plan.scratch@[0].addr)
            &&& plan.scratch@[0].addr == scratch
            &&& plan.entry@.id == old(registry)@.next_id
            &&& plan.entry@.target == target
            &&& plan.entry@.original == code@.take(16)
            &&& plan.entry@.callbacks == callbacks
            &&& plan.hook.id == plan.entry@.id
            &&& plan.hook.target == target
            &&& calls_with(enter, 72, plan.entry@.id as int % 0x1_0000, on_enter)
            &&& !callbacks.replace_mode ==> is_jump(enter, 180, plan.scratch@[1].addr)
            &&& is_jump(body, body.len() - 16, displaced(target, 16))
            &&& callbacks.on_leave is Some || callbacks.replace_mode ==> plan.scratch@.len() == 3
                && plan.entry@.leave_thunk == plan.scratch@[2].addr && calls_with(
                plan.scratch@[2].bytes@,
                72,
                plan.entry@.id as int % 0x1_0000,
                on_leave,
            )
        }),
        final(registry)@.hooks == old(registry)@.hooks,
{
    law_attached_code_hangs_together(
        old(registry)@.next_id,
        target,
        code@,
        callbacks,
        scratch,
        on_enter,
        on_leave,
        r,
    );
}

/// A function that is replaced jumps to its replacement at once, and what stood there is kept.
pub proof fn law_function_is_replaced(
    registry: &mut HookRegistry,
    target: u64,
    code: &[u8],
    replacement: u64,
    r: Result<AttachPlan, HookError>,
)
    requires
        call_ensures(replace_ptr, (registry, target, code, replacement), r),
        code@.len() >= 16,
    ensures
        r matches Ok(plan) && {
            &&& plan.patch.addr == target
            &&& plan.patch.bytes@.len() == 16
            &&& is_jump(plan.patch.bytes@, 0, replacement)
            &&& plan.entry@.target == target
            &&& plan.entry@.original == code@.take(16)
            &&& plan.entry@.id == old(registry)@.next_id
            &&& plan.hook.id == plan.entry@.id
        },
{
    lemma_jump(replacement);
}

proof fn lemma_jump(address: u64)
    ensures
        is_jump(abs_branch(address), 0, address),
        abs_branch(address).len() == 16,
{
    let b = abs_branch(address);
    let none = Seq::<u8>::empty();
    law_abs_branch_layout(address);
    assert(none + b =~= b);
    law_word_round_trip(none, 0x5800_0051u32, b.skip(4));
    law_word_round_trip(b.take(4), 0xD61F_0220u32, b.skip(8));
    law_quad_round_trip(b.take(8), address, none);
    assert(none + le32(0x5800_0051u32) + b.skip(4) =~= b);
    assert(b.take(4) + le32(0xD61F_0220u32) + b.skip(8) =~= b);
    assert(b.take(8) + le64(address) + none =~= b);
}

/// Detaching a hook writes back, where it stood, what stood there, and the hook is gone; a hook
/// that is not there is an error with its number.
pub proof fn law_detach_writes_back(
    registry: &mut HookRegistry,
    id: HookId,
    r: Result<Option<CodeWrite>, HookError>,
)
    requires
        call_ensures(detach, (registry, id), r),
    ensures
        !final(registry)@.hooks.contains_key(id),
        old(registry)@.hooks.contains_key(id) && old(registry)@.hooks[id].original.len() > 0 ==> (
        r matches Ok(Some(w)) && w.addr == old(registry)@.hooks[id].target && w.bytes@ == old(
            registry,
        )@.hooks[id].original),
        !old(registry)@.hooks.contains_key(id) ==> r == Err::<Option<CodeWrite>, HookError>(
            HookError::NotFound(id),
        ),
{
}

/// The size of a method is the distance of two that stand side by side, whichever is first.
pub proof fn law_method_size(
    state: &mut ArtState,
    a: usize,
    b: usize,
    n: usize,
)
    requires
        call_ensures(calibrate_art_method_size, (state, a, b), Ok::<usize, ArtError>(n)),
    ensures
        a + n == b || b + n == a,
        16 <= n <= 512,
        final(state)@.size == Some(n),
        final(state)@.hooks == old(state)@.hooks,
{
}

/// A hooked method is its bridge for as many bytes as a method has, and behind them what it was;
/// taking the hook out gives the method as it was.
pub proof fn law_hooked_method(
    state: &mut ArtState,
    target: usize,
    bridge: usize,
    method: &mut Vec<u8>,
    bridge_method: &Vec<u8>,
    n: usize,
    r: Result<(), ArtError>,
    i: int,
)
    requires
        old(state)@.size == Some(n),
        n <= old(method)@.len(),
        n <= bridge_method@.len(),
        call_ensures(hook_art_method, (state, target, bridge, method, bridge_method), r),
        0 <= i < old(method)@.len(),
    ensures
        r is Ok,
        final(method)@.len() == old(method)@.len(),
        i < n ==> final(method)@[i] == bridge_method@[i],
        i >= n ==> final(method)@[i] == old(method)@[i],
        final(state)@.hooks.last().target == target,
        final(state)@.hooks.last().saved == old(method)@.take(n as int),
        final(state)@.hooks.drop_last() == old(state)@.hooks,
{
    assert(final(state)@.hooks.drop_last() =~= old(state)@.hooks);
}

/// A method that is no longer hooked has its own bytes again, and its hook is gone.
pub proof fn law_unhooked_method(
    state: &mut ArtState,
    target: usize,
    method: &mut Vec<u8>,
    r: Result<(), ArtError>,
    i: int,
)
    requires
        hook_of(old(state)@.hooks, target) is Some,
        hook_of(old(state)@.hooks, target).unwrap().saved.len() <= old(method)@.len(),
        call_ensures(unhook_art_method, (state, target, method), r),
        0 <= i < old(method)@.len(),
    ensures
        r is Ok,
        ({
            let saved = hook_of(old(state)@.hooks, target).unwrap().saved;
            &&& final(method)@.len() == old(method)@.len()
            &&& i < saved.len() ==> final(method)@[i] == saved[i]
            &&& i >= saved.len() ==> final(method)@[i] == old(method)@[i]
        }),
        hook_of(old(state)@.hooks, target).unwrap().target == target,
        final(state)@.hooks.len() == old(state)@.hooks.len() - 1,
{
    lemma_hook_of(old(state)@.hooks, target, 0);
}

proof fn lemma_hook_of(hooks: Seq<crate::art::SavedMethod>, target: usize, i: int)
    requires
        0 <= i <= hooks.len(),
    ensures
        i <= crate::art::hook_index(hooks, target, i) <= hooks.len(),
        crate::art::hook_index(hooks, target, i) < hooks.len() ==> hooks[crate::art::hook_index(
            hooks,
            target,
            i,
        )].target == target,
    decreases hooks.len() - i,
{
    if i < hooks.len() && hooks[i].target != target {
        lemma_hook_of(hooks, target, i + 1);
    }
}

/// A script that was set for a bridge is the one that is taken for it.
pub proof fn law_script_is_found(state: &mut ArtState, id: u64, token: u64, other: u64)
    requires
        call_ensures(set_js_implementation, (state, id, token), ()),
        other != id,
    ensures
        final(state)@.js.contains_key(id) && final(state)@.js[id] == token,
        final(state)@.js.contains_key(other) <==> old(state)@.js.contains_key(other),
        old(state)@.js.contains_key(other) ==> final(state)@.js[other] == old(state)@.js[other],
{
}

/// The context of a hook that was set is the one that is running.
pub proof fn law_hook_context(
    ctx: &mut HookContext,
    env: usize,
    thiz: usize,
    art: usize,
    now: &HookContext,
    r: Option<(usize, usize, usize)>,
)
    requires
        call_ensures(set_hook_context, (ctx, env, thiz, art), ()),
        call_ensures(current_hook_context, (now,), r),
        art != 0,
        thiz != 0,
    ensures
        *final(ctx) == *now ==> r == Some((env, thiz, art)),
{
}

/// A method that was made native has the bridge and the entry in their fields, its flags say that
/// it is native and no longer fast, and all else is as it was.
pub proof fn law_method_is_made_native(
    m: &mut Vec<u8>,
    bridge: u64,
    entry: u64,
    saved: Vec<u8>,
    i: int,
)
    requires
        old(m)@.len() >= 32,
        call_ensures(patch_method, (m, bridge, entry), saved),
        0 <= i < old(m)@.len(),
    ensures
        saved@ == old(m)@,
        final(m)@.len() == old(m)@.len(),
        quad_at(final(m)@, 16) == bridge,
        quad_at(final(m)@, 24) == entry,
        ({
            let before = word_at(old(m)@, 4);
            let after = word_at(final(m)@, 4);
            &&& after & 0x100 == 0x100
            &&& after & 0x8_0000 == 0
            &&& after & 0x20_0000 == 0
            &&& after & 0xc000_0000 == 0
            &&& after & 0x3fd7_feff == before & 0x3fd7_feff
        }),
        i < 4 || 8 <= i < 16 || i >= 32 ==> final(m)@[i] == old(m)@[i],
{
    lemma_native_fields(old(m)@, bridge, entry);
    law_native_flags(word_at(old(m)@, 4));
}

proof fn lemma_native_fields(b: Seq<u8>, bridge: u64, entry: u64)
    requires
        b.len() >= 32,
    ensures
        ({
            let a = made_native(b, bridge, entry);
            &&& a.len() == b.len()
            &&& word_at(a, 4) == native_flags(word_at(b, 4))
            &&& quad_at(a, 16) == bridge
            &&& quad_at(a, 24) == entry
            &&& forall|i: int|
                0 <= i < 4 || 8 <= i < 16 || 32 <= i < b.len() ==> #[trigger] a[i] == b[i]
        }),
{
    let f = native_flags(word_at(b, 4));
    let a = made_native(b, bridge, entry);
    let behind = b.subrange(8, 16) + le64(bridge) + le64(entry) + b.skip(32);
    let front = b.take(4) + le32(f) + b.subrange(8, 16);
    let last = le64(entry) + b.skip(32);
    lemma_native_pieces(b, f, bridge, entry);
    law_word_round_trip(b.take(4), f, behind);
    law_quad_round_trip(front, bridge, last);
    law_quad_round_trip(front + le64(bridge), entry, b.skip(32));
}

proof fn lemma_native_pieces(b: Seq<u8>, f: u32, bridge: u64, entry: u64)
    requires
        b.len() >= 32,
    ensures
        ({
            let a = b.take(4) + le32(f) + b.subrange(8, 16) + le64(bridge) + le64(entry) + b.skip(32);
            let front = b.take(4) + le32(f) + b.subrange(8, 16);
            &&& a.len() == b.len()
            &&& front.len() == 16
            &&& (front + le64(bridge)).len() == 24
            &&& a == b.take(4) + le32(f) + (b.subrange(8, 16) + le64(bridge) + le64(entry) + b.skip(
                32,
            ))
            &&& a == front + le64(bridge) + (le64(entry) + b.skip(32))
            &&& forall|i: int|
                0 <= i < 4 || 8 <= i < 16 || 32 <= i < b.len() ==> #[trigger] a[i] == b[i]
        }),
{
    let a = b.take(4) + le32(f) + b.subrange(8, 16) + le64(bridge) + le64(entry) + b.skip(32);
    let front = b.take(4) + le32(f) + b.subrange(8, 16);
    assert(a =~= b.take(4) + le32(f) + (b.subrange(8, 16) + le64(bridge) + le64(entry) + b.skip(
        32,
    )));
    assert(a =~= front + le64(bridge) + (le64(entry) + b.skip(32)));
}

/// A hook that is installed calls the bridge of its slot, is found by its slot and by its method,
/// and what the method was is kept.
pub proof fn law_installed_hook(
    hooks: &mut JavaHooks,
    state: &mut ArtState,
    method: &mut Vec<u8>,
    hook: SlotHook,
    entry: u64,
    bridges: &[u64; 16],
    slot: usize,
    n: usize,
)
    requires
        old(hooks)@.wf(),
        old(method)@.len() >= 32,
        old(state)@.size == Some(n),
        n <= old(method)@.len(),
        call_ensures(
            install_hook_env,
            (hooks, state, method, hook, entry, bridges),
            Ok::<usize, ArtError>(slot),
        ),
    ensures
        slot < 16,
        quad_at(final(method)@, 16) == bridges@[slot as int],
        quad_at(final(method)@, 24) == entry,
        final(hooks)@.slots[slot as int] == hook@,
        final(hooks)@.live[hook.art] == slot,
        final(state)@.hooks.last().target == hook.art,
        final(state)@.hooks.last().saved == old(method)@.take(n as int),
{
    lemma_native_fields(old(method)@, bridges@[slot as int], entry);
}

/// A call of a hooked method runs its script; one that is made from a script runs the method, and
/// one that is made from the method gives its argument.
pub proof fn law_dispatch(b: &mut Bridge, art: usize, env: usize, d: Dispatch)
    requires
        call_ensures(Bridge::dispatch_slot, (b, Some(art), env), d),
    ensures
        d is Script <==> !old(b).in_bridge,
        d is Original <==> old(b).in_bridge && !old(b).in_original,
        d is Argument <==> old(b).in_bridge && old(b).in_original,
        d is Script ==> final(b).in_bridge && final(b).ctx.art == art && final(b).ctx.env == env,
        d !is Script ==> *final(b) == *old(b),
{
}

/// A call that leaves its hook gives what the script said, and the bridge is free again.
pub proof fn law_leave_gives_what_was_said(b: &mut Bridge, said: Option<i32>, x: i32, r: i32)
    requires
        call_ensures(Bridge::leave, (b, said, x), r),
    ensures
        said matches Some(v) ==> r == v,
        !final(b).in_bridge,
        final(b).ctx.art == 0,
        final(b).in_original == old(b).in_original,
{
}

/// The method as it was is called by its backup, and not again from within.
pub proof fn law_original_is_the_backup(
    b: &mut Bridge,
    backup: Option<usize>,
    r: Result<usize, ArtError>,
)
    requires
        call_ensures(Bridge::start_original, (b, backup), r),
    ensures
        r matches Ok(p) ==> backup == Some(p) && !old(b).in_original && final(b).in_original,
        r is Err ==> *final(b) == *old(b) && (old(b).in_original || backup is None),
{
}

/// The arguments of a method as it was: its receiver, unless it is static, and the number, whose
/// bits stay.
pub proof fn law_original_arguments(is_static: bool, receiver: u32, x: i32, args: Vec<u32>)
    requires
        call_ensures(original_args, (is_static, receiver, x), args),
    ensures
        args@.len() == if is_static {
            1int
        } else {
            2
        },
        !is_static ==> args@[0] == receiver,
        (args@.last() - x) % 0x1_0000_0000 == 0,
{
    let u = x as u32;
    assert(x >= 0 ==> u == x) by (bit_vector)
        requires
            u == x as u32,
    ;
    assert(x < 0 ==> u == x + 0x1_0000_0000) by (bit_vector)
        requires
            u == x as u32,
    ;
}

/// Tokens for work on the main thread are given once each, in turn.
pub proof fn law_tokens_in_turn(t: &mut MainTokens, n: u64)
    requires
        old(t).next < u64::MAX,
        call_ensures(MainTokens::next_main_token, (t,), n),
    ensures
        n == old(t).next,
        final(t).next == n + 1,
{
}

/// A level that is known is not read again.
pub proof fn law_level_is_kept(k: &mut KnownLevel, read: u32, n: u32)
    requires
        call_ensures(KnownLevel::android_sdk_int, (k, read), n),
    ensures
        old(k).level != 0 ==> n == old(k).level,
        old(k).level == 0 ==> n == read,
        final(k).level == n,
{
}

/// Undoing all hooks leaves none, and what it tells to write of a hook is the code that stood at
/// its target.
pub proof fn law_all_hooks_are_undone(
    registry: &mut HookRegistry,
    r: Vec<(HookId, Option<CodeWrite>)>,
    i: int,
)
    requires
        call_ensures(detach_all, (registry,), r),
        0 <= i < r@.len(),
    ensures
        final(registry)@.hooks.dom() == Set::<u32>::empty(),
        old(registry)@.hooks.contains_key(r@[i].0),
        old(registry)@.hooks[r@[i].0].original.len() > 0 ==> (r@[i].1 matches Some(w) && w.addr
            == old(registry)@.hooks[r@[i].0].target && w.bytes@ == old(
            registry,
        )@.hooks[r@[i].0].original),
{
    assert(old(registry)@.hooks.contains_key(r@[i].0));
}

/// The hash of some bytes is mixed with the next one and multiplied; that of none is the basis.
pub proof fn law_bytes_are_mixed_in(bytes: Seq<u8>, next: u8)
    ensures
        fnv1a(Seq::empty()) == 14695981039346656037u64,
        fnv1a(bytes.push(next)) == ((fnv1a(bytes) ^ (next as u64)) * 1099511628211)
            % 0x1_0000_0000_0000_0000,
{
    assert(bytes.push(next).drop_last() =~= bytes);
}

/// The size of a method is found from two that stand side by side, in either order.
pub proof fn law_method_size_is_found(
    state: &mut ArtState,
    a: usize,
    n: usize,
    swapped: bool,
    r: Result<usize, ArtError>,
)
    requires
        a > 0,
        16 <= n <= 512,
        a + n <= usize::MAX,
        swapped ==> call_ensures(calibrate_art_method_size, (state, (a + n) as usize, a), r),
        !swapped ==> call_ensures(calibrate_art_method_size, (state, a, (a + n) as usize), r),
    ensures
        r == Ok::<usize, ArtError>(n),
{
}

/// Attaching takes the next number, whether it works or not.
pub proof fn law_attaching_takes_a_number(
    registry: &mut HookRegistry,
    target: u64,
    code: &[u8],
    callbacks: HookCallbacks,
    page: Result<u64, HookError>,
    on_enter: u64,
    on_leave: u64,
    r: Result<AttachPlan, HookError>,
)
    requires
        call_ensures(attach, (registry, target, code, callbacks, page, on_enter, on_leave), r),
        old(registry)@.next_id < u32::MAX,
    ensures
        final(registry)@.next_id == old(registry)@.next_id + 1,
        final(registry)@.hooks == old(registry)@.hooks,
        r matches Ok(plan) ==> plan.hook.id == old(registry)@.next_id,
{
}

/// A size that is known stays; else it is the distance of two methods, in either order, where
/// that is a multiple of eight that a method can have, and the default where it is not.
pub proof fn law_size_is_known(
    state: &mut ArtState,
    a: usize,
    other: usize,
    n: usize,
    sdk: u32,
    r: Result<(), ArtError>,
)
    requires
        call_ensures(ensure_calibrated, (state, a, Some(other), sdk), r),
        a == other + n || other == a + n,
    ensures
        r is Ok,
        old(state)@.size is Some ==> final(state)@ == old(state)@,
        old(state)@.size is None && 16 <= n <= 512 && n % 8 == 0 ==> final(state)@.size == Some(n),
        old(state)@.size is None && !(16 <= n <= 512 && n % 8 == 0) ==> final(state)@.size == Some(
            if 0 < sdk < 26 {
                24usize
            } else {
                32
            },
        ),
{
}

/// A method that a script implements is found under the hash of its class and its name, and what
/// other scripts implement stays.
pub proof fn law_java_method_is_hooked(
    state: &mut ArtState,
    class: &str,
    method: &str,
    sig: &str,
    r: Result<(), ArtError>,
    id: u64,
    has: bool,
    token: Option<u64>,
)
    requires
        call_ensures(hook_java_method, (state, class, method, sig), r),
        call_ensures(has_js_implementation, (final(state), id), has),
        call_ensures(take_js_implementation, (final(state), id), token),
    ensures
        r is Ok,
        has == (token is Some),
        id == fnv1a(vstd::utf8::encode_utf8(class@ + seq!['.'] + method@)) ==> has,
        old(state)@.js.contains_key(id) ==> has,
        has ==> old(state)@.js.contains_key(id) || id == fnv1a(
            vstd::utf8::encode_utf8(class@ + seq!['.'] + method@),
        ),
        final(state)@.hooks == old(state)@.hooks,
{
    reveal_strlit(".");
    assert("."@ =~= seq!['.']);
}

/// Nothing is current once a context was cleared.
pub proof fn law_context_is_cleared(ctx: &mut HookContext, r: Option<(usize, usize, usize)>)
    requires
        call_ensures(clear_hook_context, (ctx,), ()),
        call_ensures(HookContext::current, (final(ctx),), r),
    ensures
        r is None,
{
}

/// What a bridge receives is the receiver that it has from there on; without one it is left, and
/// no method is current.
pub proof fn law_bridge_receives(b: &mut Bridge, thiz: Option<usize>, r: bool)
    requires
        call_ensures(Bridge::receive, (b, thiz), r),
    ensures
        r == (thiz is Some),
        thiz matches Some(t) ==> final(b).ctx.thiz == t && final(b).ctx.art == old(b).ctx.art
            && final(b).ctx.env == old(b).ctx.env && final(b).in_bridge == old(b).in_bridge,
        thiz is None ==> !final(b).in_bridge && final(b).ctx.art == 0 && final(b).ctx.env == 0,
{
}

/// A hook of a method that is found is that of the method and stands in a slot.
pub proof fn law_hook_of_method(
    hooks: &JavaHooks,
    art: usize,
    h: &SlotHook,
    slot: usize,
    s: Option<&SlotHook>,
)
    requires
        hooks@.wf(),
        call_ensures(JavaHooks::of_method, (hooks, art), Some(h)),
        slot == hooks@.live[art],
        call_ensures(JavaHooks::in_slot, (hooks, slot), s),
    ensures
        h.art == art,
        slot < hooks@.slots.len() ==> (s matches Some(t) && t@ == h@),
        slot >= hooks@.slots.len() ==> s is None,
{
}

/// The size that was measured is the one that is given.
pub proof fn law_known_size(
    state: &mut ArtState,
    a: usize,
    b: usize,
    n: usize,
    r: Result<usize, ArtError>,
)
    requires
        call_ensures(calibrate_art_method_size, (state, a, b), Ok::<usize, ArtError>(n)),
        call_ensures(art_method_size, (final(state),), r),
    ensures
        r == Ok::<usize, ArtError>(n),
{
}

} // verus!
