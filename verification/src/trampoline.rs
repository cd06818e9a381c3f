//! Enter/leave thunks, the saved register file and the hook registry.
use crate::bytes::{le32, le64, push_bytes, push_u32, push_u64};
use crate::encode::{abs_branch, encode_abs_branch};
use crate::writer::{pops, pushes, Arm64Writer};
use crate::writer_laws::law_save_and_restore_sizes;
use std::collections::HashMap;
use vstd::prelude::*;

verus! {

broadcast use vstd::std_specs::hash::group_hash_axioms;

/// Saved general register file presented to enter and leave callbacks.
///
/// The fields stand in the order of the arm64 `user_regs_struct`.
#[derive(Debug, Clone, Copy)]
pub struct CpuContext {
    /// X0 to X30.
    pub x: [u64; 31],
    pub sp: u64,
    pub pc: u64,
    pub pstate: u64,
}

impl Default for CpuContext {
    fn default() -> (c: Self)
        ensures
            forall|i: int| 0 <= i < 31 ==> c.x@[i] == 0,
            c.sp == 0,
            c.pc == 0,
            c.pstate == 0,
    {
        CpuContext { x: [0;31], sp: 0, pc: 0, pstate: 0 }
    }
}

pub type HookId = u32;

/// What a hook calls. A callback is known by its number; it runs outside of the registry.
#[derive(Debug, Clone, Copy, PartialEq, Eq, Structural)]
pub struct HookCallbacks {
    pub on_enter: Option<u64>,
    pub on_leave: Option<u64>,
    /// When true, the enter thunk also saves and restores Q0 to Q31.
    pub save_simd: bool,
    /// Run the enter callback and return without calling the original.
    pub replace_mode: bool,
}

impl Default for HookCallbacks {
    fn default() -> (c: Self)
        ensures
            c == (HookCallbacks {
                on_enter: None,
                on_leave: None,
                save_simd: false,
                replace_mode: false,
            }),
    {
        HookCallbacks { on_enter: None, on_leave: None, save_simd: false, replace_mode: false }
    }
}

pub struct HookEntry {
    pub id: HookId,
    pub target: u64,
    pub trampoline: u64,
    /// Address of the leave thunk (0 = none).
    pub leave_thunk: u64,
    pub patch_len: usize,
    pub original_bytes: Vec<u8>,
    pub callbacks: HookCallbacks,
    /// Per thread, the return addresses that were replaced by the leave thunk.
    pub saved_lr: HashMap<u32, Vec<u64>>,
}

/// A hook, as contracts speak of it.
#[verifier::ext_equal]
pub struct EntryState {
    pub id: HookId,
    pub target: u64,
    pub trampoline: u64,
    pub leave_thunk: u64,
    pub patch_len: usize,
    pub original: Seq<u8>,
    pub callbacks: HookCallbacks,
    pub saved: Map<u32, Seq<u64>>,
}

impl View for HookEntry {
    type V = EntryState;

    open spec fn view(&self) -> EntryState {
        EntryState {
            id: self.id,
            target: self.target,
            trampoline: self.trampoline,
            leave_thunk: self.leave_thunk,
            patch_len: self.patch_len,
            original: self.original_bytes@,
            callbacks: self.callbacks,
            saved: self.saved_lr@.map_values(|v: Vec<u64>| v@),
        }
    }
}

impl EntryState {
    /// The return addresses saved for a thread, the latest last.
    pub open spec fn stack(self, tid: u32) -> Seq<u64> {
        if self.saved.contains_key(tid) {
            self.saved[tid]
        } else {
            Seq::empty()
        }
    }

    /// Whether the hooked function is to return through the leave thunk.
    pub open spec fn wants_leave(self) -> bool {
        (self.callbacks.on_leave is Some || self.callbacks.replace_mode) && self.leave_thunk != 0
    }

    /// The hook with other callbacks.
    pub open spec fn with_callbacks(self, callbacks: HookCallbacks) -> EntryState {
        EntryState { callbacks, ..self }
    }

    /// The hook after a thread entered the function with this return address. The enter
    /// callback is out.
    pub open spec fn entered(self, tid: u32, lr: u64) -> EntryState {
        EntryState {
            saved: if self.wants_leave() {
                self.saved.insert(tid, self.stack(tid).push(lr))
            } else {
                self.saved
            },
            callbacks: HookCallbacks { on_enter: None, ..self.callbacks },
            ..self
        }
    }

    /// The hook with the enter callback back in its place, unless another one took it.
    pub open spec fn enter_done(self, cb: Option<u64>) -> EntryState {
        if self.callbacks.on_enter is None {
            self.with_callbacks(HookCallbacks { on_enter: cb, ..self.callbacks })
        } else {
            self
        }
    }

    /// The hook after a thread left the function. The leave callback is back in its place,
    /// unless another one took it, and the latest return address is off the thread's stack.
    pub open spec fn leave_done(self, tid: u32, cb: Option<u64>) -> EntryState {
        EntryState {
            saved: if self.stack(tid).len() > 0 {
                self.saved.insert(tid, self.stack(tid).drop_last())
            } else {
                self.saved
            },
            callbacks: if self.callbacks.on_leave is None {
                HookCallbacks { on_leave: cb, ..self.callbacks }
            } else {
                self.callbacks
            },
            ..self
        }
    }
}

/// The hooks by their numbers, and the number of the next one.
pub struct HookRegistry {
    next_id: u32,
    hooks: HashMap<u32, HookEntry>,
}

/// A registry, as contracts speak of it.
#[verifier::ext_equal]
pub struct RegistryState {
    pub next_id: u32,
    pub hooks: Map<u32, EntryState>,
}

impl View for HookRegistry {
    type V = RegistryState;

    closed spec fn view(&self) -> RegistryState {
        RegistryState {
            next_id: self.next_id,
            hooks: self.hooks@.map_values(|e: HookEntry| e@),
        }
    }
}

impl RegistryState {
    /// The registry with one hook changed.
    pub open spec fn updated(self, id: HookId, e: EntryState) -> RegistryState {
        RegistryState { hooks: self.hooks.insert(id, e), ..self }
    }
}

impl HookRegistry {
    /// No hooks; numbers start at 1.
    pub fn new() -> (r: Self)
        ensures
            r@ == (RegistryState { next_id: 1, hooks: Map::empty() }),
    {
        let r = HookRegistry { next_id: 1, hooks: HashMap::new() };
        assert(r@.hooks =~= Map::<u32, EntryState>::empty());
        r
    }

    /// Takes a hook out.
    fn take(&mut self, id: HookId) -> (e: Option<HookEntry>)
        ensures
            final(self)@ == (RegistryState { hooks: old(self)@.hooks.remove(id), ..old(self)@ }),
            match e {
                Some(entry) => old(self)@.hooks.contains_key(id) && entry@ == old(self)@.hooks[id],
                None => !old(self)@.hooks.contains_key(id),
            },
    {
        let e = self.hooks.remove(&id);
        assert(self@.hooks =~= old(self)@.hooks.remove(id));
        e
    }

    /// Puts a hook in.
    fn put(&mut self, id: HookId, entry: HookEntry)
        ensures
            final(self)@ == old(self)@.updated(id, entry@),
    {
        self.hooks.insert(id, entry);
        assert(self@.hooks =~= old(self)@.hooks.insert(id, entry@));
    }
}

/// The next hook number; numbers start over after the last.
pub fn alloc_hook_id(registry: &mut HookRegistry) -> (id: HookId)
    ensures
        id == old(registry)@.next_id,
        final(registry)@ == (RegistryState {
            next_id: (if id == u32::MAX {
                0
            } else {
                id + 1
            }) as u32,
            ..old(registry)@
        }),
{
    let id: u32 = registry.next_id;
    registry.next_id = id.wrapping_add(1);
    id
}

/// Puts a hook in under its number, in place of another with that number.
pub fn register_hook(registry: &mut HookRegistry, entry: HookEntry)
    ensures
        final(registry)@ == old(registry)@.updated(entry@.id, entry@),
{
    let id: u32 = entry.id;
    registry.put(id, entry);
}

/// Puts a hook back under a number that it was taken out from.
pub(crate) fn put_back(registry: &mut HookRegistry, id: HookId, entry: HookEntry)
    ensures
        final(registry)@ == old(registry)@.updated(id, entry@),
{
    registry.put(id, entry);
}

/// Takes a hook out.
pub fn unregister_hook(registry: &mut HookRegistry, id: HookId) -> (e: Option<HookEntry>)
    ensures
        final(registry)@ == (RegistryState {
            hooks: old(registry)@.hooks.remove(id),
            ..old(registry)@
        }),
        match e {
            Some(entry) => old(registry)@.hooks.contains_key(id) && entry@ == old(
                registry,
            )@.hooks[id],
            None => !old(registry)@.hooks.contains_key(id),
        },
{
    registry.take(id)
}

/// The numbers of all hooks, each once, in no particular order.
pub fn list_hook_ids(registry: &HookRegistry) -> (ids: Vec<HookId>)
    ensures
        ids@.no_duplicates(),
        ids@.to_set() == registry@.hooks.dom(),
{
    let mut ids: Vec<HookId> = Vec::new();
    let keys = registry.hooks.keys();
    let ghost all = vstd::std_specs::iter::IteratorSpec::remaining(&keys).unref();
    for k in it: keys
        invariant
            it.seq().unref() == all,
            all.no_duplicates(),
            ids@ == all.take(it.index() as int),
    {
        ids.push(*k);
        assert(ids@ =~= all.take(it.index() as int + 1));
    }
    assert(all.take(all.len() as int) =~= all);
    assert(registry@.hooks.dom() =~= registry.hooks@.dom());
    ids
}

/// Whether `f`, run on the hook `id`, may have given `out` and the hook that is there now.
pub open spec fn ran_on<R, F: FnOnce(HookEntry) -> (R, HookEntry)>(
    f: F,
    before: RegistryState,
    after: RegistryState,
    id: HookId,
    out: R,
) -> bool {
    exists|e: HookEntry, e2: HookEntry|
        {
            &&& #[trigger] f.ensures((e,), (out, e2))
            &&& e@ == before.hooks[id]
            &&& after == before.updated(id, e2@)
        }
}

/// Runs `f` on a hook, which gives back the hook that takes its place.
pub fn with_hook_mut<R, F: FnOnce(HookEntry) -> (R, HookEntry)>(
    registry: &mut HookRegistry,
    id: HookId,
    f: F,
) -> (r: Option<R>)
    requires
        forall|e: HookEntry| #[trigger] f.requires((e,)),
    ensures
        match r {
            Some(out) => {
                &&& old(registry)@.hooks.contains_key(id)
                &&& ran_on(f, old(registry)@, final(registry)@, id, out)
            },
            None => !old(registry)@.hooks.contains_key(id) && final(registry)@ == old(registry)@,
        },
{
    match registry.take(id) {
        None => {
            assert(registry@.hooks =~= old(registry)@.hooks);
            None
        },
        Some(entry) => {
            let ghost before = entry;
            let (out, entry2) = f(entry);
            let ghost after = entry2;
            registry.put(id, entry2);
            assert(registry@.hooks =~= old(registry)@.hooks.insert(id, after@));
            assert(registry@ == old(registry)@.updated(id, after@));
            assert(f.ensures((before,), (out, after)));
            assert(ran_on(f, old(registry)@, registry@, id, out));
            Some(out)
        },
    }
}

/// What the enter thunk calls first. A function that is to return through the leave thunk gets
/// it as its return address, and its own is saved. Returns the enter callback, which is out
/// until `finish_enter`.
pub fn goauld_dispatch_enter(
    registry: &mut HookRegistry,
    ctx: &mut CpuContext,
    hook_id: HookId,
    tid: u32,
) -> (cb: Option<u64>)
    ensures
        ({
            let e = old(registry)@.hooks[hook_id];
            let lr = old(ctx).x@[30];
            if !old(registry)@.hooks.contains_key(hook_id) {
                &&& cb is None
                &&& final(registry)@ == old(registry)@
                &&& *final(ctx) == *old(ctx)
            } else {
                &&& cb == e.callbacks.on_enter
                &&& final(registry)@ == old(registry)@.updated(hook_id, e.entered(tid, lr))
                &&& final(ctx).x@ == old(ctx).x@.update(
                    30,
                    if e.wants_leave() {
                        e.leave_thunk
                    } else {
                        lr
                    },
                )
                &&& final(ctx).sp == old(ctx).sp
                &&& final(ctx).pc == old(ctx).pc
                &&& final(ctx).pstate == old(ctx).pstate
            }
        }),
{
    match registry.take(hook_id) {
        None => {
            assert(registry@.hooks =~= old(registry)@.hooks);
            None
        },
        Some(mut entry) => {
            let ghost e = entry@;
            let lr: u64 = ctx.x[30];
            let wants = (entry.callbacks.on_leave.is_some() || entry.callbacks.replace_mode)
                && entry.leave_thunk != 0;
            if wants {
                let mut stack: Vec<u64> = match entry.saved_lr.remove(&tid) {
                    Some(s) => s,
                    None => Vec::new(),
                };
                stack.push(lr);
                entry.saved_lr.insert(tid, stack);
                ctx.x[30] = entry.leave_thunk;
            }
            let cb = entry.callbacks.on_enter;
            entry.callbacks = HookCallbacks { on_enter: None, ..entry.callbacks };
            assert(entry@.saved =~= e.entered(tid, lr).saved);
            registry.put(hook_id, entry);
            assert(registry@.hooks =~= old(registry)@.hooks.insert(hook_id, e.entered(tid, lr)));
            assert(ctx.x@ =~= old(ctx).x@.update(
                30,
                if e.wants_leave() {
                    e.leave_thunk
                } else {
                    lr
                },
            ));
            cb
        },
    }
}

/// Puts the enter callback back after it ran.
pub fn finish_enter(registry: &mut HookRegistry, hook_id: HookId, cb: Option<u64>)
    ensures
        final(registry)@ == if old(registry)@.hooks.contains_key(hook_id) {
            old(registry)@.updated(hook_id, old(registry)@.hooks[hook_id].enter_done(cb))
        } else {
            old(registry)@
        },
{
    match registry.take(hook_id) {
        None => {
            assert(registry@.hooks =~= old(registry)@.hooks);
        },
        Some(mut entry) => {
            let ghost e = entry@;
            if entry.callbacks.on_enter.is_none() {
                entry.callbacks = HookCallbacks { on_enter: cb, ..entry.callbacks };
            }
            registry.put(hook_id, entry);
            assert(registry@.hooks =~= old(registry)@.hooks.insert(hook_id, e.enter_done(cb)));
        },
    }
}

/// What the leave thunk calls first. Gives the leave callback, which is out until
/// `finish_leave`, and the returned value; `None` where there is no such hook.
pub fn goauld_dispatch_leave(registry: &mut HookRegistry, ctx: &CpuContext, hook_id: HookId) -> (r:
    Option<(Option<u64>, u64)>)
    ensures
        ({
            let e = old(registry)@.hooks[hook_id];
            if !old(registry)@.hooks.contains_key(hook_id) {
                r is None && final(registry)@ == old(registry)@
            } else {
                &&& r == Some((e.callbacks.on_leave, ctx.x@[0]))
                &&& final(registry)@ == old(registry)@.updated(
                    hook_id,
                    e.with_callbacks((HookCallbacks { on_leave: None, ..e.callbacks })),
                )
            }
        }),
{
    match registry.take(hook_id) {
        None => {
            assert(registry@.hooks =~= old(registry)@.hooks);
            None
        },
        Some(mut entry) => {
            let ghost e = entry@;
            let cb = entry.callbacks.on_leave;
            entry.callbacks = HookCallbacks { on_leave: None, ..entry.callbacks };
            registry.put(hook_id, entry);
            assert(registry@.hooks =~= old(registry)@.hooks.insert(
                hook_id,
                e.with_callbacks(HookCallbacks { on_leave: None, ..e.callbacks }),
            ));
            Some((cb, ctx.x[0]))
        },
    }
}

/// Puts the leave callback back after it ran, and restores the latest return address that was
/// saved for the thread.
pub fn finish_leave(
    registry: &mut HookRegistry,
    ctx: &mut CpuContext,
    hook_id: HookId,
    tid: u32,
    cb: Option<u64>,
)
    ensures
        ({
            let e = old(registry)@.hooks[hook_id];
            let known = old(registry)@.hooks.contains_key(hook_id);
            &&& final(registry)@ == if known {
                old(registry)@.updated(hook_id, e.leave_done(tid, cb))
            } else {
                old(registry)@
            }
            &&& final(ctx).x@ == if known && e.stack(tid).len() > 0 {
                old(ctx).x@.update(30, e.stack(tid).last())
            } else {
                old(ctx).x@
            }
            &&& final(ctx).sp == old(ctx).sp
            &&& final(ctx).pc == old(ctx).pc
            &&& final(ctx).pstate == old(ctx).pstate
        }),
{
    match registry.take(hook_id) {
        None => {
            assert(registry@.hooks =~= old(registry)@.hooks);
        },
        Some(mut entry) => {
            let ghost e = entry@;
            if entry.callbacks.on_leave.is_none() {
                entry.callbacks = HookCallbacks { on_leave: cb, ..entry.callbacks };
            }
            match entry.saved_lr.remove(&tid) {
                None => {},
                Some(mut stack) => {
                    assert(stack@ == e.stack(tid));
                    match stack.pop() {
                        Some(lr) => {
                            ctx.x[30] = lr;
                        },
                        None => {},
                    }
                    assert(stack@ =~= if e.stack(tid).len() > 0 {
                        e.stack(tid).drop_last()
                    } else {
                        e.stack(tid)
                    });
                    entry.saved_lr.insert(tid, stack);
                },
            }
            assert(entry@.saved =~= e.leave_done(tid, cb).saved);
            registry.put(hook_id, entry);
            assert(registry@.hooks =~= old(registry)@.hooks.insert(
                hook_id,
                e.leave_done(tid, cb),
            ));
        },
    }
}

/// Leaving undoes entering: the return address that a thread entered with is the one it gets
/// back, its stack is as before, and the stacks of other threads are untouched. Entries nest:
/// what was entered last is left first.
pub proof fn law_leave_undoes_enter(e: EntryState, tid: u32, other: u32, lr: u64, cb: Option<u64>)
    requires
        e.wants_leave(),
        other != tid,
    ensures
        ({
            let inside = e.entered(tid, lr);
            let after = inside.leave_done(tid, cb);
            &&& inside.stack(tid).last() == lr
            &&& after.stack(tid) == e.stack(tid)
            &&& inside.stack(other) == e.stack(other)
            &&& after.stack(other) == e.stack(other)
        }),
{
    assert(e.stack(tid).push(lr).drop_last() =~= e.stack(tid));
}

/// A callback that is taken out to run comes back: a call leaves the hook's callbacks as they
/// were, unless a new one was set meanwhile.
pub proof fn law_callbacks_come_back(e: EntryState, tid: u32, lr: u64)
    ensures
        e.entered(tid, lr).enter_done(e.callbacks.on_enter).callbacks == e.callbacks,
        e.with_callbacks((HookCallbacks { on_leave: None, ..e.callbacks })).leave_done(
            tid,
            e.callbacks.on_leave,
        ).callbacks == e.callbacks,
{
}

/// Stores or loads of X0 to X29 in pairs at SP, `base` being the word for X0, X1.
pub open spec fn frame_pairs(base: u32, k: nat) -> Seq<u8>
    decreases k,
{
    if k == 0 {
        Seq::empty()
    } else {
        let i = 2 * (k - 1);
        frame_pairs(base, (k - 1) as nat) + le32(
            (base + i * 0x8000 + (i + 1) * 0x400 + 0x3E0 + i) as u32,
        )
    }
}

/// Pushes X29 and X30, makes room for 256 bytes and stores X0 to X30 there.
pub open spec fn spill() -> Seq<u8> {
    le32(0xA9BF_7BFDu32) + le32(0xD104_03FFu32) + frame_pairs(0xA900_0000, 15) + le32(
        0xF900_7BFEu32,
    )
}

/// `MOV X0, SP; MOV W1, #id; LDR X16, #12; BLR X16; B #12; <dispatch>`.
pub open spec fn dispatch_call(hook_id: u32, dispatch: u64) -> Seq<u8> {
    le32(0x9100_03E0u32) + le32((0x5280_0001 + (hook_id % 0x1_0000) * 0x20) as u32) + blr_abs(
        dispatch,
    )
}

/// `LDR X16, #12; BLR X16; B #12; <target>`.
pub open spec fn blr_abs(target: u64) -> Seq<u8> {
    le32(0x5800_0070u32) + le32(0xD63F_0200u32) + le32(0x1400_0003u32) + le64(target)
}

/// Loads X0 to X30, drops the frame, and keeps the loaded X30 over the pop of X29 and X30.
pub open spec fn reload() -> Seq<u8> {
    frame_pairs(0xA940_0000, 15) + le32(0xF940_7BFEu32) + le32(0xAA1E_03F0u32) + le32(
        0x9104_03FFu32,
    ) + le32(0xF900_07F0u32) + le32(0xA8C1_7BFDu32)
}

/// RET
pub open spec fn ret_word() -> u32 {
    0xD65F_03C0u32
}

/// Enter thunk: save, dispatch, restore, then the original code or, in replace mode, a return.
#[verifier::opaque]
pub open spec fn enter_thunk(hook_id: u32, dispatch: u64, relocated: u64, replace_mode: bool) -> Seq<
    u8,
> {
    spill() + dispatch_call(hook_id, dispatch) + reload() + if replace_mode {
        le32(ret_word())
    } else {
        abs_branch(relocated)
    }
}

/// The enter thunk that keeps Q0 to Q31 too: they are pushed before all else, and popped once
/// the other registers are restored.
#[verifier::opaque]
pub open spec fn simd_thunk(hook_id: u32, dispatch: u64, relocated: u64, replace_mode: bool) -> Seq<
    u8,
> {
    pushes(true, 16) + (spill() + dispatch_call(hook_id, dispatch) + reload()) + pops(true, 16)
        + if replace_mode {
        le32(ret_word())
    } else {
        abs_branch(relocated)
    }
}

/// Leave thunk: save, dispatch, restore, return.
#[verifier::opaque]
pub open spec fn leave_thunk(hook_id: u32, dispatch: u64) -> Seq<u8> {
    spill() + dispatch_call(hook_id, dispatch) + reload() + le32(ret_word())
}

fn push_frame_pairs(out: &mut Vec<u8>, base: u32)
    requires
        base <= 0xA940_0000,
    ensures
        final(out)@ == old(out)@ + frame_pairs(base, 15),
{
    let mut k: u32 = 0;
    assert(out@ =~= old(out)@ + frame_pairs(base, 0));
    while k < 15
        invariant
            k <= 15,
            base <= 0xA940_0000,
            out@ == old(out)@ + frame_pairs(base, k as nat),
        decreases 15 - k,
    {
        let i: u32 = 2 * k;
        push_u32(out, base + i * 0x8000 + (i + 1) * 0x400 + 0x3E0 + i);
        k = k + 1;
        assert(out@ =~= old(out)@ + frame_pairs(base, k as nat));
    }
}

fn push_body(out: &mut Vec<u8>, hook_id: u32, dispatch: u64)
    ensures
        final(out)@ == old(out)@ + (spill() + dispatch_call(hook_id, dispatch) + reload()),
{
    push_u32(out, 0xA9BF_7BFD);
    push_u32(out, 0xD104_03FF);
    push_frame_pairs(out, 0xA900_0000);
    push_u32(out, 0xF900_7BFE);
    push_u32(out, 0x9100_03E0);
    push_u32(out, 0x5280_0001 + (hook_id % 0x1_0000) * 0x20);
    let call = encode_blr_abs(dispatch);
    push_bytes(out, call.as_slice());
    push_frame_pairs(out, 0xA940_0000);
    push_u32(out, 0xF940_7BFE);
    push_u32(out, 0xAA1E_03F0);
    push_u32(out, 0x9104_03FF);
    push_u32(out, 0xF900_07F0);
    push_u32(out, 0xA8C1_7BFD);
    assert(out@ =~= old(out)@ + (spill() + dispatch_call(hook_id, dispatch) + reload()));
}

/// Enter thunk: save the registers, dispatch, restore them, then go on to the original or
/// return.
pub fn build_enter_thunk(hook_id: u32, dispatch: u64, relocated: u64, replace_mode: bool) -> (out:
    Vec<u8>)
    ensures
        out@ == enter_thunk(hook_id, dispatch, relocated, replace_mode),
{
    let mut out: Vec<u8> = Vec::new();
    push_body(&mut out, hook_id, dispatch);
    if replace_mode {
        push_u32(&mut out, 0xD65F_03C0);
    } else {
        push_bytes(&mut out, encode_abs_branch(relocated).as_slice());
    }
    reveal(enter_thunk);
    assert(out@ =~= enter_thunk(hook_id, dispatch, relocated, replace_mode));
    out
}

/// The same with Q0 to Q31 among the registers that are saved and restored.
pub fn build_simd_thunk(hook_id: u32, dispatch: u64, relocated: u64, replace_mode: bool) -> (out:
    Vec<u8>)
    ensures
        out@ == simd_thunk(hook_id, dispatch, relocated, replace_mode),
{
    let mut w = Arm64Writer::new(0, None);
    let _ = w.put_push_all_q_registers();
    let mut body: Vec<u8> = Vec::new();
    push_body(&mut body, hook_id, dispatch);
    w.put_bytes(body.as_slice());
    let _ = w.put_pop_all_q_registers();
    if replace_mode {
        w.put_ret();
    } else {
        w.put_branch_address(relocated);
    }
    reveal(simd_thunk);
    assert(w@.code =~= simd_thunk(hook_id, dispatch, relocated, replace_mode));
    match w.take_bytes() {
        Ok(out) => out,
        Err(_) => Vec::new(),
    }
}

/// Leave thunk: save the registers, dispatch, restore them, return.
pub fn build_leave_thunk(hook_id: u32, dispatch: u64) -> (out: Vec<u8>)
    ensures
        out@ == leave_thunk(hook_id, dispatch),
{
    let mut out: Vec<u8> = Vec::new();
    push_body(&mut out, hook_id, dispatch);
    push_u32(&mut out, 0xD65F_03C0);
    reveal(leave_thunk);
    assert(out@ =~= leave_thunk(hook_id, dispatch));
    out
}

fn encode_blr_abs(target: u64) -> (out: Vec<u8>)
    ensures
        out@ == blr_abs(target),
{
    let mut out: Vec<u8> = Vec::new();
    push_u32(&mut out, 0x5800_0070);
    push_u32(&mut out, 0xD63F_0200);
    push_u32(&mut out, 0x1400_0003);
    push_u64(&mut out, target);
    assert(out@ =~= blr_abs(target));
    out
}

proof fn lemma_frame_length(base: u32, k: nat)
    ensures
        frame_pairs(base, k).len() == 4 * k,
    decreases k,
{
    if k > 0 {
        lemma_frame_length(base, (k - 1) as nat);
    }
}

/// The thunks fit the space that the scratch page has for them, and end as they should: with
/// RET, or with an absolute branch to the relocated code.
pub proof fn law_thunk_layout(hook_id: u32, dispatch: u64, relocated: u64)
    ensures
        leave_thunk(hook_id, dispatch).len() == 184,
        enter_thunk(hook_id, dispatch, relocated, true).len() == 184,
        enter_thunk(hook_id, dispatch, relocated, false).len() == 196,
        leave_thunk(hook_id, dispatch).skip(180) == le32(ret_word()),
        enter_thunk(hook_id, dispatch, relocated, true).skip(180) == le32(ret_word()),
        enter_thunk(hook_id, dispatch, relocated, false).skip(180) == abs_branch(relocated),
        enter_thunk(hook_id, dispatch, relocated, true) == leave_thunk(hook_id, dispatch),
{
    reveal(enter_thunk);
    reveal(leave_thunk);
    lemma_frame_length(0xA900_0000, 15);
    lemma_frame_length(0xA940_0000, 15);
    assert(abs_branch(relocated).len() == 16);
    assert(leave_thunk(hook_id, dispatch).skip(180) =~= le32(ret_word()));
    assert(enter_thunk(hook_id, dispatch, relocated, true).skip(180) =~= le32(ret_word()));
    assert(enter_thunk(hook_id, dispatch, relocated, false).skip(180) =~= abs_branch(relocated));
}

/// Saving Q0 to Q31 changes nothing else: it puts a frame for them round the registers that any
/// enter thunk saves, dispatches with and restores, and ends as that thunk does.
pub proof fn law_simd_frame(hook_id: u32, dispatch: u64, relocated: u64, replace_mode: bool)
    ensures
        ({
            let plain = enter_thunk(hook_id, dispatch, relocated, replace_mode);
            let saving = simd_thunk(hook_id, dispatch, relocated, replace_mode);
            &&& saving.len() == plain.len() + 128
            &&& saving.take(64) == pushes(true, 16)
            &&& saving.subrange(64, 244) == plain.take(180)
            &&& saving.subrange(244, 308) == pops(true, 16)
            &&& saving.skip(308) == plain.skip(180)
        }),
{
    reveal(enter_thunk);
    reveal(simd_thunk);
    lemma_frame_length(0xA900_0000, 15);
    lemma_frame_length(0xA940_0000, 15);
    law_save_and_restore_sizes();
    let plain = enter_thunk(hook_id, dispatch, relocated, replace_mode);
    let saving = simd_thunk(hook_id, dispatch, relocated, replace_mode);
    let body = spill() + dispatch_call(hook_id, dispatch) + reload();
    assert(body.len() == 180);
    assert(plain.take(180) =~= body);
    assert(saving.take(64) =~= pushes(true, 16));
    assert(saving.subrange(64, 244) =~= body);
    assert(saving.subrange(244, 308) =~= pops(true, 16));
    assert(saving.skip(308) =~= plain.skip(180));
}

} // verus!
