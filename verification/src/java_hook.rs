//! Hooking Java methods by making them native.
use crate::art::{
    calibrate_art_method_size, distance, push_hook_backup, says, set_art_method_size, ArtError,
    ArtState, ArtView, HookContext, SavedMethod,
};
use crate::bytes::{le32, le64, word_at};
use crate::remote::{hex_of, push_hex_of};
use std::collections::HashMap;
use vstd::prelude::*;
use vstd::string::*;

verus! {

broadcast use vstd::std_specs::hash::group_hash_axioms;

/// How many methods can be hooked at once.
pub const MAX_SLOTS: usize = 16;

/// The access flags of a method that is made native: native, and neither of the fast kinds,
/// without the runtime's own marks.
pub open spec fn native_flags(flags: u32) -> u32 {
    (flags | 0x100) & 0x3fd7_ffff
}

/// A method that is made native is native and of neither fast kind, and its other low flags
/// are those it had.
pub proof fn law_native_flags(flags: u32)
    ensures
        native_flags(flags) & 0x100 == 0x100,
        native_flags(flags) & 0x8_0000 == 0,
        native_flags(flags) & 0x20_0000 == 0,
        native_flags(flags) & 0xc000_0000 == 0,
        native_flags(flags) & 0x3fd7_feff == flags & 0x3fd7_feff,
{
    assert((flags | 0x100) & 0x3fd7_ffff & 0x100 == 0x100) by (bit_vector);
    assert((flags | 0x100) & 0x3fd7_ffff & 0x8_0000 == 0) by (bit_vector);
    assert((flags | 0x100) & 0x3fd7_ffff & 0x20_0000 == 0) by (bit_vector);
    assert((flags | 0x100) & 0x3fd7_ffff & 0xc000_0000 == 0) by (bit_vector);
    assert((flags | 0x100) & 0x3fd7_ffff & 0x3fd7_feff == flags & 0x3fd7_feff) by (bit_vector);
}

/// A method that is made native: its flags, the function that it calls, and its entry.
pub open spec fn made_native(m: Seq<u8>, bridge: u64, entry: u64) -> Seq<u8> {
    m.take(4) + le32(native_flags(word_at(m, 4))) + m.subrange(8, 16) + le64(bridge) + le64(entry)
        + m.skip(32)
}

/// Makes a method native, and gives back the bytes that it had.
pub fn patch_method(m: &mut Vec<u8>, bridge: u64, entry: u64) -> (saved: Vec<u8>)
    requires
        old(m)@.len() >= 32,
    ensures
        final(m)@ == made_native(old(m)@, bridge, entry),
        final(m)@.len() == old(m)@.len(),
        saved@ == old(m)@,
{
    let saved = crate::bytes::to_vec(m.as_slice());
    let flags: u32 = crate::bytes::get_u32(saved.as_slice(), 4);
    let n: usize = saved.len();
    let mut out = crate::bytes::copy_range(saved.as_slice(), 0, 4);
    crate::bytes::push_u32(&mut out, (flags | 0x100) & 0x3fd7_ffff);
    let middle = crate::bytes::copy_range(saved.as_slice(), 8, 16);
    crate::bytes::push_bytes(&mut out, middle.as_slice());
    crate::bytes::push_u64(&mut out, bridge);
    crate::bytes::push_u64(&mut out, entry);
    let tail = crate::bytes::copy_range(saved.as_slice(), 32, n);
    crate::bytes::push_bytes(&mut out, tail.as_slice());
    assert(out@ =~= made_native(saved@, bridge, entry));
    *m = out;
    saved
}

/// A method that is hooked.
#[derive(Debug)]
pub struct SlotHook {
    pub key: String,
    pub art: usize,
    pub sig: String,
    pub is_static: bool,
    /// A copy of the method as it was, to call it by.
    pub backup: Option<usize>,
}

/// The same, as contracts speak of it.
pub struct HookInfo {
    pub key: Seq<char>,
    pub art: usize,
    pub sig: Seq<char>,
    pub is_static: bool,
    pub backup: Option<usize>,
}

impl View for SlotHook {
    type V = HookInfo;

    open spec fn view(&self) -> HookInfo {
        HookInfo {
            key: self.key@,
            art: self.art,
            sig: self.sig@,
            is_static: self.is_static,
            backup: self.backup,
        }
    }
}

/// The hooks in their slots, in the order they were made, and the slot of each method.
pub struct JavaHooks {
    slots: Vec<SlotHook>,
    live: HashMap<usize, usize>,
}

/// The same, as contracts speak of it.
#[verifier::ext_equal]
pub struct HooksView {
    pub slots: Seq<HookInfo>,
    pub live: Map<usize, usize>,
}

impl View for JavaHooks {
    type V = HooksView;

    closed spec fn view(&self) -> HooksView {
        HooksView { slots: self.slots@.map_values(|h: SlotHook| h@), live: self.live@ }
    }
}

impl HooksView {
    /// Whether every method's slot holds its hook, and there are not too many.
    pub open spec fn wf(self) -> bool {
        &&& self.slots.len() <= MAX_SLOTS
        &&& forall|a: usize| #[trigger]
            self.live.dom().contains(a) ==> self.live[a] < self.slots.len()
                && self.slots[self.live[a] as int].art == a
    }
}

impl JavaHooks {
    pub fn new() -> (h: JavaHooks)
        ensures
            h@.wf(),
            h@.slots.len() == 0,
            h@.live == Map::<usize, usize>::empty(),
    {
        let h = JavaHooks { slots: Vec::new(), live: HashMap::new() };
        assert(h@.live =~= Map::<usize, usize>::empty());
        h
    }

    /// The slot for a new hook of a method, given the runtime's entry for native methods.
    pub fn plan_hook(&self, art: usize, entry: u64) -> (r: Result<usize, ArtError>)
        requires
            self@.wf(),
        ensures
            if entry == 0 {
                says(r, "art_quick_generic_jni_trampoline not found in libart"@)
            } else if art < 0x1000 {
                says(r, "ArtMethod pointer looks invalid: "@ + hex_of(art as u64))
            } else if self@.slots.len() == MAX_SLOTS {
                says(r, "too many concurrent Java hooks"@)
            } else {
                r matches Ok(slot) && slot == self@.slots.len()
            },
    {
        if entry == 0 {
            return Err(
                ArtError::Msg("art_quick_generic_jni_trampoline not found in libart".to_owned()),
            );
        }
        if art < 0x1000 {
            let mut m = "ArtMethod pointer looks invalid: ".to_owned();
            push_hex_of(&mut m, art as u64);
            return Err(ArtError::Msg(m));
        }
        if self.slots.len() >= MAX_SLOTS {
            return Err(ArtError::Msg("too many concurrent Java hooks".to_owned()));
        }
        Ok(self.slots.len())
    }

    /// Records a hook in the next slot.
    pub fn install_hook(&mut self, hook: SlotHook) -> (slot: usize)
        requires
            old(self)@.wf(),
            old(self)@.slots.len() < MAX_SLOTS,
        ensures
            final(self)@.wf(),
            slot == old(self)@.slots.len(),
            final(self)@.slots == old(self)@.slots.push(hook@),
            final(self)@.live == old(self)@.live.insert(hook.art, slot),
    {
        let slot: usize = self.slots.len();
        let art: usize = hook.art;
        let ghost before = self@;
        let ghost info = hook@;
        self.slots.push(hook);
        self.live.insert(art, slot);
        assert(self@.slots =~= before.slots.push(info));
        assert forall|a: usize| #[trigger] self@.live.dom().contains(a) implies self@.live[a]
            < self@.slots.len() && self@.slots[self@.live[a] as int].art == a by {
            if a != art {
                assert(before.live.dom().contains(a));
            }
        }
        slot
    }

    /// The hook in a slot.
    pub fn in_slot(&self, slot: usize) -> (r: Option<&SlotHook>)
        ensures
            match r {
                Some(h) => slot < self@.slots.len() && h@ == self@.slots[slot as int],
                None => slot >= self@.slots.len(),
            },
    {
        if slot < self.slots.len() {
            assert(self@.slots[slot as int] == self.slots@[slot as int]@);
            Some(&self.slots[slot])
        } else {
            None
        }
    }

    /// The hook of a method.
    pub fn of_method(&self, art: usize) -> (r: Option<&SlotHook>)
        requires
            self@.wf(),
        ensures
            match r {
                Some(h) => self@.live.dom().contains(art) && h@ == self@.slots[self@.live[art] as int]
                    && h.art == art,
                None => !self@.live.dom().contains(art),
            },
    {
        match self.live.get(&art) {
            Some(slot) => {
                assert(self@.live.dom().contains(art));
                assert(self@.slots[*slot as int] == self.slots@[*slot as int]@);
                Some(&self.slots[*slot])
            },
            None => None,
        }
    }
}

/// Hooks a method: gives the hook a slot, makes the method native so that it calls the bridge
/// of that slot, and keeps the bytes it had.
pub fn install_hook_env(
    hooks: &mut JavaHooks,
    state: &mut ArtState,
    method: &mut Vec<u8>,
    hook: SlotHook,
    entry: u64,
    bridges: &[u64; 16],
) -> (r: Result<usize, ArtError>)
    requires
        old(hooks)@.wf(),
        old(method)@.len() >= 32,
        old(state)@.size matches Some(n) ==> n <= old(method)@.len(),
    ensures
        final(hooks)@.wf(),
        match r {
            Err(e) => {
                &&& final(hooks)@ == old(hooks)@
                &&& final(state)@ == old(state)@
                &&& final(method)@ == old(method)@
                &&& if old(state)@.size is None {
                    e is NotCalibrated
                } else if entry == 0 {
                    says(r, "art_quick_generic_jni_trampoline not found in libart"@)
                } else if hook.art < 0x1000 {
                    says(r, "ArtMethod pointer looks invalid: "@ + hex_of(hook.art as u64))
                } else {
                    old(hooks)@.slots.len() == MAX_SLOTS && says(
                        r,
                        "too many concurrent Java hooks"@,
                    )
                }
            },
            Ok(slot) => {
                &&& old(state)@.size is Some
                &&& entry != 0
                &&& hook.art >= 0x1000
                &&& old(hooks)@.slots.len() < MAX_SLOTS
                &&& slot == old(hooks)@.slots.len()
                &&& final(hooks)@.slots == old(hooks)@.slots.push(hook@)
                &&& final(hooks)@.live == old(hooks)@.live.insert(hook.art, slot)
                &&& final(method)@ == made_native(old(method)@, bridges@[slot as int], entry)
                &&& final(state)@ == (ArtView {
                    hooks: old(state)@.hooks.push(
                        SavedMethod {
                            target: hook.art,
                            saved: old(method)@.take(old(state)@.size->0 as int),
                            bridge: hook.art,
                        },
                    ),
                    ..old(state)@
                })
            },
        },
{
    let size: usize = match crate::art::art_method_size(state) {
        Ok(n) => n,
        Err(e) => {
            return Err(e);
        },
    };
    let slot: usize = match hooks.plan_hook(hook.art, entry) {
        Ok(n) => n,
        Err(e) => {
            return Err(e);
        },
    };
    let saved = crate::bytes::copy_range(method.as_slice(), 0, size);
    assert(saved@ =~= old(method)@.take(size as int));
    patch_method(method, bridges[slot], entry);
    let art: usize = hook.art;
    hooks.install_hook(hook);
    push_hook_backup(state, art, saved);
    Ok(slot)
}

/// Writing the bytes back that a hooked method had undoes the hook.
pub proof fn law_saved_bytes_undo_hook(m: Seq<u8>, bridge: u64, entry: u64, size: int)
    requires
        32 <= size <= m.len(),
    ensures
        crate::art::patched(made_native(m, bridge, entry), m.take(size)) == m,
{
    assert(crate::art::patched(made_native(m, bridge, entry), m.take(size)) =~= m);
}

/// A hook that was recorded is found by its slot and by its method, and other methods keep
/// theirs.
pub proof fn law_recorded_hook_is_found(h: HooksView, info: HookInfo, other: usize)
    requires
        h.wf(),
        other != info.art,
    ensures
        ({
            let t = HooksView {
                slots: h.slots.push(info),
                live: h.live.insert(info.art, h.slots.len() as usize),
            };
            &&& t.live.dom().contains(info.art)
            &&& t.slots[t.live[info.art] as int] == info
            &&& t.live.dom().contains(other) <==> h.live.dom().contains(other)
            &&& h.live.dom().contains(other) ==> t.slots[t.live[other] as int]
                == h.slots[h.live[other] as int]
        }),
{
}

/// What a call of a hooked method comes to.
#[derive(Debug, Clone, Copy, PartialEq, Eq, Structural)]
pub enum Dispatch {
    /// Its argument.
    Argument,
    /// What the method as it was gives, or its argument.
    Original,
    /// What a script says.
    Script,
}

/// What a thread knows of the hooks that run on it.
#[derive(Debug, Clone, Copy, PartialEq, Eq, Structural)]
pub struct Bridge {
    pub in_bridge: bool,
    pub in_original: bool,
    pub ctx: HookContext,
}

impl Bridge {
    /// Whether no hook runs.
    pub open spec fn idle(self) -> bool {
        !self.in_bridge && !self.in_original && self.ctx == (HookContext {
            env: 0,
            thiz: 0,
            art: 0,
        })
    }

    /// The state once a script is to run for a method.
    pub open spec fn entered(self, env: usize, art: usize) -> Bridge {
        Bridge { in_bridge: true, ctx: HookContext { env, art, thiz: self.ctx.thiz }, ..self }
    }

    /// The state once it ran.
    pub open spec fn left(self) -> Bridge {
        Bridge { in_bridge: false, ctx: HookContext { env: 0, thiz: 0, art: 0 }, ..self }
    }

    pub fn new() -> (b: Bridge)
        ensures
            b.idle(),
    {
        Bridge { in_bridge: false, in_original: false, ctx: HookContext { env: 0, thiz: 0, art: 0 } }
    }

    /// What a call of the method in a slot comes to. Within a script the method as it was is
    /// called, and within that nothing.
    pub fn dispatch_slot(&mut self, art: Option<usize>, env: usize) -> (d: Dispatch)
        ensures
            match art {
                None => d is Argument && *final(self) == *old(self),
                Some(a) => if old(self).in_bridge {
                    *final(self) == *old(self) && if old(self).in_original {
                        d is Argument
                    } else {
                        d is Original
                    }
                } else {
                    d is Script && *final(self) == old(self).entered(env, a)
                },
            },
    {
        match art {
            None => Dispatch::Argument,
            Some(a) => {
                if self.in_bridge {
                    if self.in_original {
                        return Dispatch::Argument;
                    }
                    return Dispatch::Original;
                }
                self.in_bridge = true;
                self.ctx.env = env;
                self.ctx.art = a;
                Dispatch::Script
            },
        }
    }

    /// Takes the receiver of the call in. Without one the call is over.
    pub fn receive(&mut self, thiz: Option<usize>) -> (r: bool)
        ensures
            match thiz {
                Some(t) => r && *final(self) == (Bridge {
                    ctx: HookContext { thiz: t, ..old(self).ctx },
                    ..*old(self)
                }),
                None => !r && *final(self) == (Bridge {
                    in_bridge: false,
                    ctx: HookContext { env: 0, art: 0, thiz: old(self).ctx.thiz },
                    ..*old(self)
                }),
            },
    {
        match thiz {
            Some(t) => {
                self.ctx.thiz = t;
                true
            },
            None => {
                self.in_bridge = false;
                self.ctx.env = 0;
                self.ctx.art = 0;
                false
            },
        }
    }

    /// Ends the call with what the script said; without that it is the argument and a thousand,
    /// as far as numbers go.
    pub fn leave(&mut self, said: Option<i32>, x: i32) -> (r: i32)
        ensures
            *final(self) == old(self).left(),
            r == match said {
                Some(v) => v as int,
                None => if x + 1000 <= i32::MAX {
                    x + 1000
                } else {
                    i32::MAX as int
                },
            },
    {
        self.in_bridge = false;
        self.ctx = HookContext { env: 0, thiz: 0, art: 0 };
        match said {
            Some(v) => v,
            None => if x <= 0x7fff_ffff - 1000 {
                x + 1000
            } else {
                0x7fff_ffff
            },
        }
    }

    /// Starts a call of a method as it was: the copy to call it by.
    pub fn start_original(&mut self, backup: Option<usize>) -> (r: Result<usize, ArtError>)
        ensures
            if old(self).in_original {
                says(r, "callOriginal re-entered"@) && *final(self) == *old(self)
            } else {
                match backup {
                    Some(p) => r == Ok::<usize, ArtError>(p) && *final(self) == (Bridge {
                        in_original: true,
                        ..*old(self)
                    }),
                    None => says(r, "no backup ArtMethod"@) && *final(self) == *old(self),
                }
            },
    {
        if self.in_original {
            return Err(ArtError::Msg("callOriginal re-entered".to_owned()));
        }
        match backup {
            Some(p) => {
                self.in_original = true;
                Ok(p)
            },
            None => Err(ArtError::Msg("no backup ArtMethod".to_owned())),
        }
    }

    /// Lets a hook of another thread run on this one, in the context it has there.
    pub fn set_hook_context(&mut self, env: usize, thiz: usize, art: usize)
        ensures
            *final(self) == (Bridge {
                in_bridge: true,
                ctx: HookContext { env, thiz, art },
                ..*old(self)
            }),
    {
        self.ctx = HookContext { env, thiz, art };
        self.in_bridge = true;
    }

    /// Ends the run of a hook of another thread.
    pub fn clear_hook_context(&mut self)
        ensures
            *final(self) == old(self).left(),
    {
        self.ctx = HookContext { env: 0, thiz: 0, art: 0 };
        self.in_bridge = false;
    }

    /// The receiver and the method of the hook that runs, by which a script calls the method as
    /// it was; none without a method and an environment.
    pub fn running(&self) -> (r: Option<(usize, usize)>)
        ensures
            r == if self.ctx.art == 0 || self.ctx.env == 0 {
                None
            } else {
                Some((self.ctx.thiz, self.ctx.art))
            },
    {
        if self.ctx.art == 0 || self.ctx.env == 0 {
            None
        } else {
            Some((self.ctx.thiz, self.ctx.art))
        }
    }

    /// Ends a call of a method as it was.
    pub fn end_original(&mut self)
        ensures
            *final(self) == (Bridge { in_original: false, ..*old(self) }),
    {
        self.in_original = false;
    }
}

/// A call that runs a script leaves the thread as it was, and a script never runs within
/// another.
pub proof fn law_scripts_do_not_nest(b: Bridge, env: usize, art: usize, thiz: usize)
    requires
        b.idle(),
    ensures
        ({
            let inside = Bridge {
                ctx: HookContext { thiz, ..b.entered(env, art).ctx },
                ..b.entered(env, art)
            };
            inside.in_bridge && inside.left() == b
        }),
{
}

/// The argument words of a call of a method as it was: the receiver unless it is static, then
/// the number.
pub fn original_args(is_static: bool, receiver: u32, x: i32) -> (args: Vec<u32>)
    ensures
        args@ == if is_static {
            seq![x as u32]
        } else {
            seq![receiver, x as u32]
        },
{
    let mut args: Vec<u32> = Vec::new();
    if !is_static {
        args.push(receiver);
    }
    args.push(x as u32);
    assert(args@ =~= if is_static {
        seq![x as u32]
    } else {
        seq![receiver, x as u32]
    });
    args
}

/// The size of a method where it cannot be measured, by the level of the system.
pub open spec fn default_size(sdk: u32) -> usize {
    if 0 < sdk < 26 {
        24
    } else {
        32
    }
}

/// Whether the distance of two methods can be the size of one.
pub open spec fn is_size(d: int) -> bool {
    16 <= d <= 512 && d % 8 == 0
}

/// Makes the size of a method known: measured between two methods where that works, else the
/// default.
pub fn ensure_calibrated(state: &mut ArtState, primary: usize, other: Option<usize>, sdk: u32) -> (r:
    Result<(), ArtError>)
    requires
        primary != 0,
        other matches Some(o) ==> o != 0,
    ensures
        r is Ok,
        final(state)@ == if old(state)@.size is Some {
            old(state)@
        } else {
            ArtView {
                size: Some(
                    match other {
                        Some(o) => if is_size(distance(primary, o)) {
                            distance(primary, o) as usize
                        } else {
                            default_size(sdk)
                        },
                        None => default_size(sdk),
                    },
                ),
                ..old(state)@
            }
        },
{
    if crate::art::art_method_size(state).is_ok() {
        return Ok(());
    }
    match other {
        Some(o) => {
            let d: usize = if primary >= o {
                primary - o
            } else {
                o - primary
            };
            if d >= 16 && d <= 512 && d % 8 == 0 {
                return match calibrate_art_method_size(state, primary, o) {
                    Ok(_) => Ok(()),
                    Err(e) => Err(e),
                };
            }
        },
        None => {},
    }
    let size: usize = if sdk > 0 && sdk < 26 {
        24
    } else {
        32
    };
    set_art_method_size(state, size)
}

/// Refuses an entry that was taken from a native method and cannot be one.
pub fn check_stolen_entry(entry: u64) -> (r: Result<u64, ArtError>)
    ensures
        if entry < 0x1000 {
            says(r, "stolen trampoline looks invalid: "@ + hex_of(entry))
        } else {
            r == Ok::<u64, ArtError>(entry)
        },
{
    if entry < 0x1000 {
        let mut m = "stolen trampoline looks invalid: ".to_owned();
        push_hex_of(&mut m, entry);
        return Err(ArtError::Msg(m));
    }
    Ok(entry)
}

/// The level of the system, once it is known.
pub struct KnownLevel {
    pub level: u32,
}

impl KnownLevel {
    /// Takes the level in unless one is known; zero is not one.
    pub fn android_sdk_int(&mut self, read: u32) -> (n: u32)
        ensures
            n == final(self).level,
            n == if old(self).level != 0 {
                old(self).level
            } else {
                read
            },
    {
        if self.level == 0 {
            self.level = read;
        }
        self.level
    }
}

/// The numbers of the tasks for the main thread.
pub struct MainTokens {
    pub next: u64,
}

impl MainTokens {
    pub fn new() -> (t: MainTokens)
        ensures
            t.next == 1,
    {
        MainTokens { next: 1 }
    }

    /// A number that was not given before, until all were.
    pub fn next_main_token(&mut self) -> (n: u64)
        ensures
            n == old(self).next,
            final(self).next == (old(self).next + 1) % 0x1_0000_0000_0000_0000,
    {
        let n: u64 = self.next;
        self.next = n.wrapping_add(1);
        n
    }
}

/// Refuses a method without an address.
pub fn check_method(art: u64) -> (r: Result<u64, ArtError>)
    ensures
        if art == 0 {
            says(r, "Executable.artMethod == 0"@)
        } else {
            r == Ok::<u64, ArtError>(art)
        },
{
    if art == 0 {
        return Err(ArtError::Msg("Executable.artMethod == 0".to_owned()));
    }
    Ok(art)
}

} // verus!
