//! ART / Java hooking by method struct replacement, and the record of script implementations.
//!
//! A method is the bytes of its `ArtMethod` struct; addresses are only names for them here.
use crate::bytes::copy_range;
use crate::text::{decimal, push_decimal};
use std::collections::HashMap;
use vstd::prelude::*;
use vstd::string::*;

verus! {

broadcast use vstd::std_specs::hash::group_hash_axioms;

#[derive(Debug)]
pub enum ArtError {
    NotCalibrated,
    Jni(String),
    NotFound,
    Msg(String),
}

impl ArtError {
    /// The text of the error.
    pub open spec fn text(&self) -> Seq<char> {
        match self {
            ArtError::NotCalibrated => "not calibrated"@,
            ArtError::Jni(m) => "jni: "@ + m@,
            ArtError::NotFound => "hook not found"@,
            ArtError::Msg(m) => m@,
        }
    }

    pub fn message(&self) -> (m: String)
        ensures
            m@ == self.text(),
    {
        match self {
            ArtError::NotCalibrated => "not calibrated".to_owned(),
            ArtError::Jni(m) => "jni: ".to_owned().concat(m.as_str()),
            ArtError::NotFound => "hook not found".to_owned(),
            ArtError::Msg(m) => m.clone(),
        }
    }
}

/// Whether `r` is the error with the text `msg`.
pub open spec fn says<T>(r: Result<T, ArtError>, msg: Seq<char>) -> bool {
    r matches Err(ArtError::Msg(m)) && m@ == msg
}

pub struct JavaHook {
    pub target: usize,
    /// The method as it was.
    pub saved: Vec<u8>,
    pub bridge: usize,
}

/// A method hook, as contracts speak of it.
#[verifier::ext_equal]
pub struct SavedMethod {
    pub target: usize,
    pub saved: Seq<u8>,
    pub bridge: usize,
}

impl View for JavaHook {
    type V = SavedMethod;

    open spec fn view(&self) -> SavedMethod {
        SavedMethod { target: self.target, saved: self.saved@, bridge: self.bridge }
    }
}

/// The method size once it is known, the method hooks in the order they were made, and the
/// script implementation of each bridge.
pub struct ArtState {
    method_size: Option<usize>,
    hooks: Vec<JavaHook>,
    js_impls: HashMap<u64, u64>,
}

/// The state, as contracts speak of it.
#[verifier::ext_equal]
pub struct ArtView {
    pub size: Option<usize>,
    pub hooks: Seq<SavedMethod>,
    pub js: Map<u64, u64>,
}

impl View for ArtState {
    type V = ArtView;

    closed spec fn view(&self) -> ArtView {
        ArtView {
            size: self.method_size,
            hooks: self.hooks@.map_values(|h: JavaHook| h@),
            js: self.js_impls@,
        }
    }
}

/// Whether a size can be that of an `ArtMethod`.
pub open spec fn plausible_size(n: int) -> bool {
    16 <= n <= 512
}

/// The text of the refusal of a size.
pub open spec fn implausible(n: nat) -> Seq<char> {
    "implausible ArtMethod size "@ + decimal(n)
}

/// The distance of two addresses.
pub open spec fn distance(a: usize, b: usize) -> int {
    if a >= b {
        a - b
    } else {
        b - a
    }
}

fn refuse_size<T>(size: usize) -> (r: Result<T, ArtError>)
    ensures
        says(r, implausible(size as nat)),
{
    let mut m = "implausible ArtMethod size ".to_owned();
    push_decimal(&mut m, size as u64);
    Err(ArtError::Msg(m))
}

impl ArtState {
    /// Nothing known, nothing hooked.
    pub fn new() -> (s: Self)
        ensures
            s@ == (ArtView { size: None, hooks: Seq::empty(), js: Map::empty() }),
    {
        let s = ArtState { method_size: None, hooks: Vec::new(), js_impls: HashMap::new() };
        assert(s@.hooks =~= Seq::<SavedMethod>::empty());
        s
    }
}

/// Takes the size of an `ArtMethod` from the addresses of two adjacent ones.
pub fn calibrate_art_method_size(state: &mut ArtState, method_a: usize, method_b: usize) -> (r:
    Result<usize, ArtError>)
    ensures
        ({
            let size = distance(method_a, method_b);
            if method_a == 0 || method_b == 0 || method_a == method_b {
                says(r, "invalid calibration pointers"@) && final(state)@ == old(state)@
            } else if !plausible_size(size) {
                says(r, implausible(size as nat)) && final(state)@ == old(state)@
            } else {
                &&& r == Ok::<usize, ArtError>(size as usize)
                &&& final(state)@ == (ArtView { size: Some(size as usize), ..old(state)@ })
            }
        }),
{
    if method_a == 0 || method_b == 0 || method_a == method_b {
        return Err(ArtError::Msg("invalid calibration pointers".to_owned()));
    }
    let size: usize = if method_a >= method_b {
        method_a - method_b
    } else {
        method_b - method_a
    };
    if size < 16 || size > 512 {
        return refuse_size(size);
    }
    state.method_size = Some(size);
    Ok(size)
}

pub fn set_art_method_size(state: &mut ArtState, size: usize) -> (r: Result<(), ArtError>)
    ensures
        if !plausible_size(size as int) {
            says(r, implausible(size as nat)) && final(state)@ == old(state)@
        } else {
            r is Ok && final(state)@ == (ArtView { size: Some(size), ..old(state)@ })
        },
{
    if size < 16 || size > 512 {
        return refuse_size(size);
    }
    state.method_size = Some(size);
    Ok(())
}

pub fn art_method_size(state: &ArtState) -> (r: Result<usize, ArtError>)
    ensures
        match state@.size {
            Some(n) => r == Ok::<usize, ArtError>(n),
            None => r matches Err(ArtError::NotCalibrated),
        },
{
    match state.method_size {
        Some(n) => Ok(n),
        None => Err(ArtError::NotCalibrated),
    }
}

/// `method` with its first bytes replaced.
pub open spec fn patched(method: Seq<u8>, bytes: Seq<u8>) -> Seq<u8> {
    bytes + method.skip(bytes.len() as int)
}

/// Writes `bytes` over the start of `method`.
fn overwrite(method: &mut Vec<u8>, bytes: &Vec<u8>, n: usize)
    requires
        n <= bytes@.len(),
        n <= old(method)@.len(),
    ensures
        final(method)@ == patched(old(method)@, bytes@.take(n as int)),
{
    let mut i: usize = 0;
    while i < n
        invariant
            i <= n <= bytes@.len(),
            n <= method@.len(),
            method@.len() == old(method)@.len(),
            forall|j: int| 0 <= j < i ==> method@[j] == bytes@[j],
            forall|j: int| i <= j < method@.len() ==> method@[j] == old(method)@[j],
        decreases n - i,
    {
        method.set(i, bytes[i]);
        i = i + 1;
    }
    assert(method@ =~= patched(old(method)@, bytes@.take(n as int)));
}

/// Saves a method backup for a hook that was made elsewhere.
pub fn push_hook_backup(state: &mut ArtState, target: usize, saved: Vec<u8>)
    ensures
        final(state)@ == (ArtView {
            hooks: old(state)@.hooks.push(SavedMethod { target, saved: saved@, bridge: target }),
            ..old(state)@
        }),
{
    let ghost s = saved@;
    state.hooks.push(JavaHook { target, saved, bridge: target });
    assert(state@.hooks =~= old(state)@.hooks.push(SavedMethod { target, saved: s, bridge: target }));
}

/// Replaces the method at `target` by that at `bridge`, and keeps the bytes that were there.
pub fn hook_art_method(
    state: &mut ArtState,
    target: usize,
    bridge: usize,
    method: &mut Vec<u8>,
    bridge_method: &Vec<u8>,
) -> (r: Result<(), ArtError>)
    requires
        old(state)@.size matches Some(n) ==> n <= old(method)@.len() && n <= bridge_method@.len(),
    ensures
        match old(state)@.size {
            None => {
                &&& r matches Err(ArtError::NotCalibrated)
                &&& final(state)@ == old(state)@
                &&& final(method)@ == old(method)@
            },
            Some(n) => {
                &&& r is Ok
                &&& final(method)@ == patched(old(method)@, bridge_method@.take(n as int))
                &&& final(state)@ == (ArtView {
                    hooks: old(state)@.hooks.push(
                        SavedMethod { target, saved: old(method)@.take(n as int), bridge },
                    ),
                    ..old(state)@
                })
            },
        },
{
    let size: usize = match state.method_size {
        Some(n) => n,
        None => {
            return Err(ArtError::NotCalibrated);
        },
    };
    let saved = copy_range(method.as_slice(), 0, size);
    assert(saved@ =~= old(method)@.take(size as int));
    overwrite(method, bridge_method, size);
    state.hooks.push(JavaHook { target, saved, bridge });
    assert(state@.hooks =~= old(state)@.hooks.push(
        SavedMethod { target, saved: old(method)@.take(size as int), bridge },
    ));
    Ok(())
}

/// The place of the first hook of a method, counting from `i`; the number of hooks where there
/// is none.
pub open spec fn hook_index(hooks: Seq<SavedMethod>, target: usize, i: int) -> int
    decreases hooks.len() - i,
{
    if i >= hooks.len() || hooks[i].target == target {
        i
    } else {
        hook_index(hooks, target, i + 1)
    }
}

/// The first hook of a method.
pub open spec fn hook_of(hooks: Seq<SavedMethod>, target: usize) -> Option<SavedMethod> {
    let i = hook_index(hooks, target, 0);
    if i < hooks.len() {
        Some(hooks[i])
    } else {
        None
    }
}

impl ArtState {
    fn find_hook(&self, target: usize) -> (r: Option<usize>)
        ensures
            match r {
                Some(i) => i < self@.hooks.len() && i == hook_index(self@.hooks, target, 0),
                None => hook_index(self@.hooks, target, 0) >= self@.hooks.len(),
            },
    {
        let mut i: usize = 0;
        while i < self.hooks.len()
            invariant
                i <= self.hooks@.len(),
                self@.hooks.len() == self.hooks@.len(),
                hook_index(self@.hooks, target, 0) == hook_index(self@.hooks, target, i as int),
            decreases self.hooks@.len() - i,
        {
            assert(self@.hooks[i as int] == self.hooks@[i as int]@);
            if self.hooks[i].target == target {
                return Some(i);
            }
            i = i + 1;
        }
        None
    }
}

/// Puts a method back as it was before its first hook, and forgets that hook.
pub fn unhook_art_method(state: &mut ArtState, target: usize, method: &mut Vec<u8>) -> (r: Result<
    (),
    ArtError,
>)
    requires
        hook_of(old(state)@.hooks, target) matches Some(h) ==> h.saved.len() <= old(method)@.len(),
    ensures
        match hook_of(old(state)@.hooks, target) {
            None => {
                &&& r matches Err(ArtError::NotFound)
                &&& final(state)@ == old(state)@
                &&& final(method)@ == old(method)@
            },
            Some(h) => {
                &&& r is Ok
                &&& final(method)@ == patched(old(method)@, h.saved)
                &&& final(state)@ == (ArtView {
                    hooks: old(state)@.hooks.remove(hook_index(old(state)@.hooks, target, 0)),
                    ..old(state)@
                })
            },
        },
{
    match state.find_hook(target) {
        None => Err(ArtError::NotFound),
        Some(i) => {
            assert(state@.hooks[i as int] == state.hooks@[i as int]@);
            let h = state.hooks.remove(i);
            let n: usize = h.saved.len();
            overwrite(method, &h.saved, n);
            assert(h.saved@.take(n as int) =~= h.saved@);
            assert(state@.hooks =~= old(state)@.hooks.remove(i as int));
            Ok(())
        },
    }
}

/// Runs `call` with the method as it was before its first hook, and puts the hooked bytes back
/// after it. The method passes through the call and comes back with the result.
pub fn call_original<R, F: FnOnce(Vec<u8>) -> (R, Vec<u8>)>(
    state: &ArtState,
    target: usize,
    method: Vec<u8>,
    call: F,
) -> (r: (Result<R, ArtError>, Vec<u8>))
    requires
        hook_of(state@.hooks, target) matches Some(h) ==> h.saved.len() <= method@.len(),
        forall|m: Vec<u8>| #[trigger] call.requires((m,)),
        forall|m: Vec<u8>, out: (R, Vec<u8>)| #[trigger]
            call.ensures((m,), out) ==> out.1@.len() == m@.len(),
    ensures
        match hook_of(state@.hooks, target) {
            None => r.0 matches Err(ArtError::NotFound) && r.1@ == method@,
            Some(h) => {
                &&& r.0 matches Ok(out)
                &&& called(call, patched(method@, h.saved), out, method@, h.saved.len(), r.1@)
            },
        },
{
    match state.find_hook(target) {
        None => (Err(ArtError::NotFound), method),
        Some(i) => {
            assert(state@.hooks[i as int] == state.hooks@[i as int]@);
            let n: usize = state.hooks[i].saved.len();
            let hooked = copy_range(method.as_slice(), 0, n);
            let mut bare = method;
            overwrite(&mut bare, &state.hooks[i].saved, n);
            assert(state.hooks@[i as int].saved@.take(n as int) =~= state.hooks@[i as int].saved@);
            let ghost given = bare;
            let (out, mut back) = call(bare);
            let ghost left = back;
            overwrite(&mut back, &hooked, n);
            assert(hooked@.take(n as int) =~= method@.take(n as int));
            proof {
                assert(call.ensures((given,), (out, left)));
                assert(called(call, given@, out, method@, n as nat, back@));
            }
            (Ok(out), back)
        },
    }
}

/// Whether `call`, given the method `bare`, may have given `out`, after which the first `n`
/// bytes of `hooked` were put back and `end` is the method.
pub open spec fn called<R, F: FnOnce(Vec<u8>) -> (R, Vec<u8>)>(
    call: F,
    bare: Seq<u8>,
    out: R,
    hooked: Seq<u8>,
    n: nat,
    end: Seq<u8>,
) -> bool {
    exists|given: Vec<u8>, left: Vec<u8>|
        {
            &&& #[trigger] call.ensures((given,), (out, left))
            &&& given@ == bare
            &&& end == patched(left@, hooked.take(n as int))
        }
}

/// A method that is hooked and unhooked again is as it was, and so is the record of hooks.
pub proof fn law_unhook_undoes_hook(
    hooks: Seq<SavedMethod>,
    target: usize,
    bridge: usize,
    method: Seq<u8>,
    bridge_method: Seq<u8>,
    n: int,
)
    requires
        0 <= n <= method.len(),
        n <= bridge_method.len(),
        hook_of(hooks, target) is None,
    ensures
        ({
            let hooked = patched(method, bridge_method.take(n));
            let after = hooks.push(SavedMethod { target, saved: method.take(n), bridge });
            &&& hook_of(after, target) == Some(
                SavedMethod { target, saved: method.take(n), bridge },
            )
            &&& patched(hooked, method.take(n)) == method
            &&& after.remove(hook_index(after, target, 0)) == hooks
        }),
{
    let after = hooks.push(SavedMethod { target, saved: method.take(n), bridge });
    lemma_index_after_push(hooks, after, target, 0);
    let hooked = patched(method, bridge_method.take(n));
    assert(patched(hooked, method.take(n)) =~= method);
    assert(after.remove(hooks.len() as int) =~= hooks);
}

proof fn lemma_index_after_push(
    hooks: Seq<SavedMethod>,
    after: Seq<SavedMethod>,
    target: usize,
    i: int,
)
    requires
        0 <= i <= hooks.len(),
        after.len() == hooks.len() + 1,
        forall|j: int| 0 <= j < hooks.len() ==> after[j] == hooks[j],
        after.last().target == target,
        hook_index(hooks, target, i) >= hooks.len(),
    ensures
        hook_index(after, target, i) == hooks.len(),
    decreases hooks.len() - i,
{
    if i < hooks.len() {
        lemma_index_after_push(hooks, after, target, i + 1);
    }
}

/// The index of `RegisterNatives` in the JNI function table.
pub const JNI_REGISTER_NATIVES_INDEX: usize = 215;

/// Nothing is installed outside of the Android agent.
pub fn hook_register_natives_stub() {
}

pub fn set_js_implementation(state: &mut ArtState, bridge_id: u64, script_fn_token: u64)
    ensures
        final(state)@ == (ArtView {
            js: old(state)@.js.insert(bridge_id, script_fn_token),
            ..old(state)@
        }),
{
    state.js_impls.insert(bridge_id, script_fn_token);
}

/// The script function of a bridge. It stays set.
pub fn take_js_implementation(state: &ArtState, bridge_id: u64) -> (r: Option<u64>)
    ensures
        r == if state@.js.contains_key(bridge_id) {
            Some(state@.js[bridge_id])
        } else {
            None
        },
{
    match state.js_impls.get(&bridge_id) {
        Some(v) => Some(*v),
        None => None,
    }
}

/// Whether a script implementation was assigned for a bridge.
pub fn has_js_implementation(state: &ArtState, bridge_id: u64) -> (r: bool)
    ensures
        r == state@.js.contains_key(bridge_id),
{
    state.js_impls.contains_key(&bridge_id)
}

/// `class.method`.
pub open spec fn method_key(class_name: Seq<char>, method_name: Seq<char>) -> Seq<char> {
    class_name + "."@ + method_name
}

/// Records that a script implements `class_name.method_name`.
pub fn hook_java_method(
    state: &mut ArtState,
    class_name: &str,
    method_name: &str,
    _sig: &str,
) -> (r: Result<(), ArtError>)
    ensures
        r is Ok,
        final(state)@ == (ArtView {
            js: old(state)@.js.insert(
                fnv1a(vstd::utf8::encode_utf8(method_key(class_name@, method_name@))),
                1,
            ),
            ..old(state)@
        }),
{
    let key = class_name.to_owned().concat(".").concat(method_name);
    set_js_implementation(state, fxhash(key.as_str()), 1);
    Ok(())
}

/// The 64-bit FNV-1a hash of some bytes.
pub open spec fn fnv1a(bytes: Seq<u8>) -> u64
    decreases bytes.len(),
{
    if bytes.len() == 0 {
        0xcbf2_9ce4_8422_2325
    } else {
        (fnv1a(bytes.drop_last()) ^ (bytes.last() as u64)).wrapping_mul(0x100_0000_01b3)
    }
}

/// The FNV-1a hash of a string's UTF-8 bytes.
pub fn fxhash(s: &str) -> (h: u64)
    ensures
        h == fnv1a(vstd::utf8::encode_utf8(s@)),
{
    let bytes = s.as_bytes();
    let mut h: u64 = 0xcbf2_9ce4_8422_2325;
    let mut i: usize = 0;
    assert(bytes@.take(0) =~= Seq::<u8>::empty());
    while i < bytes.len()
        invariant
            i <= bytes@.len(),
            h == fnv1a(bytes@.take(i as int)),
        decreases bytes@.len() - i,
    {
        h = (h ^ (bytes[i] as u64)).wrapping_mul(0x100_0000_01b3);
        i = i + 1;
        assert(bytes@.take(i as int).drop_last() =~= bytes@.take(i - 1));
    }
    assert(bytes@.take(bytes@.len() as int) =~= bytes@);
    h
}

/// What a method hook runs in: JNI environment, receiver, and the hooked `ArtMethod`.
#[derive(Debug, Clone, Copy, PartialEq, Eq, Structural)]
pub struct HookContext {
    pub env: usize,
    pub thiz: usize,
    pub art: usize,
}

impl HookContext {
    /// No hook is running.
    pub fn new() -> (c: Self)
        ensures
            c == (HookContext { env: 0, thiz: 0, art: 0 }),
    {
        HookContext { env: 0, thiz: 0, art: 0 }
    }

    /// The context of the running hook; there is none without a receiver and a method.
    pub fn current(&self) -> (r: Option<(usize, usize, usize)>)
        ensures
            r == if self.art == 0 || self.thiz == 0 {
                None
            } else {
                Some((self.env, self.thiz, self.art))
            },
    {
        if self.art == 0 || self.thiz == 0 {
            None
        } else {
            Some((self.env, self.thiz, self.art))
        }
    }

    /// A hook runs in this context from now on.
    pub fn set(&mut self, env: usize, thiz: usize, art: usize)
        ensures
            *final(self) == (HookContext { env, thiz, art }),
    {
        *self = HookContext { env, thiz, art };
    }

    /// No hook runs from now on.
    pub fn clear(&mut self)
        ensures
            *final(self) == (HookContext { env: 0, thiz: 0, art: 0 }),
    {
        self.set(0, 0, 0);
    }
}

/// The context of the running hook; there is none without a receiver and a method.
pub fn current_hook_context(ctx: &HookContext) -> (r: Option<(usize, usize, usize)>)
    ensures
        r == if ctx.art == 0 || ctx.thiz == 0 {
            None
        } else {
            Some((ctx.env, ctx.thiz, ctx.art))
        },
{
    ctx.current()
}

/// Makes a context that of the running hook.
pub fn set_hook_context(ctx: &mut HookContext, env: usize, thiz: usize, art: usize)
    ensures
        *final(ctx) == (HookContext { env, thiz, art }),
{
    ctx.set(env, thiz, art);
}

/// Forgets the context of a hook that ended.
pub fn clear_hook_context(ctx: &mut HookContext)
    ensures
        *final(ctx) == (HookContext { env: 0, thiz: 0, art: 0 }),
{
    ctx.clear();
}

/// A method or a field of a Java class.
#[derive(Debug)]
pub struct MethodDesc {
    pub name: String,
    pub sig: String,
    pub is_static: bool,
    pub flags: u32,
}

#[derive(Debug)]
pub struct FieldDesc {
    pub name: String,
    pub ty: String,
    pub is_static: bool,
    pub flags: u32,
}

} // verus!
