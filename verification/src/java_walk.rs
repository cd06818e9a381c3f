//! Walking the objects of the runtime: class loaders, their classes, and preferences.
use crate::ordered::{in_order, TextMap};
use vstd::prelude::*;
use vstd::string::*;

verus! {

/// What an operation on an object came to.
#[derive(Debug, Clone, Copy, PartialEq, Eq, Structural)]
pub enum Got {
    /// There is such an object, or it is so.
    Yes,
    /// There is none, or it is not so.
    No,
    /// The runtime failed.
    Fault,
    /// So many.
    Count(u32),
}

/// Where a walk through the classes of a loader stands: the operation whose answer it waits
/// for.
#[derive(Debug, Clone, Copy, PartialEq, Eq, Structural)]
pub enum WalkPhase {
    OwnClass,
    PathList,
    BaseClass,
    PathField,
    PathValue,
    ListClass,
    ElementsField,
    ElementsValue,
    Elements,
    Length,
    Element,
    DexFile,
    Entries,
    More,
    Next,
    Text,
    Finished,
    Failed,
}

/// A walk through the classes of a loader: its path list, that list's elements, and the entries
/// of each element's file. Where the path list cannot be had directly it is had by reflection.
/// An entry that is no object is passed over.
#[derive(Debug, Clone, Copy, PartialEq, Eq, Structural)]
pub struct ClassWalk {
    pub phase: WalkPhase,
    /// Element that is looked at.
    pub index: u32,
    /// How many elements there are.
    pub count: u32,
}

impl ClassWalk {
    pub open spec fn at(self, phase: WalkPhase) -> ClassWalk {
        ClassWalk { phase, ..self }
    }

    /// At another operation where there is an object, else over.
    pub open spec fn if_found(self, a: Got, phase: WalkPhase) -> ClassWalk {
        if a is Yes {
            self.at(phase)
        } else {
            self.at(WalkPhase::Finished)
        }
    }

    /// The same, where a failure of the runtime is reported.
    pub open spec fn if_found_or_fail(self, a: Got, phase: WalkPhase) -> ClassWalk {
        if a is Fault {
            self.at(WalkPhase::Failed)
        } else {
            self.if_found(a, phase)
        }
    }

    /// At the element that is looked at; over where there is none left.
    pub open spec fn to_element(self) -> ClassWalk {
        if self.index < self.count {
            self.at(WalkPhase::Element)
        } else {
            self.at(WalkPhase::Finished)
        }
    }

    /// At the next element.
    pub open spec fn to_next_element(self) -> ClassWalk {
        ClassWalk { index: (self.index + 1) as u32, ..self }.to_element()
    }

    /// At another operation where there is an object, else at the next element.
    pub open spec fn if_found_in_element(self, a: Got, phase: WalkPhase) -> ClassWalk {
        if a is Yes {
            self.at(phase)
        } else {
            self.to_next_element()
        }
    }

    /// The walk after an answer.
    pub open spec fn after(self, a: Got) -> ClassWalk {
        match self.phase {
            WalkPhase::OwnClass => self.if_found(a, WalkPhase::PathList),
            WalkPhase::PathList => if a is Yes {
                self.at(WalkPhase::Elements)
            } else {
                self.at(WalkPhase::BaseClass)
            },
            WalkPhase::BaseClass => self.if_found(a, WalkPhase::PathField),
            WalkPhase::PathField => self.if_found_or_fail(a, WalkPhase::PathValue),
            WalkPhase::PathValue => self.if_found(a, WalkPhase::ListClass),
            WalkPhase::ListClass => if a is Yes {
                self.at(WalkPhase::ElementsField)
            } else {
                self.at(WalkPhase::Failed)
            },
            WalkPhase::ElementsField => self.if_found_or_fail(a, WalkPhase::ElementsValue),
            WalkPhase::ElementsValue => self.if_found(a, WalkPhase::Length),
            WalkPhase::Elements => self.if_found(a, WalkPhase::Length),
            WalkPhase::Length => ClassWalk {
                index: 0,
                count: match a {
                    Got::Count(n) => n,
                    _ => 0,
                },
                ..self
            }.to_element(),
            WalkPhase::Element => self.if_found_in_element(a, WalkPhase::DexFile),
            WalkPhase::DexFile => self.if_found_in_element(a, WalkPhase::Entries),
            WalkPhase::Entries => self.if_found_in_element(a, WalkPhase::More),
            WalkPhase::More => self.if_found_in_element(a, WalkPhase::Next),
            WalkPhase::Next => if a is No {
                self.at(WalkPhase::More)
            } else {
                self.if_found_in_element(a, WalkPhase::Text)
            },
            WalkPhase::Text => self.at(WalkPhase::More),
            WalkPhase::Finished => self,
            WalkPhase::Failed => self,
        }
    }

    /// Whether the walk is within one of the elements.
    pub open spec fn in_element(self) -> bool {
        self.phase is Element || self.phase is DexFile || self.phase is Entries || self.phase
            is More || self.phase is Next || self.phase is Text
    }

    /// Whether the walk is in order: an element that is looked at is one of those there are.
    pub open spec fn wf(self) -> bool {
        self.in_element() ==> self.index < self.count
    }

    pub fn new() -> (w: ClassWalk)
        ensures
            w == (ClassWalk { phase: WalkPhase::OwnClass, index: 0, count: 0 }),
            w.wf(),
    {
        ClassWalk { phase: WalkPhase::OwnClass, index: 0, count: 0 }
    }

    fn go_if_found(&mut self, a: Got, phase: WalkPhase)
        ensures
            *final(self) == old(self).if_found(a, phase),
    {
        self.phase = if matches!(a, Got::Yes) {
            phase
        } else {
            WalkPhase::Finished
        };
    }

    fn go_or_fail(&mut self, a: Got, phase: WalkPhase)
        ensures
            *final(self) == old(self).if_found_or_fail(a, phase),
    {
        if matches!(a, Got::Fault) {
            self.phase = WalkPhase::Failed;
        } else {
            self.go_if_found(a, phase);
        }
    }

    fn go_to_element(&mut self)
        ensures
            *final(self) == old(self).to_element(),
    {
        self.phase = if self.index < self.count {
            WalkPhase::Element
        } else {
            WalkPhase::Finished
        };
    }

    fn go_in_element(&mut self, a: Got, phase: WalkPhase)
        requires
            old(self).index < old(self).count,
        ensures
            *final(self) == old(self).if_found_in_element(a, phase),
    {
        if matches!(a, Got::Yes) {
            self.phase = phase;
        } else {
            self.index = self.index + 1;
            self.go_to_element();
        }
    }

    /// Goes on with the answer to the operation that was due.
    pub fn step(&mut self, a: Got)
        requires
            old(self).wf(),
        ensures
            *final(self) == old(self).after(a),
            final(self).wf(),
    {
        match self.phase {
            WalkPhase::OwnClass => {
                self.go_if_found(a, WalkPhase::PathList);
            },
            WalkPhase::PathList => {
                self.phase = if matches!(a, Got::Yes) {
                    WalkPhase::Elements
                } else {
                    WalkPhase::BaseClass
                };
            },
            WalkPhase::BaseClass => {
                self.go_if_found(a, WalkPhase::PathField);
            },
            WalkPhase::PathField => {
                self.go_or_fail(a, WalkPhase::PathValue);
            },
            WalkPhase::PathValue => {
                self.go_if_found(a, WalkPhase::ListClass);
            },
            WalkPhase::ListClass => {
                self.phase = if matches!(a, Got::Yes) {
                    WalkPhase::ElementsField
                } else {
                    WalkPhase::Failed
                };
            },
            WalkPhase::ElementsField => {
                self.go_or_fail(a, WalkPhase::ElementsValue);
            },
            WalkPhase::ElementsValue => {
                self.go_if_found(a, WalkPhase::Length);
            },
            WalkPhase::Elements => {
                self.go_if_found(a, WalkPhase::Length);
            },
            WalkPhase::Length => {
                self.index = 0;
                self.count = match a {
                    Got::Count(n) => n,
                    _ => 0,
                };
                self.go_to_element();
            },
            WalkPhase::Element => {
                self.go_in_element(a, WalkPhase::DexFile);
            },
            WalkPhase::DexFile => {
                self.go_in_element(a, WalkPhase::Entries);
            },
            WalkPhase::Entries => {
                self.go_in_element(a, WalkPhase::More);
            },
            WalkPhase::More => {
                self.go_in_element(a, WalkPhase::Next);
            },
            WalkPhase::Next => {
                if matches!(a, Got::No) {
                    self.phase = WalkPhase::More;
                } else {
                    self.go_in_element(a, WalkPhase::Text);
                }
            },
            WalkPhase::Text => {
                self.phase = WalkPhase::More;
            },
            WalkPhase::Finished => {},
            WalkPhase::Failed => {},
        }
    }

    /// Whether the walk is over.
    pub fn is_over(&self) -> (r: bool)
        ensures
            r == (self.phase is Finished || self.phase is Failed),
    {
        matches!(self.phase, WalkPhase::Finished | WalkPhase::Failed)
    }
}

/// Every element is looked at once and in turn: an answer leaves the walk at its element, or
/// brings it to the next one, or ends it.
pub proof fn law_elements_in_turn(w: ClassWalk, a: Got)
    requires
        w.wf(),
        w.in_element(),
    ensures
        w.after(a).count == w.count,
        w.after(a).in_element() ==> w.after(a).index == w.index || (w.after(a).index == w.index + 1
            && w.after(a).phase is Element),
        w.after(a).phase is Finished ==> w.index + 1 == w.count,
        !(w.after(a).phase is Failed),
{
}

/// Adds the name of a class to those that were found, each once and in order.
pub fn add_class(names: &mut TextMap, name: &str)
    requires
        old(names)@.wf(),
    ensures
        final(names)@.wf(),
        forall|t: Seq<char>|
            #![trigger final(names)@.keys.contains(t)]
            final(names)@.keys.contains(t) <==> old(names)@.keys.contains(t) || t == name@,
{
    names.insert(name, String::new());
}

/// The names of the classes that were found.
pub fn class_names(names: &TextMap) -> (out: Vec<String>)
    requires
        names@.wf(),
    ensures
        crate::text::views(out@) == names@.keys,
        in_order(crate::text::views(out@)),
{
    let n: usize = names.len();
    let mut out: Vec<String> = Vec::new();
    let mut i: usize = 0;
    assert(crate::text::views(out@) =~= names@.keys.take(0));
    while i < n
        invariant
            n == names@.keys.len(),
            names@.wf(),
            i <= n,
            crate::text::views(out@) == names@.keys.take(i as int),
        decreases n - i,
    {
        let (k, _) = names.entry(i);
        let ghost before = out@;
        out.push(k);
        assert(k@ == names@.keys[i as int]);
        i = i + 1;
        assert(crate::text::views(out@) =~= crate::text::views(before).push(k@));
        assert(crate::text::views(out@) =~= names@.keys.take(i as int));
    }
    assert(names@.keys.take(i as int) =~= names@.keys);
    out
}

/// Takes note of a loader in a chain of loaders. The chain ends without one, and at one that
/// was seen.
pub fn push_loader(seen: &mut Vec<u64>, ptr: u64) -> (r: bool)
    ensures
        r == (ptr != 0 && !old(seen)@.contains(ptr)),
        final(seen)@ == if r {
            old(seen)@.push(ptr)
        } else {
            old(seen)@
        },
{
    if ptr == 0 {
        return false;
    }
    let mut i: usize = 0;
    while i < seen.len()
        invariant
            i <= seen@.len(),
            seen@ == old(seen)@,
            forall|j: int| 0 <= j < i ==> seen@[j] != ptr,
        decreases seen@.len() - i,
    {
        if seen[i] == ptr {
            return false;
        }
        i = i + 1;
    }
    seen.push(ptr);
    true
}

/// Where a walk through preferences stands: the operation whose answer it waits for.
#[derive(Debug, Clone, Copy, PartialEq, Eq, Structural)]
pub enum PrefsPhase {
    Open,
    All,
    EntrySet,
    Iterator,
    More,
    Next,
    Key,
    Value,
    Finished,
    Failed,
}

/// Where a walk through preferences goes with an answer.
pub open spec fn prefs_after(p: PrefsPhase, a: Got) -> PrefsPhase {
    match p {
        PrefsPhase::Open => if a is Fault {
            PrefsPhase::Failed
        } else {
            PrefsPhase::All
        },
        PrefsPhase::All => if a is Fault {
            PrefsPhase::Failed
        } else if a is No {
            PrefsPhase::Finished
        } else {
            PrefsPhase::EntrySet
        },
        PrefsPhase::EntrySet => if a is Fault {
            PrefsPhase::Failed
        } else {
            PrefsPhase::Iterator
        },
        PrefsPhase::Iterator => if a is Fault {
            PrefsPhase::Failed
        } else {
            PrefsPhase::More
        },
        PrefsPhase::More => if a is Yes {
            PrefsPhase::Next
        } else {
            PrefsPhase::Finished
        },
        PrefsPhase::Next => if a is Fault {
            PrefsPhase::Finished
        } else if a is Yes {
            PrefsPhase::Key
        } else {
            PrefsPhase::More
        },
        PrefsPhase::Key => if a is Yes {
            PrefsPhase::Value
        } else {
            PrefsPhase::More
        },
        PrefsPhase::Value => PrefsPhase::More,
        PrefsPhase::Finished => PrefsPhase::Finished,
        PrefsPhase::Failed => PrefsPhase::Failed,
    }
}

/// Where a walk through preferences goes with an answer. What is no entry, and an entry without
/// a key, is passed over.
pub fn read_shared_prefs(p: PrefsPhase, a: Got) -> (r: PrefsPhase)
    ensures
        r == prefs_after(p, a),
{
    let fault = matches!(a, Got::Fault);
    let yes = matches!(a, Got::Yes);
    match p {
        PrefsPhase::Open => if fault {
            PrefsPhase::Failed
        } else {
            PrefsPhase::All
        },
        PrefsPhase::All => if fault {
            PrefsPhase::Failed
        } else if matches!(a, Got::No) {
            PrefsPhase::Finished
        } else {
            PrefsPhase::EntrySet
        },
        PrefsPhase::EntrySet => if fault {
            PrefsPhase::Failed
        } else {
            PrefsPhase::Iterator
        },
        PrefsPhase::Iterator => if fault {
            PrefsPhase::Failed
        } else {
            PrefsPhase::More
        },
        PrefsPhase::More => if yes {
            PrefsPhase::Next
        } else {
            PrefsPhase::Finished
        },
        PrefsPhase::Next => if fault {
            PrefsPhase::Finished
        } else if yes {
            PrefsPhase::Key
        } else {
            PrefsPhase::More
        },
        PrefsPhase::Key => if yes {
            PrefsPhase::Value
        } else {
            PrefsPhase::More
        },
        PrefsPhase::Value => PrefsPhase::More,
        PrefsPhase::Finished => PrefsPhase::Finished,
        PrefsPhase::Failed => PrefsPhase::Failed,
    }
}

} // verus!
