//! Texts in order, each of them once.
use crate::text::{chars_of, string_of};
use vstd::prelude::*;
use vstd::string::*;

verus! {

/// Whether a text goes before another: by the first character in which they differ, and a
/// prefix first. The UTF-8 forms of the two are in the same order.
pub open spec fn goes_first(a: Seq<char>, b: Seq<char>) -> bool
    decreases a.len(),
{
    if b.len() == 0 {
        false
    } else if a.len() == 0 {
        true
    } else if a[0] != b[0] {
        a[0] < b[0]
    } else {
        goes_first(a.skip(1), b.skip(1))
    }
}

/// Whether texts are in order, each of them once.
pub open spec fn in_order(s: Seq<Seq<char>>) -> bool {
    forall|i: int, j: int| 0 <= i < j < s.len() ==> #[trigger] goes_first(s[i], s[j])
}

/// No text goes before itself, and of two different ones exactly one goes first.
pub proof fn law_order_is_total(a: Seq<char>, b: Seq<char>)
    ensures
        !goes_first(a, a),
        a != b ==> goes_first(a, b) != goes_first(b, a),
    decreases a.len(),
{
    if a.len() > 0 {
        law_order_is_total(a.skip(1), a.skip(1));
        if b.len() > 0 && a[0] == b[0] {
            law_order_is_total(a.skip(1), b.skip(1));
            if a.skip(1) == b.skip(1) {
                assert(a =~= seq![a[0]] + a.skip(1));
                assert(b =~= seq![b[0]] + b.skip(1));
            }
        }
    } else if b.len() == 0 {
        assert(a =~= b);
    }
}

/// What goes before a text that goes before another goes before that one.
pub proof fn law_order_is_transitive(a: Seq<char>, b: Seq<char>, c: Seq<char>)
    requires
        goes_first(a, b),
        goes_first(b, c),
    ensures
        goes_first(a, c),
    decreases a.len(),
{
    if a.len() > 0 && b.len() > 0 && c.len() > 0 && a[0] == b[0] && b[0] == c[0] {
        law_order_is_transitive(a.skip(1), b.skip(1), c.skip(1));
    }
}

/// Texts in order are fixed by which they are.
pub proof fn law_order_is_unique(a: Seq<Seq<char>>, b: Seq<Seq<char>>)
    requires
        in_order(a),
        in_order(b),
        forall|t: Seq<char>| a.contains(t) <==> b.contains(t),
    ensures
        a == b,
    decreases a.len(),
{
    if a.len() == 0 {
        if b.len() > 0 {
            assert(b.contains(b[0]));
            assert(a.contains(b[0]));
        }
        assert(a =~= b);
    } else {
        assert(a.contains(a[0]));
        assert(b.contains(a[0]));
        assert(b.contains(b[0]));
        assert(a.contains(b[0]));
        let i = choose|i: int| 0 <= i < b.len() && b[i] == a[0];
        let j = choose|j: int| 0 <= j < a.len() && a[j] == b[0];
        if i > 0 {
            assert(goes_first(b[0], b[i]));
            if j > 0 {
                assert(goes_first(a[0], a[j]));
                law_order_is_total(a[0], b[0]);
            }
        }
        assert(a[0] == b[0]) by {
            if a[0] != b[0] {
                assert(i > 0 && j > 0);
                law_order_is_total(a[0], b[0]);
            }
        }
        let x = a.skip(1);
        let y = b.skip(1);
        assert(in_order(x)) by {
            assert forall|p: int, q: int| 0 <= p < q < x.len() implies #[trigger] goes_first(
                x[p],
                x[q],
            ) by {
                assert(goes_first(a[p + 1], a[q + 1]));
            }
        }
        assert(in_order(y)) by {
            assert forall|p: int, q: int| 0 <= p < q < y.len() implies #[trigger] goes_first(
                y[p],
                y[q],
            ) by {
                assert(goes_first(b[p + 1], b[q + 1]));
            }
        }
        assert forall|t: Seq<char>| x.contains(t) <==> y.contains(t) by {
            lemma_rest_contains(a, t);
            lemma_rest_contains(b, t);
        }
        law_order_is_unique(x, y);
        assert(a =~= seq![a[0]] + x);
        assert(b =~= seq![b[0]] + y);
    }
}

proof fn lemma_rest_contains(a: Seq<Seq<char>>, t: Seq<char>)
    requires
        in_order(a),
        a.len() > 0,
    ensures
        a.skip(1).contains(t) <==> a.contains(t) && t != a[0],
{
    let x = a.skip(1);
    if x.contains(t) {
        let k = choose|k: int| 0 <= k < x.len() && x[k] == t;
        assert(a[k + 1] == t);
        assert(goes_first(a[0], a[k + 1]));
        law_order_is_total(a[0], a[0]);
    }
    if a.contains(t) && t != a[0] {
        let k = choose|k: int| 0 <= k < a.len() && a[k] == t;
        assert(x[k - 1] == t);
    }
}

/// How two texts stand to each other.
#[derive(Debug, Clone, Copy, PartialEq, Eq, Structural)]
pub enum Side {
    First,
    Same,
    Second,
}

/// Which of two texts goes first.
pub fn side(a: &[char], b: &[char]) -> (r: Side)
    ensures
        r == if a@ == b@ {
            Side::Same
        } else if goes_first(a@, b@) {
            Side::First
        } else {
            Side::Second
        },
{
    let mut i: usize = 0;
    assert(a@.skip(0) =~= a@);
    assert(b@.skip(0) =~= b@);
    while i < a.len() && i < b.len()
        invariant
            i <= a@.len(),
            i <= b@.len(),
            a@.take(i as int) == b@.take(i as int),
            goes_first(a@, b@) == goes_first(a@.skip(i as int), b@.skip(i as int)),
        decreases a@.len() - i,
    {
        let ghost x = a@.skip(i as int);
        let ghost y = b@.skip(i as int);
        if a[i] != b[i] {
            assert(x[0] == a@[i as int]);
            assert(y[0] == b@[i as int]);
            assert(a@ != b@) by {
                assert(a@[i as int] != b@[i as int]);
            }
            return if a[i] < b[i] {
                Side::First
            } else {
                Side::Second
            };
        }
        assert(x.skip(1) =~= a@.skip(i + 1));
        assert(y.skip(1) =~= b@.skip(i + 1));
        assert(a@.take(i + 1) =~= a@.take(i as int).push(a@[i as int]));
        assert(b@.take(i + 1) =~= b@.take(i as int).push(b@[i as int]));
        i = i + 1;
    }
    if a.len() == b.len() {
        assert(a@.take(i as int) =~= a@);
        assert(b@.take(i as int) =~= b@);
        Side::Same
    } else if i == a.len() {
        Side::First
    } else {
        Side::Second
    }
}

/// Texts with a text for each of them, in order.
pub struct TextMap {
    keys: Vec<Vec<char>>,
    values: Vec<String>,
}

/// The same, as contracts speak of it.
#[verifier::ext_equal]
pub struct TextEntries {
    pub keys: Seq<Seq<char>>,
    pub values: Seq<Seq<char>>,
}

impl View for TextMap {
    type V = TextEntries;

    closed spec fn view(&self) -> TextEntries {
        TextEntries { keys: crate::split::texts(self.keys@), values: crate::text::views(self.values@) }
    }
}

impl TextEntries {
    /// Whether the keys are in order and each has a value.
    pub open spec fn wf(self) -> bool {
        self.keys.len() == self.values.len() && in_order(self.keys)
    }

    /// Whether a key has a value.
    pub open spec fn maps(self, key: Seq<char>, value: Seq<char>) -> bool {
        exists|i: int|
            0 <= i < self.keys.len() && #[trigger] self.keys[i] == key && self.values[i] == value
    }
}

/// Where a key belongs: before it what goes first, behind it what goes last.
pub open spec fn belongs(keys: Seq<Seq<char>>, key: Seq<char>, at: int) -> bool {
    &&& 0 <= at <= keys.len()
    &&& forall|j: int| 0 <= j < at ==> goes_first(#[trigger] keys[j], key)
    &&& forall|j: int| at <= j < keys.len() ==> !goes_first(#[trigger] keys[j], key)
}

impl TextMap {
    pub fn new() -> (m: TextMap)
        ensures
            m@.wf(),
            m@.keys.len() == 0,
    {
        let m = TextMap { keys: Vec::new(), values: Vec::new() };
        m
    }

    pub fn len(&self) -> (n: usize)
        ensures
            n == self@.keys.len(),
    {
        self.keys.len()
    }

    /// The `i`th key and its value.
    pub fn entry(&self, i: usize) -> (r: (String, &String))
        requires
            self@.wf(),
            i < self@.keys.len(),
        ensures
            r.0@ == self@.keys[i as int],
            r.1@ == self@.values[i as int],
    {
        assert(self@.keys[i as int] == self.keys@[i as int]@);
        assert(self@.values[i as int] == self.values@[i as int]@);
        (string_of(self.keys[i].as_slice()), &self.values[i])
    }

    fn place(&self, key: &Vec<char>) -> (r: (usize, bool))
        requires
            self@.wf(),
        ensures
            belongs(self@.keys, key@, r.0 as int),
            r.1 == self@.keys.contains(key@),
            r.1 ==> r.0 < self@.keys.len() && self@.keys[r.0 as int] == key@,
    {
        let mut i: usize = 0;
        let ghost keys = self@.keys;
        while i < self.keys.len()
            invariant
                i <= self.keys@.len(),
                keys == crate::split::texts(self.keys@),
                in_order(keys),
                forall|j: int| 0 <= j < i ==> goes_first(#[trigger] keys[j], key@),
            decreases self.keys@.len() - i,
        {
            assert(keys[i as int] == self.keys@[i as int]@);
            let s = side(self.keys[i].as_slice(), key.as_slice());
            match s {
                Side::First => {},
                _ => {
                    proof {
                        law_order_is_total(keys[i as int], key@);
                        assert forall|j: int| i <= j < keys.len() implies !goes_first(
                            #[trigger] keys[j],
                            key@,
                        ) by {
                            if j > i && goes_first(keys[j], key@) {
                                assert(goes_first(keys[i as int], keys[j]));
                                law_order_is_transitive(keys[i as int], keys[j], key@);
                            }
                        }
                    }
                    let same = matches!(s, Side::Same);
                    proof {
                        if !same && keys.contains(key@) {
                            let k = choose|k: int| 0 <= k < keys.len() && keys[k] == key@;
                            law_order_is_total(key@, key@);
                            assert(k >= i);
                            assert(k > i);
                            assert(goes_first(keys[i as int], keys[k]));
                        }
                    }
                    return (i, same);
                },
            }
            i = i + 1;
        }
        proof {
            if keys.contains(key@) {
                let k = choose|k: int| 0 <= k < keys.len() && keys[k] == key@;
                law_order_is_total(key@, key@);
            }
        }
        (i, false)
    }

    /// Gives a key a value, in place of the one that it has.
    pub fn insert(&mut self, key: &str, value: String)
        requires
            old(self)@.wf(),
        ensures
            final(self)@.wf(),
            forall|t: Seq<char>|
                #![trigger final(self)@.keys.contains(t)]
                final(self)@.keys.contains(t) <==> old(self)@.keys.contains(t) || t == key@,
            forall|t: Seq<char>, v: Seq<char>| #[trigger]
                final(self)@.maps(t, v) <==> if t == key@ {
                    v == value@
                } else {
                    old(self)@.maps(t, v)
                },
    {
        let kv = chars_of(key);
        let ghost before = self@;
        let (at, same) = self.place(&kv);
        if same {
            self.values.set(at, value);
            let ghost after = self@;
            proof {
                assert(after.keys =~= before.keys);
                assert(after.values =~= before.values.update(at as int, value@));
                lemma_replaced(before, after, key@, value@, at as int);
            }
        } else {
            self.keys.insert(at, kv);
            self.values.insert(at, value);
            let ghost after = self@;
            proof {
                assert(after.keys =~= before.keys.insert(at as int, key@));
                assert(after.values =~= before.values.insert(at as int, value@));
                lemma_inserted(before, after, key@, value@, at as int);
            }
        }
    }
}

proof fn lemma_replaced(
    before: TextEntries,
    after: TextEntries,
    key: Seq<char>,
    value: Seq<char>,
    at: int,
)
    requires
        before.wf(),
        0 <= at < before.keys.len(),
        before.keys[at] == key,
        after.keys == before.keys,
        after.values == before.values.update(at, value),
    ensures
        after.wf(),
        before.keys.contains(key),
        forall|t: Seq<char>, v: Seq<char>| #[trigger]
            after.maps(t, v) <==> if t == key {
                v == value
            } else {
                before.maps(t, v)
            },
{
    assert forall|t: Seq<char>, v: Seq<char>| #[trigger] after.maps(t, v) <==> if t == key {
        v == value
    } else {
        before.maps(t, v)
    } by {
        if after.maps(t, v) {
            let i = choose|i: int|
                0 <= i < after.keys.len() && #[trigger] after.keys[i] == t && after.values[i] == v;
            if t == key {
                lemma_distinct(before.keys, i, at);
            } else {
                assert(before.keys[i] == t && before.values[i] == v);
            }
        }
        if t == key && v == value {
            assert(after.keys[at] == t && after.values[at] == v);
        }
        if t != key && before.maps(t, v) {
            let i = choose|i: int|
                0 <= i < before.keys.len() && #[trigger] before.keys[i] == t && before.values[i]
                    == v;
            assert(after.keys[i] == t && after.values[i] == v);
        }
    }
}

proof fn lemma_distinct(keys: Seq<Seq<char>>, i: int, j: int)
    requires
        in_order(keys),
        0 <= i < keys.len(),
        0 <= j < keys.len(),
        keys[i] == keys[j],
    ensures
        i == j,
{
    law_order_is_total(keys[i], keys[i]);
    if i < j {
        assert(goes_first(keys[i], keys[j]));
    }
    if j < i {
        assert(goes_first(keys[j], keys[i]));
    }
}

proof fn lemma_inserted(
    before: TextEntries,
    after: TextEntries,
    key: Seq<char>,
    value: Seq<char>,
    at: int,
)
    requires
        before.wf(),
        belongs(before.keys, key, at),
        !before.keys.contains(key),
        after.keys == before.keys.insert(at, key),
        after.values == before.values.insert(at, value),
    ensures
        after.wf(),
        forall|t: Seq<char>|
            #![trigger after.keys.contains(t)]
            after.keys.contains(t) <==> before.keys.contains(t) || t == key,
        forall|t: Seq<char>, v: Seq<char>| #[trigger]
            after.maps(t, v) <==> if t == key {
                v == value
            } else {
                before.maps(t, v)
            },
{
    let ks = before.keys;
    assert(in_order(after.keys)) by {
        assert forall|i: int, j: int| 0 <= i < j < after.keys.len() implies #[trigger] goes_first(
            after.keys[i],
            after.keys[j],
        ) by {
            let x = if i < at {
                i
            } else {
                i - 1
            };
            let y = if j < at {
                j
            } else {
                j - 1
            };
            if i == at {
                assert(after.keys[j] == ks[y]);
                assert(!goes_first(ks[y], key));
                assert(ks.contains(ks[y]));
                law_order_is_total(ks[y], key);
            } else if j == at {
                assert(after.keys[i] == ks[x]);
                assert(goes_first(ks[x], key));
            } else {
                assert(goes_first(ks[x], ks[y]));
            }
        }
    }
    assert forall|t: Seq<char>| #![trigger after.keys.contains(t)]
        after.keys.contains(t) <==> ks.contains(t) || t == key by {
        if after.keys.contains(t) {
            let i = choose|i: int| 0 <= i < after.keys.len() && after.keys[i] == t;
            if i < at {
                assert(ks[i] == t);
            } else if i > at {
                assert(ks[i - 1] == t);
            }
        }
        if t == key {
            assert(after.keys[at] == t);
        }
        if ks.contains(t) {
            let i = choose|i: int| 0 <= i < ks.len() && ks[i] == t;
            let k = if i < at {
                i
            } else {
                i + 1
            };
            assert(after.keys[k] == t);
        }
    }
    assert forall|t: Seq<char>, v: Seq<char>| #[trigger] after.maps(t, v) <==> if t == key {
        v == value
    } else {
        before.maps(t, v)
    } by {
        if after.maps(t, v) {
            let i = choose|i: int|
                0 <= i < after.keys.len() && #[trigger] after.keys[i] == t && after.values[i] == v;
            if i != at {
                let k = if i < at {
                    i
                } else {
                    i - 1
                };
                assert(ks[k] == t && before.values[k] == v);
                assert(ks.contains(t));
            }
        }
        if t == key && v == value {
            assert(after.keys[at] == t && after.values[at] == v);
        }
        if t != key && before.maps(t, v) {
            let i = choose|i: int| 0 <= i < ks.len() && #[trigger] ks[i] == t && before.values[i] == v;
            let k = if i < at {
                i
            } else {
                i + 1
            };
            assert(after.keys[k] == t && after.values[k] == v);
        }
    }
}

} // verus!
