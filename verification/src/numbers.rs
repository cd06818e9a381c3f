//! Reading numbers, with the reason where a text is none.
use crate::text::{digit_value, digits_value, numeral_max, parse_number};
use vstd::prelude::*;
use vstd::string::*;

verus! {

/// Why a text is no number.
#[derive(Debug, Clone, Copy, PartialEq, Eq, Structural)]
pub enum NumberFault {
    Empty,
    Digit,
    Large,
}

impl NumberFault {
    /// The fault in words.
    pub open spec fn text(self) -> Seq<char> {
        match self {
            NumberFault::Empty => "cannot parse integer from empty string"@,
            NumberFault::Digit => "invalid digit found in string"@,
            NumberFault::Large => "number too large to fit in target type"@,
        }
    }

    pub fn message(&self) -> (m: String)
        ensures
            m@ == self.text(),
    {
        match self {
            NumberFault::Empty => "cannot parse integer from empty string".to_owned(),
            NumberFault::Digit => "invalid digit found in string".to_owned(),
            NumberFault::Large => "number too large to fit in target type".to_owned(),
        }
    }
}

/// The first fault at or after the `k`th character, where the characters before it have the
/// value `acc`.
pub open spec fn fault_from(d: Seq<char>, base: nat, max: nat, k: int, acc: nat) -> Option<
    NumberFault,
>
    decreases d.len() - k,
{
    if k >= d.len() {
        None
    } else {
        match digit_value(d[k], base) {
            None => Some(NumberFault::Digit),
            Some(v) => if acc * base + v > max {
                Some(NumberFault::Large)
            } else {
                fault_from(d, base, max, k + 1, acc * base + v)
            },
        }
    }
}

/// Why `s` is no unsigned number of at most `max` in `base`, if it is none.
pub open spec fn number_fault(s: Seq<char>, base: nat, max: nat) -> Option<NumberFault> {
    if s.len() == 0 {
        Some(NumberFault::Empty)
    } else if s.len() == 1 && s[0] == '+' {
        Some(NumberFault::Digit)
    } else if s[0] == '+' {
        fault_from(s.skip(1), base, max, 0, 0)
    } else {
        fault_from(s, base, max, 0, 0)
    }
}

proof fn lemma_fault_from(d: Seq<char>, base: nat, max: nat, k: int, acc: nat)
    requires
        0 <= k <= d.len(),
        base >= 1,
        acc <= max,
        digits_value(d.take(k), base) == Some(acc),
    ensures
        fault_from(d, base, max, k, acc) is None <==> (digits_value(d, base) matches Some(v) && v
            <= max),
    decreases d.len() - k,
{
    if k == d.len() {
        assert(d.take(k) =~= d);
    } else {
        assert(d.take(k + 1).drop_last() =~= d.take(k));
        crate::text::lemma_prefix_value(d, k + 1, base);
        match digit_value(d[k], base) {
            None => {},
            Some(v) => {
                if acc * base + v <= max {
                    lemma_fault_from(d, base, max, k + 1, acc * base + v);
                }
            },
        }
    }
}

/// A text has a fault exactly where it is no number.
pub proof fn law_fault_iff_no_number(s: Seq<char>, base: nat, max: nat)
    requires
        base >= 1,
    ensures
        number_fault(s, base, max) is None <==> numeral_max(s, base, max) is Some,
{
    if s.len() > 0 {
        let d = if s[0] == '+' {
            s.skip(1)
        } else {
            s
        };
        assert(d.take(0) =~= Seq::<char>::empty());
        lemma_fault_from(d, base, max, 0, 0);
    }
}

fn find_fault(s: &[char], base: u64, max: u64) -> (r: NumberFault)
    requires
        2 <= base <= 16,
        number_fault(s@, base as nat, max as nat) is Some,
    ensures
        number_fault(s@, base as nat, max as nat) == Some(r),
{
    if s.len() == 0 {
        return NumberFault::Empty;
    }
    if s.len() == 1 && s[0] == '+' {
        return NumberFault::Digit;
    }
    let start: usize = if s[0] == '+' {
        1
    } else {
        0
    };
    let ghost d = s@.skip(start as int);
    assert(start == 0 ==> d =~= s@);
    let mut acc: u64 = 0;
    let mut i: usize = start;
    while i < s.len()
        invariant
            2 <= base <= 16,
            start <= i <= s@.len(),
            d == s@.skip(start as int),
            acc <= max,
            number_fault(s@, base as nat, max as nat) is Some,
            number_fault(s@, base as nat, max as nat) == fault_from(
                d,
                base as nat,
                max as nat,
                i - start,
                acc as nat,
            ),
        decreases s@.len() - i,
    {
        assert(d[i - start] == s@[i as int]);
        match crate::text::read_digit(s[i], base) {
            None => {
                return NumberFault::Digit;
            },
            Some(v) => {
                assert(acc as u128 * base as u128 <= u64::MAX as u128 * 16) by (nonlinear_arith)
                    requires
                        base <= 16,
                        acc <= u64::MAX,
                ;
                let wide: u128 = acc as u128 * base as u128 + v as u128;
                if wide > max as u128 {
                    return NumberFault::Large;
                }
                acc = wide as u64;
            },
        }
        i = i + 1;
    }
    NumberFault::Digit
}

/// Reads an unsigned number of at most `max`, or says why there is none.
pub fn read_number(s: &[char], base: u64, max: u64) -> (r: Result<u64, NumberFault>)
    requires
        2 <= base <= 16,
    ensures
        match r {
            Ok(v) => numeral_max(s@, base as nat, max as nat) == Some(v as nat),
            Err(f) => number_fault(s@, base as nat, max as nat) == Some(f),
        },
{
    proof {
        law_fault_iff_no_number(s@, base as nat, max as nat);
    }
    match parse_number(s, base, max) {
        Some(v) => Ok(v),
        None => Err(find_fault(s, base, max)),
    }
}

/// The value of a hexadecimal number of 64 bits; zero where the text is none.
pub open spec fn hex_or_zero(s: Seq<char>) -> u64 {
    match numeral_max(s, 16, u64::MAX as nat) {
        Some(v) => v as u64,
        None => 0,
    }
}

/// Reads a hexadecimal number of 64 bits; zero where the text is none.
pub fn read_hex_or_zero(s: &[char]) -> (v: u64)
    ensures
        v == hex_or_zero(s@),
{
    match parse_number(s, 16, u64::MAX) {
        Some(v) => v,
        None => 0,
    }
}

/// The value of a signed decimal number of 32 bits.
pub open spec fn signed_numeral(s: Seq<char>) -> Option<i32> {
    if s.len() > 0 && s[0] == '-' {
        let d = s.skip(1);
        if d.len() == 0 {
            None
        } else {
            match digits_value(d, 10) {
                Some(v) => if v <= 0x8000_0000 {
                    Some((0 - v) as i32)
                } else {
                    None
                },
                None => None,
            }
        }
    } else {
        match numeral_max(s, 10, i32::MAX as nat) {
            Some(v) => Some(v as i32),
            None => None,
        }
    }
}

/// Reads a signed decimal number of 32 bits.
pub fn read_i32(s: &[char]) -> (r: Option<i32>)
    ensures
        r == signed_numeral(s@),
{
    if s.len() > 0 && s[0] == '-' {
        let rest = crate::text::copy_chars(s, 1, s.len());
        assert(rest@ =~= s@.skip(1));
        if rest.len() == 0 || rest[0] == '+' {
            proof {
                if rest@.len() > 0 {
                    crate::text::lemma_prefix_value(rest@, 1, 10);
                    let first = rest@.take(1);
                    assert(first.last() == '+');
                    assert(digits_value(first, 10) is None);
                }
            }
            return None;
        }
        match parse_number(rest.as_slice(), 10, 0x8000_0000) {
            Some(v) => Some((0 - v as i64) as i32),
            None => None,
        }
    } else {
        match parse_number(s, 10, 0x7fff_ffff) {
            Some(v) => Some(v as i32),
            None => None,
        }
    }
}

} // verus!
