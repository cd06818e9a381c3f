//! Which cache lines to maintain after code was written.
use vstd::arithmetic::power2::pow2;
use vstd::prelude::*;

verus! {

/// Bytes of a line, where a field of the cache type register gives it in words as a power of
/// two.
pub open spec fn line_bytes(field: u64) -> nat {
    4 * pow2(field as nat)
}

/// The larger of the data and instruction lines, by the cache type register.
pub open spec fn largest_line(ctr: u64) -> nat {
    let d = line_bytes((ctr / 0x1_0000) % 16);
    let i = line_bytes(ctr % 16);
    if d >= i {
        d
    } else {
        i
    }
}

/// `4 << field`.
fn shifted(field: u64) -> (r: u64)
    requires
        field < 16,
    ensures
        r == line_bytes(field),
        4 <= r <= 0x2_0000,
{
    let mut r: u64 = 4;
    let mut i: u64 = 0;
    proof {
        vstd::arithmetic::power2::lemma2_to64();
    }
    while i < field
        invariant
            i <= field < 16,
            r == 4 * pow2(i as nat),
        decreases field - i,
    {
        proof {
            vstd::arithmetic::power2::lemma2_to64();
            vstd::arithmetic::power2::lemma_pow2_unfold((i + 1) as nat);
            if i < 15 {
                vstd::arithmetic::power2::lemma_pow2_strictly_increases(i as nat, 15);
            }
        }
        r = r * 2;
        i = i + 1;
    }
    proof {
        vstd::arithmetic::power2::lemma2_to64();
        if field < 15 {
            vstd::arithmetic::power2::lemma_pow2_strictly_increases(field as nat, 15);
        }
        vstd::arithmetic::power2::lemma_pow2_pos(field as nat);
    }
    r
}

/// Bytes of a cache line, by the cache type register; 64 where there is none.
pub fn cache_line_size(ctr: Option<u64>) -> (n: usize)
    ensures
        n == match ctr {
            Some(c) => largest_line(c),
            None => 64,
        },
{
    match ctr {
        Some(c) => {
            let d: u64 = shifted((c / 0x1_0000) % 16);
            let i: u64 = shifted(c % 16);
            if d >= i {
                d as usize
            } else {
                i as usize
            }
        },
        None => 64,
    }
}

/// The addresses of the lines to maintain for some code: every line that holds a byte of it.
pub open spec fn line_starts(from: int, end: int, line: int) -> Seq<int>
    decreases
        if from < end {
            end - from
        } else {
            0
        },
{
    if from >= end || line <= 0 {
        Seq::empty()
    } else {
        seq![from] + line_starts(from + line, end, line)
    }
}

/// Where the first line starts.
pub open spec fn line_of(start: int, line: int) -> int {
    start - start % line
}

/// The addresses of the lines to maintain for code at `start`.
pub fn clear_icache(start: u64, len: u64, line: u64) -> (out: Vec<u64>)
    requires
        line > 0,
        start + len + line <= u64::MAX,
    ensures
        out@.map_values(|a: u64| a as int) == if len == 0 {
            Seq::<int>::empty()
        } else {
            line_starts(line_of(start as int, line as int), start + len, line as int)
        },
{
    let mut out: Vec<u64> = Vec::new();
    let ghost f = |a: u64| a as int;
    if len == 0 {
        assert(out@.map_values(f) =~= Seq::<int>::empty());
        return out;
    }
    let end: u64 = start + len;
    assert(0 <= start % line <= start) by (nonlinear_arith)
        requires
            line > 0,
    ;
    let mut at: u64 = start - start % line;
    let ghost all = line_starts(at as int, end as int, line as int);
    assert(out@.map_values(f) + all =~= all);
    while at < end
        invariant
            line > 0,
            end + line <= u64::MAX,
            at <= end + line,
            f == (|a: u64| a as int),
            out@.map_values(f) + line_starts(at as int, end as int, line as int) == all,
        decreases end + line - at,
    {
        let ghost before = out@;
        let ghost rest = line_starts(at + line, end as int, line as int);
        out.push(at);
        assert(out@.map_values(f) =~= before.map_values(f).push(at as int));
        assert(before.map_values(f).push(at as int) + rest =~= before.map_values(f) + (seq![
            at as int,
        ] + rest));
        at = at + line;
    }
    assert(out@.map_values(f) =~= all);
    out
}

/// The lines to maintain for a range of code, by the cache type register: data lines to clean
/// and instruction lines to invalidate, each unless the register says that it need not be.
#[derive(Debug)]
pub struct CacheWork {
    pub data: Option<Vec<u64>>,
    pub code: Option<Vec<u64>>,
}

/// Whether `lines` are those of `line` bytes that hold a byte from `start` to `end`; none are
/// given where they are not needed.
pub open spec fn lines_over(
    lines: Option<Vec<u64>>,
    needed: bool,
    start: u64,
    end: u64,
    line: nat,
) -> bool {
    match lines {
        Some(v) => needed && v@.map_values(|a: u64| a as int) == line_starts(
            line_of(start as int, line as int),
            end as int,
            line as int,
        ),
        None => !needed,
    }
}

/// The maintenance that makes code from `start` to `end` visible to the processor; `None` where
/// there is no such code.
pub fn clear_cache(start: u64, end: u64, ctr: u64) -> (r: Option<CacheWork>)
    requires
        end + largest_line(ctr) <= u64::MAX,
    ensures
        match r {
            Some(w) => {
                &&& 0 < start < end
                &&& lines_over(
                    w.data,
                    (ctr / 0x1000_0000) % 2 == 0,
                    start,
                    end,
                    line_bytes((ctr / 0x1_0000) % 16),
                )
                &&& lines_over(
                    w.code,
                    (ctr / 0x2000_0000) % 2 == 0,
                    start,
                    end,
                    line_bytes(ctr % 16),
                )
            },
            None => start == 0 || end <= start,
        },
{
    if start == 0 || end <= start {
        return None;
    }
    let d: u64 = shifted((ctr / 0x1_0000) % 16);
    let i: u64 = shifted(ctr % 16);
    let data = if (ctr / 0x1000_0000) % 2 == 0 {
        Some(clear_icache(start, end - start, d))
    } else {
        None
    };
    let code = if (ctr / 0x2000_0000) % 2 == 0 {
        Some(clear_icache(start, end - start, i))
    } else {
        None
    };
    Some(CacheWork { data, code })
}

/// Every byte of some code lies in a line that is maintained.
pub proof fn law_every_byte_is_covered(from: int, end: int, line: int, at: int)
    requires
        line > 0,
        from <= at < end,
    ensures
        exists|i: int|
            0 <= i < line_starts(from, end, line).len() && (#[trigger] line_starts(
                from,
                end,
                line,
            )[i]) <= at < line_starts(from, end, line)[i] + line,
    decreases end - from,
{
    let all = line_starts(from, end, line);
    let rest = line_starts(from + line, end, line);
    if at < from + line {
        assert(all[0] == from);
    } else {
        law_every_byte_is_covered(from + line, end, line, at);
        let i = choose|i: int| 0 <= i < rest.len() && #[trigger] rest[i] <= at < rest[i] + line;
        assert(all[i + 1] == rest[i]);
    }
}

} // verus!
