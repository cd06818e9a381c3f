//! Logical (bitmask) immediates of AND, ORR, EOR and ANDS.
use vstd::prelude::*;

verus! {

/// The element sizes of a bitmask immediate.
pub open spec fn is_elem_size(e: u32) -> bool {
    e == 2 || e == 4 || e == 8 || e == 16 || e == 32 || e == 64
}

/// A mask of the low `e` bits.
pub open spec fn low_mask(e: u32) -> u64 {
    if e == 64 {
        0xFFFF_FFFF_FFFF_FFFFu64
    } else {
        ((1u64 << e) - 1) as u64
    }
}

/// An element of `e` bits that holds a run of `len` ones, rotated right by `rot`.
pub open spec fn run_elem(e: u32, len: u32, rot: u32) -> u64 {
    let ones = ((1u64 << len) - 1) as u64;
    if rot == 0 {
        ones
    } else {
        ((ones << ((e - rot) as u32)) | (ones >> rot)) & low_mask(e)
    }
}

/// Whether the low `width` bits of `imm` repeat its lowest element of `e` bits.
pub open spec fn tiles(imm: u64, width: u32, e: u32) -> bool {
    forall|k: int|
        #![trigger imm >> ((k * e) as u32)]
        0 <= k < width / e ==> (imm >> ((k * e) as u32)) & low_mask(e) == imm & low_mask(e)
}

/// Whether `imm`, in a register of `width` bits, is a repetition of `e`-bit elements that each
/// hold a run of `len` ones rotated right by `rot`.
pub open spec fn is_run(imm: u64, width: u32, e: u32, len: u32, rot: u32) -> bool {
    &&& is_elem_size(e)
    &&& e <= width
    &&& 1 <= len < e
    &&& rot < e
    &&& tiles(imm, width, e)
    &&& imm & low_mask(e) == run_elem(e, len, rot)
}

/// N:immr:imms of such an immediate.
pub open spec fn run_field(e: u32, len: u32, rot: u32) -> u32 {
    let n = if e == 64 {
        0x1000int
    } else {
        0
    };
    let size = if e == 64 {
        0int
    } else {
        64 - 2 * e
    };
    (n + rot * 64 + size + (len - 1)) as u32
}

/// Whether `(e, len, rot)` comes before `(e2, len2, rot2)` in the order of the search.
pub open spec fn before(e: u32, len: u32, rot: u32, e2: u32, len2: u32, rot2: u32) -> bool {
    e < e2 || (e == e2 && (len < len2 || (len == len2 && rot < rot2)))
}

/// Whether `enc` is the encoding of `imm` with the first element size, run and rotation that
/// give it.
pub open spec fn first_run(imm: u64, width: u32, e: u32, len: u32, rot: u32) -> bool {
    &&& is_run(imm, width, e, len, rot)
    &&& forall|e1: u32, len1: u32, rot1: u32|
        before(e1, len1, rot1, e, len, rot) ==> !is_run(imm, width, e1, len1, rot1)
}

/// `imm` cut to the register's width.
pub open spec fn cut(imm: u64, width: u32) -> u64 {
    if width == 64 {
        imm
    } else {
        (imm % 0x1_0000_0000) as u64
    }
}

/// What a value encodes to, if it is a bitmask immediate at all: neither no bit nor every bit
/// set, and a repetition of rotated runs.
pub open spec fn encodes(imm: u64, width: u32, r: Option<u32>) -> bool {
    let v = cut(imm, width);
    if v == 0 || v == low_mask(width) {
        r is None
    } else {
        match r {
            Some(enc) => exists|e: u32, len: u32, rot: u32| #[trigger]
                first_run(v, width, e, len, rot) && enc == run_field(e, len, rot),
            None => forall|e: u32, len: u32, rot: u32| !is_run(v, width, e, len, rot),
        }
    }
}

/// What is computed in machine words is what the masks mean.
proof fn lemma_masks(e: u32, len: u32)
    requires
        is_elem_size(e),
        len < e,
    ensures
        e < 64 ==> (1u64 << e) >= 1,
        (1u64 << len) >= 1,
{
    if e < 64 {
        assert((1u64 << e) >= 1) by (bit_vector)
            requires
                e < 64,
        ;
    }
    assert((1u64 << len) >= 1) by (bit_vector)
        requires
            len < 64,
    ;
}

fn mask_of(e: u32) -> (m: u64)
    requires
        is_elem_size(e),
    ensures
        m == low_mask(e),
{
    if e == 64 {
        0xFFFF_FFFF_FFFF_FFFF
    } else {
        proof {
            lemma_masks(e, 0);
        }
        (1u64 << e) - 1
    }
}

/// Whether the low `width` bits of `imm` repeat its lowest element.
fn check_tiles(imm: u64, width: u32, e: u32) -> (r: bool)
    requires
        is_elem_size(e),
        width == 32 || width == 64,
        e <= width,
    ensures
        r == tiles(imm, width, e),
{
    let m: u64 = mask_of(e);
    let elem: u64 = imm & m;
    let n: u32 = width / e;
    let mut k: u32 = 0;
    assert(n * e == width);
    while k < n
        invariant
            is_elem_size(e),
            width == 32 || width == 64,
            m == low_mask(e),
            elem == imm & m,
            n == width / e,
            n * e == width,
            k <= n,
            forall|j: int|
                #![trigger imm >> ((j * e) as u32)]
                0 <= j < k ==> (imm >> ((j * e) as u32)) & m == elem,
        decreases n - k,
    {
        assert(k * e < n * e) by (nonlinear_arith)
            requires
                k < n,
                e >= 2,
        ;
        assert(k * e >= 0) by (nonlinear_arith);
        let shift: u32 = k * e;
        if (imm >> shift) & m != elem {
            assert((imm >> ((k as int * e) as u32)) & m != elem);
            return false;
        }
        k = k + 1;
    }
    true
}

/// Searches the runs of one element size.
fn search_size(imm: u64, width: u32, e: u32) -> (r: Option<(u32, u32)>)
    requires
        is_elem_size(e),
        width == 32 || width == 64,
        e <= width,
    ensures
        match r {
            Some((len, rot)) => is_run(imm, width, e, len, rot) && forall|len1: u32, rot1: u32|
                len1 < len || (len1 == len && rot1 < rot) ==> !is_run(imm, width, e, len1, rot1),
            None => forall|len1: u32, rot1: u32| !is_run(imm, width, e, len1, rot1),
        },
{
    if !check_tiles(imm, width, e) {
        return None;
    }
    let m: u64 = mask_of(e);
    let elem: u64 = imm & m;
    let mut len: u32 = 1;
    while len < e
        invariant
            is_elem_size(e),
            width == 32 || width == 64,
            e <= width,
            m == low_mask(e),
            elem == imm & m,
            tiles(imm, width, e),
            1 <= len <= e,
            forall|len1: u32, rot1: u32| len1 < len ==> !is_run(imm, width, e, len1, rot1),
        decreases e - len,
    {
        proof {
            lemma_masks(e, len);
        }
        let ones: u64 = (1u64 << len) - 1;
        let mut rot: u32 = 0;
        while rot < e
            invariant
                is_elem_size(e),
                width == 32 || width == 64,
                e <= width,
                m == low_mask(e),
                elem == imm & m,
                tiles(imm, width, e),
                1 <= len < e,
                ones == (1u64 << len) - 1,
                rot <= e,
                forall|len1: u32, rot1: u32|
                    len1 < len || (len1 == len && rot1 < rot) ==> !is_run(
                        imm,
                        width,
                        e,
                        len1,
                        rot1,
                    ),
            decreases e - rot,
        {
            let candidate: u64 = if rot == 0 {
                ones
            } else {
                ((ones << (e - rot)) | (ones >> rot)) & m
            };
            if candidate == elem {
                return Some((len, rot));
            }
            rot = rot + 1;
        }
        len = len + 1;
    }
    None
}

/// Encodes a logical immediate as N:immr:imms in the low 13 bits, if it is one.
pub fn try_encode_logical_imm(imm: u64, width: u32) -> (r: Option<u32>)
    requires
        width == 32 || width == 64,
    ensures
        encodes(imm, width, r),
        r matches Some(enc) ==> enc < 0x2000,
{
    let v: u64 = if width == 64 {
        imm
    } else {
        imm % 0x1_0000_0000
    };
    if v == 0 || v == mask_of(width) {
        return None;
    }
    let mut e: u32 = 2;
    while e <= width
        invariant
            width == 32 || width == 64,
            v == cut(imm, width),
            v != 0,
            v != low_mask(width),
            is_elem_size(e) || e == 128,
            forall|e1: u32, len1: u32, rot1: u32| e1 < e ==> !is_run(v, width, e1, len1, rot1),
        decreases 128 - e,
    {
        match search_size(v, width, e) {
            Some((len, rot)) => {
                let n: u32 = if e == 64 {
                    0x1000
                } else {
                    0
                };
                let size: u32 = if e == 64 {
                    0
                } else {
                    64 - 2 * e
                };
                assert(first_run(v, width, e, len, rot));
                return Some(n + rot * 64 + size + (len - 1));
            },
            None => {},
        }
        e = e * 2;
    }
    None
}

/// Bit `i` of an element with a run of `len` ones rotated right by `rot` is set exactly where
/// `i + rot`, modulo the element size, is below `len`.
pub proof fn law_run_bits(e: u32, len: u32, rot: u32, i: u32)
    requires
        is_elem_size(e),
        1 <= len < e,
        rot < e,
        i < e,
    ensures
        ((run_elem(e, len, rot) >> i) & 1 == 1) <==> (i + rot) % (e as int) < len,
{
    lemma_masks(e, len);
    let ones = ((1u64 << len) - 1) as u64;
    let back = (e - rot) as u32;
    let m = low_mask(e);
    let elem = if rot == 0 {
        ones
    } else {
        ((ones << back) | (ones >> rot)) & m
    };
    let sum = (i + rot) as u32;
    let r = if sum < e {
        sum
    } else {
        (sum - e) as u32
    };
    assert(r == (i + rot) % (e as int));
    assert(((elem >> i) & 1 == 1) <==> r < len) by (bit_vector)
        requires
            e == 2 || e == 4 || e == 8 || e == 16 || e == 32 || e == 64,
            1 <= len < e,
            rot < e,
            i < e,
            ones == (1u64 << len) - 1,
            back == e - rot,
            m == (if e == 64 {
                0xFFFF_FFFF_FFFF_FFFFu64
            } else {
                (((1u64 << e) - 1) as u64)
            }),
            elem == (if rot == 0 {
                ones
            } else {
                ((ones << back) | (ones >> rot)) & m
            }),
            sum == i + rot,
            r == (if sum < e {
                sum
            } else {
                ((sum - e) as u32)
            }),
    ;
}

} // verus!
