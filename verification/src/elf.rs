//! Symbol lookup in 64-bit ELF images.
//!
//! A walk over an image can meet a header or a table that lies outside of it, or an address
//! that does not fit 64 bits. Such a walk has no answer; it is called a fault.
use crate::bytes::{get_u16, get_u32, get_u64, half_at, quad_at, word_at};
use crate::text::{chars_of, same_chars};
use vstd::prelude::*;
use vstd::string::*;

verus! {

/// The text that `String::from_utf8_lossy` gives for some bytes.
pub uninterp spec fn utf8_lossy(bytes: Seq<u8>) -> Seq<char>;

/// `String::from_utf8_lossy`: well-formed UTF-8 as it stands, and replacement characters for
/// what is not. Which characters replace ill-formed bytes is left to the name.
#[verifier::external_body]
pub(crate) fn lossy(bytes: &[u8]) -> (s: String)
    ensures
        s@ == utf8_lossy(bytes@),
        vstd::utf8::valid_utf8(bytes@) ==> vstd::utf8::encode_utf8(s@) == bytes@,
{
    String::from_utf8_lossy(bytes).into_owned()
}

/// What a lookup comes to.
#[derive(Debug, Clone, Copy, PartialEq, Eq, Structural)]
pub enum Lookup {
    /// The image has no answer.
    Fault,
    Absent,
    At(u64),
}

/// Whether `n` bytes at `off` lie in the image.
pub open spec fn inside(image: Seq<u8>, off: int, n: int) -> bool {
    0 <= off && off + n <= image.len()
}

pub(crate) fn in_range(image: &[u8], off: u128, n: u128) -> (r: bool)
    requires
        off <= 0x1_0000_0000_0000_0000_0000_0000,
        n <= 64,
    ensures
        r == inside(image@, off as int, n as int),
        r ==> off + n <= usize::MAX,
{
    off + n <= image.len() as u128
}

/// Where the program headers lie: offset, size of each, how many.
#[derive(Debug, Clone, Copy, PartialEq, Eq, Structural)]
pub struct Headers {
    pub off: u64,
    pub size: u16,
    pub count: u16,
}

impl Headers {
    /// The offset of a header.
    pub open spec fn at(self, i: int) -> int {
        self.off + i * self.size
    }

    pub(crate) fn offset(&self, i: u16) -> (r: u128)
        ensures
            r == self.at(i as int),
            r < 0x1_0000_0001_0000_0000,
    {
        assert(0 <= i * self.size <= 0xFFFF * 0xFFFF) by (nonlinear_arith)
            requires
                0 <= i <= 0xFFFF,
                0 <= self.size <= 0xFFFF,
        ;
        self.off as u128 + i as u128 * self.size as u128
    }
}

/// The headers that the ELF header names.
pub open spec fn headers(image: Seq<u8>) -> Headers {
    Headers { off: quad_at(image, 32), size: half_at(image, 54), count: half_at(image, 56) }
}

pub(crate) fn read_headers(image: &[u8]) -> (h: Headers)
    requires
        image@.len() >= 58,
    ensures
        h == headers(image@),
{
    Headers { off: get_u64(image, 32), size: get_u16(image, 54), count: get_u16(image, 56) }
}

/// Whether the image starts with the ELF magic.
pub open spec fn has_magic(image: Seq<u8>) -> bool {
    image[0] == 0x7F && image[1] == 0x45 && image[2] == 0x4C && image[3] == 0x46
}

/// Whether the image starts as a 64-bit ELF file does.
pub open spec fn is_elf64(image: Seq<u8>) -> bool {
    image.len() >= 64 && has_magic(image) && image[4] == 2
}

fn check_elf64(image: &[u8]) -> (r: bool)
    ensures
        r == is_elf64(image@),
{
    image.len() >= 64 && image[0] == 0x7F && image[1] == 0x45 && image[2] == 0x4C && image[3]
        == 0x46 && image[4] == 2
}

/// The file offset of `vaddr` by the loadable segments from the `i`th on. A header that is cut
/// off ends the search where `lenient`, and is a fault where not.
pub open spec fn segment_offset(
    image: Seq<u8>,
    h: Headers,
    vaddr: u64,
    lenient: bool,
    i: int,
) -> Lookup
    decreases h.count - i,
{
    if i >= h.count {
        Lookup::Absent
    } else if lenient && !inside(image, h.at(i), 56) {
        Lookup::Absent
    } else if !inside(image, h.at(i), 4) {
        Lookup::Fault
    } else if word_at(image, h.at(i)) != 1 {
        segment_offset(image, h, vaddr, lenient, i + 1)
    } else if !inside(image, h.at(i), 40) {
        Lookup::Fault
    } else {
        let offset = quad_at(image, h.at(i) + 8);
        let start = quad_at(image, h.at(i) + 16);
        let size = quad_at(image, h.at(i) + 32);
        if vaddr < start {
            segment_offset(image, h, vaddr, lenient, i + 1)
        } else if start + size > u64::MAX {
            Lookup::Fault
        } else if vaddr >= start + size {
            segment_offset(image, h, vaddr, lenient, i + 1)
        } else if offset + (vaddr - start) > u64::MAX {
            Lookup::Fault
        } else {
            Lookup::At((offset + (vaddr - start)) as u64)
        }
    }
}

pub(crate) fn find_segment_offset(image: &[u8], h: Headers, vaddr: u64, lenient: bool) -> (r: Lookup)
    ensures
        r == segment_offset(image@, h, vaddr, lenient, 0),
{
    let mut i: u16 = 0;
    while i < h.count
        invariant
            i <= h.count,
            segment_offset(image@, h, vaddr, lenient, 0) == segment_offset(
                image@,
                h,
                vaddr,
                lenient,
                i as int,
            ),
        decreases h.count - i,
    {
        let off: u128 = h.offset(i);
        if lenient && !in_range(image, off, 56) {
            return Lookup::Absent;
        }
        if !in_range(image, off, 4) {
            return Lookup::Fault;
        }
        let at: usize = off as usize;
        if get_u32(image, at) == 1 {
            if !in_range(image, off, 40) {
                return Lookup::Fault;
            }
            let offset: u64 = get_u64(image, at + 8);
            let start: u64 = get_u64(image, at + 16);
            let size: u64 = get_u64(image, at + 32);
            if vaddr >= start {
                if size > u64::MAX - start {
                    return Lookup::Fault;
                }
                if vaddr < start + size {
                    if vaddr - start > u64::MAX - offset {
                        return Lookup::Fault;
                    }
                    return Lookup::At(offset + (vaddr - start));
                }
            }
        }
        i = i + 1;
    }
    Lookup::Absent
}

/// The address of the dynamic section: that of the last such header, every header being read.
pub open spec fn last_dynamic(image: Seq<u8>, h: Headers, i: int, found: Lookup) -> Lookup
    decreases h.count - i,
{
    if i >= h.count {
        found
    } else if !inside(image, h.at(i), 4) {
        Lookup::Fault
    } else if word_at(image, h.at(i)) == 2 {
        if !inside(image, h.at(i), 24) {
            Lookup::Fault
        } else {
            last_dynamic(image, h, i + 1, Lookup::At(quad_at(image, h.at(i) + 16)))
        }
    } else {
        last_dynamic(image, h, i + 1, found)
    }
}

fn find_last_dynamic(image: &[u8], h: Headers) -> (r: Lookup)
    ensures
        r == last_dynamic(image@, h, 0, Lookup::Absent),
{
    let mut found = Lookup::Absent;
    let mut i: u16 = 0;
    while i < h.count
        invariant
            i <= h.count,
            last_dynamic(image@, h, 0, Lookup::Absent) == last_dynamic(image@, h, i as int, found),
        decreases h.count - i,
    {
        let off: u128 = h.offset(i);
        if !in_range(image, off, 4) {
            return Lookup::Fault;
        }
        let at: usize = off as usize;
        if get_u32(image, at) == 2 {
            if !in_range(image, off, 24) {
                return Lookup::Fault;
            }
            found = Lookup::At(get_u64(image, at + 16));
        }
        i = i + 1;
    }
    found
}

/// What a dynamic section says; of several entries with one tag the last counts.
#[derive(Debug, Clone, Copy, PartialEq, Eq, Structural)]
pub struct Dynamic {
    pub symtab: Option<u64>,
    pub strtab: Option<u64>,
    pub jmprel: Option<u64>,
    pub syment: u64,
    pub strsz: u64,
    pub pltrelsz: u64,
    pub relaent: u64,
}

/// Nothing read yet; entries are 24 bytes unless something else is said.
pub open spec fn no_dynamic() -> Dynamic {
    Dynamic {
        symtab: None,
        strtab: None,
        jmprel: None,
        syment: 24,
        strsz: 0,
        pltrelsz: 0,
        relaent: 24,
    }
}

/// `d` after an entry.
pub open spec fn with_entry(d: Dynamic, tag: u64, val: u64) -> Dynamic {
    if tag == 23 {
        Dynamic { jmprel: Some(val), ..d }
    } else if tag == 2 {
        Dynamic { pltrelsz: val, ..d }
    } else if tag == 6 {
        Dynamic { symtab: Some(val), ..d }
    } else if tag == 5 {
        Dynamic { strtab: Some(val), ..d }
    } else if tag == 10 {
        Dynamic { strsz: val, ..d }
    } else if tag == 9 {
        Dynamic { relaent: val, ..d }
    } else if tag == 11 {
        Dynamic { syment: val, ..d }
    } else {
        d
    }
}

/// The entries from `pos` on, up to a null entry, the offset `end` or the end of the image.
pub open spec fn dynamic_from(image: Seq<u8>, pos: int, end: int, d: Dynamic) -> Dynamic
    decreases image.len() - pos,
{
    if pos < 0 || pos + 16 > end || pos + 16 > image.len() || quad_at(image, pos) == 0 {
        d
    } else {
        dynamic_from(
            image,
            pos + 16,
            end,
            with_entry(d, quad_at(image, pos), quad_at(image, pos + 8)),
        )
    }
}

pub(crate) fn read_dynamic(image: &[u8], start: u64, end: u128) -> (d: Dynamic)
    ensures
        d == dynamic_from(image@, start as int, end as int, no_dynamic()),
{
    let mut d = Dynamic {
        symtab: None,
        strtab: None,
        jmprel: None,
        syment: 24,
        strsz: 0,
        pltrelsz: 0,
        relaent: 24,
    };
    let len: usize = image.len();
    let mut pos: u128 = start as u128;
    while pos + 16 <= end && pos + 16 <= len as u128
        invariant
            len == image@.len(),
            pos <= u64::MAX + 16,
            dynamic_from(image@, start as int, end as int, no_dynamic()) == dynamic_from(
                image@,
                pos as int,
                end as int,
                d,
            ),
        decreases len + 16 - pos,
    {
        let at: usize = pos as usize;
        let tag: u64 = get_u64(image, at);
        let val: u64 = get_u64(image, at + 8);
        if tag == 0 {
            return d;
        } else if tag == 23 {
            d = Dynamic { jmprel: Some(val), ..d };
        } else if tag == 2 {
            d = Dynamic { pltrelsz: val, ..d };
        } else if tag == 6 {
            d = Dynamic { symtab: Some(val), ..d };
        } else if tag == 5 {
            d = Dynamic { strtab: Some(val), ..d };
        } else if tag == 10 {
            d = Dynamic { strsz: val, ..d };
        } else if tag == 9 {
            d = Dynamic { relaent: val, ..d };
        } else if tag == 11 {
            d = Dynamic { syment: val, ..d };
        }
        pos = pos + 16;
    }
    d
}

/// The first place at or after `from` with a zero byte, below `to`; `to` where there is none.
pub open spec fn nul_from(image: Seq<u8>, from: int, to: int) -> int
    decreases to - from,
{
    if from >= to || image[from] == 0 {
        from
    } else {
        nul_from(image, from + 1, to)
    }
}

pub(crate) fn find_nul(image: &[u8], from: usize, to: usize) -> (r: usize)
    requires
        from <= to <= image@.len(),
    ensures
        r == nul_from(image@, from as int, to as int),
        from <= r <= to,
{
    let mut i: usize = from;
    while i < to && image[i] != 0
        invariant
            from <= i <= to <= image@.len(),
            nul_from(image@, from as int, to as int) == nul_from(image@, i as int, to as int),
        decreases to - i,
    {
        i = i + 1;
    }
    i
}

/// The bytes of the string at `start`: up to its zero byte; none where the image has no string
/// there or no zero byte ends it.
pub open spec fn cstr_bytes(image: Seq<u8>, start: int) -> Seq<u8> {
    let end = nul_from(image, start, image.len() as int);
    if start >= image.len() || end >= image.len() {
        Seq::empty()
    } else {
        image.subrange(start, end)
    }
}

/// The string at `start`.
pub fn read_cstr(image: &[u8], start: u64) -> (s: String)
    ensures
        s@ == utf8_lossy(cstr_bytes(image@, start as int)),
{
    let len: usize = image.len();
    if start >= len as u64 {
        return lossy(empty_slice(image));
    }
    let from: usize = start as usize;
    let end: usize = find_nul(image, from, len);
    if end >= len {
        return lossy(empty_slice(image));
    }
    lossy(vstd::slice::slice_subrange(image, from, end))
}

/// No bytes.
fn empty_slice(image: &[u8]) -> (e: &[u8])
    ensures
        e@ == Seq::<u8>::empty(),
{
    let e = vstd::slice::slice_subrange(image, 0, 0);
    assert(e@ =~= Seq::<u8>::empty());
    e
}

/// Whether the string at `start` is the symbol.
fn names_symbol(image: &[u8], start: u64, symbol: &Vec<char>) -> (r: bool)
    ensures
        r == (utf8_lossy(cstr_bytes(image@, start as int)) == symbol@),
{
    let name = read_cstr(image, start);
    let cs = chars_of(name.as_str());
    same_chars(cs.as_slice(), symbol.as_slice())
}

/// Which symbols count, besides having a value.
#[derive(Debug, Clone, Copy, PartialEq, Eq, Structural)]
pub enum SymbolRule {
    /// Those that belong to a section.
    Defined,
    /// Those that are not local.
    Bound,
    Any,
}

/// Whether the symbol entry at `sym` counts.
pub open spec fn counts(image: Seq<u8>, sym: int, rule: SymbolRule) -> bool {
    &&& quad_at(image, sym + 8) != 0
    &&& match rule {
        SymbolRule::Defined => half_at(image, sym + 6) != 0,
        SymbolRule::Bound => image[sym + 4] / 16 != 0,
        SymbolRule::Any => true,
    }
}

/// The value of the first symbol with a name, from the `i`th entry on and below the `limit`th,
/// up to the end of the image.
pub open spec fn symbol_from(
    image: Seq<u8>,
    symtab: int,
    strtab: int,
    syment: int,
    symbol: Seq<char>,
    rule: SymbolRule,
    limit: int,
    i: int,
) -> Lookup
    decreases limit - i,
{
    let sym = symtab + i * syment;
    if i >= limit {
        Lookup::Absent
    } else if sym > u64::MAX {
        Lookup::Fault
    } else if sym + 24 > image.len() {
        Lookup::Absent
    } else if !counts(image, sym, rule) {
        symbol_from(image, symtab, strtab, syment, symbol, rule, limit, i + 1)
    } else if strtab + word_at(image, sym) > u64::MAX {
        Lookup::Fault
    } else if utf8_lossy(cstr_bytes(image, strtab + word_at(image, sym))) == symbol {
        Lookup::At(quad_at(image, sym + 8))
    } else {
        symbol_from(image, symtab, strtab, syment, symbol, rule, limit, i + 1)
    }
}

/// The first symbol of a table with a name and a value that counts.
pub fn scan_symtab(
    image: &[u8],
    symtab: u64,
    strtab: u64,
    syment: u64,
    symbol: &str,
    rule: SymbolRule,
    limit: u64,
) -> (r: Lookup)
    ensures
        r == symbol_from(
            image@,
            symtab as int,
            strtab as int,
            syment as int,
            symbol@,
            rule,
            limit as int,
            0,
        ),
{
    let name = chars_of(symbol);
    let mut i: u64 = 0;
    while i < limit
        invariant
            i <= limit,
            name@ == symbol@,
            symbol_from(
                image@,
                symtab as int,
                strtab as int,
                syment as int,
                symbol@,
                rule,
                limit as int,
                0,
            ) == symbol_from(
                image@,
                symtab as int,
                strtab as int,
                syment as int,
                symbol@,
                rule,
                limit as int,
                i as int,
            ),
        decreases limit - i,
    {
        assert(0 <= i * syment <= 0xFFFF_FFFF_FFFF_FFFF * 0xFFFF_FFFF_FFFF_FFFF)
            by (nonlinear_arith)
            requires
                0 <= i <= 0xFFFF_FFFF_FFFF_FFFF,
                0 <= syment <= 0xFFFF_FFFF_FFFF_FFFF,
        ;
        let step: u128 = i as u128 * syment as u128;
        if step > u64::MAX as u128 || symtab as u128 + step > u64::MAX as u128 {
            return Lookup::Fault;
        }
        let sym: u128 = symtab as u128 + step;
        if !in_range(image, sym, 24) {
            return Lookup::Absent;
        }
        let at: usize = sym as usize;
        let value: u64 = get_u64(image, at + 8);
        let counted = value != 0 && match rule {
            SymbolRule::Defined => get_u16(image, at + 6) != 0,
            SymbolRule::Bound => image[at + 4] / 16 != 0,
            SymbolRule::Any => true,
        };
        if counted {
            let st_name: u32 = get_u32(image, at);
            if st_name as u64 > u64::MAX - strtab {
                return Lookup::Fault;
            }
            if names_symbol(image, strtab + st_name as u64, &name) {
                return Lookup::At(value);
            }
        }
        i = i + 1;
    }
    Lookup::Absent
}

/// The value of a dynamic symbol of a 64-bit ELF image, of at most `limit` entries.
pub open spec fn dynamic_symbol(
    image: Seq<u8>,
    symbol: Seq<char>,
    rule: SymbolRule,
    limit: int,
) -> Lookup {
    let h = headers(image);
    if !is_elf64(image) {
        Lookup::Absent
    } else {
        match last_dynamic(image, h, 0, Lookup::Absent) {
            Lookup::Fault => Lookup::Fault,
            Lookup::Absent => Lookup::Absent,
            Lookup::At(dynamic) => match segment_offset(image, h, dynamic, false, 0) {
                Lookup::Fault => Lookup::Fault,
                Lookup::Absent => Lookup::Absent,
                Lookup::At(pos) => {
                    let d = dynamic_from(image, pos as int, image.len() as int, no_dynamic());
                    match d.symtab {
                        None => Lookup::Absent,
                        Some(st) => match segment_offset(image, h, st, false, 0) {
                            Lookup::Fault => Lookup::Fault,
                            Lookup::Absent => Lookup::Absent,
                            Lookup::At(symtab) => match d.strtab {
                                None => Lookup::Absent,
                                Some(sn) => match segment_offset(image, h, sn, false, 0) {
                                    Lookup::Fault => Lookup::Fault,
                                    Lookup::Absent => Lookup::Absent,
                                    Lookup::At(strtab) => symbol_from(
                                        image,
                                        symtab as int,
                                        strtab as int,
                                        d.syment as int,
                                        symbol,
                                        rule,
                                        limit,
                                        0,
                                    ),
                                },
                            },
                        },
                    }
                },
            },
        }
    }
}

/// The value of a dynamic symbol.
pub fn find_dynamic_symbol(image: &[u8], symbol: &str, rule: SymbolRule, limit: u64) -> (r: Lookup)
    ensures
        r == dynamic_symbol(image@, symbol@, rule, limit as int),
{
    if !check_elf64(image) {
        return Lookup::Absent;
    }
    let h = read_headers(image);
    let dynamic: u64 = match find_last_dynamic(image, h) {
        Lookup::At(v) => v,
        other => {
            return other;
        },
    };
    let pos: u64 = match find_segment_offset(image, h, dynamic, false) {
        Lookup::At(v) => v,
        other => {
            return other;
        },
    };
    let d = read_dynamic(image, pos, image.len() as u128);
    let st: u64 = match d.symtab {
        Some(v) => v,
        None => {
            return Lookup::Absent;
        },
    };
    let symtab: u64 = match find_segment_offset(image, h, st, false) {
        Lookup::At(v) => v,
        other => {
            return other;
        },
    };
    let sn: u64 = match d.strtab {
        Some(v) => v,
        None => {
            return Lookup::Absent;
        },
    };
    let strtab: u64 = match find_segment_offset(image, h, sn, false) {
        Lookup::At(v) => v,
        other => {
            return other;
        },
    };
    scan_symtab(image, symtab, strtab, d.syment, symbol, rule, limit)
}

/// Where the section symbol table lies: its offset, its size, and the offset of its names.
#[derive(Debug, Clone, Copy, PartialEq, Eq, Structural)]
pub struct Sections {
    pub symtab: Option<u64>,
    pub symtab_size: u64,
    pub strtab: Option<u64>,
}

/// The section headers from the `i`th on, read into `s`; `None` is a fault. Of several symbol
/// or string tables the last counts.
pub open spec fn sections_from(
    image: Seq<u8>,
    h: Headers,
    names: u64,
    i: int,
    s: Sections,
) -> Option<Sections>
    decreases h.count - i,
{
    if i >= h.count {
        Some(s)
    } else if !inside(image, h.at(i), 40) {
        None
    } else if names + word_at(image, h.at(i)) > u64::MAX {
        None
    } else {
        sections_from(image, h, names, i + 1, with_section(image, h.at(i), names, s))
    }
}

/// `s` after the section header at `off`.
pub open spec fn with_section(image: Seq<u8>, off: int, names: u64, s: Sections) -> Sections {
    let name = utf8_lossy(cstr_bytes(image, names + word_at(image, off)));
    let kind = word_at(image, off + 4);
    if name == ".symtab"@ && kind == 2 {
        Sections {
            symtab: Some(quad_at(image, off + 24)),
            symtab_size: quad_at(image, off + 32),
            ..s
        }
    } else if name == ".strtab"@ && kind == 3 {
        Sections { strtab: Some(quad_at(image, off + 24)), ..s }
    } else {
        s
    }
}

fn read_sections(image: &[u8], h: Headers, names: u64) -> (r: Option<Sections>)
    ensures
        r == sections_from(
            image@,
            h,
            names,
            0,
            (Sections { symtab: None, symtab_size: 0, strtab: None }),
        ),
{
    proof {
        reveal_strlit(".symtab");
        reveal_strlit(".strtab");
        assert(".symtab"@[1] != ".strtab"@[1] || ".symtab"@[2] != ".strtab"@[2]);
    }
    let symtab_name = chars_of(".symtab");
    let strtab_name = chars_of(".strtab");
    let mut s = Sections { symtab: None, symtab_size: 0, strtab: None };
    let mut i: u16 = 0;
    while i < h.count
        invariant
            i <= h.count,
            symtab_name@ == ".symtab"@,
            strtab_name@ == ".strtab"@,
            symtab_name@ != strtab_name@,
            sections_from(
                image@,
                h,
                names,
                0,
                (Sections { symtab: None, symtab_size: 0, strtab: None }),
            ) == sections_from(image@, h, names, i as int, s),
        decreases h.count - i,
    {
        let off: u128 = h.offset(i);
        if !in_range(image, off, 40) {
            return None;
        }
        let at: usize = off as usize;
        let name_off: u32 = get_u32(image, at);
        let kind: u32 = get_u32(image, at + 4);
        let place: u64 = get_u64(image, at + 24);
        let size: u64 = get_u64(image, at + 32);
        if name_off as u64 > u64::MAX - names {
            return None;
        }
        let name_at: u64 = names + name_off as u64;
        if kind == 2 && names_symbol(image, name_at, &symtab_name) {
            s = Sections { symtab: Some(place), symtab_size: size, ..s };
        } else if kind == 3 && names_symbol(image, name_at, &strtab_name) {
            s = Sections { strtab: Some(place), ..s };
        }
        i = i + 1;
    }
    Some(s)
}

/// The section headers that the ELF header names.
pub open spec fn section_headers(image: Seq<u8>) -> Headers {
    Headers { off: quad_at(image, 40), size: half_at(image, 58), count: half_at(image, 60) }
}

/// The value of a symbol of the section symbol table.
pub open spec fn section_symbol(image: Seq<u8>, symbol: Seq<char>) -> Lookup {
    let h = section_headers(image);
    let names = h.at(half_at(image, 62) as int);
    if !is_elf64(image) {
        Lookup::Absent
    } else if !inside(image, names, 32) {
        Lookup::Fault
    } else {
        match sections_from(
            image,
            h,
            quad_at(image, names + 24),
            0,
            Sections { symtab: None, symtab_size: 0, strtab: None },
        ) {
            None => Lookup::Fault,
            Some(s) => match (s.symtab, s.strtab) {
                (Some(symtab), Some(strtab)) => symbol_from(
                    image,
                    symtab as int,
                    strtab as int,
                    24,
                    symbol,
                    SymbolRule::Any,
                    (s.symtab_size / 24) as int,
                    0,
                ),
                _ => Lookup::Absent,
            },
        }
    }
}

fn find_section_symbol(image: &[u8], symbol: &str) -> (r: Lookup)
    requires
        is_elf64(image@),
    ensures
        r == section_symbol(image@, symbol@),
{
    let h = Headers { off: get_u64(image, 40), size: get_u16(image, 58), count: get_u16(image, 60) };
    let names: u128 = h.offset(get_u16(image, 62));
    if !in_range(image, names, 32) {
        return Lookup::Fault;
    }
    let at: usize = names as usize;
    let names_at: u64 = get_u64(image, at + 24);
    match read_sections(image, h, names_at) {
        None => Lookup::Fault,
        Some(s) => match (s.symtab, s.strtab) {
            (Some(symtab), Some(strtab)) => scan_symtab(
                image,
                symtab,
                strtab,
                24,
                symbol,
                SymbolRule::Any,
                s.symtab_size / 24,
            ),
            _ => Lookup::Absent,
        },
    }
}

/// The value of a symbol: among the dynamic ones that are not local, or in the section symbol
/// table.
pub fn find_elf_symbol(image: &[u8], symbol: &str, dyn_only: bool) -> (r: Lookup)
    ensures
        r == if dyn_only {
            dynamic_symbol(image@, symbol@, SymbolRule::Bound, 65536)
        } else {
            section_symbol(image@, symbol@)
        },
{
    if dyn_only {
        return find_dynamic_symbol(image, symbol, SymbolRule::Bound, 65536);
    }
    if !check_elf64(image) {
        return Lookup::Absent;
    }
    find_section_symbol(image, symbol)
}

/// The value of a symbol: among the dynamic ones, and else in the section symbol table.
pub open spec fn any_symbol(image: Seq<u8>, symbol: Seq<char>) -> Lookup {
    match dynamic_symbol(image, symbol, SymbolRule::Bound, 65536) {
        Lookup::Absent => section_symbol(image, symbol),
        found => found,
    }
}

/// Looks a symbol up among the dynamic ones, and else in the section symbol table.
pub fn find_dynsym(image: &[u8], symbol: &str) -> (r: Lookup)
    ensures
        r == any_symbol(image@, symbol@),
{
    match find_elf_symbol(image, symbol, true) {
        Lookup::Absent => find_elf_symbol(image, symbol, false),
        Lookup::At(v) => Lookup::At(v),
        Lookup::Fault => Lookup::Fault,
    }
}

/// The address of a symbol of a library that is loaded at `bias`.
pub fn scan_libart_symbol(bias: u64, image: &[u8], symbol: &str) -> (r: Option<u64>)
    requires
        any_symbol(image@, symbol@) !is Fault,
    ensures
        r == match any_symbol(image@, symbol@) {
            Lookup::At(v) => Some(((bias + v) % 0x1_0000_0000_0000_0000) as u64),
            _ => None::<u64>,
        },
{
    match find_dynsym(image, symbol) {
        Lookup::At(v) => Some(bias.wrapping_add(v)),
        _ => None,
    }
}

/// The same for any image: `None` where the walk is a fault.
pub fn probe_libart_symbol(bias: u64, image: &[u8], symbol: &str) -> (r: Option<Option<u64>>)
    ensures
        r == match any_symbol(image@, symbol@) {
            Lookup::Fault => None,
            Lookup::At(v) => Some(Some(((bias + v) % 0x1_0000_0000_0000_0000) as u64)),
            Lookup::Absent => Some(None::<u64>),
        },
{
    match find_dynsym(image, symbol) {
        Lookup::Fault => None,
        _ => Some(scan_libart_symbol(bias, image, symbol)),
    }
}

/// The value of a dynamic symbol that belongs to a section, among the first 8192.
pub fn find_dynsym_offset(image: &[u8], symbol: &str) -> (r: Lookup)
    ensures
        r == dynamic_symbol(image@, symbol@, SymbolRule::Defined, 8192),
{
    find_dynamic_symbol(image, symbol, SymbolRule::Defined, 8192)
}

/// A symbol that is found has a value other than zero.
pub proof fn law_found_symbol_has_value(
    image: Seq<u8>,
    symtab: int,
    strtab: int,
    syment: int,
    symbol: Seq<char>,
    rule: SymbolRule,
    limit: int,
    i: int,
)
    requires
        0 <= i,
        0 <= symtab,
        0 <= syment,
    ensures
        symbol_from(image, symtab, strtab, syment, symbol, rule, limit, i) matches Lookup::At(v)
            ==> v != 0,
    decreases limit - i,
{
    if i < limit {
        law_found_symbol_has_value(
            image,
            symtab,
            strtab,
            syment,
            symbol,
            rule,
            limit,
            i + 1,
        );
    }
}

} // verus!
