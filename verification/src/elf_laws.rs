//! What a name that was found in an image stands for.
use crate::bytes::{half_at, quad_at, word_at};
use crate::elf::{
    counts, cstr_bytes, dynamic_from, dynamic_symbol, find_dynsym, find_dynsym_offset,
    find_elf_symbol, headers, inside, nul_from, probe_libart_symbol, scan_symtab, section_symbol,
    segment_offset, symbol_from, utf8_lossy, with_entry, Dynamic, Headers, Lookup, SymbolRule,
};
use crate::got::{
    bounded_cstr, find_got_slot, first_dynamic, got_walk, page_of, probe_got_slot, slot_from,
    GotError, GotWalk, Tables,
};
use vstd::prelude::*;

verus! {

/// Whether a name stands at a place in an image: its bytes are those before the next zero byte.
pub open spec fn named(image: Seq<u8>, at: int, name: Seq<char>) -> bool {
    exists|end: int|
        {
            &&& 0 <= at <= end <= image.len()
            &&& #[trigger] utf8_lossy(image.subrange(at, end)) == name
            &&& forall|k: int| at <= k < end ==> image[k] != 0
        }
}

/// Whether a relocation of 24 bytes stands at a place in an image, whose symbol of 24 bytes in
/// the table at `sym` has its name, asked for, in the names at `str`.
pub open spec fn relocates(image: Seq<u8>, at: int, sym: int, str: int, symbol: Seq<char>) -> bool {
    let entry = sym + 24 * (quad_at(image, at + 8) / 0x1_0000_0000);
    &&& inside(image, at, 24)
    &&& inside(image, entry, 24)
    &&& named(image, str + word_at(image, entry), symbol)
}

proof fn lemma_nul(image: Seq<u8>, from: int, to: int)
    requires
        0 <= from <= to <= image.len(),
    ensures
        from <= nul_from(image, from, to) <= to,
        forall|k: int| from <= k < nul_from(image, from, to) ==> image[k] != 0,
        nul_from(image, from, to) < to ==> image[nul_from(image, from, to)] == 0,
    decreases to - from,
{
    if from < to && image[from] != 0 {
        lemma_nul(image, from + 1, to);
    }
}

proof fn lemma_bounded_name(image: Seq<u8>, start: int, max: int)
    requires
        0 <= start,
        0 <= max,
        bounded_cstr(image, start, max) is Some,
    ensures
        named(image, start, utf8_lossy(bounded_cstr(image, start, max).unwrap())),
{
    let end = if start + max <= image.len() {
        start + max
    } else {
        image.len() as int
    };
    lemma_nul(image, start, end);
    let nul = nul_from(image, start, end);
    assert(utf8_lossy(image.subrange(start, nul)) == utf8_lossy(
        bounded_cstr(image, start, max).unwrap(),
    ));
}

/// Whether a slot of an image at `base` is that of a relocation of some table.
pub open spec fn slot_of_relocation(
    image: Seq<u8>,
    base: u64,
    t: Tables,
    symbol: Seq<char>,
    a: u64,
    k: int,
) -> bool {
    &&& 0 <= k
    &&& relocates(image, t.plt + k * t.relaent, t.sym as int, t.str as int, symbol)
    &&& a == base + quad_at(image, t.plt + k * t.relaent)
}

proof fn lemma_slot_from(
    image: Seq<u8>,
    base: u64,
    t: Tables,
    symbol: Seq<char>,
    n: int,
    i: int,
    a: u64,
) -> (k: int)
    requires
        0 <= i,
        slot_from(image, base, t, symbol, n, i) == GotWalk::At(a),
    ensures
        i <= k < n,
        slot_of_relocation(image, base, t, symbol, a, k),
    decreases n - i,
{
    let re = t.plt + i * t.relaent;
    assert(i * t.relaent >= 0) by (nonlinear_arith)
        requires
            i >= 0,
            t.relaent >= 0,
    ;
    let sym = t.sym + (quad_at(image, re + 8) as int / 0x1_0000_0000) * 24;
    if sym + 24 > image.len() {
        lemma_slot_from(image, base, t, symbol, n, i + 1, a)
    } else {
        let name = t.str + word_at(image, sym);
        let bytes = bounded_cstr(image, name, t.strsz as int).unwrap();
        if utf8_lossy(bytes) != symbol {
            lemma_slot_from(image, base, t, symbol, n, i + 1, a)
        } else {
            lemma_bounded_name(image, name, t.strsz as int);
            i
        }
    }
}

proof fn lemma_slot_moves(
    image: Seq<u8>,
    base: u64,
    other: u64,
    t: Tables,
    symbol: Seq<char>,
    n: int,
    i: int,
    a: u64,
    b: u64,
)
    requires
        slot_from(image, base, t, symbol, n, i) == GotWalk::At(a),
        other - base == b - a,
    ensures
        slot_from(image, other, t, symbol, n, i) == GotWalk::At(b),
    decreases n - i,
{
    let re = t.plt + i * t.relaent;
    let sym = t.sym + (quad_at(image, re + 8) as int / 0x1_0000_0000) * 24;
    if sym + 24 > image.len() {
        lemma_slot_moves(image, base, other, t, symbol, n, i + 1, a, b);
    } else {
        let name = t.str + word_at(image, sym);
        let bytes = bounded_cstr(image, name, t.strsz as int).unwrap();
        if utf8_lossy(bytes) != symbol {
            lemma_slot_moves(image, base, other, t, symbol, n, i + 1, a, b);
        }
    }
}

/// Whether an entry of the dynamic section gives a value for a tag.
pub open spec fn says_dynamic(image: Seq<u8>, pos: int, end: int, tag: int, val: u64) -> bool {
    exists|k: int|
        {
            &&& 0 <= k
            &&& 0 <= pos + 16 * k
            &&& pos + 16 * k + 16 <= end
            &&& pos + 16 * k + 16 <= image.len()
            &&& #[trigger] quad_at(image, pos + 16 * k) == tag
            &&& quad_at(image, pos + 16 * k + 8) == val
        }
}

proof fn lemma_says_step(image: Seq<u8>, pos: int, end: int, tag: int, val: u64)
    requires
        says_dynamic(image, pos + 16, end, tag, val),
    ensures
        says_dynamic(image, pos, end, tag, val),
{
    let k = choose|k: int|
        {
            &&& 0 <= k
            &&& 0 <= pos + 16 + 16 * k
            &&& pos + 16 + 16 * k + 16 <= end
            &&& pos + 16 + 16 * k + 16 <= image.len()
            &&& #[trigger] quad_at(image, pos + 16 + 16 * k) == tag
            &&& quad_at(image, pos + 16 + 16 * k + 8) == val
        };
    if pos >= 0 {
        assert(pos + 16 * (k + 1) == pos + 16 + 16 * k);
        assert(quad_at(image, pos + 16 * (k + 1)) == tag);
    } else {
        assert(pos + 16 * (k + 1) == pos + 16 + 16 * k);
        assert(quad_at(image, pos + 16 * (k + 1)) == tag);
    }
}

/// What is known of the tables is what the dynamic section says under their tags.
pub proof fn law_dynamic_says(image: Seq<u8>, pos: int, end: int, d: Dynamic)
    requires
        pos >= 0,
    ensures
        ({
            let r = dynamic_from(image, pos, end, d);
            &&& r.jmprel == d.jmprel || (r.jmprel matches Some(v) && says_dynamic(image, pos, end, 23, v))
            &&& r.symtab == d.symtab || (r.symtab matches Some(v) && says_dynamic(image, pos, end, 6, v))
            &&& r.strtab == d.strtab || (r.strtab matches Some(v) && says_dynamic(image, pos, end, 5, v))
            &&& r.pltrelsz == d.pltrelsz || says_dynamic(image, pos, end, 2, r.pltrelsz)
            &&& r.strsz == d.strsz || says_dynamic(image, pos, end, 10, r.strsz)
            &&& r.relaent == d.relaent || says_dynamic(image, pos, end, 9, r.relaent)
            &&& r.syment == d.syment || says_dynamic(image, pos, end, 11, r.syment)
        }),
    decreases image.len() - pos,
{
    if !(pos + 16 > end || pos + 16 > image.len() || quad_at(image, pos) == 0) {
        let tag = quad_at(image, pos);
        let val = quad_at(image, pos + 8);
        law_dynamic_says(image, pos + 16, end, with_entry(d, tag, val));
        assert(quad_at(image, pos + 16 * 0) == tag);
        assert(says_dynamic(image, pos, end, tag as int, val));
        assert forall|t: int, v: u64| says_dynamic(image, pos + 16, end, t, v) implies #[trigger] says_dynamic(
            image,
            pos,
            end,
            t,
            v,
        ) by {
            lemma_says_step(image, pos, end, t, v);
        }
    }
}

/// An address of a segment is found as far into the file as it is into the segment.
pub proof fn law_segment_holds_address(
    image: Seq<u8>,
    h: Headers,
    vaddr: u64,
    lenient: bool,
    i: int,
    off: u64,
) -> (k: int)
    requires
        0 <= i,
        segment_offset(image, h, vaddr, lenient, i) == Lookup::At(off),
    ensures
        i <= k < h.count,
        word_at(image, h.at(k)) == 1,
        off - quad_at(image, h.at(k) + 8) == vaddr - quad_at(image, h.at(k) + 16),
        0 <= vaddr - quad_at(image, h.at(k) + 16) < quad_at(image, h.at(k) + 32),
    decreases h.count - i,
{
    if word_at(image, h.at(i)) != 1 {
        law_segment_holds_address(image, h, vaddr, lenient, i + 1, off)
    } else {
        let start = quad_at(image, h.at(i) + 16);
        let size = quad_at(image, h.at(i) + 32);
        if vaddr < start || vaddr >= start + size {
            law_segment_holds_address(image, h, vaddr, lenient, i + 1, off)
        } else {
            i
        }
    }
}

proof fn lemma_first_dynamic(image: Seq<u8>, h: Headers, i: int) -> (k: int)
    requires
        0 <= i,
        first_dynamic(image, h, i) matches Some(Some(_)),
    ensures
        i <= k < h.count,
        word_at(image, h.at(k)) == 2,
        first_dynamic(image, h, i) == Some(
            Some((quad_at(image, h.at(k) + 16), quad_at(image, h.at(k) + 32))),
        ),
    decreases h.count - i,
{
    if word_at(image, h.at(i)) == 2 {
        i
    } else {
        lemma_first_dynamic(image, h, i + 1)
    }
}

/// What the slot of a name was found from: the header of the dynamic section, where that section
/// stands and ends, what it says of relocations, symbols and names, and which relocation it is.
pub struct SlotOrigin {
    pub header: int,
    pub pos: u64,
    pub end: int,
    pub jmprel: u64,
    pub size: u64,
    pub symtab: u64,
    pub strtab: u64,
    pub tables: Tables,
    pub k: int,
}

/// Where a slot was found, it stands at the load address and the offset of a relocation, and that
/// relocation's symbol has the name that was asked for. The relocation lies in the table that the
/// dynamic section names, its symbol and its name in the tables that it names.
pub proof fn law_found_slot_is_of_symbol(base: u64, image: &[u8], symbol: &str, a: u64) -> (w:
    SlotOrigin)
    requires
        call_ensures(probe_got_slot, (base, image, symbol), Some(Ok::<u64, GotError>(a)))
            || call_ensures(find_got_slot, (base, image, symbol), Ok::<u64, GotError>(a)),
    ensures
        ({
            let h = headers(image@);
            let t = w.tables;
            let at = t.plt + w.k * t.relaent;
            &&& word_at(image@, h.at(w.header)) == 2
            &&& segment_offset(image@, h, quad_at(image@, h.at(w.header) + 16), true, 0)
                == Lookup::At(w.pos)
            &&& w.end == w.pos + quad_at(image@, h.at(w.header) + 32)
            &&& says_dynamic(image@, w.pos as int, w.end, 23, w.jmprel)
            &&& says_dynamic(image@, w.pos as int, w.end, 2, w.size)
            &&& says_dynamic(image@, w.pos as int, w.end, 6, w.symtab)
            &&& says_dynamic(image@, w.pos as int, w.end, 5, w.strtab)
            &&& segment_offset(image@, h, w.jmprel, true, 0) == Lookup::At(t.plt)
            &&& segment_offset(image@, h, w.symtab, true, 0) == Lookup::At(t.sym)
            &&& segment_offset(image@, h, w.strtab, true, 0) == Lookup::At(t.str)
            &&& t.relaent == 24 || says_dynamic(image@, w.pos as int, w.end, 9, t.relaent)
            &&& 0 <= w.k
            &&& (w.k + 1) * t.relaent <= w.size
            &&& relocates(image@, at, t.sym as int, t.str as int, symbol@)
            &&& a == base + quad_at(image@, at)
        }),
{
    let w = got_walk(base, image@, symbol@);
    assert(w == GotWalk::At(a));
    let h = headers(image@);
    let header = lemma_first_dynamic(image@, h, 0);
    let (vaddr, filesz) = first_dynamic(image@, h, 0).unwrap().unwrap();
    let pos = segment_offset(image@, h, vaddr, true, 0)->At_0;
    let end = pos + filesz;
    let d = dynamic_from(image@, pos as int, end, crate::elf::no_dynamic());
    law_dynamic_says(image@, pos as int, end, crate::elf::no_dynamic());
    let jmprel = d.jmprel.unwrap();
    let symtab = d.symtab.unwrap();
    let strtab = d.strtab.unwrap();
    let plt = segment_offset(image@, h, jmprel, true, 0)->At_0;
    let sym = segment_offset(image@, h, symtab, true, 0)->At_0;
    let names = segment_offset(image@, h, strtab, true, 0)->At_0;
    let t = Tables { plt, sym, str: names, strsz: d.strsz, relaent: d.relaent };
    let n = d.pltrelsz as int / d.relaent as int;
    let k = lemma_slot_from(image@, base, t, symbol@, n, 0, a);
    let size = d.pltrelsz as int;
    let each = d.relaent as int;
    assert((k + 1) * each <= size) by (nonlinear_arith)
        requires
            0 <= k < n,
            n == size / each,
            size >= 0,
            each > 0,
    ;
    SlotOrigin { header, pos, end, jmprel, size: d.pltrelsz, symtab, strtab, tables: t, k }
}

/// The first relocation of a table whose symbol has a name gives the slot of that name, whatever
/// follows it.
pub proof fn law_named_slot_is_found(
    image: Seq<u8>,
    base: u64,
    t: Tables,
    symbol: Seq<char>,
    n: int,
    i: int,
    k: int,
)
    requires
        0 <= i <= k < n,
        slot_from(image, base, t, symbol, n, i) !is Fault,
        t.plt + k * t.relaent + 24 <= image.len(),
        ({
            let sym = t.sym + 24 * (quad_at(image, t.plt + k * t.relaent + 8) / 0x1_0000_0000);
            &&& inside(image, sym, 24)
            &&& bounded_cstr(image, t.str + word_at(image, sym), t.strsz as int) matches Some(b)
            &&& utf8_lossy(b) == symbol
        }),
    ensures
        slot_from(image, base, t, symbol, n, i) is At,
    decreases n - i,
{
    assert(0 <= i * t.relaent <= k * t.relaent) by (nonlinear_arith)
        requires
            0 <= i <= k,
            t.relaent >= 0,
    ;
    let re = t.plt + i * t.relaent;
    if i < k {
        let sym = t.sym + (quad_at(image, re + 8) as int / 0x1_0000_0000) * 24;
        if sym + 24 > image.len() {
            law_named_slot_is_found(image, base, t, symbol, n, i + 1, k);
        } else {
            let name = t.str + word_at(image, sym);
            if utf8_lossy(bounded_cstr(image, name, t.strsz as int).unwrap()) != symbol {
                law_named_slot_is_found(image, base, t, symbol, n, i + 1, k);
            }
        }
    }
}

/// An image that is loaded elsewhere has its slots as much further as it is itself.
pub proof fn law_slot_moves_with_the_image(
    base: u64,
    other: u64,
    image: &[u8],
    symbol: &str,
    a: u64,
    r: Option<Result<u64, GotError>>,
)
    requires
        call_ensures(probe_got_slot, (base, image, symbol), Some(Ok::<u64, GotError>(a))),
        call_ensures(probe_got_slot, (other, image, symbol), r),
        0 <= a + (other - base) <= u64::MAX,
    ensures
        r matches Some(Ok(b)) && b - a == other - base,
{
    assert(got_walk(base, image@, symbol@) == GotWalk::At(a));
    let h = headers(image@);
    let (vaddr, filesz) = first_dynamic(image@, h, 0).unwrap().unwrap();
    let pos = segment_offset(image@, h, vaddr, true, 0)->At_0;
    let end = pos + filesz;
    let d = dynamic_from(image@, pos as int, end, crate::elf::no_dynamic());
    let plt = segment_offset(image@, h, d.jmprel.unwrap(), true, 0)->At_0;
    let sym = segment_offset(image@, h, d.symtab.unwrap(), true, 0)->At_0;
    let names = segment_offset(image@, h, d.strtab.unwrap(), true, 0)->At_0;
    let t = Tables { plt, sym, str: names, strsz: d.strsz, relaent: d.relaent };
    let b = (a + (other - base)) as u64;
    lemma_slot_moves(
        image@,
        base,
        other,
        t,
        symbol@,
        d.pltrelsz as int / d.relaent as int,
        0,
        a,
        b,
    );
    assert(got_walk(other, image@, symbol@) == GotWalk::At(b));
}

/// Whether an entry of a symbol table has a name and a value.
pub open spec fn is_symbol(image: Seq<u8>, entry: int, strtab: int, symbol: Seq<char>, v: u64) -> bool {
    &&& inside(image, entry, 24)
    &&& v == quad_at(image, entry + 8)
    &&& v != 0
    &&& (symbol == utf8_lossy(Seq::empty()) || named(image, strtab + word_at(image, entry), symbol))
}

proof fn lemma_symbol_from(
    image: Seq<u8>,
    symtab: int,
    strtab: int,
    syment: int,
    symbol: Seq<char>,
    rule: SymbolRule,
    limit: int,
    i: int,
    v: u64,
) -> (k: int)
    requires
        0 <= i,
        0 <= symtab,
        0 <= strtab,
        0 <= syment,
        symbol_from(image, symtab, strtab, syment, symbol, rule, limit, i) == Lookup::At(v),
    ensures
        i <= k < limit,
        is_symbol(image, symtab + k * syment, strtab, symbol, v),
        rule is Defined ==> half_at(image, symtab + k * syment + 6) != 0,
        rule is Bound ==> image[symtab + k * syment + 4] >= 16,
    decreases limit - i,
{
    let sym = symtab + i * syment;
    assert(i * syment >= 0) by (nonlinear_arith)
        requires
            i >= 0,
            syment >= 0,
    ;
    if !counts(image, sym, rule) {
        lemma_symbol_from(image, symtab, strtab, syment, symbol, rule, limit, i + 1, v)
    } else if utf8_lossy(cstr_bytes(image, strtab + word_at(image, sym))) == symbol {
        let start = strtab + word_at(image, sym);
        if start < image.len() {
            lemma_nul(image, start, image.len() as int);
            let end = nul_from(image, start, image.len() as int);
            if end < image.len() {
                assert(utf8_lossy(image.subrange(start, end)) == symbol);
            }
        }
        i
    } else {
        lemma_symbol_from(image, symtab, strtab, syment, symbol, rule, limit, i + 1, v)
    }
}

/// A symbol that a table was searched for is an entry of that table with its name, and what is
/// found is its value.
pub proof fn law_scanned_symbol(
    image: &[u8],
    symtab: u64,
    strtab: u64,
    syment: u64,
    symbol: &str,
    rule: SymbolRule,
    limit: u64,
    v: u64,
) -> (k: int)
    requires
        call_ensures(
            scan_symtab,
            (image, symtab, strtab, syment, symbol, rule, limit),
            Lookup::At(v),
        ),
    ensures
        0 <= k < limit,
        is_symbol(image@, symtab + k * syment, strtab as int, symbol@, v),
{
    lemma_symbol_from(
        image@,
        symtab as int,
        strtab as int,
        syment as int,
        symbol@,
        rule,
        limit as int,
        0,
        v,
    )
}

/// A symbol that is found among the dynamic ones of an image is an entry of the table that its
/// dynamic section names, its name stands in the names that it names, and its value is found.
pub proof fn law_found_dynamic_symbol(
    image: &[u8],
    symbol: &str,
    v: u64,
) -> (w: (int, int, int))
    requires
        call_ensures(find_dynsym_offset, (image, symbol), Lookup::At(v)) || call_ensures(
            find_elf_symbol,
            (image, symbol, true),
            Lookup::At(v),
        ),
    ensures
        ({
            let (entry, strtab, k) = w;
            is_symbol(image@, entry, strtab, symbol@, v)
        }),
{
    let (rule, limit) = if dynamic_symbol(image@, symbol@, SymbolRule::Defined, 8192)
        == Lookup::At(v) {
        (SymbolRule::Defined, 8192int)
    } else {
        (SymbolRule::Bound, 65536int)
    };
    assert(dynamic_symbol(image@, symbol@, rule, limit) == Lookup::At(v));
    lemma_dynamic_symbol(image@, symbol@, rule, limit, v)
}

proof fn lemma_dynamic_symbol(
    image: Seq<u8>,
    symbol: Seq<char>,
    rule: SymbolRule,
    limit: int,
    v: u64,
) -> (w: (int, int, int))
    requires
        dynamic_symbol(image, symbol, rule, limit) == Lookup::At(v),
    ensures
        is_symbol(image, w.0, w.1, symbol, v),
{
    let h = headers(image);
    let dynamic = crate::elf::last_dynamic(image, h, 0, Lookup::Absent)->At_0;
    let pos = segment_offset(image, h, dynamic, false, 0)->At_0;
    let d = dynamic_from(image, pos as int, image.len() as int, crate::elf::no_dynamic());
    let symtab = segment_offset(image, h, d.symtab.unwrap(), false, 0)->At_0;
    let strtab = segment_offset(image, h, d.strtab.unwrap(), false, 0)->At_0;
    let k = lemma_symbol_from(
        image,
        symtab as int,
        strtab as int,
        d.syment as int,
        symbol,
        rule,
        limit,
        0,
        v,
    );
    (symtab + k * d.syment, strtab as int, k)
}

proof fn lemma_section_symbol(image: Seq<u8>, symbol: Seq<char>, v: u64) -> (w: (int, int, int))
    requires
        section_symbol(image, symbol) == Lookup::At(v),
    ensures
        is_symbol(image, w.0, w.1, symbol, v),
{
    let h = crate::elf::section_headers(image);
    let names = h.at(half_at(image, 62) as int);
    let s = crate::elf::sections_from(
        image,
        h,
        quad_at(image, names + 24),
        0,
        crate::elf::Sections { symtab: None, symtab_size: 0, strtab: None },
    ).unwrap();
    let symtab = s.symtab.unwrap();
    let strtab = s.strtab.unwrap();
    let k = lemma_symbol_from(
        image,
        symtab as int,
        strtab as int,
        24,
        symbol,
        SymbolRule::Any,
        (s.symtab_size / 24) as int,
        0,
        v,
    );
    (symtab + k * 24, strtab as int, k)
}

/// A symbol that is found in an image at all is an entry there with its name and its value.
pub proof fn law_found_symbol(image: &[u8], symbol: &str, v: u64) -> (w: (int, int, int))
    requires
        call_ensures(find_dynsym, (image, symbol), Lookup::At(v)) || call_ensures(
            find_elf_symbol,
            (image, symbol, false),
            Lookup::At(v),
        ),
    ensures
        is_symbol(image@, w.0, w.1, symbol@, v),
{
    if section_symbol(image@, symbol@) == Lookup::At(v) {
        lemma_section_symbol(image@, symbol@, v)
    } else {
        lemma_dynamic_symbol(image@, symbol@, SymbolRule::Bound, 65536, v)
    }
}

/// The address of a symbol is its value and the bias of the image.
pub proof fn law_symbol_address(
    bias: u64,
    image: &[u8],
    symbol: &str,
    r: Option<Option<u64>>,
    found: Lookup,
)
    requires
        call_ensures(probe_libart_symbol, (bias, image, symbol), r),
        call_ensures(find_dynsym, (image, symbol), found),
    ensures
        r is None <==> found is Fault,
        r == Some(None::<u64>) <==> found is Absent,
        found matches Lookup::At(v) ==> (r matches Some(Some(a)) && (a - bias - v)
            % 0x1_0000_0000_0000_0000 == 0),
{
    if let Lookup::At(v) = found {
        let a = r.unwrap().unwrap();
        assert(a == (bias + v) % 0x1_0000_0000_0000_0000);
    }
}

/// The page of an address starts at a multiple of its size and holds the address.
pub proof fn law_page_holds_address(addr: u64, size: u64, page: u64)
    requires
        size > 0,
        call_ensures(page_of, (addr, size), page),
    ensures
        page % size == 0,
        page <= addr < page + size,
{
    let r = addr % size;
    assert(page as int % size as int == 0) by (nonlinear_arith)
        requires
            page == addr - addr as int % size as int,
            size > 0,
    ;
}

} // verus!
