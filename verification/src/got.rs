//! GOT/PLT slots of imported functions.
use crate::bytes::{get_u32, get_u64, quad_at, word_at};
use crate::elf::{
    dynamic_from, find_nul, find_segment_offset, has_magic, headers, in_range, inside, lossy,
    no_dynamic, nul_from, read_dynamic, read_headers, segment_offset, utf8_lossy, Headers, Lookup,
};
use crate::text::{chars_of, same_chars};
use vstd::prelude::*;
use vstd::string::*;

verus! {

#[derive(Debug)]
pub enum GotError {
    Elf(String),
    NotFound(String),
    Mprotect,
}

impl GotError {
    /// The text of the error.
    pub open spec fn text(&self) -> Seq<char> {
        match self {
            GotError::Elf(m) => "ELF parse: "@ + m@,
            GotError::NotFound(s) => "symbol not found: "@ + s@,
            GotError::Mprotect => "mprotect failed"@,
        }
    }

    pub fn message(&self) -> (m: String)
        ensures
            m@ == self.text(),
    {
        match self {
            GotError::Elf(m) => "ELF parse: ".to_owned().concat(m.as_str()),
            GotError::NotFound(s) => "symbol not found: ".to_owned().concat(s.as_str()),
            GotError::Mprotect => "mprotect failed".to_owned(),
        }
    }
}

/// What a walk for a GOT slot comes to.
pub enum GotWalk {
    /// A header or a table that is read lies outside of the image, the relocation entries have
    /// size zero, or an address does not fit.
    Fault,
    Elf(Seq<char>),
    NotFound,
    At(u64),
}

/// The address and file size of the first dynamic section from the `i`th header on: `None` is
/// a fault, `Some(None)` that there is none.
pub open spec fn first_dynamic(image: Seq<u8>, h: Headers, i: int) -> Option<Option<(u64, u64)>>
    decreases h.count - i,
{
    if i >= h.count {
        Some(None)
    } else if !inside(image, h.at(i), 4) {
        None
    } else if word_at(image, h.at(i)) == 2 {
        if !inside(image, h.at(i), 40) {
            None
        } else {
            Some(Some((quad_at(image, h.at(i) + 16), quad_at(image, h.at(i) + 32))))
        }
    } else {
        first_dynamic(image, h, i + 1)
    }
}

fn find_first_dynamic(image: &[u8], h: Headers) -> (r: Option<Option<(u64, u64)>>)
    ensures
        r == first_dynamic(image@, h, 0),
{
    let mut i: u16 = 0;
    while i < h.count
        invariant
            i <= h.count,
            first_dynamic(image@, h, 0) == first_dynamic(image@, h, i as int),
        decreases h.count - i,
    {
        let off: u128 = h.offset(i);
        if !in_range(image, off, 4) {
            return None;
        }
        let at: usize = off as usize;
        if get_u32(image, at) == 2 {
            if !in_range(image, off, 40) {
                return None;
            }
            return Some(Some((get_u64(image, at + 16), get_u64(image, at + 32))));
        }
        i = i + 1;
    }
    Some(None)
}

/// The bytes of the string at `start` that is cut at `max` bytes or at the end of the image:
/// up to its zero byte, or all of it. `None` where it starts past its end.
pub open spec fn bounded_cstr(image: Seq<u8>, start: int, max: int) -> Option<Seq<u8>> {
    let end = if start + max <= image.len() {
        start + max
    } else {
        image.len() as int
    };
    if start > end {
        None
    } else {
        Some(image.subrange(start, nul_from(image, start, end)))
    }
}

/// The first slot whose relocation names the symbol, from the `i`th of `n` relocations on.
pub open spec fn slot_from(
    image: Seq<u8>,
    base: u64,
    t: Tables,
    symbol: Seq<char>,
    n: int,
    i: int,
) -> GotWalk
    decreases n - i,
{
    let re = t.plt + i * t.relaent;
    if i >= n {
        GotWalk::NotFound
    } else if re > u64::MAX {
        GotWalk::Fault
    } else if re + 24 > image.len() {
        GotWalk::NotFound
    } else {
        let sym = t.sym + (quad_at(image, re + 8) as int / 0x1_0000_0000) * 24;
        if sym > u64::MAX {
            GotWalk::Fault
        } else if sym + 24 > image.len() {
            slot_from(image, base, t, symbol, n, i + 1)
        } else {
            let name = t.str + word_at(image, sym);
            match bounded_cstr(image, name, t.strsz as int) {
                None => GotWalk::Fault,
                Some(bytes) => if name + t.strsz > u64::MAX {
                    GotWalk::Fault
                } else if utf8_lossy(bytes) != symbol {
                    slot_from(image, base, t, symbol, n, i + 1)
                } else if base + quad_at(image, re) > u64::MAX {
                    GotWalk::Fault
                } else {
                    GotWalk::At((base + quad_at(image, re)) as u64)
                },
            }
        }
    }
}

/// File offsets of the relocation, symbol and string tables, and two sizes.
#[derive(Debug, Clone, Copy, PartialEq, Eq, Structural)]
pub struct Tables {
    pub plt: u64,
    pub sym: u64,
    pub str: u64,
    pub strsz: u64,
    pub relaent: u64,
}

/// The walk for the slot of `symbol`: the dynamic section, its tables, then the relocations in
/// order.
pub open spec fn got_walk(base: u64, image: Seq<u8>, symbol: Seq<char>) -> GotWalk {
    let h = headers(image);
    if image.len() < 16 {
        GotWalk::Elf("too short"@)
    } else if !has_magic(image) {
        GotWalk::Elf("bad magic"@)
    } else if image[4] != 2 {
        GotWalk::Elf("not ELF64"@)
    } else if image.len() < 58 {
        GotWalk::Fault
    } else {
        match first_dynamic(image, h, 0) {
            None => GotWalk::Fault,
            Some(None) => GotWalk::Elf("no PT_DYNAMIC"@),
            Some(Some((vaddr, filesz))) => match segment_offset(image, h, vaddr, true, 0) {
                Lookup::Fault => GotWalk::Fault,
                Lookup::Absent => GotWalk::Elf("dyn vaddr unmapped"@),
                Lookup::At(pos) => if pos + filesz > u64::MAX {
                    GotWalk::Fault
                } else {
                    tables_walk(base, image, symbol, pos as int, pos + filesz)
                },
            },
        }
    }
}

/// The rest of the walk, from the dynamic section at `pos` to `end` on.
pub open spec fn tables_walk(
    base: u64,
    image: Seq<u8>,
    symbol: Seq<char>,
    pos: int,
    end: int,
) -> GotWalk {
    let h = headers(image);
    let d = dynamic_from(image, pos, end, no_dynamic());
    match (d.jmprel, d.symtab, d.strtab) {
        (None, _, _) => GotWalk::Elf("no DT_JMPREL"@),
        (_, None, _) => GotWalk::Elf("no DT_SYMTAB"@),
        (_, _, None) => GotWalk::Elf("no DT_STRTAB"@),
        (Some(jmprel), Some(symtab), Some(strtab)) => {
            match segment_offset(image, h, jmprel, true, 0) {
                Lookup::Fault => GotWalk::Fault,
                Lookup::Absent => GotWalk::Elf("JMPREL unmapped"@),
                Lookup::At(plt) => match segment_offset(image, h, symtab, true, 0) {
                    Lookup::Fault => GotWalk::Fault,
                    Lookup::Absent => GotWalk::Elf("SYMTAB unmapped"@),
                    Lookup::At(sym) => match segment_offset(image, h, strtab, true, 0) {
                        Lookup::Fault => GotWalk::Fault,
                        Lookup::Absent => GotWalk::Elf("STRTAB unmapped"@),
                        Lookup::At(names) => if d.relaent == 0 {
                            GotWalk::Fault
                        } else {
                            slot_from(
                                image,
                                base,
                                Tables {
                                    plt,
                                    sym,
                                    str: names,
                                    strsz: d.strsz,
                                    relaent: d.relaent,
                                },
                                symbol,
                                d.pltrelsz as int / d.relaent as int,
                                0,
                            )
                        },
                    },
                },
            }
        },
    }
}

/// Whether `r` is what a walk comes to, `None` standing for a fault.
pub open spec fn walk_result(
    w: GotWalk,
    symbol: Seq<char>,
    r: Option<Result<u64, GotError>>,
) -> bool {
    match w {
        GotWalk::Fault => r is None,
        GotWalk::Elf(m) => r matches Some(Err(GotError::Elf(s))) && s@ == m,
        GotWalk::NotFound => r matches Some(Err(GotError::NotFound(s))) && s@ == symbol,
        GotWalk::At(a) => r == Some(Ok::<u64, GotError>(a)),
    }
}

fn elf_error(msg: &str) -> (r: Option<Result<u64, GotError>>)
    ensures
        r matches Some(Err(GotError::Elf(s))) && s@ == msg@,
{
    Some(Err(GotError::Elf(msg.to_owned())))
}

/// Resolves the GOT slot of a symbol by the relocations of its module, which is loaded at
/// `base` and whose ELF file is `image`. Gives the absolute address of the 8-byte entry.
pub fn find_got_slot(base: u64, image: &[u8], symbol: &str) -> (r: Result<u64, GotError>)
    requires
        !(got_walk(base, image@, symbol@) is Fault),
    ensures
        walk_result(got_walk(base, image@, symbol@), symbol@, Some(r)),
{
    match walk_image(base, image, symbol) {
        Some(r) => r,
        None => Err(GotError::Mprotect),
    }
}

/// The same for any image: `None` where the walk is a fault.
pub fn probe_got_slot(base: u64, image: &[u8], symbol: &str) -> (r: Option<Result<u64, GotError>>)
    ensures
        walk_result(got_walk(base, image@, symbol@), symbol@, r),
{
    match walk_image(base, image, symbol) {
        None => None,
        Some(_) => Some(find_got_slot(base, image, symbol)),
    }
}

fn walk_image(base: u64, image: &[u8], symbol: &str) -> (r: Option<Result<u64, GotError>>)
    ensures
        walk_result(got_walk(base, image@, symbol@), symbol@, r),
{
    if image.len() < 16 {
        return elf_error("too short");
    }
    if !(image[0] == 0x7F && image[1] == 0x45 && image[2] == 0x4C && image[3] == 0x46) {
        return elf_error("bad magic");
    }
    if image[4] != 2 {
        return elf_error("not ELF64");
    }
    if image.len() < 58 {
        return None;
    }
    let h = read_headers(image);
    let (vaddr, filesz) = match find_first_dynamic(image, h) {
        None => {
            return None;
        },
        Some(None) => {
            return elf_error("no PT_DYNAMIC");
        },
        Some(Some(p)) => p,
    };
    let pos: u64 = match find_segment_offset(image, h, vaddr, true) {
        Lookup::Fault => {
            return None;
        },
        Lookup::Absent => {
            return elf_error("dyn vaddr unmapped");
        },
        Lookup::At(p) => p,
    };
    if filesz > u64::MAX - pos {
        return None;
    }
    walk_tables(base, image, symbol, h, pos, pos + filesz)
}

fn walk_tables(base: u64, image: &[u8], symbol: &str, h: Headers, pos: u64, end: u64) -> (r: Option<
    Result<u64, GotError>,
>)
    requires
        h == headers(image@),
    ensures
        walk_result(tables_walk(base, image@, symbol@, pos as int, end as int), symbol@, r),
{
    let d = read_dynamic(image, pos, end as u128);
    let jmprel: u64 = match d.jmprel {
        Some(v) => v,
        None => {
            return elf_error("no DT_JMPREL");
        },
    };
    let symtab: u64 = match d.symtab {
        Some(v) => v,
        None => {
            return elf_error("no DT_SYMTAB");
        },
    };
    let strtab: u64 = match d.strtab {
        Some(v) => v,
        None => {
            return elf_error("no DT_STRTAB");
        },
    };
    let plt: u64 = match find_segment_offset(image, h, jmprel, true) {
        Lookup::Fault => {
            return None;
        },
        Lookup::Absent => {
            return elf_error("JMPREL unmapped");
        },
        Lookup::At(p) => p,
    };
    let sym: u64 = match find_segment_offset(image, h, symtab, true) {
        Lookup::Fault => {
            return None;
        },
        Lookup::Absent => {
            return elf_error("SYMTAB unmapped");
        },
        Lookup::At(p) => p,
    };
    let names: u64 = match find_segment_offset(image, h, strtab, true) {
        Lookup::Fault => {
            return None;
        },
        Lookup::Absent => {
            return elf_error("STRTAB unmapped");
        },
        Lookup::At(p) => p,
    };
    if d.relaent == 0 {
        return None;
    }
    let t = Tables { plt, sym, str: names, strsz: d.strsz, relaent: d.relaent };
    scan_relocations(base, image, symbol, t, d.pltrelsz / d.relaent)
}

/// Whether the bounded string at `name` is the symbol; `None` is a fault.
fn names_slot(image: &[u8], name: u64, strsz: u64, symbol: &Vec<char>) -> (r: Option<bool>)
    ensures
        r == match bounded_cstr(image@, name as int, strsz as int) {
            None => None,
            Some(bytes) => if name + strsz > u64::MAX {
                None
            } else {
                Some(utf8_lossy(bytes) == symbol@)
            },
        },
{
    let len: usize = image.len();
    if name > len as u64 || strsz > u64::MAX - name {
        return None;
    }
    let from: usize = name as usize;
    let end: usize = if strsz <= (len - from) as u64 {
        from + strsz as usize
    } else {
        len
    };
    let nul: usize = find_nul(image, from, end);
    let text = lossy(vstd::slice::slice_subrange(image, from, nul));
    let cs = chars_of(text.as_str());
    Some(same_chars(cs.as_slice(), symbol.as_slice()))
}

fn scan_relocations(base: u64, image: &[u8], symbol: &str, t: Tables, n: u64) -> (r: Option<
    Result<u64, GotError>,
>)
    ensures
        walk_result(slot_from(image@, base, t, symbol@, n as int, 0), symbol@, r),
{
    let name = chars_of(symbol);
    let mut i: u64 = 0;
    while i < n
        invariant
            i <= n,
            name@ == symbol@,
            slot_from(image@, base, t, symbol@, n as int, 0) == slot_from(
                image@,
                base,
                t,
                symbol@,
                n as int,
                i as int,
            ),
        decreases n - i,
    {
        assert(0 <= i * t.relaent <= 0xFFFF_FFFF_FFFF_FFFF * 0xFFFF_FFFF_FFFF_FFFF)
            by (nonlinear_arith)
            requires
                0 <= i <= 0xFFFF_FFFF_FFFF_FFFF,
                0 <= t.relaent <= 0xFFFF_FFFF_FFFF_FFFF,
        ;
        let step: u128 = i as u128 * t.relaent as u128;
        if step > u64::MAX as u128 || t.plt as u128 + step > u64::MAX as u128 {
            return None;
        }
        let re: u128 = t.plt as u128 + step;
        if !in_range(image, re, 24) {
            return Some(Err(GotError::NotFound(symbol.to_owned())));
        }
        let at: usize = re as usize;
        let slot: u64 = get_u64(image, at);
        let index: u64 = get_u64(image, at + 8) / 0x1_0000_0000;
        let sym: u128 = t.sym as u128 + index as u128 * 24;
        if sym > u64::MAX as u128 {
            return None;
        }
        if in_range(image, sym, 24) {
            let st_name: u32 = get_u32(image, sym as usize);
            if st_name as u64 > u64::MAX - t.str {
                return None;
            }
            match names_slot(image, t.str + st_name as u64, t.strsz, &name) {
                None => {
                    return None;
                },
                Some(true) => {
                    if slot > u64::MAX - base {
                        return None;
                    }
                    return Some(Ok(base + slot));
                },
                Some(false) => {},
            }
        }
        i = i + 1;
    }
    Some(Err(GotError::NotFound(symbol.to_owned())))
}

/// The page that holds an address.
pub fn page_of(addr: u64, page_size: u64) -> (page: u64)
    requires
        page_size > 0,
    ensures
        page == addr - addr % page_size,
{
    proof {
        vstd::arithmetic::div_mod::lemma_mod_decreases(addr as nat, page_size as nat);
    }
    addr - addr % page_size
}

} // verus!
