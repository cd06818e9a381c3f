//! Reading the memory map of a process.
use crate::numbers::{
    hex_or_zero, number_fault, read_hex_or_zero, read_number, NumberFault,
};
use crate::split::{lines, lines_of, pieces, split, texts, words, words_of};
use crate::text::{
    chars_of, contains, has_part, has_prefix, numeral_max, starts_with, string_of,
};
use vstd::prelude::*;
use vstd::string::*;

verus! {

/// Whether a line is that of an executable mapping.
pub open spec fn is_code_line(line: Seq<char>) -> bool {
    has_part(line, "r-xp"@) || has_part(line, "r-x"@)
}

/// The first word of a line; nothing where it has none.
pub open spec fn first_word(line: Seq<char>) -> Seq<char> {
    if words_of(line).len() > 0 {
        words_of(line)[0]
    } else {
        Seq::empty()
    }
}

/// The `i`th piece between hyphens as a number; zero where there is none.
pub open spec fn bound(range: Seq<char>, i: int) -> u64 {
    if i < pieces(range, '-').len() {
        hex_or_zero(pieces(range, '-')[i])
    } else {
        0
    }
}

/// Start and end of the mapping that a line speaks of.
pub open spec fn line_range(line: Seq<char>) -> (u64, u64) {
    (bound(first_word(line), 0), bound(first_word(line), 1))
}

/// Reads the start and the end of a mapping.
fn read_range(line: &Vec<char>) -> (r: (u64, u64))
    ensures
        r == line_range(line@),
{
    let ws = words(line.as_slice());
    let empty: Vec<char> = Vec::new();
    let first: &Vec<char> = if ws.len() > 0 {
        &ws[0]
    } else {
        &empty
    };
    assert(ws@.len() > 0 ==> first@ == texts(ws@)[0]);
    assert(first@ =~= first_word(line@));
    let ps = split(first.as_slice(), '-');
    let start: u64 = if ps.len() > 0 {
        assert(ps@[0]@ == texts(ps@)[0]);
        read_hex_or_zero(ps[0].as_slice())
    } else {
        0
    };
    let end: u64 = if ps.len() > 1 {
        assert(ps@[1]@ == texts(ps@)[1]);
        read_hex_or_zero(ps[1].as_slice())
    } else {
        0
    };
    (start, end)
}

fn code_line(line: &Vec<char>) -> (r: bool)
    ensures
        r == is_code_line(line@),
{
    contains(line.as_slice(), "r-xp") || contains(line.as_slice(), "r-x")
}

/// Whether an executable mapping of a line holds the address.
pub open spec fn line_holds(line: Seq<char>, addr: u64) -> bool {
    is_code_line(line) && line_range(line).0 <= addr < line_range(line).1
}

/// Whether some executable mapping holds the address.
pub open spec fn code_holds(maps: Seq<char>, addr: u64) -> bool {
    exists|i: int| 0 <= i < lines_of(maps).len() && line_holds(#[trigger] lines_of(maps)[i], addr)
}

/// Whether some executable mapping holds the address.
pub fn in_code(maps: &str, addr: u64) -> (r: bool)
    ensures
        r == code_holds(maps@, addr),
{
    let cs = chars_of(maps);
    let ls = lines(cs.as_slice());
    let mut i: usize = 0;
    while i < ls.len()
        invariant
            i <= ls@.len(),
            texts(ls@) == lines_of(maps@),
            forall|j: int| 0 <= j < i ==> !line_holds(#[trigger] lines_of(maps@)[j], addr),
        decreases ls@.len() - i,
    {
        assert(texts(ls@)[i as int] == ls@[i as int]@);
        if code_line(&ls[i]) {
            let (start, end) = read_range(&ls[i]);
            if addr >= start && addr < end {
                assert(line_holds(lines_of(maps@)[i as int], addr));
                return true;
            }
        }
        i = i + 1;
    }
    false
}

/// Whether a line is that of the code of the C library, the dynamic loader or its library.
pub open spec fn is_gadget_line(line: Seq<char>) -> bool {
    is_code_line(line) && (has_part(line, "libc.so"@) || has_part(line, "libdl.so"@) || has_part(
        line,
        "/linker"@,
    )) && line_range(line).0 < line_range(line).1
}

/// How much of a mapping is searched: two megabytes at most.
pub open spec fn searched(start: u64, end: u64) -> u64 {
    if end - start <= 0x20_0000 {
        (end - start) as u64
    } else {
        0x20_0000
    }
}

/// The places to search for instructions, from the `k`th line on: start and length.
pub open spec fn gadget_ranges(ls: Seq<Seq<char>>, k: int) -> Seq<(u64, u64)>
    decreases ls.len() - k,
{
    if k >= ls.len() {
        Seq::empty()
    } else if is_gadget_line(ls[k]) {
        let (start, end) = line_range(ls[k]);
        seq![(start, searched(start, end))] + gadget_ranges(ls, k + 1)
    } else {
        gadget_ranges(ls, k + 1)
    }
}

fn gadget_line(line: &Vec<char>) -> (r: Option<(u64, u64)>)
    ensures
        match r {
            Some((start, len)) => is_gadget_line(line@) && start == line_range(line@).0 && len
                == searched(line_range(line@).0, line_range(line@).1),
            None => !is_gadget_line(line@),
        },
{
    let s = line.as_slice();
    if !code_line(line) {
        return None;
    }
    if !(contains(s, "libc.so") || contains(s, "libdl.so") || contains(s, "/linker")) {
        return None;
    }
    let (start, end) = read_range(line);
    if end <= start {
        return None;
    }
    let len: u64 = if end - start <= 0x20_0000 {
        end - start
    } else {
        0x20_0000
    };
    Some((start, len))
}

/// Where to search for instructions: start and length of each place.
pub fn code_ranges(maps: &str) -> (out: Vec<(u64, u64)>)
    ensures
        out@ == gadget_ranges(lines_of(maps@), 0),
{
    let cs = chars_of(maps);
    let ls = lines(cs.as_slice());
    let mut out: Vec<(u64, u64)> = Vec::new();
    let mut i: usize = 0;
    let ghost all = lines_of(maps@);
    assert(out@ + gadget_ranges(all, 0) =~= gadget_ranges(all, 0));
    while i < ls.len()
        invariant
            i <= ls@.len(),
            texts(ls@) == all,
            all == lines_of(maps@),
            out@ + gadget_ranges(all, i as int) == gadget_ranges(all, 0),
        decreases ls@.len() - i,
    {
        assert(texts(ls@)[i as int] == ls@[i as int]@);
        let ghost before = out@;
        let ghost later = gadget_ranges(all, i + 1);
        match gadget_line(&ls[i]) {
            Some(p) => {
                out.push(p);
                assert(gadget_ranges(all, i as int) == seq![p] + later);
                assert(before.push(p) + later =~= before + (seq![p] + later));
            },
            None => {},
        }
        i = i + 1;
    }
    assert(out@ =~= out@ + gadget_ranges(all, i as int));
    out
}

/// The last mapping of the C library's code that holds more than one instruction, among the
/// first `k` lines.
pub open spec fn last_libc(ls: Seq<Seq<char>>, k: int) -> Option<(u64, u64)>
    decreases k,
{
    if k <= 0 {
        None
    } else {
        let line = ls[k - 1];
        let (start, end) = line_range(line);
        if is_code_line(line) && has_part(line, "libc.so"@) && end > start + 4 {
            Some((start, end))
        } else {
            last_libc(ls, k - 1)
        }
    }
}

/// The last mapping of the C library's code.
pub fn libc_code(maps: &str) -> (r: Option<(u64, u64)>)
    ensures
        r == last_libc(lines_of(maps@), lines_of(maps@).len() as int),
{
    let cs = chars_of(maps);
    let ls = lines(cs.as_slice());
    let mut best: Option<(u64, u64)> = None;
    let mut i: usize = 0;
    while i < ls.len()
        invariant
            i <= ls@.len(),
            texts(ls@) == lines_of(maps@),
            best == last_libc(lines_of(maps@), i as int),
        decreases ls@.len() - i,
    {
        assert(texts(ls@)[i as int] == ls@[i as int]@);
        if code_line(&ls[i]) && contains(ls[i].as_slice(), "libc.so") {
            let (start, end) = read_range(&ls[i]);
            if end > start && end - start > 4 {
                best = Some((start, end));
            }
        }
        i = i + 1;
    }
    best
}

/// Where a shared object is loaded.
#[derive(Debug)]
pub enum SoPlace {
    /// Its load bias and its path.
    At(u64, String),
    /// An address that is no number.
    Bad(NumberFault),
    Absent,
}

/// The same, as contracts speak of it.
pub enum SoFound {
    At(u64, Seq<char>),
    Bad(NumberFault),
    Absent,
}

impl View for SoPlace {
    type V = SoFound;

    open spec fn view(&self) -> SoFound {
        match self {
            SoPlace::At(bias, path) => SoFound::At(*bias, path@),
            SoPlace::Bad(f) => SoFound::Bad(*f),
            SoPlace::Absent => SoFound::Absent,
        }
    }
}

/// The texts of some literals.
pub open spec fn literals(v: Seq<&'static str>) -> Seq<Seq<char>> {
    v.map_values(|s: &'static str| s@)
}

/// Whether some needle occurs in a path.
pub open spec fn named(path: Seq<char>, needles: Seq<Seq<char>>) -> bool {
    exists|i: int| 0 <= i < needles.len() && has_part(path, #[trigger] needles[i])
}

/// The last word of a line.
pub open spec fn last_word(line: Seq<char>) -> Seq<char> {
    if words_of(line).len() > 0 {
        words_of(line).last()
    } else {
        Seq::empty()
    }
}

/// The file offset of a mapping as it is written; zero where the line has none.
pub open spec fn offset_text(line: Seq<char>) -> Seq<char> {
    if words_of(line).len() > 2 {
        words_of(line)[2]
    } else {
        "0"@
    }
}

/// What one line says of a shared object: nothing (`None`), or where it is loaded.
pub open spec fn so_line(line: Seq<char>, needles: Seq<Seq<char>>) -> Option<SoFound> {
    let path = last_word(line);
    let start = pieces(first_word(line), '-')[0];
    let off = offset_text(line);
    if !(path.len() > 0 && path[0] == '/') || !named(path, needles) {
        None
    } else if number_fault(start, 16, u64::MAX as nat) is Some {
        Some(SoFound::Bad(number_fault(start, 16, u64::MAX as nat).unwrap()))
    } else if number_fault(off, 16, u64::MAX as nat) is Some {
        Some(SoFound::Bad(number_fault(off, 16, u64::MAX as nat).unwrap()))
    } else if hex_or_zero(start) < hex_or_zero(off) {
        None
    } else {
        Some(SoFound::At((hex_or_zero(start) - hex_or_zero(off)) as u64, path))
    }
}

/// Where a shared object is loaded: what the first line that speaks of it says, from the `k`th
/// on.
pub open spec fn so_place(ls: Seq<Seq<char>>, needles: Seq<Seq<char>>, k: int) -> SoFound
    decreases ls.len() - k,
{
    if k >= ls.len() {
        SoFound::Absent
    } else {
        match so_line(ls[k], needles) {
            Some(p) => p,
            None => so_place(ls, needles, k + 1),
        }
    }
}

fn is_named(path: &Vec<char>, needles: &[&'static str]) -> (r: bool)
    ensures
        r == named(path@, literals(needles@)),
{
    let mut i: usize = 0;
    while i < needles.len()
        invariant
            i <= needles@.len(),
            forall|j: int| 0 <= j < i ==> !has_part(path@, #[trigger] literals(needles@)[j]),
        decreases needles@.len() - i,
    {
        assert(literals(needles@)[i as int] == needles@[i as int]@);
        if contains(path.as_slice(), needles[i]) {
            assert(has_part(path@, literals(needles@)[i as int]));
            return true;
        }
        i = i + 1;
    }
    false
}

fn read_so_line(line: &Vec<char>, needles: &[&'static str]) -> (r: Option<SoPlace>)
    ensures
        match r {
            Some(p) => so_line(line@, literals(needles@)) == Some(p@),
            None => so_line(line@, literals(needles@)) is None,
        },
{
    let ws = words(line.as_slice());
    if ws.len() == 0 {
        return None;
    }
    let n: usize = ws.len();
    assert(texts(ws@)[n - 1] == ws@[n - 1]@);
    assert(texts(ws@)[0] == ws@[0]@);
    let path = &ws[n - 1];
    if path.len() == 0 || path[0] != '/' {
        return None;
    }
    if !is_named(path, needles) {
        return None;
    }
    let ps = split(ws[0].as_slice(), '-');
    assert(texts(ps@)[0] == ps@[0]@);
    proof {
        crate::numbers::law_fault_iff_no_number(ps@[0]@, 16, u64::MAX as nat);
        crate::numbers::law_fault_iff_no_number(offset_text(line@), 16, u64::MAX as nat);
    }
    let start: u64 = match read_number(ps[0].as_slice(), 16, u64::MAX) {
        Ok(v) => v,
        Err(f) => {
            return Some(SoPlace::Bad(f));
        },
    };
    let zero = chars_of("0");
    let off_text: &Vec<char> = if n > 2 {
        assert(texts(ws@)[2] == ws@[2]@);
        &ws[2]
    } else {
        &zero
    };
    let off: u64 = match read_number(off_text.as_slice(), 16, u64::MAX) {
        Ok(v) => v,
        Err(f) => {
            return Some(SoPlace::Bad(f));
        },
    };
    if start < off {
        return None;
    }
    let p = SoPlace::At(start - off, string_of(path.as_slice()));
    assert(p@ == so_line(line@, literals(needles@)).unwrap());
    Some(p)
}

/// Finds where the shared object with one of some names is loaded.
pub fn find_so(maps: &str, needles: &[&'static str]) -> (r: SoPlace)
    ensures
        r@ == so_place(lines_of(maps@), literals(needles@), 0),
{
    let cs = chars_of(maps);
    let ls = lines(cs.as_slice());
    let mut i: usize = 0;
    while i < ls.len()
        invariant
            i <= ls@.len(),
            texts(ls@) == lines_of(maps@),
            so_place(lines_of(maps@), literals(needles@), 0) == so_place(
                lines_of(maps@),
                literals(needles@),
                i as int,
            ),
        decreases ls@.len() - i,
    {
        assert(texts(ls@)[i as int] == ls@[i as int]@);
        match read_so_line(&ls[i], needles) {
            Some(p) => {
                return p;
            },
            None => {},
        }
        i = i + 1;
    }
    SoPlace::Absent
}

/// Load bias and path of the runtime library from the `k`th line on, where what was found
/// before is given. A line with its name that cannot be read ends the search.
pub open spec fn libart_from(
    ls: Seq<Seq<char>>,
    k: int,
    bias: Option<u64>,
    path: Option<Seq<char>>,
) -> Option<(u64, Seq<char>)>
    decreases ls.len() - k,
{
    if bias is Some && path is Some {
        Some((bias.unwrap(), path.unwrap()))
    } else if k >= ls.len() {
        None
    } else if !has_part(ls[k], "libart.so"@) {
        libart_from(ls, k + 1, bias, path)
    } else {
        let ws = words_of(ls[k]);
        let start = numeral_max(pieces(first_word(ls[k]), '-')[0], 16, u64::MAX as nat);
        if ws.len() < 3 || start is None || numeral_max(ws[2], 16, u64::MAX as nat) is None {
            None
        } else {
            let off = numeral_max(ws[2], 16, u64::MAX as nat).unwrap();
            let next_bias = if start.unwrap() >= off {
                Some((start.unwrap() - off) as u64)
            } else {
                bias
            };
            let next_path = if ws.len() > 3 && has_prefix(ws.last(), "/"@) {
                Some(ws.last())
            } else {
                path
            };
            libart_from(ls, k + 1, next_bias, next_path)
        }
    }
}

/// The view of a path that may be missing.
pub open spec fn path_view(p: Option<String>) -> Option<Seq<char>> {
    match p {
        Some(s) => Some(s@),
        None => None,
    }
}

/// What a line of the runtime library says: its start less its offset, where that is not
/// negative, and its path, where it has one. `None` where the line cannot be read.
fn read_libart_line(line: &Vec<char>) -> (r: Option<(Option<u64>, Option<String>)>)
    ensures
        ({
            let ws = words_of(line@);
            let start = numeral_max(pieces(first_word(line@), '-')[0], 16, u64::MAX as nat);
            let off = numeral_max(ws[2], 16, u64::MAX as nat);
            match r {
                None => ws.len() < 3 || start is None || off is None,
                Some((bias, path)) => ws.len() >= 3 && start is Some && off is Some && bias == (
                if start.unwrap() >= off.unwrap() {
                    Some((start.unwrap() - off.unwrap()) as u64)
                } else {
                    None
                }) && path_view(path) == (if ws.len() > 3 && has_prefix(ws.last(), "/"@) {
                    Some(ws.last())
                } else {
                    None
                }),
            }
        }),
{
    let ws = words(line.as_slice());
    let n: usize = ws.len();
    if n < 3 {
        return None;
    }
    assert(texts(ws@)[n - 1] == ws@[n - 1]@);
    assert(texts(ws@)[0] == ws@[0]@);
    assert(texts(ws@)[2] == ws@[2]@);
    let ps = split(ws[0].as_slice(), '-');
    assert(texts(ps@)[0] == ps@[0]@);
    let off: u64 = match crate::text::parse_number(ws[2].as_slice(), 16, u64::MAX) {
        Some(v) => v,
        None => {
            return None;
        },
    };
    let start: u64 = match crate::text::parse_number(ps[0].as_slice(), 16, u64::MAX) {
        Some(v) => v,
        None => {
            return None;
        },
    };
    let bias: Option<u64> = if start >= off {
        Some(start - off)
    } else {
        None
    };
    let path: Option<String> = if n > 3 && starts_with(ws[n - 1].as_slice(), "/") {
        Some(string_of(ws[n - 1].as_slice()))
    } else {
        None
    };
    Some((bias, path))
}

/// Finds load bias and path of the runtime library.
pub fn find_libart(maps: &str) -> (r: Option<(u64, String)>)
    ensures
        match r {
            Some((bias, path)) => libart_from(lines_of(maps@), 0, None, None) == Some(
                (bias, path@),
            ),
            None => libart_from(lines_of(maps@), 0, None, None) is None,
        },
{
    let cs = chars_of(maps);
    let ls = lines(cs.as_slice());
    let mut bias: Option<u64> = None;
    let mut path: Option<String> = None;
    let mut i: usize = 0;
    while i < ls.len() && !(bias.is_some() && path.is_some())
        invariant
            i <= ls@.len(),
            texts(ls@) == lines_of(maps@),
            libart_from(lines_of(maps@), 0, None, None) == libart_from(
                lines_of(maps@),
                i as int,
                bias,
                path_view(path),
            ),
        decreases ls@.len() - i,
    {
        assert(texts(ls@)[i as int] == ls@[i as int]@);
        if contains(ls[i].as_slice(), "libart.so") {
            match read_libart_line(&ls[i]) {
                None => {
                    return None;
                },
                Some((b, p)) => {
                    if b.is_some() {
                        bias = b;
                    }
                    if p.is_some() {
                        path = p;
                    }
                },
            }
        }
        i = i + 1;
    }
    match (bias, path) {
        (Some(b), Some(p)) => Some((b, p)),
        _ => None,
    }
}

} // verus!
