//! What the text of a traced system call says.
use crate::bytes::quad_at;
use crate::elf::{nul_from, utf8_lossy};
use crate::remote::hex_of;
use crate::split::{pieces, place_of};
use crate::syscall_format::{
    byte_escape, call_text, dump_len, escaped, escaped_char, form_of, format_bytes_literal,
    format_sockaddr, format_syscall_call, hex_args, is_inbound, is_plain, list_len, literal,
    mostly_text, path_or_hex, printables, shorter_read, shown_bytes, string_at, text_byte,
    unix_address, vector_part, vector_take, Form, Readings,
};
use crate::syscall_trace::{
    report_line, wait_any, wake_of, AnyWait, Report, Tracer, TracerState, Wake,
};
use crate::syscall_names::call_name;
use crate::text::{
    decimal, has_part, has_prefix, has_suffix, hex_digit, hexadecimal, is_control, joined, numeral,
    signed_decimal,
};
use crate::text_laws::{
    integer_of, is_hex_digit, lacks, law_decimal_reads_back, law_hexadecimal_reads_back,
    law_signed_reads_back, law_split_undoes_join, lemma_decimal_lacks, lemma_four_pieces,
    lemma_pieces_first, lemma_place_of_first,
};
use vstd::prelude::*;
use vstd::string::*;

verus! {

/// What stands in a text from a place on up to its last character.
pub open spec fn inside_braces(s: Seq<char>, head: int) -> Seq<char> {
    s.subrange(head, s.len() - 1)
}

/// Reading the text of an IPv4 address back gives the address: behind `{AF_INET,` and before the
/// closing brace, the text splits at the colon into host and port and the host at the dots into
/// the four bytes in their order, and the port is the big-endian one.
pub proof fn law_ipv4_reads_back(buf: &Vec<u8>, s: String)
    requires
        call_ensures(format_sockaddr, (buf,), s),
        buf@.len() >= 8,
        buf@[0] == 2,
        buf@[1] == 0,
    ensures
        ({
            let parts = pieces(inside_braces(s@, 9), ':');
            let host = pieces(parts[0], '.');
            &&& has_prefix(s@, "{AF_INET,"@)
            &&& s@.last() == '}'
            &&& parts.len() == 2
            &&& host.len() == 4
            &&& numeral(host[0], 10) == Some(buf@[4] as nat)
            &&& numeral(host[1], 10) == Some(buf@[5] as nat)
            &&& numeral(host[2], 10) == Some(buf@[6] as nat)
            &&& numeral(host[3], 10) == Some(buf@[7] as nat)
            &&& numeral(parts[1], 10) == Some((256 * buf@[2] + buf@[3]) as nat)
        }),
{
    let b = buf@;
    let d0 = decimal(b[4] as nat);
    let d1 = decimal(b[5] as nat);
    let d2 = decimal(b[6] as nat);
    let d3 = decimal(b[7] as nat);
    let n = (b[2] * 256 + b[3]) as nat;
    let port = decimal(n);
    let dot = seq!['.'];
    let host = d0 + dot + (d1 + dot + (d2 + dot + d3));
    lemma_inet_text(d0, d1, d2, d3, port, s@);
    law_decimal_reads_back(b[4] as nat);
    law_decimal_reads_back(b[5] as nat);
    law_decimal_reads_back(b[6] as nat);
    law_decimal_reads_back(b[7] as nat);
    law_decimal_reads_back(n);
    assert(pieces(inside_braces(s@, 9), ':') == seq![host, port]) by {
        assert(lacks(host, ':'));
        assert(lacks(port, ':'));
        lemma_pieces_first(port, Seq::empty(), ':');
        lemma_pieces_first(host, port, ':');
        assert(seq![host] + seq![port] =~= seq![host, port]);
    }
    lemma_four_pieces(d0, d1, d2, d3, '.');
}

proof fn lemma_inet_text(
    d0: Seq<char>,
    d1: Seq<char>,
    d2: Seq<char>,
    d3: Seq<char>,
    port: Seq<char>,
    s: Seq<char>,
)
    requires
        s == "{AF_INET,"@ + d0 + "."@ + d1 + "."@ + d2 + "."@ + d3 + ":"@ + port + "}"@,
    ensures
        has_prefix(s, "{AF_INET,"@),
        s.last() == '}',
        ({
            let dot = seq!['.'];
            let host = d0 + dot + (d1 + dot + (d2 + dot + d3));
            inside_braces(s, 9) == host + seq![':'] + port
        }),
{
    reveal_strlit("{AF_INET,");
    reveal_strlit(".");
    reveal_strlit(":");
    reveal_strlit("}");
    let dot = seq!['.'];
    let host = d0 + dot + (d1 + dot + (d2 + dot + d3));
    assert(inside_braces(s, 9) =~= host + seq![':'] + port);
    assert(s.take(9) =~= "{AF_INET,"@);
}

/// The text of an IPv6 address tells its port, and that of a short address of either family is
/// marked as cut.
pub proof fn law_ipv6_port_reads_back(buf: &Vec<u8>, s: String)
    requires
        call_ensures(format_sockaddr, (buf,), s),
        buf@.len() >= 24,
        buf@[0] == 10,
        buf@[1] == 0,
    ensures
        has_prefix(s@, "{AF_INET6,port="@),
        s@.last() == '}',
        numeral(inside_braces(s@, 15), 10) == Some((256 * buf@[2] + buf@[3]) as nat),
{
    reveal_strlit("{AF_INET6,port=");
    reveal_strlit("}");
    let port = decimal((buf@[2] * 256 + buf@[3]) as nat);
    law_decimal_reads_back((buf@[2] * 256 + buf@[3]) as nat);
    assert(inside_braces(s@, 15) =~= port);
    assert(s@.take(15) =~= "{AF_INET6,port="@);
}

/// A number in hexadecimal reads back behind its `0x`.
pub proof fn law_hex_reads_back(n: u64)
    ensures
        has_prefix(hex_of(n), "0x"@),
        numeral(hex_of(n).skip(2), 16) == Some(n as nat),
        hex_of(n).len() > 2,
        lacks(hex_of(n), ','),
        lacks(hex_of(n), ' '),
        lacks(hex_of(n), '('),
        lacks(hex_of(n), ')'),
        lacks(hex_of(n), '"'),
{
    reveal_strlit("0x");
    law_hexadecimal_reads_back(n as nat);
    let h = hexadecimal(n as nat);
    assert(hex_of(n).skip(2) =~= h);
    assert(hex_of(n).take(2) =~= "0x"@);
    assert forall|i: int| 0 <= i < hex_of(n).len() implies is_hex_digit(#[trigger] hex_of(n)[i])
        || hex_of(n)[i] == 'x' by {
        if i >= 2 {
            assert(hex_of(n)[i] == h[i - 2]);
        }
    }
}

proof fn lemma_longer(s: Seq<char>, more: Seq<char>, head: Seq<char>)
    requires
        has_prefix(s, head),
    ensures
        has_prefix(s + more, head),
{
    assert((s + more).take(head.len() as int) =~= s.take(head.len() as int));
}

proof fn lemma_starts(head: Seq<char>, more: Seq<char>)
    ensures
        has_prefix(head + more, head),
{
    assert((head + more).take(head.len() as int) =~= head);
}

/// A text that starts with a name and an opening bracket, made longer.
spec fn opens(s: Seq<char>, name: Seq<char>) -> bool {
    has_prefix(s, name + "("@)
}

proof fn lemma_opens_longer(name: Seq<char>)
    ensures
        forall|s: Seq<char>, more: Seq<char>|
            opens(s, name) ==> #[trigger] opens(s + more, name),
{
    assert forall|s: Seq<char>, more: Seq<char>| opens(s, name) implies #[trigger] opens(
        s + more,
        name,
    ) by {
        lemma_longer(s, more, name + "("@);
    }
}

proof fn lemma_opens_literal(name: Seq<char>, lit: Seq<char>, rest: Seq<char>)
    requires
        lit == name + "("@ + rest,
    ensures
        opens(lit, name),
{
    lemma_starts(name + "("@, rest);
}

/// A system call is shown as its name and something in brackets.
pub proof fn law_call_shows_its_name(
    mem: Readings,
    name: Seq<char>,
    a: Seq<u64>,
    retval: Option<i64>,
)
    ensures
        has_prefix(call_text(mem, name, a, retval), name + "("@),
        call_text(mem, name, a, retval).last() == ')',
{
    lemma_opens_longer(name);
    assert(opens(name + "("@, name)) by {
        lemma_starts(name + "("@, Seq::empty());
        assert(name + "("@ + Seq::<char>::empty() =~= name + "("@);
    }
    let t = call_text(mem, name, a, retval);
    match form_of(name) {
        Form::PathFirst => {
            assert(opens(name + "(\""@, name)) by {
                reveal_strlit("(");
                reveal_strlit("(\"");
                assert(name + "(\""@ =~= name + "("@ + seq!['"']);
                lemma_opens_literal(name, name + "(\""@, seq!['"']);
            }
        },
        Form::Seek => {
            assert(name == "lseek"@);
            assert(opens("lseek("@, name)) by {
                reveal_strlit("(");
                reveal_strlit("lseek");
                reveal_strlit("lseek(");
                assert("lseek("@ =~= name + "("@ + Seq::<char>::empty());
                lemma_opens_literal(name, "lseek("@, Seq::empty());
            }
        },
        Form::Socket => {
            assert(name == "socket"@);
            assert(opens("socket(domain="@, name)) by {
                reveal_strlit("(");
                reveal_strlit("socket");
                reveal_strlit("socket(domain=");
                let rest = "socket(domain="@.skip(7);
                assert("socket(domain="@ =~= name + "("@ + rest);
                lemma_opens_literal(name, "socket(domain="@, rest);
            }
        },
        Form::Clone => {
            assert(name == "clone"@);
            assert(opens("clone(flags="@, name)) by {
                reveal_strlit("(");
                reveal_strlit("clone");
                reveal_strlit("clone(flags=");
                let rest = "clone(flags="@.skip(6);
                assert("clone(flags="@ =~= name + "("@ + rest);
                lemma_opens_literal(name, "clone(flags="@, rest);
            }
        },
        Form::Futex => {
            assert(name == "futex"@);
            assert(opens("futex("@, name)) by {
                reveal_strlit("(");
                reveal_strlit("futex");
                reveal_strlit("futex(");
                assert("futex("@ =~= name + "("@ + Seq::<char>::empty());
                lemma_opens_literal(name, "futex("@, Seq::empty());
            }
        },
        _ => {},
    }
    assert(opens(t, name));
    assert(t.last() == ')') by {
        reveal_strlit(")");
        reveal_strlit(", \u{2026})");
    }
}

/// A text in quotes read from behind its opening quote up to the closing one.
pub open spec fn quoted_read(s: Seq<char>) -> Seq<char>
    decreases s.len(),
{
    if s.len() == 0 || s[0] == '"' {
        Seq::empty()
    } else if s[0] != '\\' || s.len() < 2 {
        seq![s[0]] + quoted_read(s.skip(1))
    } else if s[1] == 'n' {
        seq!['\n'] + quoted_read(s.skip(2))
    } else if s[1] == 'r' {
        seq!['\r'] + quoted_read(s.skip(2))
    } else if s[1] == 't' {
        seq!['\t'] + quoted_read(s.skip(2))
    } else if s[1] == 'x' && s.len() >= 4 {
        seq![(hex_value(s[2]) * 16 + hex_value(s[3])) as char] + quoted_read(s.skip(4))
    } else {
        seq![s[1]] + quoted_read(s.skip(2))
    }
}

proof fn lemma_quoted_one(c: char, rest: Seq<char>)
    ensures
        quoted_read(escaped_char(c) + rest) == seq![c] + quoted_read(rest),
{
    reveal_strlit("\\\\");
    reveal_strlit("\\\"");
    reveal_strlit("\\n");
    reveal_strlit("\\r");
    reveal_strlit("\\t");
    reveal_strlit("\\x");
    let e = escaped_char(c);
    let s = e + rest;
    assert(s.skip(e.len() as int) =~= rest);
    if is_control(c) && c != '\n' && c != '\r' && c != '\t' {
        let n = c as int;
        lemma_hex_value((n / 16) as nat);
        lemma_hex_value((n % 16) as nat);
        assert(e.len() == 4);
        assert(s[2] == hex_digit((n / 16) as nat));
        assert(s[3] == hex_digit((n % 16) as nat));
        assert((n / 16) * 16 + n % 16 == n);
    }
}

/// A path or a text that is shown in quotes reads back up to the closing one.
pub proof fn law_quoted_reads_back(s: Seq<char>, rest: Seq<char>)
    ensures
        quoted_read(escaped(s) + seq!['"'] + rest) == s,
    decreases s.len(),
{
    let t = escaped(s) + seq!['"'] + rest;
    if s.len() == 0 {
        assert(t[0] == '"');
    } else {
        lemma_escaped_first(s);
        let more = escaped(s.skip(1)) + seq!['"'] + rest;
        assert(t =~= escaped_char(s[0]) + more);
        lemma_quoted_one(s[0], more);
        law_quoted_reads_back(s.skip(1), rest);
        assert(seq![s[0]] + s.skip(1) =~= s);
    }
}

/// The first quote of a text that starts without one.
proof fn lemma_first_quote(a: Seq<char>, rest: Seq<char>)
    requires
        lacks(a, '"'),
    ensures
        place_of(a + seq!['"'] + rest, '"', 0) == a.len(),
        (a + seq!['"'] + rest).skip(a.len() as int + 1) == rest,
{
    lemma_place_of_first(a, rest, '"', 0);
    assert((a + seq!['"'] + rest).skip(a.len() as int + 1) =~= rest);
}

/// What a call shows in its first quotes.
pub open spec fn first_quoted(t: Seq<char>) -> Seq<char> {
    quoted_read(t.skip(place_of(t, '"', 0) + 1))
}

/// A call that takes a path shows it in quotes, from its first or its second argument as the call
/// has it.
pub proof fn law_path_reads_back(
    mem: &Readings,
    name: &str,
    args: &[u64; 6],
    retval: Option<i64>,
    s: String,
)
    requires
        call_ensures(format_syscall_call, (mem, name, args, retval), s),
        lacks(name@, '"'),
    ensures
        form_of(name@) is PathFirst ==> first_quoted(s@) == path_or_hex(*mem, args@[0]),
        form_of(name@) is PathSecond ==> first_quoted(s@) == path_or_hex(*mem, args@[1]),
{
    match form_of(name@) {
        Form::PathFirst => {
            let p = path_or_hex(*mem, args@[0]);
            reveal_strlit("(\"");
            reveal_strlit("\", ");
            let a = name@ + seq!['('];
            let rest = hex_of(args@[1]) + ", "@ + hex_of(args@[2]) + ", "@ + hex_of(args@[3])
                + ")"@;
            assert(s@ =~= a + seq!['"'] + escaped(p) + "\", "@ + rest);
            lemma_path_text(a, p, rest, s@);
        },
        Form::PathSecond => {
            let p = path_or_hex(*mem, args@[1]);
            reveal_strlit("(");
            reveal_strlit(", \"");
            law_hex_reads_back(args@[0]);
            let a = name@ + seq!['('] + hex_of(args@[0]) + seq![',', ' '];
            assert(lacks(a, '"'));
            let rest = hex_of(args@[2]) + ", "@ + hex_of(args@[3]) + ")"@;
            assert(s@ =~= a + seq!['"'] + escaped(p) + "\", "@ + rest);
            lemma_path_text(a, p, rest, s@);
        },
        _ => {},
    }
}

proof fn lemma_path_text(a: Seq<char>, p: Seq<char>, rest: Seq<char>, s: Seq<char>)
    requires
        lacks(a, '"'),
        s == a + seq!['"'] + escaped(p) + "\", "@ + rest,
    ensures
        first_quoted(s) == p,
{
    reveal_strlit("\", ");
    let more = seq![',', ' '] + rest;
    assert(s =~= a + seq!['"'] + (escaped(p) + seq!['"'] + more));
    lemma_first_quote(a, escaped(p) + seq!['"'] + more);
    law_quoted_reads_back(p, more);
}

/// The arguments of a call that has no form of its own are shown in their order: split at the
/// commas, what stands in the brackets gives them back.
pub proof fn law_plain_arguments_read_back(
    mem: Readings,
    name: Seq<char>,
    a: Seq<u64>,
    retval: Option<i64>,
    n: usize,
    k: int,
)
    requires
        a.len() == 6,
        form_of(name) == Form::Plain(n),
        0 <= k < n <= 6,
    ensures
        ({
            let t = call_text(mem, name, a, retval);
            let shown = pieces(t.subrange(name.len() as int + 1, t.len() - 1), ',');
            &&& shown.len() == n
            &&& shown[0] == hex_of(a[0])
            &&& k > 0 ==> shown[k] == seq![' '] + hex_of(a[k])
        }),
{
    reveal_strlit("(");
    reveal_strlit(")");
    reveal_strlit(", ");
    let t = call_text(mem, name, a, retval);
    let parts = hex_args(a, n as nat);
    let list = joined(parts, ", "@);
    assert(t.subrange(name.len() as int + 1, t.len() - 1) =~= list);
    assert forall|i: int| 0 <= i < parts.len() implies lacks(#[trigger] parts[i], ',') by {
        law_hex_reads_back(a[i]);
    }
    lemma_spaced_pieces(parts);
}

/// Parts as they stand behind a comma and a space: all but the first with the space.
spec fn spaced(parts: Seq<Seq<char>>) -> Seq<Seq<char>> {
    Seq::new(
        parts.len(),
        |i: int|
            if i == 0 {
                parts[0]
            } else {
                seq![' '] + parts[i]
            },
    )
}

proof fn lemma_spaced_pieces(parts: Seq<Seq<char>>)
    requires
        parts.len() > 0,
        forall|i: int| 0 <= i < parts.len() ==> lacks(#[trigger] parts[i], ','),
    ensures
        pieces(joined(parts, ", "@), ',') == spaced(parts),
{
    reveal_strlit(", ");
    let all = spaced(parts);
    assert forall|i: int| 0 <= i < all.len() implies lacks(#[trigger] all[i], ',') by {
        assert(lacks(parts[i], ','));
    }
    law_split_undoes_join(all, ',');
    lemma_joined_spaced(parts);
}

proof fn lemma_joined_spaced(parts: Seq<Seq<char>>)
    requires
        parts.len() > 0,
    ensures
        joined(parts, ", "@) == joined(spaced(parts), seq![',']),
    decreases parts.len(),
{
    reveal_strlit(", ");
    if parts.len() > 1 {
        let init = parts.drop_last();
        lemma_joined_spaced(init);
        assert(spaced(parts).drop_last() =~= spaced(init));
        let n = parts.len() - 1;
        assert(spaced(parts).last() == seq![' '] + parts[n]);
        assert(joined(parts, ", "@) =~= joined(spaced(init), seq![',']) + seq![',']
            + spaced(parts).last());
    }
}

/// The value of a hexadecimal digit in small letters.
pub open spec fn hex_value(c: char) -> int {
    if c <= '9' {
        c as int - 48
    } else {
        c as int - 87
    }
}

proof fn lemma_hex_value(d: nat)
    requires
        d < 16,
    ensures
        hex_value(hex_digit(d)) == d,
        is_hex_digit(hex_digit(d)),
{
}

proof fn lemma_escaped_first(s: Seq<char>)
    requires
        s.len() > 0,
    ensures
        escaped(s) == escaped_char(s[0]) + escaped(s.skip(1)),
    decreases s.len(),
{
    if s.len() == 1 {
        assert(s.drop_last() =~= Seq::<char>::empty());
        assert(s.skip(1) =~= Seq::<char>::empty());
        assert(escaped(s) =~= escaped_char(s[0]) + escaped(s.skip(1)));
    } else {
        let init = s.drop_last();
        lemma_escaped_first(init);
        assert(s.skip(1).drop_last() =~= init.skip(1));
        assert(s.skip(1).last() == s.last());
        assert(escaped(s) =~= escaped_char(s[0]) + escaped(s.skip(1)));
    }
}

/// The bytes as characters, one for each.
pub open spec fn as_chars(buf: Seq<u8>) -> Seq<char> {
    buf.map_values(|b: u8| b as char)
}

proof fn lemma_quoted_byte(b: u8, text: bool, rest: Seq<char>)
    ensures
        ({
            let e = if text {
                text_byte(b)
            } else {
                byte_escape(b as int)
            };
            quoted_read(e + rest) == seq![b as char] + quoted_read(rest)
        }),
{
    reveal_strlit("\\\\");
    reveal_strlit("\\\"");
    reveal_strlit("\\n");
    reveal_strlit("\\r");
    reveal_strlit("\\t");
    reveal_strlit("\\x");
    let e = if text {
        text_byte(b)
    } else {
        byte_escape(b as int)
    };
    let s = e + rest;
    assert(s.skip(e.len() as int) =~= rest);
    let n = b as int;
    lemma_hex_value((n / 16) as nat);
    lemma_hex_value((n % 16) as nat);
    assert((n / 16) * 16 + n % 16 == n);
    if e == byte_escape(n) {
        assert(s[2] == hex_digit((n / 16) as nat));
        assert(s[3] == hex_digit((n % 16) as nat));
    }
}

proof fn lemma_shown_first(buf: Seq<u8>, text: bool)
    requires
        buf.len() > 0,
    ensures
        shown_bytes(buf, text) == (if text {
            text_byte(buf[0])
        } else {
            byte_escape(buf[0] as int)
        }) + shown_bytes(buf.skip(1), text),
    decreases buf.len(),
{
    let e = if text {
        text_byte(buf[0])
    } else {
        byte_escape(buf[0] as int)
    };
    if buf.len() == 1 {
        assert(buf.drop_last() =~= Seq::<u8>::empty());
        assert(buf.skip(1) =~= Seq::<u8>::empty());
        assert(shown_bytes(buf, text) =~= e + shown_bytes(buf.skip(1), text));
    } else {
        let init = buf.drop_last();
        lemma_shown_first(init, text);
        assert(buf.skip(1).drop_last() =~= init.skip(1));
        assert(buf.skip(1).last() == buf.last());
        assert(shown_bytes(buf, text) =~= e + shown_bytes(buf.skip(1), text));
    }
}

proof fn lemma_shown_reads_back(buf: Seq<u8>, text: bool, rest: Seq<char>)
    ensures
        quoted_read(shown_bytes(buf, text) + seq!['"'] + rest) == as_chars(buf),
    decreases buf.len(),
{
    let t = shown_bytes(buf, text) + seq!['"'] + rest;
    if buf.len() > 0 {
        lemma_shown_first(buf, text);
        let e = if text {
            text_byte(buf[0])
        } else {
            byte_escape(buf[0] as int)
        };
        let more = shown_bytes(buf.skip(1), text) + seq!['"'] + rest;
        assert(t =~= e + more);
        lemma_quoted_byte(buf[0], text, more);
        lemma_shown_reads_back(buf.skip(1), text, rest);
        assert(seq![buf[0] as char] + as_chars(buf.skip(1)) =~= as_chars(buf));
    } else {
        assert(t[0] == '"');
        assert(as_chars(buf) =~= Seq::<char>::empty());
    }
}

/// What is shown of a buffer reads back as its bytes up to the closing quote, whether it is shown
/// as text or in numbers; a buffer that goes on ends in an ellipsis.
pub proof fn law_buffer_reads_back(buf: &[u8], truncated: bool, s: String)
    requires
        call_ensures(format_bytes_literal, (buf, truncated), s),
    ensures
        s@[0] == '"',
        quoted_read(s@.skip(1)) == as_chars(buf@),
        s@.last() == if truncated {
            '\u{2026}'
        } else {
            '"'
        },
{
    reveal_strlit("\"");
    reveal_strlit("\u{2026}");
    let more = if truncated {
        "\u{2026}"@
    } else {
        Seq::empty()
    };
    lemma_shown_reads_back(buf@, mostly_text(buf@), more);
    assert(s@.skip(1) =~= shown_bytes(buf@, mostly_text(buf@)) + seq!['"'] + more);
    assert(s@[0] == '"');
}

/// A call that moves a buffer shows what was read of it at its second argument, as long as the
/// call says, in its first quotes.
pub proof fn law_moved_buffer_reads_back(
    mem: &Readings,
    name: &str,
    args: &[u64; 6],
    retval: Option<i64>,
    s: String,
)
    requires
        call_ensures(format_syscall_call, (mem, name, args, retval), s),
        lacks(name@, '"'),
        form_of(name@) is Buffer || form_of(name@) is BufferAt || form_of(name@) is Datagram,
        args@[1] >= 0x1000,
        dump_len(name@, args@[2], retval) > 0,
        mem.at(args@[1], dump_len(name@, args@[2], retval)) is Some,
    ensures
        first_quoted(s@) == as_chars(mem.at(args@[1], dump_len(name@, args@[2], retval)).unwrap()),
{
    let len = dump_len(name@, args@[2], retval);
    let buf = mem.at(args@[1], len).unwrap();
    let shown = literal(buf, len >= 128);
    law_hex_reads_back(args@[0]);
    let a = name@ + "("@ + hex_of(args@[0]) + ", "@;
    assert(lacks(a, '"')) by {
        reveal_strlit("(");
        reveal_strlit(", ");
    }
    let rest = match form_of(name@) {
        Form::Buffer => ", "@ + hex_of(args@[2]) + ")"@,
        Form::BufferAt => ", "@ + hex_of(args@[2]) + ", "@ + hex_of(args@[3]) + ")"@,
        _ => ", "@ + hex_of(args@[2]) + ", "@ + hex_of(args@[3]) + ", "@ + (if args@[4] != 0 {
            crate::syscall_format::address_or_hex(*mem, args@[4], args@[5])
        } else {
            "null"@
        }) + ", "@ + hex_of(args@[5]) + ")"@,
    };
    assert(s@ =~= a + shown + rest);
    lemma_literal_text(a, buf, len >= 128, rest, s@);
}

proof fn lemma_literal_text(
    a: Seq<char>,
    buf: Seq<u8>,
    truncated: bool,
    rest: Seq<char>,
    s: Seq<char>,
)
    requires
        lacks(a, '"'),
        s == a + literal(buf, truncated) + rest,
    ensures
        first_quoted(s) == as_chars(buf),
{
    reveal_strlit("\"");
    let more = (if truncated {
        "\u{2026}"@
    } else {
        Seq::empty()
    }) + rest;
    let shown = shown_bytes(buf, mostly_text(buf));
    assert(s =~= a + seq!['"'] + (shown + seq!['"'] + more));
    lemma_first_quote(a, shown + seq!['"'] + more);
    lemma_shown_reads_back(buf, mostly_text(buf), more);
}

/// The first argument of a call that has it in hexadecimal at the front reads back.
pub proof fn law_first_argument_reads_back(
    mem: &Readings,
    name: &str,
    args: &[u64; 6],
    retval: Option<i64>,
    s: String,
)
    requires
        call_ensures(format_syscall_call, (mem, name, args, retval), s),
        lacks(name@, ','),
        form_of(name@) is Buffer || form_of(name@) is BufferAt || form_of(name@) is Datagram
            || form_of(name@) is Vector || form_of(name@) is Address || form_of(name@) is PathSecond,
    ensures
        numeral(pieces(s@, ',')[0].skip(name@.len() as int + 3), 16) == Some(args@[0] as nat),
{
    law_hex_reads_back(args@[0]);
    let a = name@ + "("@ + hex_of(args@[0]);
    assert(lacks(a, ',')) by {
        reveal_strlit("(");
    }
    let at = a.len() as int;
    assert(s@.len() > at && s@[at] == ',' && s@.take(at) == a) by {
        lemma_front(*mem, name@, args@, retval);
    }
    let rest = s@.skip(at + 1);
    assert(s@ =~= a + seq![','] + rest);
    lemma_pieces_first(a, rest, ',');
    reveal_strlit("(");
    assert(a.skip(name@.len() as int + 3) =~= hex_of(args@[0]).skip(2));
}

/// Whether a text starts with another and a comma.
spec fn comma_after(s: Seq<char>, a: Seq<char>) -> bool {
    s.len() > a.len() && s[a.len() as int] == ',' && s.take(a.len() as int) == a
}

proof fn lemma_comma_longer(a: Seq<char>)
    ensures
        forall|s: Seq<char>, more: Seq<char>|
            comma_after(s, a) ==> #[trigger] comma_after(s + more, a),
{
    assert forall|s: Seq<char>, more: Seq<char>| comma_after(s, a) implies #[trigger] comma_after(
        s + more,
        a,
    ) by {
        assert((s + more).take(a.len() as int) =~= s.take(a.len() as int));
    }
}

proof fn lemma_front(mem: Readings, name: Seq<char>, args: Seq<u64>, retval: Option<i64>)
    requires
        form_of(name) is Buffer || form_of(name) is BufferAt || form_of(name) is Datagram
            || form_of(name) is Vector || form_of(name) is Address || form_of(name) is PathSecond,
    ensures
        comma_after(call_text(mem, name, args, retval), name + "("@ + hex_of(args[0])),
{
    let a = name + "("@ + hex_of(args[0]);
    lemma_comma_longer(a);
    assert(comma_after(a + ", "@, a) && comma_after(a + ", \""@, a)) by {
        reveal_strlit(", ");
        reveal_strlit(", \"");
        assert((a + ", "@).take(a.len() as int) =~= a);
        assert((a + ", \""@).take(a.len() as int) =~= a);
    }
    assert(comma_after(call_text(mem, name, args, retval), a));
}

/// The length of a buffer that a call moves is shown last, or before the place in the file.
pub proof fn law_length_reads_back(
    mem: &Readings,
    name: &str,
    args: &[u64; 6],
    retval: Option<i64>,
    s: String,
)
    requires
        call_ensures(format_syscall_call, (mem, name, args, retval), s),
    ensures
        form_of(name@) is Buffer || form_of(name@) is Address ==> has_suffix(
            s@,
            ", "@ + hex_of(args@[2]) + ")"@,
        ),
        form_of(name@) is BufferAt ==> has_suffix(
            s@,
            ", "@ + hex_of(args@[2]) + ", "@ + hex_of(args@[3]) + ")"@,
        ),
{
    match form_of(name@) {
        Form::Buffer => {
            let tail = ", "@ + hex_of(args@[2]) + ")"@;
            assert(s@.skip(s@.len() - tail.len()) =~= tail);
        },
        Form::Address => {
            let tail = ", "@ + hex_of(args@[2]) + ")"@;
            assert(s@.skip(s@.len() - tail.len()) =~= tail);
        },
        Form::BufferAt => {
            let tail = ", "@ + hex_of(args@[2]) + ", "@ + hex_of(args@[3]) + ")"@;
            assert(s@.skip(s@.len() - tail.len()) =~= tail);
        },
        _ => {},
    }
}

/// A call that names a peer shows the address that was read at its second argument, behind the
/// first one.
pub proof fn law_peer_is_shown(
    mem: &Readings,
    name: &str,
    args: &[u64; 6],
    retval: Option<i64>,
    s: String,
    buf: &Vec<u8>,
    peer: String,
)
    requires
        call_ensures(format_syscall_call, (mem, name, args, retval), s),
        form_of(name@) is Address,
        args@[1] >= 0x1000,
        2 <= args@[2] <= 128,
        mem.at(args@[1], args@[2] as int) == Some(buf@),
        buf@.len() >= 2,
        call_ensures(format_sockaddr, (buf,), peer),
    ensures
        ({
            let at = name@.len() + hex_of(args@[0]).len() + 3;
            s@.subrange(at as int, at + peer@.len() as int) == peer@
        }),
{
    reveal_strlit("(");
    reveal_strlit(", ");
    let at = name@.len() + hex_of(args@[0]).len() + 3;
    assert(s@ =~= name@ + "("@ + hex_of(args@[0]) + ", "@ + peer@ + ", "@ + hex_of(args@[2])
        + ")"@);
    assert(s@.subrange(at as int, at + peer@.len() as int) =~= peer@);
}

/// The path of a socket address reads back from between its quotes.
pub proof fn law_socket_path_reads_back(path: &str, s: String)
    requires
        call_ensures(unix_address, (path,), s),
    ensures
        has_prefix(s@, "{AF_UNIX,\""@),
        first_quoted(s@) == path@,
        s@.last() == '}',
{
    reveal_strlit("{AF_UNIX,\"");
    reveal_strlit("\"}");
    let a = "{AF_UNIX,\""@.drop_last();
    let more = seq!['}'];
    assert(s@ =~= a + seq!['"'] + (escaped(path@) + seq!['"'] + more));
    lemma_first_quote(a, escaped(path@) + seq!['"'] + more);
    law_quoted_reads_back(path@, more);
    assert(s@.take(10) =~= "{AF_UNIX,\""@);
}

/// The text at an address is what stands before its first zero byte.
pub proof fn law_string_ends_at_zero(mem: Readings, addr: u64, buf: Seq<u8>, k: int)
    requires
        addr >= 0x1000,
        mem.at(addr, 128) == Some(buf),
        0 <= k < buf.len(),
        buf[k] == 0,
        forall|i: int| 0 <= i < k ==> buf[i] != 0,
    ensures
        string_at(mem, addr) matches Some(s) ==> s == utf8_lossy(buf.take(k)),
        is_plain(utf8_lossy(buf.take(k))) ==> string_at(mem, addr) is Some,
{
    lemma_nul_at(buf, 0, k);
}

proof fn lemma_nul_at(buf: Seq<u8>, from: int, k: int)
    requires
        0 <= from <= k < buf.len(),
        buf[k] == 0,
        forall|i: int| from <= i < k ==> buf[i] != 0,
    ensures
        nul_from(buf, from, buf.len() as int) == k,
    decreases k - from,
{
    if from < k {
        lemma_nul_at(buf, from + 1, k);
    }
}

/// What is taken of the buffers of a list stays within each of them and, together, within what
/// was moved and what is shown at most.
pub proof fn law_list_extent(raw: Seq<u8>, i: int, total: int, left: int)
    requires
        0 <= total < 128,
        0 < left,
    ensures
        ({
            let n = vector_take(raw, i, total, left);
            &&& 0 <= n <= quad_at(raw, 16 * i + 8)
            &&& n <= left
            &&& total + n <= 128
            &&& n == quad_at(raw, 16 * i + 8) || n == left || total + n == 128
        }),
{
}

/// An entry of a list of buffers shows its address and its length.
pub proof fn law_list_entry_reads_back(mem: Readings, base: u64, len: u64, take: int)
    ensures
        ({
            let parts = pieces(vector_part(mem, base, len, take), ',');
            &&& parts.len() >= 3
            &&& numeral(parts[0].skip(8), 16) == Some(base as nat)
            &&& numeral(parts[1].skip(5), 10) == Some(len as nat)
        }),
{
    reveal_strlit("{base=");
    reveal_strlit(", len=");
    reveal_strlit(", data=");
    let t = vector_part(mem, base, len, take);
    law_hex_reads_back(base);
    law_decimal_reads_back(len as nat);
    lemma_decimal_lacks(len as nat, ',');
    let p0 = "{base="@ + hex_of(base);
    let p1 = seq![' ', 'l', 'e', 'n', '='] + decimal(len as nat);
    let p2 = seq![' ', 'd', 'a', 't', 'a', '='] + crate::syscall_format::preview(mem, base, take)
        + "}"@;
    assert(t =~= p0 + seq![','] + (p1 + seq![','] + p2));
    assert(lacks(p0, ','));
    assert(lacks(p1, ','));
    lemma_pieces_first(p1, p2, ',');
    lemma_pieces_first(p0, p1 + seq![','] + p2, ',');
    lemma_pieces_some(p2, ',');
    assert(p0.skip(8) =~= hex_of(base).skip(2));
    assert(p1.skip(5) =~= decimal(len as nat));
}

proof fn lemma_pieces_some(s: Seq<char>, sep: char)
    ensures
        pieces(s, sep).len() > 0,
{
}

/// How much is shown of a buffer: no more than it holds, than the limit, and than was moved. What
/// is read is shown only once it is there, and what failed is not shown.
pub proof fn law_buffer_extent(name: Seq<char>, count: u64, retval: Option<i64>)
    ensures
        ({
            let n = dump_len(name, count, retval);
            &&& 0 <= n <= count
            &&& n <= 128
            &&& retval matches Some(v) ==> (v > 0 ==> n <= v && (n == v || n == count || n == 128))
            &&& retval matches Some(v) ==> (v < 0 ==> n == 0)
            &&& is_inbound(name) && !(retval matches Some(v) && v > 0) ==> n == 0
            &&& !is_inbound(name) && (retval is None || retval == Some(0i64)) ==> n == count || n
                == 128
        }),
{
}

/// The report of a call names the thread, the call and its arguments as it was made, and what it
/// returned where it is reported on its return.
pub proof fn law_report_tells_the_call(
    t: &mut Tracer,
    tid: i32,
    x: &[u64; 31],
    r: Option<Report>,
)
    requires
        old(t)@.events < u64::MAX,
        call_ensures(Tracer::on_call, (t, tid, x), r),
        r is Some,
    ensures
        ({
            let p = r.unwrap();
            let back = old(t)@.pending.dom().contains(tid);
            &&& p.tid == tid
            &&& old(t)@.enter_only ==> !back && p.retval is None
            &&& !old(t)@.enter_only ==> back && (p.retval matches Some(v) && (v - x@[0])
                % 0x1_0000_0000_0000_0000 == 0)
            &&& !back ==> p.name@ == call_name(x@[8]) && p.args@ == x@.take(6)
            &&& back ==> p.args == old(t)@.pending[tid].args && p.name@ == call_name(
                old(t)@.pending[tid].nr,
            )
        }),
{
    let p = r.unwrap();
    if !old(t)@.pending.dom().contains(tid) {
        assert(p.args@ =~= x@.take(6));
    }
}

/// A call that was made is kept until its thread stops at a call again: its number is that of X8
/// and its arguments are X0 to X5.
pub proof fn law_call_is_kept(s: TracerState, tid: i32, x: Seq<u64>)
    requires
        x.len() == 31,
        !s.pending.dom().contains(tid),
    ensures
        s.at_call(tid, x).pending.dom() == s.pending.dom().insert(tid),
        s.at_call(tid, x).pending[tid].nr == x[8],
        s.at_call(tid, x).pending[tid].args@ == x.take(6),
        s.at_call(tid, x).events == s.events || s.at_call(tid, x).events == (s.events + 1) as u64,
        s.filter.len() == 0 ==> s.at_call(tid, x).events == (s.events + 1) as u64,
{
    assert(s.at_call(tid, x).pending[tid].args@ =~= x.take(6));
}

/// A line of a report starts with the thread in brackets, holds the call, and ends with what it
/// returned, as the bits of a number.
#[verifier::rlimit(60)]
#[verifier::spinoff_prover]
pub proof fn law_report_line_reads_back(tid: i32, call: &str, retval: Option<i64>, s: String)
    requires
        call_ensures(report_line, (tid, call, retval), s),
    ensures
        ({
            let n = signed_decimal(tid as int);
            &&& s@[0] == '['
            &&& integer_of(s@.subrange(1, 1 + n.len() as int)) == Some(tid as int)
            &&& s@[1 + n.len() as int] == ']'
            &&& retval is None ==> has_suffix(s@, call@)
            &&& retval matches Some(v) ==> s@.subrange(
                n.len() as int + 3,
                n.len() as int + 3 + call@.len() as int,
            ) == call@ && ({
                let rest = s@.skip(n.len() as int + 3 + call@.len() as int);
                &&& has_prefix(rest, " = 0x"@)
                &&& numeral(rest.skip(5), 16) is Some
                &&& (numeral(rest.skip(5), 16).unwrap() - v) % 0x1_0000_0000_0000_0000 == 0
            })
        }),
{
    reveal_strlit("[");
    reveal_strlit("] ");
    reveal_strlit(" = ");
    reveal_strlit("0x");
    reveal_strlit(" = 0x");
    reveal_strlit("] \u{2192} ");
    let n = signed_decimal(tid as int);
    law_signed_reads_back(tid as int);
    assert(s@.subrange(1, 1 + n.len() as int) =~= n);
    match retval {
        Some(v) => {
            let at = n.len() as int + 3;
            assert(s@.subrange(at, at + call@.len() as int) =~= call@);
            let u = crate::syscall_trace::unsigned_of(v);
            law_hexadecimal_reads_back(u as nat);
            let rest = s@.skip(at + call@.len() as int);
            assert(rest =~= " = 0x"@ + hexadecimal(u as nat));
            assert(rest.take(5) =~= " = 0x"@);
            assert(rest.skip(5) =~= hexadecimal(u as nat));
        },
        None => {
            assert(s@.skip(s@.len() - call@.len()) =~= call@);
        },
    }
}

/// What a stop of a thread means is told by its status: an exit and a death end it, a stop with
/// one of the first three events made a thread, the trap of a call is a call, and any other
/// signal is handed on.
pub proof fn law_wakes(signal: int, event: int, status: i32)
    requires
        0 < signal < 0x80 || signal == 0x85,
        0 <= event < 0x80,
        status == event * 0x1_0000 + signal * 0x100 + 0x7f,
    ensures
        1 <= event <= 3 ==> wake_of(status) is NewThread,
        !(1 <= event <= 3) && (signal == 5 || signal == 0x85) ==> wake_of(status) is AtCall,
        !(1 <= event <= 3) && signal != 5 && signal != 0x85 ==> wake_of(status) == Wake::Deliver(
            signal as i32,
        ),
{
    let u = status as u32;
    assert(u == status);
    assert(u as int / 0x1_0000 == event);
    assert(u as int / 0x100 == event * 0x100 + signal);
    assert(u as int % 0x100 == 0x7f);
    assert(u as int % 0x80 == 0x7f);
}

/// A thread that exited with some code, or died of a signal, is gone.
pub proof fn law_gone(code: int, status: i32)
    requires
        0 <= code < 0x100,
        status == code * 0x100 || 0 < status < 0x7f,
    ensures
        wake_of(status) is Gone,
{
    let u = status as u32;
    assert(u == status);
    assert(u as int % 0x80 == if 0 < status < 0x7f {
        status as int
    } else {
        0
    });
}

/// Bytes are shown as text where at least seven in ten of them are printable, and each as its
/// number otherwise.
pub proof fn law_text_or_numbers(buf: &[u8], s: String, text: Seq<u8>, rest: Seq<u8>)
    requires
        call_ensures(format_bytes_literal, (buf, false), s),
        buf@ == text + rest,
        text.len() > 0,
        text[0] == 0x61,
        forall|i: int| 0 <= i < text.len() ==> 0x20 <= #[trigger] text[i] < 0x7f,
        forall|i: int| 0 <= i < rest.len() ==> (#[trigger] rest[i]) >= 0x7f,
    ensures
        10 * text.len() >= 7 * buf@.len() ==> s@[1] == 'a',
        10 * text.len() < 7 * buf@.len() ==> s@[1] == '\\' && s@[2] == 'x',
{
    reveal_strlit("\"");
    reveal_strlit("\\x");
    lemma_printables(text, rest);
    lemma_shown_first(buf@, mostly_text(buf@));
    assert(buf@[0] == 0x61);
    assert('a' as u32 == 0x61);
    assert(text_byte(0x61) =~= seq!['a']);
}

proof fn lemma_printables(text: Seq<u8>, rest: Seq<u8>)
    requires
        forall|i: int| 0 <= i < text.len() ==> 0x20 <= #[trigger] text[i] < 0x7f,
        forall|i: int| 0 <= i < rest.len() ==> (#[trigger] rest[i]) >= 0x7f,
    ensures
        printables(text + rest) == text.len(),
    decreases text.len() + rest.len(),
{
    let all = text + rest;
    if rest.len() > 0 {
        let init = rest.drop_last();
        assert forall|i: int| 0 <= i < init.len() implies (#[trigger] init[i]) >= 0x7f by {
            assert(init[i] == rest[i]);
        }
        lemma_printables(text, init);
        assert(all.drop_last() =~= text + init);
        assert(all.last() == rest[rest.len() - 1]);
    } else if text.len() > 0 {
        let init = text.drop_last();
        assert forall|i: int| 0 <= i < init.len() implies 0x20 <= #[trigger] init[i] < 0x7f by {
            assert(init[i] == text[i]);
        }
        lemma_printables(init, rest);
        assert(all.drop_last() =~= init + rest);
        assert(all.last() == text[text.len() - 1]);
    }
}

/// With a filter a call counts exactly where its name holds one of the filter's words.
pub proof fn law_filtered_calls_count(s: TracerState, tid: i32, x: Seq<u64>, i: int)
    requires
        x.len() == 31,
        !s.pending.dom().contains(tid),
        s.filter.len() > 0,
        s.events < u64::MAX,
    ensures
        0 <= i < s.filter.len() && has_part(call_name(x[8]), s.filter[i]) ==> s.at_call(
            tid,
            x,
        ).events == s.events + 1,
        (forall|j: int| 0 <= j < s.filter.len() ==> !has_part(call_name(x[8]), #[trigger] s.filter[j]))
            ==> s.at_call(tid, x).events == s.events,
{
    if 0 <= i < s.filter.len() && has_part(call_name(x[8]), s.filter[i]) {
        assert(s.passes(call_name(x[8])));
    }
}

/// The calls that give bytes to their caller: what they will give is not there before they return.
pub proof fn law_inbound_calls(name: Seq<char>, count: u64)
    requires
        name == "read"@ || name == "readv"@ || name == "pread64"@ || name == "preadv"@ || name
            == "recvfrom"@ || name == "recvmsg"@ || name == "recvmmsg"@,
    ensures
        dump_len(name, count, None) == 0,
        dump_len(name, count, Some(0i64)) == 0,
{
}

/// The calls that take bytes from their caller: all of them are there, up to what is shown.
pub proof fn law_outbound_calls(name: Seq<char>, count: u64)
    requires
        name == "write"@ || name == "writev"@ || name == "pwrite64"@ || name == "sendto"@ || name
            == "sendmsg"@,
        count <= 128,
    ensures
        dump_len(name, count, None) == count,
{
    reveal_strlit("write");
    reveal_strlit("writev");
    reveal_strlit("pwrite64");
    reveal_strlit("sendto");
    reveal_strlit("sendmsg");
    reveal_strlit("read");
    reveal_strlit("readv");
    reveal_strlit("pread64");
    reveal_strlit("preadv");
    reveal_strlit("recvfrom");
    reveal_strlit("recvmsg");
    reveal_strlit("recvmmsg");
    assert(name[0] == 'w' || name[0] == 's' || name[1] == 'w');
    assert("read"@[0] == 'r' && "readv"@[0] == 'r' && "recvfrom"@[0] == 'r' && "recvmsg"@[0] == 'r'
        && "recvmmsg"@[0] == 'r');
    assert("pread64"@[1] == 'r' && "preadv"@[1] == 'r');
    assert("pread64"@[0] == 'p' && "preadv"@[0] == 'p');
    assert("read"@[1] == 'e' && "readv"@[1] == 'e' && "recvfrom"@[1] == 'e' && "recvmsg"@[1] == 'e'
        && "recvmmsg"@[1] == 'e');
}

/// Of a list of buffers the first eight are looked at, or all where it has fewer.
pub proof fn law_list_length(n: u64)
    ensures
        n <= 8 ==> list_len(n) == n,
        n > 8 ==> list_len(n) == 8,
{
}

/// A read that failed is tried with less each time, down to a single byte and then not at all.
pub proof fn law_reads_get_shorter(len: usize, r: usize)
    requires
        call_ensures(shorter_read, (len,), r),
    ensures
        len > 0 ==> r < len,
        len > 1 ==> r > 0,
        len <= 1 ==> r == 0,
        len > 64 ==> 2 * r <= len < 2 * r + 2,
        16 < len <= 64 ==> r == 16,
        1 < len <= 16 ==> r + 1 == len,
{
}

/// A wait for any thread tells the thread and its status, is over where there is none left or
/// the time is, and fails otherwise.
pub proof fn law_wait_for_any(
    tid: i32,
    status: i32,
    errno: i32,
    error: String,
    late: bool,
    r: AnyWait,
)
    requires
        call_ensures(wait_any, (tid, status, errno, error, late), r),
    ensures
        tid > 0 <==> r is Thread,
        r matches AnyWait::Thread(t, s) ==> t == tid && s == status,
        tid == 0 ==> (late <==> r is Over) && (!late <==> r is Again),
        tid < 0 && errno == 10 ==> r is Over,
        tid < 0 && errno != 10 ==> r is Failed,
{
}

} // verus!
