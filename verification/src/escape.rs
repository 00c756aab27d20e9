//! String escaping for the structured output format, and its inverse.
//!
//! A field value is emitted between double quotes with the usual escapes:
//! `\"`, `\\`, `\b`, `\f`, `\n`, `\r`, `\t`, and `\u00XY` (lowercase hex) for
//! the remaining control characters. `parse_string` reads an escaped value up
//! to and including its closing quote; `lemma_parse_escaped` shows that this
//! inverts `escape` exactly, for every value and every continuation.

use vstd::prelude::*;
use crate::chars::chars_of;

verus! {

/// The character is a lowercase hexadecimal digit.
pub open spec fn is_hex_lower(c: char) -> bool {
    (48 <= c as u32 && c as u32 <= 57) || (97 <= c as u32 && c as u32 <= 102)
}

/// The numeric value of a lowercase hexadecimal digit.
pub open spec fn hex_val(c: char) -> int {
    if c as u32 <= 57 {
        c as u32 - 48
    } else {
        c as u32 - 97 + 10
    }
}

/// The lowercase hexadecimal digit for a value below sixteen.
pub open spec fn hex_digit(v: int) -> char {
    if v == 0 { '0' }
    else if v == 1 { '1' }
    else if v == 2 { '2' }
    else if v == 3 { '3' }
    else if v == 4 { '4' }
    else if v == 5 { '5' }
    else if v == 6 { '6' }
    else if v == 7 { '7' }
    else if v == 8 { '8' }
    else if v == 9 { '9' }
    else if v == 10 { 'a' }
    else if v == 11 { 'b' }
    else if v == 12 { 'c' }
    else if v == 13 { 'd' }
    else if v == 14 { 'e' }
    else { 'f' }
}

pub proof fn lemma_hex_digit_val(v: int)
    requires
        0 <= v < 16,
    ensures
        is_hex_lower(hex_digit(v)),
        hex_val(hex_digit(v)) == v,
{
}

/// How one character is written inside a quoted field value.
pub open spec fn esc_char(c: char) -> Seq<char> {
    if c == '"' { seq!['\\', '"'] }
    else if c == '\\' { seq!['\\', '\\'] }
    else if c == '\u{8}' { seq!['\\', 'b'] }
    else if c == '\u{c}' { seq!['\\', 'f'] }
    else if c == '\n' { seq!['\\', 'n'] }
    else if c == '\r' { seq!['\\', 'r'] }
    else if c == '\t' { seq!['\\', 't'] }
    else if (c as u32) < 32 {
        seq!['\\', 'u', '0', '0', hex_digit((c as u32) as int / 16), hex_digit((c as u32) as int % 16)]
    } else {
        seq![c]
    }
}

/// How a whole value is written inside a quoted field.
pub open spec fn escape(s: Seq<char>) -> Seq<char>
    decreases s.len(),
{
    if s.len() == 0 {
        Seq::empty()
    } else {
        esc_char(s[0]) + escape(s.skip(1))
    }
}

/// The character named by a one-letter escape, if any.
pub open spec fn simple_unescape(c: char) -> Option<char> {
    if c == '"' { Some('"') }
    else if c == '\\' { Some('\\') }
    else if c == 'b' { Some('\u{8}') }
    else if c == 'f' { Some('\u{c}') }
    else if c == 'n' { Some('\n') }
    else if c == 'r' { Some('\r') }
    else if c == 't' { Some('\t') }
    else { None }
}

/// Prepends a prefix to the value part of a partial parse.
pub open spec fn opt_prepend(p: Seq<char>, o: Option<(Seq<char>, Seq<char>)>) -> Option<
    (Seq<char>, Seq<char>),
> {
    match o {
        Some(t) => Some((p + t.0, t.1)),
        None => None,
    }
}

/// Reads an escaped field value up to and including its closing quote.
/// Returns the decoded value and the text that follows the quote.
pub open spec fn parse_string(s: Seq<char>) -> Option<(Seq<char>, Seq<char>)>
    decreases s.len(),
{
    if s.len() == 0 {
        None
    } else if s[0] == '"' {
        Some((Seq::empty(), s.skip(1)))
    } else if s[0] == '\\' {
        if s.len() < 2 {
            None
        } else if s[1] == 'u' {
            if s.len() >= 6 && s[2] == '0' && s[3] == '0' && is_hex_lower(s[4]) && is_hex_lower(s[5]) {
                opt_prepend(
                    seq![(((hex_val(s[4]) * 16 + hex_val(s[5])) as u32) as char)],
                    parse_string(s.skip(6)),
                )
            } else {
                None
            }
        } else {
            match simple_unescape(s[1]) {
                Some(c) => opt_prepend(seq![c], parse_string(s.skip(2))),
                None => None,
            }
        }
    } else if (s[0] as u32) < 32 {
        None
    } else {
        opt_prepend(seq![s[0]], parse_string(s.skip(1)))
    }
}

/// Escaping distributes over concatenation.
pub proof fn lemma_escape_concat(a: Seq<char>, b: Seq<char>)
    ensures
        escape(a + b) == escape(a) + escape(b),
    decreases a.len(),
{
    if a.len() == 0 {
        assert(a + b =~= b);
        assert(escape(a) + escape(b) =~= escape(b));
    } else {
        assert((a + b)[0] == a[0]);
        assert((a + b).skip(1) =~= a.skip(1) + b);
        lemma_escape_concat(a.skip(1), b);
        assert((a + b).len() != 0);
        assert(escape(a + b) =~= escape(a) + escape(b));
    }
}

/// Decoding inverts escaping: an escaped value, its closing quote and any
/// continuation parse back to exactly that value and that continuation.
pub proof fn lemma_parse_escaped(v: Seq<char>, rest: Seq<char>)
    ensures
        parse_string(escape(v) + seq!['"'] + rest) == Some((v, rest)),
    decreases v.len(),
{
    let s = escape(v) + seq!['"'] + rest;
    if v.len() == 0 {
        assert(escape(v) == Seq::<char>::empty());
        assert(s =~= seq!['"'] + rest);
        assert(s[0] == '"');
        assert(s.skip(1) =~= rest);
        assert(v =~= Seq::<char>::empty());
    } else {
        let c = v[0];
        let tail = v.skip(1);
        lemma_parse_escaped(tail, rest);
        let s2 = escape(tail) + seq!['"'] + rest;
        let e = esc_char(c);
        assert(escape(v) == e + escape(tail));
        assert(s =~= e + s2);
        assert(seq![c] + tail =~= v);
        if c == '"' || c == '\\' || c == '\u{8}' || c == '\u{c}' || c == '\n' || c == '\r'
            || c == '\t' {
            assert(e.len() == 2 && e[0] == '\\' && e[1] != 'u' && simple_unescape(e[1]) == Some(c));
            assert(s[0] == '\\' && s[1] == e[1]);
            assert(s.len() >= 2);
            assert(s.skip(2) =~= s2);
            assert(parse_string(s) == opt_prepend(seq![c], parse_string(s2)));
        } else if (c as u32) < 32 {
            let u = c as u32;
            lemma_hex_digit_val(u as int / 16);
            lemma_hex_digit_val(u as int % 16);
            let h1 = hex_digit(u as int / 16);
            let h2 = hex_digit(u as int % 16);
            assert(e =~= seq!['\\', 'u', '0', '0', h1, h2]);
            assert(s[0] == '\\' && s[1] == 'u' && s[2] == '0' && s[3] == '0' && s[4] == h1 && s[5]
                == h2);
            assert(s.len() >= 6);
            assert(hex_val(s[4]) * 16 + hex_val(s[5]) == u as int);
            assert(((hex_val(s[4]) * 16 + hex_val(s[5])) as u32) == u);
            vstd::utf8::char_u32_cast(c, u);
            assert(s.skip(6) =~= s2);
            assert(parse_string(s) == opt_prepend(seq![c], parse_string(s2)));
        } else {
            assert(e =~= seq![c]);
            assert(s[0] == c);
            assert(c != '"' && c != '\\' && !((c as u32) < 32));
            assert(s.skip(1) =~= s2);
            assert(parse_string(s) == opt_prepend(seq![c], parse_string(s2)));
        }
    }
}

/// A literal prefix is recognized and stripped.
pub open spec fn expect(s: Seq<char>, lit: Seq<char>) -> Option<Seq<char>> {
    if lit.len() <= s.len() && s.take(lit.len() as int) == lit {
        Some(s.skip(lit.len() as int))
    } else {
        None
    }
}

pub proof fn lemma_expect_prefix(lit: Seq<char>, x: Seq<char>)
    ensures
        expect(lit + x, lit) == Some(x),
{
    assert((lit + x).take(lit.len() as int) =~= lit);
    assert((lit + x).skip(lit.len() as int) =~= x);
}

pub proof fn lemma_opt_prepend_concat(a: Seq<char>, b: Seq<char>, o: Option<(Seq<char>, Seq<char>)>)
    ensures
        opt_prepend(a, opt_prepend(b, o)) == opt_prepend(a + b, o),
{
    match o {
        Some(t) => {
            assert(a + (b + t.0) =~= (a + b) + t.0);
        },
        None => {},
    }
}

fn hex_digit_exec(v: u32) -> (c: char)
    requires
        v < 16,
    ensures
        c == hex_digit(v as int),
{
    if v == 0 { '0' }
    else if v == 1 { '1' }
    else if v == 2 { '2' }
    else if v == 3 { '3' }
    else if v == 4 { '4' }
    else if v == 5 { '5' }
    else if v == 6 { '6' }
    else if v == 7 { '7' }
    else if v == 8 { '8' }
    else if v == 9 { '9' }
    else if v == 10 { 'a' }
    else if v == 11 { 'b' }
    else if v == 12 { 'c' }
    else if v == 13 { 'd' }
    else if v == 14 { 'e' }
    else { 'f' }
}

fn is_hex_lower_exec(c: char) -> (r: bool)
    ensures
        r == is_hex_lower(c),
{
    let u: u32 = c as u32;
    (48 <= u && u <= 57) || (97 <= u && u <= 102)
}

fn hex_val_exec(c: char) -> (v: u32)
    requires
        is_hex_lower(c),
    ensures
        v as int == hex_val(c),
        v < 16,
{
    let u: u32 = c as u32;
    if u <= 57 {
        u - 48
    } else {
        u - 97 + 10
    }
}

fn simple_unescape_exec(c: char) -> (r: Option<char>)
    ensures
        r == simple_unescape(c),
{
    if c == '"' { Some('"') }
    else if c == '\\' { Some('\\') }
    else if c == 'b' { Some('\u{8}') }
    else if c == 'f' { Some('\u{c}') }
    else if c == 'n' { Some('\n') }
    else if c == 'r' { Some('\r') }
    else if c == 't' { Some('\t') }
    else { None }
}

/// Relies on `char::from_u32`: every value below the surrogate range is a
/// valid Unicode scalar value, and the character returned has that code point.
#[verifier::external_body]
fn char_from_code(v: u32) -> (c: char)
    requires
        v < 0xD800,
    ensures
        c as u32 == v,
{
    char::from_u32(v).unwrap()
}

/// Appends the escaped form of `s` to `out`.
pub(crate) fn escape_push(out: &mut Vec<char>, s: &str)
    ensures
        final(out)@ == old(out)@ + escape(s@),
{
    let cs = chars_of(s);
    let n: usize = cs.len();
    let mut i: usize = 0;
    while i < n
        invariant
            i <= n,
            n == cs@.len(),
            cs@ == s@,
            out@ == old(out)@ + escape(s@.take(i as int)),
        decreases n - i,
    {
        let c = cs[i];
        let ghost prev = out@;
        if c == '"' {
            out.push('\\');
            out.push('"');
        } else if c == '\\' {
            out.push('\\');
            out.push('\\');
        } else if c == '\u{8}' {
            out.push('\\');
            out.push('b');
        } else if c == '\u{c}' {
            out.push('\\');
            out.push('f');
        } else if c == '\n' {
            out.push('\\');
            out.push('n');
        } else if c == '\r' {
            out.push('\\');
            out.push('r');
        } else if c == '\t' {
            out.push('\\');
            out.push('t');
        } else {
            let u: u32 = c as u32;
            if u < 32 {
                out.push('\\');
                out.push('u');
                out.push('0');
                out.push('0');
                out.push(hex_digit_exec(u / 16));
                out.push(hex_digit_exec(u % 16));
            } else {
                out.push(c);
            }
        }
        proof {
            assert(out@ =~= prev + esc_char(c));
            lemma_escape_concat(s@.take(i as int), seq![c]);
            assert(s@.take(i as int) + seq![c] =~= s@.take(i as int + 1));
            assert(seq![c].skip(1) =~= Seq::<char>::empty());
            assert(seq![c][0] == c);
            assert(escape(Seq::<char>::empty()) == Seq::<char>::empty());
            assert(escape(seq![c]) == esc_char(c) + escape(Seq::<char>::empty()));
            assert(escape(seq![c]) =~= esc_char(c));
            assert(out@ =~= old(out)@ + escape(s@.take(i as int + 1)));
        }
        i = i + 1;
    }
    proof {
        assert(s@.take(n as int) =~= s@);
    }
}

/// Decodes an escaped field value starting at `start`; on success returns the
/// decoded characters and the position just past the closing quote.
pub(crate) fn parse_string_at(s: &Vec<char>, start: usize) -> (r: Option<(Vec<char>, usize)>)
    requires
        start <= s@.len(),
    ensures
        match r {
            Some(p) => p.1 <= s@.len() && parse_string(s@.skip(start as int)) == Some(
                (p.0@, s@.skip(p.1 as int)),
            ),
            None => parse_string(s@.skip(start as int)) is None,
        },
{
    let n: usize = s.len();
    let mut i: usize = start;
    let mut acc: Vec<char> = Vec::new();
    loop
        invariant
            start <= i <= n,
            n == s@.len(),
            parse_string(s@.skip(start as int)) == opt_prepend(
                acc@,
                parse_string(s@.skip(i as int)),
            ),
        decreases n - i,
    {
        proof {
            assert(s@.skip(i as int).len() == n - i);
        }
        if i >= n {
            return None;
        }
        let c = s[i];
        proof {
            assert(s@.skip(i as int)[0] == s@[i as int]);
        }
        if c == '"' {
            proof {
                assert(s@.skip(i as int).skip(1) =~= s@.skip(i as int + 1));
                assert(acc@ + Seq::<char>::empty() =~= acc@);
            }
            return Some((acc, i + 1));
        } else if c == '\\' {
            if i + 1 >= n {
                return None;
            }
            let e = s[i + 1];
            proof {
                assert(s@.skip(i as int)[1] == s@[i as int + 1]);
            }
            if e == 'u' {
                if n - i < 6 {
                    return None;
                }
                proof {
                    assert(s@.skip(i as int)[2] == s@[i as int + 2]);
                    assert(s@.skip(i as int)[3] == s@[i as int + 3]);
                    assert(s@.skip(i as int)[4] == s@[i as int + 4]);
                    assert(s@.skip(i as int)[5] == s@[i as int + 5]);
                }
                if !(s[i + 2] == '0' && s[i + 3] == '0' && is_hex_lower_exec(s[i + 4])
                    && is_hex_lower_exec(s[i + 5])) {
                    return None;
                }
                let v: u32 = hex_val_exec(s[i + 4]) * 16 + hex_val_exec(s[i + 5]);
                let d = char_from_code(v);
                let ghost prev = acc@;
                acc.push(d);
                proof {
                    let ghost sk = s@.skip(i as int);
                    assert(hex_val(sk[4]) * 16 + hex_val(sk[5]) == v as int);
                    vstd::utf8::char_u32_cast(d, v);
                    assert((((hex_val(sk[4]) * 16 + hex_val(sk[5])) as u32) as char) == d);
                    assert(sk.skip(6) =~= s@.skip(i as int + 6));
                    lemma_opt_prepend_concat(prev, seq![d], parse_string(s@.skip(i as int + 6)));
                    assert(prev + seq![d] =~= acc@);
                }
                i = i + 6;
            } else {
                match simple_unescape_exec(e) {
                    Some(d) => {
                        let ghost prev = acc@;
                        acc.push(d);
                        proof {
                            assert(s@.skip(i as int).skip(2) =~= s@.skip(i as int + 2));
                            lemma_opt_prepend_concat(
                                prev,
                                seq![d],
                                parse_string(s@.skip(i as int + 2)),
                            );
                            assert(prev + seq![d] =~= acc@);
                        }
                        i = i + 2;
                    },
                    None => {
                        return None;
                    },
                }
            }
        } else if (c as u32) < 32 {
            return None;
        } else {
            let ghost prev = acc@;
            acc.push(c);
            proof {
                assert(s@.skip(i as int).skip(1) =~= s@.skip(i as int + 1));
                lemma_opt_prepend_concat(prev, seq![c], parse_string(s@.skip(i as int + 1)));
                assert(prev + seq![c] =~= acc@);
            }
            i = i + 1;
        }
    }
}

/// Checks that the text at `start` begins with the literal `lit`; on success
/// returns the position just past it.
pub(crate) fn expect_at(s: &Vec<char>, start: usize, lit: &str) -> (r: Option<usize>)
    requires
        start <= s@.len(),
    ensures
        match r {
            Some(j) => start + lit@.len() == j && j <= s@.len() && expect(
                s@.skip(start as int),
                lit@,
            ) == Some(s@.skip(j as int)),
            None => expect(s@.skip(start as int), lit@) is None,
        },
{
    let lv = chars_of(lit);
    let m: usize = lv.len();
    let n: usize = s.len();
    if m > n - start {
        return None;
    }
    let mut k: usize = 0;
    while k < m
        invariant
            k <= m,
            m == lit@.len(),
            lv@ == lit@,
            n == s@.len(),
            start + m <= n,
            s@.subrange(start as int, start + k) == lit@.take(k as int),
        decreases m - k,
    {
        if s[start + k] != lv[k] {
            proof {
                let sk = s@.skip(start as int);
                if expect(sk, lit@) is Some {
                    assert(sk.take(m as int)[k as int] == sk[k as int]);
                    assert(sk[k as int] == s@[start + k]);
                    assert(false);
                }
            }
            return None;
        }
        k = k + 1;
        proof {
            assert(s@.subrange(start as int, start + k) =~= lit@.take(k as int));
        }
    }
    proof {
        let sk = s@.skip(start as int);
        assert(sk.take(m as int) =~= s@.subrange(start as int, start + m as int));
        assert(lit@.take(m as int) =~= lit@);
        assert(sk.skip(m as int) =~= s@.skip(start + m as int));
    }
    Some(start + m)
}

} // verus!
