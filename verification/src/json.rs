//! The pieces of JSON text that the wire formats are made of: strings with
//! their escapes, and numbers in decimal digits.

use vstd::prelude::*;
use vstd::string::*;
use crate::text::chars_of;

verus! {

/// The digit, in upper case, of a number below sixteen.
pub open spec fn hex_digit(n: int) -> char {
    if n < 10 {
        (48 + n) as char
    } else {
        (55 + n) as char
    }
}

/// How one character stands inside a JSON string: the quote, the backslash
/// and the control characters are escaped, every other character stands
/// for itself.
pub open spec fn escape_char(c: char) -> Seq<char> {
    if c == '"' {
        seq!['\\', '"']
    } else if c == '\\' {
        seq!['\\', '\\']
    } else if c == '\u{8}' {
        seq!['\\', 'b']
    } else if c == '\u{9}' {
        seq!['\\', 't']
    } else if c == '\u{a}' {
        seq!['\\', 'n']
    } else if c == '\u{c}' {
        seq!['\\', 'f']
    } else if c == '\u{d}' {
        seq!['\\', 'r']
    } else if (c as int) < 0x20 {
        seq!['\\', 'u', '0', '0', hex_digit(c as int / 16), hex_digit(c as int % 16)]
    } else {
        seq![c]
    }
}

/// How a text stands inside a JSON string.
pub open spec fn escaped(s: Seq<char>) -> Seq<char>
    decreases s.len(),
{
    if s.len() == 0 {
        Seq::empty()
    } else {
        escape_char(s[0]) + escaped(s.skip(1))
    }
}

/// A text as a JSON string, between its quotes.
pub open spec fn quoted(s: Seq<char>) -> Seq<char> {
    seq!['"'] + (escaped(s) + seq!['"'])
}

/// The decimal digit of a number below ten.
pub open spec fn digit(n: nat) -> char {
    (48 + n) as char
}

/// A number in decimal digits, without leading zeros.
pub open spec fn decimal(n: nat) -> Seq<char>
    decreases n,
{
    if n < 10 {
        seq![digit(n)]
    } else {
        decimal(n / 10).push(digit(n % 10))
    }
}

/// `String::push` of std: the character is appended to the end of the
/// string.
#[verifier::external_body]
fn string_push(out: &mut String, c: char)
    ensures
        final(out)@ == old(out)@.push(c),
{
    out.push(c)
}

fn hex_digit_of(n: u8) -> (c: char)
    requires
        n < 16,
    ensures
        c == hex_digit(n as int),
{
    if n < 10 {
        (48 + n) as char
    } else {
        (55 + n) as char
    }
}

fn write_escaped_char(out: &mut String, c: char)
    ensures
        final(out)@ == old(out)@ + escape_char(c),
{
    let ghost before = out@;
    if c == '"' {
        string_push(out, '\\');
        string_push(out, '"');
    } else if c == '\\' {
        string_push(out, '\\');
        string_push(out, '\\');
    } else if c == '\u{8}' {
        string_push(out, '\\');
        string_push(out, 'b');
    } else if c == '\u{9}' {
        string_push(out, '\\');
        string_push(out, 't');
    } else if c == '\u{a}' {
        string_push(out, '\\');
        string_push(out, 'n');
    } else if c == '\u{c}' {
        string_push(out, '\\');
        string_push(out, 'f');
    } else if c == '\u{d}' {
        string_push(out, '\\');
        string_push(out, 'r');
    } else if (c as u32) < 0x20 {
        let code = c as u8;
        string_push(out, '\\');
        string_push(out, 'u');
        string_push(out, '0');
        string_push(out, '0');
        string_push(out, hex_digit_of(code / 16));
        string_push(out, hex_digit_of(code % 16));
    } else {
        string_push(out, c);
    }
    assert(out@ =~= before + escape_char(c));
}

/// Appends `s` as a JSON string, between its quotes.
pub fn write_quoted(out: &mut String, s: &str)
    ensures
        final(out)@ == old(out)@ + quoted(s@),
{
    let ghost before = out@;
    let v = chars_of(s);
    string_push(out, '"');
    proof {
        assert(s@.skip(0) =~= s@);
        assert(out@ =~= before + seq!['"']);
    }
    let mut i: usize = 0;
    while i < v.len()
        invariant
            i <= v.len(),
            v@ == s@,
            before + seq!['"'] + escaped(s@) == out@ + escaped(s@.skip(i as int)),
        decreases v.len() - i,
    {
        let ghost cur = out@;
        write_escaped_char(out, v[i]);
        proof {
            let tail = s@.skip(i as int);
            assert(tail.skip(1) =~= s@.skip(i + 1));
            assert(tail[0] == v@[i as int]);
            assert(cur + escaped(tail) =~= (cur + escape_char(v@[i as int])) + escaped(
                s@.skip(i + 1),
            ));
        }
        i += 1;
    }
    string_push(out, '"');
    proof {
        assert(s@.skip(i as int).len() == 0);
        assert(out@ =~= before + quoted(s@));
    }
}

/// Appends `n` in decimal digits.
pub fn write_decimal(out: &mut String, n: u128)
    ensures
        final(out)@ == old(out)@ + decimal(n as nat),
    decreases n,
{
    let ghost before = out@;
    if n >= 10 {
        write_decimal(out, n / 10);
    }
    let d = (n % 10) as u8;
    string_push(out, (48 + d) as char);
    assert(out@ =~= before + decimal(n as nat));
}

/// Appends `n` as a JSON string of decimal digits.
pub fn write_number(out: &mut String, n: u128)
    ensures
        final(out)@ == old(out)@ + quoted(decimal(n as nat)),
{
    let mut digits = String::new();
    write_decimal(&mut digits, n);
    assert(digits@ =~= decimal(n as nat));
    write_quoted(out, digits.as_str());
}

/// Appends a fixed piece of text.
pub fn write_text(out: &mut String, piece: &str)
    ensures
        final(out)@ == old(out)@ + piece@,
{
    out.append(piece);
}

/// A value with one more character in front of its text.
pub open spec fn prepend(c: char, x: Option<(Seq<char>, Seq<char>)>) -> Option<
    (Seq<char>, Seq<char>),
> {
    match x {
        Some((s, rest)) => Some((seq![c] + s, rest)),
        None => None,
    }
}

/// The character that stands behind a backslash for a one-letter escape.
pub open spec fn short_escape(c: char) -> Option<char> {
    if c == '"' {
        Some('"')
    } else if c == '\\' {
        Some('\\')
    } else if c == 'b' {
        Some('\u{8}')
    } else if c == 't' {
        Some('\u{9}')
    } else if c == 'n' {
        Some('\u{a}')
    } else if c == 'f' {
        Some('\u{c}')
    } else if c == 'r' {
        Some('\u{d}')
    } else {
        None
    }
}

/// The number that a hexadecimal digit in upper case stands for.
pub open spec fn hex_value(c: char) -> Option<int> {
    if '0' <= c <= '9' {
        Some(c as int - 48)
    } else if 'A' <= c <= 'F' {
        Some(c as int - 55)
    } else {
        None
    }
}

/// Reads the inside of a JSON string up to its closing quote: the text
/// that it holds, and what follows the quote.
pub open spec fn unescape(rest: Seq<char>) -> Option<(Seq<char>, Seq<char>)>
    decreases rest.len(),
{
    if rest.len() == 0 {
        None
    } else if rest[0] == '"' {
        Some((Seq::empty(), rest.skip(1)))
    } else if rest[0] != '\\' {
        prepend(rest[0], unescape(rest.skip(1)))
    } else if rest.len() < 2 {
        None
    } else if short_escape(rest[1]) is Some {
        prepend(short_escape(rest[1])->0, unescape(rest.skip(2)))
    } else if rest.len() >= 6 && rest[1] == 'u' && rest[2] == '0' && rest[3] == '0' && hex_value(
        rest[4],
    ) is Some && hex_value(rest[5]) is Some {
        prepend(
            (hex_value(rest[4])->0 * 16 + hex_value(rest[5])->0) as char,
            unescape(rest.skip(6)),
        )
    } else {
        None
    }
}

/// Reads a JSON string: the text that it holds, and what follows it.
pub open spec fn read_quoted(rest: Seq<char>) -> Option<(Seq<char>, Seq<char>)> {
    if rest.len() > 0 && rest[0] == '"' {
        unescape(rest.skip(1))
    } else {
        None
    }
}

/// Takes a fixed piece of text off the front: what follows it.
pub open spec fn expect(rest: Seq<char>, piece: Seq<char>) -> Option<Seq<char>> {
    if piece.len() <= rest.len() && rest.subrange(0, piece.len() as int) == piece {
        Some(rest.skip(piece.len() as int))
    } else {
        None
    }
}

/// The number that a text of decimal digits stands for.
pub open spec fn digits_value(s: Seq<char>) -> Option<nat>
    decreases s.len(),
{
    if s.len() == 0 {
        None
    } else if !('0' <= s.last() <= '9') {
        None
    } else if s.len() == 1 {
        Some((s.last() as int - 48) as nat)
    } else {
        match digits_value(s.drop_last()) {
            Some(v) => Some((v * 10 + (s.last() as int - 48)) as nat),
            None => None,
        }
    }
}

/// A value with more text in front of its text.
pub open spec fn with_prefix(a: Seq<char>, x: Option<(Seq<char>, Seq<char>)>) -> Option<
    (Seq<char>, Seq<char>),
> {
    match x {
        Some((s, rest)) => Some((a + s, rest)),
        None => None,
    }
}

fn short_escape_of(c: char) -> (r: Option<char>)
    ensures
        r == short_escape(c),
{
    if c == '"' {
        Some('"')
    } else if c == '\\' {
        Some('\\')
    } else if c == 'b' {
        Some('\u{8}')
    } else if c == 't' {
        Some('\u{9}')
    } else if c == 'n' {
        Some('\u{a}')
    } else if c == 'f' {
        Some('\u{c}')
    } else if c == 'r' {
        Some('\u{d}')
    } else {
        None
    }
}

fn hex_value_of(c: char) -> (r: Option<u8>)
    ensures
        match r {
            Some(v) => hex_value(c) == Some(v as int) && v < 16,
            None => hex_value(c) is None,
        },
{
    if '0' <= c && c <= '9' {
        Some(((c as u32) - 48) as u8)
    } else if 'A' <= c && c <= 'F' {
        Some(((c as u32) - 55) as u8)
    } else {
        None
    }
}

/// Takes a fixed piece of text off the input at `pos`: where the input
/// goes on, if the piece stands there.
pub fn expect_at(v: &Vec<char>, pos: usize, piece: &str) -> (r: Option<usize>)
    requires
        pos <= v.len(),
    ensures
        match r {
            Some(next) => pos <= next <= v.len() && expect(v@.skip(pos as int), piece@) == Some(
                v@.skip(next as int),
            ),
            None => expect(v@.skip(pos as int), piece@) is None,
        },
{
    let p = chars_of(piece);
    let ghost rest = v@.skip(pos as int);
    if p.len() > v.len() - pos {
        return None;
    }
    let mut i: usize = 0;
    while i < p.len()
        invariant
            i <= p.len(),
            pos <= v.len(),
            p.len() <= v.len() - pos,
            p@ == piece@,
            rest == v@.skip(pos as int),
            forall|j: int| 0 <= j < i ==> rest[j] == p@[j],
        decreases p.len() - i,
    {
        if v[pos + i] != p[i] {
            proof {
                lemma_expect_other(rest, piece@, i as int);
            }
            return None;
        }
        i += 1;
    }
    proof {
        assert(rest.subrange(0, p@.len() as int) =~= p@);
        assert(rest.skip(p@.len() as int) =~= v@.skip(pos + p@.len()));
    }
    Some(pos + p.len())
}

/// Reads the JSON string that stands in the input at `pos`: its text, and
/// where the input goes on.
pub fn read_quoted_at(v: &Vec<char>, pos: usize) -> (r: Option<(String, usize)>)
    requires
        pos <= v.len(),
    ensures
        match r {
            Some((s, next)) => pos < next <= v.len() && read_quoted(v@.skip(pos as int)) == Some(
                (s@, v@.skip(next as int)),
            ),
            None => read_quoted(v@.skip(pos as int)) is None,
        },
{
    let n = v.len();
    if pos >= n || v[pos] != '"' {
        return None;
    }
    let ghost full = unescape(v@.skip(pos + 1));
    proof {
        assert(v@.skip(pos as int).skip(1) =~= v@.skip(pos + 1));
    }
    let mut acc = String::new();
    let mut i: usize = pos + 1;
    proof {
        assert(full == with_prefix(acc@, unescape(v@.skip(i as int)))) by {
            match full {
                Some((s, rest)) => {
                    assert(acc@ + s =~= s);
                },
                None => {},
            }
        }
    }
    loop
        invariant
            n == v.len(),
            pos < i <= n,
            full == with_prefix(acc@, unescape(v@.skip(i as int))),
            full == read_quoted(v@.skip(pos as int)),
        decreases n - i,
    {
        let ghost rest = v@.skip(i as int);
        let ghost before = acc@;
        if i >= n {
            return None;
        }
        let c = v[i];
        proof {
            assert(rest[0] == c);
        }
        if c == '"' {
            proof {
                assert(rest.skip(1) =~= v@.skip(i + 1));
                assert(before + Seq::<char>::empty() =~= before);
            }
            return Some((acc, i + 1));
        } else if c != '\\' {
            string_push(&mut acc, c);
            proof {
                assert(rest.skip(1) =~= v@.skip(i + 1));
                lemma_with_prefix_push(before, c, unescape(v@.skip(i + 1)));
            }
            i += 1;
        } else {
            if n - i < 2 {
                return None;
            }
            let e = v[i + 1];
            proof {
                assert(rest[1] == e);
            }
            match short_escape_of(e) {
                Some(x) => {
                    string_push(&mut acc, x);
                    proof {
                        assert(rest.skip(2) =~= v@.skip(i + 2));
                        lemma_with_prefix_push(before, x, unescape(v@.skip(i + 2)));
                    }
                    i += 2;
                },
                None => {
                    if n - i < 6 || e != 'u' || v[i + 2] != '0' || v[i + 3] != '0' {
                        proof {
                            if n - i >= 6 {
                                assert(rest[2] == v@[i + 2]);
                                assert(rest[3] == v@[i + 3]);
                            }
                        }
                        return None;
                    }
                    proof {
                        assert(rest[2] == v@[i + 2]);
                        assert(rest[3] == v@[i + 3]);
                        assert(rest[4] == v@[i + 4]);
                        assert(rest[5] == v@[i + 5]);
                    }
                    let hi = match hex_value_of(v[i + 4]) {
                        Some(h) => h,
                        None => {
                            return None;
                        },
                    };
                    let lo = match hex_value_of(v[i + 5]) {
                        Some(l) => l,
                        None => {
                            return None;
                        },
                    };
                    let x = (hi * 16 + lo) as char;
                    string_push(&mut acc, x);
                    proof {
                        assert(rest.skip(6) =~= v@.skip(i + 6));
                        lemma_with_prefix_push(before, x, unescape(v@.skip(i + 6)));
                    }
                    i += 6;
                },
            }
        }
    }
}

/// Reads a text of decimal digits as a number of at most `max`.
pub fn parse_digits(s: &str, max: u128) -> (r: Option<u128>)
    ensures
        match r {
            Some(n) => digits_value(s@) == Some(n as nat) && n <= max,
            None => digits_value(s@) matches Some(n) ==> n > max,
        },
{
    let v = chars_of(s);
    if v.len() == 0 {
        return None;
    }
    let mut acc: u128 = 0;
    let mut over = false;
    let ghost mut val: nat = 0;
    let mut i: usize = 0;
    while i < v.len()
        invariant
            i <= v.len(),
            v@ == s@,
            i > 0 ==> digits_value(v@.take(i as int)) == Some(val),
            i == 0 ==> val == 0,
            !over ==> acc == val && acc <= max,
            over ==> val > max,
        decreases v.len() - i,
    {
        let c = v[i];
        let ghost next = v@.take(i + 1);
        proof {
            assert(next.drop_last() =~= v@.take(i as int));
            assert(next.last() == c);
        }
        if !('0' <= c && c <= '9') {
            proof {
                lemma_digits_value_prefix(v@, i + 1);
            }
            return None;
        }
        let d = ((c as u32) - 48) as u128;
        proof {
            val = val * 10 + d as nat;
        }
        if !over {
            if d > max {
                over = true;
            } else if acc > (max - d) / 10 {
                over = true;
                assert(val > max) by (nonlinear_arith)
                    requires
                        val == acc * 10 + d,
                        acc > (max - d) / 10,
                        d <= 9,
                        d <= max,
                ;
            } else {
                assert(acc * 10 + d <= max) by (nonlinear_arith)
                    requires
                        acc <= (max - d) / 10,
                        d <= max,
                ;
                acc = acc * 10 + d;
            }
        } else {
            assert(val > max) by (nonlinear_arith)
                requires
                    val >= (max + 1) * 10,
                    max >= 0,
            ;
        }
        i += 1;
    }
    proof {
        assert(v@.take(i as int) =~= v@);
    }
    if over {
        None
    } else {
        Some(acc)
    }
}

/// Pushing a character onto the text in front is putting it in front of
/// the value.
pub proof fn lemma_with_prefix_push(a: Seq<char>, c: char, x: Option<(Seq<char>, Seq<char>)>)
    ensures
        with_prefix(a, prepend(c, x)) == with_prefix(a.push(c), x),
{
    match x {
        Some((s, rest)) => {
            assert(a + (seq![c] + s) =~= a.push(c) + s);
        },
        None => {},
    }
}

/// A text whose beginning is no number is no number.
pub proof fn lemma_digits_value_prefix(s: Seq<char>, k: int)
    requires
        0 < k <= s.len(),
        digits_value(s.take(k)) is None,
    ensures
        digits_value(s) is None,
    decreases s.len() - k,
{
    if k < s.len() {
        assert(s.take(k + 1).drop_last() =~= s.take(k));
        lemma_digits_value_prefix(s, k + 1);
    } else {
        assert(s.take(k) =~= s);
    }
}

/// Reading gives back one escaped character.
pub proof fn lemma_unescape_char(c: char, tail: Seq<char>)
    ensures
        unescape(escape_char(c) + tail) == prepend(c, unescape(tail)),
{
    let rest = escape_char(c) + tail;
    if c == '"' || c == '\\' || c == '\u{8}' || c == '\u{9}' || c == '\u{a}' || c == '\u{c}' || c
        == '\u{d}' {
        assert(rest[0] == '\\');
        assert(short_escape(rest[1]) == Some(c));
        assert(rest.skip(2) =~= tail);
    } else if (c as int) < 0x20 {
        let hi = c as int / 16;
        let lo = c as int % 16;
        assert(rest[0] == '\\' && rest[1] == 'u' && rest[2] == '0' && rest[3] == '0');
        assert(rest[4] == hex_digit(hi) && rest[5] == hex_digit(lo));
        assert(hex_value(hex_digit(hi)) == Some(hi));
        assert(hex_value(hex_digit(lo)) == Some(lo));
        assert(short_escape('u') is None);
        assert(rest.skip(6) =~= tail);
        assert((hi * 16 + lo) as char == c);
    } else {
        assert(rest[0] == c);
        assert(rest.skip(1) =~= tail);
    }
}

/// Reading gives back an escaped text, up to the closing quote.
pub proof fn lemma_unescape_escaped(s: Seq<char>, tail: Seq<char>)
    ensures
        unescape(escaped(s) + (seq!['"'] + tail)) == Some((s, tail)),
    decreases s.len(),
{
    let end = seq!['"'] + tail;
    if s.len() == 0 {
        assert(escaped(s) + end =~= end);
        assert(end.skip(1) =~= tail);
    } else {
        let next = escaped(s.skip(1)) + end;
        lemma_unescape_escaped(s.skip(1), tail);
        lemma_unescape_char(s[0], next);
        assert(escaped(s) + end =~= escape_char(s[0]) + next);
        assert(seq![s[0]] + s.skip(1) =~= s);
    }
}

/// Reading gives back a JSON string and what follows it.
pub proof fn lemma_read_quoted(s: Seq<char>, tail: Seq<char>)
    ensures
        read_quoted(quoted(s) + tail) == Some((s, tail)),
{
    let rest = quoted(s) + tail;
    lemma_unescape_escaped(s, tail);
    assert(rest.len() > 0 && rest[0] == '"');
    assert(rest.skip(1) =~= escaped(s) + (seq!['"'] + tail));
}

/// A fixed piece of text comes off the front of what begins with it.
pub proof fn lemma_expect(piece: Seq<char>, tail: Seq<char>)
    ensures
        expect(piece + tail, piece) == Some(tail),
{
    let rest = piece + tail;
    assert(rest.subrange(0, piece.len() as int) =~= piece);
    assert(rest.skip(piece.len() as int) =~= tail);
}

/// What begins otherwise does not begin with the piece.
pub proof fn lemma_expect_other(rest: Seq<char>, piece: Seq<char>, at: int)
    requires
        0 <= at < piece.len(),
        at < rest.len() ==> rest[at] != piece[at],
    ensures
        expect(rest, piece) is None,
{
    if piece.len() <= rest.len() {
        assert(rest.subrange(0, piece.len() as int)[at] == rest[at]);
    }
}

/// The digits of a number stand for the number.
pub proof fn lemma_digits_value_decimal(n: nat)
    ensures
        digits_value(decimal(n)) == Some(n),
    decreases n,
{
    if n >= 10 {
        lemma_digits_value_decimal(n / 10);
        let d = decimal(n);
        assert(d.drop_last() =~= decimal(n / 10));
        assert(d.last() == digit(n % 10));
        lemma_decimal_nonempty(n / 10);
    }
}

/// A number has at least one digit.
pub proof fn lemma_decimal_nonempty(n: nat)
    ensures
        decimal(n).len() >= 1,
    decreases n,
{
    if n >= 10 {
        lemma_decimal_nonempty(n / 10);
    }
}

/// What was read.
pub open spec fn value_of<A>(x: Option<(A, Seq<char>)>) -> A {
    let pair = x->0;
    pair.0
}

/// What follows what was read.
pub open spec fn rest_of<A>(x: Option<(A, Seq<char>)>) -> Seq<char> {
    let pair = x->0;
    pair.1
}

/// Reads a JSON string of decimal digits as a number of at most `max`.
pub open spec fn read_number(rest: Seq<char>, max: nat) -> Option<(nat, Seq<char>)> {
    match read_quoted(rest) {
        Some((s, r)) => match digits_value(s) {
            Some(n) => if n <= max {
                Some((n, r))
            } else {
                None
            },
            None => None,
        },
        None => None,
    }
}

/// Reading gives back a number written as a JSON string of digits.
pub proof fn lemma_read_number(n: nat, max: nat, tail: Seq<char>)
    requires
        n <= max,
    ensures
        read_number(quoted(decimal(n)) + tail, max) == Some((n, tail)),
{
    lemma_read_quoted(decimal(n), tail);
    lemma_digits_value_decimal(n);
}

/// Reads the JSON string of decimal digits that stands in the input at
/// `pos` as a number of at most `max`: the number, and where the input
/// goes on.
pub fn read_number_at(v: &Vec<char>, pos: usize, max: u128) -> (r: Option<(u128, usize)>)
    requires
        pos <= v.len(),
    ensures
        match r {
            Some((n, next)) => pos < next <= v.len() && n <= max && read_number(
                v@.skip(pos as int),
                max as nat,
            ) == Some((n as nat, v@.skip(next as int))),
            None => read_number(v@.skip(pos as int), max as nat) is None,
        },
{
    match read_quoted_at(v, pos) {
        Some((s, next)) => match parse_digits(s.as_str(), max) {
            Some(n) => Some((n, next)),
            None => None,
        },
        None => None,
    }
}

} // verus!
