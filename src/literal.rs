use vstd::prelude::*;

verus! {

/// What `parse_int::parse::<u8>` makes of a token.
pub uninterp spec fn int_literal_u8(s: Seq<char>) -> Option<u8>;

/// What `parse_int::parse::<i64>` makes of a token.
pub uninterp spec fn int_literal_i64(s: Seq<char>) -> Option<i64>;

pub open spec fn is_ascii_letter(c: char) -> bool {
    ('a' <= c && c <= 'z') || ('A' <= c && c <= 'Z')
}

pub open spec fn is_digit(c: char) -> bool {
    '0' <= c && c <= '9'
}

/// Relies on str::chars: the characters of a string slice, in order.
#[verifier::external_body]
pub fn chars_of(s: &str) -> (r: Vec<char>)
    ensures
        r@ == s@,
{
    s.chars().collect()
}

/// Relies on String's FromIterator<&char>: a string of the given
/// characters, in order.
#[verifier::external_body]
pub fn string_of(v: &Vec<char>) -> (r: String)
    ensures
        r@ == v@,
{
    v.iter().collect()
}

/// What `char::is_whitespace` accepts: the Unicode White_Space characters.
pub open spec fn is_white(c: char) -> bool {
    ('\u{9}' <= c && c <= '\u{d}') || c == ' ' || c == '\u{85}' || c == '\u{a0}' || c
        == '\u{1680}' || ('\u{2000}' <= c && c <= '\u{200a}') || c == '\u{2028}' || c
        == '\u{2029}' || c == '\u{202f}' || c == '\u{205f}' || c == '\u{3000}'
}

/// The position of the first character at or after `i` that is no white
/// space.
pub open spec fn skip_white(s: Seq<char>, i: int) -> int
    decreases s.len() - i,
{
    if 0 <= i < s.len() && is_white(s[i]) {
        skip_white(s, i + 1)
    } else {
        i
    }
}

/// The token, trimmed, starts with '-'.
pub open spec fn negated(s: Seq<char>) -> bool {
    let k = skip_white(s, 0);
    0 <= k < s.len() && s[k] == '-'
}

/// The position after a radix prefix ("0x", "0o" or "0b", in either case)
/// at `i`, or `i` where there is none.
pub open spec fn after_prefix(s: Seq<char>, i: int) -> int {
    if 0 <= i && i + 1 < s.len() && s[i] == '0' && (s[i + 1] == 'x' || s[i + 1] == 'X' || s[i
        + 1] == 'o' || s[i + 1] == 'O' || s[i + 1] == 'b' || s[i + 1] == 'B') {
        i + 2
    } else {
        i
    }
}

/// From `i` on, the first character that is not '_' is '-'.
pub open spec fn minus_after_underscores(s: Seq<char>, i: int) -> bool
    decreases s.len() - i,
{
    if 0 <= i < s.len() {
        if s[i] == '_' {
            minus_after_underscores(s, i + 1)
        } else {
            s[i] == '-'
        }
    } else {
        false
    }
}

/// The tokens on which `parse_int::parse` negates a number whose digits
/// themselves start with '-': a leading '-', not followed by '_', and after
/// it, past any radix prefix and any '_', another '-'. For `i64` that
/// negation overflows on `i64::MIN`.
pub open spec fn doubly_negated(s: Seq<char>) -> bool {
    &&& negated(s)
    &&& {
        let r = skip_white(s, 0) + 1;
        !(r < s.len() && s[r] == '_') && minus_after_underscores(s, after_prefix(s, r))
    }
}

/// The position of the first character at or after `i` that is not '_'.
pub open spec fn skip_underscores(s: Seq<char>, i: int) -> int
    decreases s.len() - i,
{
    if 0 <= i < s.len() && s[i] == '_' {
        skip_underscores(s, i + 1)
    } else {
        i
    }
}

/// The end of the text before `j` with trailing white space left out.
pub open spec fn trim_end(s: Seq<char>, j: int) -> int
    decreases j,
{
    if 0 < j <= s.len() && is_white(s[j - 1]) {
        trim_end(s, j - 1)
    } else {
        j
    }
}

/// The radix that the prefix at `r` gives, 10 where there is none.
pub open spec fn radix_at(s: Seq<char>, r: int) -> nat {
    if after_prefix(s, r) == r + 2 {
        if s[r + 1] == 'x' || s[r + 1] == 'X' {
            16
        } else if s[r + 1] == 'o' || s[r + 1] == 'O' {
            8
        } else {
            2
        }
    } else {
        10
    }
}

pub open spec fn is_radix_digit(c: char, radix: nat) -> bool {
    if radix == 16 {
        is_hex_digit(c)
    } else if radix == 10 {
        is_digit(c)
    } else if radix == 8 {
        '0' <= c && c <= '7'
    } else {
        c == '0' || c == '1'
    }
}

/// Every character in `[i, j)` is '_' or a digit of the radix, and at least
/// one is a digit.
pub open spec fn radix_digits(s: Seq<char>, i: int, j: int, radix: nat) -> bool {
    &&& forall|k: int| i <= k < j ==> s[k] == '_' || is_radix_digit(s[k], radix)
    &&& exists|k: int| i <= k < j && s[k] != '_'
}

/// The value of the digits in `[i, j)`, '_' left out.
pub open spec fn radix_value(s: Seq<char>, i: int, j: int, radix: nat) -> nat
    decreases j - i,
{
    if j <= i {
        0
    } else if s[j - 1] == '_' {
        radix_value(s, i, j - 1, radix)
    } else {
        radix_value(s, i, j - 1, radix) * radix + hex_digit_value(s[j - 1])
    }
}

/// The tokens on which `parse_int::parse::<i64>` overflows: a doubly
/// negated token whose digits after the second '-' come to 2^63, so that
/// the number read is `i64::MIN`, which it then negates.
pub open spec fn overflows_i64(s: Seq<char>) -> bool {
    &&& doubly_negated(s)
    &&& {
        let r = skip_white(s, 0) + 1;
        let m = skip_underscores(s, after_prefix(s, r));
        let e = trim_end(s, s.len() as int);
        let radix = radix_at(s, r);
        radix_digits(s, m + 1, e, radix) && radix_value(s, m + 1, e, radix)
            == 0x8000_0000_0000_0000
    }
}

/// A token of decimal digits, at least one.
pub open spec fn all_decimal(s: Seq<char>) -> bool {
    s.len() > 0 && forall|i: int| 0 <= i < s.len() ==> is_digit(s[i])
}

/// The value of decimal digits.
pub open spec fn decimal_value(s: Seq<char>) -> nat
    decreases s.len(),
{
    if s.len() == 0 {
        0
    } else {
        decimal_value(s.drop_last()) * 10 + ((s.last() as u32) - 48) as nat
    }
}

pub open spec fn is_hex_digit(c: char) -> bool {
    is_digit(c) || ('a' <= c && c <= 'f') || ('A' <= c && c <= 'F')
}

pub open spec fn hex_digit_value(c: char) -> nat {
    if is_digit(c) {
        ((c as u32) - 48) as nat
    } else if 'a' <= c && c <= 'f' {
        ((c as u32) - 87) as nat
    } else {
        ((c as u32) - 55) as nat
    }
}

/// The value of hexadecimal digits.
pub open spec fn hex_value(s: Seq<char>) -> nat
    decreases s.len(),
{
    if s.len() == 0 {
        0
    } else {
        hex_value(s.drop_last()) * 16 + hex_digit_value(s.last())
    }
}

/// "0x" or "0X", then hexadecimal digits, at least one.
pub open spec fn is_hex_token(s: Seq<char>) -> bool {
    &&& s.len() > 2
    &&& s[0] == '0'
    &&& (s[1] == 'x' || s[1] == 'X')
    &&& forall|i: int| 2 <= i < s.len() ==> is_hex_digit(s[i])
}

/// Relies on parse_int::parse::<u8>: it trims white space, takes a leading
/// '-' off, reads the digits of the radix that a 0x, 0o or 0b prefix gives
/// (else decimal) with '_' left out, through `u8::from_str_radix`, and
/// negates after a '-', which overflows: the precondition rules that out.
/// Plain decimal or hexadecimal digits give their value where it fits; a
/// token that starts with a letter is no literal.
#[verifier::external_body]
fn parse_u8_literal(s: &Vec<char>) -> (r: Option<u8>)
    requires
        !negated(s@),
    ensures
        r == int_literal_u8(s@),
        s@.len() > 0 && is_ascii_letter(s@[0]) ==> r is None,
        all_decimal(s@) ==> r == if decimal_value(s@) <= 255 {
            Some(decimal_value(s@) as u8)
        } else {
            None
        },
        is_hex_token(s@) ==> r == if hex_value(s@.skip(2)) <= 255 {
            Some(hex_value(s@.skip(2)) as u8)
        } else {
            None
        },
{
    let t: String = s.iter().collect();
    parse_int::parse::<u8>(&t).ok()
}

/// Relies on parse_int::parse::<i64>: it trims white space, takes a leading
/// '-' off, reads the digits of the radix that a 0x, 0o or 0b prefix gives
/// (else decimal) with '_' left out, through `i64::from_str_radix`, and
/// negates after a '-'; that overflows only where those digits are '-'
/// and 2^63, which the precondition rules out. Plain decimal digits,
/// with or without a '-', and hexadecimal digits give their value where it
/// fits; a token that starts with a letter is no literal.
#[verifier::external_body]
fn parse_i64_literal(s: &Vec<char>) -> (r: Option<i64>)
    requires
        !overflows_i64(s@),
    ensures
        r == int_literal_i64(s@),
        s@.len() > 0 && is_ascii_letter(s@[0]) ==> r is None,
        all_decimal(s@) ==> r == if decimal_value(s@) <= i64::MAX {
            Some(decimal_value(s@) as i64)
        } else {
            None
        },
        s@.len() > 0 && s@[0] == '-' && all_decimal(s@.drop_first()) ==> r == if decimal_value(
            s@.drop_first(),
        ) <= i64::MAX {
            Some((-decimal_value(s@.drop_first())) as i64)
        } else {
            None
        },
        is_hex_token(s@) ==> r == if hex_value(s@.skip(2)) <= i64::MAX {
            Some(hex_value(s@.skip(2)) as i64)
        } else {
            None
        },
{
    let t: String = s.iter().collect();
    parse_int::parse::<i64>(&t).ok()
}

/// A register literal: an unsigned byte literal, never negated, and never a
/// name. Decimal digits and "0x" hexadecimal digits give their value where
/// it fits in a byte; other forms (0o, 0b, '_', a '+') are as parse_int reads them.
pub open spec fn register_literal(s: Seq<char>) -> Option<u8> {
    if s.len() > 0 && is_ascii_letter(s[0]) {
        None
    } else if negated(s) {
        None
    } else if all_decimal(s) {
        if decimal_value(s) <= 255 {
            Some(decimal_value(s) as u8)
        } else {
            None
        }
    } else if is_hex_token(s) {
        if hex_value(s.skip(2)) <= 255 {
            Some(hex_value(s.skip(2)) as u8)
        } else {
            None
        }
    } else {
        int_literal_u8(s)
    }
}

/// A signed integer literal, never a name; a token on which the reading
/// would overflow is none. Decimal digits, with or without a '-', and "0x"
/// hexadecimal digits give their value where it fits; other forms are as
/// parse_int reads them.
pub open spec fn signed_literal(s: Seq<char>) -> Option<i64> {
    if s.len() > 0 && is_ascii_letter(s[0]) {
        None
    } else if overflows_i64(s) {
        None
    } else if all_decimal(s) {
        if decimal_value(s) <= i64::MAX {
            Some(decimal_value(s) as i64)
        } else {
            None
        }
    } else if s.len() > 0 && s[0] == '-' && all_decimal(s.drop_first()) {
        if decimal_value(s.drop_first()) <= i64::MAX {
            Some((-decimal_value(s.drop_first())) as i64)
        } else {
            None
        }
    } else if is_hex_token(s) {
        if hex_value(s.skip(2)) <= i64::MAX {
            Some(hex_value(s.skip(2)) as i64)
        } else {
            None
        }
    } else {
        int_literal_i64(s)
    }
}

fn is_white_exec(c: char) -> (r: bool)
    ensures
        r == is_white(c),
{
    ('\u{9}' <= c && c <= '\u{d}') || c == ' ' || c == '\u{85}' || c == '\u{a0}' || c
        == '\u{1680}' || ('\u{2000}' <= c && c <= '\u{200a}') || c == '\u{2028}' || c
        == '\u{2029}' || c == '\u{202f}' || c == '\u{205f}' || c == '\u{3000}'
}

fn skip_white_exec(s: &Vec<char>) -> (r: usize)
    ensures
        r == skip_white(s@, 0),
        r <= s@.len(),
{
    let mut k: usize = 0;
    while k < s.len() && is_white_exec(s[k])
        invariant
            k <= s@.len(),
            skip_white(s@, 0) == skip_white(s@, k as int),
        decreases s.len() - k,
    {
        k = k + 1;
    }
    k
}

fn negated_exec(s: &Vec<char>) -> (r: bool)
    ensures
        r == negated(s@),
{
    let k = skip_white_exec(s);
    k < s.len() && s[k] == '-'
}

fn doubly_negated_exec(s: &Vec<char>) -> (r: bool)
    ensures
        r == doubly_negated(s@),
{
    let n = s.len();
    let w = skip_white_exec(s);
    if !(w < n && s[w] == '-') {
        return false;
    }
    let r = w + 1;
    if r < s.len() && s[r] == '_' {
        return false;
    }
    let mut k: usize = if r < n - 1 && s[r] == '0' && (s[r + 1] == 'x' || s[r + 1] == 'X'
        || s[r + 1] == 'o' || s[r + 1] == 'O' || s[r + 1] == 'b' || s[r + 1] == 'B') {
        r + 2
    } else {
        r
    };
    while k < s.len() && s[k] == '_'
        invariant
            k <= s@.len(),
            minus_after_underscores(s@, after_prefix(s@, r as int)) == minus_after_underscores(
                s@,
                k as int,
            ),
        decreases s.len() - k,
    {
        k = k + 1;
    }
    k < s.len() && s[k] == '-'
}

fn is_radix_digit_exec(c: char, radix: u32) -> (r: bool)
    requires
        radix == 2 || radix == 8 || radix == 10 || radix == 16,
    ensures
        r == is_radix_digit(c, radix as nat),
{
    if radix == 16 {
        ('0' <= c && c <= '9') || ('a' <= c && c <= 'f') || ('A' <= c && c <= 'F')
    } else if radix == 10 {
        '0' <= c && c <= '9'
    } else if radix == 8 {
        '0' <= c && c <= '7'
    } else {
        c == '0' || c == '1'
    }
}

fn overflows_i64_exec(s: &Vec<char>) -> (r: bool)
    ensures
        r == overflows_i64(s@),
{
    if !doubly_negated_exec(s) {
        return false;
    }
    let n = s.len();
    let w = skip_white_exec(s);
    let r = w + 1;
    let (p, radix): (usize, u32) = if r < n - 1 && s[r] == '0' && (s[r + 1] == 'x' || s[r + 1]
        == 'X') {
        (r + 2, 16)
    } else if r < n - 1 && s[r] == '0' && (s[r + 1] == 'o' || s[r + 1] == 'O') {
        (r + 2, 8)
    } else if r < n - 1 && s[r] == '0' && (s[r + 1] == 'b' || s[r + 1] == 'B') {
        (r + 2, 2)
    } else {
        (r, 10)
    };
    assert(p == after_prefix(s@, r as int));
    assert(radix as nat == radix_at(s@, r as int));
    let mut m: usize = p;
    while m < n && s[m] == '_'
        invariant
            p <= m <= n,
            n == s@.len(),
            skip_underscores(s@, p as int) == skip_underscores(s@, m as int),
        decreases n - m,
    {
        m = m + 1;
    }
    let mut e: usize = n;
    while e > 0 && is_white_exec(s[e - 1])
        invariant
            e <= n,
            n == s@.len(),
            trim_end(s@, n as int) == trim_end(s@, e as int),
        decreases e,
    {
        e = e - 1;
    }
    assert(skip_underscores(s@, m as int) == m as int);
    assert(trim_end(s@, e as int) == e as int);
    let cap: u128 = 0x8000_0000_0000_0001;
    let mut acc: u128 = 0;
    let mut seen = false;
    if e <= m {
        return false;
    }
    let mut k: usize = m + 1;
    while k < e
        invariant
            m + 1 <= k <= e,
            e <= n,
            cap == 0x8000_0000_0000_0001,
            doubly_negated(s@),
            r == skip_white(s@, 0) + 1,
            m == skip_underscores(s@, after_prefix(s@, r as int)),
            e == trim_end(s@, n as int),
            radix as nat == radix_at(s@, r as int),
            n == s@.len(),
            radix == 2 || radix == 8 || radix == 10 || radix == 16,
            forall|j: int| m + 1 <= j < k ==> s@[j] == '_' || is_radix_digit(s@[j], radix as nat),
            seen == exists|j: int| m + 1 <= j < k && s@[j] != '_',
            acc as nat == if radix_value(s@, m + 1, k as int, radix as nat) >= cap {
                cap as nat
            } else {
                radix_value(s@, m + 1, k as int, radix as nat)
            },
        decreases e - k,
    {
        let c = s[k];
        if c != '_' {
            if !is_radix_digit_exec(c, radix) {
                assert(!radix_digits(s@, m + 1, e as int, radix as nat));
                return false;
            }
            let ghost v = radix_value(s@, m + 1, k as int, radix as nat);
            let d: u128 = if '0' <= c && c <= '9' {
                (c as u32 - 48) as u128
            } else if 'a' <= c && c <= 'f' {
                (c as u32 - 87) as u128
            } else {
                (c as u32 - 55) as u128
            };
            assert(d as nat == hex_digit_value(c));
            assert(d < 16);
            if acc >= cap {
                assert(v * radix as nat + d as nat >= cap) by (nonlinear_arith)
                    requires
                        v >= cap,
                        radix >= 2,
                ;
            } else {
                assert((acc as int) * (radix as int) + (d as int) < 0x10_0000_0000_0000_0000)
                    by (nonlinear_arith)
                    requires
                        (acc as int) < 0x8000_0000_0000_0001,
                        (radix as int) <= 16,
                        (d as int) < 16,
                ;
                acc = acc * (radix as u128) + d;
                if acc >= cap {
                    acc = cap;
                }
            }
            seen = true;
            assert(radix_value(s@, m + 1, k + 1, radix as nat) == v * radix as nat
                + hex_digit_value(c));
        }
        k = k + 1;
    }
    seen && acc == 0x8000_0000_0000_0000
}

pub fn register_literal_of(s: &Vec<char>) -> (r: Option<u8>)
    ensures
        r == register_literal(s@),
{
    if s.len() > 0 && (('a' <= s[0] && s[0] <= 'z') || ('A' <= s[0] && s[0] <= 'Z')) {
        return None;
    }
    if negated_exec(s) {
        return None;
    }
    parse_u8_literal(s)
}

pub fn signed_literal_of(s: &Vec<char>) -> (r: Option<i64>)
    ensures
        r == signed_literal(s@),
{
    if s.len() > 0 && (('a' <= s[0] && s[0] <= 'z') || ('A' <= s[0] && s[0] <= 'Z')) {
        return None;
    }
    if overflows_i64_exec(s) {
        return None;
    }
    parse_i64_literal(s)
}

// ---- quoted string literals ----

/// The UTF-8 encoding of one character.
pub open spec fn utf8_of(c: char) -> Seq<u8> {
    let v = c as u32;
    if v < 0x80 {
        seq![v as u8]
    } else if v < 0x800 {
        seq![(0xC0 + v / 64) as u8, (0x80 + v % 64) as u8]
    } else if v < 0x10000 {
        seq![(0xE0 + v / 4096) as u8, (0x80 + (v / 64) % 64) as u8, (0x80 + v % 64) as u8]
    } else {
        seq![
            (0xF0 + v / 262144) as u8,
            (0x80 + (v / 4096) % 64) as u8,
            (0x80 + (v / 64) % 64) as u8,
            (0x80 + v % 64) as u8,
        ]
    }
}

/// The bytes that the body of a quoted literal stands for: a backslash is
/// dropped and the character after it is taken literally.
pub open spec fn unescaped(s: Seq<char>, escaped: bool) -> Seq<u8>
    decreases s.len(),
{
    if s.len() == 0 {
        Seq::empty()
    } else if !escaped && s[0] == '\\' {
        unescaped(s.drop_first(), true)
    } else {
        utf8_of(s[0]) + unescaped(s.drop_first(), false)
    }
}

/// A token in double quotes.
pub open spec fn is_quoted(s: Seq<char>) -> bool {
    s.len() >= 2 && s[0] == '"' && s.last() == '"'
}

/// The bytes packed by a quoted literal, if the token is one.
pub open spec fn string_literal(s: Seq<char>) -> Option<Seq<u8>> {
    if is_quoted(s) {
        Some(unescaped(s.subrange(1, s.len() - 1), false))
    } else {
        None
    }
}

/// The number that packed bytes stand for: least significant byte first.
pub open spec fn packed_value(b: Seq<u8>) -> int
    decreases b.len(),
{
    if b.len() == 0 {
        0
    } else {
        b[0] + 256 * packed_value(b.drop_first())
    }
}

pub fn push_utf8(out: &mut Vec<u8>, c: char)
    ensures
        final(out)@ == old(out)@ + utf8_of(c),
{
    let v = c as u32;
    if v < 0x80 {
        out.push(v as u8);
    } else if v < 0x800 {
        out.push((0xC0 + v / 64) as u8);
        out.push((0x80 + v % 64) as u8);
    } else if v < 0x10000 {
        out.push((0xE0 + v / 4096) as u8);
        out.push((0x80 + (v / 64) % 64) as u8);
        out.push((0x80 + v % 64) as u8);
    } else {
        out.push((0xF0 + v / 262144) as u8);
        out.push((0x80 + (v / 4096) % 64) as u8);
        out.push((0x80 + (v / 64) % 64) as u8);
        out.push((0x80 + v % 64) as u8);
    }
}

/// Decodes a quoted string literal into the bytes it packs, least
/// significant first; `None` when the token is not in quotes.
pub fn string_literal_bytes(lit: &Vec<char>) -> (r: Option<Vec<u8>>)
    ensures
        match string_literal(lit@) {
            Some(b) => r matches Some(v) && v@ == b,
            None => r is None,
        },
{
    let n = lit.len();
    if n < 2 || lit[0] != '"' || lit[n - 1] != '"' {
        return None;
    }
    let ghost body = lit@.subrange(1, n - 1);
    let mut out: Vec<u8> = Vec::new();
    let mut escaped = false;
    let mut i: usize = 1;
    while i < n - 1
        invariant
            n == lit@.len(),
            n >= 2,
            1 <= i <= n - 1,
            body == lit@.subrange(1, n - 1),
            unescaped(body, false) == out@ + unescaped(lit@.subrange(i as int, n - 1), escaped),
        decreases n - 1 - i,
    {
        let ghost rest = lit@.subrange(i as int, n - 1);
        assert(rest.drop_first() =~= lit@.subrange(i + 1, n - 1));
        let c = lit[i];
        if !escaped && c == '\\' {
            escaped = true;
        } else {
            escaped = false;
            push_utf8(&mut out, c);
        }
        i = i + 1;
    }
    assert(lit@.subrange(n - 1, n - 1) =~= Seq::<char>::empty());
    assert(out@ + Seq::<u8>::empty() =~= out@);
    Some(out)
}

/// Decodes a quoted string literal into the bytes it packs, least
/// significant first; `None` when the token is not in quotes.
pub fn string_literal_to_immediate(lit: &str) -> (r: Option<Vec<u8>>)
    ensures
        match string_literal(lit@) {
            Some(b) => r matches Some(v) && v@ == b,
            None => r is None,
        },
{
    let v = chars_of(lit);
    string_literal_bytes(&v)
}

// ---- floating-point literals ----

/// `s` spells the word whose lower-case letters are `lo` and upper-case
/// letters are `up`, in any mix of cases.
pub open spec fn spells(s: Seq<char>, lo: Seq<char>, up: Seq<char>) -> bool {
    &&& s.len() == lo.len()
    &&& forall|i: int| 0 <= i < s.len() ==> s[i] == lo[i] || s[i] == up[i]
}

/// The number of decimal digits in `s` from position `i` on, before the
/// first character that is none.
pub open spec fn digit_run(s: Seq<char>, i: int) -> int
    decreases s.len() - i,
{
    if 0 <= i < s.len() && is_digit(s[i]) {
        1 + digit_run(s, i + 1)
    } else {
        0
    }
}

/// An exponent from position `q` to the end: 'e' or 'E', a sign if any,
/// and at least one digit.
pub open spec fn exponent_from(b: Seq<char>, q: int) -> bool {
    &&& q < b.len()
    &&& (b[q] == 'e' || b[q] == 'E')
    &&& {
        let d = if q + 1 < b.len() && (b[q + 1] == '+' || b[q + 1] == '-') {
            q + 2
        } else {
            q + 1
        };
        let r = digit_run(b, d);
        r > 0 && d + r == b.len()
    }
}

/// A decimal number: digits with a decimal point somewhere among them, or
/// none, at least one digit, and an exponent if any.
pub open spec fn is_decimal_number(b: Seq<char>) -> bool {
    let a = digit_run(b, 0);
    if a < b.len() && b[a] == '.' {
        let f = digit_run(b, a + 1);
        let q = a + 1 + f;
        (a > 0 || f > 0) && (q == b.len() || exponent_from(b, q))
    } else {
        a > 0 && (a == b.len() || exponent_from(b, a))
    }
}

/// What `f64::from_str` accepts: a sign if any, then "inf", "infinity" or
/// "nan" in any case, or a decimal number.
pub open spec fn is_float_literal(s: Seq<char>) -> bool {
    let b = if s.len() > 0 && (s[0] == '+' || s[0] == '-') {
        s.drop_first()
    } else {
        s
    };
    spells(b, seq!['i', 'n', 'f'], seq!['I', 'N', 'F'])
        || spells(
            b,
            seq!['i', 'n', 'f', 'i', 'n', 'i', 't', 'y'],
            seq!['I', 'N', 'F', 'I', 'N', 'I', 'T', 'Y'],
        )
        || spells(b, seq!['n', 'a', 'n'], seq!['N', 'A', 'N'])
        || is_decimal_number(b)
}

fn spells_exec(s: &Vec<char>, from: usize, lo: &Vec<char>, up: &Vec<char>) -> (r: bool)
    requires
        from <= s@.len(),
        lo@.len() == up@.len(),
    ensures
        r == spells(s@.skip(from as int), lo@, up@),
{
    if s.len() - from != lo.len() {
        return false;
    }
    let n = s.len();
    let mut i: usize = 0;
    while i < lo.len()
        invariant
            n == s@.len(),
            from <= s@.len(),
            s@.len() - from == lo@.len(),
            lo@.len() == up@.len(),
            0 <= i <= lo@.len(),
            forall|k: int| 0 <= k < i ==> s@[from + k] == lo@[k] || s@[from + k] == up@[k],
        decreases lo.len() - i,
    {
        if s[from + i] != lo[i] && s[from + i] != up[i] {
            return false;
        }
        i = i + 1;
    }
    true
}

fn digit_run_exec(s: &Vec<char>, i: usize) -> (r: usize)
    requires
        i <= s@.len(),
    ensures
        r == digit_run(s@, i as int),
        i + r <= s@.len(),
{
    let mut k: usize = i;
    while k < s.len() && '0' <= s[k] && s[k] <= '9'
        invariant
            i <= k <= s@.len(),
            digit_run(s@, i as int) == (k - i) + digit_run(s@, k as int),
        decreases s.len() - k,
    {
        k = k + 1;
    }
    k - i
}

fn exponent_from_exec(b: &Vec<char>, q: usize) -> (r: bool)
    requires
        q <= b@.len(),
    ensures
        r == exponent_from(b@, q as int),
{
    if q >= b.len() || (b[q] != 'e' && b[q] != 'E') {
        return false;
    }
    let d = if q + 1 < b.len() && (b[q + 1] == '+' || b[q + 1] == '-') {
        q + 2
    } else {
        q + 1
    };
    let r = digit_run_exec(b, d);
    r > 0 && d + r == b.len()
}

/// Whether `f64::from_str` accepts the token.
pub fn is_float_literal_exec(s: &Vec<char>) -> (r: bool)
    ensures
        r == is_float_literal(s@),
{
    let from: usize = if s.len() > 0 && (s[0] == '+' || s[0] == '-') {
        1
    } else {
        0
    };
    let ghost b = s@.skip(from as int);
    assert(from == 1 ==> b =~= s@.drop_first());
    assert(from == 0 ==> b =~= s@);
    if spells_exec(s, from, &vec!['i', 'n', 'f'], &vec!['I', 'N', 'F'])
        || spells_exec(
            s,
            from,
            &vec!['i', 'n', 'f', 'i', 'n', 'i', 't', 'y'],
            &vec!['I', 'N', 'F', 'I', 'N', 'I', 'T', 'Y'],
        )
        || spells_exec(s, from, &vec!['n', 'a', 'n'], &vec!['N', 'A', 'N'])
    {
        return true;
    }
    let mut body: Vec<char> = Vec::new();
    let mut i: usize = from;
    while i < s.len()
        invariant
            from <= i <= s@.len(),
            body@ == s@.subrange(from as int, i as int),
        decreases s.len() - i,
    {
        body.push(s[i]);
        i = i + 1;
    }
    assert(body@ =~= b);
    let a = digit_run_exec(&body, 0);
    if a < body.len() && body[a] == '.' {
        let f = digit_run_exec(&body, a + 1);
        let q = a + 1 + f;
        (a > 0 || f > 0) && (q == body.len() || exponent_from_exec(&body, q))
    } else {
        a > 0 && (a == body.len() || exponent_from_exec(&body, a))
    }
}

// ---- decimal numerals ----

/// The digit character for `d` < 10.
pub open spec fn digit_char(d: nat) -> char {
    ((48 + d) as u8) as char
}

/// The decimal numeral of `n`, without leading zeros.
pub open spec fn decimal(n: nat) -> Seq<char>
    decreases n,
{
    if n < 10 {
        seq![digit_char(n)]
    } else {
        decimal(n / 10).push(digit_char(n % 10))
    }
}

fn decimal_chars(n: u128) -> (r: Vec<char>)
    ensures
        r@ == decimal(n as nat),
    decreases n,
{
    if n < 10 {
        vec![((48 + n) as u8) as char]
    } else {
        let mut v = decimal_chars(n / 10);
        v.push(((48 + n % 10) as u8) as char);
        v
    }
}

/// The decimal numeral of `n`.
pub fn decimal_string(n: u128) -> (r: String)
    ensures
        r@ == decimal(n as nat),
{
    string_of(&decimal_chars(n))
}

} // verus!
