//! The literal tokens that the syntax tree can read.
//!
//! `syn` turns a literal token into a literal by reading its text, and stops
//! the program on a text that it cannot read: a literal of a kind it does not
//! know, an escape it does not know, a missing closing quote, a number of no
//! shape it knows. [`readable_literal`] says of a text, character by
//! character, that it is none of these.
//!
//! It admits fewer texts than `syn` reads. A number begins with a digit, has
//! a digit after its prefix, after its point and in its exponent, and carries
//! the suffix of a number type or none. A unicode escape holds no underscore,
//! and a backslash at the end of a line stands before a line feed.

use vstd::prelude::*;
use vstd::string::*;

verus! {

/// Whether a character is a decimal digit.
pub open spec fn is_digit(c: char) -> bool {
    '0' <= c && c <= '9'
}

/// Whether a character is a hexadecimal digit.
pub open spec fn is_hex(c: char) -> bool {
    ('0' <= c && c <= '9') || ('a' <= c && c <= 'f') || ('A' <= c && c <= 'F')
}

/// The value of a hexadecimal digit.
pub open spec fn hex_value(c: char) -> int {
    if '0' <= c && c <= '9' {
        c as int - '0' as int
    } else if 'a' <= c && c <= 'f' {
        c as int - 'a' as int + 10
    } else {
        c as int - 'A' as int + 10
    }
}

/// Whether a character is a digit of a number written to the base 2, 8, 10
/// or 16.
pub open spec fn is_digit_in(c: char, base: int) -> bool {
    if base == 16 {
        is_hex(c)
    } else {
        '0' <= c && (c as int) < ('0' as int) + base
    }
}

/// Whether a number is the code of a character: none of the surrogates, and
/// none beyond the last code.
pub open spec fn is_scalar(value: int) -> bool {
    0 <= value < 0xD800 || 0xE000 <= value <= 0x10FFFF
}

/// Where the digits of a unicode escape end, after the closing brace: the
/// escape holds one to six hexadecimal digits, which give the code of a
/// character. `count` digits of the value `value` lie before `j`.
pub open spec fn unicode_end(text: Seq<char>, j: int, count: int, value: int) -> Option<int>
    decreases text.len() - j,
{
    if j < 0 || j >= text.len() {
        None
    } else if text[j] == '}' {
        if count >= 1 && is_scalar(value) {
            Some(j + 1)
        } else {
            None
        }
    } else if is_hex(text[j]) && count < 6 {
        unicode_end(text, j + 1, count + 1, value * 16 + hex_value(text[j]))
    } else {
        None
    }
}

/// Where the escape that begins with the backslash at `i` ends, if it is a
/// known escape.
///
/// Known everywhere are `\n`, `\r`, `\t`, `\\`, `\0`, `\'`, `\"` and `\x`
/// with two hexadecimal digits. Outside byte literals the first digit after
/// `\x` is below 8, and `\u{..}` is known too. Where `lines` is set, a
/// backslash before the end of a line is known.
pub open spec fn escape_end(text: Seq<char>, i: int, bytes: bool, lines: bool) -> Option<int> {
    if i < 0 || i + 1 >= text.len() {
        None
    } else {
        let e = text[i + 1];
        if e == 'n' || e == 'r' || e == 't' || e == '\\' || e == '0' || e == '\'' || e == '"' {
            Some(i + 2)
        } else if e == '\n' && lines {
            Some(i + 2)
        } else if e == 'x' {
            if i + 3 < text.len() && is_hex(text[i + 2]) && is_hex(text[i + 3]) && (bytes
                || hex_value(text[i + 2]) < 8) {
                Some(i + 4)
            } else {
                None
            }
        } else if e == 'u' && !bytes {
            if i + 2 < text.len() && text[i + 2] == '{' {
                unicode_end(text, i + 3, 0, 0)
            } else {
                None
            }
        } else {
            None
        }
    }
}

/// Whether the content of a string or byte string that goes on at `i` is
/// well formed up to a closing quote: every backslash begins a known escape,
/// and a carriage return stands before a line feed.
pub open spec fn quoted_end(text: Seq<char>, i: int, bytes: bool) -> bool
    decreases text.len() - i,
{
    if i < 0 || i >= text.len() {
        false
    } else if text[i] == '"' {
        true
    } else if text[i] == '\\' {
        match escape_end(text, i, bytes, true) {
            Some(j) => if i < j <= text.len() {
                quoted_end(text, j, bytes)
            } else {
                false
            },
            None => false,
        }
    } else if text[i] == '\r' {
        i + 1 < text.len() && text[i + 1] == '\n' && quoted_end(text, i + 2, bytes)
    } else {
        quoted_end(text, i + 1, bytes)
    }
}

/// Whether a character or byte literal whose content begins at `i` is well
/// formed: one character or one known escape, and then the closing quote. A
/// byte is one character of the first 128.
pub open spec fn single_ok(text: Seq<char>, i: int, bytes: bool) -> bool {
    if i < 0 || i >= text.len() {
        false
    } else if text[i] == '\\' {
        match escape_end(text, i, bytes, false) {
            Some(j) => 0 <= j < text.len() && text[j] == '\'',
            None => false,
        }
    } else {
        (!bytes || text[i] <= '\x7f') && i + 1 < text.len() && text[i + 1] == '\''
    }
}

/// The first place from `i` on that holds no `#`.
pub open spec fn pounds_end(text: Seq<char>, i: int) -> int
    decreases text.len() - i,
{
    if 0 <= i < text.len() && text[i] == '#' {
        pounds_end(text, i + 1)
    } else {
        i
    }
}

/// The place of the last double quote among the first `n` characters, or -1
/// where there is none.
pub open spec fn last_quote(text: Seq<char>, n: int) -> int
    decreases n,
{
    if n <= 0 {
        -1
    } else if text[n - 1] == '"' {
        n - 1
    } else {
        last_quote(text, n - 1)
    }
}

/// Whether the places from `from` up to `to` all hold `#`.
pub open spec fn all_pounds(text: Seq<char>, from: int, to: int) -> bool {
    forall|k: int| from <= k < to ==> #[trigger] text[k] == '#'
}

/// Whether a raw string that begins at `start`, after its `r`, is well
/// formed: some `#`, a quote, and after the last quote of the text at least
/// as many `#` again.
pub open spec fn raw_ok(text: Seq<char>, start: int) -> bool {
    let open = pounds_end(text, start);
    let pounds = open - start;
    let close = last_quote(text, text.len() as int);
    &&& 0 <= start <= open < text.len()
    &&& text[open] == '"'
    &&& close > open
    &&& close + pounds < text.len()
    &&& all_pounds(text, close + 1, close + 1 + pounds)
}

/// The first place from `i` on that holds neither a digit to the base nor an
/// underscore.
pub open spec fn run_end(text: Seq<char>, i: int, base: int) -> int
    decreases text.len() - i,
{
    if 0 <= i < text.len() && (is_digit_in(text[i], base) || text[i] == '_') {
        run_end(text, i + 1, base)
    } else {
        i
    }
}

/// Whether the text from `i` to its end is the width of an integer type:
/// `8`, `16`, `32`, `64`, `128` or `size`.
pub open spec fn is_width(text: Seq<char>, i: int) -> bool {
    let n = text.len() - i;
    ||| n == 1 && text[i] == '8'
    ||| n == 2 && text[i] == '1' && text[i + 1] == '6'
    ||| n == 2 && text[i] == '3' && text[i + 1] == '2'
    ||| n == 2 && text[i] == '6' && text[i + 1] == '4'
    ||| n == 3 && text[i] == '1' && text[i + 1] == '2' && text[i + 2] == '8'
    ||| n == 4 && text[i] == 's' && text[i + 1] == 'i' && text[i + 2] == 'z' && text[i + 3] == 'e'
}

/// Whether the text from `i` to its end is the width of a float type: `32`
/// or `64`.
pub open spec fn is_float_width(text: Seq<char>, i: int) -> bool {
    let n = text.len() - i;
    ||| n == 2 && text[i] == '3' && text[i + 1] == '2'
    ||| n == 2 && text[i] == '6' && text[i + 1] == '4'
}

/// Whether the text ends at `i` or goes on with the suffix of a number type
/// and nothing else: an integer type where `ints` is set, a float type where
/// `floats` is set.
pub open spec fn suffix_ok(text: Seq<char>, i: int, ints: bool, floats: bool) -> bool {
    ||| i == text.len()
    ||| ints && 0 <= i < text.len() && (text[i] == 'u' || text[i] == 'i') && is_width(text, i + 1)
    ||| floats && 0 <= i < text.len() && text[i] == 'f' && is_float_width(text, i + 1)
}

/// Whether the text from `i` on is an exponent with at least one digit, where
/// it begins with `e` or `E`, and then a suffix.
pub open spec fn exponent_ok(text: Seq<char>, i: int, ints: bool) -> bool {
    if 0 <= i < text.len() && (text[i] == 'e' || text[i] == 'E') {
        let k = if i + 1 < text.len() && (text[i + 1] == '+' || text[i + 1] == '-') {
            i + 2
        } else {
            i + 1
        };
        k < text.len() && is_digit(text[k]) && suffix_ok(text, run_end(text, k, 10), false, true)
    } else {
        suffix_ok(text, i, ints, true)
    }
}

/// Whether a text that begins with a digit is a number of a known shape.
///
/// After `0x`, `0o` or `0b` stand a digit to that base, more digits and
/// underscores, and the suffix of an integer type or none. Any other number
/// is decimal digits and underscores, then a point with a digit after it or
/// none, then an exponent or none, then a suffix or none; after a point or
/// an exponent the suffix is that of a float type.
pub open spec fn number_ok(text: Seq<char>) -> bool {
    if text.len() >= 2 && text[0] == '0' && (text[1] == 'x' || text[1] == 'o' || text[1] == 'b') {
        let base: int = if text[1] == 'x' {
            16
        } else if text[1] == 'o' {
            8
        } else {
            2
        };
        text.len() > 2 && is_digit_in(text[2], base) && suffix_ok(
            text,
            run_end(text, 2, base),
            true,
            false,
        )
    } else {
        let whole = run_end(text, 0, 10);
        if whole < text.len() && text[whole] == '.' {
            whole + 1 < text.len() && is_digit(text[whole + 1]) && exponent_ok(
                text,
                run_end(text, whole + 1, 10),
                false,
            )
        } else {
            exponent_ok(text, whole, true)
        }
    }
}

/// Whether the text of a literal token is one that the syntax tree can read:
/// a string, a raw string, a byte string, a raw byte string, a byte, a
/// character or a number, well formed as the functions above say.
pub open spec fn readable_literal(text: Seq<char>) -> bool {
    if text.len() == 0 {
        false
    } else if text[0] == '"' {
        quoted_end(text, 1, false)
    } else if text[0] == 'r' {
        raw_ok(text, 1)
    } else if text[0] == 'b' {
        if text.len() < 2 {
            false
        } else if text[1] == '"' {
            quoted_end(text, 2, true)
        } else if text[1] == 'r' {
            raw_ok(text, 2)
        } else if text[1] == '\'' {
            single_ok(text, 2, true)
        } else {
            false
        }
    } else if text[0] == '\'' {
        single_ok(text, 1, false)
    } else if is_digit(text[0]) {
        number_ok(text)
    } else {
        false
    }
}

/// The most that `count` hexadecimal digits can come to, and one more.
spec fn hex_bound(count: int) -> int {
    if count <= 0 {
        1
    } else if count == 1 {
        0x10
    } else if count == 2 {
        0x100
    } else if count == 3 {
        0x1000
    } else if count == 4 {
        0x10000
    } else if count == 5 {
        0x100000
    } else {
        0x1000000
    }
}

fn hex(c: char) -> (r: bool)
    ensures
        r == is_hex(c),
{
    ('0' <= c && c <= '9') || ('a' <= c && c <= 'f') || ('A' <= c && c <= 'F')
}

fn hex_digit(c: char) -> (value: u32)
    requires
        is_hex(c),
    ensures
        value == hex_value(c),
        value < 16,
{
    if '0' <= c && c <= '9' {
        c as u32 - '0' as u32
    } else if 'a' <= c && c <= 'f' {
        c as u32 - 'a' as u32 + 10
    } else {
        c as u32 - 'A' as u32 + 10
    }
}

fn digit_in(c: char, base: u32) -> (r: bool)
    requires
        base == 2 || base == 8 || base == 10 || base == 16,
    ensures
        r == is_digit_in(c, base as int),
{
    if base == 16 {
        hex(c)
    } else {
        '0' <= c && (c as u32) < ('0' as u32) + base
    }
}

fn chars_of(text: &str) -> (chars: Vec<char>)
    ensures
        chars@ == text@,
{
    let n = text.unicode_len();
    let mut chars: Vec<char> = Vec::new();
    let mut i: usize = 0;
    while i < n
        invariant
            i <= n,
            n == text@.len(),
            chars@ == text@.take(i as int),
        decreases n - i,
    {
        chars.push(text.get_char(i));
        assert(chars@ =~= text@.take(i + 1));
        i += 1;
    }
    assert(text@.take(n as int) =~= text@);
    chars
}

fn unicode(text: &Vec<char>, start: usize) -> (end: Option<usize>)
    ensures
        match end {
            Some(j) => unicode_end(text@, start as int, 0, 0) == Some(j as int) && start < j
                <= text.len(),
            None => unicode_end(text@, start as int, 0, 0) is None,
        },
{
    let mut j: usize = start;
    let mut count: u32 = 0;
    let mut value: u32 = 0;
    while j < text.len()
        invariant
            start <= j,
            count <= 6,
            0 <= value < hex_bound(count as int),
            unicode_end(text@, start as int, 0, 0) == unicode_end(
                text@,
                j as int,
                count as int,
                value as int,
            ),
        decreases text.len() - j,
    {
        let c = text[j];
        if c == '}' {
            if count >= 1 && (value < 0xD800 || (0xE000 <= value && value <= 0x10FFFF)) {
                return Some(j + 1);
            } else {
                return None;
            }
        } else if hex(c) && count < 6 {
            value = value * 16 + hex_digit(c);
            count += 1;
            j += 1;
        } else {
            return None;
        }
    }
    None
}

fn escape(text: &Vec<char>, i: usize, bytes: bool, lines: bool) -> (end: Option<usize>)
    ensures
        match end {
            Some(j) => escape_end(text@, i as int, bytes, lines) == Some(j as int) && i < j
                <= text.len(),
            None => escape_end(text@, i as int, bytes, lines) is None,
        },
{
    if i >= text.len() || text.len() - i < 2 {
        return None;
    }
    let e = text[i + 1];
    if e == 'n' || e == 'r' || e == 't' || e == '\\' || e == '0' || e == '\'' || e == '"' {
        Some(i + 2)
    } else if e == '\n' && lines {
        Some(i + 2)
    } else if e == 'x' {
        if text.len() - i >= 4 && hex(text[i + 2]) && hex(text[i + 3]) && (bytes || hex_digit(
            text[i + 2],
        ) < 8) {
            Some(i + 4)
        } else {
            None
        }
    } else if e == 'u' && !bytes {
        if text.len() - i >= 3 && text[i + 2] == '{' {
            unicode(text, i + 3)
        } else {
            None
        }
    } else {
        None
    }
}

fn quoted(text: &Vec<char>, start: usize, bytes: bool) -> (ok: bool)
    ensures
        ok == quoted_end(text@, start as int, bytes),
{
    let mut i: usize = start;
    while i < text.len()
        invariant
            start <= i,
            quoted_end(text@, start as int, bytes) == quoted_end(text@, i as int, bytes),
        decreases text.len() - i,
    {
        let c = text[i];
        if c == '"' {
            return true;
        } else if c == '\\' {
            match escape(text, i, bytes, true) {
                Some(j) => {
                    i = j;
                },
                None => {
                    return false;
                },
            }
        } else if c == '\r' {
            if text.len() - i >= 2 && text[i + 1] == '\n' {
                i += 2;
            } else {
                return false;
            }
        } else {
            i += 1;
        }
    }
    false
}

fn single(text: &Vec<char>, i: usize, bytes: bool) -> (ok: bool)
    ensures
        ok == single_ok(text@, i as int, bytes),
{
    if i >= text.len() {
        return false;
    }
    let c = text[i];
    if c == '\\' {
        match escape(text, i, bytes, false) {
            Some(j) => j < text.len() && text[j] == '\'',
            None => false,
        }
    } else {
        (!bytes || c <= '\x7f') && text.len() - i >= 2 && text[i + 1] == '\''
    }
}

fn raw(text: &Vec<char>, start: usize) -> (ok: bool)
    ensures
        ok == raw_ok(text@, start as int),
{
    let mut open: usize = start;
    while open < text.len() && text[open] == '#'
        invariant
            start <= open,
            pounds_end(text@, start as int) == pounds_end(text@, open as int),
        decreases text.len() - open,
    {
        open += 1;
    }
    if open >= text.len() || text[open] != '"' {
        return false;
    }
    let pounds = open - start;
    let mut n: usize = text.len();
    while n > 0 && text[n - 1] != '"'
        invariant
            n <= text.len(),
            last_quote(text@, text.len() as int) == last_quote(text@, n as int),
        decreases n,
    {
        n -= 1;
    }
    if n == 0 {
        return false;
    }
    let close = n - 1;
    if close <= open || text.len() - close <= pounds {
        return false;
    }
    let mut k: usize = close + 1;
    while k < close + 1 + pounds
        invariant
            close + 1 <= k <= close + 1 + pounds,
            close + pounds < text.len(),
            start <= open,
            pounds == open - start,
            open == pounds_end(text@, start as int),
            close == last_quote(text@, text.len() as int),
            all_pounds(text@, close + 1, k as int),
        decreases close + 1 + pounds - k,
    {
        if text[k] != '#' {
            assert(text@[k as int] != '#');
            assert(!all_pounds(text@, close + 1, close + 1 + pounds));
            return false;
        }
        k += 1;
    }
    true
}

fn run(text: &Vec<char>, start: usize, base: u32) -> (end: usize)
    requires
        base == 2 || base == 8 || base == 10 || base == 16,
    ensures
        end == run_end(text@, start as int, base as int),
        start <= end,
        end <= text.len() || end == start,
{
    let mut i: usize = start;
    while i < text.len() && (digit_in(text[i], base) || text[i] == '_')
        invariant
            base == 2 || base == 8 || base == 10 || base == 16,
            start <= i,
            i <= text.len() || i == start,
            run_end(text@, start as int, base as int) == run_end(text@, i as int, base as int),
        decreases text.len() - i,
    {
        i += 1;
    }
    i
}

fn width(text: &Vec<char>, i: usize) -> (ok: bool)
    requires
        i <= text.len(),
    ensures
        ok == is_width(text@, i as int),
{
    let n = text.len() - i;
    (n == 1 && text[i] == '8') || (n == 2 && text[i] == '1' && text[i + 1] == '6') || (n == 2
        && text[i] == '3' && text[i + 1] == '2') || (n == 2 && text[i] == '6' && text[i + 1]
        == '4') || (n == 3 && text[i] == '1' && text[i + 1] == '2' && text[i + 2] == '8') || (n
        == 4 && text[i] == 's' && text[i + 1] == 'i' && text[i + 2] == 'z' && text[i + 3] == 'e')
}

fn float_width(text: &Vec<char>, i: usize) -> (ok: bool)
    requires
        i <= text.len(),
    ensures
        ok == is_float_width(text@, i as int),
{
    let n = text.len() - i;
    (n == 2 && text[i] == '3' && text[i + 1] == '2') || (n == 2 && text[i] == '6' && text[i + 1]
        == '4')
}

fn suffix(text: &Vec<char>, i: usize, ints: bool, floats: bool) -> (ok: bool)
    ensures
        ok == suffix_ok(text@, i as int, ints, floats),
{
    if i == text.len() {
        return true;
    }
    if i > text.len() {
        return false;
    }
    (ints && (text[i] == 'u' || text[i] == 'i') && width(text, i + 1)) || (floats && text[i] == 'f'
        && float_width(text, i + 1))
}

fn exponent(text: &Vec<char>, i: usize, ints: bool) -> (ok: bool)
    ensures
        ok == exponent_ok(text@, i as int, ints),
{
    if i < text.len() && (text[i] == 'e' || text[i] == 'E') {
        let k = if text.len() - i >= 2 && (text[i + 1] == '+' || text[i + 1] == '-') {
            i + 2
        } else {
            i + 1
        };
        k < text.len() && '0' <= text[k] && text[k] <= '9' && suffix(
            text,
            run(text, k, 10),
            false,
            true,
        )
    } else {
        suffix(text, i, ints, true)
    }
}

fn number(text: &Vec<char>) -> (ok: bool)
    ensures
        ok == number_ok(text@),
{
    if text.len() >= 2 && text[0] == '0' && (text[1] == 'x' || text[1] == 'o' || text[1] == 'b') {
        let base: u32 = if text[1] == 'x' {
            16
        } else if text[1] == 'o' {
            8
        } else {
            2
        };
        text.len() > 2 && digit_in(text[2], base) && suffix(text, run(text, 2, base), true, false)
    } else {
        let whole = run(text, 0, 10);
        if whole < text.len() && text[whole] == '.' {
            text.len() - whole >= 2 && '0' <= text[whole + 1] && text[whole + 1] <= '9' && exponent(
                text,
                run(text, whole + 1, 10),
                false,
            )
        } else {
            exponent(text, whole, true)
        }
    }
}

/// Tests whether the text of a literal token is one that the syntax tree
/// can read.
pub fn literal_is_readable(text: &str) -> (readable: bool)
    ensures
        readable == readable_literal(text@),
{
    let chars = chars_of(text);
    if chars.len() == 0 {
        return false;
    }
    let first = chars[0];
    if first == '"' {
        quoted(&chars, 1, false)
    } else if first == 'r' {
        raw(&chars, 1)
    } else if first == 'b' {
        if chars.len() < 2 {
            false
        } else if chars[1] == '"' {
            quoted(&chars, 2, true)
        } else if chars[1] == 'r' {
            raw(&chars, 2)
        } else if chars[1] == '\'' {
            single(&chars, 2, true)
        } else {
            false
        }
    } else if first == '\'' {
        single(&chars, 1, false)
    } else if '0' <= first && first <= '9' {
        number(&chars)
    } else {
        false
    }
}

} // verus!
