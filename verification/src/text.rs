//! Pieces of source text: numerals, quoted literals, and how pieces are set
//! side by side.

use vstd::prelude::*;

verus! {

/// The text of one digit below sixteen.
pub open spec fn digit_text(d: nat) -> Seq<char> {
    if d == 0 {
        "0"@
    } else if d == 1 {
        "1"@
    } else if d == 2 {
        "2"@
    } else if d == 3 {
        "3"@
    } else if d == 4 {
        "4"@
    } else if d == 5 {
        "5"@
    } else if d == 6 {
        "6"@
    } else if d == 7 {
        "7"@
    } else if d == 8 {
        "8"@
    } else if d == 9 {
        "9"@
    } else if d == 10 {
        "a"@
    } else if d == 11 {
        "b"@
    } else if d == 12 {
        "c"@
    } else if d == 13 {
        "d"@
    } else if d == 14 {
        "e"@
    } else {
        "f"@
    }
}

/// The decimal numeral of a natural number, without leading zeros.
pub open spec fn decimal(n: nat) -> Seq<char>
    decreases n,
{
    if n < 10 {
        digit_text(n)
    } else {
        decimal(n / 10) + digit_text(n % 10)
    }
}

/// The decimal numeral of an integer: `-` before the numeral of a negative
/// number's magnitude.
pub open spec fn signed_decimal(x: int) -> Seq<char> {
    if x < 0 {
        "-"@ + decimal((-x) as nat)
    } else {
        decimal(x as nat)
    }
}

/// The hexadecimal numeral of a natural number, in lower case and without
/// leading zeros.
pub open spec fn hexadecimal(n: nat) -> Seq<char>
    decreases n,
{
    if n < 16 {
        digit_text(n)
    } else {
        hexadecimal(n / 16) + digit_text(n % 16)
    }
}

/// How one character stands between quotes of the kind `quote`: a
/// backslash escape for backslash, line feed, carriage return, tab and the
/// quote itself; the character itself if it is printable ASCII; its code in
/// `\u{..}` otherwise.
///
/// The text is plain ASCII throughout.  A writer may as well keep a
/// printable character beyond ASCII as it is, and write `\0` for the
/// character of code 0: both denote the same text as the escape by code
/// that stands here.
pub open spec fn escaped(c: char, quote: char) -> Seq<char> {
    if c == '\\' {
        "\\\\"@
    } else if c == '\n' {
        "\\n"@
    } else if c == '\r' {
        "\\r"@
    } else if c == '\t' {
        "\\t"@
    } else if c == quote {
        "\\"@.push(c)
    } else if ' ' <= c && c <= '~' {
        Seq::<char>::empty().push(c)
    } else {
        "\\u{"@ + hexadecimal(c as nat) + "}"@
    }
}

/// The escapes of the first `n` characters of a text, in order.
pub open spec fn escaped_text(s: Seq<char>, quote: char, n: nat) -> Seq<char>
    decreases n,
{
    if n == 0 || n > s.len() {
        Seq::empty()
    } else {
        escaped_text(s, quote, (n - 1) as nat) + escaped(s[n - 1], quote)
    }
}

/// A string literal that denotes `s`.
pub open spec fn string_literal(s: Seq<char>) -> Seq<char> {
    "\""@ + escaped_text(s, '"', s.len()) + "\""@
}

/// A character literal that denotes `c`.
pub open spec fn char_literal(c: char) -> Seq<char> {
    "'"@ + escaped(c, '\'') + "'"@
}

/// Two pieces of text with one space between them; a piece that is empty
/// adds nothing, not even the space.
pub open spec fn spaced(a: Seq<char>, b: Seq<char>) -> Seq<char> {
    if a.len() == 0 {
        b
    } else if b.len() == 0 {
        a
    } else {
        a + " "@ + b
    }
}

/// Appends one character.
///
/// Trusted: `String::push` of the standard library, which is documented to
/// append the given character to the end of the string.
#[verifier::external_body]
pub(crate) fn push_char(out: &mut String, c: char)
    ensures
        final(out)@ == old(out)@.push(c),
{
    out.push(c)
}

/// The text of one digit below sixteen.
pub(crate) fn digit_str(d: u8) -> (r: &'static str)
    requires
        d < 16,
    ensures
        r@ == digit_text(d as nat),
{
    if d == 0 {
        "0"
    } else if d == 1 {
        "1"
    } else if d == 2 {
        "2"
    } else if d == 3 {
        "3"
    } else if d == 4 {
        "4"
    } else if d == 5 {
        "5"
    } else if d == 6 {
        "6"
    } else if d == 7 {
        "7"
    } else if d == 8 {
        "8"
    } else if d == 9 {
        "9"
    } else if d == 10 {
        "a"
    } else if d == 11 {
        "b"
    } else if d == 12 {
        "c"
    } else if d == 13 {
        "d"
    } else if d == 14 {
        "e"
    } else {
        "f"
    }
}

/// Appends the decimal numeral of `n`.
pub fn append_decimal(out: &mut String, n: u128)
    ensures
        final(out)@ == old(out)@ + decimal(n as nat),
    decreases n,
{
    if n >= 10 {
        append_decimal(out, n / 10);
    }
    out.append(digit_str((n % 10) as u8));
}

/// Appends the decimal numeral of `x`.
pub fn append_signed_decimal(out: &mut String, x: i128)
    ensures
        final(out)@ == old(out)@ + signed_decimal(x as int),
{
    if x < 0 {
        let magnitude: u128 = ((-(x + 1)) as u128) + 1;
        out.append("-");
        append_decimal(out, magnitude);
    } else {
        append_decimal(out, x as u128);
    }
}

/// Appends the hexadecimal numeral of `n`.
pub fn append_hexadecimal(out: &mut String, n: u32)
    ensures
        final(out)@ == old(out)@ + hexadecimal(n as nat),
    decreases n,
{
    if n >= 16 {
        append_hexadecimal(out, n / 16);
    }
    out.append(digit_str((n % 16) as u8));
}

/// Appends `c` as it stands between quotes of the kind `quote`.
pub fn append_escaped(out: &mut String, c: char, quote: char)
    ensures
        final(out)@ == old(out)@ + escaped(c, quote),
{
    if c == '\\' {
        out.append("\\\\");
    } else if c == '\n' {
        out.append("\\n");
    } else if c == '\r' {
        out.append("\\r");
    } else if c == '\t' {
        out.append("\\t");
    } else if c == quote {
        out.append("\\");
        push_char(out, c);
    } else if ' ' <= c && c <= '~' {
        push_char(out, c);
    } else {
        out.append("\\u{");
        append_hexadecimal(out, c as u32);
        out.append("}");
    }
}

/// Appends a string literal that denotes `s`.
pub fn append_string_literal(out: &mut String, s: &str)
    ensures
        final(out)@ == old(out)@ + string_literal(s@),
{
    let ghost before = out@;
    out.append("\"");
    for c in iter: s.chars()
        invariant
            iter.seq() == s@,
            out@ == before + "\""@ + escaped_text(s@, '"', iter.index() as nat),
    {
        append_escaped(out, c, '"');
    }
    out.append("\"");
}

/// Appends a character literal that denotes `c`.
pub fn append_char_literal(out: &mut String, c: char)
    ensures
        final(out)@ == old(out)@ + char_literal(c),
{
    out.append("'");
    append_escaped(out, c, '\'');
    out.append("'");
}

/// Appends `piece` after one space; without the space where `out` is empty,
/// and nothing where `piece` is.
pub fn append_spaced(out: &mut String, piece: &str)
    ensures
        final(out)@ == spaced(old(out)@, piece@),
{
    if piece.is_empty() {
        return ;
    }
    if !out.as_str().is_empty() {
        out.append(" ");
    }
    out.append(piece);
}

} // verus!
