//! Identifiers: which texts are identifiers, the names of nested types, and
//! the variant names made from file names.

use vstd::prelude::*;

use crate::text::{append_decimal, decimal};

verus! {

/// Whether a character has the Unicode property `XID_Start`.
pub uninterp spec fn xid_start(c: char) -> bool;

/// Whether a character has the Unicode property `XID_Continue`.
pub uninterp spec fn xid_continue(c: char) -> bool;

/// Trusted: `unicode_ident::is_xid_start`, which looks the character up in
/// the crate's tables of the property `XID_Start`.  The result depends on
/// the character alone.
#[verifier::external_body]
fn is_xid_start(c: char) -> (r: bool)
    ensures
        r == xid_start(c),
{
    unicode_ident::is_xid_start(c)
}

/// Trusted: `unicode_ident::is_xid_continue`, which looks the character up
/// in the crate's tables of the property `XID_Continue`.  The result
/// depends on the character alone.
#[verifier::external_body]
fn is_xid_continue(c: char) -> (r: bool)
    ensures
        r == xid_continue(c),
{
    unicode_ident::is_xid_continue(c)
}

/// A text is an identifier when it is not empty, starts with `_` or a
/// character of `XID_Start`, and goes on with characters of `XID_Continue`.
/// Reserved words are identifiers in this sense.
pub open spec fn identifier(s: Seq<char>) -> bool {
    &&& s.len() > 0
    &&& (s[0] == '_' || xid_start(s[0]))
    &&& forall|i: int| 1 <= i < s.len() ==> xid_continue(#[trigger] s[i])
}

/// Whether `s` is an identifier.
pub fn valid_identifier(s: &str) -> (r: bool)
    ensures
        r == identifier(s@),
{
    let n: usize = s.unicode_len();
    if n == 0 {
        return false;
    }
    let first: char = s.get_char(0);
    if !(first == '_' || is_xid_start(first)) {
        return false;
    }
    let mut i: usize = 1;
    while i < n
        invariant
            1 <= i <= n,
            n == s@.len(),
            forall|k: int| 1 <= k < i ==> xid_continue(#[trigger] s@[k]),
        decreases n - i,
    {
        if !is_xid_continue(s.get_char(i)) {
            return false;
        }
        i = i + 1;
    }
    true
}

/// The name of what stands under the key `key` of the record named
/// `context`.
pub open spec fn field_context(context: Seq<char>, key: Seq<char>) -> Seq<char> {
    context + "__"@ + key
}

/// The name of what stands in slot `index` of a tuple named `context`.
pub open spec fn slot_context(context: Seq<char>, index: nat) -> Seq<char> {
    context + "__"@ + decimal(index)
}

/// The name of what stands under the key `key` of the record named
/// `context`.
pub fn field_name(context: &str, key: &str) -> (r: String)
    ensures
        r@ == field_context(context@, key@),
{
    let mut name = String::from_str(context);
    name.append("__");
    name.append(key);
    name
}

/// The name of what stands in slot `index` of a tuple named `context`.
pub fn slot_name(context: &str, index: usize) -> (r: String)
    ensures
        r@ == slot_context(context@, index as nat),
{
    let mut name = String::from_str(context);
    name.append("__");
    append_decimal(&mut name, index as u128);
    name
}

/// The ASCII capital of a small ASCII letter; any other character itself.
pub open spec fn ascii_upper(c: char) -> char {
    if 'a' <= c && c <= 'z' {
        ((c as int) - 32) as char
    } else {
        c
    }
}

/// The first `n` characters of a snake-case text in camel case: every
/// underscore is left out, and a character that starts the text or follows
/// an underscore is put in ASCII upper case.
pub open spec fn camel_case(s: Seq<char>, n: nat) -> Seq<char>
    decreases n,
{
    if n == 0 || n > s.len() {
        Seq::empty()
    } else {
        let c = s[n - 1];
        let before = camel_case(s, (n - 1) as nat);
        if c == '_' {
            before
        } else if n == 1 || s[n - 2] == '_' {
            before.push(ascii_upper(c))
        } else {
            before.push(c)
        }
    }
}

/// The camel-case form of a snake-case text.
///
/// Trusted: `case::CaseExt::to_camel` for `str`.  Its source walks the
/// characters once, drops each underscore, and writes with
/// `to_ascii_uppercase` the first character that is no underscore and each
/// one that follows an underscore; the others it copies.
#[verifier::external_body]
pub(crate) fn to_camel(s: &str) -> (r: String)
    ensures
        r@ == camel_case(s@, s@.len()),
{
    case::CaseExt::to_camel(s)
}

} // verus!
