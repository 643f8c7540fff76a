//! The `derive` attribute of a generated item.

use vstd::prelude::*;

use crate::names::{identifier, valid_identifier};
use crate::options::{texts, SerdeSupport};

verus! {

/// Whether `::` stands at position `i` of a text.
pub open spec fn colons_at(s: Seq<char>, i: int) -> bool {
    0 <= i && i + 1 < s.len() && s[i] == ':' && s[i + 1] == ':'
}

/// The first position below `n` at which `::` stands, or `n` where it
/// stands at none of them.
pub open spec fn first_colons(s: Seq<char>, n: nat) -> nat
    decreases n,
{
    if n == 0 {
        0
    } else {
        let before = first_colons(s, (n - 1) as nat);
        if before < n - 1 || colons_at(s, n - 1) {
            before
        } else {
            n
        }
    }
}

/// Where a trait path is split: at its first `::`, or at its length where
/// it has none.
pub open spec fn split_point(s: Seq<char>) -> nat {
    first_colons(s, s.len())
}

/// A trait path is a name, or a crate and a name with `::` between them.
/// Crate and name are identifiers.
pub open spec fn trait_path(s: Seq<char>) -> bool {
    let at = split_point(s);
    if at < s.len() {
        identifier(s.subrange(0, at as int)) && identifier(s.subrange(at as int + 2, s.len() as int))
    } else {
        identifier(s)
    }
}

/// How a trait path is written: a name as it is, a crate and a name with
/// ` :: ` between them.
pub open spec fn render_trait(s: Seq<char>) -> Seq<char> {
    let at = split_point(s);
    if at < s.len() {
        s.subrange(0, at as int) + " :: "@ + s.subrange(at as int + 2, s.len() as int)
    } else {
        s
    }
}

/// Two lists with ` , ` between them; a list that is empty adds nothing,
/// not even the comma.
pub open spec fn listed(a: Seq<char>, b: Seq<char>) -> Seq<char> {
    if a.len() == 0 {
        b
    } else if b.len() == 0 {
        a
    } else {
        a + " , "@ + b
    }
}

/// The first `n` trait paths written as a list.
pub open spec fn render_traits(traits: Seq<Seq<char>>, n: nat) -> Seq<char>
    decreases n,
{
    if n == 0 || n > traits.len() {
        Seq::empty()
    } else {
        listed(render_traits(traits, (n - 1) as nat), render_trait(traits[n - 1]))
    }
}

/// Whether one of the first `n` trait paths is `Debug`.
pub open spec fn names_debug(traits: Seq<Seq<char>>, n: nat) -> bool
    decreases n,
{
    if n == 0 || n > traits.len() {
        false
    } else {
        names_debug(traits, (n - 1) as nat) || traits[n - 1] == "Debug"@
    }
}

/// The list of what an item derives: the traits asked for in their order,
/// then `serde :: Serialize` and `serde :: Deserialize` as far as the
/// support for `serde` asks for them, then `Debug` where it is required
/// and not yet asked for.
pub open spec fn derive_list(traits: Seq<Seq<char>>, serde: SerdeSupport, require_debug: bool)
    -> Seq<char> {
    let asked = render_traits(traits, traits.len());
    let serialize = serde.derived() is Some && serde.derived()->Some_0.0;
    let deserialize = serde.derived() is Some && serde.derived()->Some_0.1;
    let with_ser = if serialize {
        listed(asked, "serde :: Serialize"@)
    } else {
        asked
    };
    let with_de = if deserialize {
        listed(with_ser, "serde :: Deserialize"@)
    } else {
        with_ser
    };
    if require_debug && !names_debug(traits, traits.len()) {
        listed(with_de, "Debug"@)
    } else {
        with_de
    }
}

/// The attribute that derives the list; nothing where the list is empty.
pub open spec fn derive_text(traits: Seq<Seq<char>>, serde: SerdeSupport, require_debug: bool)
    -> Seq<char> {
    let list = derive_list(traits, serde, require_debug);
    if list.len() == 0 {
        Seq::empty()
    } else {
        "# [derive ("@ + list + ")]"@
    }
}

/// Once `::` is found below `n`, looking further finds the same place.
pub proof fn lemma_first_colons_stays(s: Seq<char>, n: nat, m: nat)
    requires
        n < m,
        first_colons(s, n) == n,
        colons_at(s, n as int),
    ensures
        first_colons(s, m) == n,
    decreases m,
{
    if m > n + 1 {
        lemma_first_colons_stays(s, n, (m - 1) as nat);
    }
}

/// Where `::` is not found below `n` and does not stand at `n` or later,
/// it is not found at all.
pub proof fn lemma_first_colons_absent(s: Seq<char>, n: nat, m: nat)
    requires
        n <= m,
        first_colons(s, n) == n,
        forall|i: int| n <= i < m ==> !colons_at(s, i),
    ensures
        first_colons(s, m) == m,
    decreases m,
{
    if m > n {
        lemma_first_colons_absent(s, n, (m - 1) as nat);
    }
}

/// Where a trait path is split.
fn find_colons(s: &str) -> (r: usize)
    ensures
        r == split_point(s@),
        r <= s@.len(),
        r < s@.len() ==> r + 2 <= s@.len(),
{
    let n: usize = s.unicode_len();
    let mut i: usize = 0;
    let mut found: bool = false;
    while !found && i < n && n - i >= 2
        invariant
            i <= n,
            n == s@.len(),
            first_colons(s@, i as nat) == i,
            found ==> colons_at(s@, i as int),
        decreases n - i, (if found { 0int } else { 1int }),
    {
        if s.get_char(i) == ':' && s.get_char(i + 1) == ':' {
            found = true;
        } else {
            i = i + 1;
        }
    }
    if found {
        proof {
            lemma_first_colons_stays(s@, i as nat, n as nat);
        }
        i
    } else {
        proof {
            lemma_first_colons_absent(s@, i as nat, n as nat);
        }
        n
    }
}

/// Whether `entry` is a trait path.
pub fn valid_trait_path(entry: &str) -> (r: bool)
    ensures
        r == trait_path(entry@),
{
    let n: usize = entry.unicode_len();
    let at: usize = find_colons(entry);
    if at < n {
        valid_identifier(entry.substring_char(0, at)) && valid_identifier(
            entry.substring_char(at + 2, n),
        )
    } else {
        valid_identifier(entry)
    }
}

/// A trait path as it is written in a list.
fn format_derive(entry: &str) -> (r: String)
    ensures
        r@ == render_trait(entry@),
{
    let n: usize = entry.unicode_len();
    let at: usize = find_colons(entry);
    if at < n {
        let mut out = String::from_str(entry.substring_char(0, at));
        out.append(" :: ");
        out.append(entry.substring_char(at + 2, n));
        out
    } else {
        String::from_str(entry)
    }
}

/// Appends `piece` to a list, after ` , ` where neither is empty.
fn append_listed(out: &mut String, piece: &str)
    ensures
        final(out)@ == listed(old(out)@, piece@),
{
    if piece.is_empty() {
        return ;
    }
    if !out.as_str().is_empty() {
        out.append(" , ");
    }
    out.append(piece);
}

/// The attribute that derives, for an item, the traits of `trait_list` in
/// their order, then those of `serde` as far as `serde_support` asks for
/// them, then `Debug` where `require_debug` is set and the list has none.
/// The text is empty where nothing is derived.
pub fn derive_attribute(trait_list: &Vec<String>, serde_support: SerdeSupport, require_debug: bool)
    -> (r: String)
    ensures
        r@ == derive_text(texts(trait_list@), serde_support, require_debug),
{
    let ghost traits = texts(trait_list@);
    let debug = String::from_str("Debug");
    let mut list = String::new();
    let mut deriving_debug: bool = false;
    let mut i: usize = 0;
    while i < trait_list.len()
        invariant
            i <= trait_list.len(),
            traits == texts(trait_list@),
            debug@ == "Debug"@,
            list@ == render_traits(traits, i as nat),
            deriving_debug == names_debug(traits, i as nat),
        decreases trait_list.len() - i,
    {
        if trait_list[i] == debug {
            deriving_debug = true;
        }
        let item = format_derive(trait_list[i].as_str());
        append_listed(&mut list, item.as_str());
        i = i + 1;
    }
    let (serialize, deserialize) = match serde_support.should_derive_ser_de() {
        Some(pair) => pair,
        None => (false, false),
    };
    if serialize {
        append_listed(&mut list, "serde :: Serialize");
    }
    if deserialize {
        append_listed(&mut list, "serde :: Deserialize");
    }
    if !deriving_debug && require_debug {
        append_listed(&mut list, "Debug");
    }
    if list.as_str().is_empty() {
        String::new()
    } else {
        let mut out = String::from_str("# [derive (");
        out.append(list.as_str());
        out.append(")]");
        out
    }
}

} // verus!
