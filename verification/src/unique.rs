//! When the names of the declared structs are distinct.
//!
//! The name of a struct is its context: the root name, then `__` and a step
//! for each key and each tuple slot on the way.  Two ways can give one name,
//! for example the key `a__b` and the key `b` under the key `a`.  They cannot
//! where every key is plain: not empty, without an underscore at its start
//! or its end, and without two underscores in a row.

use vstd::prelude::*;

use crate::laws::{
    has_type,
    lemma_literal_has_inferred_type,
    lemma_structs_declared_once,
    names_distinct,
    structs_declared_once,
    uniform,
};
use crate::names::{field_context, slot_context};
use crate::shape::{
    declarations,
    field_declarations,
    field_types,
    literal_of,
    slot_declarations,
    type_of,
    Declaration,
};
use crate::text::{decimal, digit_text};
use crate::value::{keys_distinct, Tree};

verus! {

/// Whether two underscores stand at position `i` of a text.
pub open spec fn underscores_at(s: Seq<char>, i: int) -> bool {
    0 <= i && i + 1 < s.len() && s[i] == '_' && s[i + 1] == '_'
}

/// A step is plain when it is not empty, has no underscore at its start or
/// its end, and has no two underscores in a row.
pub open spec fn plain(s: Seq<char>) -> bool {
    &&& s.len() > 0
    &&& s[0] != '_'
    &&& s[s.len() - 1] != '_'
    &&& forall|i: int| !underscores_at(s, i)
}

/// What may follow a context in a name below it: nothing, or a text that
/// starts with two underscores.
pub open spec fn trail(s: Seq<char>) -> bool {
    s.len() == 0 || underscores_at(s, 0)
}

/// Whether a name is the context or lies below it.
pub open spec fn extends(name: Seq<char>, context: Seq<char>) -> bool {
    &&& context.len() <= name.len()
    &&& name.subrange(0, context.len() as int) == context
    &&& trail(name.skip(context.len() as int))
}

/// Every key of the tree is plain, and the keys of each record are
/// distinct.
pub open spec fn plain_keys(t: Tree) -> bool
    decreases t,
{
    match t {
        Tree::Option(Some(inner)) => plain_keys(*inner),
        Tree::Tuple(items) => forall|i: int|
            0 <= i < items.len() ==> plain_keys(#[trigger] items[i]),
        Tree::Array(_, items) => forall|i: int|
            0 <= i < items.len() ==> plain_keys(#[trigger] items[i]),
        Tree::Vec(items) => forall|i: int| 0 <= i < items.len() ==> plain_keys(#[trigger] items[i]),
        Tree::Struct(fields) => keys_distinct(fields) && forall|i: int|
            0 <= i < fields.len() ==> plain((#[trigger] fields[i]).0) && plain_keys(fields[i].1),
        _ => true,
    }
}

/// The separator of steps is two underscores.
pub proof fn lemma_separator()
    ensures
        "__"@.len() == 2,
        "__"@[0] == '_',
        "__"@[1] == '_',
{
    reveal_strlit("__");
}

/// A plain step that is followed by a trail is told by the whole: two such
/// wholes that are equal start with the same step.
pub proof fn lemma_step_determined(a: Seq<char>, s: Seq<char>, b: Seq<char>, t: Seq<char>)
    requires
        plain(a),
        plain(b),
        trail(s),
        trail(t),
        a + s == b + t,
    ensures
        a == b,
        s == t,
{
    let whole = a + s;
    if a.len() < b.len() {
        assert(s.len() > 0);
        assert(whole[a.len() as int] == s[0]);
        assert(whole[a.len() as int + 1] == s[1]);
        assert((b + t)[a.len() as int] == b[a.len() as int]);
        if a.len() as int + 1 < b.len() {
            assert((b + t)[a.len() as int + 1] == b[a.len() as int + 1]);
            assert(underscores_at(b, a.len() as int));
        }
    } else if b.len() < a.len() {
        assert(t.len() > 0);
        assert((b + t)[b.len() as int] == t[0]);
        assert((b + t)[b.len() as int + 1] == t[1]);
        assert(whole[b.len() as int] == a[b.len() as int]);
        if b.len() as int + 1 < a.len() {
            assert(whole[b.len() as int + 1] == a[b.len() as int + 1]);
            assert(underscores_at(a, b.len() as int));
        }
    }
    assert(a.len() == b.len());
    assert(a =~= whole.subrange(0, a.len() as int));
    assert(b =~= (b + t).subrange(0, b.len() as int));
    assert(s =~= whole.skip(a.len() as int));
    assert(t =~= (b + t).skip(b.len() as int));
}

/// A name below the context of a step lies below the context before the
/// step, and is longer than it.
pub proof fn lemma_extends_through(name: Seq<char>, context: Seq<char>, step: Seq<char>)
    requires
        extends(name, context + "__"@ + step),
    ensures
        extends(name, context),
        name.len() > context.len(),
        name.len() >= context.len() as int + 2 + step.len(),
        name.skip(context.len() as int + 2) == step + name.skip(context.len() as int + 2 + step.len()),
        trail(name.skip(context.len() as int + 2 + step.len())),
{
    lemma_separator();
    let longer = context + "__"@ + step;
    assert(longer.len() == context.len() as int + 2 + step.len());
    assert(name.subrange(0, context.len() as int) =~= context) by {
        assert forall|i: int| 0 <= i < context.len() implies name[i] == context[i] by {
            assert(name.subrange(0, longer.len() as int)[i] == longer[i]);
        }
    }
    let rest = name.skip(context.len() as int);
    assert(rest[0] == '_' && rest[1] == '_') by {
        assert(name.subrange(0, longer.len() as int)[context.len() as int] == longer[context.len() as int]);
        assert(name.subrange(0, longer.len() as int)[context.len() as int + 1] == longer[context.len() as int + 1]);
    }
    assert(name.skip(context.len() as int + 2) =~= step + name.skip(context.len() as int + 2 + step.len())) by {
        assert forall|i: int| 0 <= i < step.len() implies name[context.len() as int + 2 + i]
            == step[i] by {
            assert(name.subrange(0, longer.len() as int)[context.len() as int + 2 + i] == longer[
                context.len() as int + 2 + i
            ]);
        }
    }
    assert(name.skip(longer.len() as int) =~= name.skip(context.len() as int + 2 + step.len()));
}

/// A name lies below the contexts of two plain steps from one context only
/// where the steps are the same.
pub proof fn lemma_same_step(name: Seq<char>, context: Seq<char>, a: Seq<char>, b: Seq<char>)
    requires
        extends(name, context + "__"@ + a),
        extends(name, context + "__"@ + b),
        plain(a),
        plain(b),
    ensures
        a == b,
{
    lemma_extends_through(name, context, a);
    lemma_extends_through(name, context, b);
    lemma_step_determined(
        a,
        name.skip(context.len() as int + 2 + a.len()),
        b,
        name.skip(context.len() as int + 2 + b.len()),
    );
}

/// The text of a digit below ten is that digit, one character.
pub proof fn lemma_digit(d: nat)
    requires
        d < 10,
    ensures
        digit_text(d).len() == 1,
        digit_text(d)[0] as int == '0' as int + d,
{
    reveal_strlit("0");
    reveal_strlit("1");
    reveal_strlit("2");
    reveal_strlit("3");
    reveal_strlit("4");
    reveal_strlit("5");
    reveal_strlit("6");
    reveal_strlit("7");
    reveal_strlit("8");
    reveal_strlit("9");
}

/// A decimal numeral is made of digits; it has one digit below ten and
/// more from ten on, and its last digit is that of the units.
pub proof fn lemma_decimal_shape(n: nat)
    ensures
        decimal(n).len() >= 1,
        n < 10 <==> decimal(n).len() == 1,
        decimal(n)[decimal(n).len() - 1] as int == '0' as int + n % 10,
        n >= 10 ==> decimal(n).subrange(0, decimal(n).len() - 1) == decimal(n / 10),
        forall|i: int|
            0 <= i < decimal(n).len() ==> '0' <= #[trigger] decimal(n)[i] && decimal(n)[i] <= '9',
    decreases n,
{
    lemma_digit(n % 10);
    if n >= 10 {
        lemma_decimal_shape(n / 10);
        assert(decimal(n) == decimal(n / 10) + digit_text(n % 10));
        assert(decimal(n).subrange(0, decimal(n).len() - 1) =~= decimal(n / 10));
    }
}

/// Different numbers have different decimal numerals.
pub proof fn lemma_decimal_injective(a: nat, b: nat)
    requires
        decimal(a) == decimal(b),
    ensures
        a == b,
    decreases a,
{
    lemma_decimal_shape(a);
    lemma_decimal_shape(b);
    if a >= 10 {
        lemma_decimal_injective(a / 10, b / 10);
    }
}

/// The decimal numeral of a slot is a plain step.
pub proof fn lemma_decimal_plain(n: nat)
    ensures
        plain(decimal(n)),
{
    lemma_decimal_shape(n);
}

/// Two lists of declarations with distinct names, none of which is in
/// both, make one list with distinct names.
pub proof fn lemma_distinct_concat(a: Seq<Declaration>, b: Seq<Declaration>)
    requires
        names_distinct(a),
        names_distinct(b),
        forall|i: int, j: int|
            0 <= i < a.len() && 0 <= j < b.len() ==> (#[trigger] a[i]).name != (#[trigger] b[j]).name,
    ensures
        names_distinct(a + b),
{
    let ab = a + b;
    assert forall|i: int, j: int| 0 <= i < j < ab.len() implies (#[trigger] ab[i]).name != (
    #[trigger] ab[j]).name by {
        if j < a.len() {
            assert(ab[i] == a[i] && ab[j] == a[j]);
        } else if i >= a.len() {
            assert(ab[i] == b[i - a.len()] && ab[j] == b[j - a.len()]);
        } else {
            assert(ab[i] == a[i] && ab[j] == b[j - a.len()]);
        }
    }
}

/// Whether a name lies at or below the context of field `i` of a record at
/// `context`.
pub open spec fn under_field(
    name: Seq<char>,
    context: Seq<char>,
    fields: Seq<(Seq<char>, Tree)>,
    i: int,
) -> bool {
    extends(name, field_context(context, fields[i].0))
}

/// Whether a name lies at or below the context of slot `i` of a tuple at
/// `context`.
pub open spec fn under_slot(name: Seq<char>, context: Seq<char>, i: int) -> bool {
    extends(name, slot_context(context, i as nat))
}

/// Whether a name lies at or below the context of one of the first `n`
/// fields of a record at `context`.
pub open spec fn under_fields(
    name: Seq<char>,
    context: Seq<char>,
    fields: Seq<(Seq<char>, Tree)>,
    n: nat,
) -> bool {
    exists|i: int| 0 <= i < n && #[trigger] under_field(name, context, fields, i)
}

/// Whether a name lies at or below the context of one of the first `n`
/// slots of a tuple at `context`.
pub open spec fn under_slots(name: Seq<char>, context: Seq<char>, n: nat) -> bool {
    exists|i: int| 0 <= i < n && #[trigger] under_slot(name, context, i)
}

/// Each name declared under the first `n` fields of a record lies at or
/// below the context of one of these fields.
pub proof fn lemma_field_names_extend(fields: Seq<(Seq<char>, Tree)>, context: Seq<char>, n: nat)
    requires
        n <= fields.len(),
    ensures
        forall|k: int|
            0 <= k < field_declarations(fields, context, n).len() ==> under_fields(
                (#[trigger] field_declarations(fields, context, n)[k]).name,
                context,
                fields,
                n,
            ),
    decreases fields, n,
{
    if n > 0 {
        let before = field_declarations(fields, context, (n - 1) as nat);
        let last = declarations(fields[n - 1].1, field_context(context, fields[n - 1].0));
        let all = field_declarations(fields, context, n);
        lemma_field_names_extend(fields, context, (n - 1) as nat);
        lemma_names_extend(fields[n - 1].1, field_context(context, fields[n - 1].0));
        assert(all == before + last);
        assert forall|k: int| 0 <= k < all.len() implies under_fields(
            (#[trigger] all[k]).name,
            context,
            fields,
            n,
        ) by {
            if k < before.len() {
                assert(all[k] == before[k]);
                let name = before[k].name;
                assert(under_fields(name, context, fields, (n - 1) as nat));
                let i = choose|i: int|
                    0 <= i < n - 1 && #[trigger] under_field(name, context, fields, i);
                assert(under_field(all[k].name, context, fields, i));
            } else {
                assert(all[k] == last[k - before.len()]);
                assert(under_field(all[k].name, context, fields, n - 1));
            }
        }
    }
}

/// Each name declared under the first `n` slots of a tuple lies at or below
/// the context of one of these slots.
pub proof fn lemma_slot_names_extend(items: Seq<Tree>, context: Seq<char>, n: nat)
    requires
        n <= items.len(),
    ensures
        forall|k: int|
            0 <= k < slot_declarations(items, context, n).len() ==> under_slots(
                (#[trigger] slot_declarations(items, context, n)[k]).name,
                context,
                n,
            ),
    decreases items, n,
{
    if n > 0 {
        let before = slot_declarations(items, context, (n - 1) as nat);
        let last = declarations(items[n - 1], slot_context(context, (n - 1) as nat));
        let all = slot_declarations(items, context, n);
        lemma_slot_names_extend(items, context, (n - 1) as nat);
        lemma_names_extend(items[n - 1], slot_context(context, (n - 1) as nat));
        assert(all == before + last);
        assert forall|k: int| 0 <= k < all.len() implies under_slots(
            (#[trigger] all[k]).name,
            context,
            n,
        ) by {
            if k < before.len() {
                assert(all[k] == before[k]);
                let name = before[k].name;
                assert(under_slots(name, context, (n - 1) as nat));
                let i = choose|i: int| 0 <= i < n - 1 && #[trigger] under_slot(name, context, i);
                assert(under_slot(all[k].name, context, i));
            } else {
                assert(all[k] == last[k - before.len()]);
                assert(under_slot(all[k].name, context, n - 1));
            }
        }
    }
}

/// Each name that is declared for a tree at a context is the context or
/// lies below it.
pub proof fn lemma_names_extend(t: Tree, context: Seq<char>)
    ensures
        forall|k: int|
            0 <= k < declarations(t, context).len() ==> extends(
                (#[trigger] declarations(t, context)[k]).name,
                context,
            ),
    decreases t, 0nat,
{
    let all = declarations(t, context);
    match t {
        Tree::Option(Some(inner)) => {
            lemma_names_extend(*inner, context);
            assert(all == declarations(*inner, context));
        },
        Tree::Tuple(items) => {
            lemma_slot_names_extend(items, context, items.len());
            assert forall|k: int| 0 <= k < all.len() implies extends(
                (#[trigger] all[k]).name,
                context,
            ) by {
                let below = slot_declarations(items, context, items.len());
                assert(all[k] == below[k]);
                let name = below[k].name;
                assert(under_slots(name, context, items.len()));
                let i = choose|i: int|
                    0 <= i < items.len() && #[trigger] under_slot(name, context, i);
                lemma_extends_through(name, context, decimal(i as nat));
            }
        },
        Tree::Array(_, items) => {
            if items.len() > 0 {
                lemma_names_extend(items[0], context);
                assert(all == declarations(items[0], context));
            } else {
                assert(all.len() == 0);
            }
        },
        Tree::Vec(items) => {
            if items.len() > 0 {
                lemma_names_extend(items[0], context);
                assert(all == declarations(items[0], context));
            } else {
                assert(all.len() == 0);
            }
        },
        Tree::Struct(fields) => {
            lemma_field_names_extend(fields, context, fields.len());
            let below = field_declarations(fields, context, fields.len());
            assert forall|k: int| 0 <= k < all.len() implies extends(
                (#[trigger] all[k]).name,
                context,
            ) by {
                if k == 0 {
                    assert(all[0].name == context);
                    assert(context.subrange(0, context.len() as int) =~= context);
                    assert(context.skip(context.len() as int).len() == 0);
                } else {
                    assert(all[k] == below[k - 1]);
                    let name = below[k - 1].name;
                    assert(under_fields(name, context, fields, fields.len()));
                    let i = choose|i: int|
                        0 <= i < fields.len() && #[trigger] under_field(name, context, fields, i);
                    lemma_extends_through(name, context, fields[i].0);
                }
            }
        },
        _ => {
            assert(all.len() == 0);
        },
    }
}

/// Under plain and distinct keys, the names declared under the first `n`
/// fields of a record are distinct.
pub proof fn lemma_field_names_distinct(fields: Seq<(Seq<char>, Tree)>, context: Seq<char>, n: nat)
    requires
        n <= fields.len(),
        plain_keys(Tree::Struct(fields)),
    ensures
        names_distinct(field_declarations(fields, context, n)),
    decreases fields, n,
{
    if n > 0 {
        let own = field_context(context, fields[n - 1].0);
        let before = field_declarations(fields, context, (n - 1) as nat);
        let last = declarations(fields[n - 1].1, own);
        assert(plain_keys(fields[n - 1].1));
        lemma_field_names_distinct(fields, context, (n - 1) as nat);
        lemma_names_distinct(fields[n - 1].1, own);
        lemma_field_names_extend(fields, context, (n - 1) as nat);
        lemma_names_extend(fields[n - 1].1, own);
        assert forall|i: int, j: int| 0 <= i < before.len() && 0 <= j < last.len() implies (
        #[trigger] before[i]).name != (#[trigger] last[j]).name by {
            let name = before[i].name;
            assert(under_fields(name, context, fields, (n - 1) as nat));
            let f = choose|f: int|
                0 <= f < n - 1 && #[trigger] under_field(name, context, fields, f);
            assert(plain(fields[f].0) && plain(fields[n - 1].0));
            if before[i].name == last[j].name {
                lemma_same_step(last[j].name, context, fields[f].0, fields[n - 1].0);
                assert(fields[f].0 != fields[n - 1].0);
            }
        }
        lemma_distinct_concat(before, last);
    }
}

/// Under plain and distinct keys, the names declared under the first `n`
/// slots of a tuple are distinct.
pub proof fn lemma_slot_names_distinct(items: Seq<Tree>, context: Seq<char>, n: nat)
    requires
        n <= items.len(),
        plain_keys(Tree::Tuple(items)),
    ensures
        names_distinct(slot_declarations(items, context, n)),
    decreases items, n,
{
    if n > 0 {
        let own = slot_context(context, (n - 1) as nat);
        let before = slot_declarations(items, context, (n - 1) as nat);
        let last = declarations(items[n - 1], own);
        assert(plain_keys(items[n - 1])) by {
            let whole = Tree::Tuple(items);
            assert(plain_keys(whole));
            assert(whole->Tuple_0 == items);
        }
        lemma_slot_names_distinct(items, context, (n - 1) as nat);
        lemma_names_distinct(items[n - 1], own);
        lemma_slot_names_extend(items, context, (n - 1) as nat);
        lemma_names_extend(items[n - 1], own);
        assert forall|i: int, j: int| 0 <= i < before.len() && 0 <= j < last.len() implies (
        #[trigger] before[i]).name != (#[trigger] last[j]).name by {
            let name = before[i].name;
            assert(under_slots(name, context, (n - 1) as nat));
            let f = choose|f: int| 0 <= f < n - 1 && #[trigger] under_slot(name, context, f);
            if before[i].name == last[j].name {
                lemma_decimal_plain(f as nat);
                lemma_decimal_plain((n - 1) as nat);
                lemma_same_step(
                    last[j].name,
                    context,
                    decimal(f as nat),
                    decimal((n - 1) as nat),
                );
                lemma_decimal_injective(f as nat, (n - 1) as nat);
            }
        }
        lemma_distinct_concat(before, last);
    }
}

/// Each struct gets a name of its own: where every key of a tree is plain
/// and the keys of each record are distinct, no two of the declarations
/// that are written for the tree have one name.
pub proof fn lemma_names_distinct(t: Tree, context: Seq<char>)
    requires
        plain_keys(t),
    ensures
        names_distinct(declarations(t, context)),
    decreases t, 0nat,
{
    match t {
        Tree::Option(Some(inner)) => {
            lemma_names_distinct(*inner, context);
        },
        Tree::Tuple(items) => {
            lemma_slot_names_distinct(items, context, items.len());
        },
        Tree::Array(_, items) => {
            if items.len() > 0 {
                lemma_names_distinct(items[0], context);
            }
        },
        Tree::Vec(items) => {
            if items.len() > 0 {
                lemma_names_distinct(items[0], context);
            }
        },
        Tree::Struct(fields) => {
            let own = seq![
                Declaration { name: context, fields: field_types(fields, context) },
            ];
            let below = field_declarations(fields, context, fields.len());
            lemma_field_names_distinct(fields, context, fields.len());
            lemma_field_names_extend(fields, context, fields.len());
            assert forall|i: int, j: int| 0 <= i < own.len() && 0 <= j < below.len() implies (
            #[trigger] own[i]).name != (#[trigger] below[j]).name by {
                let name = below[j].name;
                assert(under_fields(name, context, fields, fields.len()));
                let f = choose|f: int|
                    0 <= f < fields.len() && #[trigger] under_field(name, context, fields, f);
                lemma_extends_through(name, context, fields[f].0);
            }
            lemma_distinct_concat(own, below);
        },
        _ => {},
    }
}

/// Type and value correspond, one struct for one name: for a uniform tree
/// whose keys are plain and distinct within each record, every struct
/// literal in the literal of the tree names a struct that is declared
/// exactly once among the declarations that are written for the tree, and
/// initializes the fields of that struct, with their names, in their order.
pub proof fn lemma_each_struct_declared_once(t: Tree, context: Seq<char>)
    requires
        uniform(t),
        plain_keys(t),
    ensures
        names_distinct(declarations(t, context)),
        has_type(literal_of(t, context), type_of(t, context), declarations(t, context)),
        structs_declared_once(literal_of(t, context), declarations(t, context)),
{
    lemma_names_distinct(t, context);
    lemma_literal_has_inferred_type(t, context);
    lemma_structs_declared_once(t, context);
}

} // verus!
