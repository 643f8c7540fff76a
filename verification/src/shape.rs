//! The types and literals that are inferred from a value, as mathematics,
//! and how each is written.
//!
//! A node of a value tree is reached along a path of keys and tuple slots.
//! The *context* of a node is the name that a record at that node gets: the
//! root name, then `__` and the key or the slot number for each step of the
//! path.  Options, arrays and lists add no step.  Types and literals are
//! both computed from the tree and the context alone, so the type that a
//! declaration names and the type that a literal constructs cannot differ.

use vstd::prelude::*;

use crate::names::{field_context, slot_context};
use crate::text::{char_literal, decimal, signed_decimal, spaced, string_literal};
use crate::value::Tree;

verus! {

/// A type expression.
pub ghost enum TypeExpr {
    /// A type that is written as it stands here: `()`, `bool`, `i64`, the
    /// type of text.
    Primitive(Seq<char>),
    /// `Option` of a type.
    Optional(Box<TypeExpr>),
    /// A tuple of types.
    Tuple(Seq<TypeExpr>),
    /// An array of a type, with its length.
    Array(Box<TypeExpr>, usize),
    /// A list of a type.
    List(Box<TypeExpr>),
    /// A declared struct, by its name.
    Named(Seq<char>),
}

/// A literal expression.
pub ghost enum Literal {
    /// A literal of the primitive type `of`, written `text`.
    Primitive { of: Seq<char>, text: Seq<char> },
    /// `None`.
    Absent,
    /// `Some` of a literal.
    Present(Box<Literal>),
    /// A tuple of literals.
    Tuple(Seq<Literal>),
    /// An array of literals.
    Array(Seq<Literal>),
    /// A list of literals.
    List(Seq<Literal>),
    /// A struct literal: the name of the struct and an initializer for each
    /// field.
    Record { name: Seq<char>, fields: Seq<(Seq<char>, Literal)> },
}

/// The declaration of a struct: its name, and the name and type of each
/// field in order.
pub ghost struct Declaration {
    pub name: Seq<char>,
    pub fields: Seq<(Seq<char>, TypeExpr)>,
}

/// The type of nothing.
pub open spec fn unit_type() -> Seq<char> {
    "()"@
}

/// Whether a tree is a leaf: neither an option nor a collection.
pub open spec fn is_scalar(t: Tree) -> bool {
    !(t is Option || t is Tuple || t is Array || t is Vec || t is Struct)
}

/// The primitive type of a leaf.
pub open spec fn scalar_type(t: Tree) -> Seq<char> {
    match t {
        Tree::Bool(_) => "bool"@,
        Tree::Char(_) => "char"@,
        Tree::I8(_) => "i8"@,
        Tree::I16(_) => "i16"@,
        Tree::I32(_) => "i32"@,
        Tree::I64(_) => "i64"@,
        Tree::I128(_) => "i128"@,
        Tree::ISize(_) => "isize"@,
        Tree::U8(_) => "u8"@,
        Tree::U16(_) => "u16"@,
        Tree::U32(_) => "u32"@,
        Tree::U64(_) => "u64"@,
        Tree::U128(_) => "u128"@,
        Tree::USize(_) => "usize"@,
        Tree::F32(_) => "f32"@,
        Tree::F64(_) => "f64"@,
        Tree::String(_) => "std :: borrow :: Cow < 'static , str >"@,
        _ => unit_type(),
    }
}

/// How a leaf is written: a number with its type as suffix, text as a
/// borrowed string literal.
pub open spec fn scalar_text(t: Tree) -> Seq<char> {
    match t {
        Tree::Bool(x) => if x {
            "true"@
        } else {
            "false"@
        },
        Tree::Char(x) => char_literal(x),
        Tree::I8(x) => signed_decimal(x as int) + "i8"@,
        Tree::I16(x) => signed_decimal(x as int) + "i16"@,
        Tree::I32(x) => signed_decimal(x as int) + "i32"@,
        Tree::I64(x) => signed_decimal(x as int) + "i64"@,
        Tree::I128(x) => signed_decimal(x as int) + "i128"@,
        Tree::ISize(x) => signed_decimal(x as int) + "isize"@,
        Tree::U8(x) => decimal(x as nat) + "u8"@,
        Tree::U16(x) => decimal(x as nat) + "u16"@,
        Tree::U32(x) => decimal(x as nat) + "u32"@,
        Tree::U64(x) => decimal(x as nat) + "u64"@,
        Tree::U128(x) => decimal(x as nat) + "u128"@,
        Tree::USize(x) => decimal(x as nat) + "usize"@,
        Tree::F32(x) => x + "f32"@,
        Tree::F64(x) => x + "f64"@,
        Tree::String(x) => "std :: borrow :: Cow :: Borrowed ("@ + string_literal(x) + ")"@,
        _ => unit_type(),
    }
}

/// The type of each slot of a tuple, each under its own slot context.
pub open spec fn slot_types(items: Seq<Tree>, context: Seq<char>) -> Seq<TypeExpr>
    decreases items,
{
    Seq::new(
        items.len(),
        |i: int|
            if 0 <= i < items.len() {
                type_of(items[i], slot_context(context, i as nat))
            } else {
                TypeExpr::Primitive(unit_type())
            },
    )
}

/// The name and type of each field of a record, each under its own field
/// context.
pub open spec fn field_types(fields: Seq<(Seq<char>, Tree)>, context: Seq<char>) -> Seq<
    (Seq<char>, TypeExpr),
>
    decreases fields,
{
    Seq::new(
        fields.len(),
        |i: int|
            if 0 <= i < fields.len() {
                (fields[i].0, type_of(fields[i].1, field_context(context, fields[i].0)))
            } else {
                (Seq::empty(), TypeExpr::Primitive(unit_type()))
            },
    )
}

/// The type of the items of a sequence: that of the first item, or `()`
/// for an empty sequence.
pub open spec fn item_type(items: Seq<Tree>, context: Seq<char>) -> TypeExpr
    decreases items,
{
    if items.len() == 0 {
        TypeExpr::Primitive(unit_type())
    } else {
        type_of(items[0], context)
    }
}

/// The type that is inferred for a tree that stands at `context`.
pub open spec fn type_of(t: Tree, context: Seq<char>) -> TypeExpr
    decreases t,
{
    match t {
        Tree::Option(None) => TypeExpr::Optional(Box::new(TypeExpr::Primitive(unit_type()))),
        Tree::Option(Some(inner)) => TypeExpr::Optional(Box::new(type_of(*inner, context))),
        Tree::Tuple(items) => TypeExpr::Tuple(slot_types(items, context)),
        Tree::Array(len, items) => TypeExpr::Array(Box::new(item_type(items, context)), len),
        Tree::Vec(items) => TypeExpr::List(Box::new(item_type(items, context))),
        Tree::Struct(_) => TypeExpr::Named(context),
        _ => TypeExpr::Primitive(scalar_type(t)),
    }
}

/// The literal of each slot of a tuple, each under its own slot context.
pub open spec fn slot_literals(items: Seq<Tree>, context: Seq<char>) -> Seq<Literal>
    decreases items,
{
    Seq::new(
        items.len(),
        |i: int|
            if 0 <= i < items.len() {
                literal_of(items[i], slot_context(context, i as nat))
            } else {
                Literal::Absent
            },
    )
}

/// The literal of each item of a sequence, all under one context.
pub open spec fn item_literals(items: Seq<Tree>, context: Seq<char>) -> Seq<Literal>
    decreases items,
{
    Seq::new(
        items.len(),
        |i: int|
            if 0 <= i < items.len() {
                literal_of(items[i], context)
            } else {
                Literal::Absent
            },
    )
}

/// The initializer of each field of a record, each under its own field
/// context.
pub open spec fn field_literals(fields: Seq<(Seq<char>, Tree)>, context: Seq<char>) -> Seq<
    (Seq<char>, Literal),
>
    decreases fields,
{
    Seq::new(
        fields.len(),
        |i: int|
            if 0 <= i < fields.len() {
                (fields[i].0, literal_of(fields[i].1, field_context(context, fields[i].0)))
            } else {
                (Seq::empty(), Literal::Absent)
            },
    )
}

/// The literal that reproduces a tree that stands at `context`.
pub open spec fn literal_of(t: Tree, context: Seq<char>) -> Literal
    decreases t,
{
    match t {
        Tree::Option(None) => Literal::Absent,
        Tree::Option(Some(inner)) => Literal::Present(Box::new(literal_of(*inner, context))),
        Tree::Tuple(items) => Literal::Tuple(slot_literals(items, context)),
        Tree::Array(_, items) => Literal::Array(item_literals(items, context)),
        Tree::Vec(items) => Literal::List(item_literals(items, context)),
        Tree::Struct(fields) => Literal::Record {
            name: context,
            fields: field_literals(fields, context),
        },
        _ => Literal::Primitive { of: scalar_type(t), text: scalar_text(t) },
    }
}

/// The declarations under the first `n` slots of a tuple, in order.
pub open spec fn slot_declarations(items: Seq<Tree>, context: Seq<char>, n: nat) -> Seq<
    Declaration,
>
    decreases items, n,
{
    if n == 0 || n > items.len() {
        Seq::empty()
    } else {
        slot_declarations(items, context, (n - 1) as nat) + declarations(
            items[n - 1],
            slot_context(context, (n - 1) as nat),
        )
    }
}

/// The declarations under the first `n` fields of a record, in order.
pub open spec fn field_declarations(fields: Seq<(Seq<char>, Tree)>, context: Seq<char>, n: nat)
    -> Seq<Declaration>
    decreases fields, n,
{
    if n == 0 || n > fields.len() {
        Seq::empty()
    } else {
        field_declarations(fields, context, (n - 1) as nat) + declarations(
            fields[n - 1].1,
            field_context(context, fields[n - 1].0),
        )
    }
}

/// The declarations that a tree at `context` asks for: one for each record
/// that is reached from it through options, tuple slots, record fields and
/// the first item of each array and list.  A record comes before the
/// records below it, and what is below one field before the next field.
pub open spec fn declarations(t: Tree, context: Seq<char>) -> Seq<Declaration>
    decreases t, 0nat,
{
    match t {
        Tree::Option(Some(inner)) => declarations(*inner, context),
        Tree::Tuple(items) => slot_declarations(items, context, items.len()),
        Tree::Array(_, items) => if items.len() == 0 {
            Seq::empty()
        } else {
            declarations(items[0], context)
        },
        Tree::Vec(items) => if items.len() == 0 {
            Seq::empty()
        } else {
            declarations(items[0], context)
        },
        Tree::Struct(fields) => seq![
            Declaration { name: context, fields: field_types(fields, context) },
        ] + field_declarations(fields, context, fields.len()),
        _ => Seq::empty(),
    }
}

/// The first `n` types, with ` , ` between them.
pub open spec fn render_types(types: Seq<TypeExpr>, n: nat) -> Seq<char>
    decreases types, n,
{
    if n == 0 || n > types.len() {
        Seq::empty()
    } else if n == 1 {
        render_type(types[0])
    } else {
        render_types(types, (n - 1) as nat) + " , "@ + render_type(types[n - 1])
    }
}

/// How a type is written.
pub open spec fn render_type(t: TypeExpr) -> Seq<char>
    decreases t, 0nat,
{
    match t {
        TypeExpr::Primitive(name) => name,
        TypeExpr::Optional(inner) => "Option < "@ + render_type(*inner) + " >"@,
        TypeExpr::Tuple(types) => "("@ + render_types(types, types.len()) + ")"@,
        TypeExpr::Array(inner, len) => "["@ + render_type(*inner) + " ; "@ + decimal(len as nat)
            + "usize]"@,
        TypeExpr::List(inner) => "std :: borrow :: Cow < 'static , ["@ + render_type(*inner)
            + "] >"@,
        TypeExpr::Named(name) => name,
    }
}

/// The first `n` literals, with ` , ` between them.
pub open spec fn render_slots(literals: Seq<Literal>, n: nat) -> Seq<char>
    decreases literals, n,
{
    if n == 0 || n > literals.len() {
        Seq::empty()
    } else if n == 1 {
        render_literal(literals[0])
    } else {
        render_slots(literals, (n - 1) as nat) + " , "@ + render_literal(literals[n - 1])
    }
}

/// The first `n` literals, each followed by ` ,`.
pub open spec fn render_items(literals: Seq<Literal>, n: nat) -> Seq<char>
    decreases literals, n,
{
    if n == 0 || n > literals.len() {
        Seq::empty()
    } else {
        spaced(
            render_items(literals, (n - 1) as nat),
            render_literal(literals[n - 1]) + " ,"@,
        )
    }
}

/// The first `n` initializers, each written `name : literal ,`.
pub open spec fn render_initializers(fields: Seq<(Seq<char>, Literal)>, n: nat) -> Seq<char>
    decreases fields, n,
{
    if n == 0 || n > fields.len() {
        Seq::empty()
    } else {
        spaced(
            render_initializers(fields, (n - 1) as nat),
            fields[n - 1].0 + " : "@ + render_literal(fields[n - 1].1) + " ,"@,
        )
    }
}

/// How a literal is written.
pub open spec fn render_literal(l: Literal) -> Seq<char>
    decreases l, 0nat,
{
    match l {
        Literal::Primitive { of, text } => text,
        Literal::Absent => "None"@,
        Literal::Present(inner) => "Some ("@ + render_literal(*inner) + ")"@,
        Literal::Tuple(literals) => "("@ + render_slots(literals, literals.len()) + ")"@,
        Literal::Array(literals) => "["@ + render_items(literals, literals.len()) + "]"@,
        Literal::List(literals) => "std :: borrow :: Cow :: Borrowed (& ["@ + render_items(
            literals,
            literals.len(),
        ) + "])"@,
        Literal::Record { name, fields } => spaced(
            spaced(name + " {"@, render_initializers(fields, fields.len())),
            "}"@,
        ),
    }
}

/// The first `n` fields of a declaration, each written `pub name : type ,`.
pub open spec fn render_fields(fields: Seq<(Seq<char>, TypeExpr)>, n: nat) -> Seq<char>
    decreases n,
{
    if n == 0 || n > fields.len() {
        Seq::empty()
    } else {
        spaced(
            render_fields(fields, (n - 1) as nat),
            "pub "@ + fields[n - 1].0 + " : "@ + render_type(fields[n - 1].1) + " ,"@,
        )
    }
}

/// How a declaration is written, under the attribute `derives` (which may
/// be empty).
pub open spec fn render_declaration(d: Declaration, derives: Seq<char>) -> Seq<char> {
    spaced(
        spaced(
            spaced(
                spaced("# [allow (non_camel_case_types)]"@, derives),
                "pub struct "@ + d.name + " {"@,
            ),
            render_fields(d.fields, d.fields.len()),
        ),
        "}"@,
    )
}

/// How the first `n` declarations are written, one after the other.
pub open spec fn render_declarations(list: Seq<Declaration>, derives: Seq<char>, n: nat) -> Seq<
    char,
>
    decreases n,
{
    if n == 0 || n > list.len() {
        Seq::empty()
    } else {
        spaced(
            render_declarations(list, derives, (n - 1) as nat),
            render_declaration(list[n - 1], derives),
        )
    }
}

/// How a list of declarations is written.
pub open spec fn render_all(list: Seq<Declaration>, derives: Seq<char>) -> Seq<char> {
    render_declarations(list, derives, list.len())
}

/// `spaced` is associative.
pub proof fn lemma_spaced_associative(a: Seq<char>, b: Seq<char>, c: Seq<char>)
    ensures
        spaced(spaced(a, b), c) == spaced(a, spaced(b, c)),
{
    assert(spaced(spaced(a, b), c) =~= spaced(a, spaced(b, c)));
}

/// Declarations written one list after the other are the two lists written
/// and set side by side.
pub proof fn lemma_render_concat(a: Seq<Declaration>, b: Seq<Declaration>, derives: Seq<char>)
    ensures
        render_all(a + b, derives) == spaced(render_all(a, derives), render_all(b, derives)),
    decreases b.len(),
{
    if b.len() == 0 {
        assert(a + b =~= a);
    } else {
        let shorter = b.drop_last();
        lemma_render_concat(a, shorter, derives);
        assert(a + shorter =~= (a + b).take((a + b).len() - 1));
        assert(shorter =~= b.take(b.len() - 1));
        lemma_render_prefix(a + b, derives, (a + b).len() as nat, a + shorter);
        lemma_render_prefix(b, derives, b.len() as nat, shorter);
        assert((a + b).last() == b.last());
        lemma_spaced_associative(
            render_all(a, derives),
            render_all(shorter, derives),
            render_declaration(b.last(), derives),
        );
    }
}

/// Writing the first `n - 1` declarations of a list is writing the list
/// without its `n`-th and later ones.
pub proof fn lemma_render_prefix(
    list: Seq<Declaration>,
    derives: Seq<char>,
    n: nat,
    shorter: Seq<Declaration>,
)
    requires
        0 < n <= list.len(),
        shorter == list.take(n - 1),
    ensures
        render_declarations(list, derives, (n - 1) as nat) == render_all(shorter, derives),
    decreases n,
{
    if n > 1 {
        lemma_render_prefix(list, derives, (n - 1) as nat, list.take(n - 2));
        assert(shorter.take(n - 2) =~= list.take(n - 2));
        lemma_render_prefix(shorter, derives, (n - 1) as nat, list.take(n - 2));
        assert(shorter[n - 2] == list[n - 2]);
    }
}

} // verus!
