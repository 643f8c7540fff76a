//! Writes the type, the literal and the declarations of a generic value.
//!
//! The functions here write source text, each token separated from the next
//! by one space.  What they write is stated over the types, literals and
//! declarations of [`crate::shape`].

use vstd::prelude::*;

use crate::names::{field_name, slot_name};
use crate::shape::{
    declarations,
    field_declarations,
    field_literals,
    field_types,
    is_scalar,
    item_literals,
    item_type,
    lemma_render_concat,
    literal_of,
    render_all,
    render_declaration,
    render_declarations,
    render_fields,
    render_initializers,
    render_items,
    render_literal,
    render_slots,
    render_type,
    render_types,
    scalar_text,
    scalar_type,
    slot_declarations,
    slot_literals,
    slot_types,
    type_of,
    unit_type,
    Declaration,
    TypeExpr,
};
use crate::text::{
    append_char_literal,
    append_decimal,
    append_signed_decimal,
    append_spaced,
    append_string_literal,
};
use crate::value::{fields_of, lemma_struct_fields, lemma_trees_of, trees_of, Struct, Tree, Value};

verus! {

/// Three pieces of text in a row.
pub(crate) fn concat3(a: &str, b: &str, c: &str) -> (r: String)
    ensures
        r@ == a@ + b@ + c@,
{
    let mut r = String::from_str(a);
    r.append(b);
    r.append(c);
    r
}

/// The primitive type of a leaf.
fn scalar_type_name(value: &Value) -> (r: &'static str)
    requires
        is_scalar(value@),
    ensures
        r@ == scalar_type(value@),
{
    match value {
        Value::Bool(_) => "bool",
        Value::Char(_) => "char",
        Value::I8(_) => "i8",
        Value::I16(_) => "i16",
        Value::I32(_) => "i32",
        Value::I64(_) => "i64",
        Value::I128(_) => "i128",
        Value::ISize(_) => "isize",
        Value::U8(_) => "u8",
        Value::U16(_) => "u16",
        Value::U32(_) => "u32",
        Value::U64(_) => "u64",
        Value::U128(_) => "u128",
        Value::USize(_) => "usize",
        Value::F32(_) => "f32",
        Value::F64(_) => "f64",
        Value::String(_) => "std :: borrow :: Cow < 'static , str >",
        _ => "()",
    }
}

/// How a leaf is written.
fn scalar_literal(value: &Value) -> (r: String)
    requires
        is_scalar(value@),
    ensures
        r@ == scalar_text(value@),
{
    let mut out = String::new();
    match value {
        Value::Bool(x) => {
            if *x {
                out.append("true");
            } else {
                out.append("false");
            }
        },
        Value::Char(x) => {
            append_char_literal(&mut out, *x);
        },
        Value::I8(x) => {
            append_signed_decimal(&mut out, *x as i128);
            out.append("i8");
        },
        Value::I16(x) => {
            append_signed_decimal(&mut out, *x as i128);
            out.append("i16");
        },
        Value::I32(x) => {
            append_signed_decimal(&mut out, *x as i128);
            out.append("i32");
        },
        Value::I64(x) => {
            append_signed_decimal(&mut out, *x as i128);
            out.append("i64");
        },
        Value::I128(x) => {
            append_signed_decimal(&mut out, *x);
            out.append("i128");
        },
        Value::ISize(x) => {
            append_signed_decimal(&mut out, *x as i128);
            out.append("isize");
        },
        Value::U8(x) => {
            append_decimal(&mut out, *x as u128);
            out.append("u8");
        },
        Value::U16(x) => {
            append_decimal(&mut out, *x as u128);
            out.append("u16");
        },
        Value::U32(x) => {
            append_decimal(&mut out, *x as u128);
            out.append("u32");
        },
        Value::U64(x) => {
            append_decimal(&mut out, *x as u128);
            out.append("u64");
        },
        Value::U128(x) => {
            append_decimal(&mut out, *x);
            out.append("u128");
        },
        Value::USize(x) => {
            append_decimal(&mut out, *x as u128);
            out.append("usize");
        },
        Value::F32(x) => {
            out.append(x.as_str());
            out.append("f32");
        },
        Value::F64(x) => {
            out.append(x.as_str());
            out.append("f64");
        },
        Value::String(x) => {
            out.append("std :: borrow :: Cow :: Borrowed (");
            append_string_literal(&mut out, x.as_str());
            out.append(")");
        },
        _ => {
            out.append("()");
        },
    }
    assert(out@ =~= scalar_text(value@));
    out
}

/// The types of the slots of a tuple, with ` , ` between them.
fn slot_type_list(items: &Vec<Value>, context: &str) -> (r: String)
    ensures
        r@ == render_types(
            slot_types(trees_of(items@), context@),
            slot_types(trees_of(items@), context@).len(),
        ),
    decreases items,
{
    let ghost types = slot_types(trees_of(items@), context@);
    let mut list = String::new();
    let mut i: usize = 0;
    while i < items.len()
        invariant
            i <= items.len(),
            types == slot_types(trees_of(items@), context@),
            list@ == render_types(types, i as nat),
        decreases items.len() - i,
    {
        let name = slot_name(context, i);
        let slot_type = type_of_value(&items[i], name.as_str());
        if i > 0 {
            list.append(" , ");
        }
        list.append(slot_type.as_str());
        assert(list@ =~= render_types(types, (i + 1) as nat));
        i = i + 1;
    }
    list
}

/// The type of a value that stands at `context`, written out.
///
/// A record is the struct named `context`; a tuple slot and a record field
/// lengthen the context of what stands in them, an option, an array and a
/// list do not.  An array and a list take the type of their first item, and
/// `()` where they are empty.
pub fn type_of_value(value: &Value, context: &str) -> (r: String)
    ensures
        r@ == render_type(type_of(value@, context@)),
    decreases value,
{
    match value {
        Value::Option(None) => {
            assert(render_type(TypeExpr::Primitive(unit_type())) == unit_type());
            concat3("Option < ", "()", " >")
        },
        Value::Option(Some(inner)) => {
            let inner_type = type_of_value(inner, context);
            concat3("Option < ", inner_type.as_str(), " >")
        },
        Value::Tuple(items) => {
            let list = slot_type_list(items, context);
            concat3("(", list.as_str(), ")")
        },
        Value::Array(len, items) => {
            proof {
                lemma_trees_of(items@);
                assert(render_type(TypeExpr::Primitive(unit_type())) == unit_type());
                assert(item_type(trees_of(items@), context@) == if items@.len() == 0 {
                    TypeExpr::Primitive(unit_type())
                } else {
                    type_of(items@[0]@, context@)
                });
            }
            let item = if items.len() == 0 {
                String::from_str("()")
            } else {
                type_of_value(&items[0], context)
            };
            let mut out = concat3("[", item.as_str(), " ; ");
            append_decimal(&mut out, *len as u128);
            out.append("usize]");
            out
        },
        Value::Vec(items) => {
            proof {
                lemma_trees_of(items@);
                assert(render_type(TypeExpr::Primitive(unit_type())) == unit_type());
                assert(item_type(trees_of(items@), context@) == if items@.len() == 0 {
                    TypeExpr::Primitive(unit_type())
                } else {
                    type_of(items@[0]@, context@)
                });
            }
            let item = if items.len() == 0 {
                String::from_str("()")
            } else {
                type_of_value(&items[0], context)
            };
            concat3("std :: borrow :: Cow < 'static , [", item.as_str(), "] >")
        },
        Value::Struct(_) => String::from_str(context),
        _ => {
            assert(render_type(TypeExpr::Primitive(scalar_type(value@))) == scalar_type(value@));
            String::from_str(scalar_type_name(value))
        },
    }
}

/// The items of a sequence as literals, each followed by ` ,`.
pub(crate) fn define_items(items: &Vec<Value>, context: &str) -> (r: String)
    ensures
        r@ == render_items(
            item_literals(trees_of(items@), context@),
            item_literals(trees_of(items@), context@).len(),
        ),
    decreases items,
{
    let ghost literals = item_literals(trees_of(items@), context@);
    let mut list = String::new();
    let mut i: usize = 0;
    while i < items.len()
        invariant
            i <= items.len(),
            literals == item_literals(trees_of(items@), context@),
            list@ == render_items(literals, i as nat),
        decreases items.len() - i,
    {
        let mut item = define_value(&items[i], context);
        item.append(" ,");
        append_spaced(&mut list, item.as_str());
        i = i + 1;
    }
    list
}

/// The slots of a tuple as literals, with ` , ` between them.
fn define_slots(items: &Vec<Value>, context: &str) -> (r: String)
    ensures
        r@ == render_slots(
            slot_literals(trees_of(items@), context@),
            slot_literals(trees_of(items@), context@).len(),
        ),
    decreases items,
{
    let ghost literals = slot_literals(trees_of(items@), context@);
    let mut list = String::new();
    let mut i: usize = 0;
    while i < items.len()
        invariant
            i <= items.len(),
            literals == slot_literals(trees_of(items@), context@),
            list@ == render_slots(literals, i as nat),
        decreases items.len() - i,
    {
        let name = slot_name(context, i);
        let slot = define_value(&items[i], name.as_str());
        if i > 0 {
            list.append(" , ");
        }
        list.append(slot.as_str());
        assert(list@ =~= render_slots(literals, (i + 1) as nat));
        i = i + 1;
    }
    list
}

/// The literal that reproduces a value that stands at `context`, written
/// out.  The contexts are those of [`type_of_value`], so a struct literal
/// names the struct that the type of the same value names.
pub fn define_value(value: &Value, context: &str) -> (r: String)
    ensures
        r@ == render_literal(literal_of(value@, context@)),
    decreases value,
{
    match value {
        Value::Option(None) => String::from_str("None"),
        Value::Option(Some(inner)) => {
            let inner_literal = define_value(inner, context);
            concat3("Some (", inner_literal.as_str(), ")")
        },
        Value::Tuple(items) => {
            let list = define_slots(items, context);
            concat3("(", list.as_str(), ")")
        },
        Value::Array(_, items) => {
            let list = define_items(items, context);
            concat3("[", list.as_str(), "]")
        },
        Value::Vec(items) => {
            let list = define_items(items, context);
            concat3("std :: borrow :: Cow :: Borrowed (& [", list.as_str(), "])")
        },
        Value::Struct(fields) => define_struct_value(fields, context),
        _ => scalar_literal(value),
    }
}

/// The struct literal of a record: the struct named `struct_name`, with an
/// initializer for each entry in the order of the entries.
pub fn define_struct_value(data: &Struct, struct_name: &str) -> (r: String)
    ensures
        r@ == render_literal(literal_of(Tree::Struct(data@), struct_name@)),
    decreases data,
{
    proof {
        lemma_struct_fields(*data);
    }
    let ghost initializers = field_literals(data@, struct_name@);
    let mut list = String::new();
    let mut i: usize = 0;
    while i < data.0.len()
        invariant
            i <= data.0.len(),
            data@ == fields_of(data.0@),
            initializers == field_literals(data@, struct_name@),
            list@ == render_initializers(initializers, i as nat),
        decreases data.0.len() - i,
    {
        let key: &String = &data.0[i].0;
        let name = field_name(struct_name, key.as_str());
        let literal = define_value(&data.0[i].1, name.as_str());
        let mut initializer = concat3(key.as_str(), " : ", literal.as_str());
        initializer.append(" ,");
        append_spaced(&mut list, initializer.as_str());
        i = i + 1;
    }
    let mut out = String::from_str(struct_name);
    out.append(" {");
    append_spaced(&mut out, list.as_str());
    append_spaced(&mut out, "}");
    out
}

/// The declaration of the struct of a record, without those of the records
/// below it.
fn define_one_struct(data: &Struct, struct_name: &str, derives: &str) -> (r: String)
    ensures
        r@ == render_declaration(
            Declaration { name: struct_name@, fields: field_types(data@, struct_name@) },
            derives@,
        ),
{
    proof {
        lemma_struct_fields(*data);
    }
    let ghost fields = field_types(data@, struct_name@);
    let mut list = String::new();
    let mut i: usize = 0;
    while i < data.0.len()
        invariant
            i <= data.0.len(),
            data@ == fields_of(data.0@),
            fields == field_types(data@, struct_name@),
            list@ == render_fields(fields, i as nat),
        decreases data.0.len() - i,
    {
        let key: &String = &data.0[i].0;
        let name = field_name(struct_name, key.as_str());
        let field_type = type_of_value(&data.0[i].1, name.as_str());
        let mut field = concat3("pub ", key.as_str(), " : ");
        field.append(field_type.as_str());
        field.append(" ,");
        append_spaced(&mut list, field.as_str());
        i = i + 1;
    }
    let head = concat3("pub struct ", struct_name, " {");
    let mut out = String::from_str("# [allow (non_camel_case_types)]");
    append_spaced(&mut out, derives);
    append_spaced(&mut out, head.as_str());
    append_spaced(&mut out, list.as_str());
    append_spaced(&mut out, "}");
    out
}

/// The declarations for a record that is named `struct_name`: its own
/// struct, then those of the records below each field in turn.  Every
/// struct gets the attribute `derives`.
pub fn define_structs_inner(data: &Struct, struct_name: &str, derives: &str) -> (r: String)
    ensures
        r@ == render_all(declarations(Tree::Struct(data@), struct_name@), derives@),
    decreases data, 0nat,
{
    proof {
        lemma_struct_fields(*data);
    }
    let ghost own = Declaration { name: struct_name@, fields: field_types(data@, struct_name@) };
    let mut out = define_one_struct(data, struct_name, derives);
    assert(out@ == render_all(seq![own], derives@)) by {
        assert(render_declarations(seq![own], derives@, 0) =~= Seq::<char>::empty());
    }
    let mut i: usize = 0;
    while i < data.0.len()
        invariant
            i <= data.0.len(),
            data@ == fields_of(data.0@),
            own == (Declaration { name: struct_name@, fields: field_types(data@, struct_name@) }),
            out@ == render_all(
                seq![own] + field_declarations(data@, struct_name@, i as nat),
                derives@,
            ),
        decreases data.0.len() - i,
    {
        let key: &String = &data.0[i].0;
        let name = field_name(struct_name, key.as_str());
        let below = define_structs_for_value(&data.0[i].1, name.as_str(), derives);
        append_spaced(&mut out, below.as_str());
        proof {
            let before = seq![own] + field_declarations(data@, struct_name@, i as nat);
            let added = declarations(data@[i as int].1, name@);
            lemma_render_concat(before, added, derives@);
            assert(before + added =~= seq![own] + field_declarations(
                data@,
                struct_name@,
                (i + 1) as nat,
            ));
        }
        i = i + 1;
    }
    out
}

/// The declarations that the slots of a tuple at `context` ask for.
fn define_structs_for_slots(items: &Vec<Value>, context: &str, derives: &str) -> (r: String)
    ensures
        r@ == render_all(
            slot_declarations(trees_of(items@), context@, items@.len()),
            derives@,
        ),
    decreases items, 0nat,
{
    let mut out = String::new();
    let mut i: usize = 0;
    while i < items.len()
        invariant
            i <= items.len(),
            out@ == render_all(slot_declarations(trees_of(items@), context@, i as nat), derives@),
        decreases items.len() - i,
    {
        let name = slot_name(context, i);
        let below = define_structs_for_value(&items[i], name.as_str(), derives);
        append_spaced(&mut out, below.as_str());
        proof {
            lemma_render_concat(
                slot_declarations(trees_of(items@), context@, i as nat),
                declarations(items@[i as int]@, name@),
                derives@,
            );
        }
        i = i + 1;
    }
    out
}

/// The declarations that a value at `context` asks for: those of every
/// record that is reached from it through options, tuple slots, record
/// fields and the first item of each array and list.
pub fn define_structs_for_value(value: &Value, context: &str, derives: &str) -> (r: String)
    ensures
        r@ == render_all(declarations(value@, context@), derives@),
    decreases value, 1nat,
{
    match value {
        Value::Option(Some(inner)) => define_structs_for_value(inner, context, derives),
        Value::Tuple(items) => define_structs_for_slots(items, context, derives),
        Value::Array(_, items) => {
            proof {
                lemma_trees_of(items@);
            }
            if items.len() == 0 {
                String::new()
            } else {
                define_structs_for_value(&items[0], context, derives)
            }
        },
        Value::Vec(items) => {
            proof {
                lemma_trees_of(items@);
            }
            if items.len() == 0 {
                String::new()
            } else {
                define_structs_for_value(&items[0], context, derives)
            }
        },
        Value::Struct(fields) => define_structs_inner(fields, context, derives),
        _ => String::new(),
    }
}

} // verus!
