//! Writes Rust structs for records and for tables of values.
//!
//! Each function gives the whole text of what it defines, or the first
//! fault that keeps it from being written.  The text is a row of tokens
//! with one space between them.  A fault is a name, in the data or in the
//! options, that is no identifier, or a table of values without entries.

use vstd::prelude::*;

use crate::derive::{derive_attribute, derive_text};
use crate::emit::{
    define_items,
    define_struct_value,
    define_structs_for_value,
    define_structs_inner,
    type_of_value,
};
use crate::error::{Error, Fault};
use crate::options::{optional_text, texts, Options, Plan};
use crate::parsing::{unify_group, unify_values};
use crate::shape::{
    declarations,
    item_literals,
    literal_of,
    render_all,
    render_items,
    render_literal,
    render_type,
    type_of,
};
use crate::text::{append_spaced, append_string_literal, spaced, string_literal};
use crate::validate::{
    bad_const_name,
    bad_declared_key,
    bad_key_in_items,
    bad_traits,
    bad_type_name,
    bad_written_key,
    check_const_name,
    check_declared_keys,
    check_declared_keys_of_struct,
    check_keys_of_items,
    check_keys_of_struct,
    check_traits,
    check_type_name,
    first_of,
    text_outcome,
};
use crate::value::{lemma_struct_fields, lemma_trees_of, trees_of, Struct, Tree, Value};

verus! {

/// The view of an optional path.
pub open spec fn path_text(path: Option<&str>) -> Option<Seq<char>> {
    match path {
        None => None,
        Some(p) => Some(p@),
    }
}

/// The constant that holds the path of the source.
pub open spec fn render_source_path(const_name: Seq<char>, path: Seq<char>) -> Seq<char> {
    "pub const "@ + const_name + " : & 'static str = "@ + string_literal(path) + " ;"@
}

/// The constant for the path of the source, where a path is known and a
/// name is set for it; nothing otherwise.
pub open spec fn source_item(path: Option<Seq<char>>, const_name: Option<Seq<char>>) -> Seq<char> {
    if path is Some && const_name is Some {
        render_source_path(const_name->Some_0, path->Some_0)
    } else {
        Seq::empty()
    }
}

/// The constant that holds a record as a value of its struct.
pub open spec fn render_data_const(const_name: Seq<char>, owner: Seq<char>, literal: Seq<char>)
    -> Seq<char> {
    "pub const "@ + const_name + " : "@ + owner + " = "@ + literal + " ;"@
}

/// The inherent implementation that holds `items`; nothing where there are
/// no items.
pub open spec fn render_impl(owner: Seq<char>, items: Seq<char>) -> Seq<char> {
    if items.len() == 0 {
        Seq::empty()
    } else {
        "impl "@ + owner + " { "@ + items + " }"@
    }
}

/// The text of [`define_structs`]: the declarations of the record and of
/// the records below it, then the implementation with the constants that
/// the options ask for.
pub open spec fn structs_text(
    data: Seq<(Seq<char>, Tree)>,
    struct_name: Seq<char>,
    path: Option<Seq<char>>,
    plan: Plan,
) -> Seq<char> {
    let derives = derive_text(plan.structs.derived_traits, plan.serde_support, false);
    let declared = render_all(declarations(Tree::Struct(data), struct_name), derives);
    let source = source_item(path, plan.source_path_const_name);
    let constant = match plan.structs.struct_data_const_name {
        Some(const_name) => render_data_const(
            const_name,
            struct_name,
            render_literal(literal_of(Tree::Struct(data), struct_name)),
        ),
        None => Seq::empty(),
    };
    spaced(declared, render_impl(struct_name, spaced(source, constant)))
}

/// The fault of [`define_structs`]: the first of the struct name, a derive
/// entry, a key that is written, the name of the constant for the path
/// (where a path is given) and the name of the constant for the data.  Every
/// key of the data is written where the constant for the data is; without
/// it only the keys that the declarations hold.
pub open spec fn structs_fault(
    data: Seq<(Seq<char>, Tree)>,
    struct_name: Seq<char>,
    path: Option<Seq<char>>,
    plan: Plan,
) -> Option<Fault> {
    first_of(
        bad_type_name(struct_name),
        first_of(
            bad_traits(plan.structs.derived_traits, plan.structs.derived_traits.len()),
            first_of(
                bad_written_key(
                    Tree::Struct(data),
                    plan.structs.struct_data_const_name is Some,
                ),
                first_of(
                    if path is Some {
                        bad_const_name(plan.source_path_const_name)
                    } else {
                        None
                    },
                    bad_const_name(plan.structs.struct_data_const_name),
                ),
            ),
        ),
    )
}

/// What [`define_structs`] gives.
pub open spec fn structs_defined(
    data: Seq<(Seq<char>, Tree)>,
    struct_name: Seq<char>,
    path: Option<Seq<char>>,
    plan: Plan,
) -> Result<Seq<char>, Fault> {
    match structs_fault(data, struct_name, path, plan) {
        Some(fault) => Err(fault),
        None => Ok(structs_text(data, struct_name, path, plan)),
    }
}

/// Five pieces of text in a row.
pub(crate) fn concat5(a: &str, b: &str, c: &str, d: &str, e: &str) -> (r: String)
    ensures
        r@ == a@ + b@ + c@ + d@ + e@,
{
    let mut r = String::from_str(a);
    r.append(b);
    r.append(c);
    r.append(d);
    r.append(e);
    r
}

/// Seven pieces of text in a row.
pub(crate) fn concat7(a: &str, b: &str, c: &str, d: &str, e: &str, f: &str, g: &str) -> (r: String)
    ensures
        r@ == a@ + b@ + c@ + d@ + e@ + f@ + g@,
{
    let mut r = String::from_str(a);
    r.append(b);
    r.append(c);
    r.append(d);
    r.append(e);
    r.append(f);
    r.append(g);
    r
}

/// A string literal that denotes `s`.
pub(crate) fn quoted(s: &str) -> (r: String)
    ensures
        r@ == string_literal(s@),
{
    let mut r = String::new();
    append_string_literal(&mut r, s);
    assert(r@ =~= string_literal(s@));
    r
}

/// The constant for the path of the source, where a path is known and a
/// name is set for it; nothing otherwise.
pub(crate) fn define_source_item(path: Option<&str>, const_name: &Option<String>) -> (r: String)
    ensures
        r@ == source_item(path_text(path), optional_text(*const_name)),
{
    match (path, const_name) {
        (Some(path), Some(const_name)) => {
            let literal = quoted(path);
            concat5(
                "pub const ",
                const_name.as_str(),
                " : & 'static str = ",
                literal.as_str(),
                " ;",
            )
        },
        _ => String::new(),
    }
}

/// The inherent implementation that holds `items`; nothing where there are
/// no items.
pub(crate) fn define_impl(owner: &str, items: &str) -> (r: String)
    ensures
        r@ == render_impl(owner@, items@),
{
    if items.is_empty() {
        String::new()
    } else {
        concat5("impl ", owner, " { ", items, " }")
    }
}

/// Defines the struct of a record and the structs of the records in it.
///
/// The struct of the record is named `struct_name`; the struct of a record
/// below it is named after the path that leads to it.  Every struct derives
/// what the options ask structs to derive.  An implementation follows that
/// holds the path of the source, where a path is given and the options name
/// a constant for it, and the data as a constant, where the options name
/// one.
///
/// Fails where the struct name, a derive entry, a key that is written or
/// the name of a constant that is written is no identifier.  Without the
/// constant for the data, the keys of the later items of a list or an array
/// are not written.
pub fn define_structs(
    data: &Struct,
    struct_name: &str,
    source_file_path: Option<&str>,
    options: &Options,
) -> (r: Result<String, Error>)
    ensures
        text_outcome(r) == structs_defined(
            data@,
            struct_name@,
            path_text(source_file_path),
            options@,
        ),
{
    proof {
        lemma_struct_fields(*data);
    }
    match check_type_name(struct_name) {
        Some(e) => {
            return Err(e);
        },
        None => {},
    }
    match check_traits(&options.structs.derived_traits) {
        Some(e) => {
            return Err(e);
        },
        None => {},
    }
    let keys = if options.structs.struct_data_const_name.is_some() {
        check_keys_of_struct(data)
    } else {
        check_declared_keys_of_struct(data)
    };
    match keys {
        Some(e) => {
            return Err(e);
        },
        None => {},
    }
    if source_file_path.is_some() {
        match check_const_name(&options.source_path_const_name) {
            Some(e) => {
                return Err(e);
            },
            None => {},
        }
    }
    match check_const_name(&options.structs.struct_data_const_name) {
        Some(e) => {
            return Err(e);
        },
        None => {},
    }
    let derives = derive_attribute(&options.structs.derived_traits, options.serde_support, false);
    let mut out = define_structs_inner(data, struct_name, derives.as_str());
    let mut inherents = define_source_item(source_file_path, &options.source_path_const_name);
    match &options.structs.struct_data_const_name {
        Some(const_name) => {
            let literal = define_struct_value(data, struct_name);
            let constant = concat7(
                "pub const ",
                const_name.as_str(),
                " : ",
                struct_name,
                " = ",
                literal.as_str(),
                " ;",
            );
            append_spaced(&mut inherents, constant.as_str());
        },
        None => {
            assert(spaced(inherents@, Seq::<char>::empty()) =~= inherents@);
        },
    }
    let block = define_impl(struct_name, inherents.as_str());
    append_spaced(&mut out, block.as_str());
    Ok(out)
}

/// The type of the values of a table: the type of the first value.
pub open spec fn values_type(unified: Seq<Tree>, name: Seq<char>) -> Seq<char> {
    render_type(type_of(unified[0], name))
}

/// The values of a table as literals, each followed by ` ,`.
pub open spec fn values_list(unified: Seq<Tree>, name: Seq<char>) -> Seq<char> {
    render_items(item_literals(unified, name), unified.len())
}

/// The declarations for the values of a table: those that the first value
/// asks for.
pub open spec fn values_structs(unified: Seq<Tree>, name: Seq<char>, derives: Seq<char>) -> Seq<
    char,
> {
    render_all(declarations(unified[0], name), derives)
}

/// The type of a table of values, the values after unification, and the
/// declarations for them.
pub struct ValueTypes {
    /// The type of each value.
    pub value_type: String,
    /// The values, unified as siblings.
    pub values: Vec<Value>,
    /// The declarations that the type needs.
    pub new_structs: String,
}

/// Establishes one type for all of `values`: unifies them as siblings,
/// takes the type of the first and the declarations that it asks for, under
/// the name `struct_name` and with the attribute `derives` on each struct.
///
/// Fails with `ExpectedValuesInMap` where there is no value, and only
/// there.
pub fn establish_types_for_values(values: &Vec<Value>, struct_name: &str, derives: &str) -> (r:
    Result<ValueTypes, Error>)
    ensures
        values@.len() == 0 ==> (r matches Err(e) && e@ == Fault::ExpectedValuesInMap),
        values@.len() > 0 ==> (r matches Ok(t) && ({
            let unified = unify_group(trees_of(values@));
            &&& trees_of(t.values@) == unified
            &&& unified.len() == values@.len()
            &&& t.value_type@ == values_type(unified, struct_name@)
            &&& t.new_structs@ == values_structs(unified, struct_name@, derives@)
        })),
{
    if values.len() == 0 {
        return Err(Error::ExpectedValuesInMap);
    }
    let mut unified = values.clone();
    proof {
        lemma_trees_of(values@);
        lemma_trees_of(unified@);
        assert(trees_of(unified@) =~= trees_of(values@));
    }
    let _ = unify_values(&mut unified);
    proof {
        lemma_trees_of(unified@);
    }
    let new_structs = define_structs_for_value(&unified[0], struct_name, derives);
    let value_type = type_of_value(&unified[0], struct_name);
    Ok(ValueTypes { value_type, values: unified, new_structs })
}

/// The values of the fields of a record, in order.
pub open spec fn values_of(fields: Seq<(Seq<char>, Tree)>) -> Seq<Tree> {
    Seq::new(fields.len(), |i: int| fields[i].1)
}

/// The keys of the fields of a record, in order.
pub open spec fn keys_of(fields: Seq<(Seq<char>, Tree)>) -> Seq<Seq<char>> {
    Seq::new(fields.len(), |i: int| fields[i].0)
}

/// The constant that holds a table of values as a slice.
pub open spec fn render_table(const_name: Seq<char>, value_type: Seq<char>, list: Seq<char>) -> Seq<
    char,
> {
    "pub const "@ + const_name + " : & ["@ + value_type + "] = & ["@ + list + "] ;"@
}

/// The text of a table of values: the declarations for the type of the
/// values, then the constant that holds them, where a name is set for it.
pub open spec fn table_text(
    values: Seq<Tree>,
    struct_name: Seq<char>,
    plan: Plan,
) -> Seq<char> {
    let unified = unify_group(values);
    let derives = derive_text(plan.structs.derived_traits, plan.serde_support, false);
    let constant = match plan.structs.struct_data_const_name {
        Some(const_name) => render_table(
            const_name,
            values_type(unified, struct_name),
            values_list(unified, struct_name),
        ),
        None => Seq::empty(),
    };
    spaced(values_structs(unified, struct_name, derives), constant)
}

/// The fault of a table of values: the first of the lack of values, the
/// struct name, a derive entry, a key that is written and the name of the
/// constant.  Every key of every value is written where the constant is;
/// without it only the keys that the declarations for the first value hold.
pub open spec fn table_fault(values: Seq<Tree>, struct_name: Seq<char>, plan: Plan) -> Option<
    Fault,
> {
    let unified = unify_group(values);
    first_of(
        if values.len() == 0 {
            Some(Fault::ExpectedValuesInMap)
        } else {
            None
        },
        first_of(
            bad_type_name(struct_name),
            first_of(
                bad_traits(plan.structs.derived_traits, plan.structs.derived_traits.len()),
                first_of(
                    if plan.structs.struct_data_const_name is Some {
                        bad_key_in_items(unified, unified.len())
                    } else {
                        bad_declared_key(unified[0])
                    },
                    bad_const_name(plan.structs.struct_data_const_name),
                ),
            ),
        ),
    )
}

/// What a table of values gives.
pub open spec fn table_defined(values: Seq<Tree>, struct_name: Seq<char>, plan: Plan) -> Result<
    Seq<char>,
    Fault,
> {
    match table_fault(values, struct_name, plan) {
        Some(fault) => Err(fault),
        None => Ok(table_text(values, struct_name, plan)),
    }
}

/// Defines one type for all of `values` and, where the options name a
/// constant for the data of structs, that constant with the values in
/// their order.
fn define_table(values: &Vec<Value>, struct_name: &str, options: &Options) -> (r: Result<
    String,
    Error,
>)
    ensures
        text_outcome(r) == table_defined(trees_of(values@), struct_name@, options@),
{
    proof {
        lemma_trees_of(values@);
    }
    if values.len() == 0 {
        return Err(Error::ExpectedValuesInMap);
    }
    match check_type_name(struct_name) {
        Some(e) => {
            return Err(e);
        },
        None => {},
    }
    match check_traits(&options.structs.derived_traits) {
        Some(e) => {
            return Err(e);
        },
        None => {},
    }
    let derives = derive_attribute(&options.structs.derived_traits, options.serde_support, false);
    let types = match establish_types_for_values(values, struct_name, derives.as_str()) {
        Ok(types) => types,
        Err(e) => {
            return Err(e);
        },
    };
    proof {
        lemma_trees_of(types.values@);
    }
    let keys = if options.structs.struct_data_const_name.is_some() {
        check_keys_of_items(&types.values)
    } else {
        check_declared_keys(&types.values[0])
    };
    match keys {
        Some(e) => {
            return Err(e);
        },
        None => {},
    }
    match check_const_name(&options.structs.struct_data_const_name) {
        Some(e) => {
            return Err(e);
        },
        None => {},
    }
    let mut out = types.new_structs;
    match &options.structs.struct_data_const_name {
        Some(const_name) => {
            let list = define_items(&types.values, struct_name);
            let constant = concat7(
                "pub const ",
                const_name.as_str(),
                " : & [",
                types.value_type.as_str(),
                "] = & [",
                list.as_str(),
                "] ;",
            );
            append_spaced(&mut out, constant.as_str());
        },
        None => {
            assert(spaced(out@, Seq::<char>::empty()) =~= out@);
        },
    }
    Ok(out)
}

/// The values of the entries of a record, copied in order.
pub(crate) fn struct_values(data: &Struct) -> (r: Vec<Value>)
    ensures
        trees_of(r@) == values_of(data@),
{
    let mut out: Vec<Value> = Vec::new();
    let mut i: usize = 0;
    while i < data.0.len()
        invariant
            i <= data.0.len(),
            out@.len() == i,
            forall|k: int| 0 <= k < i ==> (#[trigger] out@[k])@ == data.0@[k].1@,
        decreases data.0.len() - i,
    {
        out.push(data.0[i].1.clone());
        i = i + 1;
    }
    proof {
        lemma_struct_fields(*data);
        lemma_trees_of(out@);
        assert(trees_of(out@) =~= values_of(data@));
    }
    out
}

/// The keys of the entries of a record, copied in order.
pub(crate) fn struct_keys(data: &Struct) -> (r: Vec<String>)
    ensures
        texts(r@) == keys_of(data@),
{
    let mut out: Vec<String> = Vec::new();
    let mut i: usize = 0;
    while i < data.0.len()
        invariant
            i <= data.0.len(),
            out@.len() == i,
            forall|k: int| 0 <= k < i ==> (#[trigger] out@[k])@ == data.0@[k].0@,
        decreases data.0.len() - i,
    {
        out.push(data.0[i].0.clone());
        i = i + 1;
    }
    proof {
        lemma_struct_fields(*data);
        assert(texts(out@) =~= keys_of(data@));
    }
    out
}

/// Defines one struct for the values of a map, and the structs of the
/// records in them.
///
/// The values are unified as siblings, and the first of them decides the
/// type: a record among them becomes the struct named `struct_name`.  Where
/// the options name a constant for the data of structs, the constant holds
/// all the values in the order of the map.
///
/// Fails where the map is empty (`ExpectedValuesInMap`, whatever the names
/// are); else where the struct name, a derive entry, a key that is written
/// or the name of the constant is no identifier.
pub fn define_structs_from_values(data: &Struct, struct_name: &str, options: &Options) -> (r:
    Result<String, Error>)
    ensures
        text_outcome(r) == table_defined(values_of(data@), struct_name@, options@),
{
    let values = struct_values(data);
    define_table(&values, struct_name, options)
}

/// Defines one struct for the contents of the files of a directory, and
/// the structs of the records in them.  `values` holds what each file
/// contains, in the order of the files.  The text and the faults are those
/// of [`define_structs_from_values`] for the same values.
pub fn define_structs_from_file_contents(values: &Vec<Value>, struct_name: &str, options: &Options)
    -> (r: Result<String, Error>)
    ensures
        text_outcome(r) == table_defined(trees_of(values@), struct_name@, options@),
{
    define_table(values, struct_name, options)
}

} // verus!
