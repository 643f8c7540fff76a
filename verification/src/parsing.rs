//! From a decoded document to a generic value.
//!
//! A decoder of a markup format hands over a [`RawValue`]: the document as
//! the format has it, with numbers not yet typed and sequences not yet
//! told apart.  This module types it under [`ParseOptions`] and makes the
//! items of each sequence agree with each other.

use vstd::prelude::*;

use crate::error::{Error, Fault};
use crate::options::{FloatSize, IntSize, ParseOptions};
use crate::value::{
    all_fields_well_formed,
    all_well_formed,
    keys_distinct,
    lemma_fields_of,
    lemma_struct_fields,
    lemma_trees_of,
    lemma_with_entry_distinct,
    trees_of,
    well_formed,
    with_entry,
    Decimal,
    Struct,
    Tree,
    Value,
};

verus! {

/// A floating-point number of a document: its numeral at 64 bits, and its
/// numeral at 32 bits where its magnitude is within the range of that
/// type.
#[derive(Clone, Debug, PartialEq, Eq)]
pub struct RawFloat {
    pub wide: Decimal,
    pub narrow: Option<Decimal>,
}

/// A number of a document.
#[derive(Clone, Debug, PartialEq, Eq)]
pub enum RawNumber {
    /// A whole number.
    Integer(i128),
    /// A number with a fraction or an exponent.
    Float(RawFloat),
    /// A number that the decoder could read neither way.
    Unreadable,
}

/// A document as its decoder read it.
#[derive(Debug, PartialEq, Eq)]
pub enum RawValue {
    /// The absent value.
    Null,
    Bool(bool),
    Number(RawNumber),
    String(String),
    Sequence(Vec<RawValue>),
    /// Keyed entries in the order of the document.  A format may allow a
    /// key that is no string.
    Mapping(Vec<(RawValue, RawValue)>),
}

/// A [`RawFloat`] with its numerals as sequences of characters.
pub ghost struct FloatModel {
    pub wide: Seq<char>,
    pub narrow: Option<Seq<char>>,
}

/// A [`RawNumber`] with its numerals as sequences of characters.
pub ghost enum NumberModel {
    Integer(i128),
    Float(FloatModel),
    Unreadable,
}

/// What a [`RawValue`] is, as mathematics.
pub ghost enum RawTree {
    Null,
    Bool(bool),
    Number(NumberModel),
    String(Seq<char>),
    Sequence(Seq<RawTree>),
    Mapping(Seq<(RawTree, RawTree)>),
}

impl View for RawFloat {
    type V = FloatModel;

    open spec fn view(&self) -> FloatModel {
        FloatModel {
            wide: self.wide@,
            narrow: match self.narrow {
                None => None,
                Some(d) => Some(d@),
            },
        }
    }
}

impl View for RawNumber {
    type V = NumberModel;

    open spec fn view(&self) -> NumberModel {
        match self {
            RawNumber::Integer(x) => NumberModel::Integer(*x),
            RawNumber::Float(f) => NumberModel::Float(f@),
            RawNumber::Unreadable => NumberModel::Unreadable,
        }
    }
}

/// The trees of a list of raw values, in order.
pub open spec fn raw_trees_of(items: Seq<RawValue>) -> Seq<RawTree>
    decreases items,
{
    Seq::new(
        items.len(),
        |i: int|
            if 0 <= i < items.len() {
                raw_tree_of(items[i])
            } else {
                RawTree::Null
            },
    )
}

/// The trees of a list of raw entries, in order.
pub open spec fn raw_entries_of(entries: Seq<(RawValue, RawValue)>) -> Seq<(RawTree, RawTree)>
    decreases entries,
{
    Seq::new(
        entries.len(),
        |i: int|
            if 0 <= i < entries.len() {
                (raw_tree_of(entries[i].0), raw_tree_of(entries[i].1))
            } else {
                (RawTree::Null, RawTree::Null)
            },
    )
}

/// The tree of a raw value.
pub open spec fn raw_tree_of(v: RawValue) -> RawTree
    decreases v,
{
    match v {
        RawValue::Null => RawTree::Null,
        RawValue::Bool(x) => RawTree::Bool(x),
        RawValue::Number(x) => RawTree::Number(x@),
        RawValue::String(x) => RawTree::String(x@),
        RawValue::Sequence(items) => RawTree::Sequence(raw_trees_of(items@)),
        RawValue::Mapping(entries) => RawTree::Mapping(raw_entries_of(entries@)),
    }
}

impl View for RawValue {
    type V = RawTree;

    open spec fn view(&self) -> RawTree {
        raw_tree_of(*self)
    }
}

/// `raw_trees_of` keeps the length and maps item by item.
pub proof fn lemma_raw_trees_of(items: Seq<RawValue>)
    ensures
        raw_trees_of(items).len() == items.len(),
        forall|i: int|
            0 <= i < items.len() ==> #[trigger] raw_trees_of(items)[i] == raw_tree_of(items[i]),
{
}

/// `raw_entries_of` keeps the length and maps entry by entry.
pub proof fn lemma_raw_entries_of(entries: Seq<(RawValue, RawValue)>)
    ensures
        raw_entries_of(entries).len() == entries.len(),
        forall|i: int|
            0 <= i < entries.len() ==> #[trigger] raw_entries_of(entries)[i] == (
                raw_tree_of(entries[i].0),
                raw_tree_of(entries[i].1),
            ),
{
}

/// The narrowest type that is at least as wide as the preferred one and
/// holds the number: `i8`, `i16`, `i32`, `i64` or `i128` under a preferred
/// width; under `isize` that type if it holds the number, else `i128`.
pub open spec fn preferred_int_tree(value: i128, preferred: IntSize) -> Tree {
    if preferred == IntSize::ISize {
        if isize::MIN <= value <= isize::MAX {
            Tree::ISize(value as isize)
        } else {
            Tree::I128(value)
        }
    } else if preferred == IntSize::I8 && i8::MIN <= value <= i8::MAX {
        Tree::I8(value as i8)
    } else if (preferred == IntSize::I8 || preferred == IntSize::I16) && i16::MIN <= value
        <= i16::MAX {
        Tree::I16(value as i16)
    } else if (preferred == IntSize::I8 || preferred == IntSize::I16 || preferred == IntSize::I32)
        && i32::MIN <= value <= i32::MAX {
        Tree::I32(value as i32)
    } else if preferred != IntSize::I128 && i64::MIN <= value <= i64::MAX {
        Tree::I64(value as i64)
    } else {
        Tree::I128(value)
    }
}

/// The integer that a tree of an integer type holds.
pub open spec fn int_of(t: Tree) -> int {
    match t {
        Tree::I8(x) => x as int,
        Tree::I16(x) => x as int,
        Tree::I32(x) => x as int,
        Tree::I64(x) => x as int,
        Tree::I128(x) => x as int,
        Tree::ISize(x) => x as int,
        _ => 0,
    }
}

/// The typed value of a whole number: of the preferred type where that
/// holds it, else of the next wider type that does.
pub fn preferred_int(value: i128, preferred: IntSize) -> (r: Value)
    ensures
        r@ == preferred_int_tree(value, preferred),
        int_of(r@) == value,
{
    match preferred {
        IntSize::ISize => {
            if value >= isize::MIN as i128 && value <= isize::MAX as i128 {
                Value::ISize(value as isize)
            } else {
                Value::I128(value)
            }
        },
        IntSize::I8 => {
            if value >= -128 && value <= 127 {
                Value::I8(value as i8)
            } else if value >= -32768 && value <= 32767 {
                Value::I16(value as i16)
            } else if value >= -2147483648 && value <= 2147483647 {
                Value::I32(value as i32)
            } else if value >= -9223372036854775808 && value <= 9223372036854775807 {
                Value::I64(value as i64)
            } else {
                Value::I128(value)
            }
        },
        IntSize::I16 => {
            if value >= -32768 && value <= 32767 {
                Value::I16(value as i16)
            } else if value >= -2147483648 && value <= 2147483647 {
                Value::I32(value as i32)
            } else if value >= -9223372036854775808 && value <= 9223372036854775807 {
                Value::I64(value as i64)
            } else {
                Value::I128(value)
            }
        },
        IntSize::I32 => {
            if value >= -2147483648 && value <= 2147483647 {
                Value::I32(value as i32)
            } else if value >= -9223372036854775808 && value <= 9223372036854775807 {
                Value::I64(value as i64)
            } else {
                Value::I128(value)
            }
        },
        IntSize::I64 => {
            if value >= -9223372036854775808 && value <= 9223372036854775807 {
                Value::I64(value as i64)
            } else {
                Value::I128(value)
            }
        },
        IntSize::I128 => Value::I128(value),
    }
}

/// The narrow numeral where 32 bits are preferred and the number is within
/// their range; the wide numeral otherwise.
pub open spec fn preferred_float_tree(value: FloatModel, preferred: FloatSize) -> Tree {
    if preferred == FloatSize::F32 && value.narrow is Some {
        Tree::F32(value.narrow->Some_0)
    } else {
        Tree::F64(value.wide)
    }
}

/// The typed value of a floating-point number: of 32 bits where those are
/// preferred and the number is within their range, else of 64 bits.
pub fn preferred_float(value: &RawFloat, preferred: FloatSize) -> (r: Value)
    ensures
        r@ == preferred_float_tree(value@, preferred),
{
    match preferred {
        FloatSize::F32 => match &value.narrow {
            Some(narrow) => Value::F32(narrow.clone()),
            None => Value::F64(value.wide.clone()),
        },
        FloatSize::F64 => Value::F64(value.wide.clone()),
    }
}

/// A sequence of `items`: a fixed array where a greatest length is set and
/// the sequence is no longer than it, a list otherwise.
pub open spec fn array_or_vec_tree(items: Seq<Tree>, max_array_size: Option<usize>) -> Tree {
    if max_array_size is Some && items.len() <= max_array_size->Some_0 {
        Tree::Array(items.len() as usize, items)
    } else {
        Tree::Vec(items)
    }
}

/// The value of a sequence: a fixed array of its length where a greatest
/// length is set and the sequence is no longer than it, a list otherwise.
pub fn array_or_vec(seq: Vec<Value>, max_array_size: Option<usize>) -> (r: Value)
    ensures
        r@ == array_or_vec_tree(trees_of(seq@), max_array_size),
{
    proof {
        lemma_trees_of(seq@);
    }
    match max_array_size {
        Some(max) => {
            if seq.len() <= max {
                Value::Array(seq.len(), seq)
            } else {
                Value::Vec(seq)
            }
        },
        None => Value::Vec(seq),
    }
}

/// A sequence exactly as long as the greatest length is a fixed array, and
/// one that is longer by one item is a list.
pub proof fn lemma_array_threshold(items: Seq<Tree>, longer: Seq<Tree>, max: usize)
    requires
        items.len() == max,
        longer.len() == max + 1,
    ensures
        array_or_vec_tree(items, Some(max)) == Tree::Array(max, items),
        array_or_vec_tree(longer, Some(max)) == Tree::Vec(longer),
        array_or_vec_tree(items, None) == Tree::Vec(items),
{
}

/// A tree that is no option becomes the option that holds it; an option
/// stays as it is.
pub open spec fn wrap(t: Tree) -> Tree {
    if t is Option {
        t
    } else {
        Tree::Option(Some(Box::new(t)))
    }
}

/// Whether one of the trees is an option.
pub open spec fn any_option(items: Seq<Tree>) -> bool {
    exists|i: int| 0 <= i < items.len() && (#[trigger] items[i]) is Option
}

/// Siblings after promotion: where one of them is an option, each of them
/// is wrapped; where none is, they stay as they are.
pub open spec fn promote(items: Seq<Tree>) -> Seq<Tree> {
    if any_option(items) {
        Seq::new(items.len(), |i: int| wrap(items[i]))
    } else {
        items
    }
}

/// Each tree unified within itself.
pub open spec fn unify_each(items: Seq<Tree>) -> Seq<Tree>
    decreases items, 0nat,
{
    Seq::new(
        items.len(),
        |i: int|
            if 0 <= i < items.len() {
                unify(items[i])
            } else {
                Tree::Unit
            },
    )
}

/// Each field's tree unified within itself.
pub open spec fn unify_fields(fields: Seq<(Seq<char>, Tree)>) -> Seq<(Seq<char>, Tree)>
    decreases fields, 0nat,
{
    Seq::new(
        fields.len(),
        |i: int|
            if 0 <= i < fields.len() {
                (fields[i].0, unify(fields[i].1))
            } else {
                (Seq::empty(), Tree::Unit)
            },
    )
}

/// Siblings unified: each within itself first, then promoted together.
pub open spec fn unify_group(items: Seq<Tree>) -> Seq<Tree>
    decreases items, 1nat,
{
    promote(unify_each(items))
}

/// A tree unified within itself: at every depth the items of an array and
/// of a list are unified as siblings.  The slots of a tuple and the fields
/// of a record are unified each within itself, never with each other.
pub open spec fn unify(t: Tree) -> Tree
    decreases t, 0nat,
{
    match t {
        Tree::Option(Some(inner)) => Tree::Option(Some(Box::new(unify(*inner)))),
        Tree::Tuple(items) => Tree::Tuple(unify_each(items)),
        Tree::Array(len, items) => Tree::Array(len, unify_group(items)),
        Tree::Vec(items) => Tree::Vec(unify_group(items)),
        Tree::Struct(fields) => Tree::Struct(unify_fields(fields)),
        _ => t,
    }
}

/// Unifying a tree within itself keeps what kind of tree it is.
pub proof fn lemma_unify_keeps_option(t: Tree)
    ensures
        unify(t) is Option <==> t is Option,
{
}

/// Unifying each of some siblings within itself changes none into an
/// option and none out of one.
pub proof fn lemma_unify_each_options(items: Seq<Tree>)
    ensures
        any_option(unify_each(items)) <==> any_option(items),
{
    if any_option(items) {
        let i = choose|i: int| 0 <= i < items.len() && (#[trigger] items[i]) is Option;
        lemma_unify_keeps_option(items[i]);
        assert(unify_each(items)[i] is Option);
    }
    if any_option(unify_each(items)) {
        let i = choose|i: int|
            0 <= i < unify_each(items).len() && (#[trigger] unify_each(items)[i]) is Option;
        lemma_unify_keeps_option(items[i]);
        assert(items[i] is Option);
    }
}

/// A scalar beside an absent value: both become options, the scalar a
/// present one.
pub proof fn lemma_unify_scalar_and_null(v: Tree)
    requires
        !(v is Option || v is Tuple || v is Array || v is Vec || v is Struct),
    ensures
        unify_group(seq![v, Tree::Option(None)]) == seq![
            Tree::Option(Some(Box::new(v))),
            Tree::Option(None),
        ],
{
    let items = seq![v, Tree::Option(None)];
    let each = unify_each(items);
    assert(each[1] is Option);
    assert(each[0] == v);
    assert(unify_group(items) =~= seq![Tree::Option(Some(Box::new(v))), Tree::Option(None)]);
}

/// Whether one of the values is an option.
fn has_option(items: &Vec<Value>) -> (r: bool)
    ensures
        r == any_option(trees_of(items@)),
{
    proof {
        lemma_trees_of(items@);
    }
    let mut i: usize = 0;
    while i < items.len()
        invariant
            i <= items.len(),
            trees_of(items@).len() == items@.len(),
            forall|k: int| 0 <= k < i ==> !((#[trigger] trees_of(items@)[k]) is Option),
        decreases items.len() - i,
    {
        let found = match &items[i] {
            Value::Option(_) => true,
            _ => false,
        };
        assert(found == (trees_of(items@)[i as int] is Option));
        if found {
            return true;
        }
        i = i + 1;
    }
    false
}

/// The option that holds the value, or the value itself where it is an
/// option.
fn wrap_in_option(value: Value) -> (r: Value)
    ensures
        r@ == wrap(value@),
{
    match value {
        Value::Option(inner) => Value::Option(inner),
        other => Value::Option(Some(Box::new(other))),
    }
}

/// Copies of the values, each unified within itself.
fn unified_each(items: &Vec<Value>) -> (r: Vec<Value>)
    ensures
        trees_of(r@) == unify_each(trees_of(items@)),
    decreases items,
{
    proof {
        lemma_trees_of(items@);
    }
    let mut out: Vec<Value> = Vec::new();
    let mut i: usize = 0;
    while i < items.len()
        invariant
            i <= items.len(),
            out@.len() == i,
            forall|k: int| 0 <= k < i ==> (#[trigger] out@[k])@ == unify(items@[k]@),
        decreases items.len() - i,
    {
        let item = unified(&items[i]);
        out.push(item);
        i = i + 1;
    }
    proof {
        lemma_trees_of(out@);
        assert(trees_of(out@) =~= unify_each(trees_of(items@)));
    }
    out
}

/// Copies of the values, unified as siblings.
fn unified_group(items: &Vec<Value>) -> (r: Vec<Value>)
    ensures
        trees_of(r@) == unify_group(trees_of(items@)),
    decreases items,
{
    let promoting = has_option(items);
    proof {
        lemma_trees_of(items@);
        lemma_unify_each_options(trees_of(items@));
    }
    let mut out: Vec<Value> = Vec::new();
    let mut i: usize = 0;
    while i < items.len()
        invariant
            i <= items.len(),
            out@.len() == i,
            forall|k: int|
                0 <= k < i ==> (#[trigger] out@[k])@ == if promoting {
                    wrap(unify(items@[k]@))
                } else {
                    unify(items@[k]@)
                },
        decreases items.len() - i,
    {
        let item = unified(&items[i]);
        if promoting {
            out.push(wrap_in_option(item));
        } else {
            out.push(item);
        }
        i = i + 1;
    }
    proof {
        lemma_trees_of(out@);
        assert(trees_of(out@) =~= unify_group(trees_of(items@)));
    }
    out
}

/// A copy of the record with each field's value unified within itself.
fn unified_fields(fields: &Struct) -> (r: Struct)
    ensures
        r@ == unify_fields(fields@),
    decreases fields,
{
    proof {
        lemma_struct_fields(*fields);
    }
    let mut out: Vec<(String, Value)> = Vec::new();
    let mut i: usize = 0;
    while i < fields.0.len()
        invariant
            i <= fields.0.len(),
            out@.len() == i,
            forall|k: int|
                0 <= k < i ==> (#[trigger] out@[k]).0@ == fields.0@[k].0@ && out@[k].1@ == unify(
                    fields.0@[k].1@,
                ),
        decreases fields.0.len() - i,
    {
        let key = fields.0[i].0.clone();
        let value = unified(&fields.0[i].1);
        out.push((key, value));
        i = i + 1;
    }
    let r = fields.rebuilt(out);
    proof {
        lemma_fields_of(out@);
        assert(r@ =~= unify_fields(fields@));
    }
    r
}

/// A copy of the value, unified within itself.
fn unified(value: &Value) -> (r: Value)
    ensures
        r@ == unify(value@),
    decreases value,
{
    match value {
        Value::Option(Some(inner)) => Value::Option(Some(Box::new(unified(inner)))),
        Value::Tuple(items) => Value::Tuple(unified_each(items)),
        Value::Array(len, items) => Value::Array(*len, unified_group(items)),
        Value::Vec(items) => Value::Vec(unified_group(items)),
        Value::Struct(fields) => Value::Struct(unified_fields(fields)),
        _ => value.clone(),
    }
}

/// Unifies the value within itself, so that the items of each array and
/// list in it have compatible types.  See [`unify_values`].
pub fn unify_value(value: &mut Value) -> (r: Result<(), Error>)
    ensures
        r is Ok,
        final(value)@ == unify(old(value)@),
{
    let after = unified(value);
    *value = after;
    Ok(())
}

/// Unifies the values as siblings: each is unified within itself, and
/// then, where one of them is an option, each that is none is wrapped in
/// one.  Nothing else is changed, and the call never fails.
pub fn unify_values(values: &mut Vec<Value>) -> (r: Result<(), Error>)
    ensures
        r is Ok,
        trees_of(final(values)@) == unify_group(trees_of(old(values)@)),
{
    let after = unified_group(values);
    *values = after;
    Ok(())
}

/// The first `n` raw trees typed, or the first error among them.
pub open spec fn typed_items(items: Seq<RawTree>, options: ParseOptions, n: nat) -> Result<
    Seq<Tree>,
    Fault,
>
    decreases items, n,
{
    if n == 0 || n > items.len() {
        Ok(Seq::empty())
    } else {
        match typed_items(items, options, (n - 1) as nat) {
            Err(e) => Err(e),
            Ok(before) => match typed(items[n - 1], options) {
                Err(e) => Err(e),
                Ok(t) => Ok(before.push(t)),
            },
        }
    }
}

/// The record of the first `n` raw entries, or the first error among
/// them.  An entry whose key is no string is an error; of two entries with
/// one key the first decides the place and the last the value.
pub open spec fn typed_entries(entries: Seq<(RawTree, RawTree)>, options: ParseOptions, n: nat)
    -> Result<Seq<(Seq<char>, Tree)>, Fault>
    decreases entries, n,
{
    if n == 0 || n > entries.len() {
        Ok(Seq::empty())
    } else {
        match typed_entries(entries, options, (n - 1) as nat) {
            Err(e) => Err(e),
            Ok(before) => match entries[n - 1].0 {
                RawTree::String(key) => match typed(entries[n - 1].1, options) {
                    Err(e) => Err(e),
                    Ok(t) => Ok(with_entry(before, key, t)),
                },
                _ => Err(Fault::ExpectedStringKey),
            },
        }
    }
}

/// A raw tree typed: numbers by the preferred widths, sequences by the
/// greatest array length, the absent value as an absent option.  Nothing is
/// unified yet.
pub open spec fn typed(raw: RawTree, options: ParseOptions) -> Result<Tree, Fault>
    decreases raw, 0nat,
{
    match raw {
        RawTree::Null => Ok(Tree::Option(None)),
        RawTree::Bool(x) => Ok(Tree::Bool(x)),
        RawTree::Number(NumberModel::Integer(x)) => Ok(
            preferred_int_tree(x, options.default_int_size),
        ),
        RawTree::Number(NumberModel::Float(x)) => Ok(
            preferred_float_tree(x, options.default_float_size),
        ),
        RawTree::Number(NumberModel::Unreadable) => Err(Fault::ErrorParsingNumber),
        RawTree::String(x) => Ok(Tree::String(x)),
        RawTree::Sequence(items) => match typed_items(items, options, items.len()) {
            Err(e) => Err(e),
            Ok(trees) => Ok(array_or_vec_tree(trees, options.max_array_size)),
        },
        RawTree::Mapping(entries) => match typed_entries(entries, options, entries.len()) {
            Err(e) => Err(e),
            Ok(fields) => Ok(Tree::Struct(fields)),
        },
    }
}

/// The view of a result of typing.
pub open spec fn outcome(r: Result<Value, Error>) -> Result<Tree, Fault> {
    match r {
        Ok(v) => Ok(v@),
        Err(e) => Err(e@),
    }
}

/// The items of a raw sequence typed, or the first error among them.
fn parse_items(items: &Vec<RawValue>, options: &ParseOptions) -> (r: Result<Vec<Value>, Error>)
    ensures
        match typed_items(raw_trees_of(items@), *options, items@.len()) {
            Ok(trees) => r matches Ok(values) && trees_of(values@) == trees,
            Err(fault) => r matches Err(e) && e@ == fault,
        },
    decreases items,
{
    let mut out: Vec<Value> = Vec::new();
    proof {
        lemma_raw_trees_of(items@);
        assert(trees_of(out@) =~= Seq::<Tree>::empty());
    }
    let mut i: usize = 0;
    while i < items.len()
        invariant
            i <= items.len(),
            raw_trees_of(items@).len() == items@.len(),
            forall|k: int|
                0 <= k < items@.len() ==> #[trigger] raw_trees_of(items@)[k] == raw_tree_of(
                    items@[k],
                ),
            typed_items(raw_trees_of(items@), *options, i as nat) == Ok::<Seq<Tree>, Fault>(
                trees_of(out@),
            ),
        decreases items.len() - i,
    {
        match parse_value_non_unified(&items[i], options) {
            Err(e) => {
                proof {
                    lemma_typed_items_error(
                        raw_trees_of(items@),
                        *options,
                        (i + 1) as nat,
                        items@.len(),
                    );
                }
                return Err(e);
            },
            Ok(value) => {
                let ghost before = out@;
                out.push(value);
                proof {
                    lemma_trees_of(before);
                    lemma_trees_of(out@);
                    assert(trees_of(out@) =~= trees_of(before).push(value@));
                }
            },
        }
        i = i + 1;
    }
    Ok(out)
}

/// An error among the first `n` items is the error of any longer prefix.
pub proof fn lemma_typed_items_error(items: Seq<RawTree>, options: ParseOptions, n: nat, m: nat)
    requires
        n <= m <= items.len(),
        typed_items(items, options, n) is Err,
    ensures
        typed_items(items, options, m) == typed_items(items, options, n),
    decreases m,
{
    if m > n {
        lemma_typed_items_error(items, options, n, (m - 1) as nat);
    }
}

/// An error among the first `n` entries is the error of any longer prefix.
pub proof fn lemma_typed_entries_error(
    entries: Seq<(RawTree, RawTree)>,
    options: ParseOptions,
    n: nat,
    m: nat,
)
    requires
        n <= m <= entries.len(),
        typed_entries(entries, options, n) is Err,
    ensures
        typed_entries(entries, options, m) == typed_entries(entries, options, n),
    decreases m,
{
    if m > n {
        lemma_typed_entries_error(entries, options, n, (m - 1) as nat);
    }
}

/// The entries of a raw mapping typed into a record, or the first error
/// among them.
fn parse_entries(entries: &Vec<(RawValue, RawValue)>, options: &ParseOptions) -> (r: Result<
    Struct,
    Error,
>)
    ensures
        match typed_entries(raw_entries_of(entries@), *options, entries@.len()) {
            Ok(fields) => r matches Ok(record) && record@ == fields,
            Err(fault) => r matches Err(e) && e@ == fault,
        },
    decreases entries,
{
    proof {
        lemma_raw_entries_of(entries@);
    }
    let mut out = Struct::new();
    let mut i: usize = 0;
    while i < entries.len()
        invariant
            i <= entries.len(),
            raw_entries_of(entries@).len() == entries@.len(),
            forall|k: int|
                0 <= k < entries@.len() ==> #[trigger] raw_entries_of(entries@)[k] == (
                    raw_tree_of(entries@[k].0),
                    raw_tree_of(entries@[k].1),
                ),
            typed_entries(raw_entries_of(entries@), *options, i as nat) == Ok::<
                Seq<(Seq<char>, Tree)>,
                Fault,
            >(out@),
        decreases entries.len() - i,
    {
        match &entries[i].0 {
            RawValue::String(key) => {
                match parse_value_non_unified(&entries[i].1, options) {
                    Err(e) => {
                        proof {
                            lemma_typed_entries_error(
                                raw_entries_of(entries@),
                                *options,
                                (i + 1) as nat,
                                entries@.len(),
                            );
                        }
                        return Err(e);
                    },
                    Ok(value) => {
                        out.insert(key.clone(), value);
                    },
                }
            },
            _ => {
                proof {
                    lemma_typed_entries_error(
                        raw_entries_of(entries@),
                        *options,
                        (i + 1) as nat,
                        entries@.len(),
                    );
                }
                return Err(Error::ExpectedStringKey);
            },
        }
        i = i + 1;
    }
    Ok(out)
}

/// Types a document: numbers by the preferred widths, sequences by the
/// greatest array length, the absent value as an absent option, a mapping
/// as a record with its entries in the order of the document.  Nothing is
/// unified yet.
///
/// Fails on the first number that could not be read and on the first key
/// that is no string, whichever the document has first.
pub fn parse_value_non_unified(raw_value: &RawValue, options: &ParseOptions) -> (r: Result<
    Value,
    Error,
>)
    ensures
        outcome(r) == typed(raw_value@, *options),
    decreases raw_value,
{
    match raw_value {
        RawValue::Null => Ok(Value::Option(None)),
        RawValue::Bool(x) => Ok(Value::Bool(*x)),
        RawValue::Number(RawNumber::Integer(x)) => Ok(
            preferred_int(*x, options.default_int_size),
        ),
        RawValue::Number(RawNumber::Float(x)) => Ok(
            preferred_float(x, options.default_float_size),
        ),
        RawValue::Number(RawNumber::Unreadable) => Err(Error::ErrorParsingNumber),
        RawValue::String(x) => Ok(Value::String(x.clone())),
        RawValue::Sequence(items) => {
            proof {
                lemma_raw_trees_of(items@);
            }
            match parse_items(items, options) {
                Err(e) => Err(e),
                Ok(values) => Ok(array_or_vec(values, options.max_array_size)),
            }
        },
        RawValue::Mapping(entries) => {
            proof {
                lemma_raw_entries_of(entries@);
            }
            match parse_entries(entries, options) {
                Err(e) => Err(e),
                Ok(record) => Ok(Value::Struct(record)),
            }
        },
    }
}

/// What [`parse_value`] gives: the document typed and then unified.
pub open spec fn parsed(raw: RawTree, options: ParseOptions) -> Result<Tree, Fault> {
    match typed(raw, options) {
        Err(e) => Err(e),
        Ok(t) => Ok(unify(t)),
    }
}

/// Types a document as [`parse_value_non_unified`] does, and unifies the
/// result within itself.
pub fn parse_value(raw_value: &RawValue, options: &ParseOptions) -> (r: Result<Value, Error>)
    ensures
        outcome(r) == parsed(raw_value@, *options),
{
    match parse_value_non_unified(raw_value, options) {
        Err(e) => Err(e),
        Ok(mut value) => {
            let _ = unify_value(&mut value);
            Ok(value)
        },
    }
}

/// The first `n` trees are well formed exactly when each of them is.
pub proof fn lemma_all_well_formed(items: Seq<Tree>, n: nat)
    requires
        n <= items.len(),
    ensures
        all_well_formed(items, n) <==> forall|i: int|
            0 <= i < n ==> well_formed(#[trigger] items[i]),
    decreases n,
{
    if n > 0 {
        lemma_all_well_formed(items, (n - 1) as nat);
    }
}

/// The first `n` fields hold well-formed trees exactly when each of them
/// does.
pub proof fn lemma_all_fields_well_formed(fields: Seq<(Seq<char>, Tree)>, n: nat)
    requires
        n <= fields.len(),
    ensures
        all_fields_well_formed(fields, n) <==> forall|i: int|
            0 <= i < n ==> well_formed((#[trigger] fields[i]).1),
    decreases n,
{
    if n > 0 {
        lemma_all_fields_well_formed(fields, (n - 1) as nat);
    }
}

/// Unification keeps a tree well formed: an array keeps its length and a
/// record its keys.
pub proof fn lemma_unify_keeps_well_formed(t: Tree)
    requires
        well_formed(t),
    ensures
        well_formed(unify(t)),
    decreases t,
{
    match t {
        Tree::Option(Some(inner)) => {
            lemma_unify_keeps_well_formed(*inner);
        },
        Tree::Tuple(items) => {
            let after = unify_each(items);
            lemma_all_well_formed(items, items.len());
            assert forall|i: int| 0 <= i < after.len() implies well_formed(
                #[trigger] after[i],
            ) by {
                lemma_unify_keeps_well_formed(items[i]);
            }
            lemma_all_well_formed(after, after.len());
        },
        Tree::Array(len, items) => {
            lemma_unify_group_keeps_well_formed(items);
        },
        Tree::Vec(items) => {
            lemma_unify_group_keeps_well_formed(items);
        },
        Tree::Struct(fields) => {
            let after = unify_fields(fields);
            lemma_all_fields_well_formed(fields, fields.len());
            assert forall|i: int| 0 <= i < after.len() implies well_formed(
                (#[trigger] after[i]).1,
            ) by {
                lemma_unify_keeps_well_formed(fields[i].1);
            }
            lemma_all_fields_well_formed(after, after.len());
            assert forall|i: int, j: int| 0 <= i < j < after.len() implies (#[trigger] after[i]).0
                != (#[trigger] after[j]).0 by {
                assert(fields[i].0 != fields[j].0);
            }
        },
        _ => {},
    }
}

/// Unification of siblings keeps their number and keeps each of them well
/// formed.
pub proof fn lemma_unify_group_keeps_well_formed(items: Seq<Tree>)
    requires
        all_well_formed(items, items.len()),
    ensures
        unify_group(items).len() == items.len(),
        all_well_formed(unify_group(items), items.len()),
    decreases items,
{
    let after = unify_group(items);
    lemma_all_well_formed(items, items.len());
    assert forall|i: int| 0 <= i < after.len() implies well_formed(#[trigger] after[i]) by {
        lemma_unify_keeps_well_formed(items[i]);
        assert(unify_each(items)[i] == unify(items[i]));
    }
    lemma_all_well_formed(after, after.len());
}

/// The first `n` items of a sequence, once typed, are as many and are each
/// well formed.
pub proof fn lemma_typed_items_well_formed(items: Seq<RawTree>, options: ParseOptions, n: nat)
    requires
        n <= items.len(),
    ensures
        typed_items(items, options, n) matches Ok(trees) ==> trees.len() == n && all_well_formed(
            trees,
            n,
        ),
    decreases items, n,
{
    if n > 0 {
        lemma_typed_items_well_formed(items, options, (n - 1) as nat);
        lemma_typed_is_well_formed(items[n - 1], options);
        if typed_items(items, options, n) is Ok {
            let before = typed_items(items, options, (n - 1) as nat)->Ok_0;
            let trees = typed_items(items, options, n)->Ok_0;
            lemma_all_well_formed(before, (n - 1) as nat);
            assert forall|i: int| 0 <= i < n implies well_formed(#[trigger] trees[i]) by {
                if i < n - 1 {
                    assert(trees[i] == before[i]);
                }
            }
            lemma_all_well_formed(trees, n);
        }
    }
}

/// The first `n` entries of a mapping, once typed, have distinct keys and
/// hold well-formed trees.
pub proof fn lemma_typed_entries_well_formed(
    entries: Seq<(RawTree, RawTree)>,
    options: ParseOptions,
    n: nat,
)
    requires
        n <= entries.len(),
    ensures
        typed_entries(entries, options, n) matches Ok(fields) ==> keys_distinct(fields)
            && all_fields_well_formed(fields, fields.len()),
    decreases entries, n,
{
    if n > 0 {
        lemma_typed_entries_well_formed(entries, options, (n - 1) as nat);
        lemma_typed_is_well_formed(entries[n - 1].1, options);
        if typed_entries(entries, options, n) is Ok {
            let before = typed_entries(entries, options, (n - 1) as nat)->Ok_0;
            let fields = typed_entries(entries, options, n)->Ok_0;
            let key = entries[n - 1].0->String_0;
            let tree = typed(entries[n - 1].1, options)->Ok_0;
            assert(fields == with_entry(before, key, tree));
            lemma_with_entry_distinct(before, key, tree);
            lemma_all_fields_well_formed(before, before.len());
            assert forall|i: int| 0 <= i < fields.len() implies well_formed(
                (#[trigger] fields[i]).1,
            ) by {
                if fields[i] != (key, tree) {
                    assert(fields[i] == before[i]);
                }
            }
            lemma_all_fields_well_formed(fields, fields.len());
        }
    } else {
        assert(keys_distinct(Seq::<(Seq<char>, Tree)>::empty()));
    }
}

/// A typed document is well formed: its arrays hold as many items as their
/// lengths say, and the keys of each of its records are distinct.
pub proof fn lemma_typed_is_well_formed(raw: RawTree, options: ParseOptions)
    ensures
        typed(raw, options) matches Ok(tree) ==> well_formed(tree),
    decreases raw, 0nat,
{
    match raw {
        RawTree::Sequence(items) => {
            lemma_typed_items_well_formed(items, options, items.len());
        },
        RawTree::Mapping(entries) => {
            lemma_typed_entries_well_formed(entries, options, entries.len());
        },
        _ => {},
    }
}

/// A document that was typed and unified is well formed.
pub proof fn lemma_parsed_is_well_formed(raw: RawTree, options: ParseOptions)
    ensures
        parsed(raw, options) matches Ok(tree) ==> well_formed(tree),
{
    lemma_typed_is_well_formed(raw, options);
    if typed(raw, options) is Ok {
        lemma_unify_keeps_well_formed(typed(raw, options)->Ok_0);
    }
}

} // verus!
