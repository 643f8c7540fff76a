//! What holds of every generation: a literal has the type that was
//! inferred for it, and the same input gives the same output.

use vstd::prelude::*;

use crate::enums::FileModel;
use crate::error::Error;
use crate::names::{field_context, slot_context};
use crate::options::Plan;
use crate::parsing::RawTree;
use crate::shape::{
    declarations,
    field_declarations,
    field_literals,
    field_types,
    is_scalar,
    item_literals,
    item_type,
    literal_of,
    scalar_type,
    slot_declarations,
    slot_literals,
    slot_types,
    type_of,
    Declaration,
    Literal,
    TypeExpr,
};
use crate::validate::text_outcome;
use crate::value::Tree;
use crate::{
    enum_from_filenames_generated,
    enum_generated,
    structs_from_files_generated,
    structs_generated,
};

verus! {

/// Whether a literal has a type, where the structs of `declared` are
/// declared.
///
/// A primitive literal has its own primitive type.  `None` has every
/// option type, and `Some` of a literal the option of a type of that
/// literal.  A tuple has the tuple of the types of its slots, an array of
/// `n` literals the array type of length `n` of a type that all of them
/// have, a list the list type of a type that all its literals have.  A
/// struct literal has the type that carries its name, provided that a
/// struct of that name is declared with the same fields in the same order
/// and each initializer has the type of its field.
pub open spec fn has_type(l: Literal, t: TypeExpr, declared: Seq<Declaration>) -> bool
    decreases l,
{
    match l {
        Literal::Primitive { of, text } => t == TypeExpr::Primitive(of),
        Literal::Absent => t is Optional,
        Literal::Present(inner) => t is Optional && has_type(*inner, *t->Optional_0, declared),
        Literal::Tuple(literals) => t is Tuple && literals.len() == t->Tuple_0.len() && forall|
            i: int,
        |
            0 <= i < literals.len() ==> has_type(
                #[trigger] literals[i],
                t->Tuple_0[i],
                declared,
            ),
        Literal::Array(literals) => t is Array && literals.len() == t->Array_1 && forall|i: int|
            0 <= i < literals.len() ==> has_type(#[trigger] literals[i], *t->Array_0, declared),
        Literal::List(literals) => t is List && forall|i: int|
            0 <= i < literals.len() ==> has_type(#[trigger] literals[i], *t->List_0, declared),
        Literal::Record { name, fields } => t == TypeExpr::Named(name) && exists|k: int|
            0 <= k < declared.len() && (#[trigger] declared[k]).name == name
                && declared[k].fields.len() == fields.len() && forall|i: int|
                0 <= i < fields.len() ==> (#[trigger] fields[i]).0 == declared[k].fields[i].0
                    && has_type(fields[i].1, declared[k].fields[i].1, declared),
    }
}

/// The tree that decides the type of the items of a sequence: its first
/// item, or the unit where it has none.
pub open spec fn representative(items: Seq<Tree>) -> Tree {
    if items.len() == 0 {
        Tree::Unit
    } else {
        items[0]
    }
}

/// Whether a tree has the shape of `model`, so that what is inferred from
/// `model` serves for it too.
///
/// A leaf fits a leaf of its kind.  An absent option fits every option, a
/// present one fits an option whose content its own content fits (the unit
/// where the model is absent).  A tuple fits a tuple slot by slot, and a
/// record fits a record with the same keys in the same order, field by
/// field.  An array fits an array of the same length, and a list fits a
/// list, where each of its items fits the representative of the model's
/// items; an array must also hold as many items as its length says.
pub open spec fn fits(t: Tree, model: Tree) -> bool
    decreases t,
{
    match t {
        Tree::Option(None) => model is Option,
        Tree::Option(Some(inner)) => model is Option && fits(
            *inner,
            match model->Option_0 {
                Some(m) => *m,
                None => Tree::Unit,
            },
        ),
        Tree::Tuple(items) => model is Tuple && items.len() == model->Tuple_0.len() && forall|
            i: int,
        | 0 <= i < items.len() ==> fits(#[trigger] items[i], model->Tuple_0[i]),
        Tree::Array(len, items) => model is Array && len == model->Array_0 && items.len() == len
            && forall|i: int|
            0 <= i < items.len() ==> fits(#[trigger] items[i], representative(model->Array_1)),
        Tree::Vec(items) => model is Vec && forall|i: int|
            0 <= i < items.len() ==> fits(#[trigger] items[i], representative(model->Vec_0)),
        Tree::Struct(fields) => model is Struct && fields.len() == model->Struct_0.len()
            && forall|i: int|
            0 <= i < fields.len() ==> (#[trigger] fields[i]).0 == model->Struct_0[i].0 && fits(
                fields[i].1,
                model->Struct_0[i].1,
            ),
        _ => is_scalar(model) && scalar_type(t) == scalar_type(model),
    }
}

/// A tree is uniform when it fits itself: at every depth the items of an
/// array and of a list have the shape of the first, and an array holds as
/// many items as its length says.
pub open spec fn uniform(t: Tree) -> bool {
    fits(t, t)
}

/// Every declaration of `part` is among those of `all`.
pub open spec fn includes(all: Seq<Declaration>, part: Seq<Declaration>) -> bool {
    forall|k: int| 0 <= k < part.len() ==> all.contains(#[trigger] part[k])
}

/// What includes a list includes each half of it.
pub proof fn lemma_includes_halves(all: Seq<Declaration>, a: Seq<Declaration>, b: Seq<Declaration>)
    requires
        includes(all, a + b),
    ensures
        includes(all, a),
        includes(all, b),
{
    assert forall|k: int| 0 <= k < a.len() implies all.contains(#[trigger] a[k]) by {
        assert((a + b)[k] == a[k]);
    }
    assert forall|k: int| 0 <= k < b.len() implies all.contains(#[trigger] b[k]) by {
        assert((a + b)[a.len() + k] == b[k]);
    }
}

/// What includes the declarations under the first `n` slots of a tuple
/// includes those under each of these slots.
pub proof fn lemma_includes_slot(
    all: Seq<Declaration>,
    items: Seq<Tree>,
    context: Seq<char>,
    n: nat,
    i: int,
)
    requires
        0 <= i < n <= items.len(),
        includes(all, slot_declarations(items, context, n)),
    ensures
        includes(all, declarations(items[i], slot_context(context, i as nat))),
    decreases n,
{
    lemma_includes_halves(
        all,
        slot_declarations(items, context, (n - 1) as nat),
        declarations(items[n - 1], slot_context(context, (n - 1) as nat)),
    );
    if i < n - 1 {
        lemma_includes_slot(all, items, context, (n - 1) as nat, i);
    }
}

/// What includes the declarations under the first `n` fields of a record
/// includes those under each of these fields.
pub proof fn lemma_includes_field(
    all: Seq<Declaration>,
    fields: Seq<(Seq<char>, Tree)>,
    context: Seq<char>,
    n: nat,
    i: int,
)
    requires
        0 <= i < n <= fields.len(),
        includes(all, field_declarations(fields, context, n)),
    ensures
        includes(all, declarations(fields[i].1, field_context(context, fields[i].0))),
    decreases n,
{
    lemma_includes_halves(
        all,
        field_declarations(fields, context, (n - 1) as nat),
        declarations(fields[n - 1].1, field_context(context, fields[n - 1].0)),
    );
    if i < n - 1 {
        lemma_includes_field(all, fields, context, (n - 1) as nat, i);
    }
}

/// The literal of a tree has the type that is inferred from any model that
/// the tree fits, at the same context, wherever the declarations that the
/// model asks for are declared.
pub proof fn lemma_literal_has_type_of_model(
    t: Tree,
    model: Tree,
    context: Seq<char>,
    declared: Seq<Declaration>,
)
    requires
        fits(t, model),
        includes(declared, declarations(model, context)),
    ensures
        has_type(literal_of(t, context), type_of(model, context), declared),
    decreases t,
{
    match t {
        Tree::Option(None) => {},
        Tree::Option(Some(inner)) => {
            match model->Option_0 {
                Some(m) => {
                    lemma_literal_has_type_of_model(*inner, *m, context, declared);
                },
                None => {
                    assert(includes(declared, declarations(Tree::Unit, context)));
                    lemma_literal_has_type_of_model(*inner, Tree::Unit, context, declared);
                },
            }
        },
        Tree::Tuple(items) => {
            let models = model->Tuple_0;
            let literals = slot_literals(items, context);
            let types = slot_types(models, context);
            assert forall|i: int| 0 <= i < literals.len() implies has_type(
                #[trigger] literals[i],
                types[i],
                declared,
            ) by {
                lemma_includes_slot(declared, models, context, models.len(), i);
                lemma_literal_has_type_of_model(
                    items[i],
                    models[i],
                    slot_context(context, i as nat),
                    declared,
                );
            }
        },
        Tree::Array(len, items) => {
            let models = model->Array_1;
            let literals = item_literals(items, context);
            assert(type_of(representative(models), context) == item_type(models, context));
            assert(includes(declared, declarations(representative(models), context)));
            assert forall|i: int| 0 <= i < literals.len() implies has_type(
                #[trigger] literals[i],
                item_type(models, context),
                declared,
            ) by {
                lemma_literal_has_type_of_model(
                    items[i],
                    representative(models),
                    context,
                    declared,
                );
            }
        },
        Tree::Vec(items) => {
            let models = model->Vec_0;
            let literals = item_literals(items, context);
            assert(type_of(representative(models), context) == item_type(models, context));
            assert(includes(declared, declarations(representative(models), context)));
            assert forall|i: int| 0 <= i < literals.len() implies has_type(
                #[trigger] literals[i],
                item_type(models, context),
                declared,
            ) by {
                lemma_literal_has_type_of_model(
                    items[i],
                    representative(models),
                    context,
                    declared,
                );
            }
        },
        Tree::Struct(fields) => {
            let models = model->Struct_0;
            let own = Declaration { name: context, fields: field_types(models, context) };
            let below = field_declarations(models, context, models.len());
            assert(declarations(model, context) == seq![own] + below);
            lemma_includes_halves(declared, seq![own], below);
            assert(declared.contains(seq![own][0]));
            let k = choose|k: int| 0 <= k < declared.len() && declared[k] == own;
            let initializers = field_literals(fields, context);
            assert forall|i: int| 0 <= i < initializers.len() implies (
            #[trigger] initializers[i]).0 == declared[k].fields[i].0 && has_type(
                initializers[i].1,
                declared[k].fields[i].1,
                declared,
            ) by {
                lemma_includes_field(declared, models, context, models.len(), i);
                lemma_literal_has_type_of_model(
                    fields[i].1,
                    models[i].1,
                    field_context(context, models[i].0),
                    declared,
                );
            }
        },
        _ => {},
    }
}

/// A list of declarations includes itself.
pub proof fn lemma_includes_itself(all: Seq<Declaration>)
    ensures
        includes(all, all),
{
}

/// Type and value correspond: the literal that is written for a uniform
/// tree has the type that is inferred for the tree, and every struct
/// literal in it finds its struct, with the same fields in the same order,
/// among the declarations that are written for the tree.
pub proof fn lemma_literal_has_inferred_type(t: Tree, context: Seq<char>)
    requires
        uniform(t),
    ensures
        has_type(literal_of(t, context), type_of(t, context), declarations(t, context)),
{
    lemma_includes_itself(declarations(t, context));
    lemma_literal_has_type_of_model(t, t, context, declarations(t, context));
}

/// No two of the declarations have one name.
pub open spec fn names_distinct(declared: Seq<Declaration>) -> bool {
    forall|i: int, j: int|
        0 <= i < j < declared.len() ==> (#[trigger] declared[i]).name != (
        #[trigger] declared[j]).name
}

/// Exactly one of the declarations has the name `name`, and it has the
/// fields that `fields` initializes: as many, with the same names, in the
/// same order.
pub open spec fn declared_once(
    declared: Seq<Declaration>,
    name: Seq<char>,
    fields: Seq<(Seq<char>, Literal)>,
) -> bool {
    exists|k: int|
        0 <= k < declared.len() && (#[trigger] declared[k]).name == name
            && declared[k].fields.len() == fields.len() && (forall|i: int|
            0 <= i < fields.len() ==> (#[trigger] fields[i]).0 == declared[k].fields[i].0)
            && (forall|j: int|
            0 <= j < declared.len() && (#[trigger] declared[j]).name == name ==> j == k)
}

/// Every struct literal in a literal, at every depth, names a struct that
/// is declared exactly once, with the fields that the literal initializes.
pub open spec fn structs_declared_once(l: Literal, declared: Seq<Declaration>) -> bool
    decreases l,
{
    match l {
        Literal::Present(inner) => structs_declared_once(*inner, declared),
        Literal::Tuple(literals) => forall|i: int|
            0 <= i < literals.len() ==> structs_declared_once(#[trigger] literals[i], declared),
        Literal::Array(literals) => forall|i: int|
            0 <= i < literals.len() ==> structs_declared_once(#[trigger] literals[i], declared),
        Literal::List(literals) => forall|i: int|
            0 <= i < literals.len() ==> structs_declared_once(#[trigger] literals[i], declared),
        Literal::Record { name, fields } => declared_once(declared, name, fields) && forall|
            i: int,
        | 0 <= i < fields.len() ==> structs_declared_once((#[trigger] fields[i]).1, declared),
        _ => true,
    }
}

/// Where no two declarations have one name, a literal that has a type
/// finds each of its structs declared exactly once.
pub proof fn lemma_typed_structs_declared_once(
    l: Literal,
    t: TypeExpr,
    declared: Seq<Declaration>,
)
    requires
        has_type(l, t, declared),
        names_distinct(declared),
    ensures
        structs_declared_once(l, declared),
    decreases l,
{
    match l {
        Literal::Present(inner) => {
            lemma_typed_structs_declared_once(*inner, *t->Optional_0, declared);
        },
        Literal::Tuple(literals) => {
            assert forall|i: int| 0 <= i < literals.len() implies structs_declared_once(
                #[trigger] literals[i],
                declared,
            ) by {
                lemma_typed_structs_declared_once(literals[i], t->Tuple_0[i], declared);
            }
        },
        Literal::Array(literals) => {
            assert forall|i: int| 0 <= i < literals.len() implies structs_declared_once(
                #[trigger] literals[i],
                declared,
            ) by {
                lemma_typed_structs_declared_once(literals[i], *t->Array_0, declared);
            }
        },
        Literal::List(literals) => {
            assert forall|i: int| 0 <= i < literals.len() implies structs_declared_once(
                #[trigger] literals[i],
                declared,
            ) by {
                lemma_typed_structs_declared_once(literals[i], *t->List_0, declared);
            }
        },
        Literal::Record { name, fields } => {
            let k = choose|k: int|
                0 <= k < declared.len() && (#[trigger] declared[k]).name == name
                    && declared[k].fields.len() == fields.len() && forall|i: int|
                    0 <= i < fields.len() ==> (#[trigger] fields[i]).0 == declared[k].fields[i].0
                        && has_type(fields[i].1, declared[k].fields[i].1, declared);
            assert forall|j: int|
                0 <= j < declared.len() && (#[trigger] declared[j]).name == name implies j
                == k by {
                if j < k {
                    assert(declared[j].name != declared[k].name);
                } else if k < j {
                    assert(declared[k].name != declared[j].name);
                }
            }
            assert(declared_once(declared, name, fields));
            assert forall|i: int| 0 <= i < fields.len() implies structs_declared_once(
                (#[trigger] fields[i]).1,
                declared,
            ) by {
                lemma_typed_structs_declared_once(
                    fields[i].1,
                    declared[k].fields[i].1,
                    declared,
                );
            }
        },
        _ => {},
    }
}

/// Each struct is declared once: where the declarations that are written
/// for a uniform tree have distinct names, every struct literal in the
/// literal of the tree names a struct that is declared exactly once among
/// them, and initializes its fields, with their names, in their order.
pub proof fn lemma_structs_declared_once(t: Tree, context: Seq<char>)
    requires
        uniform(t),
        names_distinct(declarations(t, context)),
    ensures
        structs_declared_once(literal_of(t, context), declarations(t, context)),
{
    lemma_literal_has_inferred_type(t, context);
    lemma_typed_structs_declared_once(
        literal_of(t, context),
        type_of(t, context),
        declarations(t, context),
    );
}

/// The literal of a record is a struct literal of the name that the record
/// is given, and the first declaration that is written for the record is
/// the struct of that name, with the keys of the record as its fields.
pub proof fn lemma_root_is_named(data: Seq<(Seq<char>, Tree)>, name: Seq<char>)
    ensures
        literal_of(Tree::Struct(data), name) == (Literal::Record {
            name,
            fields: field_literals(data, name),
        }),
        declarations(Tree::Struct(data), name).len() > 0,
        declarations(Tree::Struct(data), name)[0] == (Declaration {
            name,
            fields: field_types(data, name),
        }),
        field_types(data, name).len() == data.len(),
        field_literals(data, name).len() == data.len(),
        forall|i: int|
            0 <= i < data.len() ==> (#[trigger] field_types(data, name)[i]).0 == data[i].0
                && field_literals(data, name)[i].0 == data[i].0,
{
}

/// In a table of values, each value that fits the first has the type of
/// the table, under the declarations of the table.
pub proof fn lemma_table_value_has_type(values: Seq<Tree>, i: int, name: Seq<char>)
    requires
        0 <= i < values.len(),
        fits(values[i], values[0]),
    ensures
        has_type(
            literal_of(values[i], name),
            type_of(values[0], name),
            declarations(values[0], name),
        ),
{
    lemma_includes_itself(declarations(values[0], name));
    lemma_literal_has_type_of_model(values[i], values[0], name, declarations(values[0], name));
}

/// Determinism: two generations of structs from the same document, name,
/// path and options give the same text, character for character, or the
/// same fault.
pub proof fn lemma_structs_are_deterministic(
    first: Result<String, Error>,
    second: Result<String, Error>,
    path: Option<Seq<char>>,
    document: RawTree,
    struct_name: Seq<char>,
    plan: Plan,
)
    requires
        text_outcome(first) == structs_generated(path, document, struct_name, plan),
        text_outcome(second) == structs_generated(path, document, struct_name, plan),
    ensures
        text_outcome(first) == text_outcome(second),
        first is Ok ==> second is Ok && first->Ok_0@ == second->Ok_0@,
        first is Err ==> second is Err && first->Err_0@ == second->Err_0@,
{
}

/// Determinism: two generations of an enum from the same document, name,
/// path and options give the same text, character for character, or the
/// same fault.
pub proof fn lemma_enums_are_deterministic(
    first: Result<String, Error>,
    second: Result<String, Error>,
    path: Option<Seq<char>>,
    document: RawTree,
    enum_name: Seq<char>,
    plan: Plan,
)
    requires
        text_outcome(first) == enum_generated(path, document, enum_name, plan),
        text_outcome(second) == enum_generated(path, document, enum_name, plan),
    ensures
        text_outcome(first) == text_outcome(second),
        first is Ok ==> second is Ok && first->Ok_0@ == second->Ok_0@,
        first is Err ==> second is Err && first->Err_0@ == second->Err_0@,
{
}

/// Determinism: two generations of structs from the same documents of a
/// directory, name and options give the same text, character for
/// character, or the same fault.
pub proof fn lemma_structs_from_files_are_deterministic(
    first: Result<String, Error>,
    second: Result<String, Error>,
    documents: Seq<RawTree>,
    struct_name: Seq<char>,
    plan: Plan,
)
    requires
        text_outcome(first) == structs_from_files_generated(documents, struct_name, plan),
        text_outcome(second) == structs_from_files_generated(documents, struct_name, plan),
    ensures
        text_outcome(first) == text_outcome(second),
        first is Ok ==> second is Ok && first->Ok_0@ == second->Ok_0@,
        first is Err ==> second is Err && first->Err_0@ == second->Err_0@,
{
}

/// Determinism: two generations of an enum from the same files of a
/// directory, documents, name and options give the same text, character
/// for character, or the same fault.
pub proof fn lemma_enums_from_filenames_are_deterministic(
    first: Result<String, Error>,
    second: Result<String, Error>,
    dir_path: Seq<char>,
    files: Seq<FileModel>,
    documents: Seq<RawTree>,
    enum_name: Seq<char>,
    plan: Plan,
)
    requires
        text_outcome(first) == enum_from_filenames_generated(
            dir_path,
            files,
            documents,
            enum_name,
            plan,
        ),
        text_outcome(second) == enum_from_filenames_generated(
            dir_path,
            files,
            documents,
            enum_name,
            plan,
        ),
    ensures
        text_outcome(first) == text_outcome(second),
        first is Ok ==> second is Ok && first->Ok_0@ == second->Ok_0@,
        first is Err ==> second is Err && first->Err_0@ == second->Err_0@,
{
}

} // verus!
