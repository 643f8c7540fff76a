//! Which names of a generation cannot be written, and in which order they
//! are reported.

use vstd::prelude::*;

use crate::derive::{trait_path, valid_trait_path};
use crate::error::{
    Error,
    Fault,
    GenerationError,
    GenerationFault,
    OptionsError,
    OptionsFault,
};
use crate::names::{identifier, valid_identifier};
use crate::options::texts;
use crate::value::{lemma_struct_fields, lemma_trees_of, trees_of, Struct, Tree, Value};

verus! {

/// The view of an optional error.
pub open spec fn fault_of(e: Option<Error>) -> Option<Fault> {
    match e {
        None => None,
        Some(e) => Some(e@),
    }
}

/// The view of a generated text or an error.
pub open spec fn text_outcome(r: Result<String, Error>) -> Result<Seq<char>, Fault> {
    match r {
        Ok(s) => Ok(s@),
        Err(e) => Err(e@),
    }
}

/// The first of two possible faults.
pub open spec fn first_of(a: Option<Fault>, b: Option<Fault>) -> Option<Fault> {
    if a is Some {
        a
    } else {
        b
    }
}

/// The fault of a type name that is no identifier.
pub open spec fn bad_type_name(name: Seq<char>) -> Option<Fault> {
    if identifier(name) {
        None
    } else {
        Some(Fault::Generation(GenerationFault::StructOptions(OptionsFault::InvalidStructName(name))))
    }
}

/// The fault of a constant name that is set and no identifier.
pub open spec fn bad_const_name(name: Option<Seq<char>>) -> Option<Fault> {
    match name {
        Some(name) if !identifier(name) => Some(
            Fault::Generation(GenerationFault::StructOptions(OptionsFault::InvalidConstName(name))),
        ),
        _ => None,
    }
}

/// The fault of a function name that is set and no identifier.
pub open spec fn bad_function_name(name: Option<Seq<char>>) -> Option<Fault> {
    match name {
        Some(name) if !identifier(name) => Some(
            Fault::Generation(
                GenerationFault::StructOptions(OptionsFault::InvalidFunctionName(name)),
            ),
        ),
        _ => None,
    }
}

/// The fault of the first among the first `n` derive entries that is no
/// trait path.
pub open spec fn bad_traits(traits: Seq<Seq<char>>, n: nat) -> Option<Fault>
    decreases n,
{
    if n == 0 || n > traits.len() {
        None
    } else {
        first_of(
            bad_traits(traits, (n - 1) as nat),
            if trait_path(traits[n - 1]) {
                None
            } else {
                Some(
                    Fault::Generation(
                        GenerationFault::StructOptions(
                            OptionsFault::InvalidTraitName(traits[n - 1]),
                        ),
                    ),
                )
            },
        )
    }
}

/// The fault of the first among the first `n` variant names that is no
/// identifier.
pub open spec fn bad_variants(variants: Seq<Seq<char>>, n: nat) -> Option<Fault>
    decreases n,
{
    if n == 0 || n > variants.len() {
        None
    } else {
        first_of(
            bad_variants(variants, (n - 1) as nat),
            if identifier(variants[n - 1]) {
                None
            } else {
                Some(Fault::Generation(GenerationFault::InvalidVariantName(variants[n - 1])))
            },
        )
    }
}

/// The fault of the first key that is no identifier among the first `n`
/// trees, each searched as [`bad_key`] does.
pub open spec fn bad_key_in_items(items: Seq<Tree>, n: nat) -> Option<Fault>
    decreases items, n,
{
    if n == 0 || n > items.len() {
        None
    } else {
        first_of(bad_key_in_items(items, (n - 1) as nat), bad_key(items[n - 1]))
    }
}

/// The fault of the first key that is no identifier among the first `n`
/// fields: for each field its key comes before the keys in its value.
pub open spec fn bad_key_in_fields(fields: Seq<(Seq<char>, Tree)>, n: nat) -> Option<Fault>
    decreases fields, n,
{
    if n == 0 || n > fields.len() {
        None
    } else {
        first_of(
            bad_key_in_fields(fields, (n - 1) as nat),
            if identifier(fields[n - 1].0) {
                bad_key(fields[n - 1].1)
            } else {
                Some(Fault::Generation(GenerationFault::InvalidFieldName(fields[n - 1].0)))
            },
        )
    }
}

/// The fault of the first key of a record, anywhere in the tree, that is
/// no identifier.  The tree is searched in the order of the document.
pub open spec fn bad_key(t: Tree) -> Option<Fault>
    decreases t, 0nat,
{
    match t {
        Tree::Option(Some(inner)) => bad_key(*inner),
        Tree::Tuple(items) => bad_key_in_items(items, items.len()),
        Tree::Array(_, items) => bad_key_in_items(items, items.len()),
        Tree::Vec(items) => bad_key_in_items(items, items.len()),
        Tree::Struct(fields) => bad_key_in_fields(fields, fields.len()),
        _ => None,
    }
}

/// The fault of the first key that is no identifier under the first `n`
/// slots of a tuple, each searched as [`bad_declared_key`] does.
pub open spec fn bad_declared_key_in_slots(items: Seq<Tree>, n: nat) -> Option<Fault>
    decreases items, n,
{
    if n == 0 || n > items.len() {
        None
    } else {
        first_of(bad_declared_key_in_slots(items, (n - 1) as nat), bad_declared_key(items[n - 1]))
    }
}

/// The fault of the first key that is no identifier among the first `n`
/// fields of a declared struct: for each field its key comes before the
/// declared keys in its value.
pub open spec fn bad_declared_key_in_fields(fields: Seq<(Seq<char>, Tree)>, n: nat) -> Option<
    Fault,
>
    decreases fields, n,
{
    if n == 0 || n > fields.len() {
        None
    } else {
        first_of(
            bad_declared_key_in_fields(fields, (n - 1) as nat),
            if identifier(fields[n - 1].0) {
                bad_declared_key(fields[n - 1].1)
            } else {
                Some(Fault::Generation(GenerationFault::InvalidFieldName(fields[n - 1].0)))
            },
        )
    }
}

/// The fault of the first key that is no identifier among the keys that
/// the declarations for a tree hold: the keys of every record that is
/// reached through options, tuple slots, record fields and the first item
/// of each array and list.  The keys of the later items of a sequence are in
/// no declaration, and are not looked at.
pub open spec fn bad_declared_key(t: Tree) -> Option<Fault>
    decreases t, 0nat,
{
    match t {
        Tree::Option(Some(inner)) => bad_declared_key(*inner),
        Tree::Tuple(items) => bad_declared_key_in_slots(items, items.len()),
        Tree::Array(_, items) => if items.len() == 0 {
            None
        } else {
            bad_declared_key(items[0])
        },
        Tree::Vec(items) => if items.len() == 0 {
            None
        } else {
            bad_declared_key(items[0])
        },
        Tree::Struct(fields) => bad_declared_key_in_fields(fields, fields.len()),
        _ => None,
    }
}

/// The fault of the first key that is written and is no identifier.  Where
/// the literal of the tree is written, every key of the tree is written;
/// where only its declarations are, the keys that they hold.
pub open spec fn bad_written_key(t: Tree, with_literal: bool) -> Option<Fault> {
    if with_literal {
        bad_key(t)
    } else {
        bad_declared_key(t)
    }
}

/// A fault under the first `n` slots is the fault of any longer prefix.
pub proof fn lemma_bad_declared_key_in_slots_stays(items: Seq<Tree>, n: nat, m: nat)
    requires
        n <= m <= items.len(),
        bad_declared_key_in_slots(items, n) is Some,
    ensures
        bad_declared_key_in_slots(items, m) == bad_declared_key_in_slots(items, n),
    decreases m,
{
    if m > n {
        lemma_bad_declared_key_in_slots_stays(items, n, (m - 1) as nat);
    }
}

/// A fault among the first `n` declared fields is the fault of any longer
/// prefix.
pub proof fn lemma_bad_declared_key_in_fields_stays(
    fields: Seq<(Seq<char>, Tree)>,
    n: nat,
    m: nat,
)
    requires
        n <= m <= fields.len(),
        bad_declared_key_in_fields(fields, n) is Some,
    ensures
        bad_declared_key_in_fields(fields, m) == bad_declared_key_in_fields(fields, n),
    decreases m,
{
    if m > n {
        lemma_bad_declared_key_in_fields_stays(fields, n, (m - 1) as nat);
    }
}

/// A fault among the first `n` trees is the fault of any longer prefix.
pub proof fn lemma_bad_key_in_items_stays(items: Seq<Tree>, n: nat, m: nat)
    requires
        n <= m <= items.len(),
        bad_key_in_items(items, n) is Some,
    ensures
        bad_key_in_items(items, m) == bad_key_in_items(items, n),
    decreases m,
{
    if m > n {
        lemma_bad_key_in_items_stays(items, n, (m - 1) as nat);
    }
}

/// A fault among the first `n` fields is the fault of any longer prefix.
pub proof fn lemma_bad_key_in_fields_stays(fields: Seq<(Seq<char>, Tree)>, n: nat, m: nat)
    requires
        n <= m <= fields.len(),
        bad_key_in_fields(fields, n) is Some,
    ensures
        bad_key_in_fields(fields, m) == bad_key_in_fields(fields, n),
    decreases m,
{
    if m > n {
        lemma_bad_key_in_fields_stays(fields, n, (m - 1) as nat);
    }
}

/// A fault among the first `n` derive entries is the fault of any longer
/// prefix.
pub proof fn lemma_bad_traits_stays(traits: Seq<Seq<char>>, n: nat, m: nat)
    requires
        n <= m <= traits.len(),
        bad_traits(traits, n) is Some,
    ensures
        bad_traits(traits, m) == bad_traits(traits, n),
    decreases m,
{
    if m > n {
        lemma_bad_traits_stays(traits, n, (m - 1) as nat);
    }
}

/// A fault among the first `n` variant names is the fault of any longer
/// prefix.
pub proof fn lemma_bad_variants_stays(variants: Seq<Seq<char>>, n: nat, m: nat)
    requires
        n <= m <= variants.len(),
        bad_variants(variants, n) is Some,
    ensures
        bad_variants(variants, m) == bad_variants(variants, n),
    decreases m,
{
    if m > n {
        lemma_bad_variants_stays(variants, n, (m - 1) as nat);
    }
}

/// The error of a type name that is no identifier.
pub fn check_type_name(name: &str) -> (r: Option<Error>)
    ensures
        fault_of(r) == bad_type_name(name@),
{
    if valid_identifier(name) {
        None
    } else {
        Some(
            Error::Generation(
                GenerationError::StructOptions(OptionsError::InvalidStructName(name.to_owned())),
            ),
        )
    }
}

/// The error of a constant name that is set and no identifier.
pub fn check_const_name(name: &Option<String>) -> (r: Option<Error>)
    ensures
        fault_of(r) == bad_const_name(crate::options::optional_text(*name)),
{
    match name {
        Some(name) => {
            if valid_identifier(name.as_str()) {
                None
            } else {
                Some(
                    Error::Generation(
                        GenerationError::StructOptions(
                            OptionsError::InvalidConstName(name.clone()),
                        ),
                    ),
                )
            }
        },
        None => None,
    }
}

/// The error of a function name that is set and no identifier.
pub fn check_function_name(name: &Option<String>) -> (r: Option<Error>)
    ensures
        fault_of(r) == bad_function_name(crate::options::optional_text(*name)),
{
    match name {
        Some(name) => {
            if valid_identifier(name.as_str()) {
                None
            } else {
                Some(
                    Error::Generation(
                        GenerationError::StructOptions(
                            OptionsError::InvalidFunctionName(name.clone()),
                        ),
                    ),
                )
            }
        },
        None => None,
    }
}

/// The error of the first derive entry that is no trait path.
pub fn check_traits(trait_list: &Vec<String>) -> (r: Option<Error>)
    ensures
        fault_of(r) == bad_traits(texts(trait_list@), trait_list@.len()),
{
    let ghost traits = texts(trait_list@);
    let mut i: usize = 0;
    while i < trait_list.len()
        invariant
            i <= trait_list.len(),
            traits == texts(trait_list@),
            bad_traits(traits, i as nat) is None,
        decreases trait_list.len() - i,
    {
        if !valid_trait_path(trait_list[i].as_str()) {
            proof {
                lemma_bad_traits_stays(traits, (i + 1) as nat, trait_list@.len());
            }
            return Some(
                Error::Generation(
                    GenerationError::StructOptions(
                        OptionsError::InvalidTraitName(trait_list[i].clone()),
                    ),
                ),
            );
        }
        i = i + 1;
    }
    None
}

/// The error of the first variant name that is no identifier.
pub fn check_variants(variants: &Vec<String>) -> (r: Option<Error>)
    ensures
        fault_of(r) == bad_variants(texts(variants@), variants@.len()),
{
    let ghost names = texts(variants@);
    let mut i: usize = 0;
    while i < variants.len()
        invariant
            i <= variants.len(),
            names == texts(variants@),
            bad_variants(names, i as nat) is None,
        decreases variants.len() - i,
    {
        if !valid_identifier(variants[i].as_str()) {
            proof {
                lemma_bad_variants_stays(names, (i + 1) as nat, variants@.len());
            }
            return Some(
                Error::Generation(GenerationError::InvalidVariantName(variants[i].clone())),
            );
        }
        i = i + 1;
    }
    None
}

/// The error of the first key among the values that is no identifier.
pub fn check_keys_of_items(items: &Vec<Value>) -> (r: Option<Error>)
    ensures
        fault_of(r) == bad_key_in_items(trees_of(items@), items@.len()),
    decreases items,
{
    proof {
        lemma_trees_of(items@);
    }
    let mut i: usize = 0;
    while i < items.len()
        invariant
            i <= items.len(),
            trees_of(items@).len() == items@.len(),
            forall|k: int|
                0 <= k < items@.len() ==> #[trigger] trees_of(items@)[k] == items@[k]@,
            bad_key_in_items(trees_of(items@), i as nat) is None,
        decreases items.len() - i,
    {
        match check_keys(&items[i]) {
            Some(e) => {
                proof {
                    lemma_bad_key_in_items_stays(
                        trees_of(items@),
                        (i + 1) as nat,
                        items@.len(),
                    );
                }
                return Some(e);
            },
            None => {},
        }
        i = i + 1;
    }
    None
}

/// The error of the first key of the record, or of a record in it, that
/// is no identifier.
pub fn check_keys_of_struct(data: &Struct) -> (r: Option<Error>)
    ensures
        fault_of(r) == bad_key_in_fields(data@, data@.len()),
    decreases data,
{
    proof {
        lemma_struct_fields(*data);
    }
    let mut i: usize = 0;
    while i < data.0.len()
        invariant
            i <= data.0.len(),
            data@.len() == data.0@.len(),
            forall|k: int|
                0 <= k < data.0@.len() ==> #[trigger] data@[k] == (data.0@[k].0@, data.0@[k].1@),
            bad_key_in_fields(data@, i as nat) is None,
        decreases data.0.len() - i,
    {
        if !valid_identifier(data.0[i].0.as_str()) {
            proof {
                lemma_bad_key_in_fields_stays(data@, (i + 1) as nat, data@.len());
            }
            return Some(
                Error::Generation(GenerationError::InvalidFieldName(data.0[i].0.clone())),
            );
        }
        match check_keys(&data.0[i].1) {
            Some(e) => {
                proof {
                    lemma_bad_key_in_fields_stays(data@, (i + 1) as nat, data@.len());
                }
                return Some(e);
            },
            None => {},
        }
        i = i + 1;
    }
    None
}

/// The error of the first key of a record, anywhere in the value, that is
/// no identifier.
pub fn check_keys(value: &Value) -> (r: Option<Error>)
    ensures
        fault_of(r) == bad_key(value@),
    decreases value,
{
    match value {
        Value::Option(Some(inner)) => check_keys(inner),
        Value::Tuple(items) => {
            proof {
                lemma_trees_of(items@);
            }
            check_keys_of_items(items)
        },
        Value::Array(_, items) => {
            proof {
                lemma_trees_of(items@);
            }
            check_keys_of_items(items)
        },
        Value::Vec(items) => {
            proof {
                lemma_trees_of(items@);
            }
            check_keys_of_items(items)
        },
        Value::Struct(fields) => {
            proof {
                lemma_struct_fields(*fields);
            }
            check_keys_of_struct(fields)
        },
        _ => None,
    }
}

/// The error of the first key that is no identifier under the slots of a
/// tuple, among the keys that the declarations hold.
pub fn check_declared_keys_of_slots(items: &Vec<Value>) -> (r: Option<Error>)
    ensures
        fault_of(r) == bad_declared_key_in_slots(trees_of(items@), items@.len()),
    decreases items,
{
    proof {
        lemma_trees_of(items@);
    }
    let mut i: usize = 0;
    while i < items.len()
        invariant
            i <= items.len(),
            trees_of(items@).len() == items@.len(),
            forall|k: int|
                0 <= k < items@.len() ==> #[trigger] trees_of(items@)[k] == items@[k]@,
            bad_declared_key_in_slots(trees_of(items@), i as nat) is None,
        decreases items.len() - i,
    {
        match check_declared_keys(&items[i]) {
            Some(e) => {
                proof {
                    lemma_bad_declared_key_in_slots_stays(
                        trees_of(items@),
                        (i + 1) as nat,
                        items@.len(),
                    );
                }
                return Some(e);
            },
            None => {},
        }
        i = i + 1;
    }
    None
}

/// The error of the first key that is no identifier among the keys that
/// the declarations for the record hold.
pub fn check_declared_keys_of_struct(data: &Struct) -> (r: Option<Error>)
    ensures
        fault_of(r) == bad_declared_key_in_fields(data@, data@.len()),
    decreases data,
{
    proof {
        lemma_struct_fields(*data);
    }
    let mut i: usize = 0;
    while i < data.0.len()
        invariant
            i <= data.0.len(),
            data@.len() == data.0@.len(),
            forall|k: int|
                0 <= k < data.0@.len() ==> #[trigger] data@[k] == (data.0@[k].0@, data.0@[k].1@),
            bad_declared_key_in_fields(data@, i as nat) is None,
        decreases data.0.len() - i,
    {
        if !valid_identifier(data.0[i].0.as_str()) {
            proof {
                lemma_bad_declared_key_in_fields_stays(data@, (i + 1) as nat, data@.len());
            }
            return Some(
                Error::Generation(GenerationError::InvalidFieldName(data.0[i].0.clone())),
            );
        }
        match check_declared_keys(&data.0[i].1) {
            Some(e) => {
                proof {
                    lemma_bad_declared_key_in_fields_stays(data@, (i + 1) as nat, data@.len());
                }
                return Some(e);
            },
            None => {},
        }
        i = i + 1;
    }
    None
}

/// The error of the first key that is no identifier among the keys that
/// the declarations for the value hold.
pub fn check_declared_keys(value: &Value) -> (r: Option<Error>)
    ensures
        fault_of(r) == bad_declared_key(value@),
    decreases value,
{
    match value {
        Value::Option(Some(inner)) => check_declared_keys(inner),
        Value::Tuple(items) => {
            proof {
                lemma_trees_of(items@);
            }
            check_declared_keys_of_slots(items)
        },
        Value::Array(_, items) => {
            proof {
                lemma_trees_of(items@);
            }
            if items.len() == 0 {
                None
            } else {
                check_declared_keys(&items[0])
            }
        },
        Value::Vec(items) => {
            proof {
                lemma_trees_of(items@);
            }
            if items.len() == 0 {
                None
            } else {
                check_declared_keys(&items[0])
            }
        },
        Value::Struct(fields) => {
            proof {
                lemma_struct_fields(*fields);
            }
            check_declared_keys_of_struct(fields)
        },
        _ => None,
    }
}

} // verus!
