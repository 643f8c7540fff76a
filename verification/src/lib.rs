//! Turns markup documents into Rust type declarations and constant data.
//!
//! A decoded document is typed into a [`value::Value`] tree.  From such a
//! tree the library infers a type for every node, names the struct of each
//! record after the path that leads to it, and writes the declarations and
//! the literals that reproduce the data.  A map can also become an enum of
//! its keys, and a directory an enum of its files.
//!
//! Every function here is verified: its contract states the text that it
//! writes, or the fault that it reports, as a function of its arguments.

use vstd::prelude::*;

pub mod codegen;
pub mod derive;
pub mod emit;
pub mod enums;
pub mod error;
pub mod files;
pub mod format;
pub mod laws;
pub mod names;
pub mod options;
pub mod parsing;
pub mod shape;
pub mod text;
pub mod unique;
pub mod validate;
pub mod value;

use crate::codegen::{structs_defined, table_defined};
use crate::enums::{enum_defined, file_enum_defined, files_of, SourceFile};
use crate::error::{Error, Fault};
use crate::options::{Options, ParseOptions, Plan};
use crate::parsing::{
    lemma_raw_trees_of,
    parse_value,
    parsed,
    raw_trees_of,
    RawTree,
    RawValue,
};
use crate::validate::text_outcome;
use crate::value::{kind_name, lemma_trees_of, trees_of, Tree, Value};

verus! {

/// The fields of a tree that is a record; the fault that names its kind
/// for any other tree.
pub open spec fn record_of(t: Tree) -> Result<Seq<(Seq<char>, Tree)>, Fault> {
    match t {
        Tree::Struct(fields) => Ok(fields),
        _ => Err(Fault::ExpectedStruct(kind_name(t))),
    }
}

/// What [`generate_structs`] and [`generate_structs_from_source`] give: the
/// fault of typing the document, else the fault of a document that is no
/// record, else what defining its structs gives.
pub open spec fn structs_generated(
    path: Option<Seq<char>>,
    document: RawTree,
    struct_name: Seq<char>,
    plan: Plan,
) -> Result<Seq<char>, Fault> {
    match parsed(document, plan.parse) {
        Err(fault) => Err(fault),
        Ok(tree) => match record_of(tree) {
            Err(fault) => Err(fault),
            Ok(fields) => structs_defined(fields, struct_name, path, plan),
        },
    }
}

/// What [`generate_enum`] and [`generate_enum_from_source`] give: the fault
/// of typing the document, else the fault of a document that is no record,
/// else what defining the enum of its keys gives.
pub open spec fn enum_generated(
    path: Option<Seq<char>>,
    document: RawTree,
    enum_name: Seq<char>,
    plan: Plan,
) -> Result<Seq<char>, Fault> {
    match parsed(document, plan.parse) {
        Err(fault) => Err(fault),
        Ok(tree) => match record_of(tree) {
            Err(fault) => Err(fault),
            Ok(fields) => enum_defined(
                crate::codegen::keys_of(fields),
                crate::codegen::values_of(fields),
                true,
                enum_name,
                path,
                plan,
                Seq::empty(),
            ),
        },
    }
}

/// The first `n` documents typed and unified, or the first fault among
/// them.
pub open spec fn parsed_all(documents: Seq<RawTree>, options: ParseOptions, n: nat) -> Result<
    Seq<Tree>,
    Fault,
>
    decreases n,
{
    if n == 0 || n > documents.len() {
        Ok(Seq::empty())
    } else {
        match parsed_all(documents, options, (n - 1) as nat) {
            Err(fault) => Err(fault),
            Ok(before) => match parsed(documents[n - 1], options) {
                Err(fault) => Err(fault),
                Ok(tree) => Ok(before.push(tree)),
            },
        }
    }
}

/// A fault among the first `n` documents is the fault of any longer
/// prefix.
pub proof fn lemma_parsed_all_fault(documents: Seq<RawTree>, options: ParseOptions, n: nat, m: nat)
    requires
        n <= m <= documents.len(),
        parsed_all(documents, options, n) is Err,
    ensures
        parsed_all(documents, options, m) == parsed_all(documents, options, n),
    decreases m,
{
    if m > n {
        lemma_parsed_all_fault(documents, options, n, (m - 1) as nat);
    }
}

/// What [`generate_structs_from_files`] gives: the first fault of typing a
/// document, else what the table of the typed documents gives.
pub open spec fn structs_from_files_generated(
    documents: Seq<RawTree>,
    struct_name: Seq<char>,
    plan: Plan,
) -> Result<Seq<char>, Fault> {
    match parsed_all(documents, plan.parse, documents.len()) {
        Err(fault) => Err(fault),
        Ok(values) => table_defined(values, struct_name, plan),
    }
}

/// What [`generate_enum_from_filenames`] gives.  The documents are typed
/// only where the options name a constant for the values of an enum; their
/// first fault comes before any other.
pub open spec fn enum_from_filenames_generated(
    dir_path: Seq<char>,
    files: Seq<crate::enums::FileModel>,
    documents: Seq<RawTree>,
    enum_name: Seq<char>,
    plan: Plan,
) -> Result<Seq<char>, Fault> {
    if plan.enums.all_values_const_name is Some {
        match parsed_all(documents, plan.parse, documents.len()) {
            Err(fault) => Err(fault),
            Ok(values) => file_enum_defined(dir_path, files, values, enum_name, plan),
        }
    } else {
        file_enum_defined(dir_path, files, Seq::empty(), enum_name, plan)
    }
}

/// Types and unifies each document, in order.
fn parse_all(documents: &Vec<RawValue>, options: &ParseOptions) -> (r: Result<Vec<Value>, Error>)
    ensures
        match parsed_all(raw_trees_of(documents@), *options, documents@.len()) {
            Ok(trees) => r matches Ok(values) && trees_of(values@) == trees,
            Err(fault) => r matches Err(e) && e@ == fault,
        },
{
    let mut out: Vec<Value> = Vec::new();
    proof {
        lemma_raw_trees_of(documents@);
        assert(trees_of(out@) =~= Seq::<Tree>::empty());
    }
    let mut i: usize = 0;
    while i < documents.len()
        invariant
            i <= documents.len(),
            raw_trees_of(documents@).len() == documents@.len(),
            forall|k: int|
                0 <= k < documents@.len() ==> #[trigger] raw_trees_of(documents@)[k]
                    == documents@[k]@,
            parsed_all(raw_trees_of(documents@), *options, i as nat) == Ok::<Seq<Tree>, Fault>(
                trees_of(out@),
            ),
        decreases documents.len() - i,
    {
        match parse_value(&documents[i], options) {
            Err(e) => {
                proof {
                    lemma_parsed_all_fault(
                        raw_trees_of(documents@),
                        *options,
                        (i + 1) as nat,
                        documents@.len(),
                    );
                }
                return Err(e);
            },
            Ok(value) => {
                let ghost before = out@;
                out.push(value);
                proof {
                    lemma_trees_of(before);
                    lemma_trees_of(out@);
                    assert(trees_of(out@) =~= trees_of(before).push(value@));
                }
            },
        }
        i = i + 1;
    }
    Ok(out)
}

/// Generates the code that defines the structs of a markup file.
///
/// `document` is what the file at `src_path` holds.  It is typed and
/// unified under the options for parsing, and must then be a record; its
/// structs are defined as [`codegen::define_structs`] does, with `src_path`
/// as the path of the source.
pub fn generate_structs(
    src_path: &str,
    document: &RawValue,
    struct_name: &str,
    options: &Options,
) -> (r: Result<String, Error>)
    ensures
        text_outcome(r) == structs_generated(
            Some(src_path@),
            document@,
            struct_name@,
            options@,
        ),
{
    let value = match parse_value(document, &options.parse) {
        Ok(value) => value,
        Err(e) => {
            return Err(e);
        },
    };
    let data = match value.assume_struct() {
        Ok(data) => data,
        Err(e) => {
            return Err(e);
        },
    };
    codegen::define_structs(&data, struct_name, Some(src_path), options)
}

/// Generates the code that defines the structs of a markup document that
/// comes from no file: as [`generate_structs`], without a path of the
/// source.
pub fn generate_structs_from_source(document: &RawValue, struct_name: &str, options: &Options)
    -> (r: Result<String, Error>)
    ensures
        text_outcome(r) == structs_generated(None, document@, struct_name@, options@),
{
    let value = match parse_value(document, &options.parse) {
        Ok(value) => value,
        Err(e) => {
            return Err(e);
        },
    };
    let data = match value.assume_struct() {
        Ok(data) => data,
        Err(e) => {
            return Err(e);
        },
    };
    codegen::define_structs(&data, struct_name, None, options)
}

/// Generates the code that defines one struct for the contents of the
/// files of a directory.  `documents` holds what each file contains, in
/// the order of the files; each is typed and unified, and the table of
/// them is defined as [`codegen::define_structs_from_file_contents`] does.
pub fn generate_structs_from_files(
    documents: &Vec<RawValue>,
    struct_name: &str,
    options: &Options,
) -> (r: Result<String, Error>)
    ensures
        text_outcome(r) == structs_from_files_generated(
            raw_trees_of(documents@),
            struct_name@,
            options@,
        ),
{
    proof {
        lemma_raw_trees_of(documents@);
    }
    let values = match parse_all(documents, &options.parse) {
        Ok(values) => values,
        Err(e) => {
            return Err(e);
        },
    };
    codegen::define_structs_from_file_contents(&values, struct_name, options)
}

/// Generates the code that defines an enum of the keys of a markup file.
///
/// `document` is what the file at `src_path` holds.  It is typed and
/// unified under the options for parsing, and must then be a record; the
/// enum of its keys is defined as [`enums::define_enum_from_keys`] does,
/// with `src_path` as the path of the source.
pub fn generate_enum(src_path: &str, document: &RawValue, enum_name: &str, options: &Options) -> (r:
    Result<String, Error>)
    ensures
        text_outcome(r) == enum_generated(Some(src_path@), document@, enum_name@, options@),
{
    let value = match parse_value(document, &options.parse) {
        Ok(value) => value,
        Err(e) => {
            return Err(e);
        },
    };
    let data = match value.assume_struct() {
        Ok(data) => data,
        Err(e) => {
            return Err(e);
        },
    };
    enums::define_enum_from_keys(&data, enum_name, Some(src_path), options)
}

/// Generates the code that defines an enum of the keys of a markup
/// document that comes from no file: as [`generate_enum`], without a path
/// of the source.
pub fn generate_enum_from_source(document: &RawValue, enum_name: &str, options: &Options) -> (r:
    Result<String, Error>)
    ensures
        text_outcome(r) == enum_generated(None, document@, enum_name@, options@),
{
    let value = match parse_value(document, &options.parse) {
        Ok(value) => value,
        Err(e) => {
            return Err(e);
        },
    };
    let data = match value.assume_struct() {
        Ok(data) => data,
        Err(e) => {
            return Err(e);
        },
    };
    enums::define_enum_from_keys(&data, enum_name, None, options)
}

/// Generates the code that defines an enum of the files of a directory.
///
/// `dir_path` is the path of the directory and `files` its files in the
/// order in which the variants are to come.  `documents` holds what each
/// file contains; they are read only where the options name a constant for
/// the values of an enum, and are then typed and unified.  The enum is
/// defined as [`enums::define_enum_from_filenames`] does.
pub fn generate_enum_from_filenames(
    dir_path: &str,
    files: &Vec<SourceFile>,
    documents: &Vec<RawValue>,
    enum_name: &str,
    options: &Options,
) -> (r: Result<String, Error>)
    ensures
        text_outcome(r) == enum_from_filenames_generated(
            dir_path@,
            files_of(files@),
            raw_trees_of(documents@),
            enum_name@,
            options@,
        ),
{
    proof {
        lemma_raw_trees_of(documents@);
    }
    let values = if options.enums.all_values_const_name.is_some() {
        match parse_all(documents, &options.parse) {
            Ok(values) => values,
            Err(e) => {
                return Err(e);
            },
        }
    } else {
        Vec::new()
    };
    proof {
        lemma_trees_of(values@);
        if options.enums.all_values_const_name is None {
            assert(trees_of(values@) =~= Seq::<Tree>::empty());
        }
    }
    enums::define_enum_from_filenames(dir_path, files, &values, enum_name, options)
}

} // verus!
