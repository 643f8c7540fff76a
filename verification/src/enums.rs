//! Writes an enum for the keys of a map or for the files of a directory,
//! with what the options attach to it.

use vstd::prelude::*;

use crate::codegen::{
    concat5,
    concat7,
    define_impl,
    define_source_item,
    establish_types_for_values,
    keys_of,
    path_text,
    quoted,
    render_impl,
    source_item,
    struct_keys,
    struct_values,
    values_list,
    values_of,
    values_structs,
    values_type,
};
use crate::derive::{derive_attribute, derive_text};
use crate::emit::{concat3, define_items};
use crate::error::{Error, Fault};
use crate::names::{camel_case, identifier, to_camel, valid_identifier};
use crate::options::{optional_text, texts, FilesPlan, Options, Plan};
use crate::parsing::unify_group;
use crate::text::{append_spaced, spaced, string_literal};
use crate::validate::{
    bad_const_name,
    bad_function_name,
    bad_key_in_items,
    bad_traits,
    bad_type_name,
    bad_variants,
    check_const_name,
    check_function_name,
    check_keys_of_items,
    check_traits,
    check_type_name,
    check_variants,
    first_of,
    text_outcome,
};
use crate::value::{lemma_trees_of, trees_of, Struct, Tree, Value};

verus! {

/// The first `n` variants, each followed by ` ,`.
pub open spec fn render_variants(variants: Seq<Seq<char>>, n: nat) -> Seq<char>
    decreases n,
{
    if n == 0 || n > variants.len() {
        Seq::empty()
    } else {
        spaced(render_variants(variants, (n - 1) as nat), variants[n - 1] + " ,"@)
    }
}

/// The declaration of an enum with its variants in their order, under the
/// attribute `derives` (which may be empty).
pub open spec fn render_enum(variants: Seq<Seq<char>>, enum_name: Seq<char>, derives: Seq<char>)
    -> Seq<char> {
    spaced(
        spaced(
            spaced(derives, "pub enum "@ + enum_name + " {"@),
            render_variants(variants, variants.len()),
        ),
        "}"@,
    )
}

/// The first `n` variants, each written `Self :: Variant ,`.
pub open spec fn render_self_variants(variants: Seq<Seq<char>>, n: nat) -> Seq<char>
    decreases n,
{
    if n == 0 || n > variants.len() {
        Seq::empty()
    } else {
        spaced(
            render_self_variants(variants, (n - 1) as nat),
            "Self :: "@ + variants[n - 1] + " ,"@,
        )
    }
}

/// The constant that lists all variants in their order.
pub open spec fn render_variants_const(const_name: Seq<char>, variants: Seq<Seq<char>>) -> Seq<
    char,
> {
    "pub const "@ + const_name + " : & 'static [Self] = & ["@ + render_self_variants(
        variants,
        variants.len(),
    ) + "] ;"@
}

/// The constant that lists the value of each variant.
pub open spec fn render_values_const(
    const_name: Seq<char>,
    value_type: Seq<char>,
    list: Seq<char>,
) -> Seq<char> {
    "pub const "@ + const_name + " : & 'static ["@ + value_type + "] = & ["@ + list + "] ;"@
}

/// The function that gives the value of a variant.
pub open spec fn render_getter(fn_name: Seq<char>, const_name: Seq<char>, value_type: Seq<char>)
    -> Seq<char> {
    "pub const fn "@ + fn_name + " (self) -> & 'static "@ + value_type + " { & Self :: "@
        + const_name + " [self as usize] }"@
}

/// The implementation of `Default`, which gives the variant `first`.
pub open spec fn render_default(enum_name: Seq<char>, first: Seq<char>) -> Seq<char> {
    "impl Default for "@ + enum_name + " { fn default () -> Self { Self :: "@ + first + " } }"@
}

/// The implementation of `Display`, which writes what `Debug` writes: the
/// name of the variant.
pub open spec fn render_display(enum_name: Seq<char>) -> Seq<char> {
    "impl std :: fmt :: Display for "@ + enum_name
        + " { fn fmt (& self , f : & mut std :: fmt :: Formatter) -> std :: fmt :: Result { < Self as std :: fmt :: Debug > :: fmt (self , f) } }"@
}

/// The first `n` arms that read a variant from its exact name.
pub open spec fn render_arms(variants: Seq<Seq<char>>, n: nat) -> Seq<char>
    decreases n,
{
    if n == 0 || n > variants.len() {
        Seq::empty()
    } else {
        spaced(
            render_arms(variants, (n - 1) as nat),
            string_literal(variants[n - 1]) + " => Self :: "@ + variants[n - 1] + " ,"@,
        )
    }
}

/// The implementation of `FromStr`, which reads a variant from its exact
/// name and fails on every other text.
pub open spec fn render_from_str(enum_name: Seq<char>, variants: Seq<Seq<char>>) -> Seq<char> {
    "impl std :: str :: FromStr for "@ + enum_name
        + " { type Err = () ; fn from_str (s : & str) -> std :: result :: Result < Self , Self :: Err > { Ok (match s { "@
        + spaced(render_arms(variants, variants.len()), "_ => return Err (())"@) + " }) } }"@
}

/// The name of the type of the values: the one that the options set, or
/// the name of the enum followed by `__Value`.
pub open spec fn table_name(plan: Plan, enum_name: Seq<char>) -> Seq<char> {
    match plan.enums.values_struct_name {
        Some(name) => name,
        None => enum_name + "__Value"@,
    }
}

/// Whether the values are written: they are to be used, and the options
/// name a constant for them.
pub open spec fn with_table(use_values: bool, plan: Plan) -> bool {
    use_values && plan.enums.all_values_const_name is Some
}

/// The items of the implementation of an enum: `inherents` first, then the
/// constant for the path of the source, the constant that lists the
/// variants, the constant that lists the values and the function that gives
/// one, each as far as the options ask for it.
pub open spec fn enum_items(
    variants: Seq<Seq<char>>,
    values: Seq<Tree>,
    use_values: bool,
    enum_name: Seq<char>,
    path: Option<Seq<char>>,
    plan: Plan,
    inherents: Seq<char>,
) -> Seq<char> {
    let unified = unify_group(values);
    let name = table_name(plan, enum_name);
    let source = source_item(path, plan.source_path_const_name);
    let all = match plan.enums.all_variants_const_name {
        Some(const_name) => render_variants_const(const_name, variants),
        None => Seq::empty(),
    };
    let table = if with_table(use_values, plan) {
        render_values_const(
            plan.enums.all_values_const_name->Some_0,
            values_type(unified, name),
            values_list(unified, name),
        )
    } else {
        Seq::empty()
    };
    let getter = if with_table(use_values, plan) && plan.enums.get_value_fn_name is Some {
        render_getter(
            plan.enums.get_value_fn_name->Some_0,
            plan.enums.all_values_const_name->Some_0,
            values_type(unified, name),
        )
    } else {
        Seq::empty()
    };
    spaced(spaced(spaced(spaced(inherents, source), all), table), getter)
}

/// The text of an enum: its declaration with the variants in the order
/// given; the implementation with its items; the implementations of
/// `Default` (the first variant), `Display` and `FromStr` as far as the
/// options ask for them; and the declarations for the type of the values
/// where the values are written.
pub open spec fn enum_text(
    variants: Seq<Seq<char>>,
    values: Seq<Tree>,
    use_values: bool,
    enum_name: Seq<char>,
    path: Option<Seq<char>>,
    plan: Plan,
    inherents: Seq<char>,
) -> Seq<char> {
    let derives = derive_text(
        plan.enums.derived_traits,
        plan.serde_support,
        plan.enums.impl_display,
    );
    let value_derives = derive_text(
        plan.enums.values_struct_options.derived_traits,
        plan.serde_support,
        false,
    );
    let structs = if with_table(use_values, plan) {
        values_structs(unify_group(values), table_name(plan, enum_name), value_derives)
    } else {
        Seq::empty()
    };
    spaced(
        spaced(
            spaced(
                spaced(
                    spaced(
                        render_enum(variants, enum_name, derives),
                        render_impl(
                            enum_name,
                            enum_items(
                                variants,
                                values,
                                use_values,
                                enum_name,
                                path,
                                plan,
                                inherents,
                            ),
                        ),
                    ),
                    if plan.enums.impl_default {
                        render_default(enum_name, variants[0])
                    } else {
                        Seq::empty()
                    },
                ),
                if plan.enums.impl_display {
                    render_display(enum_name)
                } else {
                    Seq::empty()
                },
            ),
            if plan.enums.impl_from_str {
                render_from_str(enum_name, variants)
            } else {
                Seq::empty()
            },
        ),
        structs,
    )
}

/// The fault of the values of an enum: the first of the lack of values, the
/// name of their constant, the name of their type, a derive entry of their
/// structs, a key of a value and the name of the function that gives one.
pub open spec fn enum_table_fault(values: Seq<Tree>, enum_name: Seq<char>, plan: Plan) -> Option<
    Fault,
> {
    let unified = unify_group(values);
    first_of(
        if values.len() == 0 {
            Some(Fault::ExpectedValuesInMap)
        } else {
            None
        },
        first_of(
            bad_const_name(plan.enums.all_values_const_name),
            first_of(
                bad_type_name(table_name(plan, enum_name)),
                first_of(
                    bad_traits(
                        plan.enums.values_struct_options.derived_traits,
                        plan.enums.values_struct_options.derived_traits.len(),
                    ),
                    first_of(
                        bad_key_in_items(unified, unified.len()),
                        bad_function_name(plan.enums.get_value_fn_name),
                    ),
                ),
            ),
        ),
    )
}

/// The fault of an enum: the first of the lack of variants, the name of the
/// enum, a variant name, a derive entry, the name of the constant for the
/// path (where a path is given), the name of the constant that lists the
/// variants, and, where the values are written, their fault.
pub open spec fn enum_fault(
    variants: Seq<Seq<char>>,
    values: Seq<Tree>,
    use_values: bool,
    enum_name: Seq<char>,
    path: Option<Seq<char>>,
    plan: Plan,
) -> Option<Fault> {
    first_of(
        if variants.len() == 0 {
            Some(Fault::ExpectedValuesInMap)
        } else {
            None
        },
        first_of(
            bad_type_name(enum_name),
            first_of(
                bad_variants(variants, variants.len()),
                first_of(
                    bad_traits(plan.enums.derived_traits, plan.enums.derived_traits.len()),
                    first_of(
                        if path is Some {
                            bad_const_name(plan.source_path_const_name)
                        } else {
                            None
                        },
                        first_of(
                            bad_const_name(plan.enums.all_variants_const_name),
                            if with_table(use_values, plan) {
                                enum_table_fault(values, enum_name, plan)
                            } else {
                                None
                            },
                        ),
                    ),
                ),
            ),
        ),
    )
}

/// What the definition of an enum gives.
pub open spec fn enum_defined(
    variants: Seq<Seq<char>>,
    values: Seq<Tree>,
    use_values: bool,
    enum_name: Seq<char>,
    path: Option<Seq<char>>,
    plan: Plan,
    inherents: Seq<char>,
) -> Result<Seq<char>, Fault> {
    match enum_fault(variants, values, use_values, enum_name, path, plan) {
        Some(fault) => Err(fault),
        None => Ok(enum_text(variants, values, use_values, enum_name, path, plan, inherents)),
    }
}

/// The declaration of an enum.
fn define_enum(variants: &Vec<String>, enum_name: &str, derives: &str) -> (r: String)
    ensures
        r@ == render_enum(texts(variants@), enum_name@, derives@),
{
    let ghost names = texts(variants@);
    let mut list = String::new();
    let mut i: usize = 0;
    while i < variants.len()
        invariant
            i <= variants.len(),
            names == texts(variants@),
            list@ == render_variants(names, i as nat),
        decreases variants.len() - i,
    {
        let mut variant = String::from_str(variants[i].as_str());
        variant.append(" ,");
        append_spaced(&mut list, variant.as_str());
        i = i + 1;
    }
    let head = concat3("pub enum ", enum_name, " {");
    let mut out = String::from_str(derives);
    append_spaced(&mut out, head.as_str());
    append_spaced(&mut out, list.as_str());
    append_spaced(&mut out, "}");
    out
}

/// The constant that lists all variants in their order.
fn define_variants_const(const_name: &str, variants: &Vec<String>) -> (r: String)
    ensures
        r@ == render_variants_const(const_name@, texts(variants@)),
{
    let ghost names = texts(variants@);
    let mut list = String::new();
    let mut i: usize = 0;
    while i < variants.len()
        invariant
            i <= variants.len(),
            names == texts(variants@),
            list@ == render_self_variants(names, i as nat),
        decreases variants.len() - i,
    {
        let variant = concat3("Self :: ", variants[i].as_str(), " ,");
        append_spaced(&mut list, variant.as_str());
        i = i + 1;
    }
    concat5("pub const ", const_name, " : & 'static [Self] = & [", list.as_str(), "] ;")
}

/// The implementation of `FromStr`.
fn define_from_str(enum_name: &str, variants: &Vec<String>) -> (r: String)
    ensures
        r@ == render_from_str(enum_name@, texts(variants@)),
{
    let ghost names = texts(variants@);
    let mut arms = String::new();
    let mut i: usize = 0;
    while i < variants.len()
        invariant
            i <= variants.len(),
            names == texts(variants@),
            arms@ == render_arms(names, i as nat),
        decreases variants.len() - i,
    {
        let mut arm = quoted(variants[i].as_str());
        arm.append(" => Self :: ");
        arm.append(variants[i].as_str());
        arm.append(" ,");
        append_spaced(&mut arms, arm.as_str());
        i = i + 1;
    }
    append_spaced(&mut arms, "_ => return Err (())");
    concat5(
        "impl std :: str :: FromStr for ",
        enum_name,
        " { type Err = () ; fn from_str (s : & str) -> std :: result :: Result < Self , Self :: Err > { Ok (match s { ",
        arms.as_str(),
        " }) } }",
    )
}

/// Defines an enum with the given variants, and what the options attach
/// to it.
///
/// The variants are declared in the order given, and the enum derives what
/// the options ask enums to derive, and `Debug` where `Display` is
/// implemented.  Its implementation holds `inherents`, then the constant
/// for the path of the source, the constant that lists the variants, and,
/// where `use_values` is set and the options name a constant for the
/// values, that constant and the function that gives a value.  `values`
/// holds the value of each variant; they are unified as siblings, the first
/// decides their type, and the declarations for that type come last.
///
/// Fails where there is no variant (`ExpectedValuesInMap`, whatever the
/// names are), where the values are written and there is none (the same
/// error), and where a name that is written is no identifier.
pub fn define_enum_from_variants_and_values(
    variants: &Vec<String>,
    values: &Vec<Value>,
    use_values: bool,
    enum_name: &str,
    source_file_path: Option<&str>,
    options: &Options,
    inherents: &str,
) -> (r: Result<String, Error>)
    ensures
        text_outcome(r) == enum_defined(
            texts(variants@),
            trees_of(values@),
            use_values,
            enum_name@,
            path_text(source_file_path),
            options@,
            inherents@,
        ),
{
    proof {
        lemma_trees_of(values@);
    }
    if variants.len() == 0 {
        return Err(Error::ExpectedValuesInMap);
    }
    match check_type_name(enum_name) {
        Some(e) => {
            return Err(e);
        },
        None => {},
    }
    match check_variants(variants) {
        Some(e) => {
            return Err(e);
        },
        None => {},
    }
    match check_traits(&options.enums.derived_traits) {
        Some(e) => {
            return Err(e);
        },
        None => {},
    }
    if source_file_path.is_some() {
        match check_const_name(&options.source_path_const_name) {
            Some(e) => {
                return Err(e);
            },
            None => {},
        }
    }
    match check_const_name(&options.enums.all_variants_const_name) {
        Some(e) => {
            return Err(e);
        },
        None => {},
    }
    let mut items = String::from_str(inherents);
    let source = define_source_item(source_file_path, &options.source_path_const_name);
    append_spaced(&mut items, source.as_str());
    match &options.enums.all_variants_const_name {
        Some(const_name) => {
            let all = define_variants_const(const_name.as_str(), variants);
            append_spaced(&mut items, all.as_str());
        },
        None => {
            assert(spaced(items@, Seq::<char>::empty()) =~= items@);
        },
    }
    let mut new_structs = String::new();
    let written = use_values && options.enums.all_values_const_name.is_some();
    if written {
        if values.len() == 0 {
            return Err(Error::ExpectedValuesInMap);
        }
        match check_const_name(&options.enums.all_values_const_name) {
            Some(e) => {
                return Err(e);
            },
            None => {},
        }
        let struct_name = match &options.enums.values_struct_name {
            Some(name) => name.clone(),
            None => {
                let mut name = String::from_str(enum_name);
                name.append("__Value");
                name
            },
        };
        match check_type_name(struct_name.as_str()) {
            Some(e) => {
                return Err(e);
            },
            None => {},
        }
        match check_traits(&options.enums.values_struct_options.derived_traits) {
            Some(e) => {
                return Err(e);
            },
            None => {},
        }
        let value_derives = derive_attribute(
            &options.enums.values_struct_options.derived_traits,
            options.serde_support,
            false,
        );
        let types = match establish_types_for_values(
            values,
            struct_name.as_str(),
            value_derives.as_str(),
        ) {
            Ok(types) => types,
            Err(e) => {
                return Err(e);
            },
        };
        proof {
            lemma_trees_of(types.values@);
        }
        match check_keys_of_items(&types.values) {
            Some(e) => {
                return Err(e);
            },
            None => {},
        }
        match check_function_name(&options.enums.get_value_fn_name) {
            Some(e) => {
                return Err(e);
            },
            None => {},
        }
        let const_name: &str = match &options.enums.all_values_const_name {
            Some(name) => name.as_str(),
            None => "",
        };
        let list = define_items(&types.values, struct_name.as_str());
        let table = concat7(
            "pub const ",
            const_name,
            " : & 'static [",
            types.value_type.as_str(),
            "] = & [",
            list.as_str(),
            "] ;",
        );
        append_spaced(&mut items, table.as_str());
        match &options.enums.get_value_fn_name {
            Some(fn_name) => {
                let getter = concat7(
                    "pub const fn ",
                    fn_name.as_str(),
                    " (self) -> & 'static ",
                    types.value_type.as_str(),
                    " { & Self :: ",
                    const_name,
                    " [self as usize] }",
                );
                append_spaced(&mut items, getter.as_str());
            },
            None => {
                assert(spaced(items@, Seq::<char>::empty()) =~= items@);
            },
        }
        new_structs = types.new_structs;
    } else {
        assert(spaced(items@, Seq::<char>::empty()) =~= items@);
    }
    let derives = derive_attribute(
        &options.enums.derived_traits,
        options.serde_support,
        options.enums.impl_display,
    );
    let mut out = define_enum(variants, enum_name, derives.as_str());
    let block = define_impl(enum_name, items.as_str());
    append_spaced(&mut out, block.as_str());
    if options.enums.impl_default {
        let default = concat5(
            "impl Default for ",
            enum_name,
            " { fn default () -> Self { Self :: ",
            variants[0].as_str(),
            " } }",
        );
        append_spaced(&mut out, default.as_str());
    } else {
        assert(spaced(out@, Seq::<char>::empty()) =~= out@);
    }
    if options.enums.impl_display {
        let display = concat3(
            "impl std :: fmt :: Display for ",
            enum_name,
            " { fn fmt (& self , f : & mut std :: fmt :: Formatter) -> std :: fmt :: Result { < Self as std :: fmt :: Debug > :: fmt (self , f) } }",
        );
        append_spaced(&mut out, display.as_str());
    } else {
        assert(spaced(out@, Seq::<char>::empty()) =~= out@);
    }
    if options.enums.impl_from_str {
        let from_str = define_from_str(enum_name, variants);
        append_spaced(&mut out, from_str.as_str());
    } else {
        assert(spaced(out@, Seq::<char>::empty()) =~= out@);
    }
    append_spaced(&mut out, new_structs.as_str());
    Ok(out)
}

/// Defines an enum with one variant for each key of a map, in the order of
/// the map, and with the values of the map as the values of the variants.
/// The text and the faults are those of
/// [`define_enum_from_variants_and_values`] for the keys and the values,
/// with the values to be used and no further items.
pub fn define_enum_from_keys(
    data: &Struct,
    enum_name: &str,
    source_file_path: Option<&str>,
    options: &Options,
) -> (r: Result<String, Error>)
    ensures
        text_outcome(r) == enum_defined(
            keys_of(data@),
            values_of(data@),
            true,
            enum_name@,
            path_text(source_file_path),
            options@,
            Seq::<char>::empty(),
        ),
{
    let variants = struct_keys(data);
    let values = struct_values(data);
    let inherents = String::new();
    define_enum_from_variants_and_values(
        &variants,
        &values,
        true,
        enum_name,
        source_file_path,
        options,
        inherents.as_str(),
    )
}

/// A file of a directory: its path, and the stem of its name where it has
/// one.
#[derive(Clone, Debug, PartialEq, Eq)]
pub struct SourceFile {
    pub path: String,
    pub stem: Option<String>,
}

/// A [`SourceFile`] with its texts as sequences of characters.
pub ghost struct FileModel {
    pub path: Seq<char>,
    pub stem: Option<Seq<char>>,
}

impl View for SourceFile {
    type V = FileModel;

    open spec fn view(&self) -> FileModel {
        FileModel { path: self.path@, stem: optional_text(self.stem) }
    }
}

/// The views of a list of files.
pub open spec fn files_of(files: Seq<SourceFile>) -> Seq<FileModel> {
    Seq::new(files.len(), |i: int| files[i]@)
}

/// The camel-case form of the stem of a file.
pub open spec fn stem_in_camel_case(file: FileModel) -> Seq<char> {
    match file.stem {
        Some(stem) => camel_case(stem, stem.len()),
        None => Seq::empty(),
    }
}

/// Whether a variant can be named after a file: it has a stem and the
/// camel-case form of the stem is an identifier.
pub open spec fn names_variant(file: FileModel) -> bool {
    file.stem is Some && identifier(stem_in_camel_case(file))
}

/// The fault of the first among the first `n` files after which no variant
/// can be named: it names the path of the file.
pub open spec fn bad_files(files: Seq<FileModel>, n: nat) -> Option<Fault>
    decreases n,
{
    if n == 0 || n > files.len() {
        None
    } else {
        first_of(
            bad_files(files, (n - 1) as nat),
            if names_variant(files[n - 1]) {
                None
            } else {
                Some(Fault::UnsupportedFilePath(files[n - 1].path))
            },
        )
    }
}

/// The variant of each file, in the order of the files.
pub open spec fn file_variants(files: Seq<FileModel>) -> Seq<Seq<char>> {
    Seq::new(files.len(), |i: int| stem_in_camel_case(files[i]))
}

/// The paths of the first `n` files as string literals, each followed by
/// ` ,`.
pub open spec fn render_paths(files: Seq<FileModel>, n: nat) -> Seq<char>
    decreases n,
{
    if n == 0 || n > files.len() {
        Seq::empty()
    } else {
        spaced(render_paths(files, (n - 1) as nat), string_literal(files[n - 1].path) + " ,"@)
    }
}

/// The first `n` files, each read at compile time by the macro `reader`
/// and followed by ` ,`.
pub open spec fn render_included(files: Seq<FileModel>, reader: Seq<char>, n: nat) -> Seq<char>
    decreases n,
{
    if n == 0 || n > files.len() {
        Seq::empty()
    } else {
        spaced(
            render_included(files, reader, (n - 1) as nat),
            reader + " ! ("@ + string_literal(files[n - 1].path) + ") ,"@,
        )
    }
}

/// A constant that lists something of each file.
pub open spec fn render_files_const(const_name: Seq<char>, item_type: Seq<char>, list: Seq<char>)
    -> Seq<char> {
    "pub const "@ + const_name + " : & 'static ["@ + item_type + "] = & ["@ + list + "] ;"@
}

/// A function that gives, for a variant, its item of such a constant.
pub open spec fn render_files_getter(
    fn_name: Seq<char>,
    const_name: Seq<char>,
    item_type: Seq<char>,
) -> Seq<char> {
    "pub const fn "@ + fn_name + " (self) -> "@ + item_type + " { Self :: "@ + const_name
        + " [self as usize] }"@
}

/// A constant about the files and the function that reads it: the
/// constant where a name is set for it, the function where a name is set
/// for both.
pub open spec fn files_part(
    const_name: Option<Seq<char>>,
    fn_name: Option<Seq<char>>,
    item_type: Seq<char>,
    list: Seq<char>,
) -> Seq<char> {
    match const_name {
        Some(const_name) => spaced(
            render_files_const(const_name, item_type, list),
            match fn_name {
                Some(fn_name) => render_files_getter(fn_name, const_name, item_type),
                None => Seq::empty(),
            },
        ),
        None => Seq::empty(),
    }
}

/// The type of a path and of a file read as text.
pub open spec fn text_item() -> Seq<char> {
    "& 'static str"@
}

/// The type of a file read as bytes.
pub open spec fn bytes_item() -> Seq<char> {
    "& 'static [u8]"@
}

/// The items about the files: the paths, then the files as bytes, then the
/// files as text, each as far as the options ask for it.
pub open spec fn files_items(files: Seq<FileModel>, plan: FilesPlan) -> Seq<char> {
    spaced(
        spaced(
            files_part(
                plan.file_paths_const_name,
                plan.get_path_fn_name,
                text_item(),
                render_paths(files, files.len()),
            ),
            files_part(
                plan.file_bytes_const_name,
                plan.get_bytes_fn_name,
                bytes_item(),
                render_included(files, "include_bytes"@, files.len()),
            ),
        ),
        files_part(
            plan.file_strings_const_name,
            plan.get_string_fn_name,
            text_item(),
            render_included(files, "include_str"@, files.len()),
        ),
    )
}

/// The fault of a constant about the files and of its function: the name
/// of the constant first, the name of the function only where the constant
/// is written.
pub open spec fn files_part_fault(const_name: Option<Seq<char>>, fn_name: Option<Seq<char>>)
    -> Option<Fault> {
    first_of(
        bad_const_name(const_name),
        if const_name is Some {
            bad_function_name(fn_name)
        } else {
            None
        },
    )
}

/// The fault of the items about the files: the first among paths, bytes
/// and text, in that order.
pub open spec fn files_fault(plan: FilesPlan) -> Option<Fault> {
    first_of(
        files_part_fault(plan.file_paths_const_name, plan.get_path_fn_name),
        first_of(
            files_part_fault(plan.file_bytes_const_name, plan.get_bytes_fn_name),
            files_part_fault(plan.file_strings_const_name, plan.get_string_fn_name),
        ),
    )
}

/// What [`define_enum_from_filenames`] gives: the lack of files, else the
/// fault of the first file after which no variant can be named, else the
/// fault of the items about the files, else the enum of the variants of the
/// files.  The values are used where there are any.
pub open spec fn file_enum_defined(
    root: Seq<char>,
    files: Seq<FileModel>,
    values: Seq<Tree>,
    enum_name: Seq<char>,
    plan: Plan,
) -> Result<Seq<char>, Fault> {
    match first_of(
        if files.len() == 0 {
            Some(Fault::ExpectedValuesInMap)
        } else {
            None
        },
        first_of(bad_files(files, files.len()), files_fault(plan.files)),
    ) {
        Some(fault) => Err(fault),
        None => enum_defined(
            file_variants(files),
            values,
            values.len() > 0,
            enum_name,
            Some(root),
            plan,
            files_items(files, plan.files),
        ),
    }
}

/// A fault among the first `n` files is the fault of any longer prefix.
pub proof fn lemma_bad_files_stays(files: Seq<FileModel>, n: nat, m: nat)
    requires
        n <= m <= files.len(),
        bad_files(files, n) is Some,
    ensures
        bad_files(files, m) == bad_files(files, n),
    decreases m,
{
    if m > n {
        lemma_bad_files_stays(files, n, (m - 1) as nat);
    }
}

/// The variant of each file, or the error of the first file after which
/// none can be named.
fn variants_of_files(files: &Vec<SourceFile>) -> (r: Result<Vec<String>, Error>)
    ensures
        match bad_files(files_of(files@), files@.len()) {
            Some(fault) => r matches Err(e) && e@ == fault,
            None => r matches Ok(variants) && texts(variants@) == file_variants(files_of(files@)),
        },
{
    let ghost models = files_of(files@);
    let mut out: Vec<String> = Vec::new();
    let mut i: usize = 0;
    while i < files.len()
        invariant
            i <= files.len(),
            models == files_of(files@),
            bad_files(models, i as nat) is None,
            out@.len() == i,
            forall|k: int| 0 <= k < i ==> (#[trigger] out@[k])@ == stem_in_camel_case(models[k]),
        decreases files.len() - i,
    {
        let variant = match &files[i].stem {
            Some(stem) => to_camel(stem.as_str()),
            None => String::new(),
        };
        if files[i].stem.is_none() || !valid_identifier(variant.as_str()) {
            proof {
                lemma_bad_files_stays(models, (i + 1) as nat, files@.len());
            }
            return Err(Error::UnsupportedFilePath(files[i].path.clone()));
        }
        out.push(variant);
        i = i + 1;
    }
    assert(texts(out@) =~= file_variants(models));
    Ok(out)
}

/// The paths of the files as string literals, each followed by ` ,`.
fn define_paths(files: &Vec<SourceFile>) -> (r: String)
    ensures
        r@ == render_paths(files_of(files@), files@.len()),
{
    let ghost models = files_of(files@);
    let mut list = String::new();
    let mut i: usize = 0;
    while i < files.len()
        invariant
            i <= files.len(),
            models == files_of(files@),
            list@ == render_paths(models, i as nat),
        decreases files.len() - i,
    {
        let mut item = quoted(files[i].path.as_str());
        item.append(" ,");
        append_spaced(&mut list, item.as_str());
        i = i + 1;
    }
    list
}

/// The files, each read at compile time by the macro `reader` and followed
/// by ` ,`.
fn define_included(files: &Vec<SourceFile>, reader: &str) -> (r: String)
    ensures
        r@ == render_included(files_of(files@), reader@, files@.len()),
{
    let ghost models = files_of(files@);
    let mut list = String::new();
    let mut i: usize = 0;
    while i < files.len()
        invariant
            i <= files.len(),
            models == files_of(files@),
            list@ == render_included(models, reader@, i as nat),
        decreases files.len() - i,
    {
        let literal = quoted(files[i].path.as_str());
        let mut item = String::from_str(reader);
        item.append(" ! (");
        item.append(literal.as_str());
        item.append(") ,");
        append_spaced(&mut list, item.as_str());
        i = i + 1;
    }
    list
}

/// A constant about the files and the function that reads it.
fn define_files_part(
    const_name: &Option<String>,
    fn_name: &Option<String>,
    item_type: &str,
    list: &str,
) -> (r: String)
    ensures
        r@ == files_part(optional_text(*const_name), optional_text(*fn_name), item_type@, list@),
{
    match const_name {
        Some(const_name) => {
            let mut out = concat7(
                "pub const ",
                const_name.as_str(),
                " : & 'static [",
                item_type,
                "] = & [",
                list,
                "] ;",
            );
            match fn_name {
                Some(fn_name) => {
                    let getter = concat7(
                        "pub const fn ",
                        fn_name.as_str(),
                        " (self) -> ",
                        item_type,
                        " { Self :: ",
                        const_name.as_str(),
                        " [self as usize] }",
                    );
                    append_spaced(&mut out, getter.as_str());
                },
                None => {
                    assert(spaced(out@, Seq::<char>::empty()) =~= out@);
                },
            }
            out
        },
        None => String::new(),
    }
}

/// The error of a constant about the files and of its function.
fn check_files_part(const_name: &Option<String>, fn_name: &Option<String>) -> (r: Option<Error>)
    ensures
        crate::validate::fault_of(r) == files_part_fault(
            optional_text(*const_name),
            optional_text(*fn_name),
        ),
{
    match check_const_name(const_name) {
        Some(e) => Some(e),
        None => {
            if const_name.is_some() {
                check_function_name(fn_name)
            } else {
                None
            }
        },
    }
}

/// Defines an enum with one variant for each file of a directory.
///
/// `root` is the path of the directory and `files` its files in the order
/// in which the variants are to come.  The variant of a file is the stem of
/// its name in camel case.  The implementation of the enum holds, as far as
/// the options ask for them, the paths of the files, the files read at
/// compile time as bytes and as text, and a function for each of these;
/// then the path of the directory, and what every enum can have.  `values`
/// holds what each file contains, in the order of the files; where there
/// are any, they are the values of the variants.
///
/// Fails with `ExpectedValuesInMap` where there is no file; else with
/// `UnsupportedFilePath` for the first file that has no stem or whose stem
/// in camel case is no identifier; else where a name for an item about the
/// files is no identifier; else where the enum cannot be defined.
pub fn define_enum_from_filenames(
    root: &str,
    files: &Vec<SourceFile>,
    values: &Vec<Value>,
    enum_name: &str,
    options: &Options,
) -> (r: Result<String, Error>)
    ensures
        text_outcome(r) == file_enum_defined(
            root@,
            files_of(files@),
            trees_of(values@),
            enum_name@,
            options@,
        ),
{
    proof {
        lemma_trees_of(values@);
    }
    if files.len() == 0 {
        return Err(Error::ExpectedValuesInMap);
    }
    let variants = match variants_of_files(files) {
        Ok(variants) => variants,
        Err(e) => {
            return Err(e);
        },
    };
    match check_files_part(&options.files.file_paths_const_name, &options.files.get_path_fn_name) {
        Some(e) => {
            return Err(e);
        },
        None => {},
    }
    match check_files_part(
        &options.files.file_bytes_const_name,
        &options.files.get_bytes_fn_name,
    ) {
        Some(e) => {
            return Err(e);
        },
        None => {},
    }
    match check_files_part(
        &options.files.file_strings_const_name,
        &options.files.get_string_fn_name,
    ) {
        Some(e) => {
            return Err(e);
        },
        None => {},
    }
    let paths = define_paths(files);
    let bytes = define_included(files, "include_bytes");
    let strings = define_included(files, "include_str");
    let mut inherents = define_files_part(
        &options.files.file_paths_const_name,
        &options.files.get_path_fn_name,
        "& 'static str",
        paths.as_str(),
    );
    let bytes_part = define_files_part(
        &options.files.file_bytes_const_name,
        &options.files.get_bytes_fn_name,
        "& 'static [u8]",
        bytes.as_str(),
    );
    append_spaced(&mut inherents, bytes_part.as_str());
    let strings_part = define_files_part(
        &options.files.file_strings_const_name,
        &options.files.get_string_fn_name,
        "& 'static str",
        strings.as_str(),
    );
    append_spaced(&mut inherents, strings_part.as_str());
    define_enum_from_variants_and_values(
        &variants,
        values,
        values.len() > 0,
        enum_name,
        Some(root),
        options,
        inherents.as_str(),
    )
}

} // verus!
