use std::str::FromStr;

use edres::codegen::{define_structs, define_structs_from_values};
use edres::emit::{define_value, type_of_value};
use edres::enums::define_enum_from_keys;
use edres::options::{EnumOptions, Options, SerdeSupport, StructOptions};
use edres::value::{Decimal, Struct, Value};
use proc_macro2::{Delimiter, Spacing, TokenStream, TokenTree};

fn canonical(stream: TokenStream) -> String {
    let mut out = String::new();
    let mut glue = true;
    let mut previous = ' ';
    for tree in stream {
        let joined = match &tree {
            TokenTree::Punct(p) => {
                matches!((previous, p.as_char()), (':', ':') | ('-', '>') | ('=', '>'))
            }
            _ => previous == '\'',
        };
        if !(glue || joined) {
            out.push(' ');
        }
        glue = false;
        previous = ' ';
        match tree {
            TokenTree::Group(group) => {
                let inner = canonical(group.stream());
                match group.delimiter() {
                    Delimiter::Parenthesis => out.push_str(&format!("({})", inner)),
                    Delimiter::Bracket => out.push_str(&format!("[{}]", inner)),
                    Delimiter::Brace if inner.is_empty() => out.push_str("{ }"),
                    Delimiter::Brace => out.push_str(&format!("{{ {} }}", inner)),
                    Delimiter::None => out.push_str(&inner),
                }
            }
            TokenTree::Punct(p) => {
                out.push(p.as_char());
                if p.spacing() == Spacing::Joint && !joined {
                    previous = p.as_char();
                }
            }
            other => out.push_str(&other.to_string()),
        }
    }
    out
}

fn tokens(source: &str) -> String {
    canonical(TokenStream::from_str(source).unwrap())
}

fn assert_tokens(actual: String, expected: &str) {
    assert_eq!(actual, tokens(expected));
}

fn f32_value(x: f32) -> Value {
    Value::F32(Decimal::parse(&format!("{}", x)).unwrap())
}

fn f64_value(x: f64) -> Value {
    Value::F64(Decimal::parse(&format!("{}", x)).unwrap())
}

fn record(pairs: Vec<(&str, Value)>) -> Struct {
    Struct::from_pairs(pairs.into_iter().map(|(k, v)| (k.to_string(), v)).collect())
}

fn some_struct() -> Value {
    Value::Struct(record(vec![("key", Value::Unit)]))
}


#[test]
fn gen_type_declarations() {
    let a_struct = some_struct();
    let a_vec = Value::Vec(vec![some_struct(), some_struct()]);
    let a_tuple = Value::Tuple(vec![some_struct(), some_struct()]);

    assert_tokens(type_of_value(&Value::Unit, "unused"), "()");
    assert_tokens(type_of_value(&f32_value(1.), "unused"), "f32");
    assert_tokens(type_of_value(&a_struct, "StructName"), "StructName");
    assert_tokens(
        type_of_value(&a_vec, "StructName"),
        "std::borrow::Cow<'static, [StructName]>",
    );
    assert_tokens(
        type_of_value(&a_tuple, "StructName"),
        "(StructName__0, StructName__1)",
    );
    assert_tokens(
        type_of_value(
            &Value::Struct(record(vec![(
                "nest",
                Value::Tuple(vec![Value::Unit, some_struct()]),
            )])),
            "StructName",
        ),
        "StructName",
    );
}

#[test]
fn gen_value_declarations() {
    let a_struct = some_struct();
    let a_vec = Value::Vec(vec![some_struct(), some_struct()]);
    let a_tuple = Value::Tuple(vec![some_struct(), some_struct()]);

    assert_tokens(define_value(&Value::Unit, "unused"), "()");
    assert_tokens(define_value(&f32_value(1.), "unused"), "1f32");
    assert_tokens(
        define_value(&a_struct, "StructName"),
        "StructName { key: (), }",
    );
    assert_tokens(
        define_value(&a_vec, "StructName"),
        "std::borrow::Cow::Borrowed(&[
            StructName { key: (), },
            StructName { key: (), },
        ])",
    );
    assert_tokens(
        define_value(&a_tuple, "StructName"),
        "(StructName__0 { key: (), }, StructName__1 { key: (), })",
    );
    assert_tokens(
        define_value(
            &Value::Struct(record(vec![(
                "nest",
                Value::Tuple(vec![Value::Unit, some_struct()]),
            )])),
            "StructName",
        ),
        "StructName {
            nest: ((), StructName__nest__1 { key: (), }),
        }",
    );
}

#[test]
fn gen_empty_struct() {
    let fields = record(vec![]);
    let result = define_structs(&fields, "Struct", None, &Options::minimal()).unwrap();
    assert_tokens(
        result,
        "#[allow(non_camel_case_types)]
        pub struct Struct {}",
    );
}

#[test]
fn gen_empty_struct_with_path() {
    let fields = record(vec![]);
    let result = define_structs(
        &fields,
        "Struct",
        Some("./path/to/file.toml"),
        &Options {
            source_path_const_name: Some("SOURCE_PATH".into()),
            ..Options::minimal()
        },
    )
    .unwrap();
    assert_tokens(
        result,
        "#[allow(non_camel_case_types)]
        pub struct Struct {}

        impl Struct {
            pub const SOURCE_PATH: &'static str = \"./path/to/file.toml\";
        }",
    );
}

#[test]
fn gen_struct_with_vecs() {
    let fields = record(vec![
        ("a", Value::Vec(vec![])),
        ("b", Value::Vec(vec![Value::Bool(true)])),
        ("c", Value::Vec(vec![Value::Bool(true), Value::Bool(false)])),
    ]);
    let result = define_structs(&fields, "Struct", None, &Options::minimal()).unwrap();
    assert_tokens(
        result,
        "#[allow(non_camel_case_types)]
        pub struct Struct {
            pub a: std::borrow::Cow<'static, [()]>,
            pub b: std::borrow::Cow<'static, [bool]>,
            pub c: std::borrow::Cow<'static, [bool]>,
        }",
    );
}

#[test]
fn gen_struct_with_arrays() {
    let fields = record(vec![
        ("a", Value::Array(0, vec![])),
        ("b", Value::Array(1, vec![Value::Bool(true)])),
        (
            "c",
            Value::Array(2, vec![Value::Bool(true), Value::Bool(false)]),
        ),
    ]);
    let result = define_structs(&fields, "Struct", None, &Options::minimal()).unwrap();
    assert_tokens(
        result,
        "#[allow(non_camel_case_types)]
        pub struct Struct {
            pub a: [(); 0usize],
            pub b: [bool; 1usize],
            pub c: [bool; 2usize],
        }",
    );
}

#[test]
fn gen_nested_struct() {
    let fields = record(vec![(
        "nested",
        Value::Struct(record(vec![("inner", Value::Bool(true))])),
    )]);
    let result = define_structs(&fields, "Struct", None, &Options::minimal()).unwrap();
    assert_tokens(
        result,
        "#[allow(non_camel_case_types)]
        pub struct Struct {
            pub nested: Struct__nested,
        }

        #[allow(non_camel_case_types)]
        pub struct Struct__nested {
            pub inner: bool,
        }",
    );
}

#[test]
fn gen_nested_struct_with_derives() {
    let fields = record(vec![(
        "nested",
        Value::Struct(record(vec![("inner", Value::Bool(true))])),
    )]);
    let result = define_structs(
        &fields,
        "Struct",
        None,
        &Options {
            serde_support: SerdeSupport::Yes,
            structs: StructOptions {
                derived_traits: vec!["Debug".into(), "Clone".into()],
                ..StructOptions::minimal()
            },
            ..Options::minimal()
        },
    )
    .unwrap();
    assert_tokens(
        result,
        "#[allow(non_camel_case_types)]
        #[derive(Debug, Clone, serde::Serialize, serde::Deserialize)]
        pub struct Struct {
            pub nested: Struct__nested,
        }

        #[allow(non_camel_case_types)]
        #[derive(Debug, Clone, serde::Serialize, serde::Deserialize)]
        pub struct Struct__nested {
            pub inner: bool,
        }",
    );
}

#[test]
fn gen_more_nested_struct() {
    let fields = record(vec![(
        "nested",
        Value::Struct(record(vec![(
            "nested_again",
            Value::Struct(record(vec![("inner", Value::Bool(true))])),
        )])),
    )]);
    let result = define_structs(&fields, "Struct", None, &Options::minimal()).unwrap();
    assert_tokens(
        result,
        "#[allow(non_camel_case_types)]
        pub struct Struct {
            pub nested: Struct__nested,
        }

        #[allow(non_camel_case_types)]
        pub struct Struct__nested {
            pub nested_again: Struct__nested__nested_again,
        }

        #[allow(non_camel_case_types)]
        pub struct Struct__nested__nested_again {
            pub inner: bool,
        }",
    );
}

#[test]
fn gen_structs_in_tuples() {
    let fields = record(vec![(
        "tuple",
        Value::Tuple(vec![
            Value::Bool(true),
            Value::Struct(record(vec![("struct_a", Value::Bool(true))])),
            Value::Struct(record(vec![("struct_b", Value::Bool(true))])),
        ]),
    )]);
    let result = define_structs(&fields, "Struct", None, &Options::minimal()).unwrap();
    assert_tokens(
        result,
        "#[allow(non_camel_case_types)]
        pub struct Struct {
            pub tuple: (bool, Struct__tuple__1, Struct__tuple__2),
        }

        #[allow(non_camel_case_types)]
        pub struct Struct__tuple__1 {
            pub struct_a: bool,
        }

        #[allow(non_camel_case_types)]
        pub struct Struct__tuple__2 {
            pub struct_b: bool,
        }",
    );
}

fn first_second() -> Struct {
    record(vec![("First", Value::I32(1)), ("Second", Value::I32(2))])
}

const ENUM_IMPLS: &str = "
    impl Default for Enum {
        fn default() -> Self {
            Self::First
        }
    }

    impl std::fmt::Display for Enum {
        fn fmt(&self, f: &mut std::fmt::Formatter) -> std::fmt::Result {
            <Self as std::fmt::Debug>::fmt(self, f)
        }
    }
";


#[test]
fn gen_simple_enum() {
    let mapping = first_second();
    let result = define_enum_from_keys(&mapping, "Enum", None, &Options::minimal()).unwrap();
    assert_tokens(
        result,
        "pub enum Enum {
            First,
            Second,
        }",
    );
}

#[test]
fn gen_simple_enum_with_file() {
    let mapping = first_second();
    let result = define_enum_from_keys(
        &mapping,
        "Enum",
        Some("./path/to/file.toml"),
        &Options {
            source_path_const_name: Some("SOURCE_PATH".into()),
            ..Options::minimal()
        },
    )
    .unwrap();
    assert_tokens(
        result,
        "pub enum Enum {
            First,
            Second,
        }
        impl Enum {
            pub const SOURCE_PATH: &'static str = \"./path/to/file.toml\";
        }",
    );
}

#[test]
fn gen_enum_with_derives() {
    let mapping = first_second();
    let result = define_enum_from_keys(
        &mapping,
        "Enum",
        None,
        &Options {
            serde_support: SerdeSupport::Yes,
            enums: EnumOptions {
                derived_traits: vec!["Clone".into()],
                all_variants_const_name: Some("VARIANTS".into()),
                impl_default: true,
                impl_display: true,
                impl_from_str: true,
                ..EnumOptions::minimal()
            },
            ..Options::minimal()
        },
    )
    .unwrap();
    let expected = format!(
        "#[derive(Clone, serde::Serialize, serde::Deserialize, Debug)]
        pub enum Enum {{
            First,
            Second,
        }}

        impl Enum {{
            pub const VARIANTS: &'static [Self] = &[Self::First, Self::Second, ];
        }}
        {}
        impl std::str::FromStr for Enum {{
            type Err = ();

            fn from_str(s: &str) -> std::result::Result<Self, Self::Err> {{
                Ok(match s {{
                    \"First\" => Self::First,
                    \"Second\" => Self::Second,
                    _ => return Err(())
                }})
            }}
        }}",
        ENUM_IMPLS
    );
    assert_tokens(result, &expected);
}

#[test]
fn gen_define_nothing_from_map_values() {
    let fields = record(vec![("Key1", Value::Unit), ("Key2", Value::Unit)]);
    let result = define_structs_from_values(&fields, "Struct", &Options::minimal()).unwrap();
    assert_tokens(result, "");
}

#[test]
fn gen_big_flat_struct() {
    let fields = record(vec![
        ("a", Value::Unit),
        ("b", Value::Bool(true)),
        ("c", Value::Char('a')),
        ("d", Value::I8(8)),
        ("e", Value::I16(16)),
        ("f", Value::I32(32)),
        ("g", Value::I64(64)),
        ("h", Value::I128(128)),
        ("i", Value::ISize(64)),
        ("j", Value::U8(8)),
        ("k", Value::U16(16)),
        ("l", Value::U32(32)),
        ("m", Value::U64(64)),
        ("n", Value::U128(128)),
        ("o", Value::USize(64)),
        ("p", f32_value(32.)),
        ("q", f64_value(64.)),
        ("r", Value::String("String".into())),
    ]);
    let result = define_structs(&fields, "Struct", None, &Options::minimal()).unwrap();
    assert_tokens(
        result,
        "#[allow(non_camel_case_types)]
        pub struct Struct {
            pub a: (),
            pub b: bool,
            pub c: char,
            pub d: i8,
            pub e: i16,
            pub f: i32,
            pub g: i64,
            pub h: i128,
            pub i: isize,
            pub j: u8,
            pub k: u16,
            pub l: u32,
            pub m: u64,
            pub n: u128,
            pub o: usize,
            pub p: f32,
            pub q: f64,
            pub r: std::borrow::Cow<'static, str>,
        }",
    );
}
