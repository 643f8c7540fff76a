use std::str::FromStr;

use edres::emit::define_value;
use edres::enums::SourceFile;
use edres::error::Error;
use edres::options::{EnumOptions, Options, StructOptions};
use edres::parsing::{parse_value, RawFloat, RawNumber, RawValue};
use edres::value::{Decimal, Value};
use proc_macro2::{Delimiter, Spacing, TokenStream, TokenTree};

fn canonical(stream: TokenStream) -> String {
    let mut out = String::new();
    let mut glue = true;
    let mut previous = ' ';
    for tree in stream {
        let joined = match &tree {
            TokenTree::Punct(p) => {
                matches!((previous, p.as_char()), (':', ':') | ('-', '>') | ('=', '>'))
            }
            _ => previous == '\'',
        };
        if !(glue || joined) {
            out.push(' ');
        }
        glue = false;
        previous = ' ';
        match tree {
            TokenTree::Group(group) => {
                let inner = canonical(group.stream());
                match group.delimiter() {
                    Delimiter::Parenthesis => out.push_str(&format!("({})", inner)),
                    Delimiter::Bracket => out.push_str(&format!("[{}]", inner)),
                    Delimiter::Brace if inner.is_empty() => out.push_str("{ }"),
                    Delimiter::Brace => out.push_str(&format!("{{ {} }}", inner)),
                    Delimiter::None => out.push_str(&inner),
                }
            }
            TokenTree::Punct(p) => {
                out.push(p.as_char());
                if p.spacing() == Spacing::Joint && !joined {
                    previous = p.as_char();
                }
            }
            other => out.push_str(&other.to_string()),
        }
    }
    out
}

fn tokens(source: &str) -> String {
    canonical(TokenStream::from_str(source).unwrap())
}

fn assert_str(actual: String, expected: &str) {
    assert_eq!(actual, tokens(expected));
}

fn decimal(text: String) -> Decimal {
    Decimal::parse(&text).unwrap()
}

fn raw_float(x: f64) -> RawFloat {
    let narrow = if x >= (f32::MIN as f64) && x <= (f32::MAX as f64) {
        Some(decimal(format!("{}", x as f32)))
    } else {
        None
    };
    RawFloat {
        wide: decimal(format!("{}", x)),
        narrow,
    }
}

fn f64_value(x: f64) -> Value {
    Value::F64(decimal(format!("{}", x)))
}

fn text(s: &str) -> RawValue {
    RawValue::String(s.to_string())
}

fn whole(x: i128) -> RawValue {
    RawValue::Number(RawNumber::Integer(x))
}

fn map(entries: Vec<(&str, RawValue)>) -> RawValue {
    RawValue::Mapping(entries.into_iter().map(|(k, v)| (text(k), v)).collect())
}

fn from_yaml(value: serde_yaml::Value) -> RawValue {
    match value {
        serde_yaml::Value::Null => RawValue::Null,
        serde_yaml::Value::Bool(x) => RawValue::Bool(x),
        serde_yaml::Value::Number(x) => RawValue::Number(if x.is_f64() {
            RawNumber::Float(raw_float(x.as_f64().unwrap()))
        } else if x.is_i64() {
            RawNumber::Integer(x.as_i64().unwrap() as i128)
        } else {
            RawNumber::Integer(x.as_u64().unwrap() as i128)
        }),
        serde_yaml::Value::String(x) => RawValue::String(x),
        serde_yaml::Value::Sequence(items) => {
            RawValue::Sequence(items.into_iter().map(from_yaml).collect())
        }
        serde_yaml::Value::Mapping(entries) => RawValue::Mapping(
            entries
                .into_iter()
                .map(|(k, v)| (from_yaml(k), from_yaml(v)))
                .collect(),
        ),
        serde_yaml::Value::Tagged(tagged) => from_yaml(tagged.value),
    }
}

fn from_toml(value: toml::Value) -> RawValue {
    match value {
        toml::Value::Boolean(x) => RawValue::Bool(x),
        toml::Value::Integer(x) => RawValue::Number(RawNumber::Integer(x as i128)),
        toml::Value::Float(x) => RawValue::Number(RawNumber::Float(raw_float(x))),
        toml::Value::String(x) => RawValue::String(x),
        toml::Value::Datetime(x) => RawValue::String(x.to_string()),
        toml::Value::Array(items) => {
            RawValue::Sequence(items.into_iter().map(from_toml).collect())
        }
        toml::Value::Table(entries) => RawValue::Mapping(
            entries
                .into_iter()
                .map(|(k, v)| (RawValue::String(k), from_toml(v)))
                .collect(),
        ),
    }
}

fn yaml(source: &str) -> RawValue {
    from_yaml(serde_yaml::from_str(source).unwrap())
}

const STRUCT_YAML: &str = "name: x\nnumber: 10\n";
const ENUM_YAML: &str = "First: 1\nSecond: 2\n";
const ALPHA_YAML: &str = "name: Alpha\nletter: a\n";
const BETA_YAML: &str = "name: Beta\nletter: b\n";

const STRUCT_TEXT: &str = "
    #[allow(non_camel_case_types)]
    pub struct Struct {
        pub name: std::borrow::Cow<'static, str>,
        pub number: i64,
    }
";

const ENUM_TEXT: &str = "
    pub enum Enum {
        First,
        Second,
    }
";

fn data_files() -> Vec<SourceFile> {
    vec![
        SourceFile {
            path: "tests/data/files/alpha.yaml".into(),
            stem: Some("alpha".into()),
        },
        SourceFile {
            path: "tests/data/files/beta.yaml".into(),
            stem: Some("beta".into()),
        },
    ]
}

#[test]
fn generate_structs() {
    let s = edres::generate_structs(
        "tests/data/struct.yaml",
        &yaml(STRUCT_YAML),
        "Struct",
        &Options::minimal(),
    )
    .unwrap();
    assert_str(s, STRUCT_TEXT);
}

#[test]
fn generate_structs_from_source() {
    let s = edres::generate_structs_from_source(&yaml(STRUCT_YAML), "Struct", &Options::minimal())
        .unwrap();
    assert_str(s, STRUCT_TEXT);
}

#[test]
fn generate_structs_from_files() {
    let s = edres::generate_structs_from_files(
        &vec![yaml(ALPHA_YAML), yaml(BETA_YAML)],
        "Struct",
        &Options::minimal(),
    )
    .unwrap();
    assert_str(
        s,
        "#[allow(non_camel_case_types)]
        pub struct Struct {
            pub name: std::borrow::Cow<'static, str>,
            pub letter: std::borrow::Cow<'static, str>,
        }",
    );
}

#[test]
fn generate_enum() {
    let s = edres::generate_enum(
        "tests/data/enum.yaml",
        &yaml(ENUM_YAML),
        "Enum",
        &Options::minimal(),
    )
    .unwrap();
    assert_str(s, ENUM_TEXT);
}

#[test]
fn generate_enum_from_source() {
    let s =
        edres::generate_enum_from_source(&yaml(ENUM_YAML), "Enum", &Options::minimal()).unwrap();
    assert_str(s, ENUM_TEXT);
}

#[test]
fn generate_enum_from_filenames() {
    let s = edres::generate_enum_from_filenames(
        "tests/data/files",
        &data_files(),
        &vec![],
        "Enum",
        &Options::minimal(),
    )
    .unwrap();
    assert_str(
        s,
        "pub enum Enum {
            Alpha,
            Beta,
        }",
    );
}

#[test]
fn round_trip_without_and_with_the_data_constant() {
    let document = map(vec![("name", text("x")), ("number", whole(10))]);
    let bare = edres::generate_structs_from_source(&document, "Root", &Options::minimal()).unwrap();
    assert_str(
        bare,
        "#[allow(non_camel_case_types)]
        pub struct Root {
            pub name: std::borrow::Cow<'static, str>,
            pub number: i64,
        }",
    );
    let with_data = edres::generate_structs_from_source(
        &document,
        "Root",
        &Options {
            structs: StructOptions {
                struct_data_const_name: Some("DATA".into()),
                ..StructOptions::minimal()
            },
            ..Options::minimal()
        },
    )
    .unwrap();
    assert_str(
        with_data,
        "#[allow(non_camel_case_types)]
        pub struct Root {
            pub name: std::borrow::Cow<'static, str>,
            pub number: i64,
        }
        impl Root {
            pub const DATA: Root = Root {
                name: std::borrow::Cow::Borrowed(\"x\"),
                number: 10i64,
            };
        }",
    );
}

#[test]
fn generations_of_the_same_input_are_identical() {
    let document = yaml("a:\n  b: [1, null]\n  c: [x, y]\nd: 2.5\n");
    let first = edres::generate_structs("f.yaml", &document, "Root", &Options::serde_default());
    let second = edres::generate_structs("f.yaml", &document, "Root", &Options::serde_default());
    assert!(first.is_ok());
    assert_eq!(first, second);
    let first = edres::generate_enum("f.yaml", &document, "Root", &Options::serde_default());
    let second = edres::generate_enum("f.yaml", &document, "Root", &Options::serde_default());
    assert!(first.is_ok());
    assert_eq!(first, second);
}

#[test]
fn test_non_struct_root_object() {
    let document = RawValue::Sequence(vec![text("key"), text("value")]);
    let result = edres::generate_structs_from_source(&document, "Root", &Options::minimal());
    assert!(result.is_err());
    assert_eq!(result, Err(Error::ExpectedStruct("Vec")));
    assert_eq!(
        edres::generate_enum_from_source(&whole(1), "Root", &Options::minimal()),
        Err(Error::ExpectedStruct("i64"))
    );
}

#[test]
fn faults_of_the_documents_come_first() {
    let bad = RawValue::Number(RawNumber::Unreadable);
    assert_eq!(
        edres::generate_structs("f.toml", &bad, "not a name", &Options::minimal()),
        Err(Error::ErrorParsingNumber)
    );
    assert_eq!(
        edres::generate_structs_from_files(
            &vec![yaml(ALPHA_YAML), bad],
            "not a name",
            &Options::minimal()
        ),
        Err(Error::ErrorParsingNumber)
    );
    // The documents of an enum of files are read only where its values are written.
    let unread = vec![RawValue::Number(RawNumber::Unreadable)];
    assert!(
        edres::generate_enum_from_filenames("d", &data_files(), &unread, "Enum", &Options::minimal())
            .is_ok()
    );
    assert_eq!(
        edres::generate_enum_from_filenames("d", &data_files(), &unread, "Enum", &Options::new()),
        Err(Error::ErrorParsingNumber)
    );
}

#[test]
fn directory_without_files_gives_nothing_to_generate() {
    let bad_names = Options {
        structs: StructOptions {
            derived_traits: vec!["not a trait".to_string()],
            struct_data_const_name: Some("not a const".into()),
        },
        ..Options::new()
    };
    for options in [Options::minimal(), Options::new(), Options::serde_default(), bad_names] {
        for name in ["Struct", "not a name", ""] {
            assert!(matches!(
                edres::generate_structs_from_files(&vec![], name, &options),
                Err(Error::ExpectedValuesInMap)
            ));
            assert!(matches!(
                edres::generate_enum_from_filenames("d", &vec![], &vec![], name, &options),
                Err(Error::ExpectedValuesInMap)
            ));
        }
    }
}

#[test]
fn enum_of_files_with_the_values_of_the_files() {
    let s = edres::generate_enum_from_filenames(
        "tests/data/files",
        &data_files(),
        &vec![yaml(ALPHA_YAML), yaml(BETA_YAML)],
        "Enum",
        &Options {
            enums: EnumOptions {
                all_values_const_name: Some("VALUES".into()),
                ..EnumOptions::minimal()
            },
            ..Options::minimal()
        },
    )
    .unwrap();
    assert_str(
        s,
        "pub enum Enum {
            Alpha,
            Beta,
        }
        impl Enum {
            pub const VALUES: &'static [Enum__Value] = &[
                Enum__Value {
                    name: std::borrow::Cow::Borrowed(\"Alpha\"),
                    letter: std::borrow::Cow::Borrowed(\"a\"),
                },
                Enum__Value {
                    name: std::borrow::Cow::Borrowed(\"Beta\"),
                    letter: std::borrow::Cow::Borrowed(\"b\"),
                },
            ];
        }
        #[allow(non_camel_case_types)]
        pub struct Enum__Value {
            pub name: std::borrow::Cow<'static, str>,
            pub letter: std::borrow::Cow<'static, str>,
        }",
    );
}

const CONFIG_TOML: &str = r#"
name = "Config name"
number = 100
is_config = true
is_not_config = false
one_point_zero = 1.0
one_point_five = 1.5
floaty = 123.456789
coord = [-5.0, 5.0]
color = [0, 64, 128, 255]
words = ["one", "two", "three"]
points = [[1, 2], [3, 4], [5, 6]]

[table]
name = "A table"
magnitude = 1000000000

[table.table_again]
name = "OK this is just getting ridiculous"
description = "getting ridiculous"

[[arrayble]]
description = "just unbelievable"

[[arrayble]]
description = "what is this syntax"
"#;

fn config_document() -> RawValue {
    from_toml(toml::from_str(CONFIG_TOML).unwrap())
}

fn config() -> Value {
    parse_value(&config_document(), &Options::new().parse).unwrap()
}

fn field<'a>(value: &'a Value, key: &str) -> &'a Value {
    match value {
        Value::Struct(fields) => &fields.entries().iter().find(|(k, _)| k == key).unwrap().1,
        other => panic!("not a record: {:?}", other),
    }
}

fn item(value: &Value, index: usize) -> &Value {
    match value {
        Value::Vec(items) => &items[index],
        Value::Array(_, items) => &items[index],
        other => panic!("not a sequence: {:?}", other),
    }
}

fn string(s: &str) -> Value {
    Value::String(s.to_string())
}

#[test]
fn test_declarations() {
    let code = edres::generate_structs_from_source(
        &config_document(),
        "Config",
        &Options {
            structs: StructOptions {
                struct_data_const_name: Some("CONFIG".into()),
                ..StructOptions::new()
            },
            ..Options::minimal()
        },
    )
    .unwrap();
    assert!(TokenStream::from_str(&code).is_ok());
    assert!(code.contains("pub struct Config {"));
    assert!(code.contains("pub const CONFIG : Config = Config {"));
}

#[test]
fn test_deserialization() {
    let conf = config();
    assert_eq!(field(&conf, "name"), &string("Config name"));
}

#[test]
fn test_simple_values() {
    let conf = config();
    assert_eq!(field(&conf, "name"), &string("Config name"));
    assert_eq!(field(&conf, "number"), &Value::I64(100));
    assert_eq!(field(&conf, "is_config"), &Value::Bool(true));
    assert_eq!(field(&conf, "is_not_config"), &Value::Bool(false));
    assert_eq!(field(&conf, "one_point_zero"), &f64_value(1.0));
    assert_eq!(field(&conf, "one_point_five"), &f64_value(1.5));
    assert_eq!(field(&conf, "floaty"), &f64_value(123.456789));
    assert_eq!(
        define_value(field(&conf, "floaty"), "Config__floaty"),
        "123.456789f64"
    );
    assert_eq!(
        define_value(field(&conf, "one_point_zero"), "Config__one_point_zero"),
        "1f64"
    );
}

#[test]
fn test_simple_array_values() {
    let conf = config();
    assert_eq!(
        field(&conf, "coord"),
        &Value::Vec(vec![f64_value(-5.0), f64_value(5.0)])
    );
    assert_eq!(
        field(&conf, "color"),
        &Value::Vec(vec![
            Value::I64(0),
            Value::I64(64),
            Value::I64(128),
            Value::I64(255)
        ])
    );
    assert_eq!(
        field(&conf, "words"),
        &Value::Vec(vec![string("one"), string("two"), string("three")])
    );
    assert_eq!(
        field(&conf, "points"),
        &Value::Vec(vec![
            Value::Vec(vec![Value::I64(1), Value::I64(2)]),
            Value::Vec(vec![Value::I64(3), Value::I64(4)]),
            Value::Vec(vec![Value::I64(5), Value::I64(6)]),
        ])
    );
    assert_eq!(
        define_value(field(&conf, "coord"), "Config__coord"),
        "std :: borrow :: Cow :: Borrowed (& [-5f64 , 5f64 ,])"
    );
}

#[test]
fn test_table_values() {
    let conf = config();
    let table = field(&conf, "table");
    assert_eq!(field(table, "name"), &string("A table"));
    assert_eq!(field(table, "magnitude"), &Value::I64(1000000000));
}

#[test]
fn test_nested_tables() {
    let conf = config();
    let table_again = field(field(&conf, "table"), "table_again");
    assert_eq!(
        field(table_again, "name"),
        &string("OK this is just getting ridiculous")
    );
    assert_eq!(
        field(table_again, "description"),
        &string("getting ridiculous")
    );
}

#[test]
fn test_array_of_tables() {
    let conf = config();
    let arrayble = field(&conf, "arrayble");
    assert_eq!(
        field(item(arrayble, 0), "description"),
        &string("just unbelievable")
    );
    assert_eq!(
        field(item(arrayble, 1), "description"),
        &string("what is this syntax")
    );
}
