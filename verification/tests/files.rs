use std::str::FromStr;

use edres::codegen::define_structs_from_file_contents;
use edres::enums::{define_enum_from_filenames, SourceFile};
use edres::error::Error;
use edres::options::{EnumOptions, FilesOptions, Options, StructOptions};
use edres::value::{Struct, Value};
use proc_macro2::{Delimiter, Spacing, TokenStream, TokenTree};

fn canonical(stream: TokenStream) -> String {
    let mut out = String::new();
    let mut glue = true;
    let mut previous = ' ';
    for tree in stream {
        let joined = match &tree {
            TokenTree::Punct(p) => {
                matches!((previous, p.as_char()), (':', ':') | ('-', '>') | ('=', '>'))
            }
            _ => previous == '\'',
        };
        if !(glue || joined) {
            out.push(' ');
        }
        glue = false;
        previous = ' ';
        match tree {
            TokenTree::Group(group) => {
                let inner = canonical(group.stream());
                match group.delimiter() {
                    Delimiter::Parenthesis => out.push_str(&format!("({})", inner)),
                    Delimiter::Bracket => out.push_str(&format!("[{}]", inner)),
                    Delimiter::Brace if inner.is_empty() => out.push_str("{ }"),
                    Delimiter::Brace => out.push_str(&format!("{{ {} }}", inner)),
                    Delimiter::None => out.push_str(&inner),
                }
            }
            TokenTree::Punct(p) => {
                out.push(p.as_char());
                if p.spacing() == Spacing::Joint && !joined {
                    previous = p.as_char();
                }
            }
            other => out.push_str(&other.to_string()),
        }
    }
    out
}

fn tokens(source: &str) -> String {
    canonical(TokenStream::from_str(source).unwrap())
}

fn assert_tokens(actual: String, expected: &str) {
    assert_eq!(actual, tokens(expected));
}

fn record(pairs: Vec<(&str, Value)>) -> Struct {
    Struct::from_pairs(pairs.into_iter().map(|(k, v)| (k.to_string(), v)).collect())
}

fn file(path: &str, stem: &str) -> SourceFile {
    SourceFile {
        path: path.to_string(),
        stem: Some(stem.to_string()),
    }
}

fn yamls() -> Vec<SourceFile> {
    vec![
        file("tests/yamls/file_a.yaml", "file_a"),
        file("tests/yamls/file_b.yaml", "file_b"),
    ]
}

fn content(number: i64, text: &str) -> Value {
    Value::Struct(record(vec![
        ("number", Value::I64(number)),
        ("text", Value::String(text.to_string())),
        (
            "nested",
            Value::Struct(record(vec![(
                "text_again",
                Value::String(text.to_string()),
            )])),
        ),
    ]))
}

fn contents() -> Vec<Value> {
    vec![content(100, "one hundred"), content(200, "two hundred")]
}

#[test]
fn gen_from_files_enum_from_filenames() {
    let result = define_enum_from_filenames(
        "tests/yamls",
        &yamls(),
        &vec![],
        "FileName",
        &Options::minimal(),
    )
    .unwrap();
    assert_tokens(
        result,
        "pub enum FileName {
            FileA,
            FileB,
        }",
    );
}

#[test]
fn enum_from_filenames_with_values() {
    let result = define_enum_from_filenames(
        "tests/yamls",
        &yamls(),
        &contents(),
        "FileName",
        &Options {
            enums: EnumOptions {
                all_values_const_name: Some("VALUES".into()),
                values_struct_options: StructOptions::minimal(),
                ..EnumOptions::minimal()
            },
            ..Options::minimal()
        },
    )
    .unwrap();
    assert_tokens(
        result,
        "pub enum FileName {
            FileA,
            FileB,
        }

        impl FileName {
            pub const VALUES: &'static [FileName__Value] = &[
                FileName__Value {
                    number: 100i64,
                    text: std::borrow::Cow::Borrowed(\"one hundred\"),
                    nested: FileName__Value__nested {
                        text_again: std::borrow::Cow::Borrowed(\"one hundred\"),
                    },
                },
                FileName__Value {
                    number: 200i64,
                    text: std::borrow::Cow::Borrowed(\"two hundred\"),
                    nested: FileName__Value__nested {
                        text_again: std::borrow::Cow::Borrowed(\"two hundred\"),
                    },
                },
            ];
        }

        #[allow(non_camel_case_types)]
        pub struct FileName__Value {
            pub number: i64,
            pub text: std::borrow::Cow<'static, str>,
            pub nested: FileName__Value__nested,
        }

        #[allow(non_camel_case_types)]
        pub struct FileName__Value__nested {
            pub text_again: std::borrow::Cow<'static, str>,
        }",
    );
}

#[test]
fn structs_from_file_contents() {
    let result = define_structs_from_file_contents(
        &contents(),
        "FileContent",
        &Options {
            structs: StructOptions {
                struct_data_const_name: Some("DATA".into()),
                ..StructOptions::minimal()
            },
            ..Options::minimal()
        },
    )
    .unwrap();
    assert_tokens(
        result,
        "#[allow(non_camel_case_types)]
        pub struct FileContent {
            pub number: i64,
            pub text: std::borrow::Cow<'static, str>,
            pub nested: FileContent__nested,
        }

        #[allow(non_camel_case_types)]
        pub struct FileContent__nested {
            pub text_again: std::borrow::Cow<'static, str>,
        }

        pub const DATA: &[FileContent] = &[
            FileContent {
                number: 100i64,
                text: std::borrow::Cow::Borrowed(\"one hundred\"),
                nested: FileContent__nested {
                    text_again: std::borrow::Cow::Borrowed(\"one hundred\"),
                },
            },
            FileContent {
                number: 200i64,
                text: std::borrow::Cow::Borrowed(\"two hundred\"),
                nested: FileContent__nested {
                    text_again: std::borrow::Cow::Borrowed(\"two hundred\"),
                },
            },
        ];",
    );
}

#[test]
fn gen_from_files_enum_from_filenames_with_consts() {
    let result = define_enum_from_filenames(
        "tests/yamls",
        &yamls(),
        &vec![],
        "FileName",
        &Options {
            files: FilesOptions {
                file_strings_const_name: Some("STRINGS".into()),
                get_string_fn_name: Some("string".into()),
                file_bytes_const_name: Some("BYTES".into()),
                get_bytes_fn_name: Some("bytes".into()),
                ..FilesOptions::default()
            },
            enums: EnumOptions {
                ..EnumOptions::minimal()
            },
            ..Options::new()
        },
    )
    .unwrap();
    assert_tokens(
        result,
        "pub enum FileName {
            FileA,
            FileB,
        }

        impl FileName {
            pub const FILE_PATHS: &'static [&'static str] = &[
                \"tests/yamls/file_a.yaml\",
                \"tests/yamls/file_b.yaml\",
            ];
            pub const fn path(self) -> &'static str {
                Self::FILE_PATHS[self as usize]
            }
            pub const BYTES: &'static [&'static [u8]] = &[
                include_bytes!(\"tests/yamls/file_a.yaml\"),
                include_bytes!(\"tests/yamls/file_b.yaml\"),
            ];
            pub const fn bytes(self) -> &'static [u8] {
                Self::BYTES[self as usize]
            }
            pub const STRINGS: &'static [&'static str] = &[
                include_str!(\"tests/yamls/file_a.yaml\"),
                include_str!(\"tests/yamls/file_b.yaml\"),
            ];
            pub const fn string(self) -> &'static str {
                Self::STRINGS[self as usize]
            }
            pub const SOURCE_PATH: &'static str = \"tests/yamls\";
        }",
    );
}

#[test]
fn gen_enum_from_filenames() {
    let stems = [
        "enums",
        "error",
        "files",
        "files_enum",
        "format",
        "gen",
        "generation",
        "lib",
        "load_fns",
        "options",
        "structs",
        "validation",
        "value",
    ];
    let files: Vec<SourceFile> = stems
        .iter()
        .map(|stem| file(&format!("src/{}.rs", stem), stem))
        .collect();
    let result =
        define_enum_from_filenames("src", &files, &vec![], "FileName", &Options::minimal())
            .unwrap();
    assert_tokens(
        result,
        "pub enum FileName {
            Enums,
            Error,
            Files,
            FilesEnum,
            Format,
            Gen,
            Generation,
            Lib,
            LoadFns,
            Options,
            Structs,
            Validation,
            Value,
        }",
    );
}

#[test]
fn variants_keep_the_order_of_the_files() {
    let files = vec![file("d/zeta.json", "zeta"), file("d/alpha.json", "alpha")];
    let result =
        define_enum_from_filenames("d", &files, &vec![], "Name", &Options::minimal()).unwrap();
    assert_tokens(result, "pub enum Name { Zeta, Alpha, }");
}

#[test]
fn file_without_a_variant_name_is_reported_by_its_path() {
    let no_stem = vec![
        file("d/a.json", "a"),
        SourceFile {
            path: "d/..".into(),
            stem: None,
        },
    ];
    assert_eq!(
        define_enum_from_filenames("d", &no_stem, &vec![], "Name", &Options::minimal()),
        Err(Error::UnsupportedFilePath("d/..".into()))
    );
    let digits = vec![file("d/1st.json", "1st"), file("d/b c.json", "b c")];
    assert_eq!(
        define_enum_from_filenames("d", &digits, &vec![], "Name", &Options::minimal()),
        Err(Error::UnsupportedFilePath("d/1st.json".into()))
    );
    let underscores = vec![file("d/__.json", "__")];
    assert_eq!(
        define_enum_from_filenames("d", &underscores, &vec![], "Name", &Options::minimal()),
        Err(Error::UnsupportedFilePath("d/__.json".into()))
    );
}

#[test]
fn directory_without_files_gives_no_enum() {
    assert_eq!(
        define_enum_from_filenames("d", &vec![], &vec![], "Name", &Options::minimal()),
        Err(Error::ExpectedValuesInMap)
    );
}

#[test]
fn values_are_used_where_there_are_any() {
    let options = Options {
        enums: EnumOptions {
            all_values_const_name: Some("VALUES".into()),
            ..EnumOptions::minimal()
        },
        ..Options::minimal()
    };
    let without = define_enum_from_filenames("tests/yamls", &yamls(), &vec![], "FileName", &options)
        .unwrap();
    assert_tokens(without, "pub enum FileName { FileA, FileB, }");
    let with = define_enum_from_filenames(
        "tests/yamls",
        &yamls(),
        &vec![Value::I64(1), Value::I64(2)],
        "FileName",
        &options,
    )
    .unwrap();
    assert_tokens(
        with,
        "pub enum FileName { FileA, FileB, }
        impl FileName {
            pub const VALUES: &'static [i64] = &[1i64, 2i64,];
        }",
    );
}

#[test]
fn directory_without_files_is_reported_before_any_name() {
    let bad_names = Options {
        files: FilesOptions {
            file_paths_const_name: Some("not a const".into()),
            ..FilesOptions::new()
        },
        ..Options::new()
    };
    assert_eq!(
        define_enum_from_filenames("d", &vec![], &vec![], "not a name", &bad_names),
        Err(Error::ExpectedValuesInMap)
    );
    assert_eq!(
        define_structs_from_file_contents(&vec![], "not a name", &bad_names),
        Err(Error::ExpectedValuesInMap)
    );
}
