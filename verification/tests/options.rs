use edres::files::should_write;
use edres::format::Format;
use edres::error::Error;
use edres::options::{
    EnumOptions, FilesOptions, FloatSize, IntSize, Options, OutputOptions, ParseOptions,
    SerdeSupport, StructOptions,
};

fn strings(items: &[&str]) -> Vec<String> {
    items.iter().map(|s| s.to_string()).collect()
}

#[test]
fn options_new() {
    assert_eq!(
        Options::new(),
        Options {
            source_path_const_name: Some("SOURCE_PATH".into()),
            serde_support: SerdeSupport::No,
            parse: ParseOptions::new(),
            structs: StructOptions::new(),
            enums: EnumOptions::new(),
            files: FilesOptions::new(),
            output: OutputOptions::new(),
        }
    );
    assert_eq!(Options::default(), Options::new());
}

#[test]
fn options_serde_default() {
    assert_eq!(
        Options::serde_default(),
        Options {
            source_path_const_name: Some("SOURCE_PATH".into()),
            serde_support: SerdeSupport::Yes,
            parse: ParseOptions::new(),
            structs: StructOptions::new(),
            enums: EnumOptions::new(),
            files: FilesOptions::new(),
            output: OutputOptions::new(),
        }
    );
}

#[test]
fn options_minimal() {
    assert_eq!(
        Options::minimal(),
        Options {
            source_path_const_name: None,
            serde_support: SerdeSupport::No,
            parse: ParseOptions::new(),
            structs: StructOptions::minimal(),
            enums: EnumOptions::minimal(),
            files: FilesOptions::minimal(),
            output: OutputOptions::new(),
        }
    );
}

#[test]
fn parse_options_new() {
    assert_eq!(
        ParseOptions::new(),
        ParseOptions {
            default_float_size: FloatSize::F64,
            default_int_size: IntSize::I64,
            max_array_size: None,
        }
    );
    assert_eq!(ParseOptions::default(), ParseOptions::new());
}

#[test]
fn struct_options_new_and_minimal() {
    assert_eq!(
        StructOptions::new(),
        StructOptions {
            derived_traits: strings(&["Debug"]),
            struct_data_const_name: Some("DATA".into()),
        }
    );
    assert_eq!(
        StructOptions::minimal(),
        StructOptions {
            derived_traits: vec![],
            struct_data_const_name: None,
        }
    );
    assert_eq!(StructOptions::default(), StructOptions::new());
}

#[test]
fn enum_options_new_and_minimal() {
    assert_eq!(
        EnumOptions::new(),
        EnumOptions {
            derived_traits: strings(&["Debug", "Clone", "Copy", "PartialEq", "Eq", "Hash"]),
            impl_default: true,
            impl_display: true,
            impl_from_str: true,
            all_variants_const_name: Some("ALL".into()),
            all_values_const_name: Some("VALUES".into()),
            values_struct_name: None,
            values_struct_options: StructOptions::new(),
            get_value_fn_name: Some("get".into()),
        }
    );
    assert_eq!(
        EnumOptions::minimal(),
        EnumOptions {
            derived_traits: vec![],
            impl_default: false,
            impl_display: false,
            impl_from_str: false,
            all_variants_const_name: None,
            all_values_const_name: None,
            values_struct_name: None,
            values_struct_options: StructOptions::minimal(),
            get_value_fn_name: None,
        }
    );
    assert_eq!(EnumOptions::default(), EnumOptions::new());
}

#[test]
fn files_options_constructors() {
    assert_eq!(
        FilesOptions::new(),
        FilesOptions {
            file_paths_const_name: Some("FILE_PATHS".into()),
            get_path_fn_name: Some("path".into()),
            file_strings_const_name: None,
            get_string_fn_name: None,
            file_bytes_const_name: None,
            get_bytes_fn_name: None,
        }
    );
    assert_eq!(
        FilesOptions::minimal(),
        FilesOptions {
            file_paths_const_name: None,
            get_path_fn_name: None,
            file_strings_const_name: None,
            get_string_fn_name: None,
            file_bytes_const_name: None,
            get_bytes_fn_name: None,
        }
    );
    assert_eq!(
        FilesOptions::file_bytes(),
        FilesOptions {
            file_paths_const_name: None,
            get_path_fn_name: None,
            file_strings_const_name: None,
            get_string_fn_name: None,
            file_bytes_const_name: Some("FILE_BYTES".into()),
            get_bytes_fn_name: Some("bytes".into()),
        }
    );
    assert_eq!(
        FilesOptions::file_strings(),
        FilesOptions {
            file_paths_const_name: None,
            get_path_fn_name: None,
            file_strings_const_name: Some("FILE_STRINGS".into()),
            get_string_fn_name: Some("string".into()),
            file_bytes_const_name: None,
            get_bytes_fn_name: None,
        }
    );
    assert_eq!(FilesOptions::default(), FilesOptions::new());
}

#[test]
fn output_options_new() {
    assert_eq!(
        OutputOptions::new(),
        OutputOptions {
            create_dirs: true,
            write_only_if_changed: true,
        }
    );
    assert_eq!(OutputOptions::default(), OutputOptions::new());
}

#[test]
fn serde_support_says_what_to_derive() {
    assert_eq!(SerdeSupport::default(), SerdeSupport::No);
    assert_eq!(SerdeSupport::No.should_derive_ser_de(), None);
    assert_eq!(SerdeSupport::Yes.should_derive_ser_de(), Some((true, true)));
    assert_eq!(
        SerdeSupport::Mixed {
            serialize: false,
            deserialize: false
        }
        .should_derive_ser_de(),
        None
    );
    assert_eq!(
        SerdeSupport::Mixed {
            serialize: true,
            deserialize: false
        }
        .should_derive_ser_de(),
        Some((true, false))
    );
    assert_eq!(
        SerdeSupport::Mixed {
            serialize: false,
            deserialize: true
        }
        .should_derive_ser_de(),
        Some((false, true))
    );
}

#[test]
fn format_from_filename() {
    assert_eq!(Format::from_filename("file.yml").unwrap(), Format::Yaml);
    assert_eq!(Format::from_filename("file.yaml").unwrap(), Format::Yaml);
    assert_eq!(Format::from_filename("dir/file.json").unwrap(), Format::Json);
    assert_eq!(Format::from_filename("a.b.toml").unwrap(), Format::Toml);
    assert_eq!(
        Format::from_filename("file.txt"),
        Err(Error::UnknownInputFormat(Some("txt".into())))
    );
    assert_eq!(
        Format::from_filename("file.JSON"),
        Err(Error::UnknownInputFormat(Some("JSON".into())))
    );
    assert_eq!(
        Format::from_filename("file"),
        Err(Error::UnknownInputFormat(None))
    );
    assert_eq!(
        Format::from_filename(".json"),
        Err(Error::UnknownInputFormat(None))
    );
}

#[test]
fn format_from_extension() {
    assert_eq!(Format::from_extension(Some("json")), Ok(Format::Json));
    assert_eq!(Format::from_extension(Some("toml")), Ok(Format::Toml));
    assert_eq!(Format::from_extension(Some("yaml")), Ok(Format::Yaml));
    assert_eq!(Format::from_extension(Some("yml")), Ok(Format::Yaml));
    assert_eq!(
        Format::from_extension(Some("")),
        Err(Error::UnknownInputFormat(Some("".into())))
    );
    assert_eq!(
        Format::from_extension(None),
        Err(Error::UnknownInputFormat(None))
    );
}

#[test]
fn output_is_written_unless_unchanged() {
    assert!(should_write(None, "a", true));
    assert!(should_write(None, "a", false));
    assert!(should_write(Some("b"), "a", true));
    assert!(should_write(Some("a"), "a", false));
    assert!(!should_write(Some("a"), "a", true));
    assert!(!should_write(Some(""), "", true));
}
