//! What to generate, and under which names.
//!
//! Most types have a constructor `new` with sensible defaults and a
//! constructor `minimal` that asks for as little code as possible.

use vstd::prelude::*;

verus! {

/// The view of an optional text.
pub open spec fn optional_text(o: Option<String>) -> Option<Seq<char>> {
    match o {
        None => None,
        Some(s) => Some(s@),
    }
}

/// The views of a list of texts.
pub open spec fn texts(list: Seq<String>) -> Seq<Seq<char>> {
    Seq::new(list.len(), |i: int| list[i]@)
}

/// Whether generated items derive the traits of `serde`.
#[derive(Debug, Clone, Copy, PartialEq, Eq, Structural)]
pub enum SerdeSupport {
    /// Derive neither.
    No,
    /// Derive `Serialize` and `Deserialize`.
    Yes,
    /// Derive each of the two as asked.
    Mixed { serialize: bool, deserialize: bool },
}

impl SerdeSupport {
    /// Which of `Serialize` and `Deserialize` to derive, in that order;
    /// `None` where neither is.
    pub open spec fn derived(self) -> Option<(bool, bool)> {
        match self {
            SerdeSupport::No => None,
            SerdeSupport::Yes => Some((true, true)),
            SerdeSupport::Mixed { serialize, deserialize } => if serialize || deserialize {
                Some((serialize, deserialize))
            } else {
                None
            },
        }
    }

    /// Which of `Serialize` and `Deserialize` to derive, in that order;
    /// `None` where neither is.
    pub fn should_derive_ser_de(self) -> (r: Option<(bool, bool)>)
        ensures
            r == self.derived(),
    {
        match self {
            SerdeSupport::No => None,
            SerdeSupport::Yes => Some((true, true)),
            SerdeSupport::Mixed { serialize, deserialize } => {
                if !(serialize || deserialize) {
                    None
                } else {
                    Some((serialize, deserialize))
                }
            },
        }
    }
}

impl Default for SerdeSupport {
    fn default() -> (r: SerdeSupport)
        ensures
            r == SerdeSupport::No,
    {
        SerdeSupport::No
    }
}

/// The floating-point type to prefer for a number that fits it.
#[derive(Debug, Clone, Copy, PartialEq, Eq, Structural)]
pub enum FloatSize {
    F32,
    F64,
}

/// The integer type to prefer for a number that fits it.
#[derive(Debug, Clone, Copy, PartialEq, Eq, Structural)]
pub enum IntSize {
    I8,
    I16,
    I32,
    I64,
    I128,
    ISize,
}

/// How numbers and sequences of a document are typed.
#[derive(Debug, Clone, PartialEq, Eq)]
pub struct ParseOptions {
    /// The floating-point type of a number that fits it; a number that
    /// does not fit takes the wider type.
    pub default_float_size: FloatSize,
    /// The integer type of a number that fits it; a number that does not
    /// fit takes the next wider type that holds it.
    pub default_int_size: IntSize,
    /// The greatest length at which a sequence becomes a fixed array; a
    /// longer one becomes a list, and so does every sequence under `None`.
    pub max_array_size: Option<usize>,
}

impl ParseOptions {
    /// 64-bit numbers, and lists for all sequences.
    pub fn new() -> (r: ParseOptions)
        ensures
            r.default_float_size == FloatSize::F64,
            r.default_int_size == IntSize::I64,
            r.max_array_size == None::<usize>,
    {
        ParseOptions {
            default_float_size: FloatSize::F64,
            default_int_size: IntSize::I64,
            max_array_size: None,
        }
    }
}

impl Default for ParseOptions {
    fn default() -> (r: ParseOptions)
        ensures
            r.default_float_size == FloatSize::F64,
            r.default_int_size == IntSize::I64,
            r.max_array_size == None::<usize>,
    {
        ParseOptions::new()
    }
}

/// How the output is written to its file.
#[derive(Debug, Clone, PartialEq, Eq)]
pub struct OutputOptions {
    /// Create the directories of the destination where they are missing.
    pub create_dirs: bool,
    /// Leave a destination alone that already holds the output.
    pub write_only_if_changed: bool,
}

impl OutputOptions {
    /// Both switched on.
    pub fn new() -> (r: OutputOptions)
        ensures
            r.create_dirs,
            r.write_only_if_changed,
    {
        OutputOptions { create_dirs: true, write_only_if_changed: true }
    }
}

impl Default for OutputOptions {
    fn default() -> (r: OutputOptions)
        ensures
            r.create_dirs,
            r.write_only_if_changed,
    {
        OutputOptions::new()
    }
}

/// How structs are generated.
#[derive(Debug, Clone, PartialEq, Eq)]
pub struct StructOptions {
    /// The traits to derive: each a name (`Clone`) or a crate and a name
    /// joined by `::` (`serde::Serialize`).
    pub derived_traits: Vec<String>,
    /// The name of the constant that holds the data; `None` for no
    /// constant.
    pub struct_data_const_name: Option<String>,
}

/// [`StructOptions`] with its texts as sequences of characters.
pub ghost struct StructPlan {
    pub derived_traits: Seq<Seq<char>>,
    pub struct_data_const_name: Option<Seq<char>>,
}

impl StructPlan {
    /// What [`StructOptions::new`] gives.
    pub open spec fn full() -> StructPlan {
        StructPlan { derived_traits: seq!["Debug"@], struct_data_const_name: Some("DATA"@) }
    }

    /// What [`StructOptions::minimal`] gives.
    pub open spec fn least() -> StructPlan {
        StructPlan { derived_traits: Seq::empty(), struct_data_const_name: None }
    }
}

impl View for StructOptions {
    type V = StructPlan;

    open spec fn view(&self) -> StructPlan {
        StructPlan {
            derived_traits: texts(self.derived_traits@),
            struct_data_const_name: optional_text(self.struct_data_const_name),
        }
    }
}

impl StructOptions {
    /// Derive `Debug`, and hold the data in a constant `DATA`.
    pub fn new() -> (r: StructOptions)
        ensures
            r@ == StructPlan::full(),
    {
        let mut derived_traits: Vec<String> = Vec::new();
        derived_traits.push(String::from_str("Debug"));
        let r = StructOptions {
            derived_traits,
            struct_data_const_name: Some(String::from_str("DATA")),
        };
        assert(r@.derived_traits =~= seq!["Debug"@]);
        r
    }

    /// Derive nothing and hold no data.
    pub fn minimal() -> (r: StructOptions)
        ensures
            r@ == StructPlan::least(),
    {
        let r = StructOptions { derived_traits: Vec::new(), struct_data_const_name: None };
        assert(r@.derived_traits =~= Seq::<Seq<char>>::empty());
        r
    }
}

impl Default for StructOptions {
    fn default() -> (r: StructOptions)
        ensures
            r@ == StructPlan::full(),
    {
        StructOptions::new()
    }
}

/// How enums are generated.
#[derive(Debug, Clone, PartialEq, Eq)]
pub struct EnumOptions {
    /// The traits to derive: each a name (`Clone`) or a crate and a name
    /// joined by `::` (`serde::Serialize`).
    pub derived_traits: Vec<String>,
    /// Implement `Default`, with the first variant as the default.
    pub impl_default: bool,
    /// Implement `Display`, which writes the name of the variant.
    pub impl_display: bool,
    /// Implement `FromStr`, which reads the exact name of a variant.
    pub impl_from_str: bool,
    /// The name of the constant that lists all variants; `None` for no
    /// such constant.
    pub all_variants_const_name: Option<String>,
    /// The name of the constant that lists the value of each variant;
    /// `None` for no such constant and no type for the values.
    pub all_values_const_name: Option<String>,
    /// The name of the type of the values; `None` for the name of the enum
    /// followed by `__Value`.
    pub values_struct_name: Option<String>,
    /// How the structs of the values are generated.
    pub values_struct_options: StructOptions,
    /// The name of the function that gives the value of a variant; `None`
    /// for no such function.
    pub get_value_fn_name: Option<String>,
}

/// [`EnumOptions`] with its texts as sequences of characters.
pub ghost struct EnumPlan {
    pub derived_traits: Seq<Seq<char>>,
    pub impl_default: bool,
    pub impl_display: bool,
    pub impl_from_str: bool,
    pub all_variants_const_name: Option<Seq<char>>,
    pub all_values_const_name: Option<Seq<char>>,
    pub values_struct_name: Option<Seq<char>>,
    pub values_struct_options: StructPlan,
    pub get_value_fn_name: Option<Seq<char>>,
}

impl EnumPlan {
    /// What [`EnumOptions::new`] gives.
    pub open spec fn full() -> EnumPlan {
        EnumPlan {
            derived_traits: seq!["Debug"@, "Clone"@, "Copy"@, "PartialEq"@, "Eq"@, "Hash"@],
            impl_default: true,
            impl_display: true,
            impl_from_str: true,
            all_variants_const_name: Some("ALL"@),
            all_values_const_name: Some("VALUES"@),
            values_struct_name: None,
            values_struct_options: StructPlan::full(),
            get_value_fn_name: Some("get"@),
        }
    }

    /// What [`EnumOptions::minimal`] gives.
    pub open spec fn least() -> EnumPlan {
        EnumPlan {
            derived_traits: Seq::empty(),
            impl_default: false,
            impl_display: false,
            impl_from_str: false,
            all_variants_const_name: None,
            all_values_const_name: None,
            values_struct_name: None,
            values_struct_options: StructPlan::least(),
            get_value_fn_name: None,
        }
    }
}

impl View for EnumOptions {
    type V = EnumPlan;

    open spec fn view(&self) -> EnumPlan {
        EnumPlan {
            derived_traits: texts(self.derived_traits@),
            impl_default: self.impl_default,
            impl_display: self.impl_display,
            impl_from_str: self.impl_from_str,
            all_variants_const_name: optional_text(self.all_variants_const_name),
            all_values_const_name: optional_text(self.all_values_const_name),
            values_struct_name: optional_text(self.values_struct_name),
            values_struct_options: self.values_struct_options@,
            get_value_fn_name: optional_text(self.get_value_fn_name),
        }
    }
}

impl EnumOptions {
    /// Derive the usual traits of a plain enum, implement `Default`,
    /// `Display` and `FromStr`, list the variants in `ALL` and the values
    /// in `VALUES`, and give a value through `get`.
    pub fn new() -> (r: EnumOptions)
        ensures
            r@ == EnumPlan::full(),
    {
        let mut derived_traits: Vec<String> = Vec::new();
        derived_traits.push(String::from_str("Debug"));
        derived_traits.push(String::from_str("Clone"));
        derived_traits.push(String::from_str("Copy"));
        derived_traits.push(String::from_str("PartialEq"));
        derived_traits.push(String::from_str("Eq"));
        derived_traits.push(String::from_str("Hash"));
        let r = EnumOptions {
            derived_traits,
            impl_default: true,
            impl_display: true,
            impl_from_str: true,
            all_variants_const_name: Some(String::from_str("ALL")),
            all_values_const_name: Some(String::from_str("VALUES")),
            values_struct_name: None,
            values_struct_options: StructOptions::new(),
            get_value_fn_name: Some(String::from_str("get")),
        };
        assert(r@.derived_traits =~= EnumPlan::full().derived_traits);
        r
    }

    /// The bare enum.
    pub fn minimal() -> (r: EnumOptions)
        ensures
            r@ == EnumPlan::least(),
    {
        let r = EnumOptions {
            derived_traits: Vec::new(),
            impl_default: false,
            impl_display: false,
            impl_from_str: false,
            all_variants_const_name: None,
            all_values_const_name: None,
            values_struct_name: None,
            values_struct_options: StructOptions::minimal(),
            get_value_fn_name: None,
        };
        assert(r@.derived_traits =~= Seq::<Seq<char>>::empty());
        r
    }
}

impl Default for EnumOptions {
    fn default() -> (r: EnumOptions)
        ensures
            r@ == EnumPlan::full(),
    {
        EnumOptions::new()
    }
}

/// What an enum of file names says about its files.  Each name is optional:
/// `None` leaves the item out.  A function is generated only together with
/// its constant.
#[derive(Debug, Clone, PartialEq, Eq)]
pub struct FilesOptions {
    /// The name of the constant that lists the path of each file.
    pub file_paths_const_name: Option<String>,
    /// The name of the function that gives the path of a variant.
    pub get_path_fn_name: Option<String>,
    /// The name of the constant that includes each file as text.
    pub file_strings_const_name: Option<String>,
    /// The name of the function that gives the text of a variant.
    pub get_string_fn_name: Option<String>,
    /// The name of the constant that includes each file as bytes.
    pub file_bytes_const_name: Option<String>,
    /// The name of the function that gives the bytes of a variant.
    pub get_bytes_fn_name: Option<String>,
}

/// [`FilesOptions`] with its texts as sequences of characters.
pub ghost struct FilesPlan {
    pub file_paths_const_name: Option<Seq<char>>,
    pub get_path_fn_name: Option<Seq<char>>,
    pub file_strings_const_name: Option<Seq<char>>,
    pub get_string_fn_name: Option<Seq<char>>,
    pub file_bytes_const_name: Option<Seq<char>>,
    pub get_bytes_fn_name: Option<Seq<char>>,
}

impl FilesPlan {
    /// What [`FilesOptions::new`] gives.
    pub open spec fn full() -> FilesPlan {
        FilesPlan {
            file_paths_const_name: Some("FILE_PATHS"@),
            get_path_fn_name: Some("path"@),
            file_strings_const_name: None,
            get_string_fn_name: None,
            file_bytes_const_name: None,
            get_bytes_fn_name: None,
        }
    }

    /// What [`FilesOptions::minimal`] gives.
    pub open spec fn least() -> FilesPlan {
        FilesPlan {
            file_paths_const_name: None,
            get_path_fn_name: None,
            file_strings_const_name: None,
            get_string_fn_name: None,
            file_bytes_const_name: None,
            get_bytes_fn_name: None,
        }
    }

    /// What [`FilesOptions::file_bytes`] gives.
    pub open spec fn bytes() -> FilesPlan {
        FilesPlan {
            file_paths_const_name: None,
            get_path_fn_name: None,
            file_strings_const_name: None,
            get_string_fn_name: None,
            file_bytes_const_name: Some("FILE_BYTES"@),
            get_bytes_fn_name: Some("bytes"@),
        }
    }

    /// What [`FilesOptions::file_strings`] gives.
    pub open spec fn strings() -> FilesPlan {
        FilesPlan {
            file_paths_const_name: None,
            get_path_fn_name: None,
            file_strings_const_name: Some("FILE_STRINGS"@),
            get_string_fn_name: Some("string"@),
            file_bytes_const_name: None,
            get_bytes_fn_name: None,
        }
    }
}

impl View for FilesOptions {
    type V = FilesPlan;

    open spec fn view(&self) -> FilesPlan {
        FilesPlan {
            file_paths_const_name: optional_text(self.file_paths_const_name),
            get_path_fn_name: optional_text(self.get_path_fn_name),
            file_strings_const_name: optional_text(self.file_strings_const_name),
            get_string_fn_name: optional_text(self.get_string_fn_name),
            file_bytes_const_name: optional_text(self.file_bytes_const_name),
            get_bytes_fn_name: optional_text(self.get_bytes_fn_name),
        }
    }
}

impl FilesOptions {
    /// List the paths in `FILE_PATHS` and give one through `path`.
    pub fn new() -> (r: FilesOptions)
        ensures
            r@ == FilesPlan::full(),
    {
        FilesOptions {
            file_paths_const_name: Some(String::from_str("FILE_PATHS")),
            get_path_fn_name: Some(String::from_str("path")),
            file_strings_const_name: None,
            get_string_fn_name: None,
            file_bytes_const_name: None,
            get_bytes_fn_name: None,
        }
    }

    /// Nothing about the files.
    pub fn minimal() -> (r: FilesOptions)
        ensures
            r@ == FilesPlan::least(),
    {
        FilesOptions {
            file_paths_const_name: None,
            get_path_fn_name: None,
            file_strings_const_name: None,
            get_string_fn_name: None,
            file_bytes_const_name: None,
            get_bytes_fn_name: None,
        }
    }

    /// Include the files as bytes in `FILE_BYTES` and give one through `bytes`.
    pub fn file_bytes() -> (r: FilesOptions)
        ensures
            r@ == FilesPlan::bytes(),
    {
        FilesOptions {
            file_paths_const_name: None,
            get_path_fn_name: None,
            file_strings_const_name: None,
            get_string_fn_name: None,
            file_bytes_const_name: Some(String::from_str("FILE_BYTES")),
            get_bytes_fn_name: Some(String::from_str("bytes")),
        }
    }

    /// Include the files as text in `FILE_STRINGS` and give one through `string`.
    pub fn file_strings() -> (r: FilesOptions)
        ensures
            r@ == FilesPlan::strings(),
    {
        FilesOptions {
            file_paths_const_name: None,
            get_path_fn_name: None,
            file_strings_const_name: Some(String::from_str("FILE_STRINGS")),
            get_string_fn_name: Some(String::from_str("string")),
            file_bytes_const_name: None,
            get_bytes_fn_name: None,
        }
    }
}

impl Default for FilesOptions {
    fn default() -> (r: FilesOptions)
        ensures
            r@ == FilesPlan::full(),
    {
        FilesOptions::new()
    }
}

/// All the options of a generation.
#[derive(Debug, Clone, PartialEq, Eq)]
pub struct Options {
    /// The name of the constant that holds the path of the source file;
    /// `None` for no such constant.
    pub source_path_const_name: Option<String>,
    /// Whether generated items derive the traits of `serde`.
    pub serde_support: SerdeSupport,
    /// How numbers and sequences of a document are typed.
    pub parse: ParseOptions,
    /// How structs are generated.
    pub structs: StructOptions,
    /// How enums are generated.
    pub enums: EnumOptions,
    /// What an enum of file names says about its files.
    pub files: FilesOptions,
    /// How the output is written to its file.
    pub output: OutputOptions,
}

/// [`Options`] with its texts as sequences of characters.
pub ghost struct Plan {
    pub source_path_const_name: Option<Seq<char>>,
    pub serde_support: SerdeSupport,
    pub parse: ParseOptions,
    pub structs: StructPlan,
    pub enums: EnumPlan,
    pub files: FilesPlan,
    pub output: OutputOptions,
}

impl Plan {
    /// What [`Options::new`] gives.
    pub open spec fn full() -> Plan {
        Plan {
            source_path_const_name: Some("SOURCE_PATH"@),
            serde_support: SerdeSupport::No,
            parse: ParseOptions {
                default_float_size: FloatSize::F64,
                default_int_size: IntSize::I64,
                max_array_size: None,
            },
            structs: StructPlan::full(),
            enums: EnumPlan::full(),
            files: FilesPlan::full(),
            output: OutputOptions { create_dirs: true, write_only_if_changed: true },
        }
    }

    /// What [`Options::serde_default`] gives.
    pub open spec fn with_serde() -> Plan {
        Plan { serde_support: SerdeSupport::Yes, ..Plan::full() }
    }

    /// What [`Options::minimal`] gives.
    pub open spec fn least() -> Plan {
        Plan {
            source_path_const_name: None,
            serde_support: SerdeSupport::No,
            parse: ParseOptions {
                default_float_size: FloatSize::F64,
                default_int_size: IntSize::I64,
                max_array_size: None,
            },
            structs: StructPlan::least(),
            enums: EnumPlan::least(),
            files: FilesPlan::least(),
            output: OutputOptions { create_dirs: true, write_only_if_changed: true },
        }
    }
}

impl View for Options {
    type V = Plan;

    open spec fn view(&self) -> Plan {
        Plan {
            source_path_const_name: optional_text(self.source_path_const_name),
            serde_support: self.serde_support,
            parse: self.parse,
            structs: self.structs@,
            enums: self.enums@,
            files: self.files@,
            output: self.output,
        }
    }
}

impl Options {
    /// The defaults of every part, and the path of the source in
    /// `SOURCE_PATH`.
    pub fn new() -> (r: Options)
        ensures
            r@ == Plan::full(),
    {
        Options {
            source_path_const_name: Some(String::from_str("SOURCE_PATH")),
            serde_support: SerdeSupport::No,
            parse: ParseOptions::new(),
            structs: StructOptions::new(),
            enums: EnumOptions::new(),
            files: FilesOptions::new(),
            output: OutputOptions::new(),
        }
    }

    /// As [`Options::new`], and every generated item derives `Serialize`
    /// and `Deserialize`.
    pub fn serde_default() -> (r: Options)
        ensures
            r@ == Plan::with_serde(),
    {
        Options {
            source_path_const_name: Some(String::from_str("SOURCE_PATH")),
            serde_support: SerdeSupport::Yes,
            parse: ParseOptions::new(),
            structs: StructOptions::new(),
            enums: EnumOptions::new(),
            files: FilesOptions::new(),
            output: OutputOptions::new(),
        }
    }

    /// The bare types: no derives, no constants, no implementations.
    pub fn minimal() -> (r: Options)
        ensures
            r@ == Plan::least(),
    {
        Options {
            source_path_const_name: None,
            serde_support: SerdeSupport::No,
            parse: ParseOptions::new(),
            structs: StructOptions::minimal(),
            enums: EnumOptions::minimal(),
            files: FilesOptions::minimal(),
            output: OutputOptions::new(),
        }
    }
}

impl Default for Options {
    fn default() -> (r: Options)
        ensures
            r@ == Plan::full(),
    {
        Options::new()
    }
}

} // verus!
