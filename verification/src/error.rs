//! The errors of the library.

use vstd::prelude::*;

use crate::text::{append_string_literal, string_literal};

verus! {

/// A name in the options that cannot be written as an identifier.
#[derive(Clone, Debug, PartialEq, Eq)]
pub enum OptionsError {
    /// The name asked for a struct or an enum is no identifier.
    InvalidStructName(String),
    /// The name asked for a constant is no identifier.
    InvalidConstName(String),
    /// The name asked for an accessor function is no identifier.
    InvalidFunctionName(String),
    /// An entry of a derive list is neither an identifier nor two
    /// identifiers joined by `::`.
    InvalidTraitName(String),
}

/// A name met in the data that cannot be written as an identifier, or an
/// option that cannot.
#[derive(Clone, Debug, PartialEq, Eq)]
pub enum GenerationError {
    /// A key of a record is no identifier.
    InvalidFieldName(String),
    /// A key that was to name an enum variant is no identifier.
    InvalidVariantName(String),
    /// A name in the options is no identifier.
    StructOptions(OptionsError),
}

/// Why a generation was abandoned.
#[derive(Clone, Debug, PartialEq, Eq)]
pub enum Error {
    /// A number of the document fits none of the supported types.
    ErrorParsingNumber,
    /// A key of a mapping is no string.
    ExpectedStringKey,
    /// A record was needed; the text names what was found instead.
    ExpectedStruct(&'static str),
    /// A mapping or a directory without entries gives nothing to infer from.
    ExpectedValuesInMap,
    /// The extension of a file name, if it has one, names no known format.
    UnknownInputFormat(Option<String>),
    /// No variant name can be made from this path.
    UnsupportedFilePath(String),
    /// A name cannot be written as an identifier.
    Generation(GenerationError),
}

/// An [`OptionsError`] with its text as a sequence of characters.
pub ghost enum OptionsFault {
    InvalidStructName(Seq<char>),
    InvalidConstName(Seq<char>),
    InvalidFunctionName(Seq<char>),
    InvalidTraitName(Seq<char>),
}

/// A [`GenerationError`] with its text as a sequence of characters.
pub ghost enum GenerationFault {
    InvalidFieldName(Seq<char>),
    InvalidVariantName(Seq<char>),
    StructOptions(OptionsFault),
}

/// An [`Error`] with its text as a sequence of characters.
pub ghost enum Fault {
    ErrorParsingNumber,
    ExpectedStringKey,
    ExpectedStruct(Seq<char>),
    ExpectedValuesInMap,
    UnknownInputFormat(Option<Seq<char>>),
    UnsupportedFilePath(Seq<char>),
    Generation(GenerationFault),
}

impl View for OptionsError {
    type V = OptionsFault;

    open spec fn view(&self) -> OptionsFault {
        match self {
            OptionsError::InvalidStructName(s) => OptionsFault::InvalidStructName(s@),
            OptionsError::InvalidConstName(s) => OptionsFault::InvalidConstName(s@),
            OptionsError::InvalidFunctionName(s) => OptionsFault::InvalidFunctionName(s@),
            OptionsError::InvalidTraitName(s) => OptionsFault::InvalidTraitName(s@),
        }
    }
}

impl View for GenerationError {
    type V = GenerationFault;

    open spec fn view(&self) -> GenerationFault {
        match self {
            GenerationError::InvalidFieldName(s) => GenerationFault::InvalidFieldName(s@),
            GenerationError::InvalidVariantName(s) => GenerationFault::InvalidVariantName(s@),
            GenerationError::StructOptions(e) => GenerationFault::StructOptions(e@),
        }
    }
}

impl View for Error {
    type V = Fault;

    open spec fn view(&self) -> Fault {
        match self {
            Error::ErrorParsingNumber => Fault::ErrorParsingNumber,
            Error::ExpectedStringKey => Fault::ExpectedStringKey,
            Error::ExpectedStruct(tag) => Fault::ExpectedStruct(tag@),
            Error::ExpectedValuesInMap => Fault::ExpectedValuesInMap,
            Error::UnknownInputFormat(None) => Fault::UnknownInputFormat(None),
            Error::UnknownInputFormat(Some(ext)) => Fault::UnknownInputFormat(Some(ext@)),
            Error::UnsupportedFilePath(path) => Fault::UnsupportedFilePath(path@),
            Error::Generation(e) => Fault::Generation(e@),
        }
    }
}

/// What is said of a name in the options that is no identifier.
pub open spec fn options_message(fault: OptionsFault) -> Seq<char> {
    match fault {
        OptionsFault::InvalidStructName(name) => "Invalid name for a struct: `"@ + name + "`."@,
        OptionsFault::InvalidConstName(name) => "Invalid name for a const: `"@ + name + "`."@,
        OptionsFault::InvalidFunctionName(name) => "Invalid name for a function: `"@ + name
            + "`."@,
        OptionsFault::InvalidTraitName(name) => "Invalid name for a trait: `"@ + name + "`."@,
    }
}

/// What is said of a name that is no identifier.
pub open spec fn generation_message(fault: GenerationFault) -> Seq<char> {
    match fault {
        GenerationFault::InvalidFieldName(name) => "Invalid field name: `"@ + name + "`."@,
        GenerationFault::InvalidVariantName(name) => "Invalid variant name: `"@ + name + "`."@,
        GenerationFault::StructOptions(fault) => options_message(fault),
    }
}

/// What is said of a fault.  The text names what was found at fault: the
/// kind of value, the extension (as an optional string literal), the path
/// or the name.
pub open spec fn message(fault: Fault) -> Seq<char> {
    match fault {
        Fault::ErrorParsingNumber => "Error parsing number"@,
        Fault::ExpectedStringKey => "Expected a string key in mapping"@,
        Fault::ExpectedStruct(tag) => "Expected value to be a struct but found `"@ + tag
            + "` instead"@,
        Fault::ExpectedValuesInMap => "Expected values in map, but it was empty"@,
        Fault::UnknownInputFormat(None) => "Provided file extension None not recognized"@,
        Fault::UnknownInputFormat(Some(ext)) => "Provided file extension Some("@
            + string_literal(ext) + ") not recognized"@,
        Fault::UnsupportedFilePath(path) => "Unsupported file path `"@ + path + "`"@,
        Fault::Generation(fault) => generation_message(fault),
    }
}

/// Three pieces of text in a row.
fn framed(before: &str, name: &str, after: &str) -> (r: String)
    ensures
        r@ == before@ + name@ + after@,
{
    let mut r = String::from_str(before);
    r.append(name);
    r.append(after);
    r
}

impl OptionsError {
    /// What is said of the error.
    pub fn to_string(&self) -> (r: String)
        ensures
            r@ == options_message(self@),
    {
        match self {
            OptionsError::InvalidStructName(name) => framed(
                "Invalid name for a struct: `",
                name.as_str(),
                "`.",
            ),
            OptionsError::InvalidConstName(name) => framed(
                "Invalid name for a const: `",
                name.as_str(),
                "`.",
            ),
            OptionsError::InvalidFunctionName(name) => framed(
                "Invalid name for a function: `",
                name.as_str(),
                "`.",
            ),
            OptionsError::InvalidTraitName(name) => framed(
                "Invalid name for a trait: `",
                name.as_str(),
                "`.",
            ),
        }
    }
}

impl GenerationError {
    /// What is said of the error.
    pub fn to_string(&self) -> (r: String)
        ensures
            r@ == generation_message(self@),
    {
        match self {
            GenerationError::InvalidFieldName(name) => framed(
                "Invalid field name: `",
                name.as_str(),
                "`.",
            ),
            GenerationError::InvalidVariantName(name) => framed(
                "Invalid variant name: `",
                name.as_str(),
                "`.",
            ),
            GenerationError::StructOptions(e) => e.to_string(),
        }
    }
}

impl Error {
    /// What is said of the error.
    pub fn to_string(&self) -> (r: String)
        ensures
            r@ == message(self@),
    {
        match self {
            Error::ErrorParsingNumber => String::from_str("Error parsing number"),
            Error::ExpectedStringKey => String::from_str("Expected a string key in mapping"),
            Error::ExpectedStruct(tag) => framed(
                "Expected value to be a struct but found `",
                tag,
                "` instead",
            ),
            Error::ExpectedValuesInMap => String::from_str(
                "Expected values in map, but it was empty",
            ),
            Error::UnknownInputFormat(None) => String::from_str(
                "Provided file extension None not recognized",
            ),
            Error::UnknownInputFormat(Some(ext)) => {
                let mut r = String::from_str("Provided file extension Some(");
                append_string_literal(&mut r, ext.as_str());
                r.append(") not recognized");
                r
            },
            Error::UnsupportedFilePath(path) => framed(
                "Unsupported file path `",
                path.as_str(),
                "`",
            ),
            Error::Generation(e) => e.to_string(),
        }
    }
}

} // verus!
