//! The markup formats, and how the name of a file tells its format.

use vstd::prelude::*;

use crate::error::{Error, Fault};

verus! {

/// A markup format.
#[derive(Debug, Clone, Copy, PartialEq, Eq, Structural)]
pub enum Format {
    Json,
    Toml,
    Yaml,
}

/// The format that an extension names: `json`, `toml`, and `yaml` or
/// `yml`, in exactly this spelling.  Any other extension, and the lack of
/// one, is a fault that carries the extension.
pub open spec fn format_of_extension(extension: Option<Seq<char>>) -> Result<Format, Fault> {
    match extension {
        Some(ext) => if ext == "json"@ {
            Ok(Format::Json)
        } else if ext == "toml"@ {
            Ok(Format::Toml)
        } else if ext == "yaml"@ || ext == "yml"@ {
            Ok(Format::Yaml)
        } else {
            Err(Fault::UnknownInputFormat(Some(ext)))
        },
        None => Err(Fault::UnknownInputFormat(None)),
    }
}

/// The view of a format or an error.
pub open spec fn format_outcome(r: Result<Format, Error>) -> Result<Format, Fault> {
    match r {
        Ok(f) => Ok(f),
        Err(e) => Err(e@),
    }
}

/// The extension of a file name, where it has one.
///
/// Trusted: `std::path::Path::extension`, whose result is handed back as
/// text.  What counts as the file name of a path depends on the platform,
/// so nothing is claimed of the result.
#[verifier::external_body]
fn extension_of(filename: &str) -> (r: Option<String>) {
    std::path::Path::new(filename).extension().map(|ext| ext.to_string_lossy().into_owned())
}

impl Format {
    /// The format that an extension names.
    pub fn from_extension(extension: Option<&str>) -> (r: Result<Format, Error>)
        ensures
            format_outcome(r) == format_of_extension(
                match extension {
                    Some(ext) => Some(ext@),
                    None => None,
                },
            ),
    {
        match extension {
            Some(ext) => {
                let ext = String::from_str(ext);
                if ext == String::from_str("json") {
                    Ok(Format::Json)
                } else if ext == String::from_str("toml") {
                    Ok(Format::Toml)
                } else if ext == String::from_str("yaml") || ext == String::from_str("yml") {
                    Ok(Format::Yaml)
                } else {
                    Err(Error::UnknownInputFormat(Some(ext)))
                }
            },
            None => Err(Error::UnknownInputFormat(None)),
        }
    }

    /// The format of a file, told by the extension of its name: what
    /// [`Format::from_extension`] gives for the extension that the
    /// platform finds in `filename`.
    pub fn from_filename(filename: &str) -> (r: Result<Format, Error>)
        ensures
            exists|extension: Option<Seq<char>>|
                format_outcome(r) == #[trigger] format_of_extension(extension),
    {
        let extension = extension_of(filename);
        match &extension {
            Some(ext) => {
                let r = Format::from_extension(Some(ext.as_str()));
                assert(format_outcome(r) == format_of_extension(Some(ext@)));
                r
            },
            None => {
                let r = Format::from_extension(None);
                assert(format_outcome(r) == format_of_extension(None));
                r
            },
        }
    }
}

} // verus!
