//! The languages the explorer knows, and how a path tells which one a file is in.

use crate::strings::same_text;
use std::path::Path;
use vstd::prelude::*;

verus! {

/// A language that the explorer can show the syntax of.
#[derive(Clone, Copy, Debug, PartialEq, Eq, Structural)]
pub enum SourceLanguage {
    Go,
    Java,
    JavaScript,
    Json,
    Just,
    Rust,
    Tsx,
    TypeScript,
}

/// Why no language was found for a path.
#[derive(Clone, Copy, Debug, PartialEq, Eq, Structural)]
pub enum DetectionError {
    /// Neither the extension nor the file name of the path is known.
    Undetected,
}

impl DetectionError {
    /// The error in words.
    pub fn message(&self) -> (text: &'static str)
        ensures
            text@ == "Failed to detect language for path"@,
    {
        "Failed to detect language for path"
    }
}

/// What `str::to_lowercase` of the standard library makes of a text.
pub uninterp spec fn lowercase(text: Seq<char>) -> Seq<char>;

/// What `Path::extension` of the standard library finds in a path, on the platform that
/// the library is built for: what separates the parts of a path differs between
/// platforms.
pub uninterp spec fn path_extension(path: Seq<char>) -> Option<Seq<char>>;

/// What `Path::file_name` of the standard library finds in a path, on the platform that
/// the library is built for.
pub uninterp spec fn path_file_name(path: Seq<char>) -> Option<Seq<char>>;

/// `text` is made of the letters `a` to `z` alone.
pub open spec fn is_lower_ascii(text: Seq<char>) -> bool {
    forall|i: int| 0 <= i < text.len() ==> 'a' <= #[trigger] text[i] <= 'z'
}

/// Lower case leaves `text` as it is, if `text` is made of the letters `a` to `z` alone.
pub open spec fn lower_case_keeps(text: Seq<char>) -> bool {
    is_lower_ascii(text) ==> lowercase(text) == text
}

/// `str::to_lowercase`. The result depends on the text alone; the contract gives it its
/// name, and says of it that a text of lower-case letters of the ASCII alphabet is its
/// own lower-case equivalent.
#[verifier::external_body]
fn to_lowercase(text: &str) -> (lower: String)
    ensures
        lower@ == lowercase(text@),
        is_lower_ascii(text@) ==> lower@ == text@,
{
    text.to_lowercase()
}

/// `Path::extension` on a path given as text. The result depends on the path alone; the
/// contract gives it its name and claims nothing more of it.
#[verifier::external_body]
fn extension_of(path: &str) -> (extension: Option<String>)
    ensures
        match extension {
            Some(text) => path_extension(path@) == Some(text@),
            None => path_extension(path@) is None,
        },
{
    Some(Path::new(path).extension()?.to_str()?.to_owned())
}

/// `Path::file_name` on a path given as text. The result depends on the path alone; the
/// contract gives it its name and claims nothing more of it.
#[verifier::external_body]
fn file_name_of(path: &str) -> (name: Option<String>)
    ensures
        match name {
            Some(text) => path_file_name(path@) == Some(text@),
            None => path_file_name(path@) is None,
        },
{
    Some(Path::new(path).file_name()?.to_str()?.to_owned())
}

/// The language of an extension in lower case.
pub open spec fn language_of_extension(extension: Seq<char>) -> Option<SourceLanguage> {
    if extension == "go"@ {
        Some(SourceLanguage::Go)
    } else if extension == "java"@ {
        Some(SourceLanguage::Java)
    } else if extension == "js"@ {
        Some(SourceLanguage::JavaScript)
    } else if extension == "json"@ {
        Some(SourceLanguage::Json)
    } else if extension == "just"@ {
        Some(SourceLanguage::Just)
    } else if extension == "rs"@ {
        Some(SourceLanguage::Rust)
    } else if extension == "ts"@ {
        Some(SourceLanguage::TypeScript)
    } else if extension == "tsx"@ {
        Some(SourceLanguage::Tsx)
    } else {
        None
    }
}

/// The language of a file with the given extension and name: that of the extension,
/// whatever its case, where it is known; else that of the file name, where it is known.
pub open spec fn detected(extension: Option<Seq<char>>, file_name: Option<Seq<char>>) -> Option<
    SourceLanguage,
> {
    let by_extension = match extension {
        Some(text) => language_of_extension(lowercase(text)),
        None => None,
    };
    if by_extension is Some {
        by_extension
    } else if file_name == Some("justfile"@) {
        Some(SourceLanguage::Just)
    } else {
        None
    }
}

/// The outcome of the detection as a result.
pub open spec fn detection(found: Option<SourceLanguage>) -> Result<SourceLanguage, DetectionError> {
    match found {
        Some(language) => Ok(language),
        None => Err(DetectionError::Undetected),
    }
}

impl SourceLanguage {
    /// The language of an extension that is already in lower case.
    pub fn from_extension(extension: &str) -> (language: Option<SourceLanguage>)
        ensures
            language == language_of_extension(extension@),
    {
        if same_text(extension, "go") {
            Some(SourceLanguage::Go)
        } else if same_text(extension, "java") {
            Some(SourceLanguage::Java)
        } else if same_text(extension, "js") {
            Some(SourceLanguage::JavaScript)
        } else if same_text(extension, "json") {
            Some(SourceLanguage::Json)
        } else if same_text(extension, "just") {
            Some(SourceLanguage::Just)
        } else if same_text(extension, "rs") {
            Some(SourceLanguage::Rust)
        } else if same_text(extension, "ts") {
            Some(SourceLanguage::TypeScript)
        } else if same_text(extension, "tsx") {
            Some(SourceLanguage::Tsx)
        } else {
            None
        }
    }

    /// The language of a file, from the extension and the file name of its path.
    pub fn detect(extension: Option<&str>, file_name: Option<&str>) -> (language: Result<
        SourceLanguage,
        DetectionError,
    >)
        ensures
            language == detection(
                detected(
                    match extension {
                        Some(text) => Some(text@),
                        None => None,
                    },
                    match file_name {
                        Some(text) => Some(text@),
                        None => None,
                    },
                ),
            ),
            extension matches Some(text) ==> lower_case_keeps(text@),
    {
        match extension {
            Some(text) => {
                let lower = to_lowercase(text);
                match Self::from_extension(lower.as_str()) {
                    Some(language) => {
                        return Ok(language);
                    },
                    None => {},
                }
            },
            None => {},
        }
        match file_name {
            Some(name) => {
                if same_text(name, "justfile") {
                    return Ok(SourceLanguage::Just);
                }
            },
            None => {},
        }
        Err(DetectionError::Undetected)
    }

    /// The language of the file at `path`.
    pub fn try_from(path: &str) -> (language: Result<SourceLanguage, DetectionError>)
        ensures
            language == detection(detected(path_extension(path@), path_file_name(path@))),
            path_extension(path@) matches Some(text) ==> lower_case_keeps(text),
    {
        let extension = extension_of(path);
        let file_name = file_name_of(path);
        Self::detect(
            match &extension {
                Some(text) => Some(text.as_str()),
                None => None,
            },
            match &file_name {
                Some(text) => Some(text.as_str()),
                None => None,
            },
        )
    }
}

} // verus!
