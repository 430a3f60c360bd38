//! Which kind of resource a file is, by its extension.

use vstd::prelude::*;

verus! {

/// A kind of resource that can be loaded.
#[derive(Debug, Clone, Copy, PartialEq, Eq, Structural)]
pub enum Resource {
    /// A language file, of extension `fxt`.
    LanguageFile,
    /// A script that runs from the start, of extension `csa`.
    Script,
    /// A script that runs when invoked, of extension `csi`.
    InvokedScript,
}

/// Why a file is no resource.
#[derive(Debug, Clone, Copy, PartialEq, Eq, Structural)]
pub enum LoadError {
    /// The file's name has no extension that is text.
    ExtensionRequired,
    /// The extension is that of no kind of resource.
    UnrecognisedExtension,
}

impl LoadError {
    /// The error in words.
    pub fn message(&self) -> (text: &'static str)
        ensures
            text@ == match self {
                LoadError::ExtensionRequired => "Extension required"@,
                LoadError::UnrecognisedExtension => "Unrecognised extension"@,
            },
    {
        match self {
            LoadError::ExtensionRequired => "Extension required",
            LoadError::UnrecognisedExtension => "Unrecognised extension",
        }
    }
}

/// The lowercase equivalent of a text, by Unicode's property `Lowercase`.
pub uninterp spec fn lowercase_of(text: Seq<char>) -> Seq<char>;

/// What std documents of `str::to_lowercase`: it gives the lowercase
/// equivalent of the text as a new string.
pub assume_specification[ str::to_lowercase ](text: &str) -> (lowered: std::string::String)
    ensures
        lowered@ == lowercase_of(text@),
;

/// The kind of resource that an extension in lower case stands for.
pub open spec fn resource_named(lowered: Seq<char>) -> Result<Resource, LoadError> {
    if lowered == "fxt"@ {
        Ok(Resource::LanguageFile)
    } else if lowered == "csa"@ {
        Ok(Resource::Script)
    } else if lowered == "csi"@ {
        Ok(Resource::InvokedScript)
    } else {
        Err(LoadError::UnrecognisedExtension)
    }
}

/// The kind of resource that an extension in lower case stands for.
pub fn resource_of_lowered(lowered: &String) -> (r: Result<Resource, LoadError>)
    ensures
        r == resource_named(lowered@),
{
    if *lowered == "fxt".to_owned() {
        Ok(Resource::LanguageFile)
    } else if *lowered == "csa".to_owned() {
        Ok(Resource::Script)
    } else if *lowered == "csi".to_owned() {
        Ok(Resource::InvokedScript)
    } else {
        Err(LoadError::UnrecognisedExtension)
    }
}

/// The kind of resource that a file of this extension is, whatever the case
/// of its letters. `None` stands for a file name without an extension.
pub fn resource_of_extension(extension: Option<&str>) -> (r: Result<Resource, LoadError>)
    ensures
        r == match extension {
            Some(text) => resource_named(lowercase_of(text@)),
            None => Err(LoadError::ExtensionRequired),
        },
{
    match extension {
        Some(text) => resource_of_lowered(&text.to_lowercase()),
        None => Err(LoadError::ExtensionRequired),
    }
}

} // verus!
