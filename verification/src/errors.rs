//! The error taxonomy of the tool. Every failure of the core is one of these
//! variants; each renders as a single human-readable line via [`TemplateError::message`].

use vstd::prelude::*;

verus! {

/// One terminal failure of a run. None of these is retried internally.
#[derive(Debug, PartialEq, Eq)]
pub enum TemplateError {
    /// The external clone capability reported failure; carries its diagnostic text verbatim.
    GitCloneError(String),
    /// The requested template subtree does not exist.
    InvalidTemplate(String),
    /// A destination directory could not be created.
    TargetError(String),
    /// A file copy failed.
    CopyError(String),
    /// An input/output failure outside the more specific cases.
    IoError(String),
    /// The acquired workspace holds no qualifying template subtree.
    TemplateNotFound,
    /// No repository URL was supplied and none is cached.
    MissingRepoUrl,
    /// The destination path could not be used.
    InvalidTargetPath,
    /// The per-user home directory could not be determined.
    HomeDirNotFound,
    /// The per-user configuration directory could not be created.
    ConfigDirCreationFailed(String),
    /// The catalog document is not valid JSON of the expected shape.
    InvalidJsonFormat(String),
    /// The catalog source is neither a recognized URL nor the local default.
    InvalidSourceUrl(String),
}

/// The single human-readable line that a failure renders as.
pub open spec fn spec_message(e: TemplateError) -> Seq<char> {
    match e {
        TemplateError::GitCloneError(d) => "Git clone error: "@ + d@,
        TemplateError::InvalidTemplate(d) => "Template directory not found: "@ + d@,
        TemplateError::TargetError(d) => "Target directory creation failed: "@ + d@,
        TemplateError::CopyError(d) => "Copying error: "@ + d@,
        TemplateError::IoError(d) => "I/O error: "@ + d@,
        TemplateError::TemplateNotFound => "Template directory not found on remote"@,
        TemplateError::MissingRepoUrl => "No repository URL provided and no cache found."@,
        TemplateError::InvalidTargetPath => "Invalid target path"@,
        TemplateError::HomeDirNotFound => "Home directory not found"@,
        TemplateError::ConfigDirCreationFailed(d) => "Failed to create configuration directory: "@
            + d@,
        TemplateError::InvalidJsonFormat(d) => "Invalid JSON format: "@ + d@,
        TemplateError::InvalidSourceUrl(d) => "Invalid source URL: "@ + d@,
    }
}

impl TemplateError {
    /// Renders the failure as its single diagnostic line.
    pub fn message(&self) -> (r: String)
        ensures
            r@ == spec_message(*self),
    {
        match self {
            TemplateError::GitCloneError(d) => String::from_str("Git clone error: ").concat(
                d.as_str(),
            ),
            TemplateError::InvalidTemplate(d) => String::from_str(
                "Template directory not found: ",
            ).concat(d.as_str()),
            TemplateError::TargetError(d) => String::from_str(
                "Target directory creation failed: ",
            ).concat(d.as_str()),
            TemplateError::CopyError(d) => String::from_str("Copying error: ").concat(d.as_str()),
            TemplateError::IoError(d) => String::from_str("I/O error: ").concat(d.as_str()),
            TemplateError::TemplateNotFound => String::from_str(
                "Template directory not found on remote",
            ),
            TemplateError::MissingRepoUrl => String::from_str(
                "No repository URL provided and no cache found.",
            ),
            TemplateError::InvalidTargetPath => String::from_str("Invalid target path"),
            TemplateError::HomeDirNotFound => String::from_str("Home directory not found"),
            TemplateError::ConfigDirCreationFailed(d) => String::from_str(
                "Failed to create configuration directory: ",
            ).concat(d.as_str()),
            TemplateError::InvalidJsonFormat(d) => String::from_str(
                "Invalid JSON format: ",
            ).concat(d.as_str()),
            TemplateError::InvalidSourceUrl(d) => String::from_str(
                "Invalid source URL: ",
            ).concat(d.as_str()),
        }
    }
}

} // verus!
