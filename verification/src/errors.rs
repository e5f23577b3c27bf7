//! Failure kinds of the content core. Every failure is tagged with the path
//! of the originating file, so a caller can always report which file failed
//! and at which stage.

use vstd::prelude::*;
use vstd::string::*;

verus! {

/// Why a document could not be processed.
#[derive(Clone, Debug, PartialEq)]
pub enum SectionError {
    /// The metadata block at the top of the file was malformed.
    FrontMatterParse { path: String, cause: String },
    /// The file could not be read.
    FileRead { path: String, cause: String },
    /// The template engine failed to render the section.
    TemplateRender { path: String, cause: String },
}

impl SectionError {
    /// The path of the file the failure is tagged with.
    pub open spec fn spec_path(self) -> Seq<char> {
        match self {
            SectionError::FrontMatterParse { path, cause } => path@,
            SectionError::FileRead { path, cause } => path@,
            SectionError::TemplateRender { path, cause } => path@,
        }
    }

    /// The human-readable cause carried by the failure.
    pub open spec fn spec_cause(self) -> Seq<char> {
        match self {
            SectionError::FrontMatterParse { path, cause } => cause@,
            SectionError::FileRead { path, cause } => cause@,
            SectionError::TemplateRender { path, cause } => cause@,
        }
    }

    /// The full description: the stage, the file, and the cause.
    pub open spec fn spec_describe(self) -> Seq<char> {
        match self {
            SectionError::FrontMatterParse { path, cause } => "failed to parse front matter of '"@
                + path@ + "': "@ + cause@,
            SectionError::FileRead { path, cause } => "failed to read '"@ + path@ + "': "@
                + cause@,
            SectionError::TemplateRender { path, cause } => "failed to render section '"@ + path@
                + "': "@ + cause@,
        }
    }

    /// Renders the failure as one line of text naming the stage, the file
    /// and the cause.
    pub fn describe(&self) -> (r: String)
        ensures
            r@ == self.spec_describe(),
    {
        match self {
            SectionError::FrontMatterParse { path, cause } => {
                let mut r: String = "failed to parse front matter of '".to_owned();
                r.append(path.as_str());
                r.append("': ");
                r.append(cause.as_str());
                r
            },
            SectionError::FileRead { path, cause } => {
                let mut r: String = "failed to read '".to_owned();
                r.append(path.as_str());
                r.append("': ");
                r.append(cause.as_str());
                r
            },
            SectionError::TemplateRender { path, cause } => {
                let mut r: String = "failed to render section '".to_owned();
                r.append(path.as_str());
                r.append("': ");
                r.append(cause.as_str());
                r
            },
        }
    }
}

} // verus!
