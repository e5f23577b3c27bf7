//! The page entity as the section model sees it: its file path anchors it
//! under a section, and its title and permalink are the data a template
//! reads. Everything else about a page belongs to the page's own pipeline.

use vstd::prelude::*;
use crate::front_matter::{opt_view, clone_opt};

verus! {

/// A content page owned directly by a section.
#[derive(Clone, Debug, PartialEq)]
pub struct Page {
    /// Where the page's source file lives. Internal bookkeeping: never
    /// exposed to templates.
    pub file_path: String,
    /// The page's title, when its own metadata gave one.
    pub title: Option<String>,
    /// The page's absolute URL.
    pub permalink: String,
}

/// The narrow, template-facing representation of a page.
#[derive(Clone, Debug, PartialEq)]
pub struct SerializedPage {
    pub title: Option<String>,
    pub permalink: String,
}

/// The serialized view carries exactly the page's title and permalink.
pub open spec fn page_serialized(p: Page, v: SerializedPage) -> bool {
    &&& opt_view(v.title) == opt_view(p.title)
    &&& v.permalink@ == p.permalink@
}

impl Page {
    /// The template-facing view of this page: title and permalink only.
    pub fn serialized(&self) -> (v: SerializedPage)
        ensures
            page_serialized(*self, v),
    {
        SerializedPage { title: clone_opt(&self.title), permalink: self.permalink.clone() }
    }
}

} // verus!
