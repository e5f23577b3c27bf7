//! The section entity: one addressable index document for a directory of
//! content, its identity derived purely from its file path and the site
//! configuration, the pages and subsections it owns, and its
//! template-facing serialized view.

use vstd::prelude::*;
use vstd::string::*;
use crate::config::{Config, spec_make_permalink};
use crate::errors::SectionError;
use crate::front_matter::{FrontMatter, opt_view, clone_opt, split_content, spec_split_content};
use crate::page::{Page, SerializedPage, page_serialized};
use crate::paths::{
    spec_split,
    spec_join,
    spec_parent,
    spec_components,
    spec_path_components,
    contains_root,
    root_segment,
    no_sep,
    find_content_components,
    parent_of,
    join_with,
    lemma_path_components_roundtrip,
    lemma_components_empty_iff_root_index,
};

verus! {

broadcast use vstd::std_specs::vec::group_vec_axioms;

/// One section of the content tree: the model of a directory's index
/// document plus its directly-owned pages and subsections. A section never
/// refers to its parent; navigation is top-down only.
#[derive(Debug, PartialEq)]
pub struct Section {
    /// The full path of the underlying index document. Identity anchor.
    pub file_path: String,
    /// The index document's path relative to the content root, with `/`
    /// separators: `_index.md` for the root section.
    pub relative_path: String,
    /// The directory holding the index document; derived from `file_path`.
    pub parent_path: String,
    /// The folder names from the content root down to the index document.
    pub components: Vec<String>,
    /// The logical URL path: the components joined by `/`.
    pub path: String,
    /// The absolute URL, built by the configuration from `path`.
    pub permalink: String,
    /// The front-matter metadata of the index document.
    pub meta: FrontMatter,
    /// All direct pages that sorted successfully under this section.
    pub pages: Vec<Page>,
    /// All direct pages excluded from `pages` by the upstream sorting rules.
    pub ignored_pages: Vec<Page>,
    /// All direct subsections, each exclusively owned by this section.
    pub subsections: Vec<Section>,
}

/// The relative path dictated by the components: `_index.md` for the root
/// section, and the joined components above it otherwise.
pub open spec fn spec_relative_path(components: Seq<Seq<char>>) -> Seq<char> {
    if components.len() == 0 {
        "_index.md"@
    } else {
        spec_join(components, '/') + "/_index.md"@
    }
}

/// The template that governs a section's rendering: an explicit name from
/// the metadata wins; otherwise the root section takes the root-index
/// default and every other section the section default.
pub open spec fn spec_template_name(template: Option<Seq<char>>, is_index: bool) -> Seq<char> {
    match template {
        Some(t) => t,
        None => if is_index {
            "index.html"@
        } else {
            "section.html"@
        },
    }
}

/// The file paths of a run of pages.
pub open spec fn spec_page_paths(pages: Seq<Page>) -> Seq<Seq<char>> {
    pages.map_values(|p: Page| p.file_path@)
}

impl Section {
    /// The identity invariants every constructed section satisfies: the
    /// components derive from the file path, the path is their join, the
    /// relative path and the parent path are recomputable, and no
    /// component holds a slash.
    pub open spec fn identity_wf(self) -> bool {
        &&& self.components.deep_view() == spec_components(self.file_path@)
        &&& self.path@ == spec_join(self.components.deep_view(), '/')
        &&& self.relative_path@ == spec_relative_path(self.components.deep_view())
        &&& self.parent_path@ == spec_parent(self.file_path@)
        &&& no_sep(self.components.deep_view(), '/')
    }

    /// The file paths directly under this section: `pages`, then
    /// `ignored_pages`.
    pub open spec fn spec_all_pages_path(self) -> Seq<Seq<char>> {
        spec_page_paths(self.pages@) + spec_page_paths(self.ignored_pages@)
    }

    /// The partition invariant of a populated section: the two lists hold
    /// each discovered file exactly once, between them.
    pub open spec fn pages_partition_wf(self) -> bool {
        let a = spec_page_paths(self.pages@);
        let b = spec_page_paths(self.ignored_pages@);
        &&& forall|i: int, j: int| 0 <= i < j < a.len() ==> a[i] != a[j]
        &&& forall|i: int, j: int| 0 <= i < j < b.len() ==> b[i] != b[j]
        &&& forall|i: int, j: int| 0 <= i < a.len() && 0 <= j < b.len() ==> a[i] != b[j]
    }

    /// A bare section for the index document at `file_path`: the parent
    /// path is derived at once, everything else starts empty and is filled
    /// by `parse`.
    pub fn new(file_path: &str, meta: FrontMatter) -> (s: Section)
        ensures
            s.file_path@ == file_path@,
            s.parent_path@ == spec_parent(file_path@),
            s.meta == meta,
            s.relative_path@.len() == 0,
            s.components@.len() == 0,
            s.path@.len() == 0,
            s.permalink@.len() == 0,
            s.pages@.len() == 0,
            s.ignored_pages@.len() == 0,
            s.subsections@.len() == 0,
    {
        let parent_path = parent_of(file_path);
        Section {
            file_path: file_path.to_owned(),
            relative_path: String::new(),
            parent_path,
            components: Vec::new(),
            path: String::new(),
            permalink: String::new(),
            meta,
            pages: Vec::new(),
            ignored_pages: Vec::new(),
            subsections: Vec::new(),
        }
    }

    /// Builds the fully-identified section for the index document at
    /// `file_path` with raw text `content`: the front matter is parsed,
    /// the components are derived from the path, and the path, permalink
    /// and relative path follow from them. A malformed metadata block
    /// fails with a front-matter error tagged with `file_path`; there is
    /// no other failure.
    pub fn parse(file_path: &str, content: &str, config: &Config) -> (r: Result<
        Section,
        SectionError,
    >)
        ensures
            match spec_split_content(content@) {
                Some(fmb) => r matches Ok(s) && ({
                    &&& s.file_path@ == file_path@
                    &&& s.meta@ == fmb.0
                    &&& s.identity_wf()
                    &&& s.permalink@ == spec_make_permalink(config.base_url@, s.path@)
                    &&& s.pages@.len() == 0
                    &&& s.ignored_pages@.len() == 0
                    &&& s.subsections@.len() == 0
                }),
                None => r matches Err(e) && e is FrontMatterParse && e.spec_path() == file_path@,
            },
    {
        match split_content(file_path, content) {
            Err(e) => Err(e),
            Ok(meta_body) => {
                let (meta, _body) = meta_body;
                let mut section = Section::new(file_path, meta);
                section.components = find_content_components(file_path);
                proof {
                    reveal_strlit("/");
                }
                section.path = join_with(&section.components, "/");
                section.permalink = config.make_permalink(section.path.as_str());
                if section.components.len() == 0 {
                    section.relative_path = "_index.md".to_owned();
                } else {
                    let mut rp = section.path.clone();
                    rp.append("/_index.md");
                    section.relative_path = rp;
                }
                Ok(section)
            },
        }
    }

    /// Is this the root/index section of the whole content tree?
    pub fn is_index(&self) -> (r: bool)
        ensures
            r == (self.components@.len() == 0),
    {
        self.components.len() == 0
    }

    /// The name of the template that governs this section's rendering.
    /// Total: every section resolves to exactly one name.
    pub fn get_template_name(&self) -> (r: String)
        ensures
            r@ == spec_template_name(self.meta@.template, self.components@.len() == 0),
    {
        match &self.meta.template {
            Some(t) => t.clone(),
            None => {
                if self.is_index() {
                    "index.html".to_owned()
                } else {
                    "section.html".to_owned()
                }
            },
        }
    }

    /// The file paths of every page associated with this section, sorted
    /// or not: `pages` followed by `ignored_pages`.
    #[verifier::loop_isolation(false)]
    pub fn all_pages_path(&self) -> (r: Vec<String>)
        ensures
            r.deep_view() == self.spec_all_pages_path(),
    {
        let ghost f = |p: Page| p.file_path@;
        let mut r: Vec<String> = Vec::new();
        let mut i: usize = 0;
        proof {
            assert(r.deep_view() =~~= spec_page_paths(self.pages@.take(0)));
        }
        while i < self.pages.len()
            invariant
                i <= self.pages@.len(),
                r.deep_view() == spec_page_paths(self.pages@.take(i as int)),
            decreases self.pages@.len() - i,
        {
            let ghost prev = r.deep_view();
            r.push(self.pages[i].file_path.clone());
            proof {
                assert(r.deep_view() =~~= prev.push(self.pages@[i as int].file_path@));
                assert(spec_page_paths(self.pages@.take(i + 1)) =~~= prev.push(
                    self.pages@[i as int].file_path@,
                ));
            }
            i = i + 1;
        }
        proof {
            assert(self.pages@.take(self.pages@.len() as int) =~~= self.pages@);
        }
        let mut j: usize = 0;
        while j < self.ignored_pages.len()
            invariant
                j <= self.ignored_pages@.len(),
                r.deep_view() == spec_page_paths(self.pages@) + spec_page_paths(
                    self.ignored_pages@.take(j as int),
                ),
            decreases self.ignored_pages@.len() - j,
        {
            let ghost prev = r.deep_view();
            r.push(self.ignored_pages[j].file_path.clone());
            proof {
                assert(r.deep_view() =~~= prev.push(self.ignored_pages@[j as int].file_path@));
                assert(spec_page_paths(self.pages@) + spec_page_paths(
                    self.ignored_pages@.take(j + 1),
                ) =~~= prev.push(self.ignored_pages@[j as int].file_path@));
            }
            j = j + 1;
        }
        proof {
            assert(self.ignored_pages@.take(self.ignored_pages@.len() as int)
                =~~= self.ignored_pages@);
        }
        r
    }
}

/// The template-facing representation of a section: exactly the title,
/// the description, the slash-prefixed path, the permalink, the pages and
/// the subsections — and none of the filesystem bookkeeping.
#[derive(Debug, PartialEq)]
pub struct SerializedSection {
    pub title: Option<String>,
    pub description: Option<String>,
    pub path: String,
    pub permalink: String,
    pub pages: Vec<SerializedPage>,
    pub subsections: Vec<SerializedSection>,
}

/// What the template-facing view of a section holds, recursively: the
/// metadata title and description, the logical path prefixed with one
/// slash, the permalink, each page's own view, and each subsection's view
/// by this same contract.
pub open spec fn is_serialization(s: Section, v: SerializedSection) -> bool
    decreases s,
{
    &&& opt_view(v.title) == s.meta@.title
    &&& opt_view(v.description) == s.meta@.description
    &&& v.path@ == "/"@ + s.path@
    &&& v.permalink@ == s.permalink@
    &&& v.pages@.len() == s.pages@.len()
    &&& forall|i: int|
        0 <= i < s.pages@.len() ==> page_serialized(s.pages@[i], #[trigger] v.pages@[i])
    &&& v.subsections@.len() == s.subsections@.len()
    &&& forall|i: int|
        0 <= i < s.subsections@.len() ==> is_serialization(
            s.subsections@[i],
            #[trigger] v.subsections@[i],
        )
}

impl Section {
    /// The template-facing view of this section. Templates never observe
    /// `file_path`, `parent_path`, `components` or `relative_path`: the
    /// view type has no such fields.
    #[verifier::loop_isolation(false)]
    pub fn serialized(&self) -> (v: SerializedSection)
        ensures
            is_serialization(*self, v),
        decreases *self,
    {
        let mut pages: Vec<SerializedPage> = Vec::new();
        let mut i: usize = 0;
        while i < self.pages.len()
            invariant
                i <= self.pages@.len(),
                pages@.len() == i,
                forall|k: int|
                    0 <= k < i ==> page_serialized(self.pages@[k], #[trigger] pages@[k]),
            decreases self.pages@.len() - i,
        {
            pages.push(self.pages[i].serialized());
            i = i + 1;
        }
        let mut subsections: Vec<SerializedSection> = Vec::new();
        let mut j: usize = 0;
        while j < self.subsections.len()
            invariant
                j <= self.subsections@.len(),
                subsections@.len() == j,
                forall|k: int|
                    0 <= k < j ==> is_serialization(
                        self.subsections@[k],
                        #[trigger] subsections@[k],
                    ),
            decreases self.subsections@.len() - j,
        {
            proof {
                assert(decreases_to!(*self => self.subsections));
                assert(decreases_to!(self.subsections => self.subsections@[j as int]));
            }
            subsections.push(self.subsections[j].serialized());
            j = j + 1;
        }
        let mut slash_path: String = "/".to_owned();
        slash_path.append(self.path.as_str());
        SerializedSection {
            title: clone_opt(&self.meta.title),
            description: clone_opt(&self.meta.description),
            path: slash_path,
            permalink: self.permalink.clone(),
            pages,
            subsections,
        }
    }
}

/// The components of a constructed section are empty exactly when its
/// index document sits in the content root itself: the parent directory's
/// last segment is the first one named `content`. Holds for every file
/// path that lies under a content root at all.
pub proof fn lemma_is_index_iff_root_document(s: Section)
    requires
        s.identity_wf(),
        contains_root(spec_split(spec_parent(s.file_path@), '/')),
    ensures
        s.components.deep_view().len() == 0 <==> {
            let parts = spec_split(spec_parent(s.file_path@), '/');
            &&& parts.len() >= 1
            &&& parts.last() == root_segment()
            &&& !contains_root(parts.drop_last())
        },
{
    lemma_components_empty_iff_root_index(spec_split(spec_parent(s.file_path@), '/'));
}

/// The relative path of a constructed section is recomputable from its
/// components alone: `_index.md` when they are empty, their join above
/// `_index.md` otherwise.
pub proof fn lemma_relative_path_recomputable(s: Section)
    requires
        s.identity_wf(),
    ensures
        s.relative_path@ == spec_relative_path(s.components.deep_view()),
        s.components.deep_view().len() == 0 ==> s.relative_path@ == "_index.md"@,
        s.components.deep_view().len() > 0 ==> s.relative_path@ == s.path@ + "/_index.md"@,
{
}

/// The path of a constructed section is the join of its components, and
/// splitting the path restores the components exactly. The round trip is
/// claimed for every constructed section except one whose single
/// component is the empty string (the join of such a list is the empty
/// path, which has no components).
pub proof fn lemma_path_roundtrip(s: Section)
    requires
        s.identity_wf(),
        !(s.components.deep_view().len() == 1 && s.components.deep_view()[0].len() == 0),
    ensures
        s.path@ == spec_join(s.components.deep_view(), '/'),
        spec_path_components(s.path@) == s.components.deep_view(),
{
    lemma_path_components_roundtrip(s.components.deep_view(), '/');
}

/// Template resolution is total and deterministic: it is a function of the
/// metadata and the is-index flag alone, an explicit template name always
/// wins, and each positional default applies exactly otherwise.
pub proof fn lemma_template_resolution(template: Option<Seq<char>>, is_index: bool)
    ensures
        template is Some ==> spec_template_name(template, is_index) == template.unwrap(),
        template is None && is_index ==> spec_template_name(template, is_index) == "index.html"@,
        template is None && !is_index ==> spec_template_name(template, is_index)
            == "section.html"@,
{
}

/// For a populated section whose two page lists partition the discovered
/// files, `all_pages_path` holds exactly the union of the `pages` and
/// `ignored_pages` file paths, with no duplicates.
pub proof fn lemma_all_pages_path_partition(s: Section)
    requires
        s.pages_partition_wf(),
    ensures
        forall|i: int, j: int|
            0 <= i < j < s.spec_all_pages_path().len() ==> s.spec_all_pages_path()[i]
                != s.spec_all_pages_path()[j],
        s.spec_all_pages_path().to_set() =~= spec_page_paths(s.pages@).to_set().union(
            spec_page_paths(s.ignored_pages@).to_set(),
        ),
{
    let a = spec_page_paths(s.pages@);
    let b = spec_page_paths(s.ignored_pages@);
    let all = s.spec_all_pages_path();
    assert forall|i: int, j: int| 0 <= i < j < all.len() implies all[i] != all[j] by {
        if j < a.len() {
            assert(all[i] == a[i] && all[j] == a[j]);
        } else if i >= a.len() {
            assert(all[i] == b[i - a.len()] && all[j] == b[j - a.len()]);
        } else {
            assert(all[i] == a[i] && all[j] == b[j - a.len()]);
        }
    }
    assert forall|x: Seq<char>| all.to_set().contains(x) implies a.to_set().contains(x)
        || b.to_set().contains(x) by {
        let i = choose|i: int| 0 <= i < all.len() && all[i] == x;
        if i < a.len() {
            assert(a[i] == x);
        } else {
            assert(b[i - a.len()] == x);
        }
    }
    assert forall|x: Seq<char>| a.to_set().contains(x) implies all.to_set().contains(x) by {
        let i = choose|i: int| 0 <= i < a.len() && a[i] == x;
        assert(all[i] == x);
    }
    assert forall|x: Seq<char>| b.to_set().contains(x) implies all.to_set().contains(x) by {
        let i = choose|i: int| 0 <= i < b.len() && b[i] == x;
        assert(all[a.len() + i] == x);
    }
}

} // verus!
