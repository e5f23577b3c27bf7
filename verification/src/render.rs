//! Building the rendering context of a section and handing it to the
//! template engine. Templates only ever see the narrow serialized views:
//! every value bound into the context is pinned, down to the JSON tree it
//! stands for, by the models in this module.

use vstd::prelude::*;
use vstd::string::*;
use crate::config::Config;
use crate::errors::SectionError;
use crate::front_matter::opt_view;
use crate::page::{Page, SerializedPage, page_serialized};
use crate::section::{Section, SerializedSection, is_serialization};
use crate::tera_api::{
    JsonModel,
    jmodel,
    jmap_model,
    context_model,
    obj_keys,
    context_keys,
    json_map_new,
    json_map_insert,
    json_object,
    json_string,
    json_null,
    json_array,
    context_new,
    context_insert,
    tera_render,
    tera_error_message,
};

verus! {

broadcast use vstd::std_specs::vec::group_vec_axioms;

/// The keys of the JSON object standing for a section.
pub open spec fn section_value_keys() -> Set<Seq<char>> {
    set!["title"@, "description"@, "path"@, "permalink"@, "pages"@, "subsections"@]
}

/// The keys of the JSON object standing for a page.
pub open spec fn page_value_keys() -> Set<Seq<char>> {
    set!["title"@, "permalink"@]
}

/// The keys of the JSON object standing for the configuration.
pub open spec fn config_value_keys() -> Set<Seq<char>> {
    set!["base_url"@, "title"@]
}

/// The keys of a section's rendering context; the root section's context
/// also carries the list of all top-level sections.
pub open spec fn spec_context_keys(is_index: bool) -> Set<Seq<char>> {
    let base = set!["config"@, "section"@, "current_url"@, "current_path"@];
    if is_index {
        base.insert("sections"@)
    } else {
        base
    }
}

/// The JSON value of an optional string: the string, or null.
pub open spec fn opt_model(o: Option<Seq<char>>) -> JsonModel {
    match o {
        Some(s) => JsonModel::Str(s),
        None => JsonModel::Null,
    }
}

/// The JSON object a page's view stands for.
pub open spec fn page_view_model(p: SerializedPage) -> JsonModel {
    JsonModel::Obj(
        Map::<Seq<char>, JsonModel>::empty().insert("title"@, opt_model(opt_view(p.title))).insert(
            "permalink"@,
            JsonModel::Str(p.permalink@),
        ),
    )
}

/// The JSON object a page stands for once serialized.
pub open spec fn page_json(p: Page) -> JsonModel {
    JsonModel::Obj(
        Map::<Seq<char>, JsonModel>::empty().insert("title"@, opt_model(opt_view(p.title))).insert(
            "permalink"@,
            JsonModel::Str(p.permalink@),
        ),
    )
}

/// The JSON object the configuration stands for.
pub open spec fn config_model(c: Config) -> JsonModel {
    JsonModel::Obj(
        Map::<Seq<char>, JsonModel>::empty().insert(
            "base_url"@,
            JsonModel::Str(c.base_url@),
        ).insert("title"@, opt_model(opt_view(c.title))),
    )
}

/// The JSON objects of a run of serialized sections.
pub open spec fn section_views_model(list: Seq<SerializedSection>) -> Seq<JsonModel>
    decreases list,
{
    if list.len() == 0 {
        Seq::empty()
    } else {
        seq![section_view_model(list.first())] + section_views_model(list.drop_first())
    }
}

/// The JSON object a section's view stands for, recursively.
pub open spec fn section_view_model(s: SerializedSection) -> JsonModel
    decreases s,
{
    JsonModel::Obj(
        Map::<Seq<char>, JsonModel>::empty().insert("title"@, opt_model(opt_view(s.title))).insert(
            "description"@,
            opt_model(opt_view(s.description)),
        ).insert("path"@, JsonModel::Str(s.path@)).insert(
            "permalink"@,
            JsonModel::Str(s.permalink@),
        ).insert(
            "pages"@,
            JsonModel::Arr(s.pages@.map_values(|p: SerializedPage| page_view_model(p))),
        ).insert("subsections"@, JsonModel::Arr(section_views_model(s.subsections@))),
    )
}

/// The JSON objects of a run of sections.
pub open spec fn sections_json(list: Seq<Section>) -> Seq<JsonModel>
    decreases list,
{
    if list.len() == 0 {
        Seq::empty()
    } else {
        seq![section_json(list.first())] + sections_json(list.drop_first())
    }
}

/// The JSON object a section stands for once serialized, recursively:
/// exactly what its template-facing view carries, and nothing of the
/// filesystem bookkeeping.
pub open spec fn section_json(s: Section) -> JsonModel
    decreases s,
{
    JsonModel::Obj(
        Map::<Seq<char>, JsonModel>::empty().insert("title"@, opt_model(s.meta@.title)).insert(
            "description"@,
            opt_model(s.meta@.description),
        ).insert("path"@, JsonModel::Str("/"@ + s.path@)).insert(
            "permalink"@,
            JsonModel::Str(s.permalink@),
        ).insert("pages"@, JsonModel::Arr(s.pages@.map_values(|p: Page| page_json(p)))).insert(
            "subsections"@,
            JsonModel::Arr(sections_json(s.subsections@)),
        ),
    )
}

/// The JSON objects of a section-view run, one per view, in order.
pub proof fn lemma_section_views_model_index(list: Seq<SerializedSection>)
    ensures
        section_views_model(list).len() == list.len(),
        forall|i: int|
            0 <= i < list.len() ==> section_views_model(list)[i] == section_view_model(
                #[trigger] list[i],
            ),
    decreases list,
{
    if list.len() > 0 {
        lemma_section_views_model_index(list.drop_first());
        assert forall|i: int|
            0 <= i < list.len() implies section_views_model(list)[i] == section_view_model(
            list[i],
        ) by {
            if i > 0 {
                assert(list.drop_first()[i - 1] == list[i]);
            }
        }
    }
}

/// The JSON objects of a section run, one per section, in order.
pub proof fn lemma_sections_json_index(list: Seq<Section>)
    ensures
        sections_json(list).len() == list.len(),
        forall|i: int|
            0 <= i < list.len() ==> sections_json(list)[i] == section_json(#[trigger] list[i]),
    decreases list,
{
    if list.len() > 0 {
        lemma_sections_json_index(list.drop_first());
        assert forall|i: int|
            0 <= i < list.len() implies sections_json(list)[i] == section_json(list[i]) by {
            if i > 0 {
                assert(list.drop_first()[i - 1] == list[i]);
            }
        }
    }
}

/// A faithful page view carries exactly the page's own JSON object.
pub proof fn lemma_page_serialization_model(p: Page, v: SerializedPage)
    requires
        page_serialized(p, v),
    ensures
        page_view_model(v) == page_json(p),
{
}

/// A faithful section view carries exactly the section's own JSON object:
/// what `serialized` returns stands, as JSON, for the section itself.
pub proof fn lemma_serialization_model(s: Section, v: SerializedSection)
    requires
        is_serialization(s, v),
    ensures
        section_view_model(v) == section_json(s),
    decreases s,
{
    assert forall|i: int|
        0 <= i < v.pages@.len() implies page_view_model(#[trigger] v.pages@[i]) == page_json(
        s.pages@[i],
    ) by {
        assert(page_serialized(s.pages@[i], v.pages@[i]));
        lemma_page_serialization_model(s.pages@[i], v.pages@[i]);
    }
    assert(v.pages@.map_values(|p: SerializedPage| page_view_model(p)) =~= s.pages@.map_values(
        |p: Page| page_json(p),
    ));
    assert forall|i: int|
        0 <= i < s.subsections@.len() implies is_serialization(
        s.subsections@[i],
        v.subsections@[i],
    ) by {}
    lemma_serialization_model_list(s.subsections@, v.subsections@);
    assert(section_views_model(v.subsections@) == sections_json(s.subsections@));
}

/// The list form of `lemma_serialization_model`.
proof fn lemma_serialization_model_list(ss: Seq<Section>, vs: Seq<SerializedSection>)
    requires
        vs.len() == ss.len(),
        forall|i: int| 0 <= i < ss.len() ==> is_serialization(#[trigger] ss[i], vs[i]),
    ensures
        section_views_model(vs) == sections_json(ss),
    decreases ss,
{
    if ss.len() > 0 {
        lemma_serialization_model(ss.first(), vs.first());
        assert forall|i: int|
            0 <= i < ss.drop_first().len() implies is_serialization(
            #[trigger] ss.drop_first()[i],
            vs.drop_first()[i],
        ) by {
            assert(ss.drop_first()[i] == ss[i + 1]);
            assert(vs.drop_first()[i] == vs[i + 1]);
        }
        lemma_serialization_model_list(ss.drop_first(), vs.drop_first());
        assert(section_views_model(vs) =~= sections_json(ss));
    } else {
        assert(section_views_model(vs) =~= sections_json(ss));
    }
}

/// An optional string as a JSON value: the string, or null.
fn opt_string_value(o: &Option<String>) -> (v: serde_json::Value)
    ensures
        jmodel(v) == opt_model(opt_view(*o)),
{
    match o {
        Some(s) => json_string(s.as_str()),
        None => json_null(),
    }
}

/// The JSON object a template sees for a page: title and permalink.
pub fn page_value(p: &SerializedPage) -> (v: serde_json::Value)
    ensures
        jmodel(v) == page_view_model(*p),
        obj_keys(v) == page_value_keys(),
{
    let mut m = json_map_new();
    json_map_insert(&mut m, "title", opt_string_value(&p.title));
    json_map_insert(&mut m, "permalink", json_string(p.permalink.as_str()));
    proof {
        assert(jmap_model(m).dom() =~= page_value_keys());
    }
    json_object(m)
}

/// The JSON object a template sees for the configuration.
pub fn config_value(config: &Config) -> (v: serde_json::Value)
    ensures
        jmodel(v) == config_model(*config),
        obj_keys(v) == config_value_keys(),
{
    let mut m = json_map_new();
    json_map_insert(&mut m, "base_url", json_string(config.base_url.as_str()));
    json_map_insert(&mut m, "title", opt_string_value(&config.title));
    proof {
        assert(jmap_model(m).dom() =~= config_value_keys());
    }
    json_object(m)
}

/// The JSON object a template sees for a section, built from the narrow
/// serialized view alone: exactly the view's own JSON object, recursively
/// for the pages and subsections.
#[verifier::loop_isolation(false)]
pub fn section_value(s: &SerializedSection) -> (v: serde_json::Value)
    ensures
        jmodel(v) == section_view_model(*s),
        obj_keys(v) == section_value_keys(),
    decreases *s,
{
    let mut pages: Vec<serde_json::Value> = Vec::new();
    let mut i: usize = 0;
    while i < s.pages.len()
        invariant
            i <= s.pages@.len(),
            pages@.len() == i,
            forall|k: int|
                0 <= k < i ==> jmodel(#[trigger] pages@[k]) == page_view_model(s.pages@[k]),
        decreases s.pages@.len() - i,
    {
        pages.push(page_value(&s.pages[i]));
        i = i + 1;
    }
    let mut subsections: Vec<serde_json::Value> = Vec::new();
    let mut j: usize = 0;
    while j < s.subsections.len()
        invariant
            j <= s.subsections@.len(),
            subsections@.len() == j,
            forall|k: int|
                0 <= k < j ==> jmodel(#[trigger] subsections@[k]) == section_view_model(
                    s.subsections@[k],
                ),
        decreases s.subsections@.len() - j,
    {
        proof {
            assert(decreases_to!(*s => s.subsections));
            assert(decreases_to!(s.subsections => s.subsections@[j as int]));
        }
        subsections.push(section_value(&s.subsections[j]));
        j = j + 1;
    }
    let pages_value = json_array(pages);
    let subsections_value = json_array(subsections);
    proof {
        assert(pages@.map_values(|it: serde_json::Value| jmodel(it)) =~= s.pages@.map_values(
            |p: SerializedPage| page_view_model(p),
        ));
        lemma_section_views_model_index(s.subsections@);
        assert(subsections@.map_values(|it: serde_json::Value| jmodel(it))
            =~= section_views_model(s.subsections@));
    }
    let mut m = json_map_new();
    json_map_insert(&mut m, "title", opt_string_value(&s.title));
    json_map_insert(&mut m, "description", opt_string_value(&s.description));
    json_map_insert(&mut m, "path", json_string(s.path.as_str()));
    json_map_insert(&mut m, "permalink", json_string(s.permalink.as_str()));
    json_map_insert(&mut m, "pages", pages_value);
    json_map_insert(&mut m, "subsections", subsections_value);
    proof {
        assert(jmap_model(m).dom() =~= section_value_keys());
    }
    json_object(m)
}

/// The lengths and leading characters of every key this module binds,
/// revealed once: they make all the needed key disequalities automatic.
proof fn lemma_view_key_facts()
    ensures
        "title"@.len() == 5,
        "description"@.len() == 11,
        "path"@.len() == 4,
        "permalink"@.len() == 9,
        "pages"@.len() == 5,
        "subsections"@.len() == 11,
        "file_path"@.len() == 9,
        "parent_path"@.len() == 11,
        "components"@.len() == 10,
        "relative_path"@.len() == 13,
        "base_url"@.len() == 8,
        "config"@.len() == 6,
        "section"@.len() == 7,
        "current_url"@.len() == 11,
        "current_path"@.len() == 12,
        "sections"@.len() == 8,
        "title"@[0] == 't',
        "pages"@[0] == 'p',
        "description"@[0] == 'd',
        "subsections"@[0] == 's',
        "file_path"@[0] == 'f',
        "permalink"@[0] == 'p',
        "parent_path"@[0] == 'p',
        "current_url"@[0] == 'c',
        "base_url"@[0] == 'b',
        "sections"@[0] == 's',
{
    reveal_strlit("title");
    reveal_strlit("description");
    reveal_strlit("path");
    reveal_strlit("permalink");
    reveal_strlit("pages");
    reveal_strlit("subsections");
    reveal_strlit("file_path");
    reveal_strlit("parent_path");
    reveal_strlit("components");
    reveal_strlit("relative_path");
    reveal_strlit("base_url");
    reveal_strlit("config");
    reveal_strlit("section");
    reveal_strlit("current_url");
    reveal_strlit("current_path");
    reveal_strlit("sections");
}

/// The key sets a template sees never hold the filesystem bookkeeping:
/// not `file_path`, `parent_path`, `components` nor `relative_path`.
pub proof fn lemma_serialized_view_hides_bookkeeping()
    ensures
        !section_value_keys().contains("file_path"@),
        !section_value_keys().contains("parent_path"@),
        !section_value_keys().contains("components"@),
        !section_value_keys().contains("relative_path"@),
        !page_value_keys().contains("file_path"@),
        !page_value_keys().contains("parent_path"@),
        !page_value_keys().contains("components"@),
        !page_value_keys().contains("relative_path"@),
        !config_value_keys().contains("file_path"@),
        !config_value_keys().contains("parent_path"@),
        !config_value_keys().contains("components"@),
        !config_value_keys().contains("relative_path"@),
{
    lemma_view_key_facts();
}

/// No JSON tree handed to a template carries filesystem bookkeeping: no
/// object at any nesting depth binds `file_path`, `parent_path`,
/// `components` or `relative_path`.
pub open spec fn hides_bookkeeping(m: JsonModel) -> bool
    decreases m,
{
    match m {
        JsonModel::Null => true,
        JsonModel::Str(_) => true,
        JsonModel::Arr(items) => forall|i: int|
            0 <= i < items.len() ==> hides_bookkeeping(#[trigger] items[i]),
        JsonModel::Obj(entries) => {
            &&& !entries.dom().contains("file_path"@)
            &&& !entries.dom().contains("parent_path"@)
            &&& !entries.dom().contains("components"@)
            &&& !entries.dom().contains("relative_path"@)
            &&& forall|k: Seq<char>|
                entries.dom().contains(k) ==> hides_bookkeeping(#[trigger] entries[k])
        },
    }
}

/// An optional string's JSON value is a leaf.
proof fn lemma_opt_model_hides(o: Option<Seq<char>>)
    ensures
        hides_bookkeeping(opt_model(o)),
{
    match o {
        Some(text) => assert(hides_bookkeeping(JsonModel::Str(text))),
        None => assert(hides_bookkeeping(JsonModel::Null)),
    }
}

/// A page's JSON object hides the bookkeeping at every depth.
pub proof fn lemma_page_json_hides_bookkeeping(p: Page)
    ensures
        hides_bookkeeping(page_json(p)),
{
    lemma_view_key_facts();
    let entries = Map::<Seq<char>, JsonModel>::empty().insert(
        "title"@,
        opt_model(opt_view(p.title)),
    ).insert("permalink"@, JsonModel::Str(p.permalink@));
    assert(page_json(p) == JsonModel::Obj(entries));
    assert(entries.dom() =~= page_value_keys());
    assert forall|k: Seq<char>| entries.dom().contains(k) implies hides_bookkeeping(
        #[trigger] entries[k],
    ) by {
        if k == "permalink"@ {
            assert(entries[k] == JsonModel::Str(p.permalink@));
        } else {
            assert(k == "title"@);
            assert(entries[k] == opt_model(opt_view(p.title)));
            lemma_opt_model_hides(opt_view(p.title));
        }
    }
}

/// The configuration's JSON object hides the bookkeeping.
pub proof fn lemma_config_model_hides_bookkeeping(config: Config)
    ensures
        hides_bookkeeping(config_model(config)),
{
    lemma_view_key_facts();
    let entries = Map::<Seq<char>, JsonModel>::empty().insert(
        "base_url"@,
        JsonModel::Str(config.base_url@),
    ).insert("title"@, opt_model(opt_view(config.title)));
    assert(config_model(config) == JsonModel::Obj(entries));
    assert(entries.dom() =~= config_value_keys());
    assert forall|k: Seq<char>| entries.dom().contains(k) implies hides_bookkeeping(
        #[trigger] entries[k],
    ) by {
        if k == "title"@ {
            assert(entries[k] == opt_model(opt_view(config.title)));
            lemma_opt_model_hides(opt_view(config.title));
        } else {
            assert(k == "base_url"@);
            assert(entries[k] == JsonModel::Str(config.base_url@));
        }
    }
}

/// A section's JSON object hides the bookkeeping at every nesting depth:
/// templates can never observe the filesystem-facing fields, however deep
/// the subsection tree goes.
pub proof fn lemma_section_json_hides_bookkeeping(s: Section)
    ensures
        hides_bookkeeping(section_json(s)),
    decreases s,
{
    lemma_view_key_facts();
    let page_items = s.pages@.map_values(|p: Page| page_json(p));
    let entries = Map::<Seq<char>, JsonModel>::empty().insert(
        "title"@,
        opt_model(s.meta@.title),
    ).insert("description"@, opt_model(s.meta@.description)).insert(
        "path"@,
        JsonModel::Str("/"@ + s.path@),
    ).insert("permalink"@, JsonModel::Str(s.permalink@)).insert(
        "pages"@,
        JsonModel::Arr(page_items),
    ).insert("subsections"@, JsonModel::Arr(sections_json(s.subsections@)));
    assert(section_json(s) == JsonModel::Obj(entries));
    assert(entries.dom() =~= section_value_keys());
    assert forall|k: Seq<char>| entries.dom().contains(k) implies hides_bookkeeping(
        #[trigger] entries[k],
    ) by {
        if k == "subsections"@ {
            assert(entries[k] == JsonModel::Arr(sections_json(s.subsections@)));
            lemma_sections_json_hide(s.subsections@);
        } else if k == "pages"@ {
            assert(entries[k] == JsonModel::Arr(page_items));
            assert forall|i: int| 0 <= i < page_items.len() implies hides_bookkeeping(
                #[trigger] page_items[i],
            ) by {
                assert(page_items[i] == page_json(s.pages@[i]));
                lemma_page_json_hides_bookkeeping(s.pages@[i]);
            }
        } else if k == "path"@ {
            assert(entries[k] == JsonModel::Str("/"@ + s.path@));
        } else if k == "permalink"@ {
            assert(entries[k] == JsonModel::Str(s.permalink@));
        } else if k == "description"@ {
            assert(entries[k] == opt_model(s.meta@.description));
            lemma_opt_model_hides(s.meta@.description);
        } else {
            assert(k == "title"@);
            assert(entries[k] == opt_model(s.meta@.title));
            lemma_opt_model_hides(s.meta@.title);
        }
    }
}

/// The list form of `lemma_section_json_hides_bookkeeping`.
proof fn lemma_sections_json_hide(list: Seq<Section>)
    ensures
        sections_json(list).len() == list.len(),
        forall|i: int|
            0 <= i < sections_json(list).len() ==> hides_bookkeeping(
                #[trigger] sections_json(list)[i],
            ),
    decreases list,
{
    if list.len() > 0 {
        lemma_section_json_hides_bookkeeping(list.first());
        lemma_sections_json_hide(list.drop_first());
        assert forall|i: int|
            0 <= i < sections_json(list).len() implies hides_bookkeeping(
            sections_json(list)[i],
        ) by {
            if i > 0 {
                assert(sections_json(list)[i] == sections_json(list.drop_first())[i - 1]);
            }
        }
    }
}

/// The rendering context of a section, value by value: the configuration,
/// the section's own JSON object, its permalink as the current URL, its
/// path as the current path — and, for the root section only, the JSON
/// objects of all the top-level sections.
pub open spec fn spec_render_context(s: Section, siblings: Seq<Section>, config: Config) -> Map<
    Seq<char>,
    JsonModel,
> {
    let base = Map::<Seq<char>, JsonModel>::empty().insert("config"@, config_model(config)).insert(
        "section"@,
        section_json(s),
    ).insert("current_url"@, JsonModel::Str(s.permalink@)).insert(
        "current_path"@,
        JsonModel::Str(s.path@),
    );
    if s.components@.len() == 0 {
        base.insert("sections"@, JsonModel::Arr(sections_json(siblings)))
    } else {
        base
    }
}

/// Every value bound in a section's rendering context hides the
/// filesystem bookkeeping, at every depth.
pub proof fn lemma_render_context_hides_bookkeeping(
    s: Section,
    siblings: Seq<Section>,
    config: Config,
)
    ensures
        forall|k: Seq<char>|
            spec_render_context(s, siblings, config).dom().contains(k) ==> hides_bookkeeping(
                #[trigger] spec_render_context(s, siblings, config)[k],
            ),
{
    lemma_view_key_facts();
    let ctx = spec_render_context(s, siblings, config);
    assert forall|k: Seq<char>| ctx.dom().contains(k) implies hides_bookkeeping(ctx[k]) by {
        if k == "config"@ {
            lemma_config_model_hides_bookkeeping(config);
        } else if k == "section"@ {
            lemma_section_json_hides_bookkeeping(s);
        } else if k == "sections"@ {
            lemma_sections_json_hide(siblings);
        }
    }
}

impl Section {
    /// The data bag handed to the template engine for this section, pinned
    /// value by value: the configuration, the section's narrow view, its
    /// permalink as the current URL and its path as the current path — and,
    /// for the root section only, the views of all the top-level sections.
    #[verifier::loop_isolation(false)]
    pub fn build_context(&self, sections: &Vec<Section>, config: &Config) -> (c: tera::Context)
        ensures
            context_model(c) == spec_render_context(*self, sections@, *config),
            context_keys(c) == spec_context_keys(self.components@.len() == 0),
    {
        let mut c = context_new();
        context_insert(&mut c, "config", &config_value(config));
        let view = self.serialized();
        let section_val = section_value(&view);
        proof {
            lemma_serialization_model(*self, view);
        }
        context_insert(&mut c, "section", &section_val);
        context_insert(&mut c, "current_url", &json_string(self.permalink.as_str()));
        context_insert(&mut c, "current_path", &json_string(self.path.as_str()));
        if self.is_index() {
            let mut views: Vec<serde_json::Value> = Vec::new();
            let mut i: usize = 0;
            while i < sections.len()
                invariant
                    i <= sections@.len(),
                    views@.len() == i,
                    forall|k: int|
                        0 <= k < i ==> jmodel(#[trigger] views@[k]) == section_json(sections@[k]),
                decreases sections@.len() - i,
            {
                let sibling_view = sections[i].serialized();
                let sibling_val = section_value(&sibling_view);
                proof {
                    lemma_serialization_model(sections@[i as int], sibling_view);
                }
                views.push(sibling_val);
                i = i + 1;
            }
            let arr = json_array(views);
            proof {
                lemma_sections_json_index(sections@);
                assert(views@.map_values(|it: serde_json::Value| jmodel(it)) =~= sections_json(
                    sections@,
                ));
            }
            context_insert(&mut c, "sections", &arr);
            proof {
                assert(context_keys(c) =~= spec_context_keys(true));
            }
        } else {
            proof {
                assert(context_keys(c) =~= spec_context_keys(false));
            }
        }
        c
    }

    /// Renders this section: resolves the template name, builds the
    /// context, and hands both to the engine. The engine's outcome is
    /// passed to `wrap_render_outcome`, whose contract fixes what each
    /// outcome becomes; a failure is never swallowed and never retried.
    pub fn render_html(&self, sections: &Vec<Section>, engine: &tera::Tera, config: &Config) -> (r:
        Result<String, SectionError>)
        ensures
            r matches Err(e) ==> e is TemplateRender && e.spec_path() == self.file_path@,
    {
        let template_name = self.get_template_name();
        let c = self.build_context(sections, config);
        let outcome: Result<String, String> = match tera_render(
            engine,
            template_name.as_str(),
            &c,
        ) {
            Ok(text) => Ok(text),
            Err(e) => Err(tera_error_message(&e)),
        };
        wrap_render_outcome(&self.file_path, outcome)
    }
}

/// What the engine's outcome becomes: a success is handed through
/// unchanged; a failure becomes a template error tagged with the given
/// file path and carrying the engine's message as its cause.
pub fn wrap_render_outcome(file_path: &String, outcome: Result<String, String>) -> (r: Result<
    String,
    SectionError,
>)
    ensures
        match outcome {
            Ok(text) => r matches Ok(t) && t == text,
            Err(msg) => r matches Err(e) && e is TemplateRender && e.spec_path() == file_path@
                && e.spec_cause() == msg@,
        },
{
    match outcome {
        Ok(text) => Ok(text),
        Err(msg) => Err(SectionError::TemplateRender { path: file_path.clone(), cause: msg }),
    }
}

} // verus!
