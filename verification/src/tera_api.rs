//! The trusted boundary to the template engine and to the JSON values the
//! rendering context carries. Each item here declares an outside type or
//! wraps one outside call; everything stated of them is what the outside
//! crates' own sources show.

use vstd::prelude::*;

verus! {

#[verifier::external_type_specification]
#[verifier::external_body]
pub struct ExTera(tera::Tera);

#[verifier::external_type_specification]
#[verifier::external_body]
pub struct ExContext(tera::Context);

#[verifier::external_type_specification]
#[verifier::external_body]
pub struct ExTeraError(tera::Error);

#[verifier::external_type_specification]
#[verifier::external_body]
pub struct ExJsonValue(serde_json::Value);

#[verifier::external_type_specification]
#[verifier::external_body]
#[verifier::reject_recursive_types(K)]
#[verifier::reject_recursive_types(V)]
pub struct ExJsonMap<K, V>(serde_json::Map<K, V>);

/// The mathematical value of a JSON tree: what the contracts say of the
/// JSON values that flow into the rendering context.
pub enum JsonModel {
    Null,
    Str(Seq<char>),
    Arr(Seq<JsonModel>),
    Obj(Map<Seq<char>, JsonModel>),
}

/// The JSON tree a `serde_json::Value` holds.
pub uninterp spec fn jmodel(v: serde_json::Value) -> JsonModel;

/// The entries a `serde_json::Map` holds, each value by its JSON tree.
pub uninterp spec fn jmap_model(m: serde_json::Map<String, serde_json::Value>) -> Map<
    Seq<char>,
    JsonModel,
>;

/// The entries a rendering context holds, each value by its JSON tree.
pub uninterp spec fn context_model(c: tera::Context) -> Map<Seq<char>, JsonModel>;

/// A model map with no entries.
pub open spec fn no_entries() -> Map<Seq<char>, JsonModel> {
    Map::empty()
}

/// The keys of a JSON value that is an object.
pub open spec fn obj_keys(v: serde_json::Value) -> Set<Seq<char>> {
    match jmodel(v) {
        JsonModel::Obj(entries) => entries.dom(),
        _ => Set::empty(),
    }
}

/// The keys a rendering context holds.
pub open spec fn context_keys(c: tera::Context) -> Set<Seq<char>> {
    context_model(c).dom()
}

/// Relies on serde_json::Map::new: a fresh map holds no entries.
#[verifier::external_body]
pub(crate) fn json_map_new() -> (m: serde_json::Map<String, serde_json::Value>)
    ensures
        jmap_model(m) == no_entries(),
{
    serde_json::Map::new()
}

/// Relies on serde_json::Map::insert: the map then binds the given key to
/// the given value, beside the entries it already held.
#[verifier::external_body]
pub(crate) fn json_map_insert(
    m: &mut serde_json::Map<String, serde_json::Value>,
    key: &str,
    value: serde_json::Value,
)
    ensures
        jmap_model(*final(m)) == jmap_model(*old(m)).insert(key@, jmodel(value)),
{
    let _ = m.insert(key.to_string(), value);
}

/// Relies on serde_json::Value::Object: the object value holds exactly
/// the map's entries.
#[verifier::external_body]
pub(crate) fn json_object(m: serde_json::Map<String, serde_json::Value>) -> (v: serde_json::Value)
    ensures
        jmodel(v) == JsonModel::Obj(jmap_model(m)),
{
    serde_json::Value::Object(m)
}

/// Relies on serde_json::Value::String: the value holds the given string.
#[verifier::external_body]
pub(crate) fn json_string(s: &str) -> (v: serde_json::Value)
    ensures
        jmodel(v) == JsonModel::Str(s@),
{
    serde_json::Value::String(s.to_string())
}

/// Relies on serde_json::Value::Null.
#[verifier::external_body]
pub(crate) fn json_null() -> (v: serde_json::Value)
    ensures
        jmodel(v) == JsonModel::Null,
{
    serde_json::Value::Null
}

/// Relies on serde_json::Value::Array: the array value holds the given
/// items in order.
#[verifier::external_body]
pub(crate) fn json_array(items: Vec<serde_json::Value>) -> (v: serde_json::Value)
    ensures
        jmodel(v) == JsonModel::Arr(items@.map_values(|it: serde_json::Value| jmodel(it))),
{
    serde_json::Value::Array(items)
}

/// Relies on tera::Context::new: a fresh context holds no entries.
#[verifier::external_body]
pub(crate) fn context_new() -> (c: tera::Context)
    ensures
        context_model(c) == no_entries(),
{
    tera::Context::new()
}

/// Relies on tera::Context::insert: the context then binds the given key
/// to the given value, beside the entries it already held. The conversion
/// of a JSON value into the engine's own value type cannot fail, since
/// JSON object keys are strings, which the engine's serializer accepts.
#[verifier::external_body]
pub(crate) fn context_insert(c: &mut tera::Context, key: &str, value: &serde_json::Value)
    ensures
        context_model(*final(c)) == context_model(*old(c)).insert(key@, jmodel(*value)),
{
    c.insert(key.to_string(), value);
}

/// Relies on tera::Tera::render: renders the named template with the
/// given context, or reports the engine's own error.
#[verifier::external_body]
pub(crate) fn tera_render(engine: &tera::Tera, template_name: &str, c: &tera::Context) -> (r:
    Result<String, tera::Error>) {
    engine.render(template_name, c)
}

/// Relies on the Display impl of tera::Error for the engine's message.
#[verifier::external_body]
pub(crate) fn tera_error_message(e: &tera::Error) -> (r: String) {
    e.to_string()
}

} // verus!
