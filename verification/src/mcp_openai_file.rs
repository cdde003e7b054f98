//! Tool parameters that a server declares as file uploads, and the rewriting of
//! a tool's input schema so that the model is asked for a local file path in
//! their place.
use vstd::prelude::*;
use crate::json::{JsonMap, JsonModel, JsonValue, json_model, items_model, lemma_items_model};
use crate::text::{has_char, text_contains, text_contains_exec, text_equals, text_has_char, text_to_string};

verus! {

/// The metadata key under which a tool lists its file parameters.
pub const META_OPENAI_FILE_PARAMS: &'static str = "openai/fileParams";

/// The sentence added to the description of each file parameter.
pub const FILE_PATH_GUIDANCE: &'static str = "This parameter expects an absolute local file path. If you want to upload a file, provide the absolute path to that file here.";

/// A field name that names a top-level field: not empty, and free of `.`, `/`, `[` and `]`.
pub open spec fn is_top_level_name(s: Seq<char>) -> bool {
    &&& s.len() > 0
    &&& !has_char(s, '.')
    &&& !has_char(s, '/')
    &&& !has_char(s, '[')
    &&& !has_char(s, ']')
}

/// The strings among `items` that are top-level field names, in order.
pub open spec fn top_level_string_items(items: Seq<JsonModel>) -> Seq<Seq<char>>
    decreases items.len(),
{
    if items.len() == 0 {
        Seq::empty()
    } else {
        let rest = top_level_string_items(items.drop_last());
        match items.last() {
            JsonModel::Str(s) => if is_top_level_name(s) {
                rest.push(s)
            } else {
                rest
            },
            _ => rest,
        }
    }
}

/// The model of an optional object.
pub open spec fn optional_map_model(meta: Option<&JsonMap>) -> Option<Map<Seq<char>, JsonModel>> {
    match meta {
        Some(m) => Some(m@),
        None => None,
    }
}

/// The model of a tool's metadata.
pub open spec fn metadata_model(meta: Option<JsonMap>) -> Option<Map<Seq<char>, JsonModel>> {
    match meta {
        Some(m) => Some(m@),
        None => None,
    }
}

/// The top-level field names listed in the array under `key` of `meta`:
/// nothing when there is no metadata, no such key, or no array under it.
pub open spec fn declared_fields(meta: Option<Map<Seq<char>, JsonModel>>, key: Seq<char>) -> Seq<Seq<char>> {
    match meta {
        Some(m) => if m.contains_key(key) {
            match m[key] {
                JsonModel::Array(items) => top_level_string_items(items),
                _ => Seq::empty(),
            }
        } else {
            Seq::empty()
        },
        None => Seq::empty(),
    }
}

/// The string under `key` of `m`, if there is one.
pub open spec fn string_field(m: Map<Seq<char>, JsonModel>, key: Seq<char>) -> Option<Seq<char>> {
    if m.contains_key(key) {
        match m[key] {
            JsonModel::Str(s) => Some(s),
            _ => None,
        }
    } else {
        None
    }
}

/// The description of a file parameter, given its former description.
pub open spec fn masked_description(existing: Seq<char>) -> Seq<char> {
    if existing.len() == 0 {
        FILE_PATH_GUIDANCE@
    } else if text_contains(existing, FILE_PATH_GUIDANCE@) {
        existing
    } else {
        existing + " "@ + FILE_PATH_GUIDANCE@
    }
}

/// The schema of a file parameter: a path, or an array of paths.
pub open spec fn file_path_schema(description: Seq<char>, is_array: bool) -> Map<Seq<char>, JsonModel> {
    let base = Map::<Seq<char>, JsonModel>::empty().insert("description"@, JsonModel::Str(description));
    if is_array {
        base.insert("type"@, JsonModel::Str("array"@)).insert(
            "items"@,
            JsonModel::Object(Map::<Seq<char>, JsonModel>::empty().insert("type"@, JsonModel::Str("string"@))),
        )
    } else {
        base.insert("type"@, JsonModel::Str("string"@))
    }
}

/// Whether a property schema describes an array: its type is `"array"` or it has `items`.
pub open spec fn describes_array(m: Map<Seq<char>, JsonModel>) -> bool {
    string_field(m, "type"@) == Some("array"@) || m.contains_key("items"@)
}

/// A property schema after masking: an object is replaced by a path schema that
/// keeps its description; anything else stays as it is.
pub open spec fn masked_property_schema(schema: JsonModel) -> JsonModel {
    match schema {
        JsonModel::Object(m) => {
            let existing = match string_field(m, "description"@) {
                Some(d) => d,
                None => Seq::empty(),
            };
            JsonModel::Object(file_path_schema(masked_description(existing), describes_array(m)))
        },
        _ => schema,
    }
}

/// The properties after masking those named in `params`, one after the other.
pub open spec fn masked_properties(props: Map<Seq<char>, JsonModel>, params: Seq<Seq<char>>) -> Map<Seq<char>, JsonModel>
    decreases params.len(),
{
    if params.len() == 0 {
        props
    } else {
        let done = masked_properties(props, params.drop_last());
        let name = params.last();
        if done.contains_key(name) {
            done.insert(name, masked_property_schema(done[name]))
        } else {
            done
        }
    }
}

/// An input schema after masking the properties named in `params`: only an
/// object whose `properties` is an object changes.
pub open spec fn masked_input_schema(schema: JsonModel, params: Seq<Seq<char>>) -> JsonModel {
    match schema {
        JsonModel::Object(m) => if m.contains_key("properties"@) {
            match m["properties"@] {
                JsonModel::Object(props) => JsonModel::Object(
                    m.insert("properties"@, JsonModel::Object(masked_properties(props, params))),
                ),
                _ => schema,
            }
        } else {
            schema
        },
        _ => schema,
    }
}

/// A tool's input schema after masking the file parameters in `params`;
/// with no file parameter it is left as it is.
pub open spec fn masked_tool_input_schema(schema: Map<Seq<char>, JsonModel>, params: Seq<Seq<char>>) -> Map<Seq<char>, JsonModel> {
    if params.len() == 0 {
        schema
    } else {
        match masked_input_schema(JsonModel::Object(schema), params) {
            JsonModel::Object(m) => m,
            _ => schema,
        }
    }
}

/// A tool as a server describes it.
#[derive(Debug)]
pub struct Tool {
    pub name: String,
    pub title: Option<String>,
    pub description: Option<String>,
    /// The JSON schema of the tool's arguments.
    pub input_schema: JsonMap,
    pub output_schema: Option<JsonMap>,
    /// Additional metadata, where file parameters are declared.
    pub meta: Option<JsonMap>,
}

/// The schema is an object whose `properties` is an object.
pub open spec fn has_object_properties(schema: JsonModel) -> bool {
    &&& schema is Object
    &&& schema->Object_0.contains_key("properties"@)
    &&& schema->Object_0["properties"@] is Object
}

/// `result` is `schema` (an object with an object `properties`) with the same
/// keys; every key but `properties` keeps its value; `properties` keeps its
/// keys, each property named in `params` is masked once, and every other
/// property keeps its value.
pub open spec fn properties_masked_pointwise(
    schema: Map<Seq<char>, JsonModel>,
    result: JsonModel,
    params: Seq<Seq<char>>,
) -> bool {
    let props = schema["properties"@]->Object_0;
    &&& result is Object
    &&& result->Object_0.dom() == schema.dom()
    &&& forall|k: Seq<char>| #[trigger] schema.contains_key(k) && k != "properties"@ ==> result->Object_0[k] == schema[k]
    &&& result->Object_0["properties"@] is Object
    &&& result->Object_0["properties"@]->Object_0.dom() == props.dom()
    &&& forall|k: Seq<char>| #[trigger] props.contains_key(k) ==> result->Object_0["properties"@]->Object_0[k] == if params.contains(k) {
        masked_property_schema(props[k])
    } else {
        props[k]
    }
}

/// `result` is the path schema made from the object property schema `m`: an
/// object whose keys are among `description`, `type` and `items`; of type
/// `"array"` with `items` `{"type": "string"}` when `m` has type `"array"` or
/// has `items`, and of type `"string"` without `items` otherwise; whose
/// description holds the guidance and begins with the description of `m`,
/// when that is a string.
pub open spec fn path_schema_law(m: Map<Seq<char>, JsonModel>, result: JsonModel) -> bool {
    let is_array = (m.contains_key("type"@) && m["type"@] == JsonModel::Str("array"@)) || m.contains_key("items"@);
    let f = result->Object_0;
    &&& result is Object
    &&& forall|k: Seq<char>| #[trigger] f.contains_key(k) ==> k == "description"@ || k == "type"@ || k == "items"@
    &&& f.contains_key("type"@)
    &&& is_array ==> {
        &&& f["type"@] == JsonModel::Str("array"@)
        &&& f.contains_key("items"@)
        &&& f["items"@] == JsonModel::Object(Map::<Seq<char>, JsonModel>::empty().insert("type"@, JsonModel::Str("string"@)))
    }
    &&& !is_array ==> f["type"@] == JsonModel::Str("string"@) && !f.contains_key("items"@)
    &&& f.contains_key("description"@)
    &&& f["description"@] is Str
    &&& text_contains(f["description"@]->Str_0, FILE_PATH_GUIDANCE@)
    &&& (m.contains_key("description"@) && m["description"@] is Str) ==> {
        let d0 = m["description"@]->Str_0;
        let d = f["description"@]->Str_0;
        &&& d.len() >= d0.len()
        &&& d.subrange(0, d0.len() as int) == d0
    }
}

/// The top-level name test is exactly: not empty, and none of `.`, `/`, `[`, `]`.
proof fn lemma_top_level_name_chars(s: Seq<char>)
    ensures
        is_top_level_name(s) == (s.len() > 0 && forall|i: int|
            0 <= i < s.len() ==> s[i] != '.' && s[i] != '/' && s[i] != '[' && s[i] != ']'),
{
    if s.len() > 0 && !(forall|i: int|
        0 <= i < s.len() ==> s[i] != '.' && s[i] != '/' && s[i] != '[' && s[i] != ']') {
        let i = choose|i: int|
            0 <= i < s.len() && !(s[i] != '.' && s[i] != '/' && s[i] != '[' && s[i] != ']');
        assert(has_char(s, s[i]));
    }
}

/// A name is declared exactly when it stands as a string in the array, is not
/// empty, and holds none of `.`, `/`, `[`, `]`.
pub proof fn lemma_declared_names_exact(items: Seq<JsonModel>)
    ensures
        forall|name: Seq<char>| #[trigger] top_level_string_items(items).contains(name) <==> {
            &&& items.contains(JsonModel::Str(name))
            &&& name.len() > 0
            &&& forall|i: int| 0 <= i < name.len() ==> name[i] != '.' && name[i] != '/' && name[i] != '[' && name[i] != ']'
        },
    decreases items.len(),
{
    if items.len() > 0 {
        let init = items.drop_last();
        lemma_declared_names_exact(init);
        let rest = top_level_string_items(init);
        assert forall|name: Seq<char>| #[trigger] top_level_string_items(items).contains(name) <==> {
            &&& items.contains(JsonModel::Str(name))
            &&& name.len() > 0
            &&& forall|i: int| 0 <= i < name.len() ==> name[i] != '.' && name[i] != '/' && name[i] != '[' && name[i] != ']'
        } by {
            lemma_top_level_name_chars(name);
            let r = top_level_string_items(items);
            assert(items.contains(JsonModel::Str(name)) <==> (init.contains(JsonModel::Str(name)) || items.last() == JsonModel::Str(name))) by {
                if items.contains(JsonModel::Str(name)) {
                    let j = choose|j: int| 0 <= j < items.len() && items[j] == JsonModel::Str(name);
                    if j < items.len() - 1 {
                        assert(init[j] == items[j]);
                    }
                }
                if init.contains(JsonModel::Str(name)) {
                    let j = choose|j: int| 0 <= j < init.len() && init[j] == JsonModel::Str(name);
                    assert(items[j] == init[j]);
                }
                if items.last() == JsonModel::Str(name) {
                    assert(items[items.len() - 1] == JsonModel::Str(name));
                }
            }
            assert(r.contains(name) <==> (rest.contains(name) || (items.last() == JsonModel::Str(name) && is_top_level_name(name)))) by {
                if r.contains(name) {
                    let j = choose|j: int| 0 <= j < r.len() && r[j] == name;
                    if j < rest.len() {
                        assert(rest[j] == r[j]);
                    }
                }
                if rest.contains(name) {
                    let j = choose|j: int| 0 <= j < rest.len() && rest[j] == name;
                    assert(r[j] == rest[j]);
                }
                if items.last() == JsonModel::Str(name) && is_top_level_name(name) {
                    assert(r[r.len() - 1] == name);
                }
            }
        }
    }
}

/// The shape of every masked property schema, in terms of the schema it was
/// made from.
pub proof fn lemma_masked_property_shape(schema: JsonModel)
    ensures
        !(schema is Object) ==> masked_property_schema(schema) == schema,
        schema is Object ==> path_schema_law(schema->Object_0, masked_property_schema(schema)),
{
    if schema is Object {
        let m = schema->Object_0;
        lemma_schema_literals();
        let existing = match string_field(m, "description"@) {
            Some(d) => d,
            None => Seq::<char>::empty(),
        };
        let d = masked_description(existing);
        let g = FILE_PATH_GUIDANCE@;
        if existing.len() == 0 {
            assert(d.subrange(0int, 0int + g.len()) =~= g);
            assert(d.subrange(0, 0) =~= existing);
        } else if text_contains(existing, g) {
            assert(d.subrange(0, existing.len() as int) =~= existing);
        } else {
            let at: int = existing.len() as int + 1;
            assert(d.subrange(at, at + g.len()) =~= g);
            assert(d.subrange(0, existing.len() as int) =~= existing);
        }
        let f = masked_property_schema(schema)->Object_0;
        assert(describes_array(m) == ((m.contains_key("type"@) && m["type"@] == JsonModel::Str("array"@)) || m.contains_key("items"@)));
        assert forall|k: Seq<char>| #[trigger] f.contains_key(k) implies k == "description"@ || k == "type"@ || k == "items"@ by {}
    }
}

/// Masking an input schema whose `properties` is an object masks each named
/// property once and touches nothing else; any other schema is left as it is.
pub proof fn lemma_masked_input_schema_pointwise(schema: JsonModel, params: Seq<Seq<char>>)
    ensures
        has_object_properties(schema) ==> properties_masked_pointwise(
            schema->Object_0,
            masked_input_schema(schema, params),
            params,
        ),
        !has_object_properties(schema) ==> masked_input_schema(schema, params) == schema,
        has_object_properties(schema) ==> properties_masked_pointwise(
            schema->Object_0,
            JsonModel::Object(masked_tool_input_schema(schema->Object_0, params)),
            params,
        ),
        (schema is Object && !has_object_properties(schema)) ==> masked_tool_input_schema(schema->Object_0, params)
            == schema->Object_0,
{
    if has_object_properties(schema) {
        let m = schema->Object_0;
        let props = m["properties"@]->Object_0;
        lemma_masked_properties_pointwise(props, params);
        let r = masked_input_schema(schema, params)->Object_0;
        assert(r.dom() =~= m.dom());
        if params.len() == 0 {
            assert(masked_tool_input_schema(m, params) == m);
            assert forall|k: Seq<char>| #[trigger] props.contains_key(k) implies !params.contains(k) by {}
        }
    }
}

/// Whether `field_name` names a top-level field.
pub fn is_top_level_field_name(field_name: &str) -> (res: bool)
    ensures
        res == is_top_level_name(field_name@),
        res == (field_name@.len() > 0 && forall|i: int|
            0 <= i < field_name@.len() ==> field_name@[i] != '.' && field_name@[i] != '/'
                && field_name@[i] != '[' && field_name@[i] != ']'),
{
    proof {
        lemma_top_level_name_chars(field_name@);
    }
    !field_name.is_empty() && !text_has_char(field_name, '.') && !text_has_char(field_name, '/')
        && !text_has_char(field_name, '[') && !text_has_char(field_name, ']')
}

/// The top-level field names listed under `key` in `meta`.
pub fn declared_top_level_fields(meta: Option<&JsonMap>, key: &str) -> (res: Vec<String>)
    ensures
        res.deep_view() == declared_fields(optional_map_model(meta), key@),
        forall|name: Seq<char>| #[trigger] res.deep_view().contains(name) <==> {
            &&& meta is Some
            &&& meta->0@.contains_key(key@)
            &&& meta->0@[key@] is Array
            &&& meta->0@[key@]->Array_0.contains(JsonModel::Str(name))
            &&& name.len() > 0
            &&& forall|i: int| 0 <= i < name.len() ==> name[i] != '.' && name[i] != '/' && name[i] != '[' && name[i] != ']'
        },
{
    proof {
        if meta is Some && meta->0@.contains_key(key@) && meta->0@[key@] is Array {
            lemma_declared_names_exact(meta->0@[key@]->Array_0);
        }
    }
    let mut res: Vec<String> = Vec::new();
    let m = match meta {
        Some(m) => m,
        None => {
            assert(res.deep_view() =~= Seq::<Seq<char>>::empty());
            return res;
        },
    };
    match m.get(key) {
        Some(JsonValue::Array(items)) => {
            let ghost model = items_model(items@);
            proof {
                lemma_items_model(items@);
                assert(model.take(0) =~= Seq::<JsonModel>::empty());
                assert(res.deep_view() =~= Seq::<Seq<char>>::empty());
            }
            let mut i: usize = 0;
            while i < items.len()
                invariant
                    model == items_model(items@),
                    model.len() == items@.len(),
                    forall|j: int| 0 <= j < items@.len() ==> #[trigger] model[j] == json_model(items@[j]),
                    i <= items@.len(),
                    res.deep_view() == top_level_string_items(model.take(i as int)),
                decreases items@.len() - i,
            {
                assert(model.take(i + 1).drop_last() =~= model.take(i as int));
                assert(model.take(i + 1).last() == json_model(items@[i as int]));
                match &items[i] {
                    JsonValue::String(s) => {
                        if is_top_level_field_name(s.as_str()) {
                            let ghost before = res.deep_view();
                            res.push(s.clone());
                            assert(res.deep_view() =~= before.push(s@));
                        }
                    },
                    _ => {},
                }
                i = i + 1;
            }
            assert(model.take(items@.len() as int) =~= model);
            res
        },
        _ => {
            assert(res.deep_view() =~= Seq::<Seq<char>>::empty());
            res
        },
    }
}

/// The file parameters that a tool declares in its metadata.
pub fn declared_openai_file_input_param_names(meta: Option<&JsonMap>) -> (res: Vec<String>)
    ensures
        res.deep_view() == declared_fields(optional_map_model(meta), META_OPENAI_FILE_PARAMS@),
        forall|name: Seq<char>| #[trigger] res.deep_view().contains(name) <==> {
            &&& meta is Some
            &&& meta->0@.contains_key(META_OPENAI_FILE_PARAMS@)
            &&& meta->0@[META_OPENAI_FILE_PARAMS@] is Array
            &&& meta->0@[META_OPENAI_FILE_PARAMS@]->Array_0.contains(JsonModel::Str(name))
            &&& name.len() > 0
            &&& forall|i: int| 0 <= i < name.len() ==> name[i] != '.' && name[i] != '/' && name[i] != '[' && name[i] != ']'
        },
{
    declared_top_level_fields(meta, META_OPENAI_FILE_PARAMS)
}

/// Rewrites a property schema so that it asks for a local file path (or an
/// array of them), keeping its description and adding the guidance to it.
pub fn mask_input_property_schema(schema: &mut JsonValue)
    ensures
        final(schema)@ == masked_property_schema(old(schema)@),
        !(old(schema)@ is Object) ==> final(schema)@ == old(schema)@,
        old(schema)@ is Object ==> path_schema_law(old(schema)@->Object_0, final(schema)@),
{
    proof {
        lemma_masked_property_shape(old(schema)@);
    }
    match schema {
        JsonValue::Object(object) => {
            let ghost m = object@;
            let existing = match object.get("description") {
                Some(JsonValue::String(d)) => d.clone(),
                _ => String::new(),
            };
            let ghost existing_model = match string_field(m, "description"@) {
                Some(d) => d,
                None => Seq::<char>::empty(),
            };
            assert(existing@ == existing_model);
            let description = if existing.as_str().is_empty() {
                text_to_string(FILE_PATH_GUIDANCE)
            } else if !text_contains_exec(existing.as_str(), FILE_PATH_GUIDANCE) {
                let mut d = existing;
                d.append(" ");
                d.append(FILE_PATH_GUIDANCE);
                d
            } else {
                existing
            };
            assert(description@ == masked_description(existing_model));
            let type_is_array = match object.get("type") {
                Some(JsonValue::String(t)) => text_equals(t.as_str(), "array"),
                _ => false,
            };
            let is_array = type_is_array || object.contains_key("items");
            assert(is_array == describes_array(m));
            object.clear();
            object.insert(text_to_string("description"), JsonValue::String(description));
            if is_array {
                object.insert(text_to_string("type"), JsonValue::String(text_to_string("array")));
                let mut items = JsonMap::new();
                items.insert(text_to_string("type"), JsonValue::String(text_to_string("string")));
                object.insert(text_to_string("items"), JsonValue::Object(items));
            } else {
                object.insert(text_to_string("type"), JsonValue::String(text_to_string("string")));
            }
            assert(object@ =~= file_path_schema(description@, is_array));
        },
        _ => {},
    }
}

/// Masks, in the object under `properties` of `input_schema`, each property
/// whose name is in `file_params`.
pub fn mask_input_schema_for_file_path_params(input_schema: &mut JsonValue, file_params: &[String])
    ensures
        final(input_schema)@ == masked_input_schema(old(input_schema)@, file_params.deep_view()),
        has_object_properties(old(input_schema)@) ==> properties_masked_pointwise(
            old(input_schema)@->Object_0,
            final(input_schema)@,
            file_params.deep_view(),
        ),
        !has_object_properties(old(input_schema)@) ==> final(input_schema)@ == old(input_schema)@,
{
    let ghost params = file_params.deep_view();
    proof {
        lemma_masked_input_schema_pointwise(input_schema@, params);
    }
    match input_schema {
        JsonValue::Object(schema) => {
            let ghost m = schema@;
            let has_object_properties = match schema.get("properties") {
                Some(JsonValue::Object(_)) => true,
                _ => false,
            };
            if !has_object_properties {
                return;
            }
            let taken = schema.insert(text_to_string("properties"), JsonValue::Null);
            let mut properties_value = match taken {
                Some(v) => v,
                None => JsonValue::Null,
            };
            match &mut properties_value {
                JsonValue::Object(properties) => {
                    let ghost props0 = properties@;
                    assert(params.take(0) =~= Seq::<Seq<char>>::empty());
                    let mut i: usize = 0;
                    while i < file_params.len()
                        invariant
                            params == file_params.deep_view(),
                            i <= file_params@.len(),
                            properties@ == masked_properties(props0, params.take(i as int)),
                        decreases file_params@.len() - i,
                    {
                        let name = &file_params[i];
                        assert(params.take(i + 1).drop_last() =~= params.take(i as int));
                        assert(params.take(i + 1).last() == name@);
                        if properties.contains_key(name.as_str()) {
                            let ghost before = properties@;
                            let taken_property = properties.insert(name.clone(), JsonValue::Null);
                            let mut property = match taken_property {
                                Some(p) => p,
                                None => JsonValue::Null,
                            };
                            mask_input_property_schema(&mut property);
                            properties.insert(name.clone(), property);
                            assert(properties@ =~= before.insert(name@, masked_property_schema(before[name@])));
                        }
                        i = i + 1;
                    }
                    assert(params.take(file_params@.len() as int) =~= params);
                },
                _ => {},
            }
            schema.insert(text_to_string("properties"), properties_value);
            assert(schema@ =~= masked_input_schema(JsonModel::Object(m), params)->Object_0);
        },
        _ => {},
    }
}

/// Masks, in the input schema of `tool`, the file parameters that its
/// metadata declares; a tool that declares none is left as it is.
pub fn mask_model_visible_tool_input_schema(tool: &mut Tool)
    ensures
        final(tool).name == old(tool).name,
        final(tool).title == old(tool).title,
        final(tool).description == old(tool).description,
        final(tool).output_schema == old(tool).output_schema,
        final(tool).meta == old(tool).meta,
        final(tool).input_schema@ == masked_tool_input_schema(
            old(tool).input_schema@,
            declared_fields(metadata_model(old(tool).meta), META_OPENAI_FILE_PARAMS@),
        ),
        has_object_properties(JsonModel::Object(old(tool).input_schema@)) ==> properties_masked_pointwise(
            old(tool).input_schema@,
            JsonModel::Object(final(tool).input_schema@),
            declared_fields(metadata_model(old(tool).meta), META_OPENAI_FILE_PARAMS@),
        ),
        !has_object_properties(JsonModel::Object(old(tool).input_schema@)) ==> final(tool).input_schema@
            == old(tool).input_schema@,
{
    proof {
        let params = declared_fields(metadata_model(tool.meta), META_OPENAI_FILE_PARAMS@);
        lemma_masked_input_schema_pointwise(JsonModel::Object(tool.input_schema@), params);
    }
    let file_params = declared_openai_file_input_param_names(tool.meta.as_ref());
    if file_params.len() == 0 {
        return;
    }
    let mut schema = JsonMap::new();
    std::mem::swap(&mut schema, &mut tool.input_schema);
    let mut input_schema = JsonValue::Object(schema);
    mask_input_schema_for_file_path_params(&mut input_schema, file_params.as_slice());
    match input_schema {
        JsonValue::Object(masked) => {
            tool.input_schema = masked;
        },
        _ => {},
    }
}

/// The keys of a path schema are distinct from one another, and its type
/// strings differ.
proof fn lemma_schema_literals()
    ensures
        "description"@ != "type"@,
        "description"@ != "items"@,
        "type"@ != "items"@,
        "string"@ != "array"@,
        " "@.len() == 1,
{
    reveal_strlit("description");
    reveal_strlit("type");
    reveal_strlit("items");
    reveal_strlit("string");
    reveal_strlit("array");
    reveal_strlit(" ");
    assert("description"@.len() == 11);
    assert("type"@.len() == 4);
    assert("items"@.len() == 5);
    assert("string"@.len() == 6);
    assert("array"@.len() == 5);
}

/// A masked description is masked already.
proof fn lemma_masked_description_stable(existing: Seq<char>)
    ensures
        masked_description(masked_description(existing)) == masked_description(existing),
{
    let g = FILE_PATH_GUIDANCE@;
    let d = masked_description(existing);
    lemma_schema_literals();
    if existing.len() == 0 {
        if g.len() > 0 {
            assert(d.subrange(0int, 0int + g.len()) =~= g);
        }
    } else if text_contains(existing, g) {
    } else {
        let at: int = existing.len() as int + 1;
        assert(d.subrange(at, at + g.len()) =~= g);
        assert(d.len() > 0);
    }
}

/// Masking a property schema twice gives what masking it once gives.
pub proof fn lemma_masked_property_schema_idempotent(schema: JsonModel)
    ensures
        masked_property_schema(masked_property_schema(schema)) == masked_property_schema(schema),
{
    match schema {
        JsonModel::Object(m) => {
            lemma_schema_literals();
            let existing = match string_field(m, "description"@) {
                Some(d) => d,
                None => Seq::<char>::empty(),
            };
            let d = masked_description(existing);
            let arr = describes_array(m);
            let m2 = file_path_schema(d, arr);
            assert(string_field(m2, "description"@) == Some(d));
            lemma_masked_description_stable(existing);
            assert(describes_array(m2) == arr);
        },
        _ => {},
    }
}

/// After masking, the properties are the same keys; each one named in
/// `params` is masked once, whatever the number of times it is named, and the
/// others are left as they are.
pub proof fn lemma_masked_properties_pointwise(props: Map<Seq<char>, JsonModel>, params: Seq<Seq<char>>)
    ensures
        masked_properties(props, params).dom() == props.dom(),
        forall|k: Seq<char>| #[trigger] props.contains_key(k) ==> masked_properties(props, params)[k] == if params.contains(k) {
            masked_property_schema(props[k])
        } else {
            props[k]
        },
    decreases params.len(),
{
    if params.len() > 0 {
        let init = params.drop_last();
        let name = params.last();
        lemma_masked_properties_pointwise(props, init);
        let done = masked_properties(props, init);
        assert(masked_properties(props, params).dom() =~= props.dom());
        assert forall|k: Seq<char>| #[trigger] props.contains_key(k) implies masked_properties(props, params)[k] == if params.contains(k) {
            masked_property_schema(props[k])
        } else {
            props[k]
        } by {
            assert(params.contains(k) <==> (init.contains(k) || k == name)) by {
                if params.contains(k) {
                    let j = choose|j: int| 0 <= j < params.len() && params[j] == k;
                    if j < params.len() - 1 {
                        assert(init[j] == k);
                    }
                }
                if init.contains(k) {
                    let j = choose|j: int| 0 <= j < init.len() && init[j] == k;
                    assert(params[j] == k);
                }
                if k == name {
                    assert(params[params.len() - 1] == k);
                }
            }
            if k == name {
                lemma_masked_property_schema_idempotent(props[k]);
            }
        }
    }
}

/// Masking an input schema a second time with the same file parameters
/// changes nothing.
pub proof fn lemma_masked_input_schema_idempotent(schema: JsonModel, params: Seq<Seq<char>>)
    ensures
        masked_input_schema(masked_input_schema(schema, params), params) == masked_input_schema(schema, params),
{
    match schema {
        JsonModel::Object(m) => {
            if m.contains_key("properties"@) {
                match m["properties"@] {
                    JsonModel::Object(props) => {
                        let once = masked_properties(props, params);
                        lemma_masked_properties_pointwise(props, params);
                        lemma_masked_properties_pointwise(once, params);
                        assert forall|k: Seq<char>| #[trigger] once.contains_key(k) implies masked_properties(once, params)[k] == once[k] by {
                            if params.contains(k) {
                                lemma_masked_property_schema_idempotent(props[k]);
                            }
                        }
                        assert(masked_properties(once, params) =~= once);
                        let m1 = m.insert("properties"@, JsonModel::Object(once));
                        assert(m1.insert("properties"@, JsonModel::Object(masked_properties(once, params))) =~= m1);
                    },
                    _ => {},
                }
            }
        },
        _ => {},
    }
}

/// Every declared file parameter is a top-level field name that stands as a
/// string in the declaring array.
pub proof fn lemma_declared_fields_are_top_level(items: Seq<JsonModel>)
    ensures
        forall|i: int| 0 <= i < top_level_string_items(items).len() ==> {
            &&& is_top_level_name(#[trigger] top_level_string_items(items)[i])
            &&& items.contains(JsonModel::Str(top_level_string_items(items)[i]))
        },
        top_level_string_items(items).len() <= items.len(),
    decreases items.len(),
{
    if items.len() > 0 {
        let init = items.drop_last();
        lemma_declared_fields_are_top_level(init);
        assert forall|i: int| 0 <= i < top_level_string_items(items).len() implies {
            &&& is_top_level_name(#[trigger] top_level_string_items(items)[i])
            &&& items.contains(JsonModel::Str(top_level_string_items(items)[i]))
        } by {
            let rest = top_level_string_items(init);
            if i < rest.len() {
                assert(top_level_string_items(items)[i] == rest[i]);
                let j = choose|j: int| 0 <= j < init.len() && init[j] == JsonModel::Str(rest[i]);
                assert(items[j] == init[j]);
            } else {
                assert(items[items.len() - 1] == items.last());
            }
        }
    }
}

} // verus!
