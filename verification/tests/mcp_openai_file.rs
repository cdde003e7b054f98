use brocode_core_logic::json::{JsonMap, JsonValue};
use brocode_core_logic::mcp_openai_file::{
    declared_openai_file_input_param_names, declared_top_level_fields, is_top_level_field_name,
    mask_input_property_schema, mask_input_schema_for_file_path_params,
    mask_model_visible_tool_input_schema, Tool, FILE_PATH_GUIDANCE,
};

fn text(v: &str) -> JsonValue {
    JsonValue::String(v.to_string())
}

fn object(entries: Vec<(&str, JsonValue)>) -> JsonMap {
    let mut m = JsonMap::new();
    for (k, v) in entries {
        m.insert(k.to_string(), v);
    }
    m
}

fn array(items: Vec<JsonValue>) -> JsonValue {
    JsonValue::Array(items)
}

fn echo_tool(meta: Option<JsonMap>) -> Tool {
    Tool {
        name: "echo".to_string(),
        title: None,
        description: None,
        input_schema: object(vec![
            ("type", text("object")),
            (
                "properties",
                JsonValue::Object(object(vec![(
                    "file",
                    JsonValue::Object(object(vec![("type", text("object"))])),
                )])),
            ),
        ]),
        output_schema: None,
        meta,
    }
}

#[test]
fn declared_openai_file_fields_ignore_nested_names() {
    let meta = object(vec![
        (
            "openai/fileParams",
            array(vec![text("file"), text("nested.value"), text("files[0]"), text("attachments")]),
        ),
        ("openai/fileOutputs", array(vec![text("output"), text("artifacts/0")])),
    ]);

    assert_eq!(
        declared_openai_file_input_param_names(Some(&meta)),
        vec!["file".to_string(), "attachments".to_string()]
    );
}

#[test]
fn mask_input_schema_for_file_path_params_rewrites_scalar_and_array_fields() {
    let mut schema = JsonValue::Object(object(vec![
        ("type", text("object")),
        (
            "properties",
            JsonValue::Object(object(vec![
                (
                    "file",
                    JsonValue::Object(object(vec![
                        ("type", text("object")),
                        ("description", text("Original file payload.")),
                    ])),
                ),
                (
                    "files",
                    JsonValue::Object(object(vec![
                        ("type", text("array")),
                        ("items", JsonValue::Object(object(vec![("type", text("object"))]))),
                    ])),
                ),
            ])),
        ),
    ]));

    mask_input_schema_for_file_path_params(&mut schema, &["file".to_string(), "files".to_string()]);

    let expected = JsonValue::Object(object(vec![
        ("type", text("object")),
        (
            "properties",
            JsonValue::Object(object(vec![
                (
                    "file",
                    JsonValue::Object(object(vec![
                        ("type", text("string")),
                        ("description", text("Original file payload. This parameter expects an absolute local file path. If you want to upload a file, provide the absolute path to that file here.")),
                    ])),
                ),
                (
                    "files",
                    JsonValue::Object(object(vec![
                        ("type", text("array")),
                        ("items", JsonValue::Object(object(vec![("type", text("string"))]))),
                        ("description", text("This parameter expects an absolute local file path. If you want to upload a file, provide the absolute path to that file here.")),
                    ])),
                ),
            ])),
        ),
    ]));
    assert!(schema.same_as(&expected), "unexpected schema: {schema:?}");
}

#[test]
fn mask_model_visible_tool_input_schema_leaves_tool_unchanged_without_declared_params() {
    let unmasked = echo_tool(None);
    let mut tool = echo_tool(None);

    mask_model_visible_tool_input_schema(&mut tool);

    assert_eq!(tool.name, unmasked.name);
    assert_eq!(tool.title, unmasked.title);
    assert_eq!(tool.description, unmasked.description);
    assert!(tool.input_schema.same_as(&unmasked.input_schema));
    assert!(tool.output_schema.is_none());
    assert!(tool.meta.is_none());
}

#[test]
fn tool_with_declared_file_param_gets_path_schema() {
    let meta = object(vec![("openai/fileParams", array(vec![text("file")]))]);
    let mut tool = echo_tool(Some(meta));

    mask_model_visible_tool_input_schema(&mut tool);

    let expected = object(vec![
        ("type", text("object")),
        (
            "properties",
            JsonValue::Object(object(vec![(
                "file",
                JsonValue::Object(object(vec![
                    ("description", text(FILE_PATH_GUIDANCE)),
                    ("type", text("string")),
                ])),
            )])),
        ),
    ]);
    assert!(tool.input_schema.same_as(&expected), "unexpected schema: {:?}", tool.input_schema);
    assert_eq!(tool.name, "echo");
}

#[test]
fn tool_whose_meta_lists_only_nested_names_is_unchanged() {
    let meta = object(vec![("openai/fileParams", array(vec![text("a.b"), text("")]))]);
    let unmasked = echo_tool(None);
    let mut tool = echo_tool(Some(meta));

    mask_model_visible_tool_input_schema(&mut tool);

    assert!(tool.input_schema.same_as(&unmasked.input_schema));
}

#[test]
fn top_level_field_names() {
    assert!(is_top_level_field_name("file"));
    assert!(is_top_level_field_name("file_path"));
    assert!(!is_top_level_field_name(""));
    assert!(!is_top_level_field_name("a.b"));
    assert!(!is_top_level_field_name("a/b"));
    assert!(!is_top_level_field_name("a[0"));
    assert!(!is_top_level_field_name("a]"));
}

#[test]
fn declared_fields_need_an_array_of_strings() {
    assert!(declared_openai_file_input_param_names(None).is_empty());

    let not_array = object(vec![("openai/fileParams", text("file"))]);
    assert!(declared_openai_file_input_param_names(Some(&not_array)).is_empty());

    let other_key = object(vec![("openai/fileOutputs", array(vec![text("file")]))]);
    assert!(declared_openai_file_input_param_names(Some(&other_key)).is_empty());

    let mixed = object(vec![(
        "params",
        array(vec![JsonValue::Null, text("b"), JsonValue::Bool(true), text("a")]),
    )]);
    assert_eq!(
        declared_top_level_fields(Some(&mixed), "params"),
        vec!["b".to_string(), "a".to_string()]
    );
}

#[test]
fn property_description_keeps_existing_guidance() {
    let already = format!("Upload. {FILE_PATH_GUIDANCE}");
    let mut schema = JsonValue::Object(object(vec![
        ("description", text(&already)),
        ("type", text("string")),
        ("format", text("uri")),
    ]));

    mask_input_property_schema(&mut schema);

    let expected = JsonValue::Object(object(vec![
        ("description", text(&already)),
        ("type", text("string")),
    ]));
    assert!(schema.same_as(&expected), "unexpected schema: {schema:?}");
}

#[test]
fn property_with_items_becomes_path_array() {
    let mut schema = JsonValue::Object(object(vec![(
        "items",
        JsonValue::Object(object(vec![("type", text("integer"))])),
    )]));

    mask_input_property_schema(&mut schema);

    let expected = JsonValue::Object(object(vec![
        ("description", text(FILE_PATH_GUIDANCE)),
        ("type", text("array")),
        ("items", JsonValue::Object(object(vec![("type", text("string"))]))),
    ]));
    assert!(schema.same_as(&expected), "unexpected schema: {schema:?}");
}

#[test]
fn non_object_property_schema_is_left_alone() {
    let mut schema = text("file");
    mask_input_property_schema(&mut schema);
    assert!(schema.same_as(&text("file")));
}

#[test]
fn schema_without_object_properties_is_left_alone() {
    let mut schema = JsonValue::Object(object(vec![("properties", text("nope"))]));
    mask_input_schema_for_file_path_params(&mut schema, &["properties".to_string()]);
    assert!(schema.same_as(&JsonValue::Object(object(vec![("properties", text("nope"))]))));

    let mut scalar = JsonValue::Number("3".to_string());
    mask_input_schema_for_file_path_params(&mut scalar, &["x".to_string()]);
    assert!(scalar.same_as(&JsonValue::Number("3".to_string())));
}

#[test]
fn masking_twice_equals_masking_once() {
    let build = || {
        JsonValue::Object(object(vec![(
            "properties",
            JsonValue::Object(object(vec![
                ("file", JsonValue::Object(object(vec![("description", text("Doc."))]))),
                ("other", JsonValue::Object(object(vec![("type", text("integer"))]))),
            ])),
        )]))
    };
    let params = ["file".to_string(), "file".to_string(), "missing".to_string()];
    let mut once = build();
    mask_input_schema_for_file_path_params(&mut once, &params[..1]);
    let mut twice = build();
    mask_input_schema_for_file_path_params(&mut twice, &params);
    mask_input_schema_for_file_path_params(&mut twice, &params);
    assert!(once.same_as(&twice), "{once:?} vs {twice:?}");
}
