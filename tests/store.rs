use dbt_lineage::dbt::{get_manifest, get_model_details, get_model_docs, get_models};
use dbt_lineage::models::{DbtManifest, ManifestSource, ToolRun};
use dbt_lineage::{DbtError, Json, ValidationError};

const CACHE: &str = r#"{"nodes": {
  "model.pkg.stg_orders": {"unique_id": "model.pkg.stg_orders", "name": "stg_orders",
    "resource_type": "model", "depends_on": {"nodes": []}, "config": {"materialized": "view"},
    "description": "Orders, staged", "schema": "analytics", "tags": ["daily"],
    "columns": {"id": {"name": "id", "type": "integer", "comment": "Key"},
                "total": {"name": "total"}},
    "relation_name": "db.analytics.stg_orders", "raw_code": "select 1"},
  "model.pkg.orders": {"unique_id": "model.pkg.orders", "name": "orders",
    "resource_type": "model", "depends_on": {"nodes": ["model.pkg.stg_orders"]}, "config": {}},
  "test.pkg.not_null_orders": {"unique_id": "test.pkg.not_null_orders", "name": "not_null_orders",
    "resource_type": "test", "config": {}},
  "model.other.xorders": {"unique_id": "model.other.xorders", "name": "xorders",
    "resource_type": "model"}
}}"#;

fn cache() -> ManifestSource {
    ManifestSource::Cache(CACHE.to_string())
}

fn tool(stdout: &str) -> ManifestSource {
    ManifestSource::Tool(ToolRun {
        success: true,
        stdout: stdout.as_bytes().to_vec(),
        stderr: String::new(),
    })
}

#[test]
fn list_models_of_single_node_cache() {
    let blob = r#"{"nodes": {"model.pkg.stg_orders": {"name": "stg_orders", "resource_type": "model", "depends_on": {"nodes": []}, "config": {}}}}"#;
    assert_eq!(
        get_models(&ManifestSource::Cache(blob.to_string())),
        vec!["stg_orders".to_string()]
    );
}

#[test]
fn list_models_leaves_out_other_kinds() {
    assert_eq!(
        get_models(&cache()),
        vec!["xorders".to_string(), "orders".to_string(), "stg_orders".to_string()]
    );
}

#[test]
fn list_models_degrades_to_empty() {
    assert!(get_models(&ManifestSource::Cache("not json".to_string())).is_empty());
    assert!(get_models(&ManifestSource::Cache("{}".to_string())).is_empty());
    assert!(get_models(&ManifestSource::Unavailable("/missing".to_string())).is_empty());
}

#[test]
fn tool_failure_carries_stderr() {
    let src = ManifestSource::Tool(ToolRun {
        success: false,
        stdout: Vec::new(),
        stderr: "Compilation Error".to_string(),
    });
    assert_eq!(
        get_model_details(&src, "orders"),
        Err(DbtError::ToolFailed("Compilation Error".to_string()))
    );
}

#[test]
fn missing_source_is_reported() {
    let src = ManifestSource::Unavailable("/backend/dbt_project".to_string());
    assert_eq!(
        get_model_details(&src, "orders"),
        Err(DbtError::SourceUnavailable("/backend/dbt_project".to_string()))
    );
}

#[test]
fn bare_name_finds_model_by_suffix() {
    let node = get_model_details(&cache(), "orders").unwrap();
    assert_eq!(node.unique_id, "model.pkg.orders");
    assert_eq!(node.depends_on.nodes, Some(vec!["model.pkg.stg_orders".to_string()]));
    assert_eq!(node.config.materialized, None);
}

#[test]
fn exact_identifier_is_preferred() {
    let node = get_model_details(&cache(), "model.pkg.stg_orders").unwrap();
    assert_eq!(node.name, "stg_orders");
    assert_eq!(node.config.materialized, Some("view".to_string()));
    assert_eq!(node.tags, vec!["daily".to_string()]);
}

#[test]
fn unknown_name_is_not_found() {
    assert_eq!(
        get_model_details(&cache(), "customers"),
        Err(DbtError::NotFound("customers".to_string()))
    );
}

#[test]
fn suffix_must_be_a_whole_component() {
    assert_eq!(
        get_model_details(&cache(), "rders"),
        Err(DbtError::NotFound("rders".to_string()))
    );
}

#[test]
fn non_model_nodes_are_not_queryable() {
    assert_eq!(
        get_model_details(&cache(), "not_null_orders"),
        Err(DbtError::NotFound("not_null_orders".to_string()))
    );
}

#[test]
fn model_from_tool_output_single_object() {
    let out = "Running\n{\"unique_id\": \"model.p.a\", \"name\": \"a\", \"resource_type\": \"model\"}\n";
    let node = get_model_details(&tool(out), "a").unwrap();
    assert_eq!(node.unique_id, "model.p.a");
    assert_eq!(node.alias, "");
    assert!(node.tags.is_empty());
    assert_eq!(node.depends_on.nodes, None);
}

#[test]
fn model_from_tool_output_array() {
    let out = "{\"unique_id\": \"model.p.a\", \"name\": \"a\", \"resource_type\": \"model\"}\n{\"unique_id\": \"model.p.b\", \"name\": \"b\", \"resource_type\": \"model\", \"alias\": \"bee\"}\n";
    let node = get_model_details(&tool(out), "b").unwrap();
    assert_eq!(node.alias, "bee");
}

#[test]
fn tool_descriptor_without_id_is_refused() {
    let out = "{\"name\": \"a\", \"resource_type\": \"model\"}";
    assert_eq!(
        get_model_details(&tool(out), "a"),
        Err(DbtError::Validation(ValidationError::MissingField("unique_id".to_string())))
    );
}

#[test]
fn tool_output_without_json_is_normalization_error() {
    assert_eq!(
        get_model_details(&tool("nothing here\n"), "a"),
        Err(DbtError::Normalization(String::new()))
    );
}

#[test]
fn cache_without_nodes_is_refused() {
    assert_eq!(
        get_model_details(&ManifestSource::Cache("{}".to_string()), "a"),
        Err(DbtError::Validation(ValidationError::MissingField("nodes".to_string())))
    );
    assert_eq!(
        get_model_details(&ManifestSource::Cache("{\"nodes\": []}".to_string()), "a"),
        Err(DbtError::Validation(ValidationError::TypeMismatch("nodes".to_string())))
    );
}

#[test]
fn corrupt_cache_is_normalization_error() {
    assert_eq!(
        get_model_details(&ManifestSource::Cache("{nodes".to_string()), "a"),
        Err(DbtError::Normalization("{nodes".to_string()))
    );
}

#[test]
fn repeated_identifier_keeps_first() {
    let out = "{\"unique_id\": \"model.p.a\", \"name\": \"first\", \"resource_type\": \"model\"}\n{\"unique_id\": \"model.p.a\", \"name\": \"second\", \"resource_type\": \"model\"}\n";
    let j = dbt_lineage::text::normalize(out.as_bytes()).unwrap();
    let m = DbtManifest::from_tool_document(&j).unwrap();
    assert_eq!(m.len(), 1);
    assert_eq!(get_model_details(&tool(out), "a").unwrap().name, "first");
}

#[test]
fn docs_of_model_with_catalog_facts() {
    let doc = get_model_docs(&cache(), "stg_orders").unwrap();
    assert_eq!(doc.general.name, Json::Str("stg_orders".to_string()));
    assert_eq!(doc.general.description, Json::Str("Orders, staged".to_string()));
    assert_eq!(doc.general.materialized, Json::Str("view".to_string()));
    assert_eq!(doc.general.schema, Json::Str("analytics".to_string()));
    assert_eq!(doc.general.database, Json::Str("Unknown".to_string()));
    assert_eq!(doc.general.primary_keys, Json::Array(vec![]));
    assert_eq!(doc.general.tags, Json::Array(vec![Json::Str("daily".to_string())]));
    assert_eq!(doc.columns.len(), 2);
    assert_eq!(doc.columns[0].name, Json::Str("id".to_string()));
    assert_eq!(doc.columns[0].data_type, Json::Str("integer".to_string()));
    assert_eq!(doc.columns[0].description, Json::Str("Key".to_string()));
    assert_eq!(doc.columns[1].data_type, Json::Str("Unknown".to_string()));
    assert_eq!(
        doc.columns[1].description,
        Json::Str("No description available".to_string())
    );
    assert_eq!(doc.sql.relation_name, Json::Str("db.analytics.stg_orders".to_string()));
    assert_eq!(doc.sql.raw_code, Json::Str("select 1".to_string()));
}

#[test]
fn docs_placeholders_for_bare_model() {
    let doc = get_model_docs(&cache(), "xorders").unwrap();
    assert_eq!(doc.general.description, Json::Str("No description available".to_string()));
    assert_eq!(doc.general.materialized, Json::Str("Unknown".to_string()));
    assert!(doc.columns.is_empty());
    assert_eq!(doc.sql.raw_code, Json::Str("No SQL code available".to_string()));
}

#[test]
fn docs_of_unknown_model_is_not_found() {
    assert_eq!(
        get_model_docs(&cache(), "nope"),
        Err(DbtError::NotFound("nope".to_string()))
    );
}

#[test]
fn raw_manifest_or_empty_object() {
    assert_eq!(get_manifest(Some("{\"nodes\": {}}".to_string())), "{\"nodes\": {}}");
    assert_eq!(get_manifest(None), "{}");
}
