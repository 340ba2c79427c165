use dbt_lineage::dbt::parse_node;
use dbt_lineage::text::normalize;
use dbt_lineage::{Json, ValidationError};

fn doc(s: &str) -> Json {
    let one_line = s.replace('\n', " ");
    normalize(one_line.as_bytes()).unwrap()
}

#[test]
fn missing_unique_id_is_refused() {
    let j = doc(r#"{"name": "a", "resource_type": "model"}"#);
    assert_eq!(
        parse_node(&j),
        Err(ValidationError::MissingField("unique_id".to_string()))
    );
}

#[test]
fn missing_name_is_refused() {
    let j = doc(r#"{"unique_id": "model.p.a", "resource_type": "model"}"#);
    assert_eq!(parse_node(&j), Err(ValidationError::MissingField("name".to_string())));
}

#[test]
fn missing_resource_type_is_refused() {
    let j = doc(r#"{"unique_id": "model.p.a", "name": "a"}"#);
    assert_eq!(
        parse_node(&j),
        Err(ValidationError::MissingField("resource_type".to_string()))
    );
}

#[test]
fn required_member_of_wrong_kind_is_a_mismatch() {
    let j = doc(r#"{"unique_id": 7, "name": "a", "resource_type": "model"}"#);
    assert_eq!(
        parse_node(&j),
        Err(ValidationError::TypeMismatch("unique_id".to_string()))
    );
    let j = doc(r#"{"unique_id": "model.p.a", "name": null, "resource_type": "model"}"#);
    assert_eq!(parse_node(&j), Err(ValidationError::TypeMismatch("name".to_string())));
}

#[test]
fn no_settings_are_accepted() {
    let j = doc(r#"{"unique_id": "model.p.a", "name": "a", "resource_type": "model", "config": {}}"#);
    let n = parse_node(&j).unwrap();
    assert_eq!(n.config.materialized, None);
    assert_eq!(n.config.enabled, None);
    assert_eq!(n.config.batch_size, None);
    assert_eq!(n.config.contract, None);
    let j = doc(r#"{"unique_id": "model.p.a", "name": "a", "resource_type": "model"}"#);
    assert!(parse_node(&j).is_ok());
}

#[test]
fn settings_are_read() {
    let j = doc(
        r#"{"unique_id": "model.p.a", "name": "a", "resource_type": "model",
        "package_name": "p", "original_file_path": "models/a.sql", "alias": "a",
        "tags": ["x", "y"], "depends_on": {"macros": ["macro.m"], "nodes": ["model.p.b"]},
        "config": {"enabled": true, "materialized": "table", "batch_size": 100,
          "lookback": 0, "contract": {"enforced": false}, "docs": {"show": true, "node_color": null},
          "meta": {"owner": "me"}, "quoting": {"database": false},
          "grants": {"select": ["r1", "r2"]}, "post_hook": ["grant"], "schema": null}}"#,
    );
    let n = parse_node(&j).unwrap();
    assert_eq!(n.package_name, "p");
    assert_eq!(n.original_file_path, "models/a.sql");
    assert_eq!(n.tags, vec!["x".to_string(), "y".to_string()]);
    assert_eq!(n.depends_on.macros, Some(vec!["macro.m".to_string()]));
    assert_eq!(n.depends_on.nodes, Some(vec!["model.p.b".to_string()]));
    let c = n.config;
    assert_eq!(c.enabled, Some(true));
    assert_eq!(c.materialized, Some("table".to_string()));
    assert_eq!(c.batch_size, Some(100));
    assert_eq!(c.lookback, Some(0));
    let contract = c.contract.unwrap();
    assert_eq!(contract.enforced, Some(false));
    assert_eq!(contract.alias_types, None);
    let docs = c.docs.unwrap();
    assert_eq!(docs.show, Some(true));
    assert_eq!(docs.node_color, None);
    assert_eq!(c.meta, Some(vec![("owner".to_string(), "me".to_string())]));
    assert_eq!(c.quoting, Some(vec![("database".to_string(), false)]));
    assert_eq!(
        c.grants,
        Some(vec![("select".to_string(), vec!["r1".to_string(), "r2".to_string()])])
    );
    assert_eq!(c.post_hook, Some(vec!["grant".to_string()]));
    assert_eq!(c.schema, None);
}

#[test]
fn setting_of_wrong_kind_is_a_mismatch() {
    let j = doc(r#"{"unique_id": "model.p.a", "name": "a", "resource_type": "model", "config": {"enabled": "yes"}}"#);
    assert_eq!(parse_node(&j), Err(ValidationError::TypeMismatch("enabled".to_string())));
}

#[test]
fn count_must_fit_u32() {
    let j = doc(r#"{"unique_id": "model.p.a", "name": "a", "resource_type": "model", "config": {"batch_size": 4294967295}}"#);
    assert_eq!(parse_node(&j).unwrap().config.batch_size, Some(4294967295));
    let j = doc(r#"{"unique_id": "model.p.a", "name": "a", "resource_type": "model", "config": {"batch_size": 4294967296}}"#);
    assert_eq!(parse_node(&j), Err(ValidationError::TypeMismatch("batch_size".to_string())));
    let j = doc(r#"{"unique_id": "model.p.a", "name": "a", "resource_type": "model", "config": {"lookback": -1}}"#);
    assert_eq!(parse_node(&j), Err(ValidationError::TypeMismatch("lookback".to_string())));
}

#[test]
fn config_that_is_not_an_object_is_a_mismatch() {
    let j = doc(r#"{"unique_id": "model.p.a", "name": "a", "resource_type": "model", "config": [1]}"#);
    assert_eq!(parse_node(&j), Err(ValidationError::TypeMismatch("config".to_string())));
}

#[test]
fn dependencies_of_wrong_kind_are_a_mismatch() {
    let j = doc(r#"{"unique_id": "model.p.a", "name": "a", "resource_type": "model", "depends_on": {"nodes": [1]}}"#);
    assert_eq!(parse_node(&j), Err(ValidationError::TypeMismatch("nodes".to_string())));
    let j = doc(r#"{"unique_id": "model.p.a", "name": "a", "resource_type": "model", "tags": "x"}"#);
    assert_eq!(parse_node(&j), Err(ValidationError::TypeMismatch("tags".to_string())));
}

#[test]
fn non_model_descriptor_still_parses() {
    let j = doc(r#"{"unique_id": "seed.p.s", "name": "s", "resource_type": "seed"}"#);
    assert_eq!(parse_node(&j).unwrap().resource_type, "seed");
}

#[test]
fn copy_of_document_is_equal() {
    let j = doc(r#"{"a": [1, {"b": null}], "c": "d"}"#);
    assert_eq!(j.duplicate(), j);
}
