use dbt_lineage::lineage::{get_lineage, lineage_args, lineage_query};
use dbt_lineage::models::ToolRun;

fn run(stdout: &str) -> ToolRun {
    ToolRun { success: true, stdout: stdout.as_bytes().to_vec(), stderr: String::new() }
}

#[test]
fn selection_spans_both_anchors() {
    assert_eq!(lineage_query("stg_orders", "orders"), "stg_orders+,+orders");
    assert_eq!(
        lineage_args("a", "b"),
        vec!["ls", "--output", "json", "--models", "a+,+b"]
            .into_iter()
            .map(String::from)
            .collect::<Vec<String>>()
    );
}

#[test]
fn lineage_projects_metadata() {
    let out = "Running\n{\"unique_id\": \"model.p.a\", \"name\": \"a\", \"resource_type\": \"model\", \"tags\": [\"t\"], \"config\": {\"schema\": \"s\", \"materialized\": \"view\"}, \"depends_on\": {\"nodes\": [\"model.p.b\"]}}\n{\"unique_id\": \"model.p.b\", \"name\": \"b\", \"resource_type\": \"model\"}\nDone\n";
    let l = get_lineage(&run(out));
    assert_eq!(l.models.len(), 2);
    let a = &l.models[0];
    assert_eq!(a.unique_id, "model.p.a");
    assert_eq!(a.name, "a");
    assert_eq!(a.schema, "s");
    assert_eq!(a.materialization, Some("view".to_string()));
    assert_eq!(a.tags, vec!["t".to_string()]);
    assert_eq!(a.depends_on.nodes, vec!["model.p.b".to_string()]);
    let b = &l.models[1];
    assert_eq!(b.name, "b");
    assert_eq!(b.schema, "");
    assert_eq!(b.materialization, None);
    assert!(b.tags.is_empty());
    assert!(b.depends_on.nodes.is_empty());
}

#[test]
fn repeated_identifier_appears_once() {
    let out = "{\"unique_id\": \"model.p.a\", \"name\": \"a\", \"resource_type\": \"model\"}\n{\"unique_id\": \"model.p.b\", \"name\": \"b\", \"resource_type\": \"model\"}\n{\"unique_id\": \"model.p.a\", \"name\": \"again\", \"resource_type\": \"model\"}\n";
    let l = get_lineage(&run(out));
    let ids: Vec<&str> = l.models.iter().map(|m| m.unique_id.as_str()).collect();
    assert_eq!(ids, vec!["model.p.a", "model.p.b"]);
    assert_eq!(l.models[0].name, "a");
}

#[test]
fn refused_descriptor_is_left_out() {
    let out = "{\"name\": \"no_id\"}\n{\"unique_id\": \"model.p.b\", \"name\": \"b\", \"resource_type\": \"model\"}\n";
    let l = get_lineage(&run(out));
    assert_eq!(l.models.len(), 1);
    assert_eq!(l.models[0].unique_id, "model.p.b");
}

#[test]
fn single_object_listing_is_one_model() {
    let out = "{\"unique_id\": \"model.p.a\", \"name\": \"a\", \"resource_type\": \"model\"}";
    assert_eq!(get_lineage(&run(out)).models.len(), 1);
}

#[test]
fn failed_run_gives_empty_lineage() {
    let r = ToolRun { success: false, stdout: Vec::new(), stderr: "boom".to_string() };
    assert!(get_lineage(&r).models.is_empty());
    assert!(get_lineage(&run("no json\n")).models.is_empty());
}
