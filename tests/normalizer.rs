use dbt_lineage::text::{clean_dbt_output, normalize, plain_listing};
use dbt_lineage::{DbtError, Json};

fn obj(pairs: Vec<(&str, Json)>) -> Json {
    Json::Object(pairs.into_iter().map(|(k, v)| (k.to_string(), v)).collect())
}

fn text(s: &str) -> Json {
    Json::Str(s.to_string())
}

#[test]
fn log_lines_around_two_objects_become_an_array() {
    let out = b"Running with dbt\n{\"name\":\"a\"}\n{\"name\":\"b\"}\nDone\n";
    assert_eq!(clean_dbt_output(out), "[{\"name\":\"a\"},{\"name\":\"b\"}]");
    let doc = normalize(out).unwrap();
    assert_eq!(
        doc,
        Json::Array(vec![obj(vec![("name", text("a"))]), obj(vec![("name", text("b"))])])
    );
}

#[test]
fn single_object_passes_through_unchanged() {
    let out = b"{\"name\": \"a\", \"n\": 3}";
    assert_eq!(clean_dbt_output(out), "{\"name\": \"a\", \"n\": 3}");
    let doc = normalize(out).unwrap();
    assert_eq!(
        doc,
        obj(vec![("n", Json::Number("3".to_string())), ("name", text("a"))])
    );
}

#[test]
fn single_object_with_log_lines_keeps_only_the_object() {
    let out = b"12:00 Running\n  {\"x\": true}  \nDone.\n";
    assert_eq!(clean_dbt_output(out), "  {\"x\": true}  ");
    assert_eq!(normalize(out).unwrap(), obj(vec![("x", Json::Bool(true))]));
}

#[test]
fn fragments_keep_their_order() {
    let out = b"[1]\n{\"b\":null}\n[\"c\"]";
    assert_eq!(clean_dbt_output(out), "[[1],{\"b\":null},[\"c\"]]");
    assert_eq!(
        normalize(out).unwrap(),
        Json::Array(vec![
            Json::Array(vec![Json::Number("1".to_string())]),
            obj(vec![("b", Json::Null)]),
            Json::Array(vec![text("c")]),
        ])
    );
}

#[test]
fn crlf_endings_are_dropped() {
    let out = b"log\r\n{\"a\":1}\r\n{\"a\":2}\r\n";
    assert_eq!(clean_dbt_output(out), "[{\"a\":1},{\"a\":2}]");
}

#[test]
fn line_closing_a_bracket_is_kept() {
    let out = b"noise\n\"tail\": 1}\n";
    assert_eq!(clean_dbt_output(out), "\"tail\": 1}");
}

#[test]
fn output_without_json_is_a_normalization_error() {
    let out = b"Running with dbt\nNothing to do.\n";
    assert_eq!(clean_dbt_output(out), "");
    assert_eq!(normalize(out), Err(DbtError::Normalization(String::new())));
}

#[test]
fn broken_fragment_is_a_normalization_error() {
    let out = b"{\"a\":\n1}\n";
    assert_eq!(clean_dbt_output(out), "[{\"a\":,1}]");
    assert_eq!(
        normalize(out),
        Err(DbtError::Normalization("[{\"a\":,1}]".to_string()))
    );
}

#[test]
fn empty_output_cleans_to_nothing() {
    assert_eq!(clean_dbt_output(b""), "");
}

#[test]
fn invalid_utf8_cleans_to_nothing() {
    assert_eq!(clean_dbt_output(&[0xff, b'{', b'}']), "");
}

#[test]
fn plain_listing_trims_and_skips_empty_lines() {
    let out = b"  model.pkg.a  \n\n\tmodel.pkg.b\r\n   \n";
    assert_eq!(
        plain_listing(out),
        vec!["model.pkg.a".to_string(), "model.pkg.b".to_string()]
    );
}

#[test]
fn plain_listing_of_nothing_is_empty() {
    assert!(plain_listing(b"").is_empty());
}
