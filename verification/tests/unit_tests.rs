use ndc_calcite::config::{has_configuration, has_yaml_extension, upgrade_to_latest_version,
    ParsedConfiguration};
use ndc_calcite::decode::decode_rows;
use ndc_calcite::model::{Query, RelationshipType};
use ndc_calcite::query::{process_array_relationship, process_object_relationship};
use ndc_calcite::row::Row;
use ndc_calcite::text::{i64_to_dec, u64_to_dec};
use ndc_calcite::value::{clone_value, render_value, value_eq, JsonValue};
use ndc_calcite::version::{deprecated_config_warning, VersionTag};

fn row(entries: Vec<(&str, JsonValue)>) -> Row {
    Row { fields: entries.into_iter().map(|(k, v)| (k.to_string(), v)).collect() }
}

fn render_row(r: &Row) -> String {
    render_value(&JsonValue::Obj(
        r.fields.iter().map(|(k, v)| (k.clone(), clone_value(v))).collect(),
    ))
}

#[test]
fn object_relationship_keeps_at_most_one_child() {
    let parents = vec![row(vec![("k", JsonValue::Int(1)), ("child", JsonValue::Int(1))])];
    let children = vec![
        row(vec![("k", JsonValue::Int(1)), ("name", JsonValue::Str("a".to_string()))]),
        row(vec![("k", JsonValue::Int(1)), ("name", JsonValue::Str("b".to_string()))]),
    ];
    let pks = vec![("k".to_string(), "k".to_string())];
    let fks = vec!["k".to_string()];
    let child_keys = vec!["name".to_string()];
    let out = process_object_relationship(
        &parents,
        &"child".to_string(),
        &children,
        &pks,
        &fks,
        &child_keys,
    )
    .unwrap()
    .unwrap();
    assert_eq!(
        render_row(&out[0]),
        "{\"k\":1,\"child\":{\"rows\":[{\"name\":\"a\"}],\"aggregates\":null}}"
    );
}

#[test]
fn array_relationship_pagination_slices_locally() {
    let parents = vec![row(vec![("k", JsonValue::Int(1)), ("kids", JsonValue::Int(1))])];
    let children: Vec<Row> = (0..10)
        .map(|n| row(vec![("k", JsonValue::Int(1)), ("n", JsonValue::Int(n))]))
        .collect();
    let pks = vec![("k".to_string(), "k".to_string())];
    let fks = vec!["k".to_string()];
    let child_keys = vec!["n".to_string()];
    let query = Query {
        aggregates: None,
        fields: None,
        limit: Some(3),
        offset: Some(2),
        order_by: None,
        predicate: None,
    };
    let out = process_array_relationship(
        &parents,
        &"kids".to_string(),
        &children,
        &pks,
        &fks,
        &query,
        &child_keys,
    )
    .unwrap()
    .unwrap();
    // Ten matching children, limit 3 and offset 2 keep positions 2, 3, 4.
    assert_eq!(
        render_row(&out[0]),
        "{\"k\":1,\"kids\":{\"rows\":[{\"n\":2},{\"n\":3},{\"n\":4}],\"aggregates\":null}}"
    );
}

#[test]
fn array_relationship_offset_beyond_children_yields_empty_page() {
    let parents = vec![row(vec![("k", JsonValue::Int(1)), ("kids", JsonValue::Int(1))])];
    let children =
        vec![row(vec![("k", JsonValue::Int(1)), ("n", JsonValue::Int(0))])];
    let pks = vec![("k".to_string(), "k".to_string())];
    let fks = vec!["k".to_string()];
    let child_keys = vec!["n".to_string()];
    let query = Query {
        aggregates: None,
        fields: None,
        limit: Some(3),
        offset: Some(5),
        order_by: None,
        predicate: None,
    };
    let out = process_array_relationship(
        &parents,
        &"kids".to_string(),
        &children,
        &pks,
        &fks,
        &query,
        &child_keys,
    )
    .unwrap()
    .unwrap();
    assert_eq!(
        render_row(&out[0]),
        "{\"k\":1,\"kids\":{\"rows\":[],\"aggregates\":null}}"
    );
}

#[test]
fn zero_matching_children_leave_an_empty_row_list() {
    let parents = vec![row(vec![("k", JsonValue::Int(7)), ("kids", JsonValue::Int(1))])];
    let children =
        vec![row(vec![("k", JsonValue::Int(1)), ("n", JsonValue::Int(0))])];
    let pks = vec![("k".to_string(), "k".to_string())];
    let fks = vec!["k".to_string()];
    let child_keys = vec!["n".to_string()];
    let query = Query {
        aggregates: None,
        fields: None,
        limit: None,
        offset: None,
        order_by: None,
        predicate: None,
    };
    let out = process_array_relationship(
        &parents,
        &"kids".to_string(),
        &children,
        &pks,
        &fks,
        &query,
        &child_keys,
    )
    .unwrap()
    .unwrap();
    assert_eq!(
        render_row(&out[0]),
        "{\"k\":7,\"kids\":{\"rows\":[],\"aggregates\":null}}"
    );
}

#[test]
fn decoding_turns_engine_row_text_into_fields() {
    let texts = vec!["{\"a\":1,\"b\":\"two\",\"c\":[true,null],\"d\":1.5}".to_string()];
    let rows = decode_rows(&texts).unwrap();
    assert_eq!(rows.len(), 1);
    assert_eq!(
        render_row(&rows[0]),
        "{\"a\":1,\"b\":\"two\",\"c\":[true,null],\"d\":1.5}"
    );
}

#[test]
fn decoding_rejects_text_that_is_not_an_object() {
    let texts = vec!["[1,2,3]".to_string()];
    assert!(decode_rows(&texts).is_err());
}

#[test]
fn value_equality_is_deep() {
    let a = JsonValue::Obj(vec![(
        "xs".to_string(),
        JsonValue::Arr(vec![JsonValue::Int(1), JsonValue::Str("s".to_string())]),
    )]);
    let b = clone_value(&a);
    assert!(value_eq(&a, &b));
    let c = JsonValue::Obj(vec![(
        "xs".to_string(),
        JsonValue::Arr(vec![JsonValue::Int(2), JsonValue::Str("s".to_string())]),
    )]);
    assert!(!value_eq(&a, &c));
    assert!(!value_eq(&JsonValue::Int(1), &JsonValue::Num("1".to_string())));
}

#[test]
fn rendering_escapes_string_text() {
    assert_eq!(
        render_value(&JsonValue::Str("a\"b\\c".to_string())),
        "\"a\\\"b\\\\c\""
    );
    assert_eq!(render_value(&JsonValue::Bool(true)), "true");
    assert_eq!(render_value(&JsonValue::Null), "null");
    assert_eq!(render_value(&JsonValue::Arr(vec![])), "[]");
    assert_eq!(render_value(&JsonValue::Obj(vec![])), "{}");
}

#[test]
fn decimal_rendering_is_exact() {
    assert_eq!(u64_to_dec(0), "0");
    assert_eq!(u64_to_dec(907), "907");
    assert_eq!(i64_to_dec(-45), "-45");
    assert_eq!(i64_to_dec(i64::MIN), "-9223372036854775808");
}

#[test]
fn deprecated_versions_warn_and_the_current_does_not() {
    assert!(deprecated_config_warning(VersionTag::Version3)
        .unwrap()
        .starts_with("Warning: ndc-postgres configuration version '3'"));
    assert!(deprecated_config_warning(VersionTag::Version4)
        .unwrap()
        .starts_with("Warning: ndc-postgres configuration version '4'"));
    assert!(deprecated_config_warning(VersionTag::Version5).is_none());
}

#[test]
fn configuration_presence_is_judged_from_the_file_list() {
    assert!(!has_configuration(&vec![]));
    assert!(has_configuration(&vec!["configuration.json".to_string()]));
}

#[test]
fn yaml_extensions_are_recognised() {
    assert!(has_yaml_extension("model.yml"));
    assert!(has_yaml_extension("dir/model.yaml"));
    assert!(!has_yaml_extension("model.json"));
    assert!(!has_yaml_extension(".yml"));
    assert!(!has_yaml_extension("dir/.yml"));
}

#[test]
fn upgrading_the_newest_configuration_changes_nothing() {
    let p = ParsedConfiguration::empty();
    let q = upgrade_to_latest_version(p);
    assert_eq!(q.fixes, Some(true));
    assert_eq!(q.model_file_path.as_deref(), Some("/etc/connector/models/model.json"));
}

#[test]
fn absent_default_is_none() {
    assert!(ndc_calcite::default_as_none().is_none());
}

#[test]
fn cli_error_message_is_stable() {
    assert_eq!(
        ndc_calcite::cli::Error::DirectoryIsNotEmpty.message(),
        "directory is not empty"
    );
}

#[test]
fn relationship_types_compare() {
    assert_eq!(RelationshipType::Object, RelationshipType::Object);
    assert_ne!(RelationshipType::Object, RelationshipType::Array);
}

#[test]
fn array_relationship_bare_offset_still_pages() {
    let parents = vec![row(vec![("k", JsonValue::Int(1)), ("kids", JsonValue::Int(1))])];
    let children: Vec<Row> = (0..5)
        .map(|n| row(vec![("k", JsonValue::Int(1)), ("n", JsonValue::Int(n))]))
        .collect();
    let pks = vec![("k".to_string(), "k".to_string())];
    let fks = vec!["k".to_string()];
    let child_keys = vec!["n".to_string()];
    let query = Query {
        aggregates: None,
        fields: None,
        limit: None,
        offset: Some(3),
        order_by: None,
        predicate: None,
    };
    let out = process_array_relationship(
        &parents,
        &"kids".to_string(),
        &children,
        &pks,
        &fks,
        &query,
        &child_keys,
    )
    .unwrap()
    .unwrap();
    // Five matching children and a bare offset of 3 keep positions 3 and 4.
    assert_eq!(
        render_row(&out[0]),
        "{\"k\":1,\"kids\":{\"rows\":[{\"n\":3},{\"n\":4}],\"aggregates\":null}}"
    );
}

#[test]
fn shape_pass_yields_exactly_the_requested_fields() {
    let rows = vec![row(vec![
        ("CONSTANT", JsonValue::Int(1)),
        ("f1", JsonValue::Str("null".to_string())),
        ("extra", JsonValue::Int(7)),
    ])];
    let keys = vec!["f1".to_string(), "f2".to_string()];
    let fixed = ndc_calcite::query::fix_rows(&rows, &keys);
    // Exactly the requested names, in request order: the placeholder and
    // the extra engine column are gone, the null marker reads as null,
    // and the missing requested field reads as null.
    assert_eq!(render_row(&fixed[0]), "{\"f1\":null,\"f2\":null}");
}

#[test]
fn mending_pass_keeps_extra_columns_for_the_resolver() {
    let rows = vec![row(vec![
        ("f1", JsonValue::Str("null".to_string())),
        ("extra", JsonValue::Int(7)),
    ])];
    let keys = vec!["f1".to_string(), "f2".to_string()];
    let mended = ndc_calcite::query::mend_rows(&rows, &keys);
    assert_eq!(render_row(&mended[0]), "{\"f1\":null,\"extra\":7,\"f2\":null}");
}
