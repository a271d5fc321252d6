use ndc_calcite::config::{ColumnMetadata, ParsedConfiguration, TableMetadata, Version};
use ndc_calcite::model::{Field, Query, QueryError, Relationship, RelationshipType};
use ndc_calcite::query::{orchestrate_query, Orchestration, QueryParams, Transcript};
use ndc_calcite::row::Row;
use ndc_calcite::value::{render_value, JsonValue};

fn column(name: &str) -> ColumnMetadata {
    ColumnMetadata {
        name: name.to_string(),
        description: None,
        scalar_type: "INTEGER".to_string(),
        nullable: true,
    }
}

fn table(name: &str, cols: &[&str]) -> TableMetadata {
    TableMetadata {
        physical_catalog: None,
        physical_schema: None,
        catalog: None,
        schema: None,
        name: name.to_string(),
        description: None,
        columns: cols.iter().map(|c| column(c)).collect(),
        primary_keys: None,
        exported_keys: None,
    }
}

fn orders_customers_config() -> ParsedConfiguration {
    ParsedConfiguration {
        version: Version::This,
        _schema: None,
        model_file_path: None,
        fixes: Some(true),
        supports_json_object: None,
        jars: None,
        metadata: Some(vec![
            ("orders".to_string(), table("orders", &["id", "customer_id"])),
            ("customers".to_string(), table("customers", &["id", "name"])),
        ]),
    }
}

fn plain_query(fields: Vec<(String, Field)>) -> Query {
    Query {
        aggregates: None,
        fields: Some(fields),
        limit: None,
        offset: None,
        order_by: None,
        predicate: None,
    }
}

fn column_field(name: &str) -> (String, Field) {
    (name.to_string(), Field::Column { column: name.to_string() })
}

fn customer_relationship() -> Relationship {
    Relationship {
        column_mapping: vec![("customer_id".to_string(), "id".to_string())],
        relationship_type: RelationshipType::Object,
        target_collection: "customers".to_string(),
    }
}

fn rows_as_text(rows: &[Row]) -> Vec<String> {
    rows.iter()
        .map(|r| {
            render_value(&JsonValue::Obj(
                r.fields
                    .iter()
                    .map(|(k, v)| (k.clone(), ndc_calcite::value::clone_value(v)))
                    .collect(),
            ))
        })
        .collect()
}

#[test]
fn flat_request_needs_exactly_one_statement() {
    let config = orders_customers_config();
    let coll = "orders".to_string();
    let coll_rel: Vec<(String, Relationship)> = vec![];
    let args = vec![];
    let vars = vec![];
    let query = plain_query(vec![column_field("id"), column_field("customer_id")]);
    let params = QueryParams {
        config: &config,
        coll: &coll,
        coll_rel: &coll_rel,
        args: &args,
        query: &query,
        vars: &vars,
    };
    let mut transcript: Transcript = Vec::new();
    let first = orchestrate_query(params, &transcript).unwrap();
    let stmt = match first {
        Orchestration::Need(s) => s,
        Orchestration::Done(_) => panic!("expected a statement request"),
    };
    assert_eq!(
        stmt,
        "SELECT \"orders\".\"id\" AS \"id\",\"orders\".\"customer_id\" AS \"customer_id\" FROM \"orders\""
    );
    transcript.push((
        stmt,
        vec![
            "{\"id\":1,\"customer_id\":9}".to_string(),
            "{\"id\":2,\"customer_id\":9}".to_string(),
        ],
    ));
    let params2 = QueryParams {
        config: &config,
        coll: &coll,
        coll_rel: &coll_rel,
        args: &args,
        query: &query,
        vars: &vars,
    };
    let second = orchestrate_query(params2, &transcript).unwrap();
    match second {
        Orchestration::Done(rs) => {
            let rows = rs.rows.unwrap();
            assert_eq!(rows.len(), 2);
            let texts = rows_as_text(&rows);
            assert_eq!(texts[0], "{\"id\":1,\"customer_id\":9}");
            assert_eq!(texts[1], "{\"id\":2,\"customer_id\":9}");
            assert!(rs.aggregates.is_none());
        }
        Orchestration::Need(s) => panic!("unexpected second statement: {}", s),
    }
    // Exactly one statement was enough: the transcript holds one entry.
    assert_eq!(transcript.len(), 1);
}

#[test]
fn relationship_scenario_stitches_customers_onto_orders() {
    let config = orders_customers_config();
    let coll = "orders".to_string();
    let coll_rel = vec![("customer".to_string(), customer_relationship())];
    let args = vec![];
    let vars = vec![];
    let query = plain_query(vec![
        column_field("id"),
        (
            "customer".to_string(),
            Field::Relationship {
                relationship: "customer".to_string(),
                arguments: vec![],
                query: Box::new(plain_query(vec![column_field("name")])),
            },
        ),
    ]);
    let mut transcript: Transcript = Vec::new();
    let mut statements: Vec<String> = Vec::new();
    let answers: Vec<Vec<String>> = vec![
        vec![
            "{\"id\":1,\"customer\":1,\"customer_id\":9}".to_string(),
            "{\"id\":2,\"customer\":1,\"customer_id\":9}".to_string(),
        ],
        vec!["{\"name\":\"Ann\",\"customer_id\":9}".to_string()],
    ];
    let result = loop {
        let params = QueryParams {
            config: &config,
            coll: &coll,
            coll_rel: &coll_rel,
            args: &args,
            query: &query,
            vars: &vars,
        };
        match orchestrate_query(params, &transcript).unwrap() {
            Orchestration::Need(s) => {
                let answer = answers[statements.len()].clone();
                statements.push(s.clone());
                transcript.push((s, answer));
            }
            Orchestration::Done(rs) => break rs,
        }
    };
    // One base statement plus one per relationship field.
    assert_eq!(statements.len(), 2);
    assert_eq!(
        statements[0],
        "SELECT \"orders\".\"id\" AS \"id\",1 AS \"customer\",\"orders\".\"customer_id\" FROM \"orders\""
    );
    assert_eq!(
        statements[1],
        "SELECT \"customers\".\"name\" AS \"name\",\"customers\".\"id\" AS \"customer_id\" FROM \"customers\" WHERE \"id\" IN (9,9)"
    );
    let rows = result.rows.unwrap();
    let texts = rows_as_text(&rows);
    assert_eq!(
        texts[0],
        "{\"id\":1,\"customer\":{\"rows\":[{\"name\":\"Ann\"}],\"aggregates\":null}}"
    );
    assert_eq!(
        texts[1],
        "{\"id\":2,\"customer\":{\"rows\":[{\"name\":\"Ann\"}],\"aggregates\":null}}"
    );
}

#[test]
fn composite_key_relationship_is_rejected() {
    let rel = Relationship {
        column_mapping: vec![
            ("a".to_string(), "x".to_string()),
            ("b".to_string(), "y".to_string()),
        ],
        relationship_type: RelationshipType::Object,
        target_collection: "t".to_string(),
    };
    let r = ndc_calcite::query::parse_relationship(&rel);
    assert_eq!(r.unwrap_err(), QueryError::CompositeKey { name: "t".to_string() });
}

#[test]
fn composite_key_relationship_aborts_the_whole_request() {
    let config = orders_customers_config();
    let coll = "orders".to_string();
    let mut rel = customer_relationship();
    rel.column_mapping.push(("id".to_string(), "id".to_string()));
    let coll_rel = vec![("customer".to_string(), rel)];
    let args = vec![];
    let vars = vec![];
    let query = plain_query(vec![
        column_field("id"),
        (
            "customer".to_string(),
            Field::Relationship {
                relationship: "customer".to_string(),
                arguments: vec![],
                query: Box::new(plain_query(vec![column_field("name")])),
            },
        ),
    ]);
    let mut transcript: Transcript = Vec::new();
    let params = QueryParams {
        config: &config,
        coll: &coll,
        coll_rel: &coll_rel,
        args: &args,
        query: &query,
        vars: &vars,
    };
    let first = match orchestrate_query(params, &transcript).unwrap() {
        Orchestration::Need(s) => s,
        Orchestration::Done(_) => panic!("expected a statement request"),
    };
    transcript.push((first, vec!["{\"id\":1,\"customer\":1,\"customer_id\":9}".to_string()]));
    let params2 = QueryParams {
        config: &config,
        coll: &coll,
        coll_rel: &coll_rel,
        args: &args,
        query: &query,
        vars: &vars,
    };
    let e = match orchestrate_query(params2, &transcript) {
        Err(e) => e,
        Ok(_) => panic!("expected failure"),
    };
    assert_eq!(e, QueryError::CompositeKey { name: "customers".to_string() });
}

#[test]
fn unknown_relationship_name_is_a_typed_error() {
    let config = orders_customers_config();
    let coll = "orders".to_string();
    let coll_rel: Vec<(String, Relationship)> = vec![];
    let args = vec![];
    let vars = vec![];
    let query = plain_query(vec![(
        "customer".to_string(),
        Field::Relationship {
            relationship: "customer".to_string(),
            arguments: vec![],
            query: Box::new(plain_query(vec![column_field("name")])),
        },
    )]);
    let mut transcript: Transcript = Vec::new();
    let params = QueryParams {
        config: &config,
        coll: &coll,
        coll_rel: &coll_rel,
        args: &args,
        query: &query,
        vars: &vars,
    };
    let first = match orchestrate_query(params, &transcript).unwrap() {
        Orchestration::Need(s) => s,
        Orchestration::Done(_) => panic!("expected a statement request"),
    };
    transcript.push((first, vec!["{\"customer\":1}".to_string()]));
    let params2 = QueryParams {
        config: &config,
        coll: &coll,
        coll_rel: &coll_rel,
        args: &args,
        query: &query,
        vars: &vars,
    };
    let e = match orchestrate_query(params2, &transcript) {
        Err(e) => e,
        Ok(_) => panic!("expected failure"),
    };
    assert_eq!(e, QueryError::UnknownRelationship { name: "customer".to_string() });
}

#[test]
fn engine_answer_that_is_not_an_object_is_invalid() {
    let config = orders_customers_config();
    let coll = "orders".to_string();
    let coll_rel: Vec<(String, Relationship)> = vec![];
    let args = vec![];
    let vars = vec![];
    let query = plain_query(vec![column_field("id")]);
    let mut transcript: Transcript = Vec::new();
    let params = QueryParams {
        config: &config,
        coll: &coll,
        coll_rel: &coll_rel,
        args: &args,
        query: &query,
        vars: &vars,
    };
    let first = match orchestrate_query(params, &transcript).unwrap() {
        Orchestration::Need(s) => s,
        Orchestration::Done(_) => panic!("expected a statement request"),
    };
    transcript.push((first, vec!["not valid row text".to_string()]));
    let params2 = QueryParams {
        config: &config,
        coll: &coll,
        coll_rel: &coll_rel,
        args: &args,
        query: &query,
        vars: &vars,
    };
    let e = match orchestrate_query(params2, &transcript) {
        Err(e) => e,
        Ok(_) => panic!("expected failure"),
    };
    assert_eq!(e, QueryError::InvalidRow);
}

#[test]
fn shape_is_mended_to_exactly_the_requested_fields() {
    let config = orders_customers_config();
    let coll = "orders".to_string();
    let coll_rel: Vec<(String, Relationship)> = vec![];
    let args = vec![];
    let vars = vec![];
    let query = plain_query(vec![column_field("id"), column_field("customer_id")]);
    let mut transcript: Transcript = Vec::new();
    let params = QueryParams {
        config: &config,
        coll: &coll,
        coll_rel: &coll_rel,
        args: &args,
        query: &query,
        vars: &vars,
    };
    let first = match orchestrate_query(params, &transcript).unwrap() {
        Orchestration::Need(s) => s,
        Orchestration::Done(_) => panic!("expected a statement request"),
    };
    // The engine answers sparsely and with an extra column; the null
    // marker text reads as a true null.
    transcript.push((
        first,
        vec!["{\"id\":1,\"extra\":7,\"customer_id\":\"null\"}".to_string()],
    ));
    let params2 = QueryParams {
        config: &config,
        coll: &coll,
        coll_rel: &coll_rel,
        args: &args,
        query: &query,
        vars: &vars,
    };
    match orchestrate_query(params2, &transcript).unwrap() {
        Orchestration::Done(rs) => {
            let rows = rs.rows.unwrap();
            let texts = rows_as_text(&rows);
            assert_eq!(texts[0], "{\"id\":1,\"customer_id\":null}");
        }
        Orchestration::Need(s) => panic!("unexpected statement: {}", s),
    }
}

#[test]
fn aggregates_default_to_zero_when_the_engine_returns_none() {
    let config = orders_customers_config();
    let coll = "orders".to_string();
    let coll_rel: Vec<(String, Relationship)> = vec![];
    let args = vec![];
    let vars = vec![];
    let query = Query {
        aggregates: Some(vec![(
            "cnt".to_string(),
            ndc_calcite::model::Aggregate::StarCount,
        )]),
        fields: None,
        limit: None,
        offset: None,
        order_by: None,
        predicate: None,
    };
    let mut transcript: Transcript = Vec::new();
    let params = QueryParams {
        config: &config,
        coll: &coll,
        coll_rel: &coll_rel,
        args: &args,
        query: &query,
        vars: &vars,
    };
    let stmt = match orchestrate_query(params, &transcript).unwrap() {
        Orchestration::Need(s) => s,
        Orchestration::Done(_) => panic!("expected a statement request"),
    };
    assert_eq!(stmt, "SELECT COUNT(*) AS \"cnt\" FROM \"orders\"");
    transcript.push((stmt, vec![]));
    let params2 = QueryParams {
        config: &config,
        coll: &coll,
        coll_rel: &coll_rel,
        args: &args,
        query: &query,
        vars: &vars,
    };
    match orchestrate_query(params2, &transcript).unwrap() {
        Orchestration::Done(rs) => {
            assert!(rs.rows.is_none());
            let aggs = rs.aggregates.unwrap();
            assert_eq!(aggs.len(), 1);
            assert_eq!(aggs[0].0, "cnt");
            assert_eq!(render_value(&aggs[0].1), "0");
        }
        Orchestration::Need(s) => panic!("unexpected statement: {}", s),
    }
}

#[test]
fn object_construction_flavour_projects_relationship_keys_too() {
    let mut config = orders_customers_config();
    config.supports_json_object = Some(true);
    let coll = "orders".to_string();
    let coll_rel = vec![("customer".to_string(), customer_relationship())];
    let args = vec![];
    let vars = vec![];
    let query = plain_query(vec![
        column_field("id"),
        (
            "customer".to_string(),
            Field::Relationship {
                relationship: "customer".to_string(),
                arguments: vec![],
                query: Box::new(plain_query(vec![column_field("name")])),
            },
        ),
    ]);
    let transcript = Vec::new();
    let params = QueryParams {
        config: &config,
        coll: &coll,
        coll_rel: &coll_rel,
        args: &args,
        query: &query,
        vars: &vars,
    };
    match orchestrate_query(params, &transcript).unwrap() {
        Orchestration::Need(s) => assert_eq!(
            s,
            "SELECT JSON_OBJECT('id', \"orders\".\"id\",'customer', 1,'customer_id', \"orders\".\"customer_id\") FROM \"orders\""
        ),
        Orchestration::Done(_) => panic!("expected a statement request"),
    }
}
