use ndc_calcite::config::{ColumnMetadata, ParsedConfiguration, TableMetadata, Version};
use ndc_calcite::model::{Aggregate, ComparisonTarget, ComparisonValue, Expression, Field,
    OrderBy, OrderByElement, OrderByTarget, OrderDirection, Query, QueryError,
    RelationshipArgument, Relationship, UnaryComparisonOperator};
use ndc_calcite::sql::{parse_query, process_sql_expression, query_collection, sql_brackets,
    sql_quotes};
use ndc_calcite::value::JsonValue;

fn one_table_config(json_flavour: bool) -> ParsedConfiguration {
    ParsedConfiguration {
        version: Version::This,
        _schema: None,
        model_file_path: None,
        fixes: Some(true),
        supports_json_object: if json_flavour { Some(true) } else { None },
        jars: None,
        metadata: Some(vec![(
            "t".to_string(),
            TableMetadata {
                physical_catalog: None,
                physical_schema: None,
                catalog: Some("c".to_string()),
                schema: Some("s".to_string()),
                name: "t".to_string(),
                description: None,
                columns: vec![ColumnMetadata {
                    name: "x".to_string(),
                    description: None,
                    scalar_type: "INTEGER".to_string(),
                    nullable: true,
                }],
                primary_keys: None,
                exported_keys: None,
            },
        )]),
    }
}

fn unqualified_config() -> ParsedConfiguration {
    ParsedConfiguration {
        version: Version::This,
        _schema: None,
        model_file_path: None,
        fixes: Some(true),
        supports_json_object: None,
        jars: None,
        metadata: Some(vec![(
            "t".to_string(),
            TableMetadata {
                physical_catalog: None,
                physical_schema: None,
                catalog: None,
                schema: None,
                name: "t".to_string(),
                description: None,
                columns: vec![],
                primary_keys: None,
                exported_keys: None,
            },
        )]),
    }
}

fn no_rels() -> Vec<(String, Relationship)> {
    vec![]
}

fn no_vars() -> Vec<(String, JsonValue)> {
    vec![]
}

fn column_target(name: &str) -> ComparisonTarget {
    ComparisonTarget::Column { name: name.to_string(), field_path: None }
}

#[test]
fn empty_membership_list_compiles_to_false_subselect() {
    let config = unqualified_config();
    let expr = Expression::BinaryComparisonOperator {
        column: column_target("x"),
        operator: "_in".to_string(),
        value: ComparisonValue::Scalar { value: JsonValue::Arr(vec![]) },
    };
    let r = process_sql_expression(&config, &"t".to_string(), &no_rels(), &no_vars(), &expr)
        .unwrap();
    assert_eq!(r, "\"x\" IN (SELECT \"x\" FROM \"t\" WHERE FALSE)");
}

#[test]
fn nonempty_membership_list_compiles_to_parenthesized_list() {
    let config = unqualified_config();
    let expr = Expression::BinaryComparisonOperator {
        column: column_target("x"),
        operator: "_in".to_string(),
        value: ComparisonValue::Scalar {
            value: JsonValue::Arr(vec![JsonValue::Int(1), JsonValue::Int(2)]),
        },
    };
    let r = process_sql_expression(&config, &"t".to_string(), &no_rels(), &no_vars(), &expr)
        .unwrap();
    assert_eq!(r, "\"x\" IN (1,2)");
}

#[test]
fn string_literal_is_escaped_before_embedding() {
    let config = unqualified_config();
    let expr = Expression::BinaryComparisonOperator {
        column: column_target("x"),
        operator: "_eq".to_string(),
        value: ComparisonValue::Scalar { value: JsonValue::Str("O'Hara".to_string()) },
    };
    let r = process_sql_expression(&config, &"t".to_string(), &no_rels(), &no_vars(), &expr)
        .unwrap();
    assert_eq!(r, "\"x\" = __UTF8__O\\'Hara__UTF8__");
}

#[test]
fn boolean_combinators_recurse_and_wrap() {
    let config = unqualified_config();
    let leaf = |op: &str, n: i64| Expression::BinaryComparisonOperator {
        column: column_target("x"),
        operator: op.to_string(),
        value: ComparisonValue::Scalar { value: JsonValue::Int(n) },
    };
    let expr = Expression::And {
        expressions: vec![
            leaf("_gt", 1),
            Expression::Or { expressions: vec![leaf("_lt", 5), leaf("_eq", 7)] },
            Expression::Not { expression: Box::new(leaf("_lte", 9)) },
        ],
    };
    let r = process_sql_expression(&config, &"t".to_string(), &no_rels(), &no_vars(), &expr)
        .unwrap();
    assert_eq!(r, "(\"x\" > 1 AND (\"x\" < 5 OR \"x\" = 7) AND (NOT \"x\" <= 9))");
}

#[test]
fn is_null_compiles_to_is_null() {
    let config = unqualified_config();
    let expr = Expression::UnaryComparisonOperator {
        column: column_target("x"),
        operator: UnaryComparisonOperator::IsNull,
    };
    let r = process_sql_expression(&config, &"t".to_string(), &no_rels(), &no_vars(), &expr)
        .unwrap();
    assert_eq!(r, "\"x\" IS NULL");
}

#[test]
fn unknown_operator_is_a_hard_error() {
    let config = unqualified_config();
    let expr = Expression::BinaryComparisonOperator {
        column: column_target("x"),
        operator: "_between".to_string(),
        value: ComparisonValue::Scalar { value: JsonValue::Int(1) },
    };
    let r = process_sql_expression(&config, &"t".to_string(), &no_rels(), &no_vars(), &expr);
    assert_eq!(
        r.unwrap_err(),
        QueryError::UnknownComparisonOperator { name: "_between".to_string() }
    );
}

#[test]
fn missing_variable_is_a_hard_error_naming_it() {
    let config = unqualified_config();
    let expr = Expression::BinaryComparisonOperator {
        column: column_target("x"),
        operator: "_eq".to_string(),
        value: ComparisonValue::Variable { name: "v1".to_string() },
    };
    let r = process_sql_expression(&config, &"t".to_string(), &no_rels(), &no_vars(), &expr);
    assert_eq!(r.unwrap_err(), QueryError::VariableNotFound { name: "v1".to_string() });
}

#[test]
fn bound_variable_is_rendered_in_place() {
    let config = unqualified_config();
    let vars = vec![("v1".to_string(), JsonValue::Int(42))];
    let expr = Expression::BinaryComparisonOperator {
        column: column_target("x"),
        operator: "_eq".to_string(),
        value: ComparisonValue::Variable { name: "v1".to_string() },
    };
    let r = process_sql_expression(&config, &"t".to_string(), &no_rels(), &vars, &expr).unwrap();
    assert_eq!(r, "\"x\" = 42");
}

#[test]
fn root_collection_column_is_unsupported() {
    let config = unqualified_config();
    let expr = Expression::UnaryComparisonOperator {
        column: ComparisonTarget::RootCollectionColumn { name: "x".to_string() },
        operator: UnaryComparisonOperator::IsNull,
    };
    let r = process_sql_expression(&config, &"t".to_string(), &no_rels(), &no_vars(), &expr);
    assert_eq!(r.unwrap_err(), QueryError::UnsupportedComparisonTarget);
}

#[test]
fn related_exists_builds_correlated_subselect() {
    let config = ParsedConfiguration {
        metadata: Some(vec![
            (
                "t".to_string(),
                TableMetadata {
                    physical_catalog: None,
                    physical_schema: None,
                    catalog: None,
                    schema: None,
                    name: "t".to_string(),
                    description: None,
                    columns: vec![],
                    primary_keys: None,
                    exported_keys: None,
                },
            ),
            (
                "u".to_string(),
                TableMetadata {
                    physical_catalog: None,
                    physical_schema: None,
                    catalog: None,
                    schema: None,
                    name: "u".to_string(),
                    description: None,
                    columns: vec![],
                    primary_keys: None,
                    exported_keys: None,
                },
            ),
        ]),
        ..unqualified_config()
    };
    let rels = vec![(
        "edge".to_string(),
        Relationship {
            column_mapping: vec![("a".to_string(), "b".to_string())],
            relationship_type: ndc_calcite::model::RelationshipType::Array,
            target_collection: "u".to_string(),
        },
    )];
    let expr = Expression::Exists {
        in_collection: ndc_calcite::model::ExistsInCollection::Related {
            relationship: "edge".to_string(),
            arguments: vec![],
        },
        predicate: Some(Box::new(Expression::BinaryComparisonOperator {
            column: column_target("y"),
            operator: "_eq".to_string(),
            value: ComparisonValue::Scalar { value: JsonValue::Int(3) },
        })),
    };
    let r = process_sql_expression(&config, &"t".to_string(), &rels, &no_vars(), &expr).unwrap();
    assert_eq!(
        r,
        "EXISTS (SELECT 1 FROM \"u\" WHERE (\"t\".\"a\" = \"b\" AND \"y\" = 3) )"
    );
}

#[test]
fn unknown_collection_is_a_typed_error() {
    let config = unqualified_config();
    let expr = Expression::UnaryComparisonOperator {
        column: column_target("x"),
        operator: UnaryComparisonOperator::IsNull,
    };
    let r = process_sql_expression(&config, &"missing".to_string(), &no_rels(), &no_vars(), &expr);
    assert_eq!(r.unwrap_err(), QueryError::UnknownCollection { name: "missing".to_string() });
}

#[test]
fn sql_brackets_rewrites_array_delimiters() {
    assert_eq!(sql_brackets("[1,2]"), "(1,2)");
    assert_eq!(sql_brackets("[]"), "()");
    assert_eq!(sql_brackets("plain"), "plain");
    assert_eq!(sql_brackets("[open"), "[open");
}

#[test]
fn sql_quotes_escapes_quote_characters() {
    assert_eq!(sql_quotes("a'b"), "a\\'b");
    assert_eq!(sql_quotes("a\"b"), "a__UTF8__b");
    assert_eq!(sql_quotes("plain"), "plain");
}

#[test]
fn statement_assembly_with_all_clauses() {
    let config = one_table_config(false);
    let query = Query {
        aggregates: None,
        fields: Some(vec![("x".to_string(), Field::Column { column: "x".to_string() })]),
        limit: Some(3),
        offset: Some(2),
        order_by: Some(OrderBy {
            elements: vec![OrderByElement {
                order_direction: OrderDirection::Desc,
                target: OrderByTarget::Column { name: "x".to_string(), field_path: None },
            }],
        }),
        predicate: Some(Expression::BinaryComparisonOperator {
            column: column_target("x"),
            operator: "_gt".to_string(),
            value: ComparisonValue::Scalar { value: JsonValue::Int(0) },
        }),
    };
    let c = parse_query(&config, &"t".to_string(), &no_rels(), &vec![], &query, &no_vars())
        .unwrap();
    let stmt = query_collection(
        &config,
        &"t".to_string(),
        &c.select,
        &c.order_by,
        &c.pagination,
        &c.predicates,
        &c.join,
    )
    .unwrap();
    assert_eq!(
        stmt,
        "SELECT \"c\".\"s\".\"t\".\"x\" AS \"x\" FROM \"c\".\"s\".\"t\" WHERE \"x\" > 0 ORDER BY \"x\" DESC  LIMIT 3 OFFSET 2"
    );
}

#[test]
fn compiling_twice_yields_byte_identical_statements() {
    let config = one_table_config(false);
    let query = Query {
        aggregates: None,
        fields: Some(vec![("x".to_string(), Field::Column { column: "x".to_string() })]),
        limit: Some(1),
        offset: None,
        order_by: None,
        predicate: None,
    };
    let build = || {
        let c = parse_query(&config, &"t".to_string(), &no_rels(), &vec![], &query, &no_vars())
            .unwrap();
        query_collection(
            &config,
            &"t".to_string(),
            &c.select,
            &c.order_by,
            &c.pagination,
            &c.predicates,
            &c.join,
        )
        .unwrap()
    };
    assert_eq!(build(), build());
}

#[test]
fn empty_projection_still_yields_a_valid_statement() {
    let config = unqualified_config();
    let stmt = query_collection(
        &config,
        &"t".to_string(),
        &Some(String::new()),
        &None,
        &None,
        &None,
        &None,
    )
    .unwrap();
    assert_eq!(stmt, "SELECT 1 AS \"CONSTANT\" FROM \"t\"");
}

#[test]
fn object_construction_flavour_wraps_the_projection() {
    let config = one_table_config(true);
    let query = Query {
        aggregates: None,
        fields: Some(vec![("x".to_string(), Field::Column { column: "x".to_string() })]),
        limit: None,
        offset: None,
        order_by: None,
        predicate: None,
    };
    let c = parse_query(&config, &"t".to_string(), &no_rels(), &vec![], &query, &no_vars())
        .unwrap();
    let stmt = query_collection(
        &config,
        &"t".to_string(),
        &c.select,
        &c.order_by,
        &c.pagination,
        &c.predicates,
        &c.join,
    )
    .unwrap();
    assert_eq!(
        stmt,
        "SELECT JSON_OBJECT('x', \"c\".\"s\".\"t\".\"x\") FROM \"c\".\"s\".\"t\""
    );
}

#[test]
fn ordering_by_an_aggregate_fails_fast() {
    let config = unqualified_config();
    let query = Query {
        aggregates: None,
        fields: Some(vec![("x".to_string(), Field::Column { column: "x".to_string() })]),
        limit: None,
        offset: None,
        order_by: Some(OrderBy {
            elements: vec![OrderByElement {
                order_direction: OrderDirection::Asc,
                target: OrderByTarget::StarCountAggregate,
            }],
        }),
        predicate: None,
    };
    let e = match parse_query(&config, &"t".to_string(), &no_rels(), &vec![], &query, &no_vars())
    {
        Err(e) => e,
        Ok(_) => panic!("expected failure"),
    };
    assert_eq!(e, QueryError::UnsupportedOrderByTarget);
}

#[test]
fn duplicate_argument_names_are_rejected() {
    let config = unqualified_config();
    let query = Query {
        aggregates: None,
        fields: Some(vec![("x".to_string(), Field::Column { column: "x".to_string() })]),
        limit: None,
        offset: None,
        order_by: None,
        predicate: None,
    };
    let args = vec![
        ("a".to_string(), RelationshipArgument::Literal { value: JsonValue::Int(1) }),
        ("a".to_string(), RelationshipArgument::Literal { value: JsonValue::Int(2) }),
    ];
    let e = match parse_query(&config, &"t".to_string(), &no_rels(), &args, &query, &no_vars()) {
        Err(e) => e,
        Ok(_) => panic!("expected failure"),
    };
    assert_eq!(e, QueryError::DuplicateArgument { name: "a".to_string() });
}

#[test]
fn column_relationship_argument_is_unsupported() {
    let vars = no_vars();
    let e = match ndc_calcite::sql::eval_argument(
        &vars,
        &RelationshipArgument::Column { name: "c".to_string() },
    ) {
        Err(e) => e,
        Ok(_) => panic!("expected failure"),
    };
    assert_eq!(e, QueryError::UnsupportedRelationshipArgument);
}

#[test]
fn aggregate_projections_are_paired_with_their_names() {
    let config = unqualified_config();
    let query = Query {
        aggregates: Some(vec![
            (
                "distinct_x".to_string(),
                Aggregate::ColumnCount {
                    column: "x".to_string(),
                    distinct: true,
                    field_path: None,
                },
            ),
            (
                "total".to_string(),
                Aggregate::SingleColumn {
                    column: "x".to_string(),
                    function: "SUM".to_string(),
                    field_path: None,
                },
            ),
            ("all".to_string(), Aggregate::StarCount),
        ]),
        fields: None,
        limit: None,
        offset: None,
        order_by: None,
        predicate: None,
    };
    let c = parse_query(&config, &"t".to_string(), &no_rels(), &vec![], &query, &no_vars())
        .unwrap();
    assert_eq!(
        c.aggregates.unwrap(),
        "COUNT(DISTINCT \"x\") AS \"distinct_x\", SUM(\"x\") AS \"total\", COUNT(*) AS \"all\""
    );
}

#[test]
fn unrelated_exists_omits_the_correlation() {
    let config = unqualified_config();
    let expr = Expression::Exists {
        in_collection: ndc_calcite::model::ExistsInCollection::Unrelated {
            collection: "t".to_string(),
            arguments: vec![(
                "limit".to_string(),
                RelationshipArgument::Literal { value: JsonValue::Int(2) },
            )],
        },
        predicate: Some(Box::new(Expression::BinaryComparisonOperator {
            column: column_target("y"),
            operator: "_eq".to_string(),
            value: ComparisonValue::Scalar { value: JsonValue::Int(3) },
        })),
    };
    let r = process_sql_expression(&config, &"t".to_string(), &no_rels(), &no_vars(), &expr)
        .unwrap();
    assert_eq!(r, "EXISTS (SELECT 1 FROM \"t\" WHERE \"y\" = 3 LIMIT 2)");
}

#[test]
fn field_paths_resolve_before_the_column_name() {
    let path = Some(vec!["a".to_string(), "b".to_string()]);
    assert_eq!(ndc_calcite::sql::create_column_name(&"c".to_string(), &path), "a.bc");
    assert_eq!(ndc_calcite::sql::create_column_name(&"c".to_string(), &None), "c");
}

#[test]
fn ordering_resolves_the_column_through_its_path() {
    let config = unqualified_config();
    let query = Query {
        aggregates: None,
        fields: Some(vec![("x".to_string(), Field::Column { column: "x".to_string() })]),
        limit: None,
        offset: None,
        order_by: Some(OrderBy {
            elements: vec![OrderByElement {
                order_direction: OrderDirection::Asc,
                target: OrderByTarget::Column {
                    name: "x".to_string(),
                    field_path: Some(vec!["p".to_string()]),
                },
            }],
        }),
        predicate: None,
    };
    let c = parse_query(&config, &"t".to_string(), &no_rels(), &vec![], &query, &no_vars())
        .unwrap();
    assert_eq!(c.order_by.unwrap(), "\"x.p\" ASC");
}

#[test]
fn negative_literals_render_with_their_sign() {
    let config = unqualified_config();
    let expr = Expression::BinaryComparisonOperator {
        column: column_target("x"),
        operator: "_gte".to_string(),
        value: ComparisonValue::Scalar { value: JsonValue::Int(-45) },
    };
    let r = process_sql_expression(&config, &"t".to_string(), &no_rels(), &no_vars(), &expr)
        .unwrap();
    assert_eq!(r, "\"x\" >= -45");
}

#[test]
fn limit_without_offset_yields_only_the_limit_clause() {
    let config = unqualified_config();
    let query = Query {
        aggregates: None,
        fields: Some(vec![("x".to_string(), Field::Column { column: "x".to_string() })]),
        limit: Some(7),
        offset: None,
        order_by: None,
        predicate: None,
    };
    let c = parse_query(&config, &"t".to_string(), &no_rels(), &vec![], &query, &no_vars())
        .unwrap();
    assert_eq!(c.pagination.unwrap(), " LIMIT 7");
}
