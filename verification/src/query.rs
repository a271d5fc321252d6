use vstd::prelude::*;
use crate::config::ParsedConfiguration;
use crate::model::{assoc_get, Aggregate, ComparisonTarget, ComparisonValue, Expression, Field,
    OrderBy, OrderByElement, OrderByTarget, ExistsInCollection, Query, QueryError,
    Relationship, RelationshipArgument, RelationshipType, RowSet};
use crate::row::{Row, RowV, lookup_field, lookup_or_null, project_v, project_row, set_field_v,
    mend_row_v, mend_row, fix_row_v, fix_row, get_field};
use crate::text::{views_of, copy_string};
use crate::value::{JsonValue, ValueV, obj_view, clone_value, lemma_obj_view_push};
use crate::decode::rows_view;

verus! {

broadcast use vstd::seq::group_seq_axioms, vstd::std_specs::vec::group_vec_axioms;

/// How deeply a query nests relationship sub-queries: one for the query
/// itself, plus the deepest relationship field.
pub open spec fn query_depth(q: Query) -> nat
    decreases q,
{
    match q.fields {
        None => 1,
        Some(fs) => 1 + fields_depth(fs@),
    }
}

pub open spec fn fields_depth(fs: Seq<(String, Field)>) -> nat
    decreases fs,
{
    if fs.len() == 0 {
        0
    } else {
        let d1 = fields_depth(fs.drop_last());
        let d2 = field_depth(fs.last().1);
        if d1 > d2 {
            d1
        } else {
            d2
        }
    }
}

pub open spec fn field_depth(f: Field) -> nat
    decreases f,
{
    match f {
        Field::Column { .. } => 0,
        Field::Relationship { query, .. } => query_depth(*query),
    }
}

proof fn lemma_fields_depth_bound(fs: Seq<(String, Field)>, i: int)
    requires
        0 <= i < fs.len(),
    ensures
        field_depth(fs[i].1) <= fields_depth(fs),
    decreases fs,
{
    if i < fs.len() - 1 {
        lemma_fields_depth_bound(fs.drop_last(), i);
    }
}

proof fn lemma_fields_depth_push(fs: Seq<(String, Field)>, x: (String, Field))
    ensures
        fields_depth(fs.push(x)) == if fields_depth(fs) > field_depth(x.1) {
            fields_depth(fs)
        } else {
            field_depth(x.1)
        },
{
    assert(fs.push(x).drop_last() =~= fs);
    assert(fs.push(x).last() == x);
}

/// How many requested fields are relationship fields.
pub open spec fn rel_field_count(fs: Seq<(String, Field)>) -> nat
    decreases fs,
{
    if fs.len() == 0 {
        0
    } else {
        rel_field_count(fs.drop_last()) + (match fs.last().1 {
            Field::Column { .. } => 0nat,
            Field::Relationship { .. } => 1nat,
        })
    }
}

fn clone_relationship_argument(a: &RelationshipArgument) -> RelationshipArgument {
    match a {
        RelationshipArgument::Variable { name } => RelationshipArgument::Variable {
            name: copy_string(name),
        },
        RelationshipArgument::Literal { value } => RelationshipArgument::Literal {
            value: clone_value(value),
        },
        RelationshipArgument::Column { name } => RelationshipArgument::Column {
            name: copy_string(name),
        },
    }
}

fn clone_arguments(args: &Vec<(String, RelationshipArgument)>) -> Vec<(String, RelationshipArgument)> {
    let mut out: Vec<(String, RelationshipArgument)> = Vec::new();
    let mut i: usize = 0;
    while i < args.len()
        decreases args.len() - i,
    {
        let entry = &args[i];
        out.push((copy_string(&entry.0), clone_relationship_argument(&entry.1)));
        i += 1;
    }
    out
}

fn clone_comparison_target(t: &ComparisonTarget) -> ComparisonTarget {
    match t {
        ComparisonTarget::Column { name, field_path } => ComparisonTarget::Column {
            name: copy_string(name),
            field_path: clone_path(field_path),
        },
        ComparisonTarget::RootCollectionColumn { name } => ComparisonTarget::RootCollectionColumn {
            name: copy_string(name),
        },
    }
}

fn clone_path(p: &Option<Vec<String>>) -> Option<Vec<String>> {
    match p {
        None => None,
        Some(parts) => {
            let mut out: Vec<String> = Vec::new();
            let mut i: usize = 0;
            while i < parts.len()
                decreases parts.len() - i,
            {
                out.push(copy_string(&parts[i]));
                i += 1;
            }
            Some(out)
        },
    }
}

#[verifier::loop_isolation(false)]
fn clone_expression(e: &Expression) -> Expression
    decreases e,
{
    match e {
        Expression::And { expressions } => {
            let mut out: Vec<Expression> = Vec::new();
            let mut i: usize = 0;
            while i < expressions.len()
                decreases expressions.len() - i,
            {
                out.push(clone_expression(&expressions[i]));
                i += 1;
            }
            Expression::And { expressions: out }
        },
        Expression::Or { expressions } => {
            let mut out: Vec<Expression> = Vec::new();
            let mut i: usize = 0;
            while i < expressions.len()
                decreases expressions.len() - i,
            {
                out.push(clone_expression(&expressions[i]));
                i += 1;
            }
            Expression::Or { expressions: out }
        },
        Expression::Not { expression } => Expression::Not {
            expression: Box::new(clone_expression(expression)),
        },
        Expression::UnaryComparisonOperator { column, operator } => Expression::UnaryComparisonOperator {
            column: clone_comparison_target(column),
            operator: *operator,
        },
        Expression::BinaryComparisonOperator { column, operator, value } => Expression::BinaryComparisonOperator {
            column: clone_comparison_target(column),
            operator: copy_string(operator),
            value: match value {
                ComparisonValue::Column { target } => ComparisonValue::Column {
                    target: clone_comparison_target(target),
                },
                ComparisonValue::Scalar { value: sv } => ComparisonValue::Scalar {
                    value: clone_value(sv),
                },
                ComparisonValue::Variable { name } => ComparisonValue::Variable {
                    name: copy_string(name),
                },
            },
        },
        Expression::Exists { in_collection, predicate } => Expression::Exists {
            in_collection: match in_collection {
                ExistsInCollection::Related { relationship, arguments } => ExistsInCollection::Related {
                    relationship: copy_string(relationship),
                    arguments: clone_arguments(arguments),
                },
                ExistsInCollection::Unrelated { collection, arguments } => ExistsInCollection::Unrelated {
                    collection: copy_string(collection),
                    arguments: clone_arguments(arguments),
                },
            },
            predicate: match predicate {
                None => None,
                Some(p) => Some(Box::new(clone_expression(p))),
            },
        },
    }
}

#[verifier::loop_isolation(false)]
fn clone_aggregates(aggs: &Vec<(String, Aggregate)>) -> (r: Vec<(String, Aggregate)>)
    ensures
        r@.len() == aggs@.len(),
        forall|j: int| 0 <= j < aggs@.len() ==> (#[trigger] r@[j]).0@ == aggs@[j].0@,
{
    let mut out: Vec<(String, Aggregate)> = Vec::new();
    let mut i: usize = 0;
    while i < aggs.len()
        invariant
            i <= aggs.len(),
            out@.len() == i,
            forall|j: int| 0 <= j < i ==> (#[trigger] out@[j]).0@ == aggs@[j].0@,
        decreases aggs.len() - i,
    {
        let entry = &aggs[i];
        let agg = match &entry.1 {
            Aggregate::ColumnCount { column, distinct, field_path } => Aggregate::ColumnCount {
                column: copy_string(column),
                distinct: *distinct,
                field_path: clone_path(field_path),
            },
            Aggregate::SingleColumn { column, function, field_path } => Aggregate::SingleColumn {
                column: copy_string(column),
                function: copy_string(function),
                field_path: clone_path(field_path),
            },
            Aggregate::StarCount => Aggregate::StarCount,
        };
        out.push((copy_string(&entry.0), agg));
        i += 1;
    }
    out
}

fn clone_order_by(ob: &OrderBy) -> OrderBy {
    let mut out: Vec<OrderByElement> = Vec::new();
    let mut i: usize = 0;
    while i < ob.elements.len()
        decreases ob.elements.len() - i,
    {
        let el = &ob.elements[i];
        let target = match &el.target {
            OrderByTarget::Column { name, field_path } => OrderByTarget::Column {
                name: copy_string(name),
                field_path: clone_path(field_path),
            },
            OrderByTarget::SingleColumnAggregate { column, function } => OrderByTarget::SingleColumnAggregate {
                column: copy_string(column),
                function: copy_string(function),
            },
            OrderByTarget::StarCountAggregate => OrderByTarget::StarCountAggregate,
        };
        out.push(OrderByElement { order_direction: el.order_direction, target });
        i += 1;
    }
    OrderBy { elements: out }
}

/// One requested field looks like another, seen from outside its
/// sub-query: the same variant, naming the same column or the same
/// relationship.
pub open spec fn field_like(a: Field, b: Field) -> bool {
    match (a, b) {
        (Field::Column { column: ca }, Field::Column { column: cb }) => ca@ == cb@,
        (
            Field::Relationship { relationship: ra, .. },
            Field::Relationship { relationship: rb, .. },
        ) => ra@ == rb@,
        _ => false,
    }
}

#[verifier::loop_isolation(false)]
fn clone_field(f: &Field) -> (r: Field)
    ensures
        field_depth(r) == field_depth(*f),
        field_like(r, *f),
    decreases f,
{
    match f {
        Field::Column { column } => Field::Column { column: copy_string(column) },
        Field::Relationship { relationship, arguments, query } => Field::Relationship {
            relationship: copy_string(relationship),
            arguments: clone_arguments(arguments),
            query: Box::new(clone_query(query)),
        },
    }
}

#[verifier::loop_isolation(false)]
fn clone_query_fields(fs: &Vec<(String, Field)>) -> (r: Vec<(String, Field)>)
    ensures
        r@.len() == fs@.len(),
        fields_depth(r@) == fields_depth(fs@),
        forall|j: int| 0 <= j < fs@.len() ==> (#[trigger] r@[j]).0@ == fs@[j].0@ && field_like(
            r@[j].1,
            fs@[j].1,
        ),
    decreases fs,
{
    let mut out: Vec<(String, Field)> = Vec::new();
    let mut i: usize = 0;
    while i < fs.len()
        invariant
            i <= fs.len(),
            out@.len() == i,
            fields_depth(out@) == fields_depth(fs@.take(i as int)),
            forall|j: int| 0 <= j < i ==> (#[trigger] out@[j]).0@ == fs@[j].0@ && field_like(
                out@[j].1,
                fs@[j].1,
            ),
        decreases fs.len() - i,
    {
        let ghost prev = out@;
        let entry = &fs[i];
        out.push((copy_string(&entry.0), clone_field(&entry.1)));
        proof {
            assert(out@.drop_last() =~= prev);
            lemma_fields_depth_push(prev, out@.last());
            assert(fs@.take(i + 1).drop_last() =~= fs@.take(i as int));
            assert(fs@.take(i + 1).last() == fs@[i as int]);
        }
        i += 1;
    }
    proof {
        assert(fs@.take(fs@.len() as int) =~= fs@);
    }
    out
}

#[verifier::loop_isolation(false)]
fn clone_query(q: &Query) -> (r: Query)
    ensures
        query_depth(r) == query_depth(*q),
    decreases q,
{
    Query {
        aggregates: match &q.aggregates {
            None => None,
            Some(a) => Some(clone_aggregates(a)),
        },
        fields: match &q.fields {
            None => None,
            Some(f) => Some(clone_query_fields(f)),
        },
        limit: q.limit,
        offset: q.offset,
        order_by: match &q.order_by {
            None => None,
            Some(ob) => Some(clone_order_by(ob)),
        },
        predicate: match &q.predicate {
            None => None,
            Some(p) => Some(clone_expression(p)),
        },
    }
}

/// Splits a relationship into its single key pair, the list of its local
/// key columns, and its cardinality; a relationship whose column mapping
/// is not exactly one pair is rejected, never partially joined.
pub fn parse_relationship(sub_relationship: &Relationship) -> (r: Result<
    (Vec<(String, String)>, Vec<String>, RelationshipType),
    QueryError,
>)
    ensures
        r is Ok <==> sub_relationship.column_mapping@.len() == 1,
        match r {
            Ok((pks, fks, ty)) => {
                &&& pks@.len() == 1
                &&& pks@[0].0@ == sub_relationship.column_mapping@[0].0@
                &&& pks@[0].1@ == sub_relationship.column_mapping@[0].1@
                &&& fks@.len() == 1
                &&& fks@[0]@ == sub_relationship.column_mapping@[0].0@
                &&& ty == sub_relationship.relationship_type
            },
            Err(e) => e@ == crate::model::QueryErrorV::CompositeKey(
                sub_relationship.target_collection@,
            ),
        },
{
    if sub_relationship.column_mapping.len() != 1 {
        return Err(
            QueryError::CompositeKey { name: copy_string(&sub_relationship.target_collection) },
        );
    }
    let pair = &sub_relationship.column_mapping[0];
    let mut pks: Vec<(String, String)> = Vec::new();
    pks.push((copy_string(&pair.0), copy_string(&pair.1)));
    let mut fks: Vec<String> = Vec::new();
    fks.push(copy_string(&pair.0));
    Ok((pks, fks, sub_relationship.relationship_type))
}

/// The key values of a list of parent rows under one column mapping: per
/// row the value of the single key column, or the list of values where
/// the mapping has several pairs; a missing column reads as null.
pub open spec fn row_key_elems(row: RowV, pairs: Seq<(String, String)>) -> Seq<ValueV>
    decreases pairs,
{
    if pairs.len() == 0 {
        Seq::empty()
    } else {
        row_key_elems(row, pairs.drop_last()).push(lookup_or_null(row, pairs.last().0@))
    }
}

proof fn lemma_row_key_elems_len(row: RowV, pairs: Seq<(String, String)>)
    ensures
        row_key_elems(row, pairs).len() == pairs.len(),
    decreases pairs,
{
    if pairs.len() != 0 {
        lemma_row_key_elems_len(row, pairs.drop_last());
    }
}

pub open spec fn row_key_value(row: RowV, pairs: Seq<(String, String)>) -> ValueV {
    if pairs.len() == 1 {
        lookup_or_null(row, pairs[0].0@)
    } else {
        ValueV::Arr(row_key_elems(row, pairs))
    }
}

pub open spec fn rows_key_values(rows: Seq<RowV>, pairs: Seq<(String, String)>) -> Seq<ValueV>
    decreases rows,
{
    if rows.len() == 0 {
        Seq::empty()
    } else {
        rows_key_values(rows.drop_last(), pairs).push(row_key_value(rows.last(), pairs))
    }
}

/// Projects the key values of the parent rows into one list value, used
/// to filter the related collection.
#[verifier::loop_isolation(false)]
pub fn generate_value_from_rows(rows: &Vec<Row>, sub_relationship: &Relationship) -> (r: Result<
    JsonValue,
    QueryError,
>)
    ensures
        r matches Ok(v) && v@ == ValueV::Arr(
            rows_key_values(rows_view(rows@), sub_relationship.column_mapping@),
        ),
{
    let ghost pairs = sub_relationship.column_mapping@;
    let mut out: Vec<JsonValue> = Vec::new();
    let mut i: usize = 0;
    while i < rows.len()
        invariant
            i <= rows.len(),
            crate::value::arr_view(out@) == rows_key_values(rows_view(rows@).take(i as int), pairs),
        decreases rows.len() - i,
    {
        let ghost prev = out@;
        let row = &rows[i];
        let mut elems: Vec<JsonValue> = Vec::new();
        let mut k: usize = 0;
        while k < sub_relationship.column_mapping.len()
            invariant
                k <= sub_relationship.column_mapping.len(),
                crate::value::arr_view(elems@) == row_key_elems(row@, pairs.take(k as int)),
            decreases sub_relationship.column_mapping.len() - k,
        {
            let ghost eprev = elems@;
            let value = match row.get(&sub_relationship.column_mapping[k].0) {
                Some(v) => clone_value(v),
                None => JsonValue::Null,
            };
            elems.push(value);
            proof {
                crate::value::lemma_arr_view_push(eprev, elems@.last());
                assert(eprev.push(elems@.last()) =~= elems@);
                assert(pairs.take(k + 1).drop_last() =~= pairs.take(k as int));
                assert(pairs.take(k + 1).last() == pairs[k as int]);
            }
            k += 1;
        }
        proof {
            assert(pairs.take(pairs.len() as int) =~= pairs);
        }
        proof {
            crate::value::lemma_arr_view_len(elems@);
            lemma_row_key_elems_len(row@, pairs);
            assert(rows_view(rows@)[i as int] == rows@[i as int]@);
        }
        let ghost full = elems@;
        let value: JsonValue = if elems.len() == 1 {
            let v = match elems.pop() {
                Some(v) => v,
                None => JsonValue::Null,
            };
            proof {
                assert(elems@.push(v) =~= full);
                crate::value::lemma_arr_view_index(full, 0);
                assert(pairs.drop_last() =~= pairs.take(0));
                assert(row_key_elems(row@, pairs)[0] == lookup_or_null(row@, pairs[0].0@));
            }
            v
        } else {
            JsonValue::Arr(elems)
        };
        proof {
            assert(value@ == row_key_value(rows_view(rows@)[i as int], pairs));
        }
        out.push(value);
        proof {
            crate::value::lemma_arr_view_push(prev, out@.last());
            assert(prev.push(out@.last()) =~= out@);
            assert(rows_view(rows@).take(i + 1).drop_last() =~= rows_view(rows@).take(i as int));
            assert(rows_view(rows@).take(i + 1).last() == rows_view(rows@)[i as int]);
        }
        i += 1;
    }
    proof {
        assert(rows_view(rows@).take(rows_view(rows@).len() as int) =~= rows_view(rows@));
    }
    Ok(JsonValue::Arr(out))
}

/// Synthesizes the membership predicate that filters the related
/// collection by the parent rows' key values.
pub fn generate_predicate(pks: &Vec<(String, String)>, value: JsonValue) -> (r: Result<
    Expression,
    QueryError,
>)
    requires
        pks@.len() == 1,
    ensures
        r matches Ok(e) && (e matches Expression::BinaryComparisonOperator {
            column,
            operator,
            value: v,
        } && (column matches ComparisonTarget::Column { name, field_path } && name@ == pks@[0].1@
            && field_path is None) && operator@ == "_in"@ && (v matches ComparisonValue::Scalar {
            value: sv,
        } && sv@ == value@)),
{
    Ok(
        Expression::BinaryComparisonOperator {
            column: ComparisonTarget::Column { name: copy_string(&pks[0].1), field_path: None },
            operator: "_in".to_owned(),
            value: ComparisonValue::Scalar { value },
        },
    )
}

/// Revises a relationship's sub-query before it runs on its own: the
/// synthesized key predicate replaces the predicate, this level's limit
/// and offset are cleared (pagination applies per parent, later, locally),
/// and the key column is projected even where it was not requested.
pub fn revise_query(query: &Query, predicate: Expression, pks: &Vec<(String, String)>) -> (r:
    Query)
    requires
        pks@.len() == 1,
    ensures
        r.predicate matches Some(p) && p == predicate,
        r.limit is None,
        r.offset is None,
        query_depth(r) == query_depth(*query),
        r.fields matches Some(f) && f@.len() > 0,
        r.fields matches Some(f) && {
            let old_fields = crate::sql::fields_of(*query);
            &&& forall|j: int| 0 <= j < old_fields.len() ==> (#[trigger] f@[j]).0@
                == old_fields[j].0@ && field_like(f@[j].1, old_fields[j].1)
            &&& (if exists|j: int| 0 <= j < old_fields.len() && old_fields[j].0@ == pks@[0].1@ {
                f@.len() == old_fields.len()
            } else {
                f@.len() == old_fields.len() + 1 && f@.last().0@ == pks@[0].0@ && (f@.last().1
                    matches Field::Column { column } && column@ == pks@[0].1@)
            })
        },
        r.aggregates is Some <==> query.aggregates is Some,
        agg_keys_of(r) == agg_keys_of(*query),
        r.order_by is Some <==> query.order_by is Some,
{
    let mut fields: Vec<(String, Field)> = match &query.fields {
        Some(f) => clone_query_fields(f),
        None => Vec::new(),
    };
    proof {
        assert(fields_depth(Seq::<(String, Field)>::empty()) == 0);
    }
    let ghost base = fields@;
    let ghost old_fields = crate::sql::fields_of(*query);
    proof {
        crate::model::lemma_assoc_some_iff(base, pks@[0].1@);
        assert forall|j: int| 0 <= j < old_fields.len() && old_fields[j].0@ == pks@[0].1@
            implies exists|j2: int| 0 <= j2 < base.len() && base[j2].0@ == pks@[0].1@ by {
            assert(base[j].0@ == old_fields[j].0@);
        }
        if exists|j2: int| 0 <= j2 < base.len() && base[j2].0@ == pks@[0].1@ {
            let j2 = choose|j2: int| 0 <= j2 < base.len() && base[j2].0@ == pks@[0].1@;
            assert(old_fields[j2].0@ == pks@[0].1@);
        }
    }
    if assoc_get(&fields, &pks[0].1).is_none() {
        fields.push(
            (copy_string(&pks[0].0), Field::Column { column: copy_string(&pks[0].1) }),
        );
        proof {
            assert(fields@.drop_last() =~= base);
            lemma_fields_depth_push(base, fields@.last());
        }
    }
    let revised = Query {
        aggregates: match &query.aggregates {
            None => None,
            Some(a) => Some(clone_aggregates(a)),
        },
        fields: Some(fields),
        limit: None,
        offset: None,
        order_by: match &query.order_by {
            None => None,
            Some(ob) => Some(clone_order_by(ob)),
        },
        predicate: Some(predicate),
    };
    proof {
        assert(agg_keys_of(revised) =~= agg_keys_of(*query));
    }
    revised
}

/// The child rows whose correlation value under the key equals the
/// parent's key value; a child without the key never matches.
pub open spec fn matching_children(fk: Seq<RowV>, key: Seq<char>, pkv: ValueV) -> Seq<RowV>
    decreases fk,
{
    if fk.len() == 0 {
        Seq::empty()
    } else {
        let rest = matching_children(fk.drop_last(), key, pkv);
        match lookup_field(fk.last(), key) {
            Some(v) => if v == pkv {
                rest.push(fk.last())
            } else {
                rest
            },
            None => rest,
        }
    }
}

proof fn lemma_matching_push(fk: Seq<RowV>, x: RowV, key: Seq<char>, pkv: ValueV)
    ensures
        matching_children(fk.push(x), key, pkv) == (match lookup_field(x, key) {
            Some(v) => if v == pkv {
                matching_children(fk, key, pkv).push(x)
            } else {
                matching_children(fk, key, pkv)
            },
            None => matching_children(fk, key, pkv),
        }),
{
    assert(fk.push(x).drop_last() =~= fk);
    assert(fk.push(x).last() == x);
}

/// Collects the child rows that match one parent's key value.
#[verifier::loop_isolation(false)]
fn find_matching(fk_rows: &Vec<Row>, key: &String, pk_value: &JsonValue) -> (r: Vec<Row>)
    ensures
        rows_view(r@) == matching_children(rows_view(fk_rows@), key@, pk_value@),
{
    let ghost m = rows_view(fk_rows@);
    let mut out: Vec<Row> = Vec::new();
    let mut i: usize = 0;
    proof {
        assert(rows_view(out@) =~= Seq::<RowV>::empty());
    }
    while i < fk_rows.len()
        invariant
            i <= fk_rows.len(),
            rows_view(out@) == matching_children(m.take(i as int), key@, pk_value@),
        decreases fk_rows.len() - i,
    {
        let ghost prev = out@;
        let child = &fk_rows[i];
        match child.get(key) {
            Some(v) => {
                if crate::value::value_eq(v, pk_value) {
                    out.push(child.clone_row());
                    proof {
                        assert(rows_view(out@) =~= rows_view(prev).push(out@.last()@));
                    }
                }
            },
            None => {},
        }
        proof {
            assert(m.take(i + 1) =~= m.take(i as int).push(m[i as int]));
            lemma_matching_push(m.take(i as int), m[i as int], key@, pk_value@);
            assert(m[i as int] == fk_rows@[i as int]@);
        }
        i += 1;
    }
    proof {
        assert(m.take(m.len() as int) =~= m);
    }
    out
}

/// Each child row projected to the requested names and carried as one
/// object value.
pub open spec fn projected_objs(children: Seq<RowV>, keys: Seq<Seq<char>>) -> Seq<ValueV>
    decreases children,
{
    if children.len() == 0 {
        Seq::empty()
    } else {
        projected_objs(children.drop_last(), keys).push(
            ValueV::Obj(project_v(children.last(), keys)),
        )
    }
}

/// The nested structure attached at a relationship field: the matching
/// child rows, each projected to the requested names, under `rows`, and a
/// null `aggregates` slot; zero children leave an empty row list, never a
/// missing field.
pub open spec fn child_value_spec(children: Seq<RowV>, keys: Seq<Seq<char>>) -> ValueV {
    ValueV::Obj(
        seq![
            ("rows"@, ValueV::Arr(projected_objs(children, keys))),
            ("aggregates"@, ValueV::Null),
        ],
    )
}

/// Builds the nested structure attached at a relationship field.
#[verifier::loop_isolation(false)]
pub fn process_child_rows(child_rows: &Vec<Row>, keys: &Vec<String>) -> (r: JsonValue)
    ensures
        r@ == child_value_spec(rows_view(child_rows@), views_of(keys@)),
{
    let ghost m = rows_view(child_rows@);
    let mut items: Vec<JsonValue> = Vec::new();
    let mut i: usize = 0;
    proof {
        assert(crate::value::arr_view(items@) =~= Seq::<ValueV>::empty());
    }
    while i < child_rows.len()
        invariant
            i <= child_rows.len(),
            crate::value::arr_view(items@) == projected_objs(m.take(i as int), views_of(keys@)),
        decreases child_rows.len() - i,
    {
        let ghost prev = items@;
        let projected = project_row(&child_rows[i], keys);
        items.push(JsonValue::Obj(projected.fields));
        proof {
            crate::value::lemma_arr_view_push(prev, items@.last());
            assert(prev.push(items@.last()) =~= items@);
            assert(m.take(i + 1).drop_last() =~= m.take(i as int));
            assert(m.take(i + 1).last() == m[i as int]);
            assert(m[i as int] == child_rows@[i as int]@);
        }
        i += 1;
    }
    proof {
        assert(m.take(m.len() as int) =~= m);
    }
    let ghost itemsv = crate::value::arr_view(items@);
    let mut fields: Vec<(String, JsonValue)> = Vec::new();
    let ghost f0 = fields@;
    fields.push(("rows".to_owned(), JsonValue::Arr(items)));
    let ghost f1 = fields@;
    proof {
        lemma_obj_view_push(f0, fields@.last());
        assert(f0.push(fields@.last()) =~= fields@);
    }
    fields.push(("aggregates".to_owned(), JsonValue::Null));
    proof {
        lemma_obj_view_push(f1, fields@.last());
        assert(f1.push(fields@.last()) =~= fields@);
        assert(obj_view(fields@) =~= seq![
            ("rows"@, ValueV::Arr(itemsv)),
            ("aggregates"@, ValueV::Null),
        ]);
    }
    JsonValue::Obj(fields)
}

/// One parent row after an object relationship is attached: at most one
/// matching child is kept (the first, where several match), and the
/// nested structure replaces the value under the requested field; a
/// parent without the field stays as it is.
pub open spec fn object_stitch(
    row: RowV,
    field: Seq<char>,
    fk: Seq<RowV>,
    key: Seq<char>,
    child_keys: Seq<Seq<char>>,
) -> RowV {
    let kept = matching_children(fk, key, lookup_or_null(row, key));
    let kept1 = if kept.len() > 1 {
        kept.take(1)
    } else {
        kept
    };
    set_field_v(row, field, child_value_spec(kept1, child_keys))
}

/// Attaches an object relationship's child rows to every parent row.
#[verifier::loop_isolation(false)]
pub fn process_object_relationship(
    rows: &Vec<Row>,
    field_name: &String,
    fk_rows: &Vec<Row>,
    pks: &Vec<(String, String)>,
    fks: &Vec<String>,
    child_keys: &Vec<String>,
) -> (r: Result<Option<Vec<Row>>, QueryError>)
    requires
        fks@.len() == 1,
        pks@.len() == 1,
        pks@[0].0@ == fks@[0]@,
    ensures
        r matches Ok(out_opt) && (out_opt matches Some(out) && out@.len() == rows@.len() && forall|
            i: int,
        |
            0 <= i < rows@.len() ==> #[trigger] out@[i]@ == object_stitch(
                rows@[i]@,
                field_name@,
                rows_view(fk_rows@),
                fks@[0]@,
                views_of(child_keys@),
            )),
{
    let mut out: Vec<Row> = Vec::new();
    let mut i: usize = 0;
    while i < rows.len()
        invariant
            i <= rows.len(),
            out@.len() == i,
            forall|j: int| 0 <= j < i ==> #[trigger] out@[j]@ == object_stitch(
                rows@[j]@,
                field_name@,
                rows_view(fk_rows@),
                fks@[0]@,
                views_of(child_keys@),
            ),
        decreases rows.len() - i,
    {
        let row = &rows[i];
        let pk_value = match row.get(&fks[0]) {
            Some(v) => clone_value(v),
            None => JsonValue::Null,
        };
        let mut kept = find_matching(fk_rows, &pks[0].0, &pk_value);
        if kept.len() > 1 {
            let ghost whole = kept@;
            kept.truncate(1);
            proof {
                assert(rows_view(kept@) =~= rows_view(whole).take(1));
            }
        }
        let value = process_child_rows(&kept, child_keys);
        let new_row = row.with_field_set(field_name, value);
        out.push(new_row);
        i += 1;
    }
    Ok(Some(out))
}

/// The matching children narrowed to this level's own page: where a limit
/// or an offset is set, the slice of the already-filtered list starting at
/// the offset and, under a limit, at most that many children, clamped to
/// what exists; with neither set, all matching children.
pub open spec fn slice_children(
    children: Seq<RowV>,
    limit: Option<u32>,
    offset: Option<u32>,
) -> Seq<RowV> {
    if limit is None && offset is None {
        children
    } else {
        let off: int = match offset {
            Some(o) => if o as int <= children.len() {
                o as int
            } else {
                children.len() as int
            },
            None => 0,
        };
        let hi: int = match limit {
            Some(l) => if off + l <= children.len() {
                off + l
            } else {
                children.len() as int
            },
            None => children.len() as int,
        };
        children.subrange(off, hi)
    }
}

/// One parent row after an array relationship is attached: every matching
/// child is kept, and this level's limit and offset — each applying on its
/// own — slice the already-filtered list locally, per parent; the nested
/// structure replaces the value under the requested field; a parent
/// without the field stays as it is.
pub open spec fn array_stitch(
    row: RowV,
    field: Seq<char>,
    fk: Seq<RowV>,
    key: Seq<char>,
    limit: Option<u32>,
    offset: Option<u32>,
    child_keys: Seq<Seq<char>>,
) -> RowV {
    let kept = matching_children(fk, key, lookup_or_null(row, key));
    set_field_v(row, field, child_value_spec(slice_children(kept, limit, offset), child_keys))
}

/// Attaches an array relationship's child rows to every parent row,
/// paginated per parent.
#[verifier::loop_isolation(false)]
pub fn process_array_relationship(
    rows: &Vec<Row>,
    field_name: &String,
    fk_rows: &Vec<Row>,
    pks: &Vec<(String, String)>,
    fks: &Vec<String>,
    query: &Query,
    child_keys: &Vec<String>,
) -> (r: Result<Option<Vec<Row>>, QueryError>)
    requires
        fks@.len() == 1,
        pks@.len() == 1,
        pks@[0].0@ == fks@[0]@,
    ensures
        r matches Ok(out_opt) && (out_opt matches Some(out) && out@.len() == rows@.len() && forall|
            i: int,
        |
            0 <= i < rows@.len() ==> #[trigger] out@[i]@ == array_stitch(
                rows@[i]@,
                field_name@,
                rows_view(fk_rows@),
                fks@[0]@,
                query.limit,
                query.offset,
                views_of(child_keys@),
            )),
{
    let mut out: Vec<Row> = Vec::new();
    let mut i: usize = 0;
    while i < rows.len()
        invariant
            i <= rows.len(),
            out@.len() == i,
            forall|j: int| 0 <= j < i ==> #[trigger] out@[j]@ == array_stitch(
                rows@[j]@,
                field_name@,
                rows_view(fk_rows@),
                fks@[0]@,
                query.limit,
                query.offset,
                views_of(child_keys@),
            ),
        decreases rows.len() - i,
    {
        let row = &rows[i];
        let pk_value = match row.get(&fks[0]) {
            Some(v) => clone_value(v),
            None => JsonValue::Null,
        };
        let kept = find_matching(fk_rows, &pks[0].0, &pk_value);
        let ghost keptv = rows_view(kept@);
        let paged = query.limit.is_some() || query.offset.is_some();
        let sliced: Vec<Row> = if paged {
            let off: usize = match query.offset {
                Some(o) => {
                    if (o as usize) <= kept.len() {
                        o as usize
                    } else {
                        kept.len()
                    }
                },
                None => 0,
            };
            let hi: usize = match query.limit {
                Some(l) => {
                    let wide: u64 = (off as u64) + (l as u64);
                    if wide <= (kept.len() as u64) {
                        wide as usize
                    } else {
                        kept.len()
                    }
                },
                None => kept.len(),
            };
            let mut part: Vec<Row> = Vec::new();
            let mut k: usize = off;
            proof {
                assert(rows_view(part@) =~= Seq::<RowV>::empty());
            }
            while k < hi
                invariant
                    off <= k <= hi,
                    hi <= kept@.len(),
                    rows_view(part@) == keptv.subrange(off as int, k as int),
                decreases hi - k,
            {
                let ghost prev = part@;
                part.push(kept[k].clone_row());
                proof {
                    assert(rows_view(part@) =~= rows_view(prev).push(part@.last()@));
                    assert(keptv.subrange(off as int, k + 1) =~= keptv.subrange(
                        off as int,
                        k as int,
                    ).push(keptv[k as int]));
                    assert(keptv[k as int] == kept@[k as int]@);
                }
                k += 1;
            }
            proof {
                assert(rows_view(part@) =~= slice_children(keptv, query.limit, query.offset));
            }
            part
        } else {
            proof {
                assert(rows_view(kept@) =~= slice_children(keptv, query.limit, query.offset));
            }
            kept
        };
        let value = process_child_rows(&sliced, child_keys);
        let new_row = row.with_field_set(field_name, value);
        out.push(new_row);
        i += 1;
    }
    Ok(Some(out))
}

/// Each fetched row mended against the requested names, extra columns
/// kept for the resolver.
pub open spec fn mended_rows_spec(rows: Seq<RowV>, keys: Seq<Seq<char>>) -> Seq<RowV>
    decreases rows,
{
    if rows.len() == 0 {
        Seq::empty()
    } else {
        mended_rows_spec(rows.drop_last(), keys).push(mend_row_v(rows.last(), keys))
    }
}

/// Mends every fetched row: normalizes null markers and backfills missing
/// requested fields, keeping any other column for the resolver.
#[verifier::loop_isolation(false)]
pub fn mend_rows(rows: &Vec<Row>, keys: &Vec<String>) -> (r: Vec<Row>)
    ensures
        rows_view(r@) == mended_rows_spec(rows_view(rows@), views_of(keys@)),
{
    let ghost m = rows_view(rows@);
    let mut out: Vec<Row> = Vec::new();
    let mut i: usize = 0;
    proof {
        assert(rows_view(out@) =~= Seq::<RowV>::empty());
    }
    while i < rows.len()
        invariant
            i <= rows.len(),
            rows_view(out@) == mended_rows_spec(m.take(i as int), views_of(keys@)),
        decreases rows.len() - i,
    {
        let ghost prev = out@;
        out.push(mend_row(&rows[i], keys));
        proof {
            assert(rows_view(out@) =~= rows_view(prev).push(out@.last()@));
            assert(m.take(i + 1).drop_last() =~= m.take(i as int));
            assert(m.take(i + 1).last() == m[i as int]);
            assert(m[i as int] == rows@[i as int]@);
        }
        i += 1;
    }
    proof {
        assert(m.take(m.len() as int) =~= m);
    }
    out
}

/// Each row brought into the requested shape: exactly the requested
/// names, in request order, null markers normalized, every other column
/// dropped.
pub open spec fn fixed_rows_spec(rows: Seq<RowV>, keys: Seq<Seq<char>>) -> Seq<RowV>
    decreases rows,
{
    if rows.len() == 0 {
        Seq::empty()
    } else {
        fixed_rows_spec(rows.drop_last(), keys).push(fix_row_v(rows.last(), keys))
    }
}

/// Brings every row into the requested shape.
#[verifier::loop_isolation(false)]
pub fn fix_rows(rows: &Vec<Row>, keys: &Vec<String>) -> (r: Vec<Row>)
    ensures
        rows_view(r@) == fixed_rows_spec(rows_view(rows@), views_of(keys@)),
{
    let ghost m = rows_view(rows@);
    let mut out: Vec<Row> = Vec::new();
    let mut i: usize = 0;
    proof {
        assert(rows_view(out@) =~= Seq::<RowV>::empty());
    }
    while i < rows.len()
        invariant
            i <= rows.len(),
            rows_view(out@) == fixed_rows_spec(m.take(i as int), views_of(keys@)),
        decreases rows.len() - i,
    {
        let ghost prev = out@;
        out.push(fix_row(&rows[i], keys));
        proof {
            assert(rows_view(out@) =~= rows_view(prev).push(out@.last()@));
            assert(m.take(i + 1).drop_last() =~= m.take(i as int));
            assert(m.take(i + 1).last() == m[i as int]);
            assert(m[i as int] == rows@[i as int]@);
        }
        i += 1;
    }
    proof {
        assert(m.take(m.len() as int) =~= m);
    }
    out
}

/// The aggregate row extended with a zero for every requested aggregate
/// the engine did not return.
pub open spec fn zero_backfill(fields: RowV, keys: Seq<Seq<char>>) -> RowV
    decreases keys,
{
    if keys.len() == 0 {
        fields
    } else {
        let prev = zero_backfill(fields, keys.drop_last());
        if lookup_field(prev, keys.last()) is None {
            prev.push((keys.last(), ValueV::Int(0)))
        } else {
            prev
        }
    }
}

proof fn lemma_zero_backfill_push(fields: RowV, keys: Seq<Seq<char>>, k: Seq<char>)
    ensures
        zero_backfill(fields, keys.push(k)) == {
            let prev = zero_backfill(fields, keys);
            if lookup_field(prev, k) is None {
                prev.push((k, ValueV::Int(0)))
            } else {
                prev
            }
        },
{
    assert(keys.push(k).drop_last() =~= keys);
    assert(keys.push(k).last() == k);
}

/// Builds the aggregate mapping from the engine's first aggregate row:
/// every requested aggregate name is present, defaulting to zero where the
/// engine returned none.
#[verifier::loop_isolation(false)]
pub fn process_aggregates(rows: &Vec<Row>, keys: &Vec<String>) -> (r: Vec<(String, JsonValue)>)
    ensures
        obj_view(r@) == zero_backfill(
            if rows_view(rows@).len() > 0 {
                rows_view(rows@)[0]
            } else {
                Seq::empty()
            },
            views_of(keys@),
        ),
{
    let ghost base: RowV = if rows_view(rows@).len() > 0 {
        rows_view(rows@)[0]
    } else {
        Seq::empty()
    };
    let mut out: Vec<(String, JsonValue)> = if rows.len() > 0 {
        let first = rows[0].clone_row();
        proof {
            assert(rows_view(rows@)[0] == rows@[0]@);
        }
        first.fields
    } else {
        Vec::new()
    };
    proof {
        assert(rows.len() == rows_view(rows@).len());
        if rows_view(rows@).len() == 0 {
            assert(obj_view(out@) =~= base);
        }
        assert(obj_view(out@) == base);
    }
    let ghost ks = views_of(keys@);
    let mut j: usize = 0;
    while j < keys.len()
        invariant
            j <= keys.len(),
            obj_view(out@) == zero_backfill(base, ks.take(j as int)),
        decreases keys.len() - j,
    {
        let ghost prev = out@;
        proof {
            assert(ks[j as int] == keys@[j as int]@);
        }
        if get_field(&out, &keys[j]).is_none() {
            out.push((copy_string(&keys[j]), JsonValue::Int(0)));
            proof {
                lemma_obj_view_push(prev, out@.last());
                assert(prev.push(out@.last()) =~= out@);
                assert(obj_view(out@) == obj_view(prev).push((ks[j as int], ValueV::Int(0))));
            }
        }
        proof {
            lemma_zero_backfill_push(base, ks.take(j as int), ks[j as int]);
            assert(ks.take(j as int).push(ks[j as int]) =~= ks.take(j + 1));
            assert(obj_view(out@) == zero_backfill(base, ks.take(j + 1)));
        }
        j += 1;
    }
    proof {
        assert(ks.take(keys@.len() as int) =~= ks);
    }
    out
}

/// One requested field's effect on the parent rows, with the child pass's
/// rows given: a plain column changes nothing; a relationship field
/// attaches its child rows to every parent row, by its declared key and
/// cardinality.
pub open spec fn stitch_field(
    rows: Seq<RowV>,
    field: (String, Field),
    rels: Seq<(String, Relationship)>,
    children: Seq<RowV>,
) -> Seq<RowV> {
    match field.1 {
        Field::Column { .. } => rows,
        Field::Relationship { relationship, query: subq, .. } => match crate::model::assoc_lookup(
            rels,
            relationship@,
        ) {
            None => rows,
            Some(rel) => {
                if rel.column_mapping@.len() != 1 {
                    rows
                } else {
                    let key = rel.column_mapping@[0].0@;
                    let cks = field_keys_of(*subq);
                    if rel.relationship_type == RelationshipType::Object {
                        Seq::new(
                            rows.len(),
                            |i: int| object_stitch(rows[i], field.0@, children, key, cks),
                        )
                    } else {
                        Seq::new(
                            rows.len(),
                            |i: int|
                                array_stitch(
                                    rows[i],
                                    field.0@,
                                    children,
                                    key,
                                    subq.limit,
                                    subq.offset,
                                    cks,
                                ),
                        )
                    }
                }
            },
        },
    }
}

/// The parent rows after the requested fields from position `i` on are
/// answered, each relationship field by its own child rows.
pub open spec fn stitch_fields_spec(
    rows: Seq<RowV>,
    fields: Seq<(String, Field)>,
    rels: Seq<(String, Relationship)>,
    children: Seq<Seq<RowV>>,
    i: int,
) -> Seq<RowV>
    decreases fields.len() - i,
{
    if i < 0 || i >= fields.len() {
        rows
    } else {
        stitch_fields_spec(
            stitch_field(
                rows,
                fields[i],
                rels,
                if 0 <= i < children.len() {
                    children[i]
                } else {
                    Seq::empty()
                },
            ),
            fields,
            rels,
            children,
            i + 1,
        )
    }
}

proof fn lemma_stitch_append(
    rows: Seq<RowV>,
    fields: Seq<(String, Field)>,
    rels: Seq<(String, Relationship)>,
    children: Seq<Seq<RowV>>,
    f: (String, Field),
    c: Seq<RowV>,
    i: int,
)
    requires
        0 <= i <= fields.len(),
        children.len() == fields.len(),
    ensures
        stitch_fields_spec(rows, fields.push(f), rels, children.push(c), i) == stitch_field(
            stitch_fields_spec(rows, fields, rels, children, i),
            f,
            rels,
            c,
        ),
    decreases fields.len() - i,
{
    if i == fields.len() {
        assert(fields.push(f)[i] == f);
        assert(children.push(c)[i] == c);
        assert(stitch_fields_spec(rows, fields, rels, children, i) == rows);
        assert(stitch_fields_spec(rows, fields.push(f), rels, children.push(c), i)
            == stitch_fields_spec(
            stitch_field(rows, f, rels, c),
            fields.push(f),
            rels,
            children.push(c),
            i + 1,
        ));
        assert(stitch_fields_spec(
            stitch_field(rows, f, rels, c),
            fields.push(f),
            rels,
            children.push(c),
            i + 1,
        ) == stitch_field(rows, f, rels, c));
    } else {
        assert(fields.push(f)[i] == fields[i]);
        assert(children.push(c)[i] == children[i]);
        assert(stitch_fields_spec(rows, fields.push(f), rels, children.push(c), i)
            == stitch_fields_spec(
            stitch_field(rows, fields[i], rels, children[i]),
            fields.push(f),
            rels,
            children.push(c),
            i + 1,
        ));
        lemma_stitch_append(
            stitch_field(rows, fields[i], rels, children[i]),
            fields,
            rels,
            children,
            f,
            c,
            i + 1,
        );
        assert(stitch_fields_spec(rows, fields, rels, children, i) == stitch_fields_spec(
            stitch_field(rows, fields[i], rels, children[i]),
            fields,
            rels,
            children,
            i + 1,
        ));
    }
}

/// The mathematical form of a row set.
pub struct RowSetV {
    pub aggregates: Option<RowV>,
    pub rows: Option<Seq<RowV>>,
}

impl View for RowSet {
    type V = RowSetV;

    open spec fn view(&self) -> RowSetV {
        RowSetV {
            aggregates: match self.aggregates {
                None => None,
                Some(a) => Some(obj_view(a@)),
            },
            rows: match self.rows {
                None => None,
                Some(r) => Some(rows_view(r@)),
            },
        }
    }
}

/// What the engine must do next: run one more statement, or nothing —
/// the request is answered.
pub enum Orchestration {
    Need(String),
    Done(RowSet),
}

/// The mathematical form of the next step.
pub enum OrchestrationV {
    Need(Seq<char>),
    Done(RowSetV),
}

impl View for Orchestration {
    type V = OrchestrationV;

    open spec fn view(&self) -> OrchestrationV {
        match self {
            Orchestration::Need(s) => OrchestrationV::Need(s@),
            Orchestration::Done(rs) => OrchestrationV::Done(rs@),
        }
    }
}

/// The scope of one query: the configuration and catalog, the collection,
/// the request's relationship table, the relationship arguments, the query
/// itself and the variable bindings.
pub struct QueryParams<'a> {
    pub config: &'a ParsedConfiguration,
    pub coll: &'a String,
    pub coll_rel: &'a Vec<(String, Relationship)>,
    pub args: &'a Vec<(String, RelationshipArgument)>,
    pub query: &'a Query,
    pub vars: &'a Vec<(String, JsonValue)>,
}

/// What the engine has already answered, in the order the statements were
/// issued: each entry one statement and its flat rows, each row one JSON
/// object text.
pub type Transcript = Vec<(String, Vec<String>)>;

/// Looks up the engine's answer to the statement at the replay position.
fn fetch<'a>(transcript: &'a Transcript, cursor: usize, stmt: &String) -> (r: Option<&'a Vec<
    String,
>>)
    ensures
        match r {
            Some(texts) => cursor < transcript@.len() && transcript@[cursor as int].0@ == stmt@
                && texts == &transcript@[cursor as int].1,
            None => cursor >= transcript@.len() || transcript@[cursor as int].0@ != stmt@,
        },
{
    if cursor < transcript.len() && transcript[cursor].0 == *stmt {
        Some(&transcript[cursor].1)
    } else {
        None
    }
}

/// Whether the shape-mending pass is switched on.
pub open spec fn fixes_on(cfg: ParsedConfiguration) -> bool {
    cfg.fixes == Some(true)
}

/// The requested output names of a query's fields.
pub open spec fn field_keys_of(q: Query) -> Seq<Seq<char>> {
    match q.fields {
        None => Seq::empty(),
        Some(f) => f@.map_values(|e: (String, Field)| e.0@),
    }
}

/// The requested output names of a query's aggregates.
pub open spec fn agg_keys_of(q: Query) -> Seq<Seq<char>> {
    match q.aggregates {
        None => Seq::empty(),
        Some(a) => a@.map_values(|e: (String, Aggregate)| e.0@),
    }
}

/// The statement that fetches a query's rows, or nothing where no field
/// is requested, or the failure that stops its compilation.
pub open spec fn row_statement_spec(
    cfg: ParsedConfiguration,
    coll: Seq<char>,
    rels: Seq<(String, Relationship)>,
    args: Seq<(String, RelationshipArgument)>,
    q: Query,
    vars: Seq<(String, JsonValue)>,
) -> Result<Option<Seq<char>>, crate::model::QueryErrorV> {
    match crate::sql::parse_query_spec(cfg, coll, rels, args, q, vars) {
        Err(e) => Err(e),
        Ok(c) => match c.select {
            Some(s) => if s.len() > 0 {
                match crate::sql::query_collection_spec(
                    cfg,
                    coll,
                    c.select,
                    c.order_by,
                    c.pagination,
                    c.predicates,
                    c.join,
                ) {
                    Err(e) => Err(e),
                    Ok(stmt) => Ok(Some(stmt)),
                }
            } else {
                Ok(None)
            },
            None => Ok(None),
        },
    }
}

/// The statement that fetches a query's aggregates, or nothing where no
/// aggregate is requested, or the failure that stops its compilation.
pub open spec fn agg_statement_spec(
    cfg: ParsedConfiguration,
    coll: Seq<char>,
    rels: Seq<(String, Relationship)>,
    args: Seq<(String, RelationshipArgument)>,
    q: Query,
    vars: Seq<(String, JsonValue)>,
) -> Result<Option<Seq<char>>, crate::model::QueryErrorV> {
    match crate::sql::parse_query_spec(cfg, coll, rels, args, q, vars) {
        Err(e) => Err(e),
        Ok(c) => match c.aggregates {
            Some(s) => if s.len() > 0 {
                match crate::sql::query_collection_spec(
                    cfg,
                    coll,
                    c.aggregates,
                    c.order_by,
                    c.pagination,
                    c.predicates,
                    c.join,
                ) {
                    Err(e) => Err(e),
                    Ok(stmt) => Ok(Some(stmt)),
                }
            } else {
                Ok(None)
            },
            None => Ok(None),
        },
    }
}

/// The aggregate phase of a request with no relationship fields: the
/// aggregate statement is replayed (or asked for), its first row taken,
/// and every requested aggregate name backfilled with zero.
pub open spec fn flat_agg_phase(
    cfg: ParsedConfiguration,
    coll: Seq<char>,
    rels: Seq<(String, Relationship)>,
    args: Seq<(String, RelationshipArgument)>,
    q: Query,
    vars: Seq<(String, JsonValue)>,
    transcript: Seq<(String, Vec<String>)>,
    rows: Option<Seq<RowV>>,
    cur: int,
) -> Result<(OrchestrationV, int), crate::model::QueryErrorV> {
    match agg_statement_spec(cfg, coll, rels, args, q, vars) {
        Err(e) => Err(e),
        Ok(None) => Ok((OrchestrationV::Done(RowSetV { aggregates: None, rows }), cur)),
        Ok(Some(stmt)) => {
            if cur >= transcript.len() || transcript[cur].0@ != stmt {
                Ok((OrchestrationV::Need(stmt), cur))
            } else {
                match crate::decode::decode_rows_from(transcript[cur].1@, 0) {
                    Err(e) => Err(e),
                    Ok(arows) => {
                        let normalized = if fixes_on(cfg) {
                            mended_rows_spec(arows, Seq::empty())
                        } else {
                            arows
                        };
                        Ok(
                            (
                                OrchestrationV::Done(
                                    RowSetV {
                                        aggregates: Some(
                                            zero_backfill(
                                                if normalized.len() > 0 {
                                                    normalized[0]
                                                } else {
                                                    Seq::empty()
                                                },
                                                agg_keys_of(q),
                                            ),
                                        ),
                                        rows,
                                    },
                                ),
                                cur + 1,
                            ),
                        )
                    },
                }
            }
        },
    }
}

/// One whole pass for a request with no relationship fields: the row
/// statement is replayed (or asked for), its rows decoded, mended and
/// projected to exactly the requested names, then the aggregate phase
/// answers the aggregates.
pub open spec fn orchestrate_flat_spec(
    cfg: ParsedConfiguration,
    coll: Seq<char>,
    rels: Seq<(String, Relationship)>,
    args: Seq<(String, RelationshipArgument)>,
    q: Query,
    vars: Seq<(String, JsonValue)>,
    transcript: Seq<(String, Vec<String>)>,
    cursor: int,
) -> Result<(OrchestrationV, int), crate::model::QueryErrorV> {
    match row_statement_spec(cfg, coll, rels, args, q, vars) {
        Err(e) => Err(e),
        Ok(None) => flat_agg_phase(cfg, coll, rels, args, q, vars, transcript, None, cursor),
        Ok(Some(stmt)) => {
            if cursor >= transcript.len() || transcript[cursor].0@ != stmt {
                Ok((OrchestrationV::Need(stmt), cursor))
            } else {
                match crate::decode::decode_rows_from(transcript[cursor].1@, 0) {
                    Err(e) => Err(e),
                    Ok(rows) => {
                        let keys = field_keys_of(q);
                        let processed = if fixes_on(cfg) {
                            fixed_rows_spec(mended_rows_spec(rows, keys), keys)
                        } else {
                            rows
                        };
                        flat_agg_phase(
                            cfg,
                            coll,
                            rels,
                            args,
                            q,
                            vars,
                            transcript,
                            Some(processed),
                            cursor + 1,
                        )
                    },
                }
            }
        },
    }
}

/// The rows of an optional row list, as contracts speak about them.
pub open spec fn opt_rows_view(o: Option<Vec<Row>>) -> Option<Seq<RowV>> {
    match o {
        None => None,
        Some(v) => Some(rows_view(v@)),
    }
}

pub(crate) proof fn lemma_join_first_nonempty(parts: Seq<Seq<char>>, sep: Seq<char>)
    requires
        parts.len() > 0,
        parts[0].len() > 0,
    ensures
        crate::text::join_sep(parts, sep).len() > 0,
    decreases parts,
{
    if parts.len() > 1 {
        assert(parts.drop_last()[0] == parts[0]);
        lemma_join_first_nonempty(parts.drop_last(), sep);
    }
}

proof fn lemma_relationship_keys_prefix(
    json: bool,
    table: Seq<char>,
    pairs: Seq<(String, String)>,
    acc: Seq<Seq<char>>,
    i: int,
)
    ensures
        crate::sql::relationship_keys_spec(json, table, pairs, acc, i).len() >= acc.len(),
        forall|j: int| 0 <= j < acc.len() ==> #[trigger] crate::sql::relationship_keys_spec(
            json,
            table,
            pairs,
            acc,
            i,
        )[j] == acc[j],
    decreases pairs.len() - i,
{
    if 0 <= i < pairs.len() {
        let acc2 = crate::sql::push_unique(
            acc,
            crate::sql::relationship_key_stmt(json, table, pairs[i].0@),
        );
        lemma_relationship_keys_prefix(json, table, pairs, acc2, i + 1);
    }
}

proof fn lemma_select_parts_prefix(
    json: bool,
    table: Seq<char>,
    rels: Seq<(String, Relationship)>,
    fields: Seq<(String, Field)>,
    acc: Seq<Seq<char>>,
    i: int,
)
    ensures
        crate::sql::select_fields_spec(json, table, rels, fields, acc, i).len() >= acc.len(),
        forall|j: int| 0 <= j < acc.len() ==> #[trigger] crate::sql::select_fields_spec(
            json,
            table,
            rels,
            fields,
            acc,
            i,
        )[j] == acc[j],
    decreases fields.len() - i,
{
    if 0 <= i < fields.len() {
        match fields[i].1 {
            Field::Column { column } => {
                let acc2 = crate::sql::push_unique(
                    acc,
                    crate::sql::field_statement_spec(json, fields[i].0@, column@, table),
                );
                lemma_select_parts_prefix(json, table, rels, fields, acc2, i + 1);
            },
            Field::Relationship { relationship, .. } => {
                let acc2 = acc.push(crate::sql::placeholder_spec(json, fields[i].0@));
                match crate::model::assoc_lookup(rels, relationship@) {
                    None => {
                        lemma_select_parts_prefix(json, table, rels, fields, acc2, i + 1);
                    },
                    Some(rel) => {
                        lemma_relationship_keys_prefix(json, table, rel.column_mapping@, acc2, 0);
                        let acc3 = crate::sql::relationship_keys_spec(
                            json,
                            table,
                            rel.column_mapping@,
                            acc2,
                            0,
                        );
                        lemma_select_parts_prefix(json, table, rels, fields, acc3, i + 1);
                    },
                }
            },
        }
    }
}

pub(crate) proof fn lemma_select_first_nonempty(
    json: bool,
    table: Seq<char>,
    rels: Seq<(String, Relationship)>,
    fields: Seq<(String, Field)>,
)
    requires
        fields.len() > 0,
    ensures
        crate::sql::select_fields_spec(json, table, rels, fields, Seq::empty(), 0).len() > 0,
        crate::sql::select_fields_spec(json, table, rels, fields, Seq::empty(), 0)[0].len() > 0,
{
    let empty = Seq::<Seq<char>>::empty();
    match fields[0].1 {
        Field::Column { column } => {
            let stmt = crate::sql::field_statement_spec(json, fields[0].0@, column@, table);
            assert(!empty.contains(stmt));
            let acc2 = empty.push(stmt);
            lemma_select_parts_prefix(json, table, rels, fields, acc2, 1);
        },
        Field::Relationship { relationship, .. } => {
            let acc2 = empty.push(crate::sql::placeholder_spec(json, fields[0].0@));
            match crate::model::assoc_lookup(rels, relationship@) {
                None => {
                    lemma_select_parts_prefix(json, table, rels, fields, acc2, 1);
                },
                Some(rel) => {
                    lemma_relationship_keys_prefix(json, table, rel.column_mapping@, acc2, 0);
                    let acc3 = crate::sql::relationship_keys_spec(
                        json,
                        table,
                        rel.column_mapping@,
                        acc2,
                        0,
                    );
                    lemma_select_parts_prefix(json, table, rels, fields, acc3, 1);
                },
            }
        },
    }
}

proof fn lemma_rel_count_zero(fs: Seq<(String, Field)>, i: int)
    requires
        rel_field_count(fs) == 0,
        0 <= i < fs.len(),
    ensures
        fs[i].1 is Column,
    decreases fs,
{
    if i < fs.len() - 1 {
        lemma_rel_count_zero(fs.drop_last(), i);
    }
}

/// Builds the list of requested output names of a query's fields.
#[verifier::loop_isolation(false)]
fn field_key_strings(q: &Query) -> (r: Vec<String>)
    ensures
        views_of(r@) == field_keys_of(*q),
{
    let mut out: Vec<String> = Vec::new();
    match &q.fields {
        None => {
            proof {
                assert(views_of(out@) =~= field_keys_of(*q));
            }
        },
        Some(f) => {
            let mut i: usize = 0;
            while i < f.len()
                invariant
                    i <= f.len(),
                    views_of(out@) =~= field_keys_of(*q).take(i as int),
                decreases f.len() - i,
            {
                let ghost prev = out@;
                out.push(copy_string(&f[i].0));
                proof {
                    assert(views_of(out@) =~= views_of(prev).push(out@.last()@));
                    assert(views_of(out@) =~= field_keys_of(*q).take(i + 1));
                }
                i += 1;
            }
            proof {
                assert(field_keys_of(*q).take(f@.len() as int) =~= field_keys_of(*q));
            }
        },
    }
    out
}

/// Builds the list of requested output names of a query's aggregates.
#[verifier::loop_isolation(false)]
fn agg_key_strings(q: &Query) -> (r: Vec<String>)
    ensures
        views_of(r@) == agg_keys_of(*q),
{
    let mut out: Vec<String> = Vec::new();
    match &q.aggregates {
        None => {
            proof {
                assert(views_of(out@) =~= agg_keys_of(*q));
            }
        },
        Some(a) => {
            let mut i: usize = 0;
            while i < a.len()
                invariant
                    i <= a.len(),
                    views_of(out@) =~= agg_keys_of(*q).take(i as int),
                decreases a.len() - i,
            {
                let ghost prev = out@;
                out.push(copy_string(&a[i].0));
                proof {
                    assert(views_of(out@) =~= views_of(prev).push(out@.last()@));
                    assert(views_of(out@) =~= agg_keys_of(*q).take(i + 1));
                }
                i += 1;
            }
            proof {
                assert(agg_keys_of(*q).take(a@.len() as int) =~= agg_keys_of(*q));
            }
        },
    }
    out
}

/// Whether one requested field, if it is a relationship field, names a
/// declared relationship whose column mapping is a single pair.
pub open spec fn rel_field_ok(f: Field, rels: Seq<(String, Relationship)>) -> bool {
    match f {
        Field::Column { .. } => true,
        Field::Relationship { relationship, .. } => match crate::model::assoc_lookup(
            rels,
            relationship@,
        ) {
            Some(rel) => rel.column_mapping@.len() == 1,
            None => false,
        },
    }
}

/// Whether every relationship field among the requested fields resolves.
pub open spec fn relationships_resolvable(
    fs: Seq<(String, Field)>,
    rels: Seq<(String, Relationship)>,
) -> bool {
    forall|j: int| 0 <= j < fs.len() ==> rel_field_ok(#[trigger] fs[j].1, rels)
}

/// The requested names of a relationship's sub-query, as the resolver
/// projects them: the sub-query's own field names, plus the mapping's
/// source column where the target column is not already among them.
pub open spec fn child_keys_spec(subq: Query, rel: Relationship) -> Seq<Seq<char>> {
    let keys = field_keys_of(subq);
    if exists|j: int| 0 <= j < keys.len() && keys[j] == rel.column_mapping@[0].1@ {
        keys
    } else {
        keys.push(rel.column_mapping@[0].0@)
    }
}

/// Whether one requested field's child rows are anchored in what the
/// engine answered: for a relationship field whose sub-query has no
/// relationship fields of its own, some entry answered after position
/// `from` decodes to rows whose child shape is exactly these children.
/// A plain column field and a nested sub-query carry no anchor here.
pub open spec fn flat_child_anchored(
    cfg: ParsedConfiguration,
    rels: Seq<(String, Relationship)>,
    f: Field,
    children: Seq<RowV>,
    transcript: Seq<(String, Vec<String>)>,
    from: int,
) -> bool {
    match f {
        Field::Column { .. } => true,
        Field::Relationship { relationship, query: subq, .. } => {
            if rel_field_count(crate::sql::fields_of(*subq)) == 0 {
                match crate::model::assoc_lookup(rels, relationship@) {
                    Some(rel) => rel.column_mapping@.len() == 1 ==> exists|p: int|
                        from < p < transcript.len() && (match #[trigger] crate::decode::decode_rows_from(
                            transcript[p].1@,
                            0,
                        ) {
                            Ok(cbase) => children == (if fixes_on(cfg) {
                                fixed_rows_spec(
                                    mended_rows_spec(cbase, child_keys_spec(*subq, rel)),
                                    child_keys_spec(*subq, rel),
                                )
                            } else {
                                cbase
                            }),
                            Err(_) => false,
                        }),
                    None => true,
                }
            } else {
                true
            }
        },
    }
}

proof fn lemma_rel_count_matching(a: Seq<(String, Field)>, b: Seq<(String, Field)>)
    requires
        a.len() == b.len(),
        forall|j: int| 0 <= j < a.len() ==> field_like(#[trigger] a[j].1, b[j].1),
    ensures
        rel_field_count(a) == rel_field_count(b),
    decreases a,
{
    if a.len() > 0 {
        assert(field_like(a.last().1, b.last().1));
        assert forall|j: int| 0 <= j < a.drop_last().len() implies field_like(
            #[trigger] a.drop_last()[j].1,
            b.drop_last()[j].1,
        ) by {
            assert(a.drop_last()[j] == a[j]);
            assert(b.drop_last()[j] == b[j]);
        }
        lemma_rel_count_matching(a.drop_last(), b.drop_last());
    }
}

proof fn lemma_rel_count_push(fs: Seq<(String, Field)>, x: (String, Field))
    requires
        x.1 is Column,
    ensures
        rel_field_count(fs.push(x)) == rel_field_count(fs),
{
    assert(fs.push(x).drop_last() =~= fs);
    assert(fs.push(x).last() == x);
}

/// The finished rows of one pass, given the decoded base rows and the
/// child rows each relationship field was answered with: the base rows
/// mended in shape, each relationship field stitched on, and every row
/// projected to exactly the requested names (the last two only where the
/// shape-mending pass is on).
pub open spec fn finished_rows_spec(
    cfg: ParsedConfiguration,
    q: Query,
    rels: Seq<(String, Relationship)>,
    base: Seq<RowV>,
    children: Seq<Seq<RowV>>,
) -> Seq<RowV> {
    let mended = if fixes_on(cfg) {
        mended_rows_spec(base, field_keys_of(q))
    } else {
        base
    };
    let stitched = stitch_fields_spec(mended, fields_of_q(q), rels, children, 0);
    if fixes_on(cfg) {
        fixed_rows_spec(stitched, field_keys_of(q))
    } else {
        stitched
    }
}

/// Replays one query against what the engine has answered so far, from
/// the given replay position.  The result either asks for one more
/// statement, or carries the finished row set and the next replay
/// position.  For a request with no relationship fields the whole
/// behaviour is the flat pass.  For any request: a failed compilation is
/// the compilation's own failure; a missing answer to the row or
/// aggregate statement asks for exactly that statement; a finished
/// request resolved every relationship field to a single-pair mapping,
/// consumed at least one answer plus one per relationship field, carries
/// the aggregate mapping built from the answered aggregate statement, and
/// carries rows equal to the stitched, shaped form of the decoded base
/// answer for some child row sets — each flat sub-query's children
/// anchored to an answer made after this pass's own.
#[verifier::loop_isolation(false)]
#[verifier::rlimit(100)]
pub fn orchestrate_query_at(
    config: &ParsedConfiguration,
    coll: &String,
    coll_rel: &Vec<(String, Relationship)>,
    args: &Vec<(String, RelationshipArgument)>,
    query: &Query,
    vars: &Vec<(String, JsonValue)>,
    transcript: &Transcript,
    cursor: usize,
) -> (r: Result<(Orchestration, usize), QueryError>)
    requires
        cursor <= transcript@.len(),
    ensures
        rel_field_count(fields_of_q(*query)) == 0 ==> (match r {
            Ok(p) => orchestrate_flat_spec(
                *config,
                coll@,
                coll_rel@,
                args@,
                *query,
                vars@,
                transcript@,
                cursor as int,
            ) == Ok::<_, crate::model::QueryErrorV>((p.0@, p.1 as int)),
            Err(e) => orchestrate_flat_spec(
                *config,
                coll@,
                coll_rel@,
                args@,
                *query,
                vars@,
                transcript@,
                cursor as int,
            ) == Err::<(OrchestrationV, int), _>(e@),
        }),
        (match row_statement_spec(*config, coll@, coll_rel@, args@, *query, vars@) {
            Err(ev) => r matches Err(e) && e@ == ev,
            Ok(opt) => opt matches Some(sv) ==> ((cursor >= transcript@.len()
                || transcript@[cursor as int].0@ != sv) ==> (r matches Ok(p) && p.0@
                == OrchestrationV::Need(sv) && p.1 == cursor)),
        }),
        (match agg_statement_spec(*config, coll@, coll_rel@, args@, *query, vars@) {
            Err(_) => true,
            Ok(agg_opt) => agg_opt matches Some(av) ==> (match row_statement_spec(
                *config,
                coll@,
                coll_rel@,
                args@,
                *query,
                vars@,
            ) {
                Err(_) => true,
                Ok(row_opt) => {
                    let after_rows: int = if row_opt is Some {
                        cursor + 1
                    } else {
                        cursor as int
                    };
                    ((row_opt matches Some(sv) ==> (cursor < transcript@.len()
                        && transcript@[cursor as int].0@ == sv
                        && crate::decode::decode_rows_from(
                        transcript@[cursor as int].1@,
                        0,
                    ) is Ok)) && (after_rows >= transcript@.len() || transcript@[after_rows].0@
                        != av)) ==> (r matches Ok(p) && p.0@ == OrchestrationV::Need(av) && p.1
                        == after_rows)
                },
            }),
        }),
        (match r {
            Ok(p) => p.0 matches Orchestration::Done(_) ==> relationships_resolvable(
                fields_of_q(*query),
                coll_rel@,
            ),
            Err(_) => true,
        }),
        (match r {
            Ok(p) => p.0 matches Orchestration::Done(rs) ==> (match agg_statement_spec(
                *config,
                coll@,
                coll_rel@,
                args@,
                *query,
                vars@,
            ) {
                Err(_) => false,
                Ok(agg_opt) => match agg_opt {
                    None => rs@.aggregates is None,
                    Some(av) => (match row_statement_spec(
                        *config,
                        coll@,
                        coll_rel@,
                        args@,
                        *query,
                        vars@,
                    ) {
                        Err(_) => false,
                        Ok(row_opt) => {
                            let after: int = if row_opt is Some {
                                cursor + 1
                            } else {
                                cursor as int
                            };
                            &&& after < transcript@.len()
                            &&& transcript@[after].0@ == av
                            &&& (match crate::decode::decode_rows_from(transcript@[after].1@, 0) {
                                Ok(arows) => {
                                    let normalized = if fixes_on(*config) {
                                        mended_rows_spec(arows, Seq::empty())
                                    } else {
                                        arows
                                    };
                                    rs@.aggregates == Some(
                                        zero_backfill(
                                            if normalized.len() > 0 {
                                                normalized[0]
                                            } else {
                                                Seq::empty()
                                            },
                                            agg_keys_of(*query),
                                        ),
                                    )
                                },
                                Err(_) => false,
                            })
                        },
                    }),
                },
            }),
            Err(_) => true,
        }),
        (match r {
            Ok(p) => cursor <= p.1 <= transcript@.len() && ((p.0 matches Orchestration::Done(_)
                && fields_of_q(*query).len() > 0) ==> p.1 >= cursor + 1 + rel_field_count(
                fields_of_q(*query),
            )),
            Err(_) => true,
        }),
        (match r {
            Ok(p) => p.0 matches Orchestration::Done(rs) ==> (fields_of_q(*query).len() > 0 ==> {
                &&& cursor < transcript@.len()
                &&& (match crate::decode::decode_rows_from(transcript@[cursor as int].1@, 0) {
                    Ok(base) => exists|children: Seq<Seq<RowV>>|
                        {
                            &&& rs@.rows == Some(
                                #[trigger] finished_rows_spec(
                                    *config,
                                    *query,
                                    coll_rel@,
                                    base,
                                    children,
                                ),
                            )
                            &&& children.len() == fields_of_q(*query).len()
                            &&& forall|j: int|
                                0 <= j < children.len() ==> flat_child_anchored(
                                    *config,
                                    coll_rel@,
                                    fields_of_q(*query)[j].1,
                                    #[trigger] children[j],
                                    transcript@,
                                    cursor as int,
                                )
                        },
                    Err(_) => false,
                })
            }),
            Err(_) => true,
        }),
    decreases query_depth(*query),
{
    let components = match crate::sql::parse_query(config, coll, coll_rel, args, query, vars) {
        Ok(c) => c,
        Err(e) => {
            return Err(e);
        },
    };
    let field_keys = field_key_strings(query);
    let agg_keys = agg_key_strings(query);
    let fixes = match config.fixes {
        Some(b) => b,
        None => false,
    };
    let transcript_len = transcript.len();
    let mut cur: usize = cursor;
    // The row statement, replayed or asked for.
    let sel_present = match &components.select {
        Some(s) => s.as_str().unicode_len() > 0,
        None => false,
    };
    proof {
        if fields_of_q(*query).len() > 0 {
            let t = crate::config::table_of(*config, coll@);
            lemma_select_first_nonempty(
                crate::sql::is_json_flavour(*config),
                crate::sql::qualified_table_name_spec(t->Some_0),
                coll_rel@,
                fields_of_q(*query),
            );
            lemma_join_first_nonempty(
                (crate::sql::select_spec(*config, coll@, *query, coll_rel@))->Ok_0,
                ","@,
            );
        }
    }
    let rows_data: Option<Vec<Row>> = if sel_present {
        let stmt = match crate::sql::query_collection(
            config,
            coll,
            &components.select,
            &components.order_by,
            &components.pagination,
            &components.predicates,
            &components.join,
        ) {
            Ok(s) => s,
            Err(e) => {
                return Err(e);
            },
        };
        match fetch(transcript, cur, &stmt) {
            None => {
                return Ok((Orchestration::Need(stmt), cur));
            },
            Some(texts) => {
                let decoded = match crate::decode::decode_rows(texts) {
                    Ok(rows) => rows,
                    Err(e) => {
                        return Err(e);
                    },
                };
                proof {
                    assert(cur < transcript_len);
                }
                cur = cur + 1;
                let processed = if fixes {
                    mend_rows(&decoded, &field_keys)
                } else {
                    decoded
                };
                proof {
                    assert(match crate::decode::decode_rows_from(
                        transcript@[cursor as int].1@,
                        0,
                    ) {
                        Ok(base) => rows_view(processed@) == (if fixes_on(*config) {
                            mended_rows_spec(base, field_keys_of(*query))
                        } else {
                            base
                        }),
                        Err(_) => false,
                    });
                }
                Some(processed)
            },
        }
    } else {
        None
    };
    // The aggregate statement, replayed or asked for.
    let agg_present = match &components.aggregates {
        Some(s) => s.as_str().unicode_len() > 0,
        None => false,
    };
    let parsed_aggregates: Option<Vec<(String, JsonValue)>> = if agg_present {
        let stmt = match crate::sql::query_collection(
            config,
            coll,
            &components.aggregates,
            &components.order_by,
            &components.pagination,
            &components.predicates,
            &components.join,
        ) {
            Ok(s) => s,
            Err(e) => {
                return Err(e);
            },
        };
        match fetch(transcript, cur, &stmt) {
            None => {
                return Ok((Orchestration::Need(stmt), cur));
            },
            Some(texts) => {
                let decoded = match crate::decode::decode_rows(texts) {
                    Ok(rows) => rows,
                    Err(e) => {
                        return Err(e);
                    },
                };
                let empty_keys: Vec<String> = Vec::new();
                let normalized = if fixes {
                    mend_rows(&decoded, &empty_keys)
                } else {
                    decoded
                };
                proof {
                    assert(views_of(empty_keys@) =~= Seq::<Seq<char>>::empty());
                }
                let agg_row = process_aggregates(&normalized, &agg_keys);
                proof {
                    assert(cur as int == (if (row_statement_spec(
                        *config,
                        coll@,
                        coll_rel@,
                        args@,
                        *query,
                        vars@,
                    )) matches Ok(Some(_)) {
                        cursor + 1
                    } else {
                        cursor as int
                    }));
                    assert(match agg_statement_spec(*config, coll@, coll_rel@, args@, *query, vars@)
                    {
                        Ok(Some(av)) => cur < transcript@.len() && transcript@[cur as int].0@ == av
                            && (match crate::decode::decode_rows_from(
                            transcript@[cur as int].1@,
                            0,
                        ) {
                            Ok(arows) => {
                                let nv = if fixes_on(*config) {
                                    mended_rows_spec(arows, Seq::empty())
                                } else {
                                    arows
                                };
                                obj_view(agg_row@) == zero_backfill(
                                    if nv.len() > 0 {
                                        nv[0]
                                    } else {
                                        Seq::empty()
                                    },
                                    agg_keys_of(*query),
                                )
                            },
                            Err(_) => false,
                        }),
                        _ => false,
                    });
                    assert(cur < transcript_len);
                }
                cur = cur + 1;
                Some(agg_row)
            },
        }
    } else {
        None
    };
    let ghost start_cur = cur as int;
    proof {
        assert(rows_data is Some ==> start_cur >= cursor + 1);
    }
    let ghost pre_rows = opt_rows_view(rows_data);
    let ghost base_rows: Seq<RowV> = match pre_rows {
        Some(v) => v,
        None => Seq::empty(),
    };
    let ghost mut witnesses: Seq<Seq<RowV>> = Seq::empty();
    // The relationship fields, each answered by its own pass and stitched
    // onto the parent rows.
    let empty_fields: Vec<(String, Field)> = Vec::new();
    let fields_vec: &Vec<(String, Field)> = match &query.fields {
        Some(f) => f,
        None => &empty_fields,
    };
    let ghost m = fields_vec@;
    proof {
        assert(m =~= fields_of_q(*query));
    }
    let mut current_rows: Option<Vec<Row>> = rows_data;
    let mut i: usize = 0;
    while i < fields_vec.len()
        invariant
            i <= fields_vec.len(),
            start_cur <= cur as int <= transcript@.len(),
            cur as int >= start_cur + rel_field_count(m.take(i as int)),
            rel_field_count(m) == 0 ==> cur as int == start_cur && opt_rows_view(current_rows)
                == pre_rows,
            m.len() > 0 ==> current_rows is Some,
            witnesses.len() == i as int,
            forall|j: int| 0 <= j < i ==> rel_field_ok(#[trigger] m[j].1, coll_rel@),
            forall|j: int| 0 <= j < i ==> flat_child_anchored(
                *config,
                coll_rel@,
                m[j].1,
                #[trigger] witnesses[j],
                transcript@,
                cursor as int,
            ),
            (match current_rows {
                Some(v) => rows_view(v@) == stitch_fields_spec(
                    base_rows,
                    m.take(i as int),
                    coll_rel@,
                    witnesses,
                    0,
                ),
                None => true,
            }),
        decreases fields_vec.len() - i,
    {
        match &fields_vec[i].1 {
            Field::Column { .. } => {
                proof {
                    let w0 = witnesses;
                    witnesses = w0.push(Seq::empty());
                    lemma_stitch_append(
                        base_rows,
                        m.take(i as int),
                        coll_rel@,
                        w0,
                        m[i as int],
                        Seq::empty(),
                        0,
                    );
                    assert(m.take(i as int).push(m[i as int]) =~= m.take(i + 1));
                }
            },
            Field::Relationship { relationship, arguments, query: subq } => {
                proof {
                    if rel_field_count(m) == 0 {
                        lemma_rel_count_zero(m, i as int);
                    }
                }
                let taken = current_rows;
                current_rows = None;
                match taken {
                    None => {
                        // A relationship field implies requested fields, and
                        // requested fields imply fetched rows: this arm
                        // cannot be reached.
                        proof {
                            assert(false);
                        }
                    },
                    Some(rows_vec) => {
                        let rel = match assoc_get(coll_rel, relationship) {
                            Some(rel) => rel,
                            None => {
                                return Err(
                                    QueryError::UnknownRelationship {
                                        name: copy_string(relationship),
                                    },
                                );
                            },
                        };
                        let (pks, fks, rel_type) = match parse_relationship(rel) {
                            Ok(t) => t,
                            Err(e) => {
                                return Err(e);
                            },
                        };
                        let rel_value = match generate_value_from_rows(&rows_vec, rel) {
                            Ok(v) => v,
                            Err(e) => {
                                return Err(e);
                            },
                        };
                        let pred = match generate_predicate(&pks, rel_value) {
                            Ok(p) => p,
                            Err(e) => {
                                return Err(e);
                            },
                        };
                        let revised = revise_query(subq, pred, &pks);
                        let child_keys = field_key_strings(subq);
                        proof {
                            lemma_fields_depth_bound(m, i as int);
                        }
                        let ghost child_start = cur as int;
                        let child = match orchestrate_query_at(
                            config,
                            &rel.target_collection,
                            coll_rel,
                            arguments,
                            &revised,
                            vars,
                            transcript,
                            cur,
                        ) {
                            Ok(c) => c,
                            Err(e) => {
                                return Err(e);
                            },
                        };
                        match child {
                            (Orchestration::Need(s), _) => {
                                return Ok((Orchestration::Need(s), cur));
                            },
                            (Orchestration::Done(rs), next) => {
                                cur = next;
                                let ghost rsv = rs@;
                                let fk_rows: Vec<Row> = match rs.rows {
                                    Some(r) => r,
                                    None => Vec::new(),
                                };
                                let stitched = if rel_type == RelationshipType::Object {
                                    process_object_relationship(
                                        &rows_vec,
                                        &fields_vec[i].0,
                                        &fk_rows,
                                        &pks,
                                        &fks,
                                        &child_keys,
                                    )
                                } else {
                                    process_array_relationship(
                                        &rows_vec,
                                        &fields_vec[i].0,
                                        &fk_rows,
                                        &pks,
                                        &fks,
                                        subq,
                                        &child_keys,
                                    )
                                };
                                match stitched {
                                    Ok(Some(new_rows)) => {
                                        proof {
                                            let c = rows_view(fk_rows@);
                                            assert(rows_view(new_rows@) =~= stitch_field(
                                                rows_view(rows_vec@),
                                                m[i as int],
                                                coll_rel@,
                                                c,
                                            ));
                                            if rel_field_count(crate::sql::fields_of(**subq))
                                                == 0 {
                                                // The revised sub-query is flat too: the added
                                                // key entry is a plain column.
                                                let old_fields = crate::sql::fields_of(**subq);
                                                let rf = revised.fields->Some_0@;
                                                assert forall|j2: int|
                                                    0 <= j2 < old_fields.len() implies field_like(
                                                    (#[trigger] rf.take(
                                                        old_fields.len() as int,
                                                    )[j2]).1,
                                                    old_fields[j2].1,
                                                ) by {
                                                    assert(rf.take(old_fields.len() as int)[j2]
                                                        == rf[j2]);
                                                }
                                                if rf.len() == old_fields.len() {
                                                    assert(rf.take(old_fields.len() as int)
                                                        =~= rf);
                                                    lemma_rel_count_matching(rf, old_fields);
                                                } else {
                                                    assert(rf.drop_last() =~= rf.take(
                                                        old_fields.len() as int,
                                                    ));
                                                    lemma_rel_count_matching(
                                                        rf.drop_last(),
                                                        old_fields,
                                                    );
                                                    assert(rf.drop_last().push(rf.last()) =~= rf);
                                                    lemma_rel_count_push(
                                                        rf.drop_last(),
                                                        rf.last(),
                                                    );
                                                }
                                                assert(rel_field_count(
                                                    crate::sql::fields_of(revised),
                                                ) == 0);
                                                // The child pass mirrors the flat pipeline; a
                                                // done child pins its base answer.
                                                let rstmt = row_statement_spec(
                                                    *config,
                                                    rel.target_collection@,
                                                    coll_rel@,
                                                    arguments@,
                                                    revised,
                                                    vars@,
                                                );
                                                assert(rstmt is Ok);
                                                let t = crate::config::table_of(
                                                    *config,
                                                    rel.target_collection@,
                                                );
                                                assert(t is Some);
                                                lemma_select_first_nonempty(
                                                    crate::sql::is_json_flavour(*config),
                                                    crate::sql::qualified_table_name_spec(
                                                        t->Some_0,
                                                    ),
                                                    coll_rel@,
                                                    crate::sql::fields_of(revised),
                                                );
                                                lemma_join_first_nonempty(
                                                    (crate::sql::select_spec(
                                                        *config,
                                                        rel.target_collection@,
                                                        revised,
                                                        coll_rel@,
                                                    ))->Ok_0,
                                                    ","@,
                                                );
                                                assert(rstmt matches Ok(Some(_)));
                                                let sv = rstmt->Ok_0->Some_0;
                                                assert(child_start >= start_cur);
                                                assert(cursor < child_start < transcript@.len()
                                                    && transcript@[child_start].0@ == sv);
                                                let d = crate::decode::decode_rows_from(
                                                    transcript@[child_start].1@,
                                                    0,
                                                );
                                                assert(d is Ok);
                                                let cbase = d->Ok_0;
                                                let ckeys = field_keys_of(revised);
                                                let processed = if fixes_on(*config) {
                                                    fixed_rows_spec(
                                                        mended_rows_spec(cbase, ckeys),
                                                        ckeys,
                                                    )
                                                } else {
                                                    cbase
                                                };
                                                assert(rsv.rows == Some(processed));
                                                assert(c == processed);
                                                // The child's requested names are the
                                                // sub-query's plus the correlation key.
                                                let tgt = rel.column_mapping@[0].1@;
                                                assert forall|j2: int|
                                                    0 <= j2 < old_fields.len()
                                                        && old_fields[j2].0@ == tgt implies exists|
                                                    j3: int,
                                                |
                                                    0 <= j3 < field_keys_of(**subq).len()
                                                        && field_keys_of(**subq)[j3] == tgt by {
                                                    assert(field_keys_of(**subq)[j2] == tgt);
                                                }
                                                if exists|j3: int|
                                                    0 <= j3 < field_keys_of(**subq).len()
                                                        && field_keys_of(**subq)[j3] == tgt {
                                                    let j3 = choose|j3: int|
                                                        0 <= j3 < field_keys_of(**subq).len()
                                                            && field_keys_of(**subq)[j3] == tgt;
                                                    assert(old_fields[j3].0@ == tgt);
                                                }
                                                assert(ckeys =~= child_keys_spec(**subq, *rel));
                                                assert(flat_child_anchored(
                                                    *config,
                                                    coll_rel@,
                                                    m[i as int].1,
                                                    c,
                                                    transcript@,
                                                    cursor as int,
                                                ));
                                            }
                                            let w0 = witnesses;
                                            witnesses = w0.push(c);
                                            lemma_stitch_append(
                                                base_rows,
                                                m.take(i as int),
                                                coll_rel@,
                                                w0,
                                                m[i as int],
                                                c,
                                                0,
                                            );
                                            assert(m.take(i as int).push(m[i as int]) =~= m.take(
                                                i + 1,
                                            ));
                                        }
                                        current_rows = Some(new_rows);
                                    },
                                    Ok(None) => {
                                        return Err(QueryError::InvalidRow);
                                    },
                                    Err(e) => {
                                        return Err(e);
                                    },
                                }
                            },
                        }
                    },
                }
            },
        }
        proof {
            assert(m.take(i + 1).drop_last() =~= m.take(i as int));
            assert(m.take(i + 1).last() == m[i as int]);
        }
        i += 1;
    }
    proof {
        assert(m.take(m.len() as int) =~= m);
    }
    let ghost stitched_final = stitch_fields_spec(base_rows, m, coll_rel@, witnesses, 0);
    // The finished shape: each row projected to exactly the requested
    // names, when the shape-mending pass is on.
    let final_rows: Option<Vec<Row>> = match current_rows {
        None => None,
        Some(v) => {
            if fixes {
                Some(fix_rows(&v, &field_keys))
            } else {
                Some(v)
            }
        },
    };
    proof {
        if fields_vec.len() > 0 {
            let d = crate::decode::decode_rows_from(transcript@[cursor as int].1@, 0);
            assert(d is Ok);
            let base = d->Ok_0;
            assert(base_rows == (if fixes_on(*config) {
                mended_rows_spec(base, field_keys_of(*query))
            } else {
                base
            }));
            assert(match final_rows {
                Some(v) => rows_view(v@) == (if fixes_on(*config) {
                    fixed_rows_spec(stitched_final, field_keys_of(*query))
                } else {
                    stitched_final
                }),
                None => false,
            });
            assert(finished_rows_spec(*config, *query, coll_rel@, base, witnesses) == (
            if fixes_on(*config) {
                fixed_rows_spec(stitched_final, field_keys_of(*query))
            } else {
                stitched_final
            }));
        }
    }
    Ok((Orchestration::Done(RowSet { aggregates: parsed_aggregates, rows: final_rows }), cur))
}

/// The requested field list of a query, or nothing where none is given.
pub open spec fn fields_of_q(q: Query) -> Seq<(String, Field)> {
    crate::sql::fields_of(q)
}

/// Orchestrates one query against what the engine has answered so far:
/// compiles and replays the query for the target collection, answers each
/// relationship field by its own pass, and stitches the related rows onto
/// each parent row.  The result either asks for the next statement the
/// engine must run, or carries the finished row set.
pub fn orchestrate_query(query_params: QueryParams, transcript: &Transcript) -> (r: Result<
    Orchestration,
    QueryError,
>)
    ensures
        rel_field_count(fields_of_q(*query_params.query)) == 0 ==> (match r {
            Ok(o) => (match orchestrate_flat_spec(
                *query_params.config,
                query_params.coll@,
                query_params.coll_rel@,
                query_params.args@,
                *query_params.query,
                query_params.vars@,
                transcript@,
                0,
            ) {
                Ok(p) => o@ == p.0,
                Err(_) => false,
            }),
            Err(e) => orchestrate_flat_spec(
                *query_params.config,
                query_params.coll@,
                query_params.coll_rel@,
                query_params.args@,
                *query_params.query,
                query_params.vars@,
                transcript@,
                0,
            ) == Err::<(OrchestrationV, int), _>(e@),
        }),
        (match row_statement_spec(
            *query_params.config,
            query_params.coll@,
            query_params.coll_rel@,
            query_params.args@,
            *query_params.query,
            query_params.vars@,
        ) {
            Err(ev) => r matches Err(e) && e@ == ev,
            Ok(opt) => opt matches Some(sv) ==> ((transcript@.len() == 0
                || transcript@[0].0@ != sv) ==> (r matches Ok(o) && o@
                == OrchestrationV::Need(sv))),
        }),
        (match r {
            Ok(o) => o matches Orchestration::Done(rs) ==> (fields_of_q(
                *query_params.query,
            ).len() > 0 ==> {
                &&& transcript@.len() > 0
                &&& (match crate::decode::decode_rows_from(transcript@[0].1@, 0) {
                    Ok(base) => exists|children: Seq<Seq<RowV>>|
                        {
                            &&& rs@.rows == Some(
                                #[trigger] finished_rows_spec(
                                    *query_params.config,
                                    *query_params.query,
                                    query_params.coll_rel@,
                                    base,
                                    children,
                                ),
                            )
                            &&& children.len() == fields_of_q(*query_params.query).len()
                            &&& forall|j: int|
                                0 <= j < children.len() ==> flat_child_anchored(
                                    *query_params.config,
                                    query_params.coll_rel@,
                                    fields_of_q(*query_params.query)[j].1,
                                    #[trigger] children[j],
                                    transcript@,
                                    0,
                                )
                        },
                    Err(_) => false,
                })
            }),
            Err(_) => true,
        }),
{
    match orchestrate_query_at(
        query_params.config,
        query_params.coll,
        query_params.coll_rel,
        query_params.args,
        query_params.query,
        query_params.vars,
        transcript,
        0,
    ) {
        Ok((o, _)) => Ok(o),
        Err(e) => Err(e),
    }
}

} // verus!
