use vstd::prelude::*;
use crate::config::ParsedConfiguration;
use crate::model::{ComparisonTarget, ComparisonValue, Expression, QueryErrorV, Relationship,
    RelationshipArgument, Query};
use crate::row::{RowV, lookup_field, set_field_v, project_v};
use crate::value::{JsonValue, ValueV};
use crate::sql::{compile_expr_spec, quoted, qualified_table_name_spec, parse_query_spec,
    QueryComponentsV};
use crate::query::{matching_children, object_stitch, child_value_spec, projected_objs,
    slice_children, orchestrate_flat_spec, row_statement_spec, agg_statement_spec,
    OrchestrationV};

verus! {

broadcast use vstd::seq::group_seq_axioms;

/// Compiling the same request twice against the same catalog yields the
/// same components, and so byte-identical statements: the compiled form is
/// a function of the request, catalog and bindings alone.
pub proof fn law_compile_idempotent(
    cfg: ParsedConfiguration,
    coll: Seq<char>,
    rels: Seq<(String, Relationship)>,
    args: Seq<(String, RelationshipArgument)>,
    q: Query,
    vars: Seq<(String, JsonValue)>,
    first: Result<QueryComponentsV, QueryErrorV>,
    second: Result<QueryComponentsV, QueryErrorV>,
)
    requires
        first == parse_query_spec(cfg, coll, rels, args, q, vars),
        second == parse_query_spec(cfg, coll, rels, args, q, vars),
    ensures
        first == second,
{
}

proof fn lemma_lookup_set_field(fields: RowV, key: Seq<char>, val: ValueV)
    requires
        lookup_field(fields, key) is Some,
    ensures
        lookup_field(set_field_v(fields, key, val), key) == Some(val),
    decreases fields,
{
    if fields.len() > 0 {
        if fields[0].0 == key {
            let updated = seq![(fields[0].0, val)] + fields.drop_first();
            assert(updated[0] == (fields[0].0, val));
        } else {
            lemma_lookup_set_field(fields.drop_first(), key, val);
            let updated = seq![fields[0]] + set_field_v(fields.drop_first(), key, val);
            assert(updated[0] == fields[0]);
            assert(updated.drop_first() =~= set_field_v(fields.drop_first(), key, val));
        }
    }
}

proof fn lemma_projected_objs_len(children: Seq<RowV>, keys: Seq<Seq<char>>)
    ensures
        projected_objs(children, keys).len() == children.len(),
    decreases children,
{
    if children.len() > 0 {
        lemma_projected_objs_len(children.drop_last(), keys);
    }
}

/// An object relationship never yields more than one child row per parent,
/// even where several children match: the nested structure attached at the
/// requested field holds at most one row.
pub proof fn law_object_at_most_one_child(
    row: RowV,
    field: Seq<char>,
    fk: Seq<RowV>,
    key: Seq<char>,
    child_keys: Seq<Seq<char>>,
)
    requires
        lookup_field(row, field) is Some,
    ensures
        match lookup_field(object_stitch(row, field, fk, key, child_keys), field) {
            Some(nested) => nested matches ValueV::Obj(entries) && entries.len() == 2
                && entries[0].0 == "rows"@ && (entries[0].1 matches ValueV::Arr(rs) && rs.len()
                <= 1),
            None => false,
        },
{
    let kept = matching_children(fk, key, crate::row::lookup_or_null(row, key));
    let kept1 = if kept.len() > 1 {
        kept.take(1)
    } else {
        kept
    };
    lemma_lookup_set_field(row, field, child_value_spec(kept1, child_keys));
    lemma_projected_objs_len(kept1, child_keys);
}

/// Array relationship pagination slices the already-filtered child list
/// locally: with a limit set and the whole page available, the children
/// kept are exactly those at the offset positions.
pub proof fn law_array_pagination_window(
    children: Seq<RowV>,
    limit: u32,
    offset: u32,
)
    requires
        limit > 0,
        offset + limit <= children.len(),
    ensures
        slice_children(children, Some(limit), Some(offset)) == children.subrange(
            offset as int,
            offset as int + limit as int,
        ),
        slice_children(children, Some(limit), Some(offset)).len() == limit as int,
        forall|i: int| 0 <= i < limit as int ==> #[trigger] slice_children(
            children,
            Some(limit),
            Some(offset),
        )[i] == children[offset + i],
{
}

/// An offset without a limit still pages locally: the children before the
/// offset are dropped, the rest are kept.
pub proof fn law_array_bare_offset(children: Seq<RowV>, offset: u32)
    requires
        offset <= children.len(),
    ensures
        slice_children(children, None, Some(offset)) =~= children.skip(offset as int),
{
}

/// A membership test against an empty literal list compiles to an
/// always-false sub-select, never to invalid empty-list syntax.
pub proof fn law_empty_membership_is_false_subselect(
    cfg: ParsedConfiguration,
    coll: Seq<char>,
    rels: Seq<(String, Relationship)>,
    vars: Seq<(String, JsonValue)>,
    e: Expression,
)
    requires
        e matches Expression::BinaryComparisonOperator { column, operator, value } && operator@
            == "_in"@ && (column matches ComparisonTarget::Column { name, field_path } && field_path
            is None) && (value matches ComparisonValue::Scalar { value: sv } && sv@
            == ValueV::Arr(Seq::empty())),
        crate::config::table_of(cfg, coll) is Some,
    ensures
        e matches Expression::BinaryComparisonOperator { column, .. } && (column
            matches ComparisonTarget::Column { name, .. } ==> compile_expr_spec(
            cfg,
            coll,
            rels,
            vars,
            e,
        ) == Ok::<_, QueryErrorV>(
            {
                let left = quoted(name@);
                let table = qualified_table_name_spec(
                    crate::config::table_of(cfg, coll)->Some_0,
                );
                left + " IN "@ + "(SELECT "@ + left + " FROM "@ + table + " WHERE FALSE)"@
            },
        )),
{
    reveal_strlit("()");
    reveal_strlit(" IN ");
    reveal_strlit(" ");
    reveal_strlit("IN");
    reveal_strlit("_gt");
    reveal_strlit("_lt");
    reveal_strlit("_gte");
    reveal_strlit("_lte");
    reveal_strlit("_eq");
    reveal_strlit("_in");
    reveal_strlit("_like");
    if let Expression::BinaryComparisonOperator { column, operator, value } = e {
        if let ComparisonTarget::Column { name, field_path } = column {
            if let ComparisonValue::Scalar { value: sv } = value {
                let rendered = crate::value::json_of(sv@);
                assert(rendered =~= seq!['[', ']']);
                let br = crate::sql::bracketed(rendered);
                assert(br =~= seq!['(', ')']);
                let lit = crate::sql::sql_quoted(br);
                reveal_with_fuel(crate::sql::sql_quoted, 4);
                assert(br.drop_last() =~= seq!['(']);
                assert(seq!['('].drop_last() =~= Seq::<char>::empty());
                assert(crate::sql::sql_quoted(seq!['(']) =~= seq!['(']);
                assert(lit =~= seq!['(', ')']);
                assert(lit == "()"@);
                let left = quoted(crate::sql::column_name_spec(name@, field_path));
                assert(crate::sql::column_name_spec(name@, field_path) == name@);
                assert("_in"@[1] == 'i' && "_in"@[2] == 'n');
                assert("_gt"@[1] == 'g');
                assert("_lt"@[1] == 'l');
                assert("_eq"@[1] == 'e');
                assert(crate::sql::sql_operator("_in"@) == Some("IN"@));
                let op = crate::sql::sql_operator(operator@)->Some_0;
                assert(op == "IN"@);
                let table = qualified_table_name_spec(
                    crate::config::table_of(cfg, coll)->Some_0,
                );
                assert(left + seq![' '] + op + seq![' '] + "(SELECT "@ + left + " FROM "@ + table
                    + " WHERE FALSE)"@ =~= left + " IN "@ + "(SELECT "@ + left + " FROM "@ + table
                    + " WHERE FALSE)"@);
            }
        }
    }
}

/// A row that went through the shape pass holds exactly the requested
/// names, in request order, whatever the engine returned: the shape of
/// the output mirrors the shape of the request.
pub proof fn law_round_trip_shape(fields: RowV, keys: Seq<Seq<char>>)
    ensures
        crate::row::fix_row_v(fields, keys).len() == keys.len(),
        forall|i: int| 0 <= i < keys.len() ==> #[trigger] crate::row::fix_row_v(
            fields,
            keys,
        )[i].0 == keys[i],
{
    crate::row::lemma_project_shape(crate::row::norm_fields(fields), keys);
}

/// A request with no relationship fields is answered from exactly one
/// statement: once it compiles, with nothing answered yet the engine asks
/// for the row statement, and once that one statement is answered (and no
/// aggregates are requested) the pass is done having consumed exactly that
/// answer.
pub proof fn law_single_statement(
    cfg: ParsedConfiguration,
    coll: Seq<char>,
    rels: Seq<(String, Relationship)>,
    args: Seq<(String, RelationshipArgument)>,
    q: Query,
    vars: Seq<(String, JsonValue)>,
    transcript: Seq<(String, Vec<String>)>,
)
    requires
        parse_query_spec(cfg, coll, rels, args, q, vars) is Ok,
        crate::sql::fields_of(q).len() > 0,
        q.aggregates is None,
    ensures
        row_statement_spec(cfg, coll, rels, args, q, vars) matches Ok(opt) && opt is Some,
        agg_statement_spec(cfg, coll, rels, args, q, vars) == Ok::<Option<Seq<char>>, QueryErrorV>(
            None,
        ),
        orchestrate_flat_spec(cfg, coll, rels, args, q, vars, Seq::empty(), 0) == Ok::<
            _,
            QueryErrorV,
        >(
            (
                OrchestrationV::Need(
                    row_statement_spec(cfg, coll, rels, args, q, vars)->Ok_0->Some_0,
                ),
                0int,
            ),
        ),
        (transcript.len() == 1 && transcript[0].0@ == row_statement_spec(
            cfg,
            coll,
            rels,
            args,
            q,
            vars,
        )->Ok_0->Some_0 && crate::decode::decode_rows_from(transcript[0].1@, 0) is Ok) ==> (match
            orchestrate_flat_spec(cfg, coll, rels, args, q, vars, transcript, 0) {
            Ok(p) => p.0 is Done && p.1 == 1,
            Err(_) => false,
        }),
{
    let t = crate::config::table_of(cfg, coll);
    assert(t is Some);
    crate::query::lemma_select_first_nonempty(
        crate::sql::is_json_flavour(cfg),
        qualified_table_name_spec(t->Some_0),
        rels,
        crate::sql::fields_of(q),
    );
    crate::query::lemma_join_first_nonempty(
        (crate::sql::select_spec(cfg, coll, q, rels))->Ok_0,
        ","@,
    );
}

} // verus!
