use vstd::prelude::*;
use crate::config::{ParsedConfiguration, TableMetadata, table_of, find_table};
use crate::model::{assoc_lookup, assoc_get, ComparisonTarget, ComparisonValue, Expression,
    ExistsInCollection, QueryError, QueryErrorV, RelationshipArgument, Relationship};
use crate::text::{join_sep, views_of, join_strings, copy_string, str_chars};
use crate::value::{JsonValue, json_of, render_value};

verus! {

broadcast use vstd::seq::group_seq_axioms, vstd::std_specs::vec::group_vec_axioms;

/// Text wrapped in double quotes.
pub open spec fn quoted(s: Seq<char>) -> Seq<char> {
    seq!['"'] + s + seq!['"']
}

fn quote_into(out: &mut String, s: &String)
    ensures
        final(out)@ == old(out)@ + quoted(s@),
{
    out.push('"');
    out.push_str(s.as_str());
    out.push('"');
    proof {
        assert(final(out)@ =~= old(out)@ + quoted(s@));
    }
}

/// The fully qualified physical name of a collection: the catalog and
/// schema segments where they are set and not empty, then the name, each
/// wrapped in double quotes and joined with dots.
pub open spec fn qualified_table_name_spec(t: TableMetadata) -> Seq<char> {
    let cat = match t.catalog {
        Some(c) => c@,
        None => Seq::empty(),
    };
    let sch = match t.schema {
        Some(s) => s@,
        None => Seq::empty(),
    };
    (if cat.len() > 0 {
        quoted(cat) + seq!['.']
    } else {
        Seq::empty()
    }) + (if sch.len() > 0 {
        quoted(sch) + seq!['.']
    } else {
        Seq::empty()
    }) + quoted(t.name@)
}

/// Builds the fully qualified physical name of a collection.
pub fn create_qualified_table_name(table_metadata: &TableMetadata) -> (r: String)
    ensures
        r@ == qualified_table_name_spec(*table_metadata),
{
    let mut out = String::new();
    match &table_metadata.catalog {
        Some(c) => {
            if c.as_str().unicode_len() > 0 {
                quote_into(&mut out, c);
                out.push('.');
            }
        },
        None => {},
    }
    match &table_metadata.schema {
        Some(s) => {
            if s.as_str().unicode_len() > 0 {
                quote_into(&mut out, s);
                out.push('.');
            }
        },
        None => {},
    }
    quote_into(&mut out, &table_metadata.name);
    proof {
        assert(out@ =~= qualified_table_name_spec(*table_metadata));
    }
    out
}

/// A column reference resolved through an optional field path: the path
/// segments joined with dots, written directly before the column name,
/// with no separator between them.  That is the alias convention the
/// engine's rows come back under, so resolution here must match it.
pub open spec fn column_name_spec(name: Seq<char>, field_path: Option<Vec<String>>) -> Seq<char> {
    match field_path {
        None => name,
        Some(f) => join_sep(views_of(f@), "."@) + name,
    }
}

/// Resolves a column reference through an optional field path.
pub fn create_column_name(name: &String, field_path: &Option<Vec<String>>) -> (r: String)
    ensures
        r@ == column_name_spec(name@, *field_path),
{
    match field_path {
        None => copy_string(name),
        Some(f) => {
            let mut out = join_strings(f, ".");
            out.push_str(name.as_str());
            out
        },
    }
}

/// One projected field expression: over the object-construction flavour a
/// quoted output name and the table-qualified column, otherwise the
/// table-qualified column aliased to the output name.
pub open spec fn field_statement_spec(
    supports_json_object: bool,
    key: Seq<char>,
    item: Seq<char>,
    table: Seq<char>,
) -> Seq<char> {
    if supports_json_object {
        seq!['\''] + key + seq!['\'', ',', ' '] + table + seq!['.'] + quoted(item)
    } else {
        table + seq!['.'] + quoted(item) + " AS "@ + quoted(key)
    }
}

/// Builds one projected field expression.
pub fn get_field_statement(
    supports_json_object: bool,
    key: &String,
    item: &String,
    table: &String,
) -> (r: String)
    ensures
        r@ == field_statement_spec(supports_json_object, key@, item@, table@),
{
    let mut out = String::new();
    if supports_json_object {
        out.push('\'');
        out.push_str(key.as_str());
        out.push('\'');
        out.push(',');
        out.push(' ');
        out.push_str(table.as_str());
        out.push('.');
        quote_into(&mut out, item);
        proof {
            assert(out@ =~= field_statement_spec(true, key@, item@, table@));
        }
    } else {
        out.push_str(table.as_str());
        out.push('.');
        quote_into(&mut out, item);
        out.push_str(" AS ");
        quote_into(&mut out, key);
        proof {
            assert(out@ =~= field_statement_spec(false, key@, item@, table@));
        }
    }
    out
}

/// A literal list rendered as a parenthesized list: a leading `[` and a
/// trailing `]` become `(` and `)`.
pub open spec fn bracketed(s: Seq<char>) -> Seq<char> {
    if s.len() >= 2 && s[0] == '[' && s[s.len() - 1] == ']' {
        seq!['('] + s.subrange(1, s.len() - 1) + seq![')']
    } else {
        s
    }
}

/// Rewrites a rendered array literal into a parenthesized list.
pub fn sql_brackets(input: &str) -> (r: String)
    ensures
        r@ == bracketed(input@),
{
    let chars = str_chars(input);
    let n = chars.len();
    let mut out = String::new();
    if n >= 2 && chars[0] == '[' && chars[n - 1] == ']' {
        out.push('(');
        let mut i: usize = 1;
        while i < n - 1
            invariant
                1 <= i <= n - 1,
                n == input@.len(),
                chars@ == input@,
                out@ == seq!['('] + input@.subrange(1, i as int),
            decreases n - i,
        {
            out.push(chars[i]);
            proof {
                assert(input@.subrange(1, i + 1) =~= input@.subrange(1, i as int).push(
                    input@[i as int],
                ));
            }
            i += 1;
        }
        out.push(')');
        proof {
            assert(out@ =~= bracketed(input@));
        }
    } else {
        out.push_str(input);
    }
    out
}

/// One character as the literal-escaping pass writes it: a single quote
/// gains a backslash, a double quote becomes the sentinel `__UTF8__`,
/// every other character stands as itself.
pub open spec fn sql_quote_char(c: char) -> Seq<char> {
    if c == '\'' {
        seq!['\\', '\'']
    } else if c == '"' {
        "__UTF8__"@
    } else {
        seq![c]
    }
}

/// Text as the literal-escaping pass writes it.
pub open spec fn sql_quoted(s: Seq<char>) -> Seq<char>
    decreases s,
{
    if s.len() == 0 {
        Seq::empty()
    } else {
        sql_quoted(s.drop_last()) + sql_quote_char(s.last())
    }
}

/// Escapes quotes in a rendered literal before it is embedded in a
/// statement.
pub fn sql_quotes(input: &str) -> (r: String)
    ensures
        r@ == sql_quoted(input@),
{
    let chars = str_chars(input);
    let mut out = String::new();
    let mut i: usize = 0;
    while i < chars.len()
        invariant
            i <= chars.len(),
            chars@ == input@,
            out@ == sql_quoted(input@.take(i as int)),
        decreases chars.len() - i,
    {
        let c = chars[i];
        if c == '\'' {
            out.push('\\');
            out.push('\'');
        } else if c == '"' {
            out.push_str("__UTF8__");
        } else {
            out.push(c);
        }
        proof {
            assert(input@.take(i + 1).drop_last() =~= input@.take(i as int));
            assert(input@.take(i + 1).last() == input@[i as int]);
            assert(out@ =~= sql_quoted(input@.take(i as int)) + sql_quote_char(input@[i as int]));
        }
        i += 1;
    }
    proof {
        assert(input@.take(input@.len() as int) =~= input@);
    }
    out
}

/// The fixed symbol table of binary comparison operators.
pub open spec fn sql_operator(op: Seq<char>) -> Option<Seq<char>> {
    if op == "_gt"@ {
        Some(">"@)
    } else if op == "_lt"@ {
        Some("<"@)
    } else if op == "_gte"@ {
        Some(">="@)
    } else if op == "_lte"@ {
        Some("<="@)
    } else if op == "_eq"@ {
        Some("="@)
    } else if op == "_in"@ {
        Some("IN"@)
    } else if op == "_like"@ {
        Some("LIKE"@)
    } else {
        None
    }
}

/// Resolves a binary comparison operator against the fixed symbol table.
fn resolve_operator(op: &String) -> (r: Option<&'static str>)
    ensures
        match r {
            Some(s) => sql_operator(op@) == Some(s@),
            None => sql_operator(op@) is None,
        },
{
    if *op == "_gt".to_owned() {
        Some(">")
    } else if *op == "_lt".to_owned() {
        Some("<")
    } else if *op == "_gte".to_owned() {
        Some(">=")
    } else if *op == "_lte".to_owned() {
        Some("<=")
    } else if *op == "_eq".to_owned() {
        Some("=")
    } else if *op == "_in".to_owned() {
        Some("IN")
    } else if *op == "_like".to_owned() {
        Some("LIKE")
    } else {
        None
    }
}

/// The result of compiling a list of pieces, as contracts speak about it.
pub open spec fn strs_result_view(r: Result<Vec<String>, QueryError>) -> Result<
    Seq<Seq<char>>,
    QueryErrorV,
> {
    match r {
        Ok(v) => Ok(views_of(v@)),
        Err(e) => Err(e@),
    }
}

/// The value an argument resolves to: a bound variable's value, a literal,
/// or a failure; a column argument cannot be resolved here.
pub open spec fn eval_argument_spec(
    vars: Seq<(String, JsonValue)>,
    arg: RelationshipArgument,
) -> Result<crate::value::ValueV, QueryErrorV> {
    match arg {
        RelationshipArgument::Variable { name } => match assoc_lookup(vars, name@) {
            Some(v) => Ok(v@),
            None => Err(QueryErrorV::VariableNotFound(name@)),
        },
        RelationshipArgument::Literal { value } => Ok(value@),
        RelationshipArgument::Column { name } => Err(QueryErrorV::UnsupportedRelationshipArgument),
    }
}

/// Resolves one relationship argument against the variable bindings.
pub fn eval_argument(
    variables: &Vec<(String, JsonValue)>,
    argument: &RelationshipArgument,
) -> (r: Result<JsonValue, QueryError>)
    ensures
        match r {
            Ok(v) => eval_argument_spec(variables@, *argument) == Ok::<_, QueryErrorV>(v@),
            Err(e) => eval_argument_spec(variables@, *argument) == Err::<crate::value::ValueV, _>(
                e@,
            ),
        },
{
    match argument {
        RelationshipArgument::Variable { name } => match assoc_get(variables, name) {
            Some(v) => Ok(crate::value::clone_value(v)),
            None => Err(QueryError::VariableNotFound { name: copy_string(name) }),
        },
        RelationshipArgument::Literal { value } => Ok(crate::value::clone_value(value)),
        RelationshipArgument::Column { .. } => Err(QueryError::UnsupportedRelationshipArgument),
    }
}

/// The rendered pagination arguments of an existence sub-query: each
/// argument named `limit` or `offset` becomes its clause, every other
/// argument is dropped; resolving any argument's value can fail.
pub open spec fn create_arguments_spec(
    vars: Seq<(String, JsonValue)>,
    args: Seq<(String, RelationshipArgument)>,
    i: int,
) -> Result<Seq<Seq<char>>, QueryErrorV>
    decreases args.len() - i,
{
    if i < 0 || i >= args.len() {
        Ok(Seq::empty())
    } else {
        let value_part: Result<Seq<char>, QueryErrorV> = match args[i].1 {
            RelationshipArgument::Variable { name } => match assoc_lookup(vars, name@) {
                Some(v) => Ok(json_of(v@)),
                None => Err(QueryErrorV::VariableNotFound(name@)),
            },
            RelationshipArgument::Literal { value } => Ok(json_of(value@)),
            RelationshipArgument::Column { name } => Ok(quoted(name@)),
        };
        match value_part {
            Err(e) => Err(e),
            Ok(val) => match create_arguments_spec(vars, args, i + 1) {
                Err(e) => Err(e),
                Ok(rest) => {
                    if args[i].0@ == "limit"@ {
                        Ok(seq!["LIMIT "@ + val] + rest)
                    } else if args[i].0@ == "offset"@ {
                        Ok(seq!["OFFSET "@ + val] + rest)
                    } else {
                        Ok(rest)
                    }
                },
            },
        }
    }
}

/// The correlation conjuncts of a related existence sub-query: one
/// equality per column-mapping pair, the parent column qualified by the
/// parent table.
pub open spec fn correlation_spec(table: Seq<char>, pairs: Seq<(String, String)>) -> Seq<Seq<char>>
    decreases pairs,
{
    if pairs.len() == 0 {
        Seq::empty()
    } else {
        correlation_spec(table, pairs.drop_last()).push(
            table + seq!['.'] + quoted(pairs.last().0@) + " = "@ + quoted(pairs.last().1@),
        )
    }
}

/// The textual boolean form of a predicate expression scoped to one
/// collection, or the failure that stops its compilation: an unknown
/// collection, relationship, operator or variable, or a comparison this
/// engine does not resolve.  An existence test without a nested predicate
/// compiles to an unconditional existence test over the (correlated) rows.
pub open spec fn compile_expr_spec(
    cfg: ParsedConfiguration,
    coll: Seq<char>,
    rels: Seq<(String, Relationship)>,
    vars: Seq<(String, JsonValue)>,
    e: Expression,
) -> Result<Seq<char>, QueryErrorV>
    decreases e, 0int,
{
    match table_of(cfg, coll) {
        None => Err(QueryErrorV::UnknownCollection(coll)),
        Some(t) => {
            let table = qualified_table_name_spec(t);
            match e {
                Expression::And { expressions } => match compile_list_spec(
                    cfg,
                    coll,
                    rels,
                    vars,
                    expressions@,
                    0,
                ) {
                    Err(er) => Err(er),
                    Ok(parts) => Ok(seq!['('] + join_sep(parts, " AND "@) + seq![')']),
                },
                Expression::Or { expressions } => match compile_list_spec(
                    cfg,
                    coll,
                    rels,
                    vars,
                    expressions@,
                    0,
                ) {
                    Err(er) => Err(er),
                    Ok(parts) => Ok(seq!['('] + join_sep(parts, " OR "@) + seq![')']),
                },
                Expression::Not { expression } => match compile_expr_spec(
                    cfg,
                    coll,
                    rels,
                    vars,
                    *expression,
                ) {
                    Err(er) => Err(er),
                    Ok(inner) => Ok("(NOT "@ + inner + seq![')']),
                },
                Expression::UnaryComparisonOperator { column, operator } => match column {
                    ComparisonTarget::Column { name, field_path } => Ok(
                        quoted(column_name_spec(name@, field_path)) + " IS NULL"@,
                    ),
                    ComparisonTarget::RootCollectionColumn { .. } => Err(
                        QueryErrorV::UnsupportedComparisonTarget,
                    ),
                },
                Expression::BinaryComparisonOperator { column, operator, value } => match sql_operator(
                    operator@,
                ) {
                    None => Err(QueryErrorV::UnknownComparisonOperator(operator@)),
                    Some(op) => match column {
                        ComparisonTarget::RootCollectionColumn { .. } => Err(
                            QueryErrorV::UnsupportedComparisonTarget,
                        ),
                        ComparisonTarget::Column { name, field_path } => {
                            let left = quoted(column_name_spec(name@, field_path));
                            match value {
                                ComparisonValue::Column { target } => match target {
                                    ComparisonTarget::Column { name: n2, field_path: f2 } => Ok(
                                        left + seq![' '] + op + seq![' '] + column_name_spec(
                                            n2@,
                                            f2,
                                        ),
                                    ),
                                    ComparisonTarget::RootCollectionColumn { .. } => Err(
                                        QueryErrorV::UnsupportedComparisonTarget,
                                    ),
                                },
                                ComparisonValue::Scalar { value: sv } => {
                                    let lit = sql_quoted(bracketed(json_of(sv@)));
                                    if lit == "()"@ {
                                        Ok(
                                            left + seq![' '] + op + seq![' '] + "(SELECT "@ + left
                                                + " FROM "@ + table + " WHERE FALSE)"@,
                                        )
                                    } else {
                                        Ok(left + seq![' '] + op + seq![' '] + lit)
                                    }
                                },
                                ComparisonValue::Variable { name: vn } => match assoc_lookup(
                                    vars,
                                    vn@,
                                ) {
                                    None => Err(QueryErrorV::VariableNotFound(vn@)),
                                    Some(v) => Ok(left + seq![' '] + op + seq![' '] + json_of(v@)),
                                },
                            }
                        },
                    },
                },
                Expression::Exists { in_collection, predicate } => match in_collection {
                    ExistsInCollection::Related { relationship, arguments } => match assoc_lookup(
                        rels,
                        relationship@,
                    ) {
                        None => Err(QueryErrorV::UnknownRelationship(relationship@)),
                        Some(rel) => match table_of(cfg, rel.target_collection@) {
                            None => Err(QueryErrorV::UnknownCollection(rel.target_collection@)),
                            Some(ft) => {
                                let foreign_table = qualified_table_name_spec(ft);
                                let corr = join_sep(
                                    correlation_spec(table, rel.column_mapping@),
                                    " AND "@,
                                );
                                match create_arguments_spec(vars, arguments@, 0) {
                                    Err(er) => Err(er),
                                    Ok(argparts) => {
                                        let args_text = join_sep(argparts, " "@);
                                        match predicate {
                                            Some(p) => match compile_expr_spec(
                                                cfg,
                                                rel.target_collection@,
                                                rels,
                                                vars,
                                                *p,
                                            ) {
                                                Err(er) => Err(er),
                                                Ok(inner) => Ok(
                                                    "EXISTS (SELECT 1 FROM "@ + foreign_table
                                                        + " WHERE ("@ + corr + " AND "@ + inner
                                                        + ") "@ + args_text + seq![')'],
                                                ),
                                            },
                                            None => Ok(
                                                "EXISTS (SELECT 1 FROM "@ + foreign_table
                                                    + " WHERE ("@ + corr + ") "@ + args_text
                                                    + seq![')'],
                                            ),
                                        }
                                    },
                                }
                            },
                        },
                    },
                    ExistsInCollection::Unrelated { collection, arguments } => match table_of(
                        cfg,
                        collection@,
                    ) {
                        None => Err(QueryErrorV::UnknownCollection(collection@)),
                        Some(ft) => {
                            let foreign_table = qualified_table_name_spec(ft);
                            match create_arguments_spec(vars, arguments@, 0) {
                                Err(er) => Err(er),
                                Ok(argparts) => {
                                    let args_text = join_sep(argparts, " "@);
                                    match predicate {
                                        Some(p) => match compile_expr_spec(
                                            cfg,
                                            collection@,
                                            rels,
                                            vars,
                                            *p,
                                        ) {
                                            Err(er) => Err(er),
                                            Ok(inner) => Ok(
                                                "EXISTS (SELECT 1 FROM "@ + foreign_table
                                                    + " WHERE "@ + inner + seq![' '] + args_text
                                                    + seq![')'],
                                            ),
                                        },
                                        None => Ok(
                                            "EXISTS (SELECT 1 FROM "@ + foreign_table + seq![' ']
                                                + args_text + seq![')'],
                                        ),
                                    }
                                },
                            }
                        },
                    },
                },
            }
        },
    }
}

/// The compiled forms of a list of sub-expressions, from position `i` on;
/// the first failure stops the compilation.
pub open spec fn compile_list_spec(
    cfg: ParsedConfiguration,
    coll: Seq<char>,
    rels: Seq<(String, Relationship)>,
    vars: Seq<(String, JsonValue)>,
    exprs: Seq<Expression>,
    i: int,
) -> Result<Seq<Seq<char>>, QueryErrorV>
    decreases exprs, exprs.len() - i,
{
    if i < 0 || i >= exprs.len() {
        Ok(Seq::empty())
    } else {
        match compile_expr_spec(cfg, coll, rels, vars, exprs[i]) {
            Err(e) => Err(e),
            Ok(s) => match compile_list_spec(cfg, coll, rels, vars, exprs, i + 1) {
                Err(e) => Err(e),
                Ok(rest) => Ok(seq![s] + rest),
            },
        }
    }
}

/// Builds the correlation conjuncts of a related existence sub-query.
#[verifier::loop_isolation(false)]
fn correlation_parts(table: &String, mapping: &Vec<(String, String)>) -> (r: Vec<String>)
    ensures
        views_of(r@) == correlation_spec(table@, mapping@),
{
    let ghost m = mapping@;
    let mut out: Vec<String> = Vec::new();
    let mut i: usize = 0;
    while i < mapping.len()
        invariant
            i <= mapping.len(),
            views_of(out@) == correlation_spec(table@, m.take(i as int)),
        decreases mapping.len() - i,
    {
        let ghost prev = out@;
        let pair = &mapping[i];
        let mut part = String::new();
        part.push_str(table.as_str());
        part.push('.');
        quote_into(&mut part, &pair.0);
        part.push_str(" = ");
        quote_into(&mut part, &pair.1);
        proof {
            assert(part@ =~= table@ + seq!['.'] + quoted(m[i as int].0@) + " = "@ + quoted(
                m[i as int].1@,
            ));
        }
        out.push(part);
        proof {
            assert(m.take(i + 1).drop_last() =~= m.take(i as int));
            assert(m.take(i + 1).last() == m[i as int]);
            assert(views_of(out@) =~= views_of(prev).push(part@));
            assert(views_of(out@) =~= correlation_spec(table@, m.take(i + 1)));
        }
        i += 1;
    }
    proof {
        assert(m.take(m.len() as int) =~= m);
    }
    out
}

/// Renders the pagination arguments of an existence sub-query.
#[verifier::loop_isolation(false)]
fn create_arguments(
    variables: &Vec<(String, JsonValue)>,
    arguments: &Vec<(String, RelationshipArgument)>,
) -> (r: Result<Vec<String>, QueryError>)
    ensures
        strs_result_view(r) == create_arguments_spec(variables@, arguments@, 0),
{
    let ghost m = arguments@;
    let mut out: Vec<String> = Vec::new();
    let mut i: usize = 0;
    proof {
        assert(match create_arguments_spec(variables@, m, 0) {
            Ok(rest) => views_of(out@) + rest =~= rest,
            Err(_) => true,
        });
    }
    while i < arguments.len()
        invariant
            i <= arguments.len(),
            create_arguments_spec(variables@, m, 0) == (match create_arguments_spec(
                variables@,
                m,
                i as int,
            ) {
                Ok(rest) => Ok::<_, QueryErrorV>(views_of(out@) + rest),
                Err(e) => Err::<Seq<Seq<char>>, _>(e),
            }),
        decreases arguments.len() - i,
    {
        let ghost prev = out@;
        let entry = &arguments[i];
        let value_text: String = match &entry.1 {
            RelationshipArgument::Variable { name } => match assoc_get(variables, name) {
                Some(v) => render_value(v),
                None => {
                    return Err(QueryError::VariableNotFound { name: copy_string(name) });
                },
            },
            RelationshipArgument::Literal { value } => render_value(value),
            RelationshipArgument::Column { name } => {
                let mut q = String::new();
                quote_into(&mut q, name);
                q
            },
        };
        if entry.0 == "limit".to_owned() {
            let mut part = String::new();
            part.push_str("LIMIT ");
            part.push_str(value_text.as_str());
            out.push(part);
            proof {
                assert(views_of(out@) =~= views_of(prev).push("LIMIT "@ + value_text@));
            }
        } else if entry.0 == "offset".to_owned() {
            let mut part = String::new();
            part.push_str("OFFSET ");
            part.push_str(value_text.as_str());
            out.push(part);
            proof {
                assert(views_of(out@) =~= views_of(prev).push("OFFSET "@ + value_text@));
            }
        }
        proof {
            let ghost rec = create_arguments_spec(variables@, m, i + 1);
            assert(match rec {
                Ok(rest) => views_of(out@) + rest =~= (match create_arguments_spec(
                    variables@,
                    m,
                    i as int,
                ) {
                    Ok(whole) => views_of(prev) + whole,
                    Err(_) => views_of(out@) + rest,
                }),
                Err(_) => true,
            });
        }
        i += 1;
    }
    proof {
        assert(views_of(out@) + Seq::<Seq<char>>::empty() =~= views_of(out@));
    }
    Ok(out)
}

/// Compiles a predicate expression scoped to one collection into its
/// textual boolean form.
pub fn process_sql_expression(
    configuration: &ParsedConfiguration,
    collection: &String,
    collection_relationships: &Vec<(String, Relationship)>,
    variables: &Vec<(String, JsonValue)>,
    expr: &Expression,
) -> (r: Result<String, QueryError>)
    ensures
        crate::model::text_result_view(r) == compile_expr_spec(
            *configuration,
            collection@,
            collection_relationships@,
            variables@,
            *expr,
        ),
    decreases expr, 0int,
{
    let t = match find_table(configuration, collection) {
        Some(t) => t,
        None => {
            return Err(QueryError::UnknownCollection { name: copy_string(collection) });
        },
    };
    let table = create_qualified_table_name(t);
    match expr {
        Expression::And { expressions } => {
            match compile_expr_list(
                configuration,
                collection,
                collection_relationships,
                variables,
                expressions,
            ) {
                Err(e) => Err(e),
                Ok(parts) => {
                    let joined = join_strings(&parts, " AND ");
                    let mut out = String::new();
                    out.push('(');
                    out.push_str(joined.as_str());
                    out.push(')');
                    proof {
                        assert(out@ =~= seq!['('] + joined@ + seq![')']);
                    }
                    Ok(out)
                },
            }
        },
        Expression::Or { expressions } => {
            match compile_expr_list(
                configuration,
                collection,
                collection_relationships,
                variables,
                expressions,
            ) {
                Err(e) => Err(e),
                Ok(parts) => {
                    let joined = join_strings(&parts, " OR ");
                    let mut out = String::new();
                    out.push('(');
                    out.push_str(joined.as_str());
                    out.push(')');
                    proof {
                        assert(out@ =~= seq!['('] + joined@ + seq![')']);
                    }
                    Ok(out)
                },
            }
        },
        Expression::Not { expression } => {
            match process_sql_expression(
                configuration,
                collection,
                collection_relationships,
                variables,
                expression,
            ) {
                Err(e) => Err(e),
                Ok(inner) => {
                    let mut out = String::new();
                    out.push_str("(NOT ");
                    out.push_str(inner.as_str());
                    out.push(')');
                    proof {
                        assert(out@ =~= "(NOT "@ + inner@ + seq![')']);
                    }
                    Ok(out)
                },
            }
        },
        Expression::UnaryComparisonOperator { column, operator } => {
            match column {
                ComparisonTarget::Column { name, field_path } => {
                    let col = create_column_name(name, field_path);
                    let mut out = String::new();
                    quote_into(&mut out, &col);
                    out.push_str(" IS NULL");
                    proof {
                        assert(out@ =~= quoted(col@) + " IS NULL"@);
                    }
                    Ok(out)
                },
                ComparisonTarget::RootCollectionColumn { .. } => Err(
                    QueryError::UnsupportedComparisonTarget,
                ),
            }
        },
        Expression::BinaryComparisonOperator { column, operator, value } => {
            let op: &str = match resolve_operator(operator) {
                Some(op) => op,
                None => {
                    return Err(
                        QueryError::UnknownComparisonOperator { name: copy_string(operator) },
                    );
                },
            };
            let (name, field_path) = match column {
                ComparisonTarget::Column { name, field_path } => (name, field_path),
                ComparisonTarget::RootCollectionColumn { .. } => {
                    return Err(QueryError::UnsupportedComparisonTarget);
                },
            };
            let col = create_column_name(name, field_path);
            let mut left = String::new();
            quote_into(&mut left, &col);
            proof {
                assert(left@ =~= quoted(col@));
            }
            let right: String = match value {
                ComparisonValue::Column { target } => match target {
                    ComparisonTarget::Column { name: n2, field_path: f2 } => create_column_name(
                        n2,
                        f2,
                    ),
                    ComparisonTarget::RootCollectionColumn { .. } => {
                        return Err(QueryError::UnsupportedComparisonTarget);
                    },
                },
                ComparisonValue::Scalar { value: sv } => {
                    let rendered = render_value(sv);
                    let br = sql_brackets(rendered.as_str());
                    let lit = sql_quotes(br.as_str());
                    if lit == "()".to_owned() {
                        let mut sub = String::new();
                        sub.push_str("(SELECT ");
                        sub.push_str(left.as_str());
                        sub.push_str(" FROM ");
                        sub.push_str(table.as_str());
                        sub.push_str(" WHERE FALSE)");
                        proof {
                            assert(sub@ =~= "(SELECT "@ + left@ + " FROM "@ + table@
                                + " WHERE FALSE)"@);
                        }
                        sub
                    } else {
                        lit
                    }
                },
                ComparisonValue::Variable { name: vn } => match assoc_get(variables, vn) {
                    Some(v) => render_value(v),
                    None => {
                        return Err(QueryError::VariableNotFound { name: copy_string(vn) });
                    },
                },
            };
            let mut out = String::new();
            out.push_str(left.as_str());
            out.push(' ');
            out.push_str(op);
            out.push(' ');
            out.push_str(right.as_str());
            proof {
                let ghost spec_r = compile_expr_spec(*configuration, collection@,
                    collection_relationships@, variables@, *expr);
                assert(spec_r is Ok);
                assert(out@ =~= spec_r->Ok_0);
                assert(spec_r == Ok::<_, QueryErrorV>(out@));
            }
            Ok(out)
        },
        Expression::Exists { in_collection, predicate } => {
            match in_collection {
                ExistsInCollection::Related { relationship, arguments } => {
                    let rel = match assoc_get(collection_relationships, relationship) {
                        Some(rel) => rel,
                        None => {
                            return Err(
                                QueryError::UnknownRelationship {
                                    name: copy_string(relationship),
                                },
                            );
                        },
                    };
                    let ft_meta = match find_table(configuration, &rel.target_collection) {
                        Some(t) => t,
                        None => {
                            return Err(
                                QueryError::UnknownCollection {
                                    name: copy_string(&rel.target_collection),
                                },
                            );
                        },
                    };
                    let foreign_table = create_qualified_table_name(ft_meta);
                    let corr_parts = correlation_parts(&table, &rel.column_mapping);
                    let corr = join_strings(&corr_parts, " AND ");
                    let argparts = match create_arguments(variables, arguments) {
                        Ok(a) => a,
                        Err(e) => {
                            return Err(e);
                        },
                    };
                    let args_text = join_strings(&argparts, " ");
                    match predicate {
                        Some(p) => {
                            match process_sql_expression(
                                configuration,
                                &rel.target_collection,
                                collection_relationships,
                                variables,
                                p,
                            ) {
                                Err(e) => Err(e),
                                Ok(inner) => {
                                    let mut out = String::new();
                                    out.push_str("EXISTS (SELECT 1 FROM ");
                                    out.push_str(foreign_table.as_str());
                                    out.push_str(" WHERE (");
                                    out.push_str(corr.as_str());
                                    out.push_str(" AND ");
                                    out.push_str(inner.as_str());
                                    out.push_str(") ");
                                    out.push_str(args_text.as_str());
                                    out.push(')');
                                    proof {
                                        assert(out@ =~= "EXISTS (SELECT 1 FROM "@ + foreign_table@
                                            + " WHERE ("@ + corr@ + " AND "@ + inner@ + ") "@
                                            + args_text@ + seq![')']);
                                    }
                                    Ok(out)
                                },
                            }
                        },
                        None => {
                            let mut out = String::new();
                            out.push_str("EXISTS (SELECT 1 FROM ");
                            out.push_str(foreign_table.as_str());
                            out.push_str(" WHERE (");
                            out.push_str(corr.as_str());
                            out.push_str(") ");
                            out.push_str(args_text.as_str());
                            out.push(')');
                            proof {
                                assert(out@ =~= "EXISTS (SELECT 1 FROM "@ + foreign_table@
                                    + " WHERE ("@ + corr@ + ") "@ + args_text@ + seq![')']);
                            }
                            Ok(out)
                        },
                    }
                },
                ExistsInCollection::Unrelated { collection: target, arguments } => {
                    let ft_meta = match find_table(configuration, target) {
                        Some(t) => t,
                        None => {
                            return Err(
                                QueryError::UnknownCollection { name: copy_string(target) },
                            );
                        },
                    };
                    let foreign_table = create_qualified_table_name(ft_meta);
                    let argparts = match create_arguments(variables, arguments) {
                        Ok(a) => a,
                        Err(e) => {
                            return Err(e);
                        },
                    };
                    let args_text = join_strings(&argparts, " ");
                    match predicate {
                        Some(p) => {
                            match process_sql_expression(
                                configuration,
                                target,
                                collection_relationships,
                                variables,
                                p,
                            ) {
                                Err(e) => Err(e),
                                Ok(inner) => {
                                    let mut out = String::new();
                                    out.push_str("EXISTS (SELECT 1 FROM ");
                                    out.push_str(foreign_table.as_str());
                                    out.push_str(" WHERE ");
                                    out.push_str(inner.as_str());
                                    out.push(' ');
                                    out.push_str(args_text.as_str());
                                    out.push(')');
                                    proof {
                                        assert(out@ =~= "EXISTS (SELECT 1 FROM "@ + foreign_table@
                                            + " WHERE "@ + inner@ + seq![' '] + args_text@ + seq![
                                            ')',
                                        ]);
                                    }
                                    Ok(out)
                                },
                            }
                        },
                        None => {
                            let mut out = String::new();
                            out.push_str("EXISTS (SELECT 1 FROM ");
                            out.push_str(foreign_table.as_str());
                            out.push(' ');
                            out.push_str(args_text.as_str());
                            out.push(')');
                            proof {
                                assert(out@ =~= "EXISTS (SELECT 1 FROM "@ + foreign_table@ + seq![
                                    ' ',
                                ] + args_text@ + seq![')']);
                            }
                            Ok(out)
                        },
                    }
                },
            }
        },
    }
}

/// Compiles each sub-expression of a combinator; the first failure stops
/// the compilation.
#[verifier::loop_isolation(false)]
fn compile_expr_list(
    configuration: &ParsedConfiguration,
    collection: &String,
    collection_relationships: &Vec<(String, Relationship)>,
    variables: &Vec<(String, JsonValue)>,
    exprs: &Vec<Expression>,
) -> (r: Result<Vec<String>, QueryError>)
    ensures
        strs_result_view(r) == compile_list_spec(
            *configuration,
            collection@,
            collection_relationships@,
            variables@,
            exprs@,
            0,
        ),
    decreases exprs, 1int,
{
    let ghost m = exprs@;
    let mut out: Vec<String> = Vec::new();
    let mut i: usize = 0;
    proof {
        assert(match compile_list_spec(
            *configuration,
            collection@,
            collection_relationships@,
            variables@,
            m,
            0,
        ) {
            Ok(rest) => views_of(out@) + rest =~= rest,
            Err(_) => true,
        });
    }
    while i < exprs.len()
        invariant
            i <= exprs.len(),
            compile_list_spec(
                *configuration,
                collection@,
                collection_relationships@,
                variables@,
                m,
                0,
            ) == (match compile_list_spec(
                *configuration,
                collection@,
                collection_relationships@,
                variables@,
                m,
                i as int,
            ) {
                Ok(rest) => Ok::<_, QueryErrorV>(views_of(out@) + rest),
                Err(e) => Err::<Seq<Seq<char>>, _>(e),
            }),
        decreases exprs.len() - i,
    {
        let ghost prev = out@;
        match process_sql_expression(
            configuration,
            collection,
            collection_relationships,
            variables,
            &exprs[i],
        ) {
            Err(e) => {
                return Err(e);
            },
            Ok(s) => {
                out.push(s);
                proof {
                    let ghost rec = compile_list_spec(
                        *configuration,
                        collection@,
                        collection_relationships@,
                        variables@,
                        m,
                        i + 1,
                    );
                    assert(views_of(out@) =~= views_of(prev).push(out@.last()@));
                    assert(match rec {
                        Ok(rest) => views_of(prev) + (seq![out@.last()@] + rest) =~= views_of(out@)
                            + rest,
                        Err(_) => true,
                    });
                }
            },
        }
        i += 1;
    }
    proof {
        assert(views_of(out@) + Seq::<Seq<char>>::empty() =~= views_of(out@));
    }
    Ok(out)
}

/// Whether the configuration chooses the object-construction statement
/// flavour.
pub open spec fn is_json_flavour(cfg: ParsedConfiguration) -> bool {
    match cfg.supports_json_object {
        Some(b) => b,
        None => false,
    }
}

/// A statement list with one more entry, unless the list already holds
/// exactly that entry.
pub open spec fn push_unique(acc: Seq<Seq<char>>, s: Seq<char>) -> Seq<Seq<char>> {
    if acc.contains(s) {
        acc
    } else {
        acc.push(s)
    }
}

/// The constant placeholder projected for a relationship field, so that
/// the row keeps the field even though this statement performs no join.
pub open spec fn placeholder_spec(json: bool, key: Seq<char>) -> Seq<char> {
    if json {
        seq!['\''] + key + "', 1"@
    } else {
        "1 AS "@ + quoted(key)
    }
}

/// The projection of one local key column of a relationship, needed later
/// to correlate child rows with their parents.
pub open spec fn relationship_key_stmt(json: bool, table: Seq<char>, pk: Seq<char>) -> Seq<char> {
    if json {
        seq!['\''] + pk + seq!['\'', ',', ' '] + table + seq!['.'] + quoted(pk)
    } else {
        table + seq!['.'] + quoted(pk)
    }
}

/// The statement list after the key columns of one relationship are
/// projected, each at most once.
pub open spec fn relationship_keys_spec(
    json: bool,
    table: Seq<char>,
    pairs: Seq<(String, String)>,
    acc: Seq<Seq<char>>,
    i: int,
) -> Seq<Seq<char>>
    decreases pairs.len() - i,
{
    if i < 0 || i >= pairs.len() {
        acc
    } else {
        relationship_keys_spec(
            json,
            table,
            pairs,
            push_unique(acc, relationship_key_stmt(json, table, pairs[i].0@)),
            i + 1,
        )
    }
}

/// The statement list after the requested fields from position `i` on are
/// projected: one column expression per plain field (skipping duplicates),
/// and for each relationship field a constant placeholder followed by the
/// relationship's local key columns.
pub open spec fn select_fields_spec(
    json: bool,
    table: Seq<char>,
    rels: Seq<(String, Relationship)>,
    fields: Seq<(String, crate::model::Field)>,
    acc: Seq<Seq<char>>,
    i: int,
) -> Seq<Seq<char>>
    decreases fields.len() - i,
{
    if i < 0 || i >= fields.len() {
        acc
    } else {
        let acc2 = match fields[i].1 {
            crate::model::Field::Column { column } => push_unique(
                acc,
                field_statement_spec(json, fields[i].0@, column@, table),
            ),
            crate::model::Field::Relationship { relationship, .. } => {
                let with_placeholder = acc.push(placeholder_spec(json, fields[i].0@));
                match assoc_lookup(rels, relationship@) {
                    None => with_placeholder,
                    Some(rel) => relationship_keys_spec(
                        json,
                        table,
                        rel.column_mapping@,
                        with_placeholder,
                        0,
                    ),
                }
            },
        };
        select_fields_spec(json, table, rels, fields, acc2, i + 1)
    }
}

/// The requested field list of a query, or nothing where none is given.
pub open spec fn fields_of(q: crate::model::Query) -> Seq<(String, crate::model::Field)> {
    match q.fields {
        Some(f) => f@,
        None => Seq::empty(),
    }
}

/// The field-projection list of one query.
pub open spec fn select_spec(
    cfg: ParsedConfiguration,
    coll: Seq<char>,
    q: crate::model::Query,
    rels: Seq<(String, Relationship)>,
) -> Result<Seq<Seq<char>>, QueryErrorV> {
    match table_of(cfg, coll) {
        None => Err(QueryErrorV::UnknownCollection(coll)),
        Some(t) => Ok(
            select_fields_spec(
                is_json_flavour(cfg),
                qualified_table_name_spec(t),
                rels,
                fields_of(q),
                Seq::empty(),
                0,
            ),
        ),
    }
}

/// Builds the field-projection list of one query.
#[verifier::loop_isolation(false)]
pub fn select(
    configuration: &ParsedConfiguration,
    collection: &String,
    query: &crate::model::Query,
    collection_relationships: &Vec<(String, Relationship)>,
) -> (r: Result<Vec<String>, QueryError>)
    ensures
        strs_result_view(r) == select_spec(
            *configuration,
            collection@,
            *query,
            collection_relationships@,
        ),
{
    let t = match find_table(configuration, collection) {
        Some(t) => t,
        None => {
            return Err(QueryError::UnknownCollection { name: copy_string(collection) });
        },
    };
    let table = create_qualified_table_name(t);
    let json = match configuration.supports_json_object {
        Some(b) => b,
        None => false,
    };
    let empty_fields: Vec<(String, crate::model::Field)> = Vec::new();
    let fields: &Vec<(String, crate::model::Field)> = match &query.fields {
        Some(f) => f,
        None => &empty_fields,
    };
    let ghost m = fields@;
    proof {
        assert(m =~= fields_of(*query));
    }
    let mut out: Vec<String> = Vec::new();
    let mut i: usize = 0;
    proof {
        assert(views_of(out@) =~= Seq::<Seq<char>>::empty());
    }
    while i < fields.len()
        invariant
            i <= fields.len(),
            select_fields_spec(json, table@, collection_relationships@, m, views_of(out@), i as int)
                == select_fields_spec(
                json,
                table@,
                collection_relationships@,
                m,
                Seq::empty(),
                0,
            ),
        decreases fields.len() - i,
    {
        let ghost before = views_of(out@);
        let entry = &fields[i];
        match &entry.1 {
            crate::model::Field::Column { column } => {
                let stmt = get_field_statement(json, &entry.0, column, &table);
                if !crate::text::contains_string(&out, &stmt) {
                    let ghost prev = out@;
                    out.push(stmt);
                    proof {
                        assert(views_of(out@) =~= views_of(prev).push(out@.last()@));
                    }
                }
            },
            crate::model::Field::Relationship { relationship, .. } => {
                let mut ph = String::new();
                if json {
                    ph.push('\'');
                    ph.push_str(entry.0.as_str());
                    ph.push_str("', 1");
                } else {
                    ph.push_str("1 AS ");
                    quote_into(&mut ph, &entry.0);
                }
                proof {
                    assert(ph@ =~= placeholder_spec(json, m[i as int].0@));
                }
                let ghost prev = out@;
                out.push(ph);
                proof {
                    assert(views_of(out@) =~= views_of(prev).push(out@.last()@));
                }
                match assoc_get(collection_relationships, relationship) {
                    None => {},
                    Some(rel) => {
                        let ghost acc0 = views_of(out@);
                        let ghost pairs = rel.column_mapping@;
                        let mut k: usize = 0;
                        while k < rel.column_mapping.len()
                            invariant
                                k <= rel.column_mapping.len(),
                                relationship_keys_spec(
                                    json,
                                    table@,
                                    pairs,
                                    views_of(out@),
                                    k as int,
                                ) == relationship_keys_spec(json, table@, pairs, acc0, 0),
                            decreases rel.column_mapping.len() - k,
                        {
                            let pk = &rel.column_mapping[k].0;
                            let mut stmt = String::new();
                            if json {
                                stmt.push('\'');
                                stmt.push_str(pk.as_str());
                                stmt.push('\'');
                                stmt.push(',');
                                stmt.push(' ');
                                stmt.push_str(table.as_str());
                                stmt.push('.');
                                quote_into(&mut stmt, pk);
                            } else {
                                stmt.push_str(table.as_str());
                                stmt.push('.');
                                quote_into(&mut stmt, pk);
                            }
                            proof {
                                assert(stmt@ =~= relationship_key_stmt(
                                    json,
                                    table@,
                                    pairs[k as int].0@,
                                ));
                            }
                            if !crate::text::contains_string(&out, &stmt) {
                                let ghost prev2 = out@;
                                out.push(stmt);
                                proof {
                                    assert(views_of(out@) =~= views_of(prev2).push(out@.last()@));
                                }
                            }
                            k += 1;
                        }
                    },
                }
            },
        }
        i += 1;
    }
    proof {
        assert(select_fields_spec(
            json,
            table@,
            collection_relationships@,
            m,
            views_of(out@),
            m.len() as int,
        ) == views_of(out@));
    }
    Ok(out)
}

/// The text of one ordering direction.
pub open spec fn direction_text(d: crate::model::OrderDirection) -> Seq<char> {
    match d {
        crate::model::OrderDirection::Asc => "ASC"@,
        crate::model::OrderDirection::Desc => "DESC"@,
    }
}

/// One ordering element: the column resolved through its field path, then
/// the direction; ordering by an aggregate is not resolved here.
pub open spec fn order_element_spec(el: crate::model::OrderByElement) -> Result<
    Seq<char>,
    QueryErrorV,
> {
    match el.target {
        crate::model::OrderByTarget::Column { name, field_path } => {
            let path = match field_path {
                None => name@,
                Some(f) => join_sep(seq![name@] + views_of(f@), "."@),
            };
            Ok(quoted(path) + seq![' '] + direction_text(el.order_direction))
        },
        crate::model::OrderByTarget::SingleColumnAggregate { .. } => Err(
            QueryErrorV::UnsupportedOrderByTarget,
        ),
        crate::model::OrderByTarget::StarCountAggregate => Err(
            QueryErrorV::UnsupportedOrderByTarget,
        ),
    }
}

/// The ordering statements from position `i` on; the first unresolvable
/// element stops the compilation.
pub open spec fn order_by_from(elems: Seq<crate::model::OrderByElement>, i: int) -> Result<
    Seq<Seq<char>>,
    QueryErrorV,
>
    decreases elems.len() - i,
{
    if i < 0 || i >= elems.len() {
        Ok(Seq::empty())
    } else {
        match order_element_spec(elems[i]) {
            Err(e) => Err(e),
            Ok(s) => match order_by_from(elems, i + 1) {
                Err(e) => Err(e),
                Ok(rest) => Ok(seq![s] + rest),
            },
        }
    }
}

/// The ordering statements of one query.
pub open spec fn order_by_spec(q: crate::model::Query) -> Result<Seq<Seq<char>>, QueryErrorV> {
    match q.order_by {
        None => Ok(Seq::empty()),
        Some(ob) => order_by_from(ob.elements@, 0),
    }
}

/// Builds the ordering statements of one query.
#[verifier::loop_isolation(false)]
pub fn order_by(query: &crate::model::Query) -> (r: Result<Vec<String>, QueryError>)
    ensures
        strs_result_view(r) == order_by_spec(*query),
{
    let elements: &Vec<crate::model::OrderByElement> = match &query.order_by {
        Some(ob) => &ob.elements,
        None => {
            let out: Vec<String> = Vec::new();
            proof {
                assert(views_of(out@) =~= Seq::<Seq<char>>::empty());
            }
            return Ok(out);
        },
    };
    let ghost m = elements@;
    let mut out: Vec<String> = Vec::new();
    let mut i: usize = 0;
    proof {
        assert(match order_by_from(m, 0) {
            Ok(rest) => views_of(out@) + rest =~= rest,
            Err(_) => true,
        });
    }
    while i < elements.len()
        invariant
            i <= elements.len(),
            order_by_from(m, 0) == (match order_by_from(m, i as int) {
                Ok(rest) => Ok::<_, QueryErrorV>(views_of(out@) + rest),
                Err(e) => Err::<Seq<Seq<char>>, _>(e),
            }),
        decreases elements.len() - i,
    {
        let ghost prev = out@;
        let el = &elements[i];
        match &el.target {
            crate::model::OrderByTarget::Column { name, field_path } => {
                let path: String = match field_path {
                    None => copy_string(name),
                    Some(f) => {
                        let mut parts: Vec<String> = Vec::new();
                        parts.push(copy_string(name));
                        let mut k: usize = 0;
                        while k < f.len()
                            invariant
                                k <= f.len(),
                                views_of(parts@) =~= seq![name@] + views_of(f@.take(k as int)),
                            decreases f.len() - k,
                        {
                            let ghost pprev = parts@;
                            parts.push(copy_string(&f[k]));
                            proof {
                                assert(views_of(parts@) =~= views_of(pprev).push(
                                    parts@.last()@,
                                ));
                                assert(views_of(f@.take(k + 1)) =~= views_of(
                                    f@.take(k as int),
                                ).push(f@[k as int]@));
                                assert(views_of(parts@) =~= seq![name@] + views_of(
                                    f@.take(k + 1),
                                ));
                            }
                            k += 1;
                        }
                        proof {
                            assert(f@.take(f@.len() as int) =~= f@);
                        }
                        join_strings(&parts, ".")
                    },
                };
                let mut stmt = String::new();
                quote_into(&mut stmt, &path);
                stmt.push(' ');
                match el.order_direction {
                    crate::model::OrderDirection::Asc => stmt.push_str("ASC"),
                    crate::model::OrderDirection::Desc => stmt.push_str("DESC"),
                }
                proof {
                    let ghost sp = order_element_spec(m[i as int]);
                    assert(sp is Ok);
                    assert(stmt@ =~= sp->Ok_0);
                }
                out.push(stmt);
                proof {
                    let ghost rec = order_by_from(m, i + 1);
                    assert(views_of(out@) =~= views_of(prev).push(out@.last()@));
                    assert(match rec {
                        Ok(rest) => views_of(prev) + (seq![out@.last()@] + rest) =~= views_of(
                            out@,
                        ) + rest,
                        Err(_) => true,
                    });
                }
            },
            crate::model::OrderByTarget::SingleColumnAggregate { .. } => {
                return Err(QueryError::UnsupportedOrderByTarget);
            },
            crate::model::OrderByTarget::StarCountAggregate => {
                return Err(QueryError::UnsupportedOrderByTarget);
            },
        }
        i += 1;
    }
    proof {
        assert(views_of(out@) + Seq::<Seq<char>>::empty() =~= views_of(out@));
    }
    Ok(out)
}

/// The pagination statements of one query: a limit clause where a limit is
/// given, an offset clause where an offset is given, nothing otherwise.
pub open spec fn pagination_spec(q: crate::model::Query) -> Seq<Seq<char>> {
    (match q.limit {
        Some(l) => seq![" LIMIT "@ + crate::text::dec_of(l as nat)],
        None => Seq::empty(),
    }) + (match q.offset {
        Some(o) => seq!["OFFSET "@ + crate::text::dec_of(o as nat)],
        None => Seq::empty(),
    })
}

/// Builds the pagination statements of one query.
pub fn pagination(query: &crate::model::Query) -> (r: Result<Vec<String>, QueryError>)
    ensures
        r matches Ok(v) && views_of(v@) == pagination_spec(*query),
{
    let mut out: Vec<String> = Vec::new();
    match query.limit {
        Some(l) => {
            let mut part = String::new();
            part.push_str(" LIMIT ");
            let num = crate::text::u64_to_dec(l as u64);
            part.push_str(num.as_str());
            proof {
                assert(part@ =~= " LIMIT "@ + crate::text::dec_of(l as nat));
            }
            out.push(part);
        },
        None => {},
    }
    match query.offset {
        Some(o) => {
            let ghost prev = out@;
            let mut part = String::new();
            part.push_str("OFFSET ");
            let num = crate::text::u64_to_dec(o as u64);
            part.push_str(num.as_str());
            proof {
                assert(part@ =~= "OFFSET "@ + crate::text::dec_of(o as nat));
            }
            out.push(part);
            proof {
                assert(views_of(out@) =~= views_of(prev).push(out@.last()@));
            }
        },
        None => {},
    }
    proof {
        assert(views_of(out@) =~= pagination_spec(*query));
    }
    Ok(out)
}

/// One aggregate expression over its resolved, quoted column.
pub open spec fn aggregate_expr_spec(agg: crate::model::Aggregate) -> Seq<char> {
    match agg {
        crate::model::Aggregate::ColumnCount { column, distinct, field_path } => "COUNT("@ + (
        if distinct {
            "DISTINCT "@
        } else {
            Seq::empty()
        }) + quoted(column_name_spec(column@, field_path)) + seq![')'],
        crate::model::Aggregate::SingleColumn { column, function, field_path } => function@ + seq![
            '(',
        ] + quoted(column_name_spec(column@, field_path)) + seq![')'],
        crate::model::Aggregate::StarCount => "COUNT(*)"@,
    }
}

/// One aggregate projection paired with its requested output name.
pub open spec fn aggregate_statement_spec(json: bool, name: Seq<char>, expr: Seq<char>) -> Seq<
    char,
> {
    if json {
        seq!['\''] + name + seq!['\'', ',', ' '] + expr
    } else {
        expr + " AS "@ + quoted(name)
    }
}

/// The aggregate projections of a list of requested aggregates.
pub open spec fn aggregates_list_spec(json: bool, aggs: Seq<(String, crate::model::Aggregate)>) -> Seq<
    Seq<char>,
>
    decreases aggs,
{
    if aggs.len() == 0 {
        Seq::empty()
    } else {
        aggregates_list_spec(json, aggs.drop_last()).push(
            aggregate_statement_spec(
                json,
                aggs.last().0@,
                aggregate_expr_spec(aggs.last().1),
            ),
        )
    }
}

/// The aggregate projections of one query.
pub open spec fn aggregates_spec(cfg: ParsedConfiguration, q: crate::model::Query) -> Seq<
    Seq<char>,
> {
    match q.aggregates {
        None => Seq::empty(),
        Some(a) => aggregates_list_spec(is_json_flavour(cfg), a@),
    }
}

/// Pairs one aggregate projection with its requested output name.
pub fn generate_aggregate_statement(
    name: &String,
    aggregate_expr: String,
    configuration: &ParsedConfiguration,
) -> (r: String)
    ensures
        r@ == aggregate_statement_spec(is_json_flavour(*configuration), name@, aggregate_expr@),
{
    let json = match configuration.supports_json_object {
        Some(b) => b,
        None => false,
    };
    let mut out = String::new();
    if json {
        out.push('\'');
        out.push_str(name.as_str());
        out.push('\'');
        out.push(',');
        out.push(' ');
        out.push_str(aggregate_expr.as_str());
    } else {
        out.push_str(aggregate_expr.as_str());
        out.push_str(" AS ");
        quote_into(&mut out, name);
    }
    proof {
        assert(out@ =~= aggregate_statement_spec(
            is_json_flavour(*configuration),
            name@,
            aggregate_expr@,
        ));
    }
    out
}

/// Resolves and quotes the column of an aggregate.
pub fn aggregate_column_name(column: &String, field_path: &Option<Vec<String>>) -> (r: String)
    ensures
        r@ == quoted(column_name_spec(column@, *field_path)),
{
    let col = create_column_name(column, field_path);
    let mut out = String::new();
    quote_into(&mut out, &col);
    proof {
        assert(out@ =~= quoted(col@));
    }
    out
}

/// Builds the aggregate projections of one query.
#[verifier::loop_isolation(false)]
pub fn aggregates(configuration: &ParsedConfiguration, query: &crate::model::Query) -> (r: Vec<
    String,
>)
    ensures
        views_of(r@) == aggregates_spec(*configuration, *query),
{
    let aggs: &Vec<(String, crate::model::Aggregate)> = match &query.aggregates {
        Some(a) => a,
        None => {
            let out: Vec<String> = Vec::new();
            proof {
                assert(views_of(out@) =~= Seq::<Seq<char>>::empty());
            }
            return out;
        },
    };
    let ghost m = aggs@;
    let mut out: Vec<String> = Vec::new();
    let mut i: usize = 0;
    proof {
        assert(views_of(out@) =~= aggregates_list_spec(
            is_json_flavour(*configuration),
            m.take(0),
        ));
    }
    while i < aggs.len()
        invariant
            i <= aggs.len(),
            views_of(out@) == aggregates_list_spec(
                is_json_flavour(*configuration),
                m.take(i as int),
            ),
        decreases aggs.len() - i,
    {
        let ghost prev = out@;
        let entry = &aggs[i];
        let expr: String = match &entry.1 {
            crate::model::Aggregate::ColumnCount { column, distinct, field_path } => {
                let col = aggregate_column_name(column, field_path);
                let mut e = String::new();
                e.push_str("COUNT(");
                if *distinct {
                    e.push_str("DISTINCT ");
                }
                e.push_str(col.as_str());
                e.push(')');
                proof {
                    assert(e@ =~= aggregate_expr_spec(m[i as int].1));
                }
                e
            },
            crate::model::Aggregate::SingleColumn { column, function, field_path } => {
                let col = aggregate_column_name(column, field_path);
                let mut e = String::new();
                e.push_str(function.as_str());
                e.push('(');
                e.push_str(col.as_str());
                e.push(')');
                proof {
                    assert(e@ =~= aggregate_expr_spec(m[i as int].1));
                }
                e
            },
            crate::model::Aggregate::StarCount => {
                let mut e = String::new();
                e.push_str("COUNT(*)");
                proof {
                    assert(e@ =~= aggregate_expr_spec(m[i as int].1));
                }
                e
            },
        };
        let stmt = generate_aggregate_statement(&entry.0, expr, configuration);
        out.push(stmt);
        proof {
            assert(views_of(out@) =~= views_of(prev).push(out@.last()@));
            assert(m.take(i + 1).drop_last() =~= m.take(i as int));
            assert(m.take(i + 1).last() == m[i as int]);
        }
        i += 1;
    }
    proof {
        assert(m.take(m.len() as int) =~= m);
    }
    out
}

/// The compiled filter of an optional predicate: empty text where the
/// query has none.
pub open spec fn predicate_option_spec(
    cfg: ParsedConfiguration,
    coll: Seq<char>,
    rels: Seq<(String, Relationship)>,
    vars: Seq<(String, JsonValue)>,
    p: Option<Expression>,
) -> Result<Seq<char>, QueryErrorV> {
    match p {
        None => Ok(Seq::empty()),
        Some(e) => compile_expr_spec(cfg, coll, rels, vars, e),
    }
}

/// Compiles an optional predicate.
pub fn process_expression_option(
    configuration: &ParsedConfiguration,
    collection: &String,
    collection_relationships: &Vec<(String, Relationship)>,
    variables: &Vec<(String, JsonValue)>,
    predicate: &Option<Expression>,
) -> (r: Result<String, QueryError>)
    ensures
        crate::model::text_result_view(r) == predicate_option_spec(
            *configuration,
            collection@,
            collection_relationships@,
            variables@,
            *predicate,
        ),
{
    match predicate {
        None => Ok(String::new()),
        Some(expr) => process_sql_expression(
            configuration,
            collection,
            collection_relationships,
            variables,
            expr,
        ),
    }
}

/// Compiles the predicate of one query.
pub fn predicates(
    configuration: &ParsedConfiguration,
    collection: &String,
    collection_relationships: &Vec<(String, Relationship)>,
    variables: &Vec<(String, JsonValue)>,
    query: &crate::model::Query,
) -> (r: Result<String, QueryError>)
    ensures
        crate::model::text_result_view(r) == predicate_option_spec(
            *configuration,
            collection@,
            collection_relationships@,
            variables@,
            query.predicate,
        ),
{
    process_expression_option(
        configuration,
        collection,
        collection_relationships,
        variables,
        &query.predicate,
    )
}

/// An optional piece of text, as contracts speak about it.
pub open spec fn opt_text(o: Option<String>) -> Option<Seq<char>> {
    match o {
        None => None,
        Some(s) => Some(s@),
    }
}

/// A clause written after a single space, or nothing where the piece is
/// absent or empty.
pub open spec fn format_clause_spec(c: Option<Seq<char>>) -> Seq<char> {
    match c {
        None => Seq::empty(),
        Some(p) => if p.len() == 0 {
            Seq::empty()
        } else {
            seq![' '] + p
        },
    }
}

/// One complete query statement assembled from its pieces, scoped to the
/// collection's fully qualified name.  An empty projection still yields a
/// valid statement through a constant placeholder column, so that a caller
/// learns the row count even with no requested fields.
pub open spec fn query_collection_spec(
    cfg: ParsedConfiguration,
    coll: Seq<char>,
    sel: Option<Seq<char>>,
    ord: Option<Seq<char>>,
    pag: Option<Seq<char>>,
    wh: Option<Seq<char>>,
    join: Option<Seq<char>>,
) -> Result<Seq<char>, QueryErrorV> {
    match table_of(cfg, coll) {
        None => Err(QueryErrorV::UnknownCollection(coll)),
        Some(t) => {
            let json = is_json_flavour(cfg);
            let table = qualified_table_name_spec(t);
            let select_clause = match sel {
                None => Seq::empty(),
                Some(s) => if s.len() == 0 {
                    if json {
                        "'CONSTANT', 1"@
                    } else {
                        "1 AS \"CONSTANT\""@
                    }
                } else {
                    s
                },
            };
            let order_clause = match ord {
                None => Seq::empty(),
                Some(o) => if o.len() == 0 {
                    Seq::empty()
                } else {
                    " ORDER BY "@ + o
                },
            };
            let where_clause = match wh {
                None => Seq::empty(),
                Some(w) => if w.len() == 0 {
                    Seq::empty()
                } else {
                    " WHERE "@ + w
                },
            };
            let pag_clause = format_clause_spec(pag);
            let join_clause = format_clause_spec(join);
            if json {
                Ok(
                    "SELECT JSON_OBJECT("@ + select_clause + ") FROM "@ + table + join_clause
                        + where_clause + order_clause + pag_clause,
                )
            } else {
                Ok(
                    "SELECT "@ + select_clause + " FROM "@ + table + join_clause + where_clause
                        + order_clause + pag_clause,
                )
            }
        },
    }
}

/// Assembles one complete query statement for a collection.
pub fn query_collection(
    configuration: &ParsedConfiguration,
    collection_name: &String,
    select: &Option<String>,
    order_by: &Option<String>,
    pagination: &Option<String>,
    where_clause: &Option<String>,
    join_clause: &Option<String>,
) -> (r: Result<String, QueryError>)
    ensures
        crate::model::text_result_view(r) == query_collection_spec(
            *configuration,
            collection_name@,
            opt_text(*select),
            opt_text(*order_by),
            opt_text(*pagination),
            opt_text(*where_clause),
            opt_text(*join_clause),
        ),
{
    let t = match find_table(configuration, collection_name) {
        Some(t) => t,
        None => {
            return Err(QueryError::UnknownCollection { name: copy_string(collection_name) });
        },
    };
    let table = create_qualified_table_name(t);
    let json = match configuration.supports_json_object {
        Some(b) => b,
        None => false,
    };
    let select_part: String = match select {
        None => String::new(),
        Some(s) => {
            if s.as_str().unicode_len() == 0 {
                if json {
                    "'CONSTANT', 1".to_owned()
                } else {
                    "1 AS \"CONSTANT\"".to_owned()
                }
            } else {
                copy_string(s)
            }
        },
    };
    let order_part: String = match order_by {
        None => String::new(),
        Some(o) => {
            if o.as_str().unicode_len() == 0 {
                String::new()
            } else {
                let mut c = String::new();
                c.push_str(" ORDER BY ");
                c.push_str(o.as_str());
                c
            }
        },
    };
    let where_part: String = match where_clause {
        None => String::new(),
        Some(w) => {
            if w.as_str().unicode_len() == 0 {
                String::new()
            } else {
                let mut c = String::new();
                c.push_str(" WHERE ");
                c.push_str(w.as_str());
                c
            }
        },
    };
    let pagination_part: String = match pagination {
        None => String::new(),
        Some(p) => {
            if p.as_str().unicode_len() == 0 {
                String::new()
            } else {
                let mut c = String::new();
                c.push(' ');
                c.push_str(p.as_str());
                c
            }
        },
    };
    let join_part: String = match join_clause {
        None => String::new(),
        Some(p) => {
            if p.as_str().unicode_len() == 0 {
                String::new()
            } else {
                let mut c = String::new();
                c.push(' ');
                c.push_str(p.as_str());
                c
            }
        },
    };
    proof {
        assert(pagination_part@ == format_clause_spec(opt_text(*pagination)));
        assert(join_part@ == format_clause_spec(opt_text(*join_clause)));
    }
    let mut out = String::new();
    if json {
        out.push_str("SELECT JSON_OBJECT(");
        out.push_str(select_part.as_str());
        out.push_str(") FROM ");
    } else {
        out.push_str("SELECT ");
        out.push_str(select_part.as_str());
        out.push_str(" FROM ");
    }
    out.push_str(table.as_str());
    out.push_str(join_part.as_str());
    out.push_str(where_part.as_str());
    out.push_str(order_part.as_str());
    out.push_str(pagination_part.as_str());
    proof {
        if json {
            assert(out@ =~= "SELECT JSON_OBJECT("@ + select_part@ + ") FROM "@ + table@
                + join_part@ + where_part@ + order_part@ + pagination_part@);
        } else {
            assert(out@ =~= "SELECT "@ + select_part@ + " FROM "@ + table@ + join_part@
                + where_part@ + order_part@ + pagination_part@);
        }
    }
    Ok(out)
}

/// The components of one compiled query, before assembly: the resolved
/// argument values, the projection, ordering, pagination, aggregate and
/// filter texts, and the join fragments (none are produced here).
pub struct QueryComponents {
    pub argument_values: Vec<(String, JsonValue)>,
    pub select: Option<String>,
    pub order_by: Option<String>,
    pub pagination: Option<String>,
    pub aggregates: Option<String>,
    pub predicates: Option<String>,
    pub final_aggregates: String,
    pub join: Option<String>,
}

/// The mathematical form of the components of one compiled query.
pub struct QueryComponentsV {
    pub argument_values: Seq<(Seq<char>, crate::value::ValueV)>,
    pub select: Option<Seq<char>>,
    pub order_by: Option<Seq<char>>,
    pub pagination: Option<Seq<char>>,
    pub aggregates: Option<Seq<char>>,
    pub predicates: Option<Seq<char>>,
    pub final_aggregates: Seq<char>,
    pub join: Option<Seq<char>>,
}

impl View for QueryComponents {
    type V = QueryComponentsV;

    open spec fn view(&self) -> QueryComponentsV {
        QueryComponentsV {
            argument_values: crate::value::obj_view(self.argument_values@),
            select: opt_text(self.select),
            order_by: opt_text(self.order_by),
            pagination: opt_text(self.pagination),
            aggregates: opt_text(self.aggregates),
            predicates: opt_text(self.predicates),
            final_aggregates: self.final_aggregates@,
            join: opt_text(self.join),
        }
    }
}

/// The resolved argument values from position `i` on: each argument's
/// value resolved against the variable bindings, a repeated argument name
/// refused.
pub open spec fn eval_args_from(
    vars: Seq<(String, JsonValue)>,
    args: Seq<(String, RelationshipArgument)>,
    i: int,
) -> Result<Seq<(Seq<char>, crate::value::ValueV)>, QueryErrorV>
    decreases args.len() - i,
{
    if i < 0 || i >= args.len() {
        Ok(Seq::empty())
    } else {
        match eval_argument_spec(vars, args[i].1) {
            Err(e) => Err(e),
            Ok(v) => {
                if exists|j: int| 0 <= j < i && args[j].0@ == args[i].0@ {
                    Err(QueryErrorV::DuplicateArgument(args[i].0@))
                } else {
                    match eval_args_from(vars, args, i + 1) {
                        Err(e) => Err(e),
                        Ok(rest) => Ok(seq![(args[i].0@, v)] + rest),
                    }
                }
            },
        }
    }
}

/// The components of one compiled query, or the failure that stops the
/// compilation.
pub open spec fn parse_query_spec(
    cfg: ParsedConfiguration,
    coll: Seq<char>,
    rels: Seq<(String, Relationship)>,
    args: Seq<(String, RelationshipArgument)>,
    q: crate::model::Query,
    vars: Seq<(String, JsonValue)>,
) -> Result<QueryComponentsV, QueryErrorV> {
    match eval_args_from(vars, args, 0) {
        Err(e) => Err(e),
        Ok(argument_values) => match select_spec(cfg, coll, q, rels) {
            Err(e) => Err(e),
            Ok(sel_parts) => match order_by_spec(q) {
                Err(e) => Err(e),
                Ok(ord_parts) => match predicate_option_spec(cfg, coll, rels, vars, q.predicate) {
                    Err(e) => Err(e),
                    Ok(pred) => {
                        let agg = join_sep(aggregates_spec(cfg, q), ", "@);
                        Ok(
                            QueryComponentsV {
                                argument_values,
                                select: Some(join_sep(sel_parts, ","@)),
                                order_by: Some(join_sep(ord_parts, ", "@)),
                                pagination: Some(join_sep(pagination_spec(q), " "@)),
                                aggregates: Some(agg),
                                predicates: Some(pred),
                                final_aggregates: agg,
                                join: Some(Seq::empty()),
                            },
                        )
                    },
                },
            },
        },
    }
}

/// Compiles one query request into its components: resolves the arguments,
/// then builds the projection, ordering, pagination, aggregate and filter
/// texts.
#[verifier::loop_isolation(false)]
pub fn parse_query(
    configuration: &ParsedConfiguration,
    collection: &String,
    collection_relationships: &Vec<(String, Relationship)>,
    arguments: &Vec<(String, RelationshipArgument)>,
    query: &crate::model::Query,
    variables: &Vec<(String, JsonValue)>,
) -> (r: Result<QueryComponents, QueryError>)
    ensures
        match r {
            Ok(c) => parse_query_spec(
                *configuration,
                collection@,
                collection_relationships@,
                arguments@,
                *query,
                variables@,
            ) == Ok::<_, QueryErrorV>(c@),
            Err(e) => parse_query_spec(
                *configuration,
                collection@,
                collection_relationships@,
                arguments@,
                *query,
                variables@,
            ) == Err::<QueryComponentsV, _>(e@),
        },
{
    let ghost m = arguments@;
    let mut argument_values: Vec<(String, JsonValue)> = Vec::new();
    let mut i: usize = 0;
    proof {
        assert(crate::value::obj_view(argument_values@) =~= Seq::<(
            Seq<char>,
            crate::value::ValueV,
        )>::empty());
        assert(match eval_args_from(variables@, m, 0) {
            Ok(rest) => crate::value::obj_view(argument_values@) + rest =~= rest,
            Err(_) => true,
        });
    }
    while i < arguments.len()
        invariant
            i <= arguments.len(),
            argument_values@.len() == i,
            forall|j: int| 0 <= j < i ==> #[trigger] argument_values@[j].0@ == m[j].0@,
            eval_args_from(variables@, m, 0) == (match eval_args_from(variables@, m, i as int) {
                Ok(rest) => Ok::<_, QueryErrorV>(
                    crate::value::obj_view(argument_values@) + rest,
                ),
                Err(e) => Err::<Seq<(Seq<char>, crate::value::ValueV)>, _>(e),
            }),
        decreases arguments.len() - i,
    {
        let entry = &arguments[i];
        let value = match eval_argument(variables, &entry.1) {
            Ok(v) => v,
            Err(e) => {
                return Err(e);
            },
        };
        match assoc_get(&argument_values, &entry.0) {
            Some(_) => {
                proof {
                    crate::model::lemma_assoc_some_iff(argument_values@, m[i as int].0@);
                    let j = choose|j: int|
                        0 <= j < argument_values@.len() && argument_values@[j].0@
                            == m[i as int].0@;
                    assert(m[j].0@ == m[i as int].0@);
                }
                return Err(QueryError::DuplicateArgument { name: copy_string(&entry.0) });
            },
            None => {
                proof {
                    crate::model::lemma_assoc_some_iff(argument_values@, m[i as int].0@);
                    let ghost key = m[i as int].0@;
                    assert forall|j: int| 0 <= j < i implies #[trigger] m[j].0@ != key by {
                        assert(argument_values@[j].0@ == m[j].0@);
                        if m[j].0@ == key {
                            assert(exists|j2: int|
                                0 <= j2 < argument_values@.len() && argument_values@[j2].0@
                                    == key);
                        }
                    }
                    assert(!(exists|j: int| 0 <= j < i && m[j].0@ == m[i as int].0@));
                }
            },
        }
        let ghost prev = argument_values@;
        argument_values.push((copy_string(&entry.0), value));
        proof {
            crate::value::lemma_obj_view_push(prev, argument_values@.last());
            assert(prev.push(argument_values@.last()) =~= argument_values@);
            let ghost rec = eval_args_from(variables@, m, i + 1);
            assert(match rec {
                Ok(rest) => crate::value::obj_view(prev) + (seq![
                    (m[i as int].0@, argument_values@.last().1@),
                ] + rest) =~= crate::value::obj_view(argument_values@) + rest,
                Err(_) => true,
            });
        }
        i += 1;
    }
    proof {
        assert(crate::value::obj_view(argument_values@) + Seq::<(
            Seq<char>,
            crate::value::ValueV,
        )>::empty() =~= crate::value::obj_view(argument_values@));
    }
    let select_parts = match select(configuration, collection, query, collection_relationships) {
        Ok(p) => p,
        Err(e) => {
            return Err(e);
        },
    };
    let select_text = join_strings(&select_parts, ",");
    let order_parts = match order_by(query) {
        Ok(p) => p,
        Err(e) => {
            return Err(e);
        },
    };
    let order_text = join_strings(&order_parts, ", ");
    let pagination_parts = match pagination(query) {
        Ok(p) => p,
        Err(e) => {
            return Err(e);
        },
    };
    let pagination_text = join_strings(&pagination_parts, " ");
    let aggregate_parts = aggregates(configuration, query);
    let aggregate_text = join_strings(&aggregate_parts, ", ");
    let final_aggregates = copy_string(&aggregate_text);
    let predicate_text = match predicates(
        configuration,
        collection,
        collection_relationships,
        variables,
        query,
    ) {
        Ok(p) => p,
        Err(e) => {
            return Err(e);
        },
    };
    Ok(
        QueryComponents {
            argument_values,
            select: Some(select_text),
            order_by: Some(order_text),
            pagination: Some(pagination_text),
            aggregates: Some(aggregate_text),
            predicates: Some(predicate_text),
            final_aggregates,
            join: Some(String::new()),
        },
    )
}

} // verus!
