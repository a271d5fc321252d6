use vstd::prelude::*;

use crate::value::JsonValue;
use crate::row::Row;

verus! {

broadcast use vstd::seq::group_seq_axioms;

/// How many related rows a relationship may attach to one parent row:
/// at most one, or any number.
#[derive(PartialEq, Eq, Structural, Clone, Copy, Debug)]
pub enum RelationshipType {
    Object,
    Array,
}

/// A named edge from one collection to another: an ordered mapping of
/// source key column to target key column, and a cardinality.
pub struct Relationship {
    pub column_mapping: Vec<(String, String)>,
    pub relationship_type: RelationshipType,
    pub target_collection: String,
}

/// An argument handed to a relationship query: a bound variable, a literal
/// value, or a column of the row in scope.
pub enum RelationshipArgument {
    Variable { name: String },
    Literal { value: JsonValue },
    Column { name: String },
}

/// The column a comparison speaks about.
pub enum ComparisonTarget {
    Column { name: String, field_path: Option<Vec<String>> },
    RootCollectionColumn { name: String },
}

/// The right-hand side of a binary comparison.
pub enum ComparisonValue {
    Column { target: ComparisonTarget },
    Scalar { value: JsonValue },
    Variable { name: String },
}

/// The one unary comparison: a null test.
#[derive(PartialEq, Eq, Structural, Clone, Copy, Debug)]
pub enum UnaryComparisonOperator {
    IsNull,
}

/// The collection an existence test ranges over: one reached through a
/// declared relationship, or any collection named outright.
pub enum ExistsInCollection {
    Related { relationship: String, arguments: Vec<(String, RelationshipArgument)> },
    Unrelated { collection: String, arguments: Vec<(String, RelationshipArgument)> },
}

/// A predicate over one collection: boolean combinators, comparisons and
/// existence tests over relationships.
pub enum Expression {
    And { expressions: Vec<Expression> },
    Or { expressions: Vec<Expression> },
    Not { expression: Box<Expression> },
    UnaryComparisonOperator { column: ComparisonTarget, operator: UnaryComparisonOperator },
    BinaryComparisonOperator { column: ComparisonTarget, operator: String, value: ComparisonValue },
    Exists { in_collection: ExistsInCollection, predicate: Option<Box<Expression>> },
}

/// The direction of one ordering element.
#[derive(PartialEq, Eq, Structural, Clone, Copy, Debug)]
pub enum OrderDirection {
    Asc,
    Desc,
}

/// What one ordering element orders by.
pub enum OrderByTarget {
    Column { name: String, field_path: Option<Vec<String>> },
    SingleColumnAggregate { column: String, function: String },
    StarCountAggregate,
}

/// One ordering element: a target and a direction.
pub struct OrderByElement {
    pub order_direction: OrderDirection,
    pub target: OrderByTarget,
}

/// The requested ordering, in order of precedence.
pub struct OrderBy {
    pub elements: Vec<OrderByElement>,
}

/// One requested aggregate.
pub enum Aggregate {
    ColumnCount { column: String, distinct: bool, field_path: Option<Vec<String>> },
    SingleColumn { column: String, function: String, field_path: Option<Vec<String>> },
    StarCount,
}

/// One requested output field: a plain column, or a relationship carrying
/// its own sub-query.
pub enum Field {
    Column { column: String },
    Relationship {
        relationship: String,
        arguments: Vec<(String, RelationshipArgument)>,
        query: Box<Query>,
    },
}

/// One query request for one collection.
pub struct Query {
    pub aggregates: Option<Vec<(String, Aggregate)>>,
    pub fields: Option<Vec<(String, Field)>>,
    pub limit: Option<u32>,
    pub offset: Option<u32>,
    pub order_by: Option<OrderBy>,
    pub predicate: Option<Expression>,
}

/// The nested output of one query: an ordered row list and an aggregate
/// mapping, each present only where the request asked for it.
pub struct RowSet {
    pub aggregates: Option<Vec<(String, JsonValue)>>,
    pub rows: Option<Vec<Row>>,
}

/// The mathematical form of a request failure.
pub enum QueryErrorV {
    VariableNotFound(Seq<char>),
    UnknownComparisonOperator(Seq<char>),
    UnsupportedComparisonTarget,
    UnsupportedOrderByTarget,
    UnsupportedRelationshipArgument,
    UnknownCollection(Seq<char>),
    UnknownRelationship(Seq<char>),
    CompositeKey(Seq<char>),
    DuplicateArgument(Seq<char>),
    InvalidRow,
}

/// Why a request failed: every failure is found before or while compiling
/// statements, or while reading an engine response; nothing is retried.
#[derive(Debug, Clone, PartialEq, Eq)]
pub enum QueryError {
    /// A predicate or argument names a variable that has no binding.
    VariableNotFound { name: String },
    /// A binary comparison uses an operator outside the fixed symbol table.
    UnknownComparisonOperator { name: String },
    /// A comparison speaks about a root-collection column, which this
    /// engine does not resolve.
    UnsupportedComparisonTarget,
    /// Ordering by an aggregate, which this engine does not resolve.
    UnsupportedOrderByTarget,
    /// A relationship argument taken from a column, which this engine does
    /// not resolve.
    UnsupportedRelationshipArgument,
    /// A collection name that the catalog does not hold.
    UnknownCollection { name: String },
    /// A relationship name outside the request's relationship table.
    UnknownRelationship { name: String },
    /// A relationship whose column mapping has no pair or more than one
    /// pair; only single-column mappings are resolvable.
    CompositeKey { name: String },
    /// The same argument name bound twice in one request.
    DuplicateArgument { name: String },
    /// The engine answered a statement with a row that is not an object.
    InvalidRow,
}

impl View for QueryError {
    type V = QueryErrorV;

    open spec fn view(&self) -> QueryErrorV {
        match self {
            QueryError::VariableNotFound { name } => QueryErrorV::VariableNotFound(name@),
            QueryError::UnknownComparisonOperator { name } => QueryErrorV::UnknownComparisonOperator(
                name@,
            ),
            QueryError::UnsupportedComparisonTarget => QueryErrorV::UnsupportedComparisonTarget,
            QueryError::UnsupportedOrderByTarget => QueryErrorV::UnsupportedOrderByTarget,
            QueryError::UnsupportedRelationshipArgument => QueryErrorV::UnsupportedRelationshipArgument,
            QueryError::UnknownCollection { name } => QueryErrorV::UnknownCollection(name@),
            QueryError::UnknownRelationship { name } => QueryErrorV::UnknownRelationship(name@),
            QueryError::CompositeKey { name } => QueryErrorV::CompositeKey(name@),
            QueryError::DuplicateArgument { name } => QueryErrorV::DuplicateArgument(name@),
            QueryError::InvalidRow => QueryErrorV::InvalidRow,
        }
    }
}

/// The value under the first occurrence of the name in an association
/// list, if the name occurs.
pub open spec fn assoc_lookup<T>(entries: Seq<(String, T)>, key: Seq<char>) -> Option<T>
    decreases entries,
{
    if entries.len() == 0 {
        None
    } else if entries[0].0@ == key {
        Some(entries[0].1)
    } else {
        assoc_lookup(entries.drop_first(), key)
    }
}

/// Finds the value under a name in an association list.
pub fn assoc_get<'a, T>(entries: &'a Vec<(String, T)>, key: &String) -> (r: Option<&'a T>)
    ensures
        match r {
            Some(v) => assoc_lookup(entries@, key@) == Some(*v),
            None => assoc_lookup(entries@, key@) is None,
        },
{
    let mut i: usize = 0;
    while i < entries.len()
        invariant
            i <= entries.len(),
            forall|j: int| 0 <= j < i ==> #[trigger] entries@[j].0@ != key@,
        decreases entries.len() - i,
    {
        if entries[i].0 == *key {
            proof {
                lemma_assoc_skip(entries@, key@, i as int);
                assert(entries@.skip(i as int)[0] == entries@[i as int]);
            }
            return Some(&entries[i].1);
        }
        i += 1;
    }
    proof {
        lemma_assoc_skip(entries@, key@, entries@.len() as int);
        assert(entries@.skip(entries@.len() as int) =~= Seq::empty());
    }
    None
}

proof fn lemma_assoc_skip<T>(entries: Seq<(String, T)>, key: Seq<char>, i: int)
    requires
        0 <= i <= entries.len(),
        forall|j: int| 0 <= j < i ==> #[trigger] entries[j].0@ != key,
    ensures
        assoc_lookup(entries, key) == assoc_lookup(entries.skip(i), key),
    decreases i,
{
    if i == 0 {
        assert(entries.skip(0) =~= entries);
    } else {
        lemma_assoc_skip(entries, key, i - 1);
        assert(entries.skip(i - 1).drop_first() =~= entries.skip(i));
        assert(entries.skip(i - 1)[0] == entries[i - 1]);
    }
}

/// A name occurs in an association list exactly when looking it up finds
/// a value.
pub proof fn lemma_assoc_some_iff<T>(entries: Seq<(String, T)>, key: Seq<char>)
    ensures
        (assoc_lookup(entries, key) is Some) <==> exists|j: int|
            0 <= j < entries.len() && entries[j].0@ == key,
    decreases entries,
{
    if entries.len() > 0 {
        lemma_assoc_some_iff(entries.drop_first(), key);
        if entries[0].0@ == key {
        } else {
            assert forall|j: int|
                0 <= j < entries.len() && entries[j].0@ == key implies exists|j2: int|
                0 <= j2 < entries.drop_first().len() && entries.drop_first()[j2].0@ == key by {
                assert(entries.drop_first()[j - 1] == entries[j]);
            }
            if exists|j2: int| 0 <= j2 < entries.drop_first().len()
                && entries.drop_first()[j2].0@ == key {
                let j2 = choose|j2: int|
                    0 <= j2 < entries.drop_first().len() && entries.drop_first()[j2].0@ == key;
                assert(entries[j2 + 1].0@ == key);
            }
        }
    }
}

/// The result of compiling one piece of text, as contracts speak about it.
pub open spec fn text_result_view(r: Result<String, QueryError>) -> Result<Seq<char>, QueryErrorV> {
    match r {
        Ok(s) => Ok(s@),
        Err(e) => Err(e@),
    }
}

} // verus!
