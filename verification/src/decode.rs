use vstd::prelude::*;
use crate::model::{QueryError, QueryErrorV};
use crate::row::{Row, RowV};

verus! {

broadcast use vstd::seq::group_seq_axioms, vstd::std_specs::vec::group_vec_axioms;

/// The fields of the object that a row text parses to, or nothing when the
/// text is not one object.  Parsing is a function of the text alone.
pub uninterp spec fn parsed_row_of(s: Seq<char>) -> Option<RowV>;

/// Declares serde_json's value type, so that the parsing wrappers below
/// can pass values of it along; nothing inside such a value is visible
/// here.
#[verifier::external_type_specification]
#[verifier::external_body]
pub struct ExValue(serde_json::Value);

/// Relies on serde_json's value model: each variant carries over one for
/// one; a number that is an integer stays a number, any other number is
/// carried as the parsed number's rendering, so that embedding it in a
/// statement reproduces what the parser read (not necessarily the input's
/// spelling of it).
#[verifier::external_body]
fn from_json(v: serde_json::Value) -> crate::value::JsonValue {
    match v {
        serde_json::Value::Null => crate::value::JsonValue::Null,
        serde_json::Value::Bool(b) => crate::value::JsonValue::Bool(b),
        serde_json::Value::Number(n) => match n.as_i64() {
            Some(i) => crate::value::JsonValue::Int(i),
            None => crate::value::JsonValue::Num(n.to_string()),
        },
        serde_json::Value::String(s) => crate::value::JsonValue::Str(s),
        serde_json::Value::Array(items) => crate::value::JsonValue::Arr(
            items.into_iter().map(from_json).collect(),
        ),
        serde_json::Value::Object(map) => crate::value::JsonValue::Obj(
            map.into_iter().map(|(k, v)| (k, from_json(v))).collect(),
        ),
    }
}

/// Relies on serde_json::from_str: parses one engine row, pre-serialized
/// as one JSON object text, into its fields, in the order serde_json's
/// object model hands them out (its default model orders them by name);
/// any other text, and text that is not an object, parses to nothing.
/// The shape-mending pass later restores the requested order.
#[verifier::external_body]
fn parse_row_text(s: &str) -> (r: Option<Row>)
    ensures
        match r {
            Some(row) => parsed_row_of(s@) == Some(row@),
            None => parsed_row_of(s@) is None,
        },
{
    match serde_json::from_str::<serde_json::Value>(s) {
        Ok(serde_json::Value::Object(map)) => Some(
            Row { fields: map.into_iter().map(|(k, v)| (k, from_json(v))).collect() },
        ),
        _ => None,
    }
}

/// The rows decoded from the engine's row texts from position `i` on; a
/// text that is not one object stops the decoding.
pub open spec fn decode_rows_from(texts: Seq<String>, i: int) -> Result<Seq<RowV>, QueryErrorV>
    decreases texts.len() - i,
{
    if i < 0 || i >= texts.len() {
        Ok(Seq::empty())
    } else {
        match parsed_row_of(texts[i]@) {
            None => Err(QueryErrorV::InvalidRow),
            Some(row) => match decode_rows_from(texts, i + 1) {
                Err(e) => Err(e),
                Ok(rest) => Ok(seq![row] + rest),
            },
        }
    }
}

/// The views of a list of rows.
pub open spec fn rows_view(rows: Seq<Row>) -> Seq<RowV> {
    rows.map_values(|r: Row| r@)
}

/// Decodes the engine's answer to one statement: one row per JSON object
/// text, in order.
#[verifier::loop_isolation(false)]
pub fn decode_rows(texts: &Vec<String>) -> (r: Result<Vec<Row>, QueryError>)
    ensures
        match r {
            Ok(rows) => decode_rows_from(texts@, 0) == Ok::<_, QueryErrorV>(rows_view(rows@)),
            Err(e) => decode_rows_from(texts@, 0) == Err::<Seq<RowV>, _>(e@),
        },
{
    let ghost m = texts@;
    let mut out: Vec<Row> = Vec::new();
    let mut i: usize = 0;
    proof {
        assert(match decode_rows_from(m, 0) {
            Ok(rest) => rows_view(out@) + rest =~= rest,
            Err(_) => true,
        });
    }
    while i < texts.len()
        invariant
            i <= texts.len(),
            decode_rows_from(m, 0) == (match decode_rows_from(m, i as int) {
                Ok(rest) => Ok::<_, QueryErrorV>(rows_view(out@) + rest),
                Err(e) => Err::<Seq<RowV>, _>(e),
            }),
        decreases texts.len() - i,
    {
        let ghost prev = out@;
        match parse_row_text(texts[i].as_str()) {
            None => {
                return Err(QueryError::InvalidRow);
            },
            Some(row) => {
                out.push(row);
                proof {
                    let ghost rec = decode_rows_from(m, i + 1);
                    assert(rows_view(out@) =~= rows_view(prev).push(out@.last()@));
                    assert(match rec {
                        Ok(rest) => rows_view(prev) + (seq![out@.last()@] + rest) =~= rows_view(
                            out@,
                        ) + rest,
                        Err(_) => true,
                    });
                }
            },
        }
        i += 1;
    }
    proof {
        assert(rows_view(out@) + Seq::<RowV>::empty() =~= rows_view(out@));
    }
    Ok(out)
}

} // verus!
