use vstd::prelude::*;
use crate::text::{dec_int_of, i64_to_dec, copy_string};

verus! {

broadcast use vstd::seq::group_seq_axioms, vstd::std_specs::vec::group_vec_axioms;

/// The mathematical form of a row value: text as sequences of characters,
/// arrays and objects as sequences.
#[verifier::ext_equal]
pub enum ValueV {
    Null,
    Bool(bool),
    Int(int),
    Num(Seq<char>),
    Str(Seq<char>),
    Arr(Seq<ValueV>),
    Obj(Seq<(Seq<char>, ValueV)>),
}

/// A scalar or structured value carried in a row: what the execution engine
/// returns in a field, and what a predicate literal holds.  Numbers that are
/// not integers are carried as their literal text, so that rendering a value
/// back into a statement is exact.
pub enum JsonValue {
    Null,
    Bool(bool),
    Int(i64),
    Num(String),
    Str(String),
    Arr(Vec<JsonValue>),
    Obj(Vec<(String, JsonValue)>),
}

pub open spec fn value_view(v: JsonValue) -> ValueV
    decreases v,
{
    match v {
        JsonValue::Null => ValueV::Null,
        JsonValue::Bool(b) => ValueV::Bool(b),
        JsonValue::Int(i) => ValueV::Int(i as int),
        JsonValue::Num(s) => ValueV::Num(s@),
        JsonValue::Str(s) => ValueV::Str(s@),
        JsonValue::Arr(items) => ValueV::Arr(arr_view(items@)),
        JsonValue::Obj(fields) => ValueV::Obj(obj_view(fields@)),
    }
}

pub open spec fn arr_view(items: Seq<JsonValue>) -> Seq<ValueV>
    decreases items,
{
    if items.len() == 0 {
        Seq::empty()
    } else {
        arr_view(items.drop_last()).push(value_view(items.last()))
    }
}

pub open spec fn obj_view(fields: Seq<(String, JsonValue)>) -> Seq<(Seq<char>, ValueV)>
    decreases fields,
{
    if fields.len() == 0 {
        Seq::empty()
    } else {
        obj_view(fields.drop_last()).push(
            (fields.last().0@, value_view(fields.last().1)),
        )
    }
}

impl View for JsonValue {
    type V = ValueV;

    open spec fn view(&self) -> ValueV {
        value_view(*self)
    }
}

pub broadcast proof fn lemma_arr_view_len(items: Seq<JsonValue>)
    ensures
        #[trigger] arr_view(items).len() == items.len(),
    decreases items,
{
    if items.len() != 0 {
        lemma_arr_view_len(items.drop_last());
    }
}

pub broadcast proof fn lemma_arr_view_index(items: Seq<JsonValue>, i: int)
    requires
        0 <= i < items.len(),
    ensures
        #[trigger] arr_view(items)[i] == items[i]@,
    decreases items,
{
    lemma_arr_view_len(items);
    if i < items.len() - 1 {
        lemma_arr_view_index(items.drop_last(), i);
    }
}

pub broadcast proof fn lemma_obj_view_len(fields: Seq<(String, JsonValue)>)
    ensures
        #[trigger] obj_view(fields).len() == fields.len(),
    decreases fields,
{
    if fields.len() != 0 {
        lemma_obj_view_len(fields.drop_last());
    }
}

pub broadcast proof fn lemma_obj_view_index(fields: Seq<(String, JsonValue)>, i: int)
    requires
        0 <= i < fields.len(),
    ensures
        #[trigger] obj_view(fields)[i] == (fields[i].0@, fields[i].1@),
    decreases fields,
{
    lemma_obj_view_len(fields);
    if i < fields.len() - 1 {
        lemma_obj_view_index(fields.drop_last(), i);
    }
}

pub proof fn lemma_view_variant(v: JsonValue)
    ensures
        v is Null <==> v@ is Null,
        v is Bool <==> v@ is Bool,
        v is Int <==> v@ is Int,
        v is Num <==> v@ is Num,
        v is Str <==> v@ is Str,
        v is Arr <==> v@ is Arr,
        v is Obj <==> v@ is Obj,
{
    match v {
        JsonValue::Null => {},
        JsonValue::Bool(_) => {},
        JsonValue::Int(_) => {},
        JsonValue::Num(_) => {},
        JsonValue::Str(_) => {},
        JsonValue::Arr(_) => {},
        JsonValue::Obj(_) => {},
    }
}

pub proof fn lemma_obj_view_push(fields: Seq<(String, JsonValue)>, e: (String, JsonValue))
    ensures
        obj_view(fields.push(e)) == obj_view(fields).push((e.0@, e.1@)),
{
    assert(fields.push(e).drop_last() =~= fields);
    assert(fields.push(e).last() == e);
}

pub proof fn lemma_arr_view_push(items: Seq<JsonValue>, e: JsonValue)
    ensures
        arr_view(items.push(e)) == arr_view(items).push(e@),
{
    assert(items.push(e).drop_last() =~= items);
    assert(items.push(e).last() == e);
}

/// Copies a value; the copy stands for the same mathematical value.
#[verifier::loop_isolation(false)]
pub fn clone_value(v: &JsonValue) -> (r: JsonValue)
    ensures
        r@ == v@,
    decreases v,
{
    broadcast use lemma_arr_view_len, lemma_arr_view_index, lemma_obj_view_len, lemma_obj_view_index;

    match v {
        JsonValue::Null => JsonValue::Null,
        JsonValue::Bool(b) => JsonValue::Bool(*b),
        JsonValue::Int(i) => JsonValue::Int(*i),
        JsonValue::Num(s) => JsonValue::Num(copy_string(s)),
        JsonValue::Str(s) => JsonValue::Str(copy_string(s)),
        JsonValue::Arr(items) => {
            let mut out: Vec<JsonValue> = Vec::new();
            let mut i: usize = 0;
            while i < items.len()
                invariant
                    i <= items.len(),
                    out@.len() == i,
                    forall|j: int| 0 <= j < i ==> #[trigger] arr_view(out@)[j] == arr_view(items@)[j],
                decreases items.len() - i,
            {
                let ghost prev = out@;
                out.push(clone_value(&items[i]));
                proof {
                    assert(out@.drop_last() =~= prev);
                    lemma_arr_view_index(items@, i as int);
                    assert forall|j: int| 0 <= j < i + 1 implies arr_view(out@)[j] == arr_view(items@)[j] by {
                        lemma_arr_view_index(out@, j);
                        if j < i {
                            lemma_arr_view_index(prev, j);
                        }
                    }
                }
                i += 1;
            }
            proof {
                lemma_arr_view_len(out@);
                lemma_arr_view_len(items@);
                assert forall|j: int| 0 <= j < items@.len() implies arr_view(out@)[j] == arr_view(items@)[j] by {
                    lemma_arr_view_index(out@, j);
                    lemma_arr_view_index(items@, j);
                }
                assert(arr_view(out@) =~= arr_view(items@));
            }
            JsonValue::Arr(out)
        },
        JsonValue::Obj(fields) => {
            let mut out: Vec<(String, JsonValue)> = Vec::new();
            let mut i: usize = 0;
            while i < fields.len()
                invariant
                    i <= fields.len(),
                    out@.len() == i,
                    forall|j: int| 0 <= j < i ==> #[trigger] out@[j].0@ == fields@[j].0@
                        && out@[j].1@ == fields@[j].1@,
                decreases fields.len() - i,
            {
                let entry = &fields[i];
                out.push((copy_string(&entry.0), clone_value(&entry.1)));
                i += 1;
            }
            proof {
                lemma_obj_view_len(out@);
                lemma_obj_view_len(fields@);
                assert forall|j: int| 0 <= j < fields@.len() implies obj_view(out@)[j] == obj_view(fields@)[j] by {
                    lemma_obj_view_index(out@, j);
                    lemma_obj_view_index(fields@, j);
                }
                assert(obj_view(out@) =~= obj_view(fields@));
            }
            JsonValue::Obj(out)
        },
    }
}

/// Decides whether two values stand for the same mathematical value.
#[verifier::loop_isolation(false)]
pub fn value_eq(a: &JsonValue, b: &JsonValue) -> (r: bool)
    ensures
        r == (a@ == b@),
    decreases a,
{
    broadcast use lemma_arr_view_len, lemma_arr_view_index, lemma_obj_view_len, lemma_obj_view_index;

    match (a, b) {
        (JsonValue::Null, JsonValue::Null) => true,
        (JsonValue::Bool(x), JsonValue::Bool(y)) => *x == *y,
        (JsonValue::Int(x), JsonValue::Int(y)) => *x == *y,
        (JsonValue::Num(x), JsonValue::Num(y)) => *x == *y,
        (JsonValue::Str(x), JsonValue::Str(y)) => *x == *y,
        (JsonValue::Arr(x), JsonValue::Arr(y)) => {
            if x.len() != y.len() {
                proof {
                    lemma_arr_view_len(x@);
                    lemma_arr_view_len(y@);
                }
                return false;
            }
            let mut i: usize = 0;
            while i < x.len()
                invariant
                    i <= x.len(),
                    x@.len() == y@.len(),
                    a == JsonValue::Arr(*x),
                    b == JsonValue::Arr(*y),
                    forall|j: int| 0 <= j < i ==> #[trigger] arr_view(x@)[j] == arr_view(y@)[j],
                decreases x.len() - i,
            {
                if !value_eq(&x[i], &y[i]) {
                    proof {
                        lemma_arr_view_index(x@, i as int);
                        lemma_arr_view_index(y@, i as int);
                        assert(arr_view(x@)[i as int] != arr_view(y@)[i as int]);
                    }
                    return false;
                }
                proof {
                    lemma_arr_view_index(x@, i as int);
                    lemma_arr_view_index(y@, i as int);
                }
                i += 1;
            }
            proof {
                lemma_arr_view_len(x@);
                lemma_arr_view_len(y@);
                assert(arr_view(x@) =~= arr_view(y@));
            }
            true
        },
        (JsonValue::Obj(x), JsonValue::Obj(y)) => {
            if x.len() != y.len() {
                proof {
                    lemma_obj_view_len(x@);
                    lemma_obj_view_len(y@);
                }
                return false;
            }
            let mut i: usize = 0;
            while i < x.len()
                invariant
                    i <= x.len(),
                    x@.len() == y@.len(),
                    a == JsonValue::Obj(*x),
                    b == JsonValue::Obj(*y),
                    forall|j: int| 0 <= j < i ==> #[trigger] obj_view(x@)[j] == obj_view(y@)[j],
                decreases x.len() - i,
            {
                let xe = &x[i];
                let ye = &y[i];
                if !(xe.0 == ye.0) {
                    proof {
                        lemma_obj_view_index(x@, i as int);
                        lemma_obj_view_index(y@, i as int);
                        assert(obj_view(x@)[i as int].0 != obj_view(y@)[i as int].0);
                    }
                    return false;
                }
                if !value_eq(&xe.1, &ye.1) {
                    proof {
                        lemma_obj_view_index(x@, i as int);
                        lemma_obj_view_index(y@, i as int);
                        assert(obj_view(x@)[i as int].1 != obj_view(y@)[i as int].1);
                    }
                    return false;
                }
                proof {
                    lemma_obj_view_index(x@, i as int);
                    lemma_obj_view_index(y@, i as int);
                    assert(obj_view(x@)[i as int] == obj_view(y@)[i as int]);
                }
                i += 1;
            }
            proof {
                lemma_obj_view_len(x@);
                lemma_obj_view_len(y@);
                assert(obj_view(x@) =~= obj_view(y@));
            }
            true
        },
        _ => {
            proof {
                lemma_view_variant(*a);
                lemma_view_variant(*b);
                assert(a@ != b@);
            }
            false
        },
    }
}

/// One character of text inside a rendered string literal: a double quote
/// and a backslash are preceded by a backslash, every other character stands
/// as itself.
pub open spec fn esc_char(c: char) -> Seq<char> {
    if c == '"' {
        seq!['\\', '"']
    } else if c == '\\' {
        seq!['\\', '\\']
    } else {
        seq![c]
    }
}

/// The escaped form of string text.
pub open spec fn escaped(s: Seq<char>) -> Seq<char>
    decreases s,
{
    if s.len() == 0 {
        Seq::empty()
    } else {
        escaped(s.drop_last()) + esc_char(s.last())
    }
}

/// The textual form of a value, as it is embedded in a statement: the
/// shape of serialized object notation, with string text escaped.
pub open spec fn json_of(v: ValueV) -> Seq<char>
    decreases v,
{
    match v {
        ValueV::Null => "null"@,
        ValueV::Bool(b) => if b {
            "true"@
        } else {
            "false"@
        },
        ValueV::Int(i) => dec_int_of(i),
        ValueV::Num(s) => s,
        ValueV::Str(s) => seq!['"'] + escaped(s) + seq!['"'],
        ValueV::Arr(items) => seq!['['] + json_items(items) + seq![']'],
        ValueV::Obj(fields) => seq!['{'] + json_fields(fields) + seq!['}'],
    }
}

pub open spec fn json_items(items: Seq<ValueV>) -> Seq<char>
    decreases items,
{
    if items.len() == 0 {
        Seq::empty()
    } else if items.len() == 1 {
        json_of(items[0])
    } else {
        json_items(items.drop_last()) + seq![','] + json_of(items.last())
    }
}

pub open spec fn json_fields(fields: Seq<(Seq<char>, ValueV)>) -> Seq<char>
    decreases fields,
{
    if fields.len() == 0 {
        Seq::empty()
    } else if fields.len() == 1 {
        json_field(fields[0])
    } else {
        json_fields(fields.drop_last()) + seq![','] + json_field(fields.last())
    }
}

pub open spec fn json_field(field: (Seq<char>, ValueV)) -> Seq<char>
    decreases field,
{
    seq!['"'] + escaped(field.0) + seq!['"', ':'] + json_of(field.1)
}

proof fn lemma_json_items_push(items: Seq<ValueV>, x: ValueV)
    ensures
        json_items(items.push(x)) == if items.len() == 0 {
            json_of(x)
        } else {
            json_items(items) + seq![','] + json_of(x)
        },
{
    assert(items.push(x).drop_last() =~= items);
    assert(items.push(x).last() == x);
}

proof fn lemma_json_fields_push(fields: Seq<(Seq<char>, ValueV)>, x: (Seq<char>, ValueV))
    ensures
        json_fields(fields.push(x)) == if fields.len() == 0 {
            json_field(x)
        } else {
            json_fields(fields) + seq![','] + json_field(x)
        },
{
    assert(fields.push(x).drop_last() =~= fields);
    assert(fields.push(x).last() == x);
}

/// Renders string text with quotes and backslashes escaped.
#[verifier::loop_isolation(false)]
fn render_escaped(s: &String) -> (r: String)
    ensures
        r@ == escaped(s@),
{
    let chars = crate::text::str_chars(s.as_str());
    let mut out = String::new();
    let mut i: usize = 0;
    while i < chars.len()
        invariant
            i <= chars.len(),
            chars@ == s@,
            out@ == escaped(s@.take(i as int)),
        decreases chars.len() - i,
    {
        let c = chars[i];
        if c == '"' {
            out.push('\\');
            out.push('"');
        } else if c == '\\' {
            out.push('\\');
            out.push('\\');
        } else {
            out.push(c);
        }
        proof {
            assert(s@.take(i + 1).drop_last() =~= s@.take(i as int));
            assert(s@.take(i + 1).last() == s@[i as int]);
            assert(out@ =~= escaped(s@.take(i as int)) + esc_char(s@[i as int]));
        }
        i += 1;
    }
    proof {
        assert(s@.take(s@.len() as int) =~= s@);
    }
    out
}

/// Renders a value as the text embedded in a statement.
#[verifier::loop_isolation(false)]
pub fn render_value(v: &JsonValue) -> (r: String)
    ensures
        r@ == json_of(v@),
    decreases v,
{
    broadcast use lemma_arr_view_len, lemma_arr_view_index, lemma_obj_view_len, lemma_obj_view_index;

    match v {
        JsonValue::Null => {
            let mut s = String::new();
            s.push_str("null");
            s
        },
        JsonValue::Bool(b) => {
            let mut s = String::new();
            if *b {
                s.push_str("true");
            } else {
                s.push_str("false");
            }
            s
        },
        JsonValue::Int(i) => i64_to_dec(*i),
        JsonValue::Num(s) => copy_string(s),
        JsonValue::Str(s) => {
            let mut out = String::new();
            out.push('"');
            let esc = render_escaped(s);
            out.push_str(esc.as_str());
            out.push('"');
            proof {
                assert(out@ =~= seq!['"'] + escaped(s@) + seq!['"']);
            }
            out
        },
        JsonValue::Arr(items) => {
            let ghost m = arr_view(items@);
            let mut out = String::new();
            out.push('[');
            let mut i: usize = 0;
            while i < items.len()
                invariant
                    i <= items.len(),
                    v == JsonValue::Arr(*items),
                    m == arr_view(items@),
                    m.len() == items@.len(),
                    out@ == seq!['['] + json_items(m.take(i as int)),
                decreases items.len() - i,
            {
                if i > 0 {
                    out.push(',');
                }
                let elem = render_value(&items[i]);
                out.push_str(elem.as_str());
                proof {
                    lemma_arr_view_index(items@, i as int);
                    assert(m.take(i + 1) =~= m.take(i as int).push(m[i as int]));
                    lemma_json_items_push(m.take(i as int), m[i as int]);
                    assert(m[i as int] == items@[i as int]@);
                    if i > 0 {
                        assert(out@ =~= seq!['['] + (json_items(m.take(i as int)) + seq![',']
                            + json_of(m[i as int])));
                    }
                }
                i += 1;
            }
            out.push(']');
            proof {
                assert(m.take(items@.len() as int) =~= m);
                assert(out@ =~= seq!['['] + json_items(m) + seq![']']);
            }
            out
        },
        JsonValue::Obj(fields) => {
            let ghost m = obj_view(fields@);
            let mut out = String::new();
            out.push('{');
            let mut i: usize = 0;
            while i < fields.len()
                invariant
                    i <= fields.len(),
                    v == JsonValue::Obj(*fields),
                    m == obj_view(fields@),
                    m.len() == fields@.len(),
                    out@ == seq!['{'] + json_fields(m.take(i as int)),
                decreases fields.len() - i,
            {
                if i > 0 {
                    out.push(',');
                }
                let entry = &fields[i];
                out.push('"');
                let key = render_escaped(&entry.0);
                out.push_str(key.as_str());
                out.push('"');
                out.push(':');
                let elem = render_value(&entry.1);
                out.push_str(elem.as_str());
                proof {
                    lemma_obj_view_index(fields@, i as int);
                    assert(m.take(i + 1) =~= m.take(i as int).push(m[i as int]));
                    lemma_json_fields_push(m.take(i as int), m[i as int]);
                    assert(m[i as int] == (fields@[i as int].0@, fields@[i as int].1@));
                    assert(seq!['"'] + escaped(fields@[i as int].0@) + seq!['"', ':']
                        + json_of(fields@[i as int].1@) == json_field(m[i as int]));
                    if i > 0 {
                        assert(out@ =~= seq!['{'] + (json_fields(m.take(i as int)) + seq![',']
                            + json_field(m[i as int])));
                    } else {
                        assert(out@ =~= seq!['{'] + json_field(m[i as int]));
                    }
                }
                i += 1;
            }
            out.push('}');
            proof {
                assert(m.take(fields@.len() as int) =~= m);
                assert(out@ =~= seq!['{'] + json_fields(m) + seq!['}']);
            }
            out
        },
    }
}

} // verus!
