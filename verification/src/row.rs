use vstd::prelude::*;
use crate::text::{views_of, copy_string};
use crate::value::{JsonValue, ValueV, obj_view, clone_value, value_eq, lemma_view_variant,
    lemma_obj_view_len, lemma_obj_view_index, lemma_obj_view_push};

verus! {

broadcast use vstd::seq::group_seq_axioms, vstd::std_specs::vec::group_vec_axioms;

/// The mathematical form of a row: the field names and values in order.
pub type RowV = Seq<(Seq<char>, ValueV)>;

/// One flat row as the execution engine returns it: an ordered mapping from
/// field name to value.  A name can occur once; lookups take the first
/// occurrence.
pub struct Row {
    pub fields: Vec<(String, JsonValue)>,
}

impl View for Row {
    type V = RowV;

    open spec fn view(&self) -> RowV {
        obj_view(self.fields@)
    }
}

/// The value under the first occurrence of the name, if the name occurs.
pub open spec fn lookup_field(fields: RowV, key: Seq<char>) -> Option<ValueV>
    decreases fields,
{
    if fields.len() == 0 {
        None
    } else if fields[0].0 == key {
        Some(fields[0].1)
    } else {
        lookup_field(fields.drop_first(), key)
    }
}

/// The value under the name, or null when the name does not occur.
pub open spec fn lookup_or_null(fields: RowV, key: Seq<char>) -> ValueV {
    match lookup_field(fields, key) {
        Some(v) => v,
        None => ValueV::Null,
    }
}

proof fn lemma_lookup_skip(fields: RowV, key: Seq<char>, i: int)
    requires
        0 <= i <= fields.len(),
        forall|j: int| 0 <= j < i ==> #[trigger] fields[j].0 != key,
    ensures
        lookup_field(fields, key) == lookup_field(fields.skip(i), key),
    decreases i,
{
    if i == 0 {
        assert(fields.skip(0) =~= fields);
    } else {
        lemma_lookup_skip(fields, key, i - 1);
        assert(fields.skip(i - 1).drop_first() =~= fields.skip(i));
        assert(fields.skip(i - 1)[0] == fields[i - 1]);
    }
}

/// Finds the value stored under a field name.
pub fn get_field<'a>(fields: &'a Vec<(String, JsonValue)>, key: &String) -> (r: Option<&'a JsonValue>)
    ensures
        match r {
            Some(v) => lookup_field(obj_view(fields@), key@) == Some(v@),
            None => lookup_field(obj_view(fields@), key@) is None,
        },
{
    let ghost m = obj_view(fields@);
    proof {
        lemma_obj_view_len(fields@);
    }
    let mut i: usize = 0;
    while i < fields.len()
        invariant
            i <= fields.len(),
            m == obj_view(fields@),
            m.len() == fields@.len(),
            forall|j: int| 0 <= j < i ==> #[trigger] m[j].0 != key@,
        decreases fields.len() - i,
    {
        proof {
            lemma_obj_view_index(fields@, i as int);
        }
        if fields[i].0 == *key {
            proof {
                lemma_lookup_skip(m, key@, i as int);
                assert(m.skip(i as int)[0] == m[i as int]);
            }
            return Some(&fields[i].1);
        }
        i += 1;
    }
    proof {
        lemma_lookup_skip(m, key@, m.len() as int);
        assert(m.skip(m.len() as int) =~= Seq::empty());
    }
    None
}

impl Row {
    /// A row with no fields.
    pub fn new() -> (r: Row)
        ensures
            r@ =~= Seq::<(Seq<char>, ValueV)>::empty(),
    {
        Row { fields: Vec::new() }
    }

    /// Finds the value stored under a field name.
    pub fn get<'a>(&'a self, key: &String) -> (r: Option<&'a JsonValue>)
        ensures
            match r {
                Some(v) => lookup_field(self@, key@) == Some(v@),
                None => lookup_field(self@, key@) is None,
            },
    {
        get_field(&self.fields, key)
    }

    /// Appends a field at the end of the row.
    pub fn push_field(&mut self, key: String, value: JsonValue)
        ensures
            final(self)@ == old(self)@.push((key@, value@)),
    {
        let ghost prev = self.fields@;
        self.fields.push((key, value));
        proof {
            assert(self.fields@.drop_last() =~= prev);
        }
    }

    /// Copies a row; the copy stands for the same mathematical row.
    pub fn clone_row(&self) -> (r: Row)
        ensures
            r@ == self@,
    {
        let mut out: Vec<(String, JsonValue)> = Vec::new();
        let mut i: usize = 0;
        proof {
            lemma_obj_view_len(self.fields@);
        }
        #[verifier::loop_isolation(false)]
        while i < self.fields.len()
            invariant
                i <= self.fields.len(),
                out@.len() == i,
                forall|j: int| 0 <= j < i ==> #[trigger] obj_view(out@)[j] == obj_view(
                    self.fields@,
                )[j],
            decreases self.fields.len() - i,
        {
            let ghost prev = out@;
            let entry = &self.fields[i];
            out.push((copy_string(&entry.0), clone_value(&entry.1)));
            proof {
                assert(out@.drop_last() =~= prev);
                lemma_obj_view_len(out@);
                lemma_obj_view_index(self.fields@, i as int);
                assert forall|j: int| 0 <= j < i + 1 implies obj_view(out@)[j] == obj_view(
                    self.fields@,
                )[j] by {
                    lemma_obj_view_index(out@, j);
                    if j < i {
                        lemma_obj_view_index(prev, j);
                    }
                }
            }
            i += 1;
        }
        proof {
            lemma_obj_view_len(out@);
            assert(obj_view(out@) =~= obj_view(self.fields@));
        }
        Row { fields: out }
    }
}

/// A value as the shape-mending pass leaves it: the engine's textual
/// null marker becomes a true null, everything else stands.
pub open spec fn normalize_v(v: ValueV) -> ValueV {
    if v == ValueV::Str("null"@) {
        ValueV::Null
    } else {
        v
    }
}

/// The row with every value normalized.
pub open spec fn norm_fields(fields: RowV) -> RowV
    decreases fields,
{
    if fields.len() == 0 {
        Seq::empty()
    } else {
        norm_fields(fields.drop_last()).push(
            (fields.last().0, normalize_v(fields.last().1)),
        )
    }
}

proof fn lemma_norm_fields_push(fields: RowV, x: (Seq<char>, ValueV))
    ensures
        norm_fields(fields.push(x)) == norm_fields(fields).push((x.0, normalize_v(x.1))),
{
    assert(fields.push(x).drop_last() =~= fields);
    assert(fields.push(x).last() == x);
}

/// The row extended with a null field for every requested name that does
/// not occur in it, in the order the names are requested.
pub open spec fn backfill_v(fields: RowV, keys: Seq<Seq<char>>) -> RowV
    decreases keys,
{
    if keys.len() == 0 {
        fields
    } else {
        let prev = backfill_v(fields, keys.drop_last());
        if lookup_field(prev, keys.last()) is None {
            prev.push((keys.last(), ValueV::Null))
        } else {
            prev
        }
    }
}

proof fn lemma_backfill_push(fields: RowV, keys: Seq<Seq<char>>, k: Seq<char>)
    ensures
        backfill_v(fields, keys.push(k)) == {
            let prev = backfill_v(fields, keys);
            if lookup_field(prev, k) is None {
                prev.push((k, ValueV::Null))
            } else {
                prev
            }
        },
{
    assert(keys.push(k).drop_last() =~= keys);
    assert(keys.push(k).last() == k);
}

/// The fetch-time mending pass over one row: values normalized, then
/// missing requested names backfilled with nulls.  Columns the request did
/// not name stay, because the relationship resolver still needs the
/// projected correlation keys; the final shape pass drops them.
pub open spec fn mend_row_v(fields: RowV, keys: Seq<Seq<char>>) -> RowV {
    backfill_v(norm_fields(fields), keys)
}

/// Normalizes one value.
fn normalize_value(v: &JsonValue) -> (r: JsonValue)
    ensures
        r@ == normalize_v(v@),
{
    let marker: String = "null".to_owned();
    match v {
        JsonValue::Str(s) => {
            if *s == marker {
                JsonValue::Null
            } else {
                proof {
                    lemma_view_variant(*v);
                }
                clone_value(v)
            }
        },
        _ => {
            proof {
                lemma_view_variant(*v);
            }
            clone_value(v)
        },
    }
}

/// Normalizes every value of a row.
#[verifier::loop_isolation(false)]
fn normalized_fields(row: &Row) -> (r: Vec<(String, JsonValue)>)
    ensures
        obj_view(r@) == norm_fields(row@),
{
    let ghost m = obj_view(row.fields@);
    proof {
        lemma_obj_view_len(row.fields@);
    }
    let mut out: Vec<(String, JsonValue)> = Vec::new();
    let mut i: usize = 0;
    while i < row.fields.len()
        invariant
            i <= row.fields.len(),
            obj_view(out@) == norm_fields(m.take(i as int)),
            out@.len() == i,
        decreases row.fields.len() - i,
    {
        let ghost prev = out@;
        let entry = &row.fields[i];
        out.push((copy_string(&entry.0), normalize_value(&entry.1)));
        proof {
            assert(out@.drop_last() =~= prev);
            lemma_obj_view_len(out@);
            lemma_obj_view_index(row.fields@, i as int);
            assert(m.take(i + 1).drop_last() =~= m.take(i as int));
            assert(m.take(i + 1).last() == m[i as int]);
            lemma_norm_fields_push(m.take(i as int), m[i as int]);
            assert(obj_view(out@) == norm_fields(m.take(i as int)).push(
                (m[i as int].0, normalize_v(m[i as int].1)),
            ));
            assert(m.take(i as int).push(m[i as int]) =~= m.take(i + 1));
        }
        i += 1;
    }
    proof {
        assert(m.take(m.len() as int) =~= m);
    }
    out
}

/// Mends one fetched row: normalizes the engine's null markers and
/// backfills every missing requested field with null, in request order,
/// keeping any other column for the resolver.
#[verifier::loop_isolation(false)]
pub fn mend_row(row: &Row, keys: &Vec<String>) -> (r: Row)
    ensures
        r@ == mend_row_v(row@, views_of(keys@)),
{
    let ghost m = obj_view(row.fields@);
    let mut out: Vec<(String, JsonValue)> = normalized_fields(row);
    let ghost normed = norm_fields(m);
    let ghost ks = views_of(keys@);
    let mut j: usize = 0;
    while j < keys.len()
        invariant
            j <= keys.len(),
            obj_view(out@) == backfill_v(normed, ks.take(j as int)),
        decreases keys.len() - j,
    {
        let ghost prev = out@;
        proof {
            assert(ks[j as int] == keys@[j as int]@);
        }
        if get_field(&out, &keys[j]).is_none() {
            out.push((copy_string(&keys[j]), JsonValue::Null));
            proof {
                lemma_obj_view_push(prev, out@.last());
                assert(prev.push(out@.last()) =~= out@);
                assert(obj_view(out@) == obj_view(prev).push((ks[j as int], ValueV::Null)));
            }
        }
        proof {
            lemma_backfill_push(normed, ks.take(j as int), ks[j as int]);
            assert(ks.take(j as int).push(ks[j as int]) =~= ks.take(j + 1));
            assert(obj_view(out@) == backfill_v(normed, ks.take(j + 1)));
        }
        j += 1;
    }
    proof {
        assert(ks.take(keys@.len() as int) =~= ks);
    }
    Row { fields: out }
}

/// The shape pass over one row: values normalized, then the row projected
/// to exactly the requested names, in request order.  A requested name the
/// engine did not return reads as null, and any other column — the
/// constant placeholder included — is dropped.
pub open spec fn fix_row_v(fields: RowV, keys: Seq<Seq<char>>) -> RowV {
    project_v(norm_fields(fields), keys)
}

/// Brings one row into the requested shape: exactly the requested names,
/// in request order, null markers normalized.
pub fn fix_row(row: &Row, keys: &Vec<String>) -> (r: Row)
    ensures
        r@ == fix_row_v(row@, views_of(keys@)),
{
    let normalized = Row { fields: normalized_fields(row) };
    project_row(&normalized, keys)
}

/// The row projected to exactly the requested names, in request order; a
/// name that does not occur in the row projects to null.
pub open spec fn project_v(fields: RowV, keys: Seq<Seq<char>>) -> RowV
    decreases keys,
{
    if keys.len() == 0 {
        Seq::empty()
    } else {
        project_v(fields, keys.drop_last()).push(
            (keys.last(), lookup_or_null(fields, keys.last())),
        )
    }
}

proof fn lemma_project_push(fields: RowV, keys: Seq<Seq<char>>, k: Seq<char>)
    ensures
        project_v(fields, keys.push(k)) == project_v(fields, keys).push(
            (k, lookup_or_null(fields, k)),
        ),
{
    assert(keys.push(k).drop_last() =~= keys);
    assert(keys.push(k).last() == k);
}

/// After projection a row holds exactly the requested names, in request
/// order, whatever the row held before.
pub broadcast proof fn lemma_project_shape(fields: RowV, keys: Seq<Seq<char>>)
    ensures
        #[trigger] project_v(fields, keys).len() == keys.len(),
        forall|i: int| 0 <= i < keys.len() ==> #[trigger] project_v(fields, keys)[i].0 == keys[i],
        forall|i: int| 0 <= i < keys.len() ==> #[trigger] project_v(fields, keys)[i].1
            == lookup_or_null(fields, keys[i]),
    decreases keys,
{
    if keys.len() != 0 {
        lemma_project_shape(fields, keys.drop_last());
    }
}

/// Projects a row to exactly the requested names.
#[verifier::loop_isolation(false)]
pub fn project_row(row: &Row, keys: &Vec<String>) -> (r: Row)
    ensures
        r@ == project_v(row@, views_of(keys@)),
{
    let ghost m = obj_view(row.fields@);
    let ghost ks = views_of(keys@);
    let mut out: Vec<(String, JsonValue)> = Vec::new();
    let mut i: usize = 0;
    while i < keys.len()
        invariant
            i <= keys.len(),
            obj_view(out@) == project_v(m, ks.take(i as int)),
        decreases keys.len() - i,
    {
        let ghost prev = out@;
        let value = match get_field(&row.fields, &keys[i]) {
            Some(v) => clone_value(v),
            None => JsonValue::Null,
        };
        out.push((copy_string(&keys[i]), value));
        proof {
            assert(out@.drop_last() =~= prev);
            assert(ks.take(i + 1).drop_last() =~= ks.take(i as int));
            assert(ks.take(i + 1).last() == ks[i as int]);
            lemma_project_push(m, ks.take(i as int), ks[i as int]);
            assert(ks.take(i as int).push(ks[i as int]) =~= ks.take(i + 1));
        }
        i += 1;
    }
    proof {
        assert(ks.take(keys@.len() as int) =~= ks);
    }
    Row { fields: out }
}

/// The row with the value under the first occurrence of the name replaced;
/// the row unchanged when the name does not occur.
pub open spec fn set_field_v(fields: RowV, key: Seq<char>, val: ValueV) -> RowV
    decreases fields,
{
    if fields.len() == 0 {
        fields
    } else if fields[0].0 == key {
        seq![(fields[0].0, val)] + fields.drop_first()
    } else {
        seq![fields[0]] + set_field_v(fields.drop_first(), key, val)
    }
}

proof fn lemma_set_field_skip(fields: RowV, key: Seq<char>, val: ValueV, i: int)
    requires
        0 <= i <= fields.len(),
        forall|j: int| 0 <= j < i ==> #[trigger] fields[j].0 != key,
    ensures
        set_field_v(fields, key, val) == fields.take(i) + set_field_v(
            fields.skip(i),
            key,
            val,
        ),
    decreases i,
{
    if i == 0 {
        assert(fields.skip(0) =~= fields);
        assert(fields.take(0) + set_field_v(fields, key, val) =~= set_field_v(
            fields,
            key,
            val,
        ));
    } else {
        lemma_set_field_skip(fields, key, val, i - 1);
        let tail = fields.skip(i - 1);
        assert(tail[0] == fields[i - 1]);
        assert(tail.drop_first() =~= fields.skip(i));
        assert(set_field_v(tail, key, val) == seq![tail[0]] + set_field_v(
            fields.skip(i),
            key,
            val,
        ));
        assert(fields.take(i - 1) + (seq![tail[0]] + set_field_v(fields.skip(i), key, val))
            =~= fields.take(i) + set_field_v(fields.skip(i), key, val));
    }
}

impl Row {
    /// The row with the value under the first occurrence of the name
    /// replaced; the row unchanged when the name does not occur.
    #[verifier::loop_isolation(false)]
    pub fn with_field_set(&self, key: &String, value: JsonValue) -> (r: Row)
        ensures
            r@ == set_field_v(self@, key@, value@),
    {
        let ghost m = obj_view(self.fields@);
        proof {
            lemma_obj_view_len(self.fields@);
        }
        let mut out: Vec<(String, JsonValue)> = Vec::new();
        let mut i: usize = 0;
        while i < self.fields.len()
            invariant
                i <= self.fields.len(),
                out@.len() == i,
                forall|j: int| 0 <= j < i ==> #[trigger] m[j].0 != key@,
                forall|j: int| 0 <= j < i ==> #[trigger] obj_view(out@)[j] == m[j],
            decreases self.fields.len() - i,
        {
            proof {
                lemma_obj_view_index(self.fields@, i as int);
            }
            let entry = &self.fields[i];
            if entry.0 == *key {
                let ghost base = out@;
                let mut rest: Vec<(String, JsonValue)> = out;
                rest.push((copy_string(&entry.0), value));
                let ghost mid = rest@;
                proof {
                    assert(mid.drop_last() =~= base);
                    lemma_obj_view_len(mid);
                    assert(m[i as int] == (self.fields@[i as int].0@, self.fields@[i as int].1@));
                    assert forall|j: int| 0 <= j < i + 1 implies #[trigger] obj_view(mid)[j] == (
                        if j == i {
                            (m[i as int].0, value@)
                        } else {
                            m[j]
                        }
                    ) by {
                        lemma_obj_view_index(mid, j);
                        if j < i {
                            lemma_obj_view_index(base, j);
                        }
                    }
                }
                let mut k: usize = i + 1;
                while k < self.fields.len()
                    invariant
                        i + 1 <= k <= self.fields.len(),
                        rest@.len() == k,
                        forall|j: int| 0 <= j < k ==> #[trigger] obj_view(rest@)[j] == (
                            if j == i {
                                (m[i as int].0, value@)
                            } else {
                                m[j]
                            }
                        ),
                    decreases self.fields.len() - k,
                {
                    let ghost prev = rest@;
                    let e = &self.fields[k];
                    rest.push((copy_string(&e.0), clone_value(&e.1)));
                    proof {
                        assert(rest@.drop_last() =~= prev);
                        lemma_obj_view_len(rest@);
                        lemma_obj_view_index(self.fields@, k as int);
                        assert forall|j: int| 0 <= j < k + 1 implies #[trigger] obj_view(rest@)[j]
                            == (
                            if j == i {
                                (m[i as int].0, value@)
                            } else {
                                m[j]
                            }
                        ) by {
                            lemma_obj_view_index(rest@, j);
                            if j < k {
                                lemma_obj_view_index(prev, j);
                            }
                        }
                    }
                    k += 1;
                }
                proof {
                    lemma_obj_view_len(rest@);
                    lemma_set_field_skip(m, key@, value@, i as int);
                    let tail = m.skip(i as int);
                    assert(tail[0] == m[i as int]);
                    assert(tail.drop_first() =~= m.skip(i + 1));
                    assert(set_field_v(m, key@, value@) == m.take(i as int) + (seq![
                        (m[i as int].0, value@),
                    ] + m.skip(i + 1)));
                    assert(obj_view(rest@) =~= set_field_v(m, key@, value@));
                }
                return Row { fields: rest };
            }
            let ghost prev = out@;
            out.push((copy_string(&entry.0), clone_value(&entry.1)));
            proof {
                assert(out@.drop_last() =~= prev);
                lemma_obj_view_len(out@);
                assert forall|j: int| 0 <= j < i + 1 implies #[trigger] obj_view(out@)[j] == m[j]
                    by {
                    lemma_obj_view_index(out@, j);
                    if j < i {
                        lemma_obj_view_index(prev, j);
                    }
                }
            }
            i += 1;
        }
        proof {
            lemma_obj_view_len(out@);
            lemma_set_field_skip(m, key@, value@, m.len() as int);
            assert(m.skip(m.len() as int) =~= Seq::empty());
            assert(m.take(m.len() as int) =~= m);
            assert(m + Seq::<(Seq<char>, ValueV)>::empty() =~= m);
            assert(obj_view(out@) =~= set_field_v(m, key@, value@));
        }
        Row { fields: out }
    }
}

/// Decides whether two rows stand for the same mathematical row.
#[verifier::loop_isolation(false)]
pub fn row_eq(a: &Row, b: &Row) -> (r: bool)
    ensures
        r == (a@ == b@),
{
    let x = &a.fields;
    let y = &b.fields;
    proof {
        lemma_obj_view_len(x@);
        lemma_obj_view_len(y@);
    }
    if x.len() != y.len() {
        return false;
    }
    let mut i: usize = 0;
    while i < x.len()
        invariant
            i <= x.len(),
            forall|j: int| 0 <= j < i ==> #[trigger] obj_view(x@)[j] == obj_view(y@)[j],
        decreases x.len() - i,
    {
        let xe = &x[i];
        let ye = &y[i];
        if !(xe.0 == ye.0) {
            proof {
                lemma_obj_view_index(x@, i as int);
                lemma_obj_view_index(y@, i as int);
                assert(obj_view(x@)[i as int].0 != obj_view(y@)[i as int].0);
            }
            return false;
        }
        if !value_eq(&xe.1, &ye.1) {
            proof {
                lemma_obj_view_index(x@, i as int);
                lemma_obj_view_index(y@, i as int);
                assert(obj_view(x@)[i as int].1 != obj_view(y@)[i as int].1);
            }
            return false;
        }
        proof {
            lemma_obj_view_index(x@, i as int);
            lemma_obj_view_index(y@, i as int);
            assert(obj_view(x@)[i as int] == obj_view(y@)[i as int]);
        }
        i += 1;
    }
    proof {
        assert(obj_view(x@) =~= obj_view(y@));
    }
    true
}

} // verus!
