use vstd::prelude::*;

verus! {

/// One node of a configuration document tree: a scalar, an ordered
/// array, or a table of key/value entries whose insertion order is kept.
///
/// Scalars whose textual form the library never computes itself (floats
/// and datetimes) are carried as their canonical text, produced by the
/// embedding application when it builds the tree.
#[derive(Debug, PartialEq, Eq)]
pub enum Value {
    Str(String),
    Int(i64),
    Float(String),
    Bool(bool),
    Datetime(String),
    Array(Vec<Value>),
    Table(Vec<(String, Value)>),
}

/// The mathematical model of a document tree, used by every contract:
/// strings become `Seq<char>`, integers become `int`, and the two
/// container forms become sequences.
#[verifier::ext_equal]
pub enum Val {
    Str(Seq<char>),
    Int(int),
    Float(Seq<char>),
    Bool(bool),
    Datetime(Seq<char>),
    Array(Seq<Val>),
    Table(Seq<(Seq<char>, Val)>),
}

/// Models of the elements of an array, in order.
pub open spec fn vals_of(items: Seq<Value>) -> Seq<Val>
    decreases items,
{
    if items.len() == 0 {
        Seq::empty()
    } else {
        proof {
            assert(decreases_to!(items => items.subrange(0, items.len() - 1)));
            assert(decreases_to!(items => items[items.len() - 1]));
        }
        vals_of(items.subrange(0, items.len() - 1)).push(items[items.len() - 1]@)
    }
}

/// Models of the entries of a table, in order: each key as a character
/// sequence beside the modelled value.
pub open spec fn entries_of(entries: Seq<(String, Value)>) -> Seq<(Seq<char>, Val)>
    decreases entries,
{
    if entries.len() == 0 {
        Seq::empty()
    } else {
        proof {
            assert(decreases_to!(entries => entries.subrange(0, entries.len() - 1)));
            assert(decreases_to!(entries => entries[entries.len() - 1]));
            assert(decreases_to!(entries[entries.len() - 1] => entries[entries.len() - 1].1));
        }
        entries_of(entries.subrange(0, entries.len() - 1)).push(
            (entries[entries.len() - 1].0@, entries[entries.len() - 1].1@),
        )
    }
}

impl View for Value {
    type V = Val;

    open spec fn view(&self) -> Val
        decreases self,
    {
        match self {
            Value::Str(s) => Val::Str(s@),
            Value::Int(i) => Val::Int(*i as int),
            Value::Float(f) => Val::Float(f@),
            Value::Bool(b) => Val::Bool(*b),
            Value::Datetime(d) => Val::Datetime(d@),
            Value::Array(items) => {
                proof {
                    assert(decreases_to!(*self => self->Array_0));
                    assert(decreases_to!(self->Array_0 => self->Array_0@));
                }
                Val::Array(vals_of(items@))
            },
            Value::Table(entries) => {
                proof {
                    assert(decreases_to!(*self => self->Table_0));
                    assert(decreases_to!(self->Table_0 => self->Table_0@));
                }
                Val::Table(entries_of(entries@))
            },
        }
    }
}

/// `vals_of` keeps the length and models each element in place.
pub proof fn lemma_vals_of(items: Seq<Value>)
    ensures
        vals_of(items).len() == items.len(),
        forall|i: int| 0 <= i < items.len() ==> #[trigger] vals_of(items)[i] == items[i]@,
    decreases items.len(),
{
    if items.len() > 0 {
        let sub = items.subrange(0, items.len() - 1);
        lemma_vals_of(sub);
        assert(vals_of(items) == vals_of(sub).push(items[items.len() - 1]@));
        assert forall|i: int| 0 <= i < items.len() implies #[trigger] vals_of(items)[i]
            == items[i]@ by {
            if i < items.len() - 1 {
                assert(vals_of(sub)[i] == sub[i]@);
                assert(sub[i] == items[i]);
            }
        }
    }
}

/// `entries_of` keeps the length and models each entry in place.
pub proof fn lemma_entries_of(entries: Seq<(String, Value)>)
    ensures
        entries_of(entries).len() == entries.len(),
        forall|i: int| 0 <= i < entries.len() ==> #[trigger] entries_of(entries)[i] == (
            entries[i].0@,
            entries[i].1@,
        ),
    decreases entries.len(),
{
    if entries.len() > 0 {
        let sub = entries.subrange(0, entries.len() - 1);
        lemma_entries_of(sub);
        assert(entries_of(entries) == entries_of(sub).push(
            (entries[entries.len() - 1].0@, entries[entries.len() - 1].1@),
        ));
        assert forall|i: int| 0 <= i < entries.len() implies #[trigger] entries_of(entries)[i]
            == (entries[i].0@, entries[i].1@) by {
            if i < entries.len() - 1 {
                assert(entries_of(sub)[i] == (sub[i].0@, sub[i].1@));
                assert(sub[i] == entries[i]);
            }
        }
    }
}

/// Appending one element extends the modelled sequence by its model.
pub proof fn lemma_vals_of_push(s: Seq<Value>, x: Value)
    ensures
        vals_of(s.push(x)) == vals_of(s).push(x@),
{
    let t = s.push(x);
    assert(t.subrange(0, t.len() - 1) =~= s);
    assert(t[t.len() - 1] == x);
}

/// A copy of the tree that provably carries the same model.  The derived
/// `Clone` would give the verifier no information, so the library
/// duplicates subtrees through this function instead.
#[verifier::loop_isolation(false)]
pub fn dup(v: &Value) -> (r: Value)
    ensures
        r@ == v@,
    decreases v,
{
    match v {
        Value::Str(s) => Value::Str(s.clone()),
        Value::Int(i) => Value::Int(*i),
        Value::Float(f) => Value::Float(f.clone()),
        Value::Bool(b) => Value::Bool(*b),
        Value::Datetime(d) => Value::Datetime(d.clone()),
        Value::Array(items) => {
            let mut out: Vec<Value> = Vec::new();
            let n = items.len();
            let mut j: usize = 0;
            while j < n
                invariant
                    n == items@.len(),
                    j <= n,
                    out@.len() == j as int,
                    forall|k: int| 0 <= k < j as int ==> out@[k]@ == #[trigger] items@[k]@,
                decreases n - j,
            {
                proof {
                    assert(decreases_to!(*v => v->Array_0));
                    assert(decreases_to!(v->Array_0 => v->Array_0[j as int]));
                }
                let item = dup(&items[j]);
                out.push(item);
                j = j + 1;
            }
            let r = Value::Array(out);
            proof {
                lemma_vals_of(out@);
                lemma_vals_of(items@);
                assert(vals_of(out@) =~= vals_of(items@));
            }
            r
        },
        Value::Table(entries) => {
            let mut out: Vec<(String, Value)> = Vec::new();
            let n = entries.len();
            let mut j: usize = 0;
            while j < n
                invariant
                    n == entries@.len(),
                    j <= n,
                    out@.len() == j as int,
                    forall|k: int| 0 <= k < j as int ==> out@[k].0@ == #[trigger] entries@[k].0@
                        && out@[k].1@ == entries@[k].1@,
                decreases n - j,
            {
                proof {
                    assert(decreases_to!(*v => v->Table_0));
                    assert(decreases_to!(v->Table_0 => v->Table_0[j as int]));
                    assert(decreases_to!(v->Table_0[j as int] => v->Table_0[j as int].1));
                }
                let key = entries[j].0.clone();
                let item = dup(&entries[j].1);
                out.push((key, item));
                j = j + 1;
            }
            let r = Value::Table(out);
            proof {
                lemma_entries_of(out@);
                lemma_entries_of(entries@);
                assert(entries_of(out@) =~= entries_of(entries@));
            }
            r
        },
    }
}

} // verus!
