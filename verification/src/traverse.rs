use vstd::prelude::*;
use vstd::slice::{slice_index_get, slice_subrange};
use crate::error::{ErrV, TraverseError};
use crate::path::{Index, IndexV, Op, OpV, ops_view};
use crate::resolve::{resolve_number, spec_range_ordinals, spec_resolve_number};
use crate::value::{
    dup, lemma_vals_of, lemma_vals_of_push, lemma_entries_of, vals_of, entries_of, Val, Value,
};

verus! {

/// The value stored under `key`, if any: the first entry whose key
/// matches, scanning in insertion order.
pub open spec fn lookup(entries: Seq<(Seq<char>, Val)>, key: Seq<char>) -> Option<Val>
    decreases entries.len(),
{
    if entries.len() == 0 {
        None
    } else if entries[0].0 == key {
        Some(entries[0].1)
    } else {
        lookup(entries.skip(1), key)
    }
}

/// The elements one bracket selector picks out of an array.
pub open spec fn spec_select_one(items: Seq<Val>, idx: IndexV) -> Result<Seq<Val>, ErrV> {
    match idx {
        IndexV::Number(n) => match spec_resolve_number(n, items.len() as int) {
            Ok(o) => Ok(seq![items[o]]),
            Err(e) => Err(e),
        },
        IndexV::Range { start, end } => match spec_range_ordinals(
            start,
            end,
            items.len() as int,
        ) {
            Ok(os) => Ok(os.map(|_k: int, o: int| items[o])),
            Err(e) => Err(e),
        },
    }
}

/// The concatenated selections of a bracket index list, in listed
/// order; the first failing selector aborts the whole step.
pub open spec fn spec_select_indexes(
    items: Seq<Val>,
    indexes: Seq<IndexV>,
) -> Result<Seq<Val>, ErrV>
    decreases indexes.len(),
{
    if indexes.len() == 0 {
        Ok(Seq::empty())
    } else {
        match spec_select_one(items, indexes[0]) {
            Err(e) => Err(e),
            Ok(first) => match spec_select_indexes(items, indexes.skip(1)) {
                Err(e) => Err(e),
                Ok(rest) => Ok(first + rest),
            },
        }
    }
}

/// The values a bracket name list projects out of a table, in listed
/// order; the first missing key aborts the whole step.
pub open spec fn spec_select_names(
    entries: Seq<(Seq<char>, Val)>,
    names: Seq<Seq<char>>,
) -> Result<Seq<Val>, ErrV>
    decreases names.len(),
{
    if names.len() == 0 {
        Ok(Seq::empty())
    } else {
        match lookup(entries, names[0]) {
            None => Err(ErrV::KeyNotFound(names[0])),
            Some(v) => match spec_select_names(entries, names.skip(1)) {
                Err(e) => Err(e),
                Ok(rest) => Ok(seq![v] + rest),
            },
        }
    }
}

/// What evaluating `path` against `v` yields: the selected subtree, or
/// the first failure met while consuming the operations left to right.
///
/// A scalar accepts exactly one remaining operation of any kind and is
/// returned unchanged.  An array takes dot steps in place and bracket
/// index selections; a table takes dot steps, single-name lookups and
/// bracket name projections.  Everything else is a type mismatch.
pub open spec fn spec_traverse(v: Val, path: Seq<OpV>) -> Result<Val, ErrV>
    decreases path.len(),
{
    if path.len() == 0 {
        Ok(v)
    } else {
        match v {
            Val::Array(items) => match path[0] {
                OpV::Dot => if path.len() == 1 {
                    Ok(v)
                } else {
                    spec_traverse(v, path.skip(1))
                },
                OpV::Name(_) => Err(ErrV::TypeMismatch),
                OpV::BracketIndex(indexes) => match spec_select_indexes(items, indexes) {
                    Err(e) => Err(e),
                    Ok(sel) => if path.len() == 1 {
                        Ok(Val::Array(sel))
                    } else {
                        spec_traverse(Val::Array(sel), path.skip(1))
                    },
                },
                OpV::BracketName(_) => Err(ErrV::TypeMismatch),
            },
            Val::Table(entries) => match path[0] {
                OpV::Dot => if path.len() == 1 {
                    Ok(v)
                } else {
                    spec_traverse(v, path.skip(1))
                },
                OpV::Name(k) => match lookup(entries, k) {
                    None => Err(ErrV::KeyNotFound(k)),
                    Some(sub) => if path.len() == 1 {
                        Ok(sub)
                    } else {
                        spec_traverse(sub, path.skip(1))
                    },
                },
                OpV::BracketIndex(_) => Err(ErrV::TypeMismatch),
                OpV::BracketName(names) => match spec_select_names(entries, names) {
                    Err(e) => Err(e),
                    Ok(sel) => if path.len() == 1 {
                        Ok(Val::Array(sel))
                    } else {
                        spec_traverse(Val::Array(sel), path.skip(1))
                    },
                },
            },
            _ => if path.len() > 1 {
                Err(ErrV::LeafOverrun)
            } else {
                Ok(v)
            },
        }
    }
}

/// Appending one selector to an index list selects the old list's
/// elements followed by the new selector's, with the same failures.
pub proof fn lemma_select_indexes_push(items: Seq<Val>, indexes: Seq<IndexV>, x: IndexV)
    ensures
        spec_select_indexes(items, indexes.push(x)) == match spec_select_indexes(items, indexes) {
            Err(e) => Err::<Seq<Val>, ErrV>(e),
            Ok(s) => match spec_select_one(items, x) {
                Err(e) => Err::<Seq<Val>, ErrV>(e),
                Ok(t) => Ok::<Seq<Val>, ErrV>(s + t),
            },
        },
    decreases indexes.len(),
{
    let p = indexes.push(x);
    if indexes.len() == 0 {
        assert(p[0] == x);
        assert(p.skip(1) =~= Seq::<IndexV>::empty());
        assert(spec_select_indexes(items, p.skip(1)) == Ok::<Seq<Val>, ErrV>(
            Seq::<Val>::empty(),
        ));
        assert(spec_select_indexes(items, indexes) == Ok::<Seq<Val>, ErrV>(
            Seq::<Val>::empty(),
        ));
        match spec_select_one(items, x) {
            Err(e) => {},
            Ok(t) => {
                assert(t + Seq::<Val>::empty() =~= t);
                assert(Seq::<Val>::empty() + t =~= t);
            },
        }
    } else {
        lemma_select_indexes_push(items, indexes.skip(1), x);
        assert(p[0] == indexes[0]);
        assert(p.skip(1) =~= indexes.skip(1).push(x));
        match spec_select_one(items, indexes[0]) {
            Err(e) => {},
            Ok(first) => {
                match spec_select_indexes(items, indexes.skip(1)) {
                    Err(e) => {},
                    Ok(rest) => {
                        match spec_select_one(items, x) {
                            Err(e) => {},
                            Ok(t) => {
                                assert((first + rest) + t =~= first + (rest + t));
                            },
                        }
                    },
                }
            },
        }
    }
}

/// A selector list whose prefix succeeds fails as a whole with the
/// first selector that fails.
pub proof fn lemma_select_indexes_err(items: Seq<Val>, indexes: Seq<IndexV>, j: int, e: ErrV)
    requires
        0 <= j < indexes.len(),
        spec_select_indexes(items, indexes.take(j)) is Ok,
        spec_select_one(items, indexes[j]) == Err::<Seq<Val>, ErrV>(e),
    ensures
        spec_select_indexes(items, indexes) == Err::<Seq<Val>, ErrV>(e),
    decreases j,
{
    if j == 0 {
    } else {
        let tj = indexes.take(j);
        assert(tj[0] == indexes[0]);
        assert(tj.skip(1) =~= indexes.skip(1).take(j - 1));
        assert(indexes.skip(1)[j - 1] == indexes[j]);
        lemma_select_indexes_err(items, indexes.skip(1), j - 1, e);
    }
}

/// Appending one name to a projection list selects the old list's
/// values followed by the new name's, with the same failures.
pub proof fn lemma_select_names_push(
    entries: Seq<(Seq<char>, Val)>,
    names: Seq<Seq<char>>,
    x: Seq<char>,
)
    ensures
        spec_select_names(entries, names.push(x)) == match spec_select_names(entries, names) {
            Err(e) => Err::<Seq<Val>, ErrV>(e),
            Ok(s) => match lookup(entries, x) {
                None => Err::<Seq<Val>, ErrV>(ErrV::KeyNotFound(x)),
                Some(v) => Ok::<Seq<Val>, ErrV>(s.push(v)),
            },
        },
    decreases names.len(),
{
    let p = names.push(x);
    if names.len() == 0 {
        assert(p[0] == x);
        assert(p.skip(1) =~= Seq::<Seq<char>>::empty());
        assert(spec_select_names(entries, p.skip(1)) == Ok::<Seq<Val>, ErrV>(
            Seq::<Val>::empty(),
        ));
        assert(spec_select_names(entries, names) == Ok::<Seq<Val>, ErrV>(
            Seq::<Val>::empty(),
        ));
        match lookup(entries, x) {
            None => {},
            Some(v) => {
                assert(seq![v] + Seq::<Val>::empty() =~= Seq::<Val>::empty().push(v));
            },
        }
    } else {
        lemma_select_names_push(entries, names.skip(1), x);
        assert(p[0] == names[0]);
        assert(p.skip(1) =~= names.skip(1).push(x));
        match lookup(entries, names[0]) {
            None => {},
            Some(v) => {
                match spec_select_names(entries, names.skip(1)) {
                    Err(e) => {},
                    Ok(rest) => {
                        match lookup(entries, x) {
                            None => {},
                            Some(w) => {
                                assert(seq![v] + rest.push(w) =~= (seq![v] + rest).push(w));
                            },
                        }
                    },
                }
            },
        }
    }
}

/// A projection list whose prefix succeeds fails as a whole with the
/// first name that is missing.
pub proof fn lemma_select_names_err(
    entries: Seq<(Seq<char>, Val)>,
    names: Seq<Seq<char>>,
    j: int,
)
    requires
        0 <= j < names.len(),
        spec_select_names(entries, names.take(j)) is Ok,
        lookup(entries, names[j]) is None,
    ensures
        spec_select_names(entries, names) == Err::<Seq<Val>, ErrV>(
            ErrV::KeyNotFound(names[j]),
        ),
    decreases j,
{
    if j == 0 {
    } else {
        let tj = names.take(j);
        assert(tj[0] == names[0]);
        assert(tj.skip(1) =~= names.skip(1).take(j - 1));
        assert(names.skip(1)[j - 1] == names[j]);
        lemma_select_names_err(entries, names.skip(1), j - 1);
    }
}

/// Look a key up in a table held as a vector of entries, scanning in
/// insertion order.
fn table_get<'a>(entries: &'a Vec<(String, Value)>, key: &String) -> (r: Option<&'a Value>)
    ensures
        match r {
            Some(v) => lookup(entries_of(entries@), key@) == Some(v@),
            None => lookup(entries_of(entries@), key@) is None,
        },
{
    proof {
        lemma_entries_of(entries@);
    }
    let ghost em = entries_of(entries@);
    proof {
        assert(em.skip(0) =~= em);
    }
    let n = entries.len();
    let mut j: usize = 0;
    while j < n
        invariant
            n == entries@.len(),
            em == entries_of(entries@),
            em.len() == n,
            forall|k: int| 0 <= k < n ==> #[trigger] em[k] == (entries@[k].0@, entries@[k].1@),
            j <= n,
            lookup(em, key@) == lookup(em.skip(j as int), key@),
        decreases n - j,
    {
        let e = &entries[j];
        proof {
            assert(em.skip(j as int)[0] == em[j as int]);
        }
        if e.0 == *key {
            return Some(&e.1);
        }
        proof {
            assert(em.skip(j as int).skip(1) =~= em.skip(j as int + 1));
        }
        j = j + 1;
    }
    proof {
        assert(em.skip(n as int) =~= Seq::<(Seq<char>, Val)>::empty());
    }
    None
}

/// Apply a parsed path to a document tree, consuming the operations
/// left to right and recursing on the remainder against each step's
/// result.  Returns a fresh subtree; the first failure aborts the whole
/// evaluation.
#[verifier::loop_isolation(false)]
pub fn traverse(value: &Value, path: &[Op]) -> (r: Result<Value, TraverseError>)
    requires
        path@.len() >= 1,
    ensures
        match r {
            Ok(out) => spec_traverse(value@, ops_view(path@)) == Ok::<Val, ErrV>(out@),
            Err(e) => spec_traverse(value@, ops_view(path@)) == Err::<Val, ErrV>(e@),
        },
    decreases path@.len(),
{
    let num_ops = path.len();
    let ghost pv = ops_view(path@);
    match value {
        Value::Array(array) => {
            proof {
                lemma_vals_of(array@);
            }
            let ghost items_m = vals_of(array@);
            match slice_index_get(path, 0) {
                Op::Dot => {
                    if num_ops == 1 {
                        Ok(dup(value))
                    } else {
                        let rest = slice_subrange(path, 1, num_ops);
                        proof {
                            assert(ops_view(rest@) =~= pv.skip(1));
                        }
                        traverse(value, rest)
                    }
                },
                Op::Name(_) => Err(TraverseError::TypeMismatch),
                Op::BracketIndex(indexes) => {
                    let ghost im = pv[0]->BracketIndex_0;
                    proof {
                        assert(pv[0] == path@[0]@);
                        assert(im.len() == indexes@.len());
                        assert(forall|k: int|
                            0 <= k < im.len() ==> #[trigger] im[k] == indexes@[k]@);
                    }
                    let num_items = array.len();
                    let mut filtered: Vec<Value> = Vec::new();
                    let mut i: usize = 0;
                    while i < indexes.len()
                        invariant
                            i <= indexes@.len(),
                            spec_select_indexes(items_m, im.take(i as int)) == Ok::<
                                Seq<Val>,
                                ErrV,
                            >(vals_of(filtered@)),
                        decreases indexes@.len() - i,
                    {
                        let idx = indexes[i];
                        match idx {
                            Index::Number(n) => {
                                match resolve_number(n, num_items) {
                                    Ok(ord) => {
                                        let ghost before = filtered@;
                                        let item = dup(&array[ord]);
                                        filtered.push(item);
                                        proof {
                                            lemma_vals_of_push(before, item);
                                            lemma_select_indexes_push(
                                                items_m,
                                                im.take(i as int),
                                                im[i as int],
                                            );
                                            assert(im.take(i as int).push(im[i as int]) =~= im.take(
                                                i as int + 1,
                                            ));
                                            assert(spec_select_one(items_m, im[i as int]) == Ok::<
                                                Seq<Val>,
                                                ErrV,
                                            >(seq![items_m[ord as int]]));
                                            assert(vals_of(before) + seq![items_m[ord as int]]
                                                =~= vals_of(before).push(item@));
                                        }
                                    },
                                    Err(e) => {
                                        proof {
                                            lemma_select_indexes_err(items_m, im, i as int, e@);
                                        }
                                        return Err(e);
                                    },
                                }
                            },
                            Index::Range(range) => {
                                match range.gen_range_indexes(num_items) {
                                    Ok(ords) => {
                                        let ghost os = spec_range_ordinals(
                                            range.start as int,
                                            range.end as int,
                                            num_items as int,
                                        )->Ok_0;
                                        let ghost sel = os.map(|_k: int, o: int| items_m[o]);
                                        let ghost base = vals_of(filtered@);
                                        let m = ords.len();
                                        let mut k: usize = 0;
                                        while k < m
                                            invariant
                                                m == ords@.len(),
                                                k <= m,
                                                vals_of(filtered@) == base + sel.take(k as int),
                                            decreases m - k,
                                        {
                                            let ghost before = filtered@;
                                            let ord = ords[k];
                                            let item = dup(&array[ord]);
                                            filtered.push(item);
                                            proof {
                                                lemma_vals_of_push(before, item);
                                                assert(sel[k as int] == items_m[ords@[k as int] as int]);
                                                assert(base + sel.take(k as int + 1) =~= (base
                                                    + sel.take(k as int)).push(item@));
                                            }
                                            k = k + 1;
                                        }
                                        proof {
                                            lemma_select_indexes_push(
                                                items_m,
                                                im.take(i as int),
                                                im[i as int],
                                            );
                                            assert(im.take(i as int).push(im[i as int]) =~= im.take(
                                                i as int + 1,
                                            ));
                                            assert(spec_select_one(items_m, im[i as int]) == Ok::<
                                                Seq<Val>,
                                                ErrV,
                                            >(sel));
                                            assert(sel.take(m as int) =~= sel);
                                            assert(vals_of(filtered@) == base + sel);
                                        }
                                    },
                                    Err(e) => {
                                        proof {
                                            lemma_select_indexes_err(items_m, im, i as int, e@);
                                        }
                                        return Err(e);
                                    },
                                }
                            },
                        }
                        i = i + 1;
                    }
                    proof {
                        assert(im.take(indexes@.len() as int) =~= im);
                    }
                    let subset = Value::Array(filtered);
                    if num_ops == 1 {
                        Ok(subset)
                    } else {
                        let rest = slice_subrange(path, 1, num_ops);
                        proof {
                            assert(ops_view(rest@) =~= pv.skip(1));
                        }
                        traverse(&subset, rest)
                    }
                },
                Op::BracketName(_) => Err(TraverseError::TypeMismatch),
            }
        },
        Value::Table(entries) => {
            proof {
                lemma_entries_of(entries@);
            }
            let ghost entries_m = entries_of(entries@);
            match slice_index_get(path, 0) {
                Op::Dot => {
                    if num_ops == 1 {
                        Ok(dup(value))
                    } else {
                        let rest = slice_subrange(path, 1, num_ops);
                        proof {
                            assert(ops_view(rest@) =~= pv.skip(1));
                        }
                        traverse(value, rest)
                    }
                },
                Op::Name(name) => {
                    match table_get(entries, name) {
                        None => Err(TraverseError::KeyNotFound(name.clone())),
                        Some(section) => {
                            if num_ops == 1 {
                                Ok(dup(section))
                            } else {
                                let rest = slice_subrange(path, 1, num_ops);
                                proof {
                                    assert(ops_view(rest@) =~= pv.skip(1));
                                }
                                traverse(section, rest)
                            }
                        },
                    }
                },
                Op::BracketIndex(_) => Err(TraverseError::TypeMismatch),
                Op::BracketName(names) => {
                    let ghost nm = pv[0]->BracketName_0;
                    proof {
                        assert(pv[0] == path@[0]@);
                        assert(nm.len() == names@.len());
                        assert(forall|k: int|
                            0 <= k < nm.len() ==> #[trigger] nm[k] == names@[k]@);
                    }
                    let mut filtered: Vec<Value> = Vec::new();
                    let mut i: usize = 0;
                    while i < names.len()
                        invariant
                            i <= names@.len(),
                            spec_select_names(entries_m, nm.take(i as int)) == Ok::<
                                Seq<Val>,
                                ErrV,
                            >(vals_of(filtered@)),
                        decreases names@.len() - i,
                    {
                        match table_get(entries, &names[i]) {
                            None => {
                                proof {
                                    lemma_select_names_err(entries_m, nm, i as int);
                                }
                                return Err(TraverseError::KeyNotFound(names[i].clone()));
                            },
                            Some(section) => {
                                let ghost before = filtered@;
                                let item = dup(section);
                                filtered.push(item);
                                proof {
                                    lemma_vals_of_push(before, item);
                                    lemma_select_names_push(
                                        entries_m,
                                        nm.take(i as int),
                                        nm[i as int],
                                    );
                                    assert(nm.take(i as int).push(nm[i as int]) =~= nm.take(
                                        i as int + 1,
                                    ));
                                }
                            },
                        }
                        i = i + 1;
                    }
                    proof {
                        assert(nm.take(names@.len() as int) =~= nm);
                    }
                    let subset = Value::Array(filtered);
                    if num_ops == 1 {
                        Ok(subset)
                    } else {
                        let rest = slice_subrange(path, 1, num_ops);
                        proof {
                            assert(ops_view(rest@) =~= pv.skip(1));
                        }
                        traverse(&subset, rest)
                    }
                },
            }
        },
        _ => {
            if num_ops > 1 {
                Err(TraverseError::LeafOverrun)
            } else {
                Ok(dup(value))
            }
        },
    }
}

/// Identity law: evaluating the one-operation path `.` against any
/// value returns that value unchanged.
pub proof fn lemma_dot_identity(v: Val)
    ensures
        spec_traverse(v, seq![OpV::Dot]) == Ok::<Val, ErrV>(v),
{
    let path = seq![OpV::Dot];
    assert(path.len() == 1);
    assert(path[0] == OpV::Dot);
}

/// Positive single-index law: selecting one in-range ordinal `i >= 1`
/// from an array yields the one-element array holding the element at
/// that ordinal.
pub proof fn lemma_single_index(items: Seq<Val>, i: int)
    requires
        1 <= i < items.len(),
    ensures
        spec_traverse(Val::Array(items), seq![OpV::BracketIndex(seq![IndexV::Number(i)])])
            == Ok::<Val, ErrV>(Val::Array(seq![items[i]])),
{
    let idxs = seq![IndexV::Number(i)];
    assert(idxs[0] == IndexV::Number(i));
    assert(idxs.skip(1) =~= Seq::<IndexV>::empty());
    assert(spec_select_indexes(items, idxs.skip(1)) == Ok::<Seq<Val>, ErrV>(
        Seq::<Val>::empty(),
    ));
    assert(spec_select_one(items, idxs[0]) == Ok::<Seq<Val>, ErrV>(seq![items[i]]));
    assert(seq![items[i]] + Seq::<Val>::empty() =~= seq![items[i]]);
    let path = seq![OpV::BracketIndex(idxs)];
    assert(path.len() == 1);
    assert(path[0] == OpV::BracketIndex(idxs));
}

/// A successful bracket name projection holds exactly the looked-up
/// values, in request order.
pub proof fn lemma_select_names_elems(
    entries: Seq<(Seq<char>, Val)>,
    names: Seq<Seq<char>>,
    sel: Seq<Val>,
)
    requires
        spec_select_names(entries, names) == Ok::<Seq<Val>, ErrV>(sel),
    ensures
        sel.len() == names.len(),
        forall|k: int| 0 <= k < names.len() ==> lookup(entries, #[trigger] names[k]) == Some(
            sel[k],
        ),
    decreases names.len(),
{
    if names.len() > 0 {
        match lookup(entries, names[0]) {
            None => {},
            Some(v) => {
                match spec_select_names(entries, names.skip(1)) {
                    Err(_) => {},
                    Ok(rest) => {
                        lemma_select_names_elems(entries, names.skip(1), rest);
                        assert(sel =~= seq![v] + rest);
                        assert forall|k: int| 0 <= k < names.len() implies lookup(
                            entries,
                            #[trigger] names[k],
                        ) == Some(sel[k]) by {
                            if k > 0 {
                                assert(names.skip(1)[k - 1] == names[k]);
                                assert(rest[k - 1] == sel[k]);
                            }
                        }
                    },
                }
            },
        }
    }
}

/// Projection law: a bracket name projection on a table yields an
/// array of the looked-up values in request order, and when the path
/// continues past it, traversal goes on against that array.
pub proof fn lemma_bracket_name_projection(
    entries: Seq<(Seq<char>, Val)>,
    names: Seq<Seq<char>>,
    path: Seq<OpV>,
    sel: Seq<Val>,
)
    requires
        path.len() >= 1,
        path[0] == OpV::BracketName(names),
        spec_select_names(entries, names) == Ok::<Seq<Val>, ErrV>(sel),
    ensures
        sel.len() == names.len(),
        forall|k: int| 0 <= k < names.len() ==> lookup(entries, #[trigger] names[k]) == Some(
            sel[k],
        ),
        spec_traverse(Val::Table(entries), path) == if path.len() == 1 {
            Ok::<Val, ErrV>(Val::Array(sel))
        } else {
            spec_traverse(Val::Array(sel), path.skip(1))
        },
{
    lemma_select_names_elems(entries, names, sel);
}

} // verus!
