use vstd::prelude::*;
use crate::settings::Settings;
use crate::value::{entries_of, lemma_entries_of, vals_of, lemma_vals_of, Val, Value};

verus! {

/// The digit character for one decimal digit value.
pub open spec fn digit_char(d: int) -> char {
    if d == 0 {
        '0'
    } else if d == 1 {
        '1'
    } else if d == 2 {
        '2'
    } else if d == 3 {
        '3'
    } else if d == 4 {
        '4'
    } else if d == 5 {
        '5'
    } else if d == 6 {
        '6'
    } else if d == 7 {
        '7'
    } else if d == 8 {
        '8'
    } else {
        '9'
    }
}

/// The decimal digits of a non-negative integer, most significant
/// first.
pub open spec fn spec_dec_digits(n: nat) -> Seq<char>
    decreases n,
{
    if n < 10 {
        seq![digit_char(n as int)]
    } else {
        proof {
            assert(n / 10 < n) by (nonlinear_arith)
                requires
                    n >= 10,
            ;
        }
        spec_dec_digits(n / 10).push(digit_char((n % 10) as int))
    }
}

/// The canonical decimal text of an integer: a minus sign for negative
/// values, then the digits without leading zeroes.
pub open spec fn spec_int_str(i: int) -> Seq<char> {
    if i < 0 {
        "-"@ + spec_dec_digits((-i) as nat)
    } else {
        spec_dec_digits(i as nat)
    }
}

/// The canonical text of a boolean.
pub open spec fn spec_bool_str(b: bool) -> Seq<char> {
    if b {
        "true"@
    } else {
        "false"@
    }
}

/// How one string renders: verbatim under raw output, otherwise
/// wrapped in literal double quotes with no escaping of embedded
/// characters.
pub open spec fn spec_format_string(s: Seq<char>, raw: bool) -> Seq<char> {
    if raw {
        s
    } else {
        "\""@ + s + "\""@
    }
}

/// The depth passed to a child node: the depth below, saturating at
/// the level where pretty table formatting has already collapsed to
/// the flat form.
pub open spec fn next_level(level: int) -> int {
    if level < 2 {
        level + 1
    } else {
        2
    }
}

/// How a whole node renders under the given settings at the given
/// depth.
pub open spec fn spec_format(v: Val, st: Settings, level: int) -> Seq<char>
    decreases v, 0int,
{
    match v {
        Val::Str(s) => spec_format_string(s, st.raw_output),
        Val::Int(i) => spec_int_str(i),
        Val::Float(f) => f,
        Val::Bool(b) => spec_bool_str(b),
        Val::Datetime(d) => d,
        Val::Array(items) => {
            proof {
                assert(decreases_to!(v => v->Array_0));
            }
            if items.len() == 0 {
                "[]"@
            } else {
                "["@ + spec_format_items(items, st, next_level(level)) + "]"@
            }
        },
        Val::Table(entries) => {
            proof {
                assert(decreases_to!(v => v->Table_0));
            }
            if st.compact_output || st.json_output {
                spec_flat_table(entries, st, level)
            } else if level == 0 {
                spec_pretty_lines(entries, st, level)
            } else if level == 1 {
                spec_list_lines(entries, st, level)
            } else {
                spec_flat_table(entries, st, level)
            }
        },
    }
}

/// How the elements of an array render, joined by a comma and the
/// spacing; each element renders at the given depth.
pub open spec fn spec_format_items(items: Seq<Val>, st: Settings, level: int) -> Seq<char>
    decreases items, 1int,
{
    if items.len() == 0 {
        Seq::empty()
    } else {
        proof {
            assert(decreases_to!(items => items[0]));
            assert(decreases_to!(items => items.subrange(1, items.len() as int)));
        }
        if items.len() == 1 {
            spec_format(items[0], st, level)
        } else {
            spec_format(items[0], st, level) + ","@ + st.spacing@ + spec_format_items(
                items.skip(1),
                st,
                level,
            )
        }
    }
}

/// How one key/value entry renders in the flat brace form: the key as
/// a string, the separator, then the value one level deeper.
pub open spec fn spec_format_flat_kv(k: Seq<char>, v: Val, st: Settings, level: int) -> Seq<char>
    decreases v, 1int,
{
    spec_format_string(k, st.raw_output) + st.separator@ + spec_format(v, st, next_level(level))
}

/// How the entries of a table render inside braces, joined by a comma
/// and the spacing.
pub open spec fn spec_flat_kvs(
    entries: Seq<(Seq<char>, Val)>,
    st: Settings,
    level: int,
) -> Seq<char>
    decreases entries, 2int,
{
    if entries.len() == 0 {
        Seq::empty()
    } else {
        proof {
            assert(decreases_to!(entries => entries[0]));
            assert(decreases_to!(entries[0] => entries[0].1));
            assert(decreases_to!(entries => entries.subrange(1, entries.len() as int)));
        }
        if entries.len() == 1 {
            spec_format_flat_kv(entries[0].0, entries[0].1, st, level)
        } else {
            spec_format_flat_kv(entries[0].0, entries[0].1, st, level) + ","@ + st.spacing@
                + spec_flat_kvs(entries.skip(1), st, level)
        }
    }
}

/// The flat brace form of a table, used at any depth under compact or
/// json output and beyond the two pretty levels otherwise.
pub open spec fn spec_flat_table(
    entries: Seq<(Seq<char>, Val)>,
    st: Settings,
    level: int,
) -> Seq<char>
    decreases entries, 3int,
{
    if entries.len() == 0 {
        "{}"@
    } else {
        "{"@ + spec_flat_kvs(entries, st, level) + "}"@
    }
}

/// The depth-one form of a table: one `key = value` line per entry, in
/// insertion order, each value one level deeper.
pub open spec fn spec_list_lines(entries: Seq<(Seq<char>, Val)>, st: Settings, level: int) -> Seq<
    char,
>
    decreases entries, 2int,
{
    if entries.len() == 0 {
        Seq::empty()
    } else {
        proof {
            assert(decreases_to!(entries => entries[0]));
            assert(decreases_to!(entries[0] => entries[0].1));
            assert(decreases_to!(entries => entries.subrange(1, entries.len() as int)));
        }
        spec_format_string(entries[0].0, st.raw_output) + st.separator@ + spec_format(
            entries[0].1,
            st,
            next_level(level),
        ) + "\n"@ + spec_list_lines(entries.skip(1), st, level)
    }
}

/// The top-level form of a table: a `[key]` header line per entry, in
/// insertion order, each value rendered beneath it one level deeper.
pub open spec fn spec_pretty_lines(entries: Seq<(Seq<char>, Val)>, st: Settings, level: int) -> Seq<
    char,
>
    decreases entries, 2int,
{
    if entries.len() == 0 {
        Seq::empty()
    } else {
        proof {
            assert(decreases_to!(entries => entries[0]));
            assert(decreases_to!(entries[0] => entries[0].1));
            assert(decreases_to!(entries => entries.subrange(1, entries.len() as int)));
        }
        "["@ + spec_format_string(entries[0].0, st.raw_output) + "]"@ + "\n"@ + spec_format(
            entries[0].1,
            st,
            next_level(level),
        ) + "\n"@ + spec_pretty_lines(entries.skip(1), st, level)
    }
}

/// The digit as a one-character string.
fn digit_str(d: u64) -> (r: &'static str)
    requires
        d < 10,
    ensures
        r@ == seq![digit_char(d as int)],
{
    proof {
        reveal_strlit("0");
        reveal_strlit("1");
        reveal_strlit("2");
        reveal_strlit("3");
        reveal_strlit("4");
        reveal_strlit("5");
        reveal_strlit("6");
        reveal_strlit("7");
        reveal_strlit("8");
        reveal_strlit("9");
    }
    let r = if d == 0 {
        "0"
    } else if d == 1 {
        "1"
    } else if d == 2 {
        "2"
    } else if d == 3 {
        "3"
    } else if d == 4 {
        "4"
    } else if d == 5 {
        "5"
    } else if d == 6 {
        "6"
    } else if d == 7 {
        "7"
    } else if d == 8 {
        "8"
    } else {
        "9"
    };
    proof {
        assert(r@ =~= seq![digit_char(d as int)]);
    }
    r
}

/// The decimal digits of a non-negative value, most significant first.
fn u64_dec(m: u64) -> (r: String)
    ensures
        r@ == spec_dec_digits(m as nat),
    decreases m,
{
    if m < 10 {
        let mut s = String::new();
        s.append(digit_str(m));
        proof {
            assert(s@ =~= seq![digit_char(m as int)]);
        }
        s
    } else {
        proof {
            assert(m / 10 < m) by (nonlinear_arith)
                requires
                    m >= 10,
            ;
        }
        let mut s = u64_dec(m / 10);
        s.append(digit_str(m % 10));
        proof {
            assert(s@ =~= spec_dec_digits((m / 10) as nat).push(digit_char((m % 10) as int)));
        }
        s
    }
}

/// The canonical decimal text of a signed integer.
fn i64_to_string(n: i64) -> (r: String)
    ensures
        r@ == spec_int_str(n as int),
{
    if n >= 0 {
        u64_dec(n as u64)
    } else {
        let mag: u64 = (-(n as i128)) as u64;
        proof {
            assert(mag as int == -(n as int));
        }
        let mut s = String::from_str("-");
        let digits = u64_dec(mag);
        s.append(digits.as_str());
        s
    }
}

/// The canonical text of a boolean.
fn bool_to_string(b: bool) -> (r: String)
    ensures
        r@ == spec_bool_str(b),
{
    if b {
        String::from_str("true")
    } else {
        String::from_str("false")
    }
}

/// Render one string: verbatim under raw output, otherwise wrapped in
/// literal double quotes without escaping.
fn format_string(s: &str, settings: &Settings) -> (r: String)
    ensures
        r@ == spec_format_string(s@, settings.raw_output),
{
    if settings.raw_output {
        s.to_owned()
    } else {
        let mut out = String::from_str("\"");
        out.append(s);
        out.append("\"");
        out
    }
}

/// Render one key/value entry in the flat brace form.
fn format_flat_kv(key: &str, value: &Value, settings: &Settings, level: usize) -> (r: String)
    ensures
        r@ == spec_format_flat_kv(key@, value@, *settings, level as int),
    decreases value, 1int, 0int,
{
    let mut out = format_string(key, settings);
    out.append(settings.separator.as_str());
    let next: usize = if level < 2 {
        level + 1
    } else {
        2
    };
    let rendered = format_rec(value, settings, next);
    out.append(rendered.as_str());
    out
}

/// Render the entries of a table from position `i` on, joined by a
/// comma and the spacing.
fn flat_kvs(table: &Vec<(String, Value)>, settings: &Settings, level: usize, i: usize) -> (r:
    String)
    requires
        i < table@.len(),
    ensures
        r@ == spec_flat_kvs(entries_of(table@).skip(i as int), *settings, level as int),
    decreases table, 0int, table@.len() - i,
{
    proof {
        lemma_entries_of(table@);
        assert(entries_of(table@).skip(i as int)[0] == entries_of(table@)[i as int]);
        assert(decreases_to!(*table => table@));
        assert(decreases_to!(table@ => table@[i as int]));
        assert(decreases_to!(table@[i as int] => table@[i as int].1));
    }
    let e = &table[i];
    let kv = format_flat_kv(e.0.as_str(), &e.1, settings, level);
    if i == table.len() - 1 {
        proof {
            assert(entries_of(table@).skip(i as int).len() == 1);
        }
        kv
    } else {
        let mut out = kv;
        out.append(",");
        out.append(settings.spacing.as_str());
        let rest = flat_kvs(table, settings, level, i + 1);
        out.append(rest.as_str());
        proof {
            assert(entries_of(table@).skip(i as int).skip(1) =~= entries_of(table@).skip(
                i as int + 1,
            ));
        }
        out
    }
}

/// The flat brace form of a table.
fn flat_format_table(table: &Vec<(String, Value)>, settings: &Settings, level: usize) -> (r:
    String)
    ensures
        r@ == spec_flat_table(entries_of(table@), *settings, level as int),
    decreases table, 1int, 0int,
{
    proof {
        lemma_entries_of(table@);
    }
    if table.len() == 0 {
        String::from_str("{}")
    } else {
        let mut out = String::from_str("{");
        let kvs = flat_kvs(table, settings, level, 0);
        out.append(kvs.as_str());
        out.append("}");
        proof {
            assert(entries_of(table@).skip(0) =~= entries_of(table@));
        }
        out
    }
}

/// The `key = value` lines of a table from position `i` on.
fn list_lines(table: &Vec<(String, Value)>, settings: &Settings, level: usize, i: usize) -> (r:
    String)
    requires
        i <= table@.len(),
    ensures
        r@ == spec_list_lines(entries_of(table@).skip(i as int), *settings, level as int),
    decreases table, 0int, table@.len() - i,
{
    proof {
        lemma_entries_of(table@);
    }
    if i == table.len() {
        proof {
            assert(entries_of(table@).skip(i as int) =~= Seq::<(Seq<char>, Val)>::empty());
        }
        String::new()
    } else {
        proof {
            assert(entries_of(table@).skip(i as int)[0] == entries_of(table@)[i as int]);
            assert(decreases_to!(*table => table@));
            assert(decreases_to!(table@ => table@[i as int]));
            assert(decreases_to!(table@[i as int] => table@[i as int].1));
        }
        let e = &table[i];
        let mut out = format_string(e.0.as_str(), settings);
        out.append(settings.separator.as_str());
        let next: usize = if level < 2 {
            level + 1
        } else {
            2
        };
        let rendered = format_rec(&e.1, settings, next);
        out.append(rendered.as_str());
        out.append("\n");
        let rest = list_lines(table, settings, level, i + 1);
        out.append(rest.as_str());
        proof {
            assert(entries_of(table@).skip(i as int).skip(1) =~= entries_of(table@).skip(
                i as int + 1,
            ));
        }
        out
    }
}

/// One `key = value` line per entry, in insertion order.
fn list_format_table(table: &Vec<(String, Value)>, settings: &Settings, level: usize) -> (r:
    String)
    ensures
        r@ == spec_list_lines(entries_of(table@), *settings, level as int),
    decreases table, 1int, 0int,
{
    let out = list_lines(table, settings, level, 0);
    proof {
        assert(entries_of(table@).skip(0) =~= entries_of(table@));
    }
    out
}

/// The `[key]` header lines of a table from position `i` on.
fn pretty_lines(table: &Vec<(String, Value)>, settings: &Settings, level: usize, i: usize) -> (r:
    String)
    requires
        i <= table@.len(),
    ensures
        r@ == spec_pretty_lines(entries_of(table@).skip(i as int), *settings, level as int),
    decreases table, 0int, table@.len() - i,
{
    proof {
        lemma_entries_of(table@);
    }
    if i == table.len() {
        proof {
            assert(entries_of(table@).skip(i as int) =~= Seq::<(Seq<char>, Val)>::empty());
        }
        String::new()
    } else {
        proof {
            assert(entries_of(table@).skip(i as int)[0] == entries_of(table@)[i as int]);
            assert(decreases_to!(*table => table@));
            assert(decreases_to!(table@ => table@[i as int]));
            assert(decreases_to!(table@[i as int] => table@[i as int].1));
        }
        let e = &table[i];
        let mut out = String::from_str("[");
        let title = format_string(e.0.as_str(), settings);
        out.append(title.as_str());
        out.append("]");
        out.append("\n");
        let next: usize = if level < 2 {
            level + 1
        } else {
            2
        };
        let rendered = format_rec(&e.1, settings, next);
        out.append(rendered.as_str());
        out.append("\n");
        let rest = pretty_lines(table, settings, level, i + 1);
        out.append(rest.as_str());
        proof {
            assert(entries_of(table@).skip(i as int).skip(1) =~= entries_of(table@).skip(
                i as int + 1,
            ));
        }
        out
    }
}

/// A `[key]` header per entry, each value rendered beneath it.
fn pretty_format_table(table: &Vec<(String, Value)>, settings: &Settings, level: usize) -> (r:
    String)
    ensures
        r@ == spec_pretty_lines(entries_of(table@), *settings, level as int),
    decreases table, 1int, 0int,
{
    let out = pretty_lines(table, settings, level, 0);
    proof {
        assert(entries_of(table@).skip(0) =~= entries_of(table@));
    }
    out
}

/// The elements of an array from position `i` on, joined by a comma
/// and the spacing.
fn format_items(array: &Vec<Value>, settings: &Settings, level: usize, i: usize) -> (r: String)
    requires
        i < array@.len(),
    ensures
        r@ == spec_format_items(vals_of(array@).skip(i as int), *settings, level as int),
    decreases array, 0int, array@.len() - i,
{
    proof {
        lemma_vals_of(array@);
        assert(vals_of(array@).skip(i as int)[0] == vals_of(array@)[i as int]);
        assert(decreases_to!(*array => array@));
        assert(decreases_to!(array@ => array@[i as int]));
    }
    let rendered = format_rec(&array[i], settings, level);
    if i == array.len() - 1 {
        proof {
            assert(vals_of(array@).skip(i as int).len() == 1);
        }
        rendered
    } else {
        let mut out = rendered;
        out.append(",");
        out.append(settings.spacing.as_str());
        let rest = format_items(array, settings, level, i + 1);
        out.append(rest.as_str());
        proof {
            assert(vals_of(array@).skip(i as int).skip(1) =~= vals_of(array@).skip(i as int + 1));
        }
        out
    }
}

/// Render one node at the given depth.
fn format_rec(value: &Value, settings: &Settings, level: usize) -> (r: String)
    ensures
        r@ == spec_format(value@, *settings, level as int),
    decreases value, 0int, 0int,
{
    match value {
        Value::Str(s) => format_string(s.as_str(), settings),
        Value::Int(i) => i64_to_string(*i),
        Value::Float(f) => f.clone(),
        Value::Bool(b) => bool_to_string(*b),
        Value::Datetime(d) => d.clone(),
        Value::Array(array) => {
            proof {
                lemma_vals_of(array@);
                assert(decreases_to!(*value => value->Array_0));
            }
            if array.len() == 0 {
                String::from_str("[]")
            } else {
                let next: usize = if level < 2 {
                    level + 1
                } else {
                    2
                };
                let mut out = String::from_str("[");
                let items = format_items(array, settings, next, 0);
                out.append(items.as_str());
                out.append("]");
                proof {
                    assert(vals_of(array@).skip(0) =~= vals_of(array@));
                }
                out
            }
        },
        Value::Table(table) => {
            proof {
                assert(decreases_to!(*value => value->Table_0));
            }
            if settings.compact_output || settings.json_output {
                flat_format_table(table, settings, level)
            } else if level == 0 {
                pretty_format_table(table, settings, level)
            } else if level == 1 {
                list_format_table(table, settings, level)
            } else {
                flat_format_table(table, settings, level)
            }
        },
    }
}

/// Render a whole result tree under the given settings, starting at
/// the top depth.
pub fn format_value(value: &Value, settings: &Settings) -> (r: String)
    ensures
        r@ == spec_format(value@, *settings, 0),
{
    format_rec(value, settings, 0)
}

} // verus!
