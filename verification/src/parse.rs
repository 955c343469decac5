use vstd::prelude::*;
use vstd::string::StrSliceExecFns;
use crate::error::TomlPathError;
use crate::path::{Index, IndexV, Op, OpV, Range, TomlPath};

verus! {

// The grammar, over the character sequence of the path text:
//
//   path      := op+                      (the whole input, nothing left)
//   op        := "." | name | bracket
//   name      := alphanumeric+            (ascii letters and digits)
//   bracket   := "[" ws (index_list | name_list) ws "]"
//   index_list:= index (comma ws index)* (comma ws)?
//   index     := range | number           (range tried first)
//   range     := number ws ":" ws number
//   name_list := quoted (comma ws quoted)* (comma ws)?
//   quoted    := '"' name '"'
//   number    := "-"? digit+              (value must fit the machine)
//
// Alternatives commit in the listed order, as in the specification
// functions below: within one bracket the index list is attempted
// before the name list, and a range before a plain number.

/// An ascii decimal digit.
pub open spec fn is_digit(c: char) -> bool {
    '0' <= c && c <= '9'
}

/// An ascii letter or digit.
pub open spec fn is_alnum(c: char) -> bool {
    ('a' <= c && c <= 'z') || ('A' <= c && c <= 'Z') || is_digit(c)
}

/// The whitespace accepted inside brackets and around separators.
pub open spec fn is_space(c: char) -> bool {
    c == ' ' || c == '\t'
}

/// The first position at or after `i` holding no space.
pub open spec fn ws_end(s: Seq<char>, i: int) -> int
    decreases s.len() - i,
{
    if 0 <= i < s.len() && is_space(s[i]) {
        ws_end(s, i + 1)
    } else {
        i
    }
}

/// The first position at or after `i` holding no digit.
pub open spec fn digits_end(s: Seq<char>, i: int) -> int
    decreases s.len() - i,
{
    if 0 <= i < s.len() && is_digit(s[i]) {
        digits_end(s, i + 1)
    } else {
        i
    }
}

/// The first position at or after `i` holding no letter or digit.
pub open spec fn alnum_end(s: Seq<char>, i: int) -> int
    decreases s.len() - i,
{
    if 0 <= i < s.len() && is_alnum(s[i]) {
        alnum_end(s, i + 1)
    } else {
        i
    }
}

/// The value of the digits in `s[i..j)`, read in base ten.
pub open spec fn digits_val(s: Seq<char>, i: int, j: int) -> int
    decreases j - i,
{
    if i >= j {
        0
    } else {
        digits_val(s, i, j - 1) * 10 + (s[j - 1] as int - '0' as int)
    }
}

/// A signed number at `i`: an optional minus sign, one or more digits,
/// and a value that fits the machine's signed word; the parsed value
/// and the position after it.
pub open spec fn spec_number(s: Seq<char>, i: int) -> Option<(int, int)> {
    let neg = 0 <= i < s.len() && s[i] == '-';
    let d0 = if neg {
        i + 1
    } else {
        i
    };
    let j = digits_end(s, d0);
    if j == d0 {
        None
    } else {
        let mag = digits_val(s, d0, j);
        let v = if neg {
            -mag
        } else {
            mag
        };
        if isize::MIN as int <= v && v <= isize::MAX as int {
            Some((v, j))
        } else {
            None
        }
    }
}

/// A name at `i`: one or more letters or digits; the name and the
/// position after it.
pub open spec fn spec_name_str(s: Seq<char>, i: int) -> Option<(Seq<char>, int)> {
    let j = alnum_end(s, i);
    if j == i || !(0 <= i <= s.len()) {
        None
    } else {
        Some((s.subrange(i, j), j))
    }
}

/// A quoted name at `i`: a double quote, a name, a double quote.
pub open spec fn spec_quoted_name(s: Seq<char>, i: int) -> Option<(Seq<char>, int)> {
    if 0 <= i < s.len() && s[i] == '"' {
        match spec_name_str(s, i + 1) {
            None => None,
            Some((nm, j)) => if j < s.len() && s[j] == '"' {
                Some((nm, j + 1))
            } else {
                None
            },
        }
    } else {
        None
    }
}

/// A comma at `i`, with any spaces after it; the position after them.
pub open spec fn spec_comma_space(s: Seq<char>, i: int) -> Option<int> {
    if 0 <= i < s.len() && s[i] == ',' {
        Some(ws_end(s, i + 1))
    } else {
        None
    }
}

/// A colon at `i`, with any spaces around it; the position after them.
pub open spec fn spec_space_colon_space(s: Seq<char>, i: int) -> Option<int> {
    let a = ws_end(s, i);
    if 0 <= a < s.len() && s[a] == ':' {
        Some(ws_end(s, a + 1))
    } else {
        None
    }
}

/// A range at `i`: a number, a spaced colon, a number.
pub open spec fn spec_range(s: Seq<char>, i: int) -> Option<((int, int), int)> {
    match spec_number(s, i) {
        None => None,
        Some((start, j)) => match spec_space_colon_space(s, j) {
            None => None,
            Some(a) => match spec_number(s, a) {
                None => None,
                Some((end, k)) => Some(((start, end), k)),
            },
        },
    }
}

/// One bracket selector at `i`: a range if one parses, else a number.
pub open spec fn spec_index(s: Seq<char>, i: int) -> Option<(IndexV, int)> {
    match spec_range(s, i) {
        Some(((start, end), j)) => Some((IndexV::Range { start, end }, j)),
        None => match spec_number(s, i) {
            Some((n, j)) => Some((IndexV::Number(n), j)),
            None => None,
        },
    }
}

/// Further `comma ws index` repetitions from `i` on: the selectors
/// collected and the position after the last one taken.  A comma not
/// followed by a selector is left unconsumed.
pub open spec fn spec_index_list_rest(s: Seq<char>, i: int) -> (Seq<IndexV>, int)
    decreases s.len() - i,
{
    match spec_comma_space(s, i) {
        None => (Seq::empty(), i),
        Some(a) => match spec_index(s, a) {
            None => (Seq::empty(), i),
            Some((x, b)) => if i < b && b <= s.len() {
                let rest = spec_index_list_rest(s, b);
                (seq![x] + rest.0, rest.1)
            } else {
                (Seq::empty(), i)
            },
        },
    }
}

/// A non-empty comma-separated index list at `i`, tolerating one
/// trailing comma with spaces.
pub open spec fn spec_bracket_index_list(s: Seq<char>, i: int) -> Option<(OpV, int)> {
    match spec_index(s, i) {
        None => None,
        Some((x, j)) => {
            let rest = spec_index_list_rest(s, j);
            let k = match spec_comma_space(s, rest.1) {
                Some(a) => a,
                None => rest.1,
            };
            Some((OpV::BracketIndex(seq![x] + rest.0), k))
        },
    }
}

/// Further `comma ws quoted` repetitions from `i` on, as for index
/// lists.
pub open spec fn spec_name_list_rest(s: Seq<char>, i: int) -> (Seq<Seq<char>>, int)
    decreases s.len() - i,
{
    match spec_comma_space(s, i) {
        None => (Seq::empty(), i),
        Some(a) => match spec_quoted_name(s, a) {
            None => (Seq::empty(), i),
            Some((x, b)) => if i < b && b <= s.len() {
                let rest = spec_name_list_rest(s, b);
                (seq![x] + rest.0, rest.1)
            } else {
                (Seq::empty(), i)
            },
        },
    }
}

/// A non-empty comma-separated quoted-name list at `i`, tolerating one
/// trailing comma with spaces.
pub open spec fn spec_bracket_name_list(s: Seq<char>, i: int) -> Option<(OpV, int)> {
    match spec_quoted_name(s, i) {
        None => None,
        Some((x, j)) => {
            let rest = spec_name_list_rest(s, j);
            let k = match spec_comma_space(s, rest.1) {
                Some(a) => a,
                None => rest.1,
            };
            Some((OpV::BracketName(seq![x] + rest.0), k))
        },
    }
}

/// The closing half of a bracket: any spaces, then `]`; the position
/// after it.
pub open spec fn spec_close_bracket(s: Seq<char>, i: int) -> Option<int> {
    let a = ws_end(s, i);
    if 0 <= a < s.len() && s[a] == ']' {
        Some(a + 1)
    } else {
        None
    }
}

/// A bracket at `i`: `[`, spaces, an index list if one parses there,
/// else a name list, then spaces and `]`.  The two list forms cannot
/// mix: once the index list succeeds the name list is never tried.
pub open spec fn spec_bracket(s: Seq<char>, i: int) -> Option<(OpV, int)> {
    if 0 <= i < s.len() && s[i] == '[' {
        let a = ws_end(s, i + 1);
        match spec_bracket_index_list(s, a) {
            Some((op, j)) => match spec_close_bracket(s, j) {
                Some(c) => Some((op, c)),
                None => None,
            },
            None => match spec_bracket_name_list(s, a) {
                Some((op, j)) => match spec_close_bracket(s, j) {
                    Some(c) => Some((op, c)),
                    None => None,
                },
                None => None,
            },
        }
    } else {
        None
    }
}

/// One path operation at `i`: a dot, a name, or a bracket, tried in
/// that order.
pub open spec fn spec_op(s: Seq<char>, i: int) -> Option<(OpV, int)> {
    if 0 <= i < s.len() && s[i] == '.' {
        Some((OpV::Dot, i + 1))
    } else {
        match spec_name_str(s, i) {
            Some((nm, j)) => Some((OpV::Name(nm), j)),
            None => spec_bracket(s, i),
        }
    }
}

/// Further operations from `i` on, as many as parse; the operations
/// collected and the position after the last one.
pub open spec fn spec_ops_rest(s: Seq<char>, i: int) -> (Seq<OpV>, int)
    decreases s.len() - i,
{
    match spec_op(s, i) {
        None => (Seq::empty(), i),
        Some((x, j)) => if i < j && j <= s.len() {
            let rest = spec_ops_rest(s, j);
            (seq![x] + rest.0, rest.1)
        } else {
            (Seq::empty(), i)
        },
    }
}

/// One or more operations at `i`: the operations collected and the
/// position after them.
pub open spec fn spec_path_parts(s: Seq<char>, i: int) -> Option<(Seq<OpV>, int)> {
    match spec_op(s, i) {
        None => None,
        Some((x, j)) => {
            let rest = spec_ops_rest(s, j);
            Some((seq![x] + rest.0, rest.1))
        },
    }
}

/// The parse of a whole path text: its operations when the text is one
/// or more operations and nothing else, and no parse otherwise.
pub open spec fn spec_toml_path(s: Seq<char>) -> Option<Seq<OpV>> {
    match spec_path_parts(s, 0) {
        None => None,
        Some((ops, k)) => if k == s.len() {
            Some(ops)
        } else {
            None
        },
    }
}

/// Models of a sequence of bracket selectors, in order.
pub open spec fn idxs_view(list: Seq<Index>) -> Seq<IndexV> {
    Seq::new(list.len(), |i: int| list[i]@)
}

/// Models of a sequence of names, in order.
pub open spec fn names_view(list: Seq<String>) -> Seq<Seq<char>> {
    Seq::new(list.len(), |i: int| list[i]@)
}

/// Whether the character at `j` is a digit.
fn digit_at(s: &str, j: usize) -> (b: bool)
    requires
        j < s@.len(),
    ensures
        b == is_digit(s@[j as int]),
{
    let u = s.get_char(j) as u32;
    48 <= u && u <= 57
}

/// Whether the character at `j` is a letter or digit.
fn alnum_at(s: &str, j: usize) -> (b: bool)
    requires
        j < s@.len(),
    ensures
        b == is_alnum(s@[j as int]),
{
    let u = s.get_char(j) as u32;
    (97 <= u && u <= 122) || (65 <= u && u <= 90) || (48 <= u && u <= 57)
}

/// Whether the character at `j` is accepted whitespace.
fn space_at(s: &str, j: usize) -> (b: bool)
    requires
        j < s@.len(),
    ensures
        b == is_space(s@[j as int]),
{
    let c = s.get_char(j);
    c == ' ' || c == '\t'
}

/// Whether the character at `j` is exactly `c`.
fn char_at(s: &str, j: usize, c: char) -> (b: bool)
    requires
        j < s@.len(),
    ensures
        b == (s@[j as int] == c),
{
    s.get_char(j) == c
}

/// Skip any spaces from `pos` on.
#[verifier::loop_isolation(false)]
fn ws(s: &str, pos: usize) -> (r: usize)
    requires
        pos <= s@.len(),
    ensures
        r as int == ws_end(s@, pos as int),
        pos <= r <= s@.len(),
{
    let n = s.unicode_len();
    let mut j = pos;
    while j < n && space_at(s, j)
        invariant
            pos <= j <= n,
            ws_end(s@, pos as int) == ws_end(s@, j as int),
        decreases n - j,
    {
        j = j + 1;
    }
    j
}

/// Parse a signed number at `pos`.
#[verifier::loop_isolation(false)]
pub fn number(s: &str, pos: usize) -> (r: Option<(isize, usize)>)
    requires
        pos <= s@.len(),
    ensures
        match r {
            Some((v, j)) => spec_number(s@, pos as int) == Some((v as int, j as int)) && pos < j
                <= s@.len(),
            None => spec_number(s@, pos as int) is None,
        },
{
    let n = s.unicode_len();
    let neg = pos < n && char_at(s, pos, '-');
    let d0 = if neg {
        pos + 1
    } else {
        pos
    };
    let mut j = d0;
    while j < n && digit_at(s, j)
        invariant
            d0 <= j <= n,
            digits_end(s@, d0 as int) == digits_end(s@, j as int),
            forall|m: int| d0 <= m < j ==> is_digit(#[trigger] s@[m]),
        decreases n - j,
    {
        j = j + 1;
    }
    if j == d0 {
        return None;
    }
    let bound: i128 = (isize::MAX as i128) + 1;
    let mut mag: i128 = 0;
    let mut over = false;
    let mut k = d0;
    while k < j
        invariant
            d0 <= k <= j,
            !over ==> mag as int == digits_val(s@, d0 as int, k as int) && 0 <= mag <= bound,
            over ==> digits_val(s@, d0 as int, k as int) > bound as int,
        decreases j - k,
    {
        let u = s.get_char(k) as u32;
        let d: i128 = (u - 48) as i128;
        proof {
            assert(is_digit(s@[k as int]));
            assert(d as int == s@[k as int] as int - '0' as int);
        }
        if !over {
            mag = mag * 10 + d;
            if mag > bound {
                over = true;
            }
        }
        k = k + 1;
        proof {
            assert(digits_val(s@, d0 as int, k as int) == digits_val(s@, d0 as int, k as int - 1)
                * 10 + (s@[k as int - 1] as int - '0' as int));
        }
    }
    if over {
        return None;
    }
    if neg {
        let v: i128 = -mag;
        proof {
            assert(isize::MIN as int == -(isize::MAX as int) - 1);
        }
        if v < isize::MIN as i128 {
            return None;
        }
        Some((v as isize, j))
    } else {
        if mag > isize::MAX as i128 {
            return None;
        }
        Some((mag as isize, j))
    }
}

/// Parse a name at `pos`.
#[verifier::loop_isolation(false)]
pub fn name_str(s: &str, pos: usize) -> (r: Option<(String, usize)>)
    requires
        pos <= s@.len(),
    ensures
        match r {
            Some((nm, j)) => spec_name_str(s@, pos as int) == Some((nm@, j as int)) && pos < j
                <= s@.len(),
            None => spec_name_str(s@, pos as int) is None,
        },
{
    let n = s.unicode_len();
    let mut j = pos;
    while j < n && alnum_at(s, j)
        invariant
            pos <= j <= n,
            alnum_end(s@, pos as int) == alnum_end(s@, j as int),
        decreases n - j,
    {
        j = j + 1;
    }
    if j == pos {
        return None;
    }
    let piece = s.substring_char(pos, j);
    Some((piece.to_owned(), j))
}

/// Parse a quoted name at `pos`.
pub fn quoted_name(s: &str, pos: usize) -> (r: Option<(String, usize)>)
    requires
        pos <= s@.len(),
    ensures
        match r {
            Some((nm, j)) => spec_quoted_name(s@, pos as int) == Some((nm@, j as int)) && pos < j
                <= s@.len(),
            None => spec_quoted_name(s@, pos as int) is None,
        },
{
    let n = s.unicode_len();
    if pos < n && char_at(s, pos, '"') {
        match name_str(s, pos + 1) {
            None => None,
            Some((nm, j)) => {
                if j < n && char_at(s, j, '"') {
                    Some((nm, j + 1))
                } else {
                    None
                }
            },
        }
    } else {
        None
    }
}

/// Parse a comma with trailing spaces at `pos`.
pub fn comma_space(s: &str, pos: usize) -> (r: Option<usize>)
    requires
        pos <= s@.len(),
    ensures
        match r {
            Some(a) => spec_comma_space(s@, pos as int) == Some(a as int) && pos < a <= s@.len(),
            None => spec_comma_space(s@, pos as int) is None,
        },
{
    let n = s.unicode_len();
    if pos < n && char_at(s, pos, ',') {
        Some(ws(s, pos + 1))
    } else {
        None
    }
}

/// Parse a colon with surrounding spaces at `pos`.
pub fn space_colon_space(s: &str, pos: usize) -> (r: Option<usize>)
    requires
        pos <= s@.len(),
    ensures
        match r {
            Some(a) => spec_space_colon_space(s@, pos as int) == Some(a as int) && pos < a
                <= s@.len(),
            None => spec_space_colon_space(s@, pos as int) is None,
        },
{
    let n = s.unicode_len();
    let a = ws(s, pos);
    if a < n && char_at(s, a, ':') {
        Some(ws(s, a + 1))
    } else {
        None
    }
}

/// Parse a range at `pos`.
pub fn range(s: &str, pos: usize) -> (r: Option<(Range, usize)>)
    requires
        pos <= s@.len(),
    ensures
        match r {
            Some((rg, j)) => spec_range(s@, pos as int) == Some(
                ((rg.start as int, rg.end as int), j as int),
            ) && pos < j <= s@.len(),
            None => spec_range(s@, pos as int) is None,
        },
{
    match number(s, pos) {
        None => None,
        Some((start, j)) => match space_colon_space(s, j) {
            None => None,
            Some(a) => match number(s, a) {
                None => None,
                Some((end, k)) => Some((Range { start, end }, k)),
            },
        },
    }
}

/// Parse a bracket selector at `pos` as a range.
pub fn index_range(s: &str, pos: usize) -> (r: Option<(Index, usize)>)
    requires
        pos <= s@.len(),
    ensures
        match r {
            Some((x, j)) => spec_range(s@, pos as int) matches Some((se, sj)) && x@
                == IndexV::Range { start: se.0, end: se.1 } && sj == j as int && pos < j
                <= s@.len(),
            None => spec_range(s@, pos as int) is None,
        },
{
    match range(s, pos) {
        None => None,
        Some((rg, j)) => Some((Index::Range(rg), j)),
    }
}

/// Parse a bracket selector at `pos` as a plain number.
pub fn index_number(s: &str, pos: usize) -> (r: Option<(Index, usize)>)
    requires
        pos <= s@.len(),
    ensures
        match r {
            Some((x, j)) => spec_number(s@, pos as int) matches Some((sv, sj)) && x@
                == IndexV::Number(sv) && sj == j as int && pos < j <= s@.len(),
            None => spec_number(s@, pos as int) is None,
        },
{
    match number(s, pos) {
        None => None,
        Some((v, j)) => Some((Index::Number(v), j)),
    }
}

/// Parse one bracket selector at `pos`: a range if one parses, else a
/// number.
pub fn index(s: &str, pos: usize) -> (r: Option<(Index, usize)>)
    requires
        pos <= s@.len(),
    ensures
        match r {
            Some((x, j)) => spec_index(s@, pos as int) == Some((x@, j as int)) && pos < j
                <= s@.len(),
            None => spec_index(s@, pos as int) is None,
        },
{
    match index_range(s, pos) {
        Some((x, j)) => Some((x, j)),
        None => match index_number(s, pos) {
            Some((x, j)) => Some((x, j)),
            None => None,
        },
    }
}

/// Parse further `comma ws index` repetitions from `pos` on.
fn index_list_rest(s: &str, pos: usize) -> (r: (Vec<Index>, usize))
    requires
        pos <= s@.len(),
    ensures
        ({
            let sp = spec_index_list_rest(s@, pos as int);
            idxs_view(r.0@) == sp.0 && r.1 as int == sp.1 && pos <= r.1 <= s@.len()
        }),
    decreases s@.len() - pos,
{
    match comma_space(s, pos) {
        None => {
            proof {
                assert(idxs_view(Seq::<Index>::empty()) =~= Seq::<IndexV>::empty());
            }
            (Vec::new(), pos)
        },
        Some(a) => match index(s, a) {
            None => {
                proof {
                    assert(idxs_view(Seq::<Index>::empty()) =~= Seq::<IndexV>::empty());
                }
                (Vec::new(), pos)
            },
            Some((x, b)) => {
                let rest = index_list_rest(s, b);
                let mut out: Vec<Index> = Vec::new();
                out.push(x);
                let mut tail = rest.0;
                out.append(&mut tail);
                proof {
                    assert(idxs_view(out@) =~= seq![x@] + spec_index_list_rest(s@, b as int).0);
                }
                (out, rest.1)
            },
        },
    }
}

/// Parse a non-empty index list at `pos`, tolerating one trailing
/// comma.
pub fn bracket_index_list(s: &str, pos: usize) -> (r: Option<(Op, usize)>)
    requires
        pos <= s@.len(),
    ensures
        match r {
            Some((op, j)) => spec_bracket_index_list(s@, pos as int) == Some((op@, j as int))
                && pos < j <= s@.len(),
            None => spec_bracket_index_list(s@, pos as int) is None,
        },
{
    match index(s, pos) {
        None => None,
        Some((x, j)) => {
            let rest = index_list_rest(s, j);
            let k = match comma_space(s, rest.1) {
                Some(a) => a,
                None => rest.1,
            };
            let mut list: Vec<Index> = Vec::new();
            list.push(x);
            let mut tail = rest.0;
            list.append(&mut tail);
            let op = Op::BracketIndex(list);
            proof {
                assert(op@ matches OpV::BracketIndex(v) && v =~= seq![x@]
                    + spec_index_list_rest(s@, j as int).0);
            }
            Some((op, k))
        },
    }
}

/// Parse further `comma ws quoted` repetitions from `pos` on.
fn name_list_rest(s: &str, pos: usize) -> (r: (Vec<String>, usize))
    requires
        pos <= s@.len(),
    ensures
        ({
            let sp = spec_name_list_rest(s@, pos as int);
            names_view(r.0@) == sp.0 && r.1 as int == sp.1 && pos <= r.1 <= s@.len()
        }),
    decreases s@.len() - pos,
{
    match comma_space(s, pos) {
        None => {
            proof {
                assert(names_view(Seq::<String>::empty()) =~= Seq::<Seq<char>>::empty());
            }
            (Vec::new(), pos)
        },
        Some(a) => match quoted_name(s, a) {
            None => {
                proof {
                    assert(names_view(Seq::<String>::empty()) =~= Seq::<Seq<char>>::empty());
                }
                (Vec::new(), pos)
            },
            Some((x, b)) => {
                let ghost xv = x@;
                let rest = name_list_rest(s, b);
                let mut out: Vec<String> = Vec::new();
                out.push(x);
                let mut tail = rest.0;
                out.append(&mut tail);
                proof {
                    assert(names_view(out@) =~= seq![xv] + spec_name_list_rest(s@, b as int).0);
                }
                (out, rest.1)
            },
        },
    }
}

/// Parse a non-empty quoted-name list at `pos`, tolerating one
/// trailing comma.
pub fn bracket_name_list(s: &str, pos: usize) -> (r: Option<(Op, usize)>)
    requires
        pos <= s@.len(),
    ensures
        match r {
            Some((op, j)) => spec_bracket_name_list(s@, pos as int) == Some((op@, j as int))
                && pos < j <= s@.len(),
            None => spec_bracket_name_list(s@, pos as int) is None,
        },
{
    match quoted_name(s, pos) {
        None => None,
        Some((x, j)) => {
            let ghost xv = x@;
            let rest = name_list_rest(s, j);
            let k = match comma_space(s, rest.1) {
                Some(a) => a,
                None => rest.1,
            };
            let mut list: Vec<String> = Vec::new();
            list.push(x);
            let mut tail = rest.0;
            list.append(&mut tail);
            let op = Op::BracketName(list);
            proof {
                assert(op@ matches OpV::BracketName(v) && v =~= seq![xv]
                    + spec_name_list_rest(s@, j as int).0);
            }
            Some((op, k))
        },
    }
}

/// Parse the opening half of a bracket at `pos`: `[` and any spaces.
pub fn open_bracket_space(s: &str, pos: usize) -> (r: Option<usize>)
    requires
        pos <= s@.len(),
    ensures
        match r {
            Some(a) => s@[pos as int] == '[' && pos < s@.len() && a as int == ws_end(
                s@,
                pos as int + 1,
            ) && pos < a <= s@.len(),
            None => !(pos < s@.len() && s@[pos as int] == '['),
        },
{
    let n = s.unicode_len();
    if pos < n && char_at(s, pos, '[') {
        Some(ws(s, pos + 1))
    } else {
        None
    }
}

/// Parse the closing half of a bracket at `pos`: any spaces and `]`.
pub fn close_bracket_space(s: &str, pos: usize) -> (r: Option<usize>)
    requires
        pos <= s@.len(),
    ensures
        match r {
            Some(c) => spec_close_bracket(s@, pos as int) == Some(c as int) && pos < c
                <= s@.len(),
            None => spec_close_bracket(s@, pos as int) is None,
        },
{
    let n = s.unicode_len();
    let a = ws(s, pos);
    if a < n && char_at(s, a, ']') {
        Some(a + 1)
    } else {
        None
    }
}

/// Parse a whole bracket at `pos`.
pub fn bracket(s: &str, pos: usize) -> (r: Option<(Op, usize)>)
    requires
        pos <= s@.len(),
    ensures
        match r {
            Some((op, j)) => spec_bracket(s@, pos as int) == Some((op@, j as int)) && pos < j
                <= s@.len(),
            None => spec_bracket(s@, pos as int) is None,
        },
{
    match open_bracket_space(s, pos) {
        None => None,
        Some(a) => {
            match bracket_index_list(s, a) {
                Some((op, j)) => match close_bracket_space(s, j) {
                    Some(c) => Some((op, c)),
                    None => None,
                },
                None => match bracket_name_list(s, a) {
                    Some((op, j)) => match close_bracket_space(s, j) {
                        Some(c) => Some((op, c)),
                        None => None,
                    },
                    None => None,
                },
            }
        },
    }
}

/// Parse one path operation at `pos`: a dot, a name, or a bracket.
pub fn op(s: &str, pos: usize) -> (r: Option<(Op, usize)>)
    requires
        pos <= s@.len(),
    ensures
        match r {
            Some((x, j)) => spec_op(s@, pos as int) == Some((x@, j as int)) && pos < j
                <= s@.len(),
            None => spec_op(s@, pos as int) is None,
        },
{
    let n = s.unicode_len();
    if pos < n && char_at(s, pos, '.') {
        Some((Op::Dot, pos + 1))
    } else {
        match name_str(s, pos) {
            Some((nm, j)) => Some((Op::Name(nm), j)),
            None => bracket(s, pos),
        }
    }
}

/// Parse further operations from `pos` on, as many as parse.
fn ops_rest(s: &str, pos: usize) -> (r: (Vec<Op>, usize))
    requires
        pos <= s@.len(),
    ensures
        ({
            let sp = spec_ops_rest(s@, pos as int);
            crate::path::ops_view(r.0@) == sp.0 && r.1 as int == sp.1 && pos <= r.1 <= s@.len()
        }),
    decreases s@.len() - pos,
{
    match op(s, pos) {
        None => {
            proof {
                assert(crate::path::ops_view(Seq::<Op>::empty()) =~= Seq::<OpV>::empty());
            }
            (Vec::new(), pos)
        },
        Some((x, j)) => {
            let ghost xv = x@;
            let rest = ops_rest(s, j);
            let mut out: Vec<Op> = Vec::new();
            out.push(x);
            let mut tail = rest.0;
            out.append(&mut tail);
            proof {
                assert(crate::path::ops_view(out@) =~= seq![xv] + spec_ops_rest(s@, j as int).0);
            }
            (out, rest.1)
        },
    }
}

/// Parse one or more operations at `pos`.
pub fn path_parts(s: &str, pos: usize) -> (r: Option<(Vec<Op>, usize)>)
    requires
        pos <= s@.len(),
    ensures
        match r {
            Some((ops, j)) => spec_path_parts(s@, pos as int) matches Some((sv, sj))
                && crate::path::ops_view(ops@) == sv && sj == j as int && pos < j <= s@.len()
                && ops@.len() >= 1,
            None => spec_path_parts(s@, pos as int) is None,
        },
{
    match op(s, pos) {
        None => None,
        Some((x, j)) => {
            let ghost xv = x@;
            let rest = ops_rest(s, j);
            let mut out: Vec<Op> = Vec::new();
            out.push(x);
            let mut tail = rest.0;
            out.append(&mut tail);
            proof {
                assert(crate::path::ops_view(out@) =~= seq![xv] + spec_ops_rest(s@, j as int).0);
            }
            Some((out, rest.1))
        },
    }
}

/// Parse a whole path text starting at `pos`: the parsed path and the
/// position after it.
pub fn toml_path(s: &str, pos: usize) -> (r: Option<(TomlPath, usize)>)
    requires
        pos <= s@.len(),
    ensures
        match r {
            Some((p, j)) => spec_path_parts(s@, pos as int) matches Some((sv, sj)) && p@ == sv
                && sj == j as int && pos < j <= s@.len() && p.parts@.len() >= 1,
            None => spec_path_parts(s@, pos as int) is None,
        },
{
    match path_parts(s, pos) {
        None => None,
        Some((parts, j)) => Some((TomlPath { parts }, j)),
    }
}

impl TomlPath {
    /// Parse a whole path text: every character must belong to the
    /// path, and a path holds at least one operation; any other input
    /// is one parse failure.
    pub fn parse(s: &str) -> (r: Result<TomlPath, TomlPathError>)
        ensures
            match r {
                Ok(p) => spec_toml_path(s@) == Some(p@) && p.parts@.len() >= 1,
                Err(e) => spec_toml_path(s@) is None && e == TomlPathError::UnableToParse,
            },
    {
        let n = s.unicode_len();
        match toml_path(s, 0) {
            Some((p, j)) => {
                if j == n {
                    Ok(p)
                } else {
                    Err(TomlPathError::UnableToParse)
                }
            },
            None => Err(TomlPathError::UnableToParse),
        }
    }
}

impl core::str::FromStr for TomlPath {
    type Err = TomlPathError;

    fn from_str(s: &str) -> Result<TomlPath, TomlPathError> {
        TomlPath::parse(s)
    }
}

} // verus!
