use vstd::prelude::*;

verus! {

/// Range between two signed offsets.  Negative offsets index from the
/// end of the addressed sequence, where `-1` is the final item.
#[derive(Debug, Eq, PartialEq, Clone, Copy)]
pub struct Range {
    pub start: isize,
    pub end: isize,
}

impl Range {
    /// Create a new Range from start and end offsets.
    pub fn new(start: isize, end: isize) -> (r: Range)
        ensures
            r.start == start,
            r.end == end,
    {
        Range { start, end }
    }
}

/// A single selector inside a bracketed index list: one offset, or a
/// contiguous range of offsets.
#[derive(Debug, Eq, PartialEq, Clone, Copy)]
pub enum Index {
    Number(isize),
    Range(Range),
}

/// Model of an `Index`: offsets as unbounded integers.
pub enum IndexV {
    Number(int),
    Range { start: int, end: int },
}

impl View for Index {
    type V = IndexV;

    open spec fn view(&self) -> IndexV {
        match self {
            Index::Number(n) => IndexV::Number(*n as int),
            Index::Range(r) => IndexV::Range { start: r.start as int, end: r.end as int },
        }
    }
}

/// One traversal step of a path: advance in place, look one name up,
/// select ordinals from an array, or project several names out of a
/// table.
#[derive(Debug, Eq, PartialEq, Clone)]
pub enum Op {
    /// "."
    Dot,
    /// Alphanumeric identifier
    Name(String),
    /// List of offsets and/or offset ranges, as in `[1, 2:4, 5]`
    BracketIndex(Vec<Index>),
    /// List of quoted identifiers, as in `["foo", "bar"]`
    BracketName(Vec<String>),
}

/// Model of an `Op`: names as character sequences, lists as sequences.
#[verifier::ext_equal]
pub enum OpV {
    Dot,
    Name(Seq<char>),
    BracketIndex(Seq<IndexV>),
    BracketName(Seq<Seq<char>>),
}

impl View for Op {
    type V = OpV;

    open spec fn view(&self) -> OpV {
        match self {
            Op::Dot => OpV::Dot,
            Op::Name(s) => OpV::Name(s@),
            Op::BracketIndex(list) => OpV::BracketIndex(
                Seq::new(list@.len(), |i: int| list@[i]@),
            ),
            Op::BracketName(names) => OpV::BracketName(
                Seq::new(names@.len(), |i: int| names@[i]@),
            ),
        }
    }
}

/// Models of a sequence of operations, in order.
pub open spec fn ops_view(ops: Seq<Op>) -> Seq<OpV> {
    Seq::new(ops.len(), |i: int| ops[i]@)
}

/// A parsed path: an ordered, non-empty sequence of operations,
/// consumed left to right by the evaluator.
#[derive(Debug, Eq, PartialEq, Clone)]
pub struct TomlPath {
    pub parts: Vec<Op>,
}

impl View for TomlPath {
    type V = Seq<OpV>;

    open spec fn view(&self) -> Seq<OpV> {
        ops_view(self.parts@)
    }
}

impl TomlPath {
    /// The operations of this path, in order.
    pub fn parts(&self) -> (r: &[Op])
        ensures
            r@ == self.parts@,
    {
        self.parts.as_slice()
    }
}

} // verus!
