use vstd::prelude::*;
use crate::error::{ErrV, TraverseError};
use crate::path::Range;

verus! {

/// The ordinal a single signed offset resolves to against a sequence of
/// the given length: an offset below one counts from the end, so the
/// result may fall outside `[0, length)` and is then rejected by
/// `spec_resolve_number`.
pub open spec fn spec_number_ordinal(n: int, length: int) -> int {
    if n < 1 {
        length + n
    } else {
        n
    }
}

/// Resolution of one offset: the ordinal when it lies inside
/// `[0, length)`, otherwise an out-of-range failure naming the ordinal
/// and the length.
pub open spec fn spec_resolve_number(n: int, length: int) -> Result<int, ErrV> {
    let ordinal = spec_number_ordinal(n, length);
    if 0 <= ordinal < length {
        Ok(ordinal)
    } else {
        Err(ErrV::IndexOutOfRange { ordinal, length })
    }
}

/// Resolution of a range against a sequence of the given length.
///
/// Negative bounds count from the end.  The upper bound is exclusive in
/// every case but one: with a non-negative start and a negative end the
/// converted end is inclusive.  A converted bound below zero is an
/// out-of-range failure; an upper bound before the lower bound is an
/// inverted-range failure; a non-empty span reaching past the end fails
/// at its first ordinal outside the sequence.
pub open spec fn spec_range_ordinals(start: int, end: int, length: int) -> Result<Seq<int>, ErrV> {
    let lo = if start < 0 { length + start } else { start };
    let ce = if end < 0 { length + end } else { end };
    let hi = if start >= 0 && end < 0 { ce + 1 } else { ce };
    if lo < 0 {
        Err(ErrV::IndexOutOfRange { ordinal: lo, length })
    } else if ce < 0 {
        Err(ErrV::IndexOutOfRange { ordinal: ce, length })
    } else if ce < lo {
        Err(ErrV::InvertedRange { start, end })
    } else if hi > lo && hi > length {
        Err(ErrV::IndexOutOfRange { ordinal: if lo >= length { lo } else { length }, length })
    } else {
        Ok(Seq::new((hi - lo) as nat, |k: int| lo + k))
    }
}

/// Resolve one signed offset against a sequence of `length` items.
/// Offsets below one count from the end, so zero addresses the ordinal
/// equal to the length, which is always out of range.
pub fn resolve_number(n: isize, length: usize) -> (r: Result<usize, TraverseError>)
    ensures
        match r {
            Ok(ordinal) => spec_resolve_number(n as int, length as int) == Ok::<int, ErrV>(
                ordinal as int,
            ),
            Err(e) => spec_resolve_number(n as int, length as int) == Err::<int, ErrV>(e@),
        },
{
    let li: i128 = length as i128;
    let ni: i128 = n as i128;
    let ordinal: i128 = if n < 1 {
        li + ni
    } else {
        ni
    };
    if 0 <= ordinal && ordinal < li {
        Ok(ordinal as usize)
    } else {
        Err(TraverseError::IndexOutOfRange { ordinal, length })
    }
}

impl Range {
    /// All ordinals this range selects from a sequence of `length`
    /// items, in ascending order.  The length is needed to convert the
    /// negative offsets, which count from the end.
    pub fn gen_range_indexes(&self, length: usize) -> (r: Result<Vec<usize>, TraverseError>)
        ensures
            match r {
                Ok(v) => spec_range_ordinals(self.start as int, self.end as int, length as int)
                    matches Ok(s) && v@.len() == s.len() && (forall|k: int|
                    0 <= k < s.len() ==> v@[k] as int == #[trigger] s[k]) && (forall|k: int|
                    0 <= k < v@.len() ==> #[trigger] v@[k] < length),
                Err(e) => spec_range_ordinals(self.start as int, self.end as int, length as int)
                    == Err::<Seq<int>, ErrV>(e@),
            },
    {
        let li: i128 = length as i128;
        let s: i128 = self.start as i128;
        let e: i128 = self.end as i128;
        let lo: i128 = if s < 0 { li + s } else { s };
        let ce: i128 = if e < 0 { li + e } else { e };
        let hi: i128 = if s >= 0 && e < 0 { ce + 1 } else { ce };
        if lo < 0 {
            return Err(TraverseError::IndexOutOfRange { ordinal: lo, length });
        }
        if ce < 0 {
            return Err(TraverseError::IndexOutOfRange { ordinal: ce, length });
        }
        if ce < lo {
            return Err(TraverseError::InvertedRange { start: self.start, end: self.end });
        }
        if hi > lo && hi > li {
            let ordinal: i128 = if lo >= li { lo } else { li };
            return Err(TraverseError::IndexOutOfRange { ordinal, length });
        }
        let mut indexes: Vec<usize> = Vec::new();
        let mut n: i128 = lo;
        while n < hi
            invariant
                lo <= n <= hi || (hi <= lo && n == lo),
                0 <= lo,
                hi > lo ==> hi <= li,
                li == length as int,
                indexes@.len() == n - lo,
                forall|k: int| 0 <= k < indexes@.len() ==> indexes@[k] as int == lo + k,
                forall|k: int| 0 <= k < indexes@.len() ==> #[trigger] indexes@[k] < length,
            decreases hi - n,
        {
            indexes.push(n as usize);
            n = n + 1;
        }
        Ok(indexes)
    }
}

} // verus!
