use vstd::prelude::*;
use crate::error::TransformError;
use crate::single::Single;

verus! {

/// Whether every entry of a matrix, given column by column, is finite.
pub open spec fn all_finite(entries: Seq<Single>) -> bool {
    forall|i: int| 0 <= i < entries.len() ==> (#[trigger] entries[i]).finite()
}

/// Decides whether `candidate`, the sixteen entries of what an inversion
/// routine returned for a 4x4 matrix, can be used as an inverse.
///
/// Inverting a matrix whose determinant is zero, or so close to zero that its
/// reciprocal overflows, leaves infinities or NaNs among the entries. Such a
/// candidate is refused with `NotInvertible`; any other is handed back
/// unchanged.
pub fn checked_inverse(candidate: [Single; 16]) -> (r: Result<[Single; 16], TransformError>)
    ensures
        r is Ok <==> all_finite(candidate@),
        r matches Ok(inverse) ==> inverse == candidate,
        r matches Err(e) ==> e == TransformError::NotInvertible,
{
    let mut i: usize = 0;
    while i < 16
        invariant
            i <= 16,
            forall|j: int| 0 <= j < i ==> (#[trigger] candidate@[j]).finite(),
        decreases 16 - i,
    {
        if !candidate[i].is_finite() {
            return Err(TransformError::NotInvertible);
        }
        i += 1;
    }
    Ok(candidate)
}

} // verus!
