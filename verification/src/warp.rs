use vstd::prelude::*;
use crate::error::TransformError;
use crate::resample::{dimensions_agree, projects, resample_into, resampled};
use crate::single::Single;

verus! {

/// The image of a pixel whose coordinates a transform has sent to `x` and
/// `y`: both rounded to the nearest integer, halves away from zero. The image
/// is undefined where either coordinate is a NaN or an infinity, or lies
/// `2^64` or more from zero, which is farther out than any grid reaches.
pub open spec fn rounded_image_spec(x: Single, y: Single) -> Option<(i128, i128)> {
    if x.nearest_spec() is Some && y.nearest_spec() is Some {
        Some((x.nearest_spec()->0, y.nearest_spec()->0))
    } else {
        None
    }
}

/// Rounds the coordinates that a transform gave a pixel to the pixel's image.
#[verifier::when_used_as_spec(rounded_image_spec)]
pub fn rounded_image(x: Single, y: Single) -> (at: Option<(i128, i128)>)
    ensures
        at == rounded_image_spec(x, y),
{
    match (x.nearest(), y.nearest()) {
        (Some(column), Some(row)) => Some((column, row)),
        _ => None,
    }
}

/// The images of the pixels whose coordinates a transform has sent to
/// `points`.
pub open spec fn rounded_images(points: Seq<(Single, Single)>) -> Seq<Option<(i128, i128)>> {
    Seq::new(points.len(), |i: int| rounded_image_spec(points[i].0, points[i].1))
}

/// Whether `points` records, for each destination pixel in row-major order,
/// a pair of coordinates that `transform` may return for that pixel's column
/// and row.
pub open spec fn maps<F: Fn(usize, usize) -> (Single, Single)>(
    transform: F,
    width: int,
    points: Seq<(Single, Single)>,
) -> bool {
    forall|i: int|
        0 <= i < points.len() ==> call_ensures(
            transform,
            ((i % width) as usize, (i / width) as usize),
            #[trigger] points[i],
        )
}

/// Whether `transform` can only send a pixel of the grid to coordinates that
/// round to the point `dx` columns to its right and `dy` rows below it.
pub open spec fn carries<F: Fn(usize, usize) -> (Single, Single)>(
    transform: F,
    size: (usize, usize),
    dx: int,
    dy: int,
) -> bool {
    forall|w: usize, h: usize, point: (Single, Single)|
        w < size.0 && h < size.1 && call_ensures(transform, (w, h), point) ==> rounded_image_spec(
            point.0,
            point.1,
        ) == Some(((w + dx) as i128, (h + dy) as i128))
}

/// Fills `buffer_out` with the resampling of `buffer_in` under `transform`.
///
/// The destination grid is walked row by row. For the pixel in column `w` of
/// row `h` the call `transform(w, h)` gives the coordinates to which the
/// transform sends the point `(w, h)`. They are rounded to the nearest cell,
/// halves away from zero, and the pixel receives that cell of the source. It
/// receives `zero` when the cell lies off the grid or a coordinate is not
/// finite.
///
/// Both buffers must hold `size.0 * size.1` elements. If they do not, the
/// call fails with `DimensionMismatch` before anything is written.
pub fn transform_buffer_into<T: Copy, F: Fn(usize, usize) -> (Single, Single)>(
    buffer_in: &[T],
    buffer_out: &mut [T],
    size: (usize, usize),
    transform: F,
    zero: T,
) -> (r: Result<(), TransformError>)
    requires
        forall|w: usize, h: usize| w < size.0 && h < size.1 ==> call_requires(transform, (w, h)),
    ensures
        r is Ok <==> dimensions_agree(
            buffer_in@.len() as int,
            old(buffer_out)@.len() as int,
            size.0 as int,
            size.1 as int,
        ),
        r is Ok ==> exists|points: Seq<(Single, Single)>|
            points.len() == buffer_in@.len() && maps(transform, size.0 as int, points)
                && final(buffer_out)@ == resampled(
                buffer_in@,
                rounded_images(points),
                size.0 as int,
                size.1 as int,
                zero,
            ),
        r is Ok && carries(transform, size, 0, 0) ==> final(buffer_out)@ == buffer_in@,
        r is Ok && carries(transform, size, size.0 as int, 0) ==> final(buffer_out)@ == Seq::new(
            buffer_in@.len(),
            |i: int| zero,
        ),
        r matches Err(e) ==> e == TransformError::DimensionMismatch && final(buffer_out)@ == old(
            buffer_out,
        )@,
{
    let borrowed = &transform;
    let project = |w: usize, h: usize| -> (at: Option<(i128, i128)>)
        requires
            call_requires(borrowed, (w, h)),
        ensures
            exists|point: (Single, Single)|
                call_ensures(borrowed, (w, h), point) && at == rounded_image_spec(
                    point.0,
                    point.1,
                ),
        {
            let (x, y) = borrowed(w, h);
            rounded_image(x, y)
        };
    let r = resample_into(buffer_in, buffer_out, size, project, zero);
    proof {
        if r is Ok {
            let width = size.0 as int;
            let images = choose|images: Seq<Option<(i128, i128)>>|
                images.len() == buffer_in@.len() && projects(project, width, images)
                    && buffer_out@ == resampled(buffer_in@, images, width, size.1 as int, zero);
            let points = Seq::new(
                images.len(),
                |i: int|
                    choose|point: (Single, Single)|
                        call_ensures(
                            transform,
                            ((i % width) as usize, (i / width) as usize),
                            point,
                        ) && images[i] == rounded_image_spec(point.0, point.1),
            );
            assert forall|i: int| 0 <= i < points.len() implies call_ensures(
                transform,
                ((i % width) as usize, (i / width) as usize),
                #[trigger] points[i],
            ) && images[i] == rounded_image_spec(points[i].0, points[i].1) by {
                assert(call_ensures(
                    project,
                    ((i % width) as usize, (i / width) as usize),
                    images[i],
                ));
            }
            assert(rounded_images(points) =~= images);
        }
    }
    r
}

/// Resamples `buffer_in` into a fresh buffer of the same length.
///
/// The result is what [`transform_buffer_into`] writes. The call fails with
/// `DimensionMismatch` exactly when `buffer_in` does not hold
/// `size.0 * size.1` elements.
pub fn transform_buffer<T: Copy, F: Fn(usize, usize) -> (Single, Single)>(
    buffer_in: &[T],
    size: (usize, usize),
    transform: F,
    zero: T,
) -> (r: Result<Vec<T>, TransformError>)
    requires
        forall|w: usize, h: usize| w < size.0 && h < size.1 ==> call_requires(transform, (w, h)),
    ensures
        r is Ok <==> buffer_in@.len() == size.0 * size.1,
        r matches Ok(buffer_out) ==> exists|points: Seq<(Single, Single)>|
            points.len() == buffer_in@.len() && maps(transform, size.0 as int, points)
                && buffer_out@ == resampled(
                buffer_in@,
                rounded_images(points),
                size.0 as int,
                size.1 as int,
                zero,
            ),
        r matches Ok(buffer_out) ==> (carries(transform, size, 0, 0) ==> buffer_out@
            == buffer_in@),
        r matches Ok(buffer_out) ==> (carries(transform, size, size.0 as int, 0) ==> buffer_out@
            == Seq::new(buffer_in@.len(), |i: int| zero)),
        r matches Err(e) ==> e == TransformError::DimensionMismatch,
{
    let mut buffer_out = vec![zero; buffer_in.len()];
    match transform_buffer_into(buffer_in, buffer_out.as_mut_slice(), size, transform, zero) {
        Ok(()) => Ok(buffer_out),
        Err(e) => Err(e),
    }
}

} // verus!
