use vstd::prelude::*;
use crate::error::TransformError;
use crate::grid::{cell_index, lemma_cell_index_bound, lemma_pixel_of_index, on_grid};
use crate::laws::{lemma_identity, lemma_shift_by_width_clears};

verus! {

/// Whether the image `at` of a pixel is defined and lies on the grid.
pub open spec fn lands(at: Option<(i128, i128)>, width: int, height: int) -> bool {
    at matches Some((x, y)) && on_grid(x as int, y as int, width, height)
}

/// The row-major index of the source cell at the image `at`, for an image
/// that lands.
pub open spec fn landing_index(at: Option<(i128, i128)>, width: int) -> int {
    let point = at->0;
    cell_index(point.0 as int, point.1 as int, width)
}

/// The value that a destination pixel takes when its image is `at`: the
/// source cell at that point if the point lies on the grid, `zero` if it lies
/// off the grid or is undefined.
pub open spec fn sample<T>(
    source: Seq<T>,
    width: int,
    height: int,
    at: Option<(i128, i128)>,
    zero: T,
) -> T {
    if lands(at, width, height) {
        source[landing_index(at, width)]
    } else {
        zero
    }
}

/// The destination buffer that results from `source` when destination pixel
/// `i` has the image `images[i]`.
pub open spec fn resampled<T>(
    source: Seq<T>,
    images: Seq<Option<(i128, i128)>>,
    width: int,
    height: int,
    zero: T,
) -> Seq<T> {
    Seq::new(images.len(), |i: int| sample(source, width, height, images[i], zero))
}

/// Whether both buffers hold exactly one element per cell of the grid.
pub open spec fn dimensions_agree(
    source_len: int,
    destination_len: int,
    width: int,
    height: int,
) -> bool {
    source_len == width * height && destination_len == width * height
}

/// Whether `images` records, for each destination pixel in row-major order,
/// a value that `project` may return for that pixel's column and row.
pub open spec fn projects<F: Fn(usize, usize) -> Option<(i128, i128)>>(
    project: F,
    width: int,
    images: Seq<Option<(i128, i128)>>,
) -> bool {
    forall|i: int|
        0 <= i < images.len() ==> call_ensures(
            project,
            ((i % width) as usize, (i / width) as usize),
            #[trigger] images[i],
        )
}

/// Whether `project` can only send a pixel of the grid to the point `dx`
/// columns to its right and `dy` rows below it.
pub open spec fn translates<F: Fn(usize, usize) -> Option<(i128, i128)>>(
    project: F,
    size: (usize, usize),
    dx: int,
    dy: int,
) -> bool {
    forall|w: usize, h: usize, at: Option<(i128, i128)>|
        w < size.0 && h < size.1 && call_ensures(project, (w, h), at) ==> at == Some(
            ((w + dx) as i128, (h + dy) as i128),
        )
}

/// Images that `project` may return are the translated pixels wherever
/// `project` translates.
proof fn lemma_translated_images<F: Fn(usize, usize) -> Option<(i128, i128)>>(
    project: F,
    images: Seq<Option<(i128, i128)>>,
    size: (usize, usize),
    dx: int,
    dy: int,
)
    requires
        images.len() == size.0 * size.1,
        projects(project, size.0 as int, images),
        translates(project, size, dx, dy),
    ensures
        forall|i: int|
            0 <= i < images.len() ==> #[trigger] images[i] == Some(
                ((i % (size.0 as int) + dx) as i128, (i / (size.0 as int) + dy) as i128),
            ),
{
    assert forall|i: int| 0 <= i < images.len() implies #[trigger] images[i] == Some(
        ((i % (size.0 as int) + dx) as i128, (i / (size.0 as int) + dy) as i128),
    ) by {
        lemma_pixel_of_index(i, size.0 as int, size.1 as int);
    }
}

/// Samples `source` at the image of one destination pixel.
fn sample_at<T: Copy>(
    source: &[T],
    width: usize,
    height: usize,
    at: Option<(i128, i128)>,
    zero: T,
) -> (value: T)
    requires
        source@.len() == width * height,
    ensures
        value == sample(source@, width as int, height as int, at, zero),
{
    assert(source@.len() == source.len());
    match at {
        Some((x, y)) => {
            if 0 <= x && x < width as i128 && 0 <= y && y < height as i128 {
                let column: usize = x as usize;
                let row: usize = y as usize;
                proof {
                    lemma_cell_index_bound(column as int, row as int, width as int, height as int);
                }
                source[row * width + column]
            } else {
                zero
            }
        },
        None => zero,
    }
}

/// Fills `buffer_out` with the resampling of `buffer_in` under a map that is
/// given in whole cells.
///
/// The destination grid is walked row by row. For the pixel in column `w` of
/// row `h` the call `project(w, h)` gives the pixel's image in the source
/// grid, or `None` where the image is undefined. The pixel receives the
/// source cell at that image, or `zero` when the image is undefined or lies
/// off the grid.
///
/// Both buffers must hold `size.0 * size.1` elements. If they do not, the
/// call fails with `DimensionMismatch` before anything is written.
pub fn resample_into<T: Copy, F: Fn(usize, usize) -> Option<(i128, i128)>>(
    buffer_in: &[T],
    buffer_out: &mut [T],
    size: (usize, usize),
    project: F,
    zero: T,
) -> (r: Result<(), TransformError>)
    requires
        forall|w: usize, h: usize| w < size.0 && h < size.1 ==> call_requires(project, (w, h)),
    ensures
        r is Ok <==> dimensions_agree(
            buffer_in@.len() as int,
            old(buffer_out)@.len() as int,
            size.0 as int,
            size.1 as int,
        ),
        r is Ok ==> exists|images: Seq<Option<(i128, i128)>>|
            images.len() == buffer_in@.len() && projects(project, size.0 as int, images)
                && final(buffer_out)@ == resampled(
                buffer_in@,
                images,
                size.0 as int,
                size.1 as int,
                zero,
            ),
        r is Ok && translates(project, size, 0, 0) ==> final(buffer_out)@ == buffer_in@,
        r is Ok && translates(project, size, size.0 as int, 0) ==> final(buffer_out)@ == Seq::new(
            buffer_in@.len(),
            |i: int| zero,
        ),
        r matches Err(e) ==> e == TransformError::DimensionMismatch && final(buffer_out)@ == old(
            buffer_out,
        )@,
{
    let (width, height) = size;
    let agree = match width.checked_mul(height) {
        Some(cells) => cells == buffer_in.len() && cells == buffer_out.len(),
        None => false,
    };
    if !agree {
        assert(buffer_in@.len() == buffer_in.len());
        return Err(TransformError::DimensionMismatch);
    }
    let ghost mut images: Seq<Option<(i128, i128)>> = Seq::empty();
    let mut h: usize = 0;
    while h < height
        invariant
            h <= height,
            buffer_in@.len() == width * height,
            buffer_out@.len() == width * height,
            width * height <= usize::MAX,
            images.len() == h * width,
            images.len() <= width * height,
            projects(project, width as int, images),
            forall|i: int|
                0 <= i < images.len() ==> buffer_out@[i] == sample(
                    buffer_in@,
                    width as int,
                    height as int,
                    #[trigger] images[i],
                    zero,
                ),
            forall|w: usize, h: usize| w < width && h < height ==> call_requires(project, (w, h)),
        decreases height - h,
    {
        let mut w: usize = 0;
        while w < width
            invariant
                h < height,
                w <= width,
                buffer_in@.len() == width * height,
                buffer_out@.len() == width * height,
                width * height <= usize::MAX,
                images.len() == h * width + w,
                images.len() <= width * height,
                projects(project, width as int, images),
                forall|i: int|
                    0 <= i < images.len() ==> buffer_out@[i] == sample(
                        buffer_in@,
                        width as int,
                        height as int,
                        #[trigger] images[i],
                        zero,
                    ),
                forall|w: usize, h: usize|
                    w < width && h < height ==> call_requires(project, (w, h)),
            decreases width - w,
        {
            proof {
                lemma_cell_index_bound(w as int, h as int, width as int, height as int);
            }
            let i: usize = h * width + w;
            let at = project(w, h);
            let value = sample_at(buffer_in, width, height, at, zero);
            buffer_out[i] = value;
            proof {
                images = images.push(at);
            }
            w += 1;
        }
        proof {
            assert(h * width + width == (h + 1) * width) by (nonlinear_arith);
            assert((h + 1) * width <= width * height) by (nonlinear_arith)
                requires
                    h < height,
            ;
        }
        h += 1;
    }
    proof {
        assert(height * width == width * height) by (nonlinear_arith);
        assert(buffer_out@ =~= resampled(buffer_in@, images, width as int, height as int, zero));
        if translates(project, size, 0, 0) {
            lemma_translated_images(project, images, size, 0, 0);
            lemma_identity(buffer_in@, images, size, zero);
        }
        if translates(project, size, width as int, 0) {
            lemma_translated_images(project, images, size, width as int, 0);
            lemma_shift_by_width_clears(buffer_in@, images, size, zero);
        }
    }
    Ok(())
}

} // verus!
