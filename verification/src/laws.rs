use vstd::prelude::*;
use crate::grid::{lemma_cell_index_bound, lemma_pixel_of_index};
use crate::resample::{landing_index, lands, resampled, sample};
use crate::rounding::{is_whole, lemma_whole_rounds_to_itself};
use crate::single::Single;
use crate::warp::carries;

verus! {

/// A transform that sends every pixel of the grid to the whole numbers `dx`
/// columns to its right and `dy` rows below it carries the grid by
/// `(dx, dy)`: rounding leaves such coordinates as they are. With
/// `dx = dy = 0` this is the identity transform on a grid whose columns and
/// rows all have a single-precision number of their own.
pub proof fn lemma_whole_translation_carries<F: Fn(usize, usize) -> (Single, Single)>(
    transform: F,
    size: (usize, usize),
    dx: int,
    dy: int,
)
    requires
        -0x1_0000_0000_0000_0000 < dx && dx + size.0 <= 0x1_0000_0000_0000_0000,
        -0x1_0000_0000_0000_0000 < dy && dy + size.1 <= 0x1_0000_0000_0000_0000,
        forall|w: usize, h: usize, point: (Single, Single)|
            w < size.0 && h < size.1 && call_ensures(transform, (w, h), point) ==> is_whole(
                point.0,
                w + dx,
            ) && is_whole(point.1, h + dy),
    ensures
        carries(transform, size, dx, dy),
{
    assert forall|w: usize, h: usize, point: (Single, Single)|
        w < size.0 && h < size.1 && #[trigger] call_ensures(
            transform,
            (w, h),
            point,
        ) implies point.0.nearest_spec() == Some((w + dx) as i128) && point.1.nearest_spec()
        == Some((h + dy) as i128) by {
        lemma_whole_rounds_to_itself(point.0, w + dx);
        lemma_whole_rounds_to_itself(point.1, h + dy);
    }
}

/// Under the map that sends every pixel to itself, resampling returns the
/// source unchanged, whatever the grid and the element type.
pub proof fn lemma_identity<T>(
    source: Seq<T>,
    images: Seq<Option<(i128, i128)>>,
    size: (usize, usize),
    zero: T,
)
    requires
        source.len() == size.0 * size.1,
        images.len() == source.len(),
        forall|i: int|
            0 <= i < images.len() ==> #[trigger] images[i] == Some(
                ((i % (size.0 as int)) as i128, (i / (size.0 as int)) as i128),
            ),
    ensures
        resampled(source, images, size.0 as int, size.1 as int, zero) == source,
{
    let width = size.0 as int;
    let height = size.1 as int;
    let out = resampled(source, images, width, height, zero);
    assert forall|i: int| 0 <= i < source.len() implies out[i] == source[i] by {
        lemma_pixel_of_index(i, width, height);
    }
    assert(out =~= source);
}

/// Where every pixel's image is undefined or lies off the grid, every
/// destination pixel is `zero`.
pub proof fn lemma_off_grid_clears<T>(
    source: Seq<T>,
    images: Seq<Option<(i128, i128)>>,
    size: (usize, usize),
    zero: T,
)
    requires
        forall|i: int|
            0 <= i < images.len() ==> !lands(#[trigger] images[i], size.0 as int, size.1 as int),
    ensures
        resampled(source, images, size.0 as int, size.1 as int, zero) == Seq::new(
            images.len(),
            |i: int| zero,
        ),
{
    assert(resampled(source, images, size.0 as int, size.1 as int, zero) =~= Seq::new(
        images.len(),
        |i: int| zero,
    ));
}

/// Under the translation by one full width along x, which sends the pixel in
/// column `w` of row `h` to column `w + width` of the same row, every
/// destination pixel is `zero`.
pub proof fn lemma_shift_by_width_clears<T>(
    source: Seq<T>,
    images: Seq<Option<(i128, i128)>>,
    size: (usize, usize),
    zero: T,
)
    requires
        source.len() == size.0 * size.1,
        images.len() == source.len(),
        forall|i: int|
            0 <= i < images.len() ==> #[trigger] images[i] == Some(
                ((i % (size.0 as int) + size.0) as i128, (i / (size.0 as int)) as i128),
            ),
    ensures
        resampled(source, images, size.0 as int, size.1 as int, zero) == Seq::new(
            source.len(),
            |i: int| zero,
        ),
{
    let width = size.0 as int;
    let height = size.1 as int;
    assert forall|i: int| 0 <= i < images.len() implies !lands(
        #[trigger] images[i],
        width,
        height,
    ) by {
        lemma_pixel_of_index(i, width, height);
    }
    lemma_off_grid_clears(source, images, size, zero);
}

/// Resampling by `forward` and then by `backward` is one resampling through
/// both maps: a pixel whose image under `backward` lands receives what
/// `forward` samples for the cell it lands on, and any other pixel is `zero`.
pub proof fn lemma_resample_twice<T>(
    source: Seq<T>,
    forward: Seq<Option<(i128, i128)>>,
    backward: Seq<Option<(i128, i128)>>,
    size: (usize, usize),
    zero: T,
    pixel: int,
)
    requires
        forward.len() == size.0 * size.1,
        0 <= pixel < backward.len(),
    ensures
        resampled(
            resampled(source, forward, size.0 as int, size.1 as int, zero),
            backward,
            size.0 as int,
            size.1 as int,
            zero,
        )[pixel] == (if lands(backward[pixel], size.0 as int, size.1 as int) {
            sample(
                source,
                size.0 as int,
                size.1 as int,
                forward[landing_index(backward[pixel], size.0 as int)],
                zero,
            )
        } else {
            zero
        }),
{
    if lands(backward[pixel], size.0 as int, size.1 as int) {
        let (x, y) = backward[pixel]->0;
        lemma_cell_index_bound(x as int, y as int, size.0 as int, size.1 as int);
    }
}

/// Resampling by `forward` and then by `backward` gives a pixel its first
/// value back, provided that neither step takes it off the grid and that the
/// two rounded maps undo each other there: `backward` sends the pixel to a
/// cell which `forward` sends back to the pixel.
pub proof fn lemma_round_trip<T>(
    source: Seq<T>,
    forward: Seq<Option<(i128, i128)>>,
    backward: Seq<Option<(i128, i128)>>,
    size: (usize, usize),
    zero: T,
    pixel: int,
)
    requires
        source.len() == size.0 * size.1,
        forward.len() == source.len(),
        backward.len() == source.len(),
        0 <= pixel < source.len(),
        lands(backward[pixel], size.0 as int, size.1 as int),
        lands(forward[landing_index(backward[pixel], size.0 as int)], size.0 as int, size.1 as int),
        landing_index(forward[landing_index(backward[pixel], size.0 as int)], size.0 as int)
            == pixel,
    ensures
        resampled(
            resampled(source, forward, size.0 as int, size.1 as int, zero),
            backward,
            size.0 as int,
            size.1 as int,
            zero,
        )[pixel] == source[pixel],
{
    lemma_resample_twice(source, forward, backward, size, zero, pixel);
}

} // verus!
