use std::cell::RefCell;

use img_transform::error::TransformError;
use img_transform::resample::resample_into;

fn identity(w: usize, h: usize) -> Option<(i128, i128)> {
    Some((w as i128, h as i128))
}

/// Resamples by whole cells into a fresh buffer.
fn resample<T: Copy>(
    source: &[T],
    size: (usize, usize),
    project: impl Fn(usize, usize) -> Option<(i128, i128)>,
    zero: T,
) -> Result<Vec<T>, TransformError> {
    let mut destination = vec![zero; source.len()];
    resample_into(source, &mut destination, size, project, zero).map(|()| destination)
}

fn sixteen() -> Vec<i32> {
    (1..=16).collect()
}

#[test]
fn whole_cell_identity_returns_the_source() {
    let source = sixteen();
    assert_eq!(resample(&source, (4, 4), identity, 0), Ok(sixteen()));
    let bytes: Vec<u8> = (0..15).collect();
    assert_eq!(resample(&bytes, (5, 3), identity, 0u8), Ok(bytes.clone()));
    assert_eq!(resample(&bytes, (3, 5), identity, 0u8), Ok(bytes.clone()));
    assert_eq!(resample(&bytes, (15, 1), identity, 0u8), Ok(bytes.clone()));
    assert_eq!(resample(&bytes, (1, 15), identity, 0u8), Ok(bytes));
}

#[test]
fn whole_cell_identity_overwrites_the_destination() {
    let source = sixteen();
    let mut destination = vec![-1; 16];
    assert_eq!(resample_into(&source, &mut destination, (4, 4), identity, 0), Ok(()));
    assert_eq!(destination, source);
}

#[test]
fn whole_cell_shift_by_the_width_clears_every_pixel() {
    let source = sixteen();
    let shifted = |w: usize, h: usize| Some((w as i128 + 4, h as i128));
    assert_eq!(resample(&source, (4, 4), shifted, 0), Ok(vec![0; 16]));
    let wide: Vec<u8> = (1..=15).collect();
    let shifted = |w: usize, h: usize| Some((w as i128 + 5, h as i128));
    assert_eq!(resample(&wide, (5, 3), shifted, 0u8), Ok(vec![0u8; 15]));
}

#[test]
fn zero_value_is_the_one_handed_in() {
    let source = sixteen();
    assert_eq!(resample(&source, (4, 4), |_, _| None, -7), Ok(vec![-7; 16]));
}

#[test]
fn source_index_is_row_times_width_plus_column() {
    let source = vec![10, 11, 12, 20, 21, 22];
    assert_eq!(resample(&source, (3, 2), |_, _| Some((2, 1)), 0), Ok(vec![22; 6]));
    assert_eq!(resample(&source, (3, 2), |_, _| Some((1, 0)), 0), Ok(vec![11; 6]));
    assert_eq!(resample(&source, (2, 3), |_, _| Some((1, 2)), 0), Ok(vec![22; 6]));
    assert_eq!(resample(&source, (2, 3), |_, _| Some((0, 1)), 0), Ok(vec![12; 6]));
}

#[test]
fn destination_index_is_row_times_width_plus_column() {
    let tagged = vec![100usize, 101, 102, 110, 111, 112, 120, 121, 122];
    let below = |w: usize, h: usize| Some((w as i128, h as i128 + 1));
    assert_eq!(
        resample(&tagged, (3, 3), below, 0),
        Ok(vec![110, 111, 112, 120, 121, 122, 0, 0, 0])
    );
    let cells: Vec<usize> = (0..6).collect();
    let turned = |w: usize, h: usize| Some((2 - w as i128, 1 - h as i128));
    assert_eq!(resample(&cells, (3, 2), turned, 0), Ok(vec![5, 4, 3, 2, 1, 0]));
    let mirrored = |w: usize, h: usize| Some((2 - w as i128, h as i128));
    assert_eq!(resample(&cells, (3, 2), mirrored, 0), Ok(vec![2, 1, 0, 5, 4, 3]));
}

#[test]
fn columns_are_checked_against_width_and_rows_against_height() {
    let source = vec![10, 11, 12, 20, 21, 22];
    assert_eq!(resample(&source, (3, 2), |_, _| Some((1, 2)), 0), Ok(vec![0; 6]));
    assert_eq!(resample(&source, (2, 3), |_, _| Some((2, 1)), 0), Ok(vec![0; 6]));
    assert_eq!(resample(&source, (3, 2), |_, _| Some((3, 0)), 0), Ok(vec![0; 6]));
    assert_eq!(resample(&source, (3, 2), |_, _| Some((0, 2)), 0), Ok(vec![0; 6]));
    assert_eq!(resample(&source, (3, 2), |_, _| Some((2, 0)), 0), Ok(vec![12; 6]));
    assert_eq!(resample(&source, (2, 3), |_, _| Some((0, 2)), 0), Ok(vec![21; 6]));
}

#[test]
fn negative_and_far_away_images_give_zero() {
    let source = sixteen();
    for at in [
        (-1, 0),
        (0, -1),
        (-1, -1),
        (4, 0),
        (0, 4),
        (i128::MAX, 0),
        (0, i128::MAX),
        (i128::MIN, i128::MIN),
        (1i128 << 64, 1),
    ] {
        let out = resample(&source, (4, 4), move |_, _| Some(at), 0);
        assert_eq!(out, Ok(vec![0; 16]), "image {at:?}");
    }
}

#[test]
fn corner_images_are_on_the_grid() {
    let source = sixteen();
    assert_eq!(resample(&source, (4, 4), |_, _| Some((0, 0)), 0), Ok(vec![1; 16]));
    assert_eq!(resample(&source, (4, 4), |_, _| Some((3, 3)), 0), Ok(vec![16; 16]));
    assert_eq!(resample(&source, (4, 4), |_, _| Some((3, 0)), 0), Ok(vec![4; 16]));
    assert_eq!(resample(&source, (4, 4), |_, _| Some((0, 3)), 0), Ok(vec![13; 16]));
}

#[test]
fn pixels_are_visited_row_by_row() {
    let source = vec![0u8; 6];
    let visited = RefCell::new(Vec::new());
    let out = resample(
        &source,
        (3, 2),
        |w, h| {
            visited.borrow_mut().push((w, h));
            None
        },
        0u8,
    );
    assert!(out.is_ok());
    assert_eq!(
        visited.into_inner(),
        vec![(0, 0), (1, 0), (2, 0), (0, 1), (1, 1), (2, 1)]
    );
}

#[test]
fn wrong_destination_length_is_refused_and_nothing_is_written() {
    let source = sixteen();
    let mut short = vec![-1; 15];
    assert_eq!(
        resample_into(&source, &mut short, (4, 4), identity, 0),
        Err(TransformError::DimensionMismatch)
    );
    assert_eq!(short, vec![-1; 15]);
    let mut long = vec![-1; 17];
    assert_eq!(
        resample_into(&source, &mut long, (4, 4), identity, 0),
        Err(TransformError::DimensionMismatch)
    );
    assert_eq!(long, vec![-1; 17]);
    let mut empty: Vec<i32> = Vec::new();
    assert_eq!(
        resample_into(&source, &mut empty, (4, 4), identity, 0),
        Err(TransformError::DimensionMismatch)
    );
}

#[test]
fn wrong_source_length_is_refused_and_nothing_is_written() {
    let source: Vec<i32> = (1..=15).collect();
    let mut destination = vec![-1; 16];
    assert_eq!(
        resample_into(&source, &mut destination, (4, 4), identity, 0),
        Err(TransformError::DimensionMismatch)
    );
    assert_eq!(destination, vec![-1; 16]);
}

#[test]
fn wrong_grid_is_refused_and_nothing_is_written() {
    let source = sixteen();
    let mut destination = vec![-1; 16];
    for size in [(4, 5), (5, 4), (3, 5), (16, 0), (0, 16), (0, 0), (17, 1)] {
        assert_eq!(
            resample_into(&source, &mut destination, size, identity, 0),
            Err(TransformError::DimensionMismatch),
            "grid {size:?}"
        );
        assert_eq!(destination, vec![-1; 16]);
    }
}

#[test]
fn a_grid_too_large_to_count_is_refused() {
    let source = sixteen();
    let mut destination = vec![-1; 16];
    for size in [(usize::MAX, 2), (2, usize::MAX), (usize::MAX, usize::MAX), (1 << 20, 1 << 20)] {
        assert_eq!(
            resample_into(&source, &mut destination, size, identity, 0),
            Err(TransformError::DimensionMismatch)
        );
        assert_eq!(destination, vec![-1; 16]);
    }
    // The product wraps to zero in machine arithmetic and must not pass for it.
    let nothing: Vec<i32> = Vec::new();
    let mut unused: Vec<i32> = Vec::new();
    let half = 1usize << (usize::BITS / 2);
    assert_eq!(
        resample_into(&nothing, &mut unused, (half, half), identity, 0),
        Err(TransformError::DimensionMismatch)
    );
}

#[test]
fn the_projection_is_not_called_on_a_mismatch() {
    let source = sixteen();
    let mut destination = vec![-1; 15];
    let calls = RefCell::new(0usize);
    let r = resample_into(
        &source,
        &mut destination,
        (4, 4),
        |w, h| {
            *calls.borrow_mut() += 1;
            identity(w, h)
        },
        0,
    );
    assert_eq!(r, Err(TransformError::DimensionMismatch));
    assert_eq!(calls.into_inner(), 0);
}

#[test]
fn empty_grids_give_empty_buffers() {
    let nothing: Vec<u8> = Vec::new();
    for size in [(0, 0), (0, 7), (7, 0)] {
        assert_eq!(resample(&nothing, size, identity, 0u8), Ok(Vec::new()));
    }
}

#[test]
fn single_pixel_grid() {
    assert_eq!(resample(&[42], (1, 1), identity, 0), Ok(vec![42]));
    assert_eq!(resample(&[42], (1, 1), |_, _| Some((1, 0)), 0), Ok(vec![0]));
    assert_eq!(resample(&[42], (1, 1), |_, _| Some((0, 1)), 0), Ok(vec![0]));
}

#[test]
fn whole_cell_round_trip_through_a_shift() {
    let (width, height) = (8usize, 6usize);
    let source: Vec<i32> = (1..=48).collect();
    let forward = |w: usize, h: usize| Some((w as i128 + 3, h as i128 - 2));
    let backward = |w: usize, h: usize| Some((w as i128 - 3, h as i128 + 2));
    let there = resample(&source, (width, height), forward, 0).unwrap();
    let back = resample(&there, (width, height), backward, 0).unwrap();
    for h in 0..height {
        for w in 0..width {
            let i = h * width + w;
            if w >= 3 && h + 2 < height {
                assert_eq!(back[i], source[i]);
            } else {
                assert_eq!(back[i], 0);
            }
        }
    }
}
