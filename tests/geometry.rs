use termimage::geometry::{rowcol_to_pixels, MapError};

#[test]
fn centred_terminal_at_origin() {
    assert_eq!(rowcol_to_pixels(800, 600, 80, 24, 800, 480, 0, 0), Ok((0, 60)));
}

#[test]
fn one_row_down_is_one_cell_height() {
    let a = rowcol_to_pixels(800, 600, 80, 24, 800, 480, 3, 5).unwrap();
    let b = rowcol_to_pixels(800, 600, 80, 24, 800, 480, 4, 5).unwrap();
    assert_eq!(b.1 - a.1, 20);
    assert_eq!(a.0, b.0);
    assert_eq!(a, (50, 120));
    assert_eq!(a, rowcol_to_pixels(800, 600, 80, 24, 800, 480, 3, 5).unwrap());
}

#[test]
fn negative_margin_rounds_toward_zero() {
    assert_eq!(rowcol_to_pixels(791, 480, 80, 24, 800, 480, 0, 0), Ok((-4, 0)));
    assert_eq!(rowcol_to_pixels(800, 480, 80, 24, 800, 480, -1, -2), Ok((-20, -20)));
}

#[test]
fn truncating_cell_size() {
    // 805 / 80 = 10 pixels per column, 487 / 24 = 20 pixels per row
    assert_eq!(rowcol_to_pixels(805, 487, 80, 24, 805, 487, 2, 3), Ok((30, 40)));
}

#[test]
fn empty_grid_is_an_error() {
    assert_eq!(rowcol_to_pixels(800, 600, 0, 24, 800, 480, 0, 0), Err(MapError::EmptyGrid));
    assert_eq!(rowcol_to_pixels(800, 600, 80, 0, 800, 480, 0, 0), Err(MapError::EmptyGrid));
}

#[test]
fn offsets_beyond_sixteen_bits_are_refused() {
    assert_eq!(
        rowcol_to_pixels(800, 600, 1, 1, 800, 600, 100, 0),
        Err(MapError::OutOfRange)
    );
}
