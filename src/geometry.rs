use vstd::prelude::*;

verus! {

/// Why a grid position could not be turned into a pixel offset.
#[derive(Debug, Clone, Copy, PartialEq, Eq)]
pub enum MapError {
    /// The terminal reported zero rows or zero columns.
    EmptyGrid,
    /// The offset does not fit the signed 16-bit coordinates of the display.
    OutOfRange,
}

/// Half of `a`, rounded toward zero.
pub open spec fn half_toward_zero(a: int) -> int {
    if a >= 0 {
        a / 2
    } else {
        -((-a) / 2)
    }
}

/// Pixel offset along one axis: the centering margin plus `pos` whole cells.
pub open spec fn axis_offset(window_px: int, term_px: int, cells: int, pos: int) -> int {
    half_toward_zero(window_px - term_px) + pos * (term_px / cells)
}

pub open spec fn fits_i16(v: int) -> bool {
    i16::MIN <= v <= i16::MAX
}

fn axis(window_px: u16, term_px: u16, cells: u16, pos: i16) -> (r: Option<i16>)
    requires
        cells > 0,
    ensures
        fits_i16(axis_offset(window_px as int, term_px as int, cells as int, pos as int))
            <==> r.is_some(),
        r matches Some(v) ==> v as int == axis_offset(
            window_px as int,
            term_px as int,
            cells as int,
            pos as int,
        ),
{
    let margin: i64 = if window_px >= term_px {
        ((window_px - term_px) / 2) as i64
    } else {
        -(((term_px - window_px) / 2) as i64)
    };
    let cell: u16 = term_px / cells;
    assert(-65536 * 32768 <= pos as int * cell as int <= 65536 * 32768) by (nonlinear_arith)
        requires
            -32768 <= pos <= 32767,
            0 <= cell <= 65535,
    ;
    let step: i64 = (pos as i64) * (cell as i64);
    let v: i64 = margin + step;
    if v < -32768 || v > 32767 {
        None
    } else {
        Some(v as i16)
    }
}

/// Maps the terminal cell at (`row`, `col`) to a pixel offset inside the
/// target window.
///
/// Each cell is `xpixels / cols` by `ypixels / rows` pixels (truncating), and
/// the terminal's pixel area is centred in the window, so the offset is that
/// margin plus `col` cells along x and `row` cells along y. Negative
/// positions and margins are kept as they are: nothing is clamped.
pub fn rowcol_to_pixels(
    window_width: u16,
    window_height: u16,
    cols: u16,
    rows: u16,
    xpixels: u16,
    ypixels: u16,
    row: i16,
    col: i16,
) -> (r: Result<(i16, i16), MapError>)
    ensures
        (cols == 0 || rows == 0) <==> r == Err::<(i16, i16), MapError>(MapError::EmptyGrid),
        cols > 0 && rows > 0 ==> {
            let x = axis_offset(window_width as int, xpixels as int, cols as int, col as int);
            let y = axis_offset(window_height as int, ypixels as int, rows as int, row as int);
            &&& (fits_i16(x) && fits_i16(y)) <==> r.is_ok()
            &&& r matches Ok((rx, ry)) ==> rx as int == x && ry as int == y
        },
{
    if cols == 0 || rows == 0 {
        return Err(MapError::EmptyGrid);
    }
    let x = axis(window_width, xpixels, cols, col);
    let y = axis(window_height, ypixels, rows, row);
    match (x, y) {
        (Some(x), Some(y)) => Ok((x, y)),
        _ => Err(MapError::OutOfRange),
    }
}

/// Moving one row down moves the vertical offset by exactly one cell height,
/// and moving one column right moves the horizontal offset by exactly one
/// cell width.
pub proof fn lemma_grid_step(
    window_width: u16,
    window_height: u16,
    cols: u16,
    rows: u16,
    xpixels: u16,
    ypixels: u16,
    row: int,
    col: int,
)
    requires
        cols > 0,
        rows > 0,
    ensures
        axis_offset(window_height as int, ypixels as int, rows as int, row + 1)
            - axis_offset(window_height as int, ypixels as int, rows as int, row)
            == ypixels as int / rows as int,
        axis_offset(window_width as int, xpixels as int, cols as int, col + 1)
            - axis_offset(window_width as int, xpixels as int, cols as int, col)
            == xpixels as int / cols as int,
{
    let cell_h = ypixels as int / rows as int;
    let cell_w = xpixels as int / cols as int;
    assert((row + 1) * cell_h == row * cell_h + cell_h) by (nonlinear_arith);
    assert((col + 1) * cell_w == col * cell_w + cell_w) by (nonlinear_arith);
}

} // verus!
