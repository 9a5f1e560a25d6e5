//! From a viewport to a grid of divergences, and from the grid to pixels.

use crate::color::color_of;
use crate::color::map_color;
use crate::divergence::calc_mandle_divergence;
use crate::divergence::divergence_of;
use crate::divergence::lemma_origin_interior;
use crate::divergence::Divergence;
use crate::fixed_real::product_bits;
use crate::fixed_real::representable;
use crate::fixed_real::FixedReal;
use crate::fixed_real::HALF_BITS;
use crate::grid::Grid;
use vstd::prelude::*;

verus! {

/// Why a frame could not be computed.
#[derive(Clone, Copy, Debug, PartialEq, Eq, Structural)]
pub enum PlaneError {
    /// Some pixel maps to a plane coordinate outside the representable range.
    Unrepresentable,
}

/// Bit pattern of the distance `index - dimension / 2` of a pixel from the
/// middle of its axis, a whole number of halves.
pub open spec fn pixel_offset(index: int, dimension: int) -> int {
    (2 * index - dimension) * HALF_BITS
}

/// Bit pattern of the plane coordinate `center + (index - dimension / 2) *
/// zoom` of a pixel along one axis, or `None` when the offset, the scaled
/// offset or the sum is not representable.
pub open spec fn plane_coordinate(center: int, index: int, dimension: int, zoom: int) -> Option<
    int,
> {
    let offset = pixel_offset(index, dimension);
    let scaled = product_bits(offset, zoom);
    if representable(offset) && representable(scaled) && representable(center + scaled) {
        Some(center + scaled)
    } else {
        None
    }
}

/// Whether every pixel along an axis of `dimension` pixels has a representable
/// plane coordinate.
pub open spec fn axis_fits(center: int, dimension: nat, zoom: int) -> bool {
    forall|i: int|
        0 <= i < dimension ==> (#[trigger] plane_coordinate(center, i, dimension as int, zoom))
            is Some
}

/// Whether every pixel of a `width` by `height` frame maps to a representable
/// point of the plane. A frame without pixels fits.
pub open spec fn frame_fits(a: int, b: int, zoom: int, width: nat, height: nat) -> bool {
    width == 0 || height == 0 || (axis_fits(a, width, zoom) && axis_fits(b, height, zoom))
}

/// The divergence of pixel `(x, y)` of a frame that fits.
pub open spec fn pixel_divergence(
    a: int,
    b: int,
    zoom: int,
    width: nat,
    height: nat,
    x: int,
    y: int,
    budget: nat,
) -> Option<(nat, nat)> {
    divergence_of(
        plane_coordinate(a, x, width as int, zoom).unwrap(),
        plane_coordinate(b, y, height as int, zoom).unwrap(),
        budget,
    )
}

/// Whether every cell of `grid` holds the divergence of its pixel for a view
/// centred at `(a, b)`.
pub open spec fn shows(grid: &Grid<Divergence>, a: int, b: int, zoom: int, budget: nat) -> bool {
    forall|x: int, y: int|
        grid.in_range(x, y) ==> (#[trigger] grid.at(x, y))@ == pixel_divergence(
            a,
            b,
            zoom,
            grid.spec_width(),
            grid.spec_height(),
            x,
            y,
            budget,
        )
}

/// In a view centred on the origin with an even number of columns and of rows,
/// the pixel in the middle stands for the origin itself and is an interior
/// point, whatever the zoom and the budget.
pub proof fn lemma_middle_pixel_is_interior(zoom: int, width: nat, height: nat, budget: nat)
    requires
        width % 2 == 0,
        height % 2 == 0,
    ensures
        plane_coordinate(0, (width / 2) as int, width as int, zoom) == Some(0int),
        plane_coordinate(0, (height / 2) as int, height as int, zoom) == Some(0int),
        pixel_divergence(
            0,
            0,
            zoom,
            width,
            height,
            (width / 2) as int,
            (height / 2) as int,
            budget,
        ) is None,
{
    assert(pixel_offset((width / 2) as int, width as int) == 0);
    assert(pixel_offset((height / 2) as int, height as int) == 0);
    lemma_origin_interior(budget);
}

/// The frame buffer that shows `grid`: four bytes per cell in storage order,
/// the three colour channels of the cell followed by an opaque alpha byte.
pub open spec fn rendered(grid: &Grid<Divergence>) -> Seq<u8> {
    Seq::new(
        4 * grid.spec_width() * grid.spec_height(),
        |i: int|
            if i % 4 == 3 {
                0xffu8
            } else {
                color_of(grid.cells()[i / 4]@)[i % 4]
            },
    )
}

/// In a rendered frame the four bytes of pixel `(x, y)` start at
/// `(x + y * width) * 4`; they are the red, green and blue channel of the
/// cell's colour and `0xff`.
pub proof fn lemma_rendered_pixel(grid: &Grid<Divergence>, x: int, y: int)
    requires
        grid.in_range(x, y),
    ensures
        0 <= (x + y * grid.spec_width()) * 4,
        (x + y * grid.spec_width()) * 4 + 3 < rendered(grid).len(),
        rendered(grid)[(x + y * grid.spec_width()) * 4] == color_of(grid.at(x, y)@)[0],
        rendered(grid)[(x + y * grid.spec_width()) * 4 + 1] == color_of(grid.at(x, y)@)[1],
        rendered(grid)[(x + y * grid.spec_width()) * 4 + 2] == color_of(grid.at(x, y)@)[2],
        rendered(grid)[(x + y * grid.spec_width()) * 4 + 3] == 0xffu8,
{
    grid.lemma_offset(x, y);
    let cells = grid.spec_width() * grid.spec_height();
    assert(4 * grid.spec_width() * grid.spec_height() == 4 * cells) by (nonlinear_arith)
        requires
            cells == grid.spec_width() * grid.spec_height(),
    ;
}

/// Writes the picture of `grid` into `frame`, which holds four bytes for every
/// cell: each pixel gets the colour of its cell and an alpha of `0xff`.
pub fn render_mandlebrot(grid: &Grid<Divergence>, frame: &mut [u8])
    requires
        old(frame)@.len() == 4 * grid.spec_width() * grid.spec_height(),
    ensures
        final(frame)@ == rendered(grid),
{
    let width: usize = grid.width();
    let height: usize = grid.height();
    let len: usize = frame.len();
    let ghost cells: int = width * height;
    assert(4 * grid.spec_width() * grid.spec_height() == 4 * cells) by (nonlinear_arith)
        requires
            cells == grid.spec_width() * grid.spec_height(),
    ;
    let mut y: usize = 0;
    while y < height
        invariant
            y <= height,
            width == grid.spec_width(),
            height == grid.spec_height(),
            cells == width * height,
            len == 4 * cells,
            frame@.len() == len,
            rendered(grid).len() == len,
            forall|i: int| 0 <= i < 4 * (y * width) ==> frame@[i] == rendered(grid)[i],
        decreases height - y,
    {
        let mut x: usize = 0;
        while x < width
            invariant
                y < height,
                x <= width,
                width == grid.spec_width(),
                height == grid.spec_height(),
                cells == width * height,
                len == 4 * cells,
                frame@.len() == len,
                rendered(grid).len() == len,
                forall|i: int| 0 <= i < 4 * (y * width + x) ==> frame@[i] == rendered(grid)[i],
            decreases width - x,
        {
            proof {
                grid.lemma_offset(x as int, y as int);
            }
            let col = map_color(grid.get_val(x, y).unwrap());
            let base: usize = (x + y * width) * 4;
            frame[base] = col[0];
            frame[base + 1] = col[1];
            frame[base + 2] = col[2];
            frame[base + 3] = 0xff;
            x = x + 1;
        }
        assert((y + 1) * width == y * width + width) by (nonlinear_arith);
        y = y + 1;
    }
    assert(4 * (height * width) == len) by (nonlinear_arith)
        requires
            len == 4 * (width * height),
    ;
    assert(frame@ =~= rendered(grid));
}

/// Plane coordinate of pixel `index` along an axis of `dimension` pixels,
/// `center + (index - dimension / 2) * zoom`, computed in fixed point; `None`
/// when a step of the computation leaves the representable range.
pub fn pixel_to_plane(center: FixedReal, index: usize, dimension: usize, zoom: FixedReal) -> (r:
    Option<FixedReal>)
    ensures
        match r {
            Some(coordinate) => plane_coordinate(center@, index as int, dimension as int, zoom@)
                == Some(coordinate@),
            None => plane_coordinate(center@, index as int, dimension as int, zoom@) is None,
        },
{
    let halves: i128 = 2 * (index as i128) - (dimension as i128);
    if halves < -2048 || halves >= 2048 {
        return None;
    }
    let offset = match FixedReal::from_halves(halves as i64) {
        Some(value) => value,
        None => {
            return None;
        },
    };
    let scaled = match offset.checked_mul(zoom) {
        Some(value) => value,
        None => {
            return None;
        },
    };
    center.checked_add(scaled)
}

/// Plane coordinates of all pixels along one axis, or `None` when one of them
/// is not representable.
fn axis_coordinates(center: FixedReal, dimension: usize, zoom: FixedReal) -> (r: Option<
    Vec<FixedReal>,
>)
    ensures
        match r {
            Some(axis) => {
                &&& axis@.len() == dimension
                &&& forall|i: int|
                    0 <= i < dimension ==> plane_coordinate(
                        center@,
                        i,
                        dimension as int,
                        zoom@,
                    ) == Some(#[trigger] axis@[i]@)
            },
            None => !axis_fits(center@, dimension as nat, zoom@),
        },
{
    let mut axis: Vec<FixedReal> = Vec::new();
    let mut index: usize = 0;
    while index < dimension
        invariant
            index <= dimension,
            axis@.len() == index,
            forall|i: int|
                0 <= i < index ==> plane_coordinate(center@, i, dimension as int, zoom@) == Some(
                    #[trigger] axis@[i]@,
                ),
        decreases dimension - index,
    {
        match pixel_to_plane(center, index, dimension, zoom) {
            Some(coordinate) => {
                axis.push(coordinate);
            },
            None => {
                return None;
            },
        }
        index = index + 1;
    }
    Some(axis)
}

/// Fills `grid` with the divergence of every pixel for a viewport centred at
/// `(a, b)`: pixel `(x, y)` stands for the point `a + (x - width / 2) *
/// zoom_level`, `b + (y - height / 2) * zoom_level`.
///
/// When some pixel has no representable point the grid is left as it was and
/// the error says so; this is decided before any cell is written.
pub fn calc_mandlebrot_set(
    grid: &mut Grid<Divergence>,
    a: FixedReal,
    b: FixedReal,
    zoom_level: FixedReal,
    max_iter: u32,
) -> (r: Result<(), PlaneError>)
    ensures
        final(grid).spec_width() == old(grid).spec_width(),
        final(grid).spec_height() == old(grid).spec_height(),
        match r {
            Ok(_) => {
                &&& frame_fits(a@, b@, zoom_level@, old(grid).spec_width(), old(grid).spec_height())
                &&& shows(final(grid), a@, b@, zoom_level@, max_iter as nat)
            },
            Err(e) => {
                &&& e == PlaneError::Unrepresentable
                &&& !frame_fits(
                    a@,
                    b@,
                    zoom_level@,
                    old(grid).spec_width(),
                    old(grid).spec_height(),
                )
                &&& final(grid).cells() == old(grid).cells()
            },
        },
{
    let width: usize = grid.width();
    let height: usize = grid.height();
    if width == 0 || height == 0 {
        return Ok(());
    }
    let columns = match axis_coordinates(a, width, zoom_level) {
        Some(axis) => axis,
        None => {
            return Err(PlaneError::Unrepresentable);
        },
    };
    let rows = match axis_coordinates(b, height, zoom_level) {
        Some(axis) => axis,
        None => {
            return Err(PlaneError::Unrepresentable);
        },
    };
    let mut y: usize = 0;
    while y < height
        invariant
            y <= height,
            width == grid.spec_width(),
            height == grid.spec_height(),
            grid.cells().len() == width * height,
            columns@.len() == width,
            rows@.len() == height,
            forall|p: int|
                0 <= p < y * width ==> (#[trigger] grid.cells()[p])@ == divergence_of(
                    columns@[p % (width as int)]@,
                    rows@[p / (width as int)]@,
                    max_iter as nat,
                ),
        decreases height - y,
    {
        let mut x: usize = 0;
        while x < width
            invariant
                y < height,
                x <= width,
                width == grid.spec_width(),
                height == grid.spec_height(),
                grid.cells().len() == width * height,
                columns@.len() == width,
                rows@.len() == height,
                forall|p: int|
                    0 <= p < y * width + x ==> (#[trigger] grid.cells()[p])@ == divergence_of(
                        columns@[p % (width as int)]@,
                        rows@[p / (width as int)]@,
                        max_iter as nat,
                    ),
            decreases width - x,
        {
            proof {
                grid.lemma_offset(x as int, y as int);
            }
            let divergence = calc_mandle_divergence(columns[x], rows[y], max_iter);
            // `(x, y)` is in range, so the cell is always there.
            if let Ok(cell) = grid.get(x, y) {
                *cell = divergence;
            }
            x = x + 1;
        }
        assert((y + 1) * width == y * width + width) by (nonlinear_arith);
        y = y + 1;
    }
    proof {
        assert forall|x: int| 0 <= x < width implies (#[trigger] plane_coordinate(
            a@,
            x,
            width as int,
            zoom_level@,
        )) is Some by {
            assert(plane_coordinate(a@, x, width as int, zoom_level@) == Some(columns@[x]@));
        }
        assert forall|y: int| 0 <= y < height implies (#[trigger] plane_coordinate(
            b@,
            y,
            height as int,
            zoom_level@,
        )) is Some by {
            assert(plane_coordinate(b@, y, height as int, zoom_level@) == Some(rows@[y]@));
        }
        assert forall|x: int, y: int| grid.in_range(x, y) implies (#[trigger] grid.at(x, y))@
            == pixel_divergence(
            a@,
            b@,
            zoom_level@,
            width as nat,
            height as nat,
            x,
            y,
            max_iter as nat,
        ) by {
            grid.lemma_offset(x, y);
            assert(grid.offset(x, y) < height * width) by (nonlinear_arith)
                requires
                    grid.offset(x, y) < width * height,
            ;
            assert(plane_coordinate(a@, x, width as int, zoom_level@) == Some(columns@[x]@));
            assert(plane_coordinate(b@, y, height as int, zoom_level@) == Some(rows@[y]@));
        }
    }
    Ok(())
}

} // verus!
