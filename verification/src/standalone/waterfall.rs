//! The waterfall that a window shows of a longer spectrogram.
use crate::scope::rows::RowHistory;
use crate::visual::spacing::{
    bounded_count, drawn, evenly_spaced_index, stretched, stretching_is_even,
    stretching_keeps_the_ends,
};
use vstd::prelude::*;

verus! {

/// Where a cell of the waterfall stands.
pub open spec fn place(row: int, band: int, bands: int) -> int {
    row * bands + band
}

/// A cell of the waterfall is inside it, and no two cells share a place.
proof fn places_are_distinct(row: int, band: int, bands: int, rows: int)
    requires
        0 <= row < rows,
        0 <= band < bands,
    ensures
        0 <= place(row, band, bands) < rows * bands,
        place(row, band, bands) / bands == row,
        place(row, band, bands) % bands == band,
{
    vstd::arithmetic::div_mod::lemma_fundamental_div_mod_converse(
        place(row, band, bands),
        bands,
        row,
        band,
    );
    assert(0 <= row * bands && (row + 1) * bands <= rows * bands && (row + 1) * bands == row * bands
        + bands) by (nonlinear_arith)
        requires
            0 <= row,
            row + 1 <= rows,
            0 < bands,
    ;
}

/// What stands at a place of the waterfall: the level of an evenly spread row
/// and band of the spectrogram, or the floor below the last row.
pub open spec fn shown<L>(
    source: Seq<Seq<L>>,
    width: int,
    at: int,
    rows: int,
    bands: int,
    floor: L,
) -> L {
    let row = at / bands;
    if row < rows {
        source[stretched(row, rows, source.len() as int)][stretched(at % bands, bands, width)]
    } else {
        floor
    }
}

/// Fills a waterfall of `bands` columns from a spectrogram, oldest row first,
/// and counts its rows. A spectrogram with more rows is sampled evenly.
pub fn fill_waterfall<L: Copy>(
    source: &RowHistory<L>,
    bands: usize,
    limit: usize,
    floor: L,
    destination: &mut [L],
) -> (rows: usize)
    requires
        source.is_valid(),
        source.row_width() > 0,
        0 < bands,
        limit * bands == old(destination)@.len(),
    ensures
        rows == drawn(source@.len() as int, limit as int),
        final(destination)@.len() == old(destination)@.len(),
        forall|at: int|
            0 <= at < final(destination)@.len() ==> #[trigger] final(destination)@[at] == shown(
                source@,
                source.row_width(),
                at,
                rows as int,
                bands as int,
                floor,
            ),
{
    let length: usize = destination.len();
    let mut index: usize = 0;
    while index < destination.len()
        invariant
            index <= destination@.len(),
            destination@.len() == length,
            forall|at: int| 0 <= at < index ==> #[trigger] destination@[at] == floor,
        decreases destination@.len() - index,
    {
        destination[index] = floor;
        index = index + 1;
    }
    let width: usize = source.width();
    let source_rows: usize = source.len();
    let rows: usize = bounded_count(source_rows, limit);
    let mut row: usize = 0;
    while row < rows
        invariant
            source.is_valid(),
            width == source.row_width(),
            width > 0,
            source_rows == source@.len(),
            rows == drawn(source_rows as int, limit as int),
            0 < bands,
            row <= rows <= limit,
            destination@.len() == length,
            limit * bands == length,
            forall|at: int|
                0 <= at < length ==> #[trigger] destination@[at] == (if at / (bands as int) < row {
                    shown(
                        source@,
                        width as int,
                        at,
                        rows as int,
                        bands as int,
                        floor,
                    )
                } else {
                    floor
                }),
        decreases rows - row,
    {
        let source_row: usize = evenly_spaced_index(row, rows, source_rows);
        let levels: &[L] = match source.row(source_row) {
            Some(levels) => levels,
            None => {
                assert(false);
                return 0;
            },
        };
        let ghost before = destination@;
        let mut band: usize = 0;
        while band < bands
            invariant
                source.is_valid(),
                width == source.row_width(),
                width > 0,
                levels@.len() == width,
                levels@ == source@[stretched(row as int, rows as int, source@.len() as int)],
                source_rows == source@.len(),
                rows == drawn(source_rows as int, limit as int),
                0 < bands,
                band <= bands,
                row < rows <= limit,
                destination@.len() == length,
                before.len() == length,
                limit * bands == length,
                forall|at: int|
                    0 <= at < length ==> #[trigger] destination@[at] == (if at / (bands as int)
                        == row && at % (bands as int) < band {
                        shown(
                            source@,
                            width as int,
                            at,
                            rows as int,
                            bands as int,
                            floor,
                        )
                    } else {
                        before[at]
                    }),
            decreases bands - band,
        {
            let source_band: usize = evenly_spaced_index(band, bands, width);
            proof {
                places_are_distinct(row as int, band as int, bands as int, limit as int);
                assert(0 <= row * bands) by (nonlinear_arith)
                    requires
                        0 <= row,
                        0 < bands,
                ;
            }
            let at: usize = row * bands + band;
            let ghost earlier = destination@;
            destination[at] = levels[source_band];
            proof {
                assert forall|other: int| 0 <= other < length implies #[trigger] destination@[other]
                    == (if other / (bands as int) == row && other % (bands as int) < band + 1 {
                    shown(
                        source@,
                        width as int,
                        other,
                        rows as int,
                        bands as int,
                        floor,
                    )
                } else {
                    before[other]
                }) by {
                    if other == at {
                    } else {
                        assert(destination@[other] == earlier[other]);
                        if other / (bands as int) == row && other % (bands as int) == band {
                            vstd::arithmetic::div_mod::lemma_fundamental_div_mod(
                                other,
                                bands as int,
                            );
                            assert(bands * row == row * bands) by (nonlinear_arith);
                        }
                    }
                }
            }
            band = band + 1;
        }
        proof {
            assert forall|at: int| 0 <= at < length implies #[trigger] destination@[at] == (if at / (
            bands as int) < row + 1 {
                shown(source@, width as int, at, rows as int, bands as int, floor)
            } else {
                floor
            }) by {
                vstd::arithmetic::div_mod::lemma_mod_bound(at, bands as int);
            }
        }
        row = row + 1;
    }
    rows
}

/// A waterfall runs from the oldest row to the newest and from the lowest band to the
/// highest. Its first row and band are those of the spectrogram, and so are the last of
/// several; one that has the spectrogram's size shows every level in its place. Below
/// its last row stands the floor.
pub proof fn waterfall_keeps_rows_and_bands<L>(
    source: Seq<Seq<L>>,
    width: int,
    rows: int,
    bands: int,
    floor: L,
    row: int,
    band: int,
)
    requires
        0 < width,
        0 <= rows <= source.len(),
        0 <= row,
        0 <= band < bands,
    ensures
        ({
            let level = shown(source, width, row * bands + band, rows, bands, floor);
            let height = source.len() as int;
            &&& row >= rows ==> level == floor
            &&& row < rows && rows == height && bands == width ==> level == source[row][band]
            &&& row < rows && row == 0 && band == 0 ==> level == source[0][0]
            &&& row < rows && row == 0 && band == bands - 1 && bands > 1 ==> level == source[0][width
                - 1]
            &&& row == rows - 1 && rows > 1 && band == 0 ==> level == source[height - 1][0]
            &&& row == rows - 1 && rows > 1 && band == bands - 1 && bands > 1 ==> level
                == source[height - 1][width - 1]
        }),
{
    vstd::arithmetic::div_mod::lemma_fundamental_div_mod_converse(
        row * bands + band,
        bands,
        row,
        band,
    );
    assert(bands * row == row * bands) by (nonlinear_arith);
    if row < rows {
        stretching_keeps_the_ends(row, rows, source.len() as int);
        stretching_keeps_the_ends(band, bands, width);
        stretching_is_even(row, row, rows, source.len() as int);
        stretching_is_even(band, band, bands, width);
    }
}

} // verus!
