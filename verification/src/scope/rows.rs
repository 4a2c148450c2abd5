//! The newest rows of an endless picture, in fixed storage.
use crate::scope::history::{filled, newest};
use vstd::prelude::*;

verus! {

/// The newest rows, oldest first, all of one width.
#[derive(Debug)]
pub struct RowHistory<L> {
    cells: Vec<L>,
    width: usize,
    rows: usize,
    write: usize,
    count: usize,
}

/// A row lies within the storage, and apart from the other rows.
proof fn row_bounds(row: int, rows: int, width: int)
    requires
        0 <= row < rows,
        width >= 0,
    ensures
        0 <= row * width,
        row * width + width <= rows * width,
        (row + 1) * width == row * width + width,
{
    assert(0 <= row * width) by (nonlinear_arith)
        requires
            row >= 0,
            width >= 0,
    ;
    assert((row + 1) * width == row * width + width) by (nonlinear_arith);
    assert((row + 1) * width <= rows * width) by (nonlinear_arith)
        requires
            row + 1 <= rows,
            width >= 0,
    ;
}

/// Different rows share no storage.
proof fn rows_apart(one: int, other: int, width: int)
    requires
        one != other,
        width >= 0,
    ensures
        one < other ==> one * width + width <= other * width,
        other < one ==> other * width + width <= one * width,
{
    if one < other {
        assert((one + 1) * width <= other * width) by (nonlinear_arith)
            requires
                one + 1 <= other,
                width >= 0,
        ;
        assert((one + 1) * width == one * width + width) by (nonlinear_arith);
    } else {
        assert((other + 1) * width <= one * width) by (nonlinear_arith)
            requires
                other + 1 <= one,
                width >= 0,
        ;
        assert((other + 1) * width == other * width + width) by (nonlinear_arith);
    }
}

impl<L: Copy> RowHistory<L> {
    /// Whether the storage is laid out as a ring of rows.
    pub closed spec fn is_valid(self) -> bool {
        &&& 0 < self.rows
        &&& self.cells@.len() == self.rows * self.width
        &&& self.write < self.rows
        &&& self.count <= self.rows
        &&& self.count < self.rows ==> self.write == self.count
    }

    /// How many rows fit.
    pub closed spec fn limit(self) -> int {
        self.rows as int
    }

    /// How many levels a row has.
    pub closed spec fn row_width(self) -> int {
        self.width as int
    }

    /// The storage row of the row that is behind `index` older ones.
    pub closed spec fn place(self, index: int) -> int {
        if self.count < self.rows {
            index
        } else if self.write + index < self.rows {
            self.write + index
        } else {
            self.write + index - self.rows
        }
    }

    /// The levels of a storage row.
    pub closed spec fn levels(self, row: int) -> Seq<L> {
        Seq::new(self.width as nat, |band: int| self.cells@[row * self.width + band])
    }

    /// The rows, oldest first.
    pub closed spec fn view(&self) -> Seq<Seq<L>> {
        Seq::new(self.count as nat, |index: int| self.levels(self.place(index)))
    }

    /// Allocates room for `rows` rows of `width` levels.
    pub fn new(rows: usize, width: usize, blank: L) -> (history: Self)
        requires
            rows > 0,
            rows * width <= usize::MAX,
        ensures
            history.is_valid(),
            history.limit() == rows,
            history.row_width() == width,
            history@ == Seq::<Seq<L>>::empty(),
    {
        let cells = filled(blank, rows * width);
        let history = RowHistory { cells, width, rows, write: 0, count: 0 };
        assert(history@ =~= Seq::<Seq<L>>::empty());
        history
    }

    /// How many rows there are.
    pub fn len(&self) -> (count: usize)
        requires
            self.is_valid(),
        ensures
            count == self@.len(),
            count <= self.limit(),
    {
        self.count
    }

    /// How many levels a row has.
    pub fn width(&self) -> (width: usize)
        ensures
            width == self.row_width(),
    {
        self.width
    }

    /// The row that is behind `index` older ones.
    pub fn row(&self, index: usize) -> (row: Option<&[L]>)
        requires
            self.is_valid(),
        ensures
            match row {
                Some(levels) => index < self@.len() && levels@ == self@[index as int]
                    && levels@.len() == self.row_width(),
                None => index >= self@.len(),
            },
    {
        if index >= self.count {
            return None;
        }
        let row: usize = if self.count < self.rows {
            index
        } else if index < self.rows - self.write {
            self.write + index
        } else {
            index - (self.rows - self.write)
        };
        let total: usize = self.cells.len();
        proof {
            row_bounds(row as int, self.rows as int, self.width as int);
            assert(self.rows * self.width == total);
        }
        let start: usize = row * self.width;
        let levels = vstd::slice::slice_subrange(self.cells.as_slice(), start, start + self.width);
        assert(levels@ =~= self@[index as int]);
        Some(levels)
    }

    /// Adds a row as the newest. Where there is no room the oldest row leaves.
    pub fn push(&mut self, levels: &[L])
        requires
            old(self).is_valid(),
            levels@.len() == old(self).row_width(),
        ensures
            final(self).is_valid(),
            final(self).limit() == old(self).limit(),
            final(self).row_width() == old(self).row_width(),
            final(self)@ == newest(old(self)@.push(levels@), old(self).limit()),
    {
        let ghost before = *self;
        let total: usize = self.cells.len();
        proof {
            row_bounds(self.write as int, self.rows as int, self.width as int);
            assert(self.rows * self.width == total);
        }
        let start: usize = self.write * self.width;
        let mut band: usize = 0;
        while band < self.width
            invariant
                band <= self.width,
                self.width == before.width,
                self.rows == before.rows,
                self.write == before.write,
                self.count == before.count,
                levels@.len() == self.width,
                start == self.write * self.width,
                start + self.width <= self.cells@.len(),
                self.cells@.len() == total,
                self.cells@.len() == before.cells@.len(),
                forall|i: int|
                    0 <= i < self.cells@.len() ==> #[trigger] self.cells@[i] == (if start <= i
                        < start + band {
                        levels@[i - start]
                    } else {
                        before.cells@[i]
                    }),
            decreases self.width - band,
        {
            self.cells[start + band] = levels[band];
            band = band + 1;
        }
        if self.write == self.rows - 1 {
            self.write = 0;
        } else {
            self.write = self.write + 1;
        }
        if self.count < self.rows {
            self.count = self.count + 1;
        }
        proof {
            let expected = newest(before@.push(levels@), before.limit());
            assert(self@.len() == expected.len());
            assert forall|index: int| 0 <= index < self@.len() implies #[trigger] self@[index]
                == expected[index] by {
                let own = self.place(index);
                row_bounds(own, self.rows as int, self.width as int);
                if own == before.write {
                    assert(self.levels(own) =~= levels@);
                    assert(index == self@.len() - 1);
                } else {
                    rows_apart(own, before.write as int, self.width as int);
                    assert(self.levels(own) =~= before.levels(own));
                    if before.count < before.rows {
                        assert(before.place(index) == own);
                    } else {
                        assert(before.place(index + 1) == own);
                        assert(before@[index + 1] == before.levels(own));
                    }
                }
            }
            assert(self@ =~= expected);
        }
    }

    /// Forgets every row and keeps the storage.
    pub fn reset(&mut self)
        requires
            old(self).is_valid(),
        ensures
            final(self).is_valid(),
            final(self).limit() == old(self).limit(),
            final(self).row_width() == old(self).row_width(),
            final(self)@ == Seq::<Seq<L>>::empty(),
    {
        self.write = 0;
        self.count = 0;
        assert(self@ =~= Seq::<Seq<L>>::empty());
    }
}

} // verus!
