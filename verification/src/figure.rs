use vstd::prelude::*;

use crate::error::Error;
use crate::plot::{Plot, Point};

verus! {

/// The display height every row starts with, as the IEEE-754 single-precision
/// bit pattern of one hundred. Heights, like coordinates, are carried as bit
/// patterns: the store assigns and stores them, and only the render backend
/// interprets them as lengths.
pub const DEFAULT_ROW_HEIGHT: u32 = 0x42C8_0000;

/// A fixed-width row of plots sharing one display height. The width is fixed
/// at construction; the height is reassigned once per frame by the layout
/// step, never by external callers directly.
pub struct PlotRow {
    pub plots: Vec<Plot>,
    pub height: u32,
}

/// A fixed-size grid of plots: a sequence of rows, each row a sequence of
/// plots. Row and column counts are immutable after construction — the grid
/// cannot be resized.
pub struct Figure {
    pub plot_rows: Vec<PlotRow>,
}

/// What a freshly constructed `n` by `m` grid looks like: `n` rows, each at
/// the default height and holding `m` plots with no series.
pub open spec fn is_new_grid(f: Figure, n: int, m: int) -> bool {
    &&& f.plot_rows@.len() == n
    &&& forall|i: int|
        0 <= i < n ==> {
            &&& (#[trigger] f.plot_rows@[i]).height == DEFAULT_ROW_HEIGHT
            &&& f.plot_rows@[i].plots@.len() == m
            &&& forall|j: int|
                0 <= j < m ==> (#[trigger] f.plot_rows@[i].plots@[j]).lines().len() == 0
        }
}

/// How grid coordinates resolve against a figure: `Ok` when they address a
/// cell of the grid; otherwise `IndexOutOfRange` citing the first coordinate
/// that misses — the row against the row count, or the column against the
/// addressed row's width.
pub open spec fn locate_plot(f: Figure, row: usize, col: usize) -> Result<(), Error> {
    if f.plot_rows@.len() <= row {
        Err(Error::IndexOutOfRange { index: row, bound: f.plot_rows@.len() as usize })
    } else if f.plot_rows@[row as int].plots@.len() <= col {
        Err(
            Error::IndexOutOfRange {
                index: col,
                bound: f.plot_rows@[row as int].plots@.len() as usize,
            },
        )
    } else {
        Ok(())
    }
}

/// Relates a figure to the same figure after a line series `pts` is appended
/// to the plot at (`row`, `col`): that one plot grows by `pts` at the end,
/// and every other cell, every row height and the grid shape stay as they
/// were.
pub open spec fn grid_with_appended(
    f1: Figure,
    f2: Figure,
    row: int,
    col: int,
    pts: Seq<Point>,
) -> bool {
    &&& 0 <= row < f1.plot_rows@.len()
    &&& 0 <= col < f1.plot_rows@[row].plots@.len()
    &&& f2.plot_rows@.len() == f1.plot_rows@.len()
    &&& forall|i: int|
        0 <= i < f1.plot_rows@.len() && i != row ==> #[trigger] f2.plot_rows@[i]
            == f1.plot_rows@[i]
    &&& f2.plot_rows@[row].height == f1.plot_rows@[row].height
    &&& f2.plot_rows@[row].plots@.len() == f1.plot_rows@[row].plots@.len()
    &&& forall|j: int|
        0 <= j < f1.plot_rows@[row].plots@.len() && j != col ==> #[trigger] f2.plot_rows@[
            row
        ].plots@[j] == f1.plot_rows@[row].plots@[j]
    &&& f2.plot_rows@[row].plots@[col].lines() == f1.plot_rows@[row].plots@[col].lines().push(
        pts,
    )
}

/// Relates a figure to the same figure after the layout step: every row now
/// shows the height `h`, and every row's plots are as they were.
pub open spec fn grid_with_height(f1: Figure, f2: Figure, h: u32) -> bool {
    &&& f2.plot_rows@.len() == f1.plot_rows@.len()
    &&& forall|i: int|
        0 <= i < f1.plot_rows@.len() ==> {
            &&& (#[trigger] f2.plot_rows@[i]).height == h
            &&& f2.plot_rows@[i].plots == f1.plot_rows@[i].plots
        }
}

impl Figure {
    /// Builds an `n` by `m` grid of empty plots, every row at the default
    /// height.
    pub fn new(n: usize, m: usize) -> (f: Figure)
        ensures
            is_new_grid(f, n as int, m as int),
    {
        let mut plot_rows: Vec<PlotRow> = Vec::new();
        let mut r: usize = 0;
        while r < n
            invariant
                r <= n,
                plot_rows@.len() == r,
                forall|i: int|
                    0 <= i < r ==> {
                        &&& (#[trigger] plot_rows@[i]).height == DEFAULT_ROW_HEIGHT
                        &&& plot_rows@[i].plots@.len() == m
                        &&& forall|j: int|
                            0 <= j < m ==> (#[trigger] plot_rows@[i].plots@[j]).lines().len() == 0
                    },
            decreases n - r,
        {
            let mut plots: Vec<Plot> = Vec::new();
            let mut c: usize = 0;
            while c < m
                invariant
                    c <= m,
                    plots@.len() == c,
                    forall|j: int| 0 <= j < c ==> (#[trigger] plots@[j]).lines().len() == 0,
                decreases m - c,
            {
                plots.push(Plot::new());
                c = c + 1;
            }
            plot_rows.push(PlotRow { plots, height: DEFAULT_ROW_HEIGHT });
            r = r + 1;
        }
        Figure { plot_rows }
    }

    /// Assigns `row_height` — the caller's even share of the rendered total
    /// for this figure, recomputed each frame from the actually achieved
    /// content height — to every row. The plots themselves are untouched.
    pub fn split_height(&mut self, row_height: u32)
        ensures
            grid_with_height(*old(self), *final(self), row_height),
    {
        let n = self.plot_rows.len();
        let mut r: usize = 0;
        while r < n
            invariant
                r <= n,
                n == self.plot_rows@.len(),
                self.plot_rows@.len() == old(self).plot_rows@.len(),
                forall|i: int|
                    0 <= i < r ==> {
                        &&& (#[trigger] self.plot_rows@[i]).height == row_height
                        &&& self.plot_rows@[i].plots == old(self).plot_rows@[i].plots
                    },
                forall|i: int|
                    r <= i < n ==> #[trigger] self.plot_rows@[i] == old(self).plot_rows@[i],
            decreases n - r,
        {
            self.plot_rows[r].height = row_height;
            r = r + 1;
        }
    }
}

} // verus!
