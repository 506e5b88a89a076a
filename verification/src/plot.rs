use vstd::prelude::*;

use crate::error::Error;

verus! {

/// One 2-D point of a line series.
///
/// Coordinates are carried as the IEEE-754 double-precision bit patterns of
/// the plotted values. The store never computes with coordinates — it only
/// keeps them in drawing order for the render backend — so the bit pattern is
/// a lossless stand-in for the numeric value.
#[derive(Clone, Copy, Debug, PartialEq, Eq, Structural)]
pub struct Point {
    pub x: u64,
    pub y: u64,
}

/// An ordered sequence of points drawn as one connected line; insertion order
/// is the drawing order.
pub type LineSeries = Vec<Point>;

/// A cell of a figure: an ordered collection of line series, indexed from
/// zero. Indices stay contiguous — a series is only ever written at an
/// existing index (overwrite) or at the current length (append).
pub struct Plot {
    pub line_data: Vec<LineSeries>,
}

/// Whether writing a series at index `i` keeps the plot's indices contiguous:
/// `i` must address an existing series or the first free slot.
pub open spec fn set_line_ok(lines: Seq<Seq<Point>>, i: int) -> bool {
    0 <= i <= lines.len()
}

/// The series of a plot after a series `s` is written at index `i`:
/// an overwrite below the length, an append at the length.
pub open spec fn set_line_lines(lines: Seq<Seq<Point>>, i: int, s: Seq<Point>) -> Seq<Seq<Point>> {
    if i == lines.len() {
        lines.push(s)
    } else {
        lines.update(i, s)
    }
}

impl Plot {
    /// The mathematical content of a plot: its line series, each a sequence
    /// of points.
    pub open spec fn lines(self) -> Seq<Seq<Point>> {
        self.line_data@.map_values(|s: LineSeries| s@)
    }

    /// An empty plot, holding no series.
    pub fn new() -> (p: Plot)
        ensures
            p.lines() == Seq::<Seq<Point>>::empty(),
    {
        let p = Plot { line_data: Vec::new() };
        proof {
            assert(p.lines() =~= Seq::<Seq<Point>>::empty());
        }
        p
    }

    /// Writes `xy_data` at index `i`: an overwrite if `i` addresses an
    /// existing series, an append if `i` equals the current length. Any
    /// larger `i` is rejected with `IndexOutOfRange` carrying `i` and the
    /// current length, and the plot is left unchanged.
    pub fn set_line(&mut self, i: usize, xy_data: LineSeries) -> (r: Result<(), Error>)
        ensures
            set_line_ok(old(self).lines(), i as int) ==> {
                &&& r == Ok::<(), Error>(())
                &&& final(self).lines() == set_line_lines(old(self).lines(), i as int, xy_data@)
            },
            !set_line_ok(old(self).lines(), i as int) ==> {
                &&& r == Err::<(), Error>(Error::IndexOutOfRange {
                    index: i,
                    bound: old(self).line_data.len(),
                })
                &&& *final(self) == *old(self)
            },
    {
        let n = self.line_data.len();
        if i > n {
            Err(Error::IndexOutOfRange { index: i, bound: n })
        } else {
            if i == n {
                self.line_data.push(xy_data);
            } else {
                self.line_data[i] = xy_data;
            }
            proof {
                assert(self.lines() =~= set_line_lines(old(self).lines(), i as int, xy_data@));
            }
            Ok(())
        }
    }

    /// Appends a new series after the last index. Appending never goes out of
    /// bounds, so this always succeeds and grows the plot by exactly one
    /// series.
    pub fn add_line(&mut self, xy_data: LineSeries) -> (r: Result<(), Error>)
        ensures
            r == Ok::<(), Error>(()),
            final(self).lines() == old(self).lines().push(xy_data@),
    {
        let n = self.line_data.len();
        self.set_line(n, xy_data)
    }
}

/// Appending is the boundary case of writing: for every plot content `lines`
/// and series `s`, writing `s` at the current length is permitted, produces
/// exactly the appended content, and grows the plot by exactly one series.
pub proof fn lemma_add_line_is_set_line_at_len(lines: Seq<Seq<Point>>, s: Seq<Point>)
    ensures
        set_line_ok(lines, lines.len() as int),
        set_line_lines(lines, lines.len() as int, s) == lines.push(s),
        set_line_lines(lines, lines.len() as int, s).len() == lines.len() + 1,
{
}

/// The pointwise pairing of two coordinate sequences: one point per index of
/// the shorter sequence; entries beyond the shorter sequence's length take no
/// part.
pub open spec fn zipped_points(x: Seq<u64>, y: Seq<u64>) -> Seq<Point> {
    Seq::new(
        if x.len() <= y.len() {
            x.len()
        } else {
            y.len()
        },
        |i: int| Point { x: x[i], y: y[i] },
    )
}

/// Zips two coordinate sequences pointwise into a line series. Pairs beyond
/// the shorter sequence's length are dropped silently; a length mismatch is
/// not an error.
pub fn zip_line(x: &Vec<u64>, y: &Vec<u64>) -> (s: LineSeries)
    ensures
        s@ == zipped_points(x@, y@),
{
    let n = if x.len() <= y.len() {
        x.len()
    } else {
        y.len()
    };
    let mut s: Vec<Point> = Vec::new();
    let mut k: usize = 0;
    while k < n
        invariant
            k <= n,
            n <= x@.len(),
            n <= y@.len(),
            n == zipped_points(x@, y@).len(),
            s@ == zipped_points(x@, y@).take(k as int),
        decreases n - k,
    {
        s.push(Point { x: x[k], y: y[k] });
        proof {
            assert(s@ =~= zipped_points(x@, y@).take(k as int + 1));
        }
        k = k + 1;
    }
    proof {
        assert(zipped_points(x@, y@).take(n as int) =~= zipped_points(x@, y@));
    }
    s
}

} // verus!
