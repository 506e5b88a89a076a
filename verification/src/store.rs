use vstd::prelude::*;

use crate::error::Error;
use crate::figure::{grid_with_appended, grid_with_height, is_new_grid, locate_plot, Figure};
use crate::plot::{zip_line, zipped_points};

verus! {

/// The single shared resource of a canvas: a mapping from figure name to
/// figure. The store is the sole owner of all figure data; handles held by
/// external callers carry only a name (and grid coordinates) and are resolved
/// against the store on every access. The embedding application guards the
/// store with a lock — every operation below is one critical section's worth
/// of work.
pub struct FigureStore {
    names: Vec<String>,
    figs: Vec<Figure>,
}

impl View for FigureStore {
    type V = Map<Seq<char>, Figure>;

    /// The store, abstractly: a finite map from figure name to figure.
    closed spec fn view(&self) -> Map<Seq<char>, Figure> {
        Map::new(
            |k: Seq<char>| self.contains_name(k),
            |k: Seq<char>| self.figs@[self.index_of(k)],
        )
    }
}

impl FigureStore {
    /// Internal well-formedness: one figure per name, names pairwise
    /// distinct. Established by `new` and preserved by every operation.
    pub closed spec fn wf(self) -> bool {
        &&& self.names@.len() == self.figs@.len()
        &&& forall|i: int, j: int|
            0 <= i < j < self.names@.len() ==> self.names@[i]@ != self.names@[j]@
    }

    /// The figure names in insertion order. Replacing a figure keeps its
    /// name's position; a new name goes to the end.
    pub closed spec fn name_seq(self) -> Seq<Seq<char>> {
        self.names@.map_values(|s: String| s@)
    }

    spec fn contains_name(self, k: Seq<char>) -> bool {
        exists|i: int| 0 <= i < self.names@.len() && self.names@[i]@ == k
    }

    spec fn index_of(self, k: Seq<char>) -> int {
        choose|i: int| 0 <= i < self.names@.len() && self.names@[i]@ == k
    }

    proof fn lemma_index_of(self, k: Seq<char>, i: int)
        requires
            self.wf(),
            0 <= i < self.names@.len(),
            self.names@[i]@ == k,
        ensures
            self.contains_name(k),
            self.index_of(k) == i,
    {
        assert(self.contains_name(k));
        let j = self.index_of(k);
        assert(0 <= j < self.names@.len() && self.names@[j]@ == k);
        if i < j {
            assert(self.names@[i]@ != self.names@[j]@);
        } else if j < i {
            assert(self.names@[j]@ != self.names@[i]@);
        }
    }

    /// The number of figures in the store.
    pub fn len(&self) -> (n: usize)
        requires
            self.wf(),
        ensures
            n == self.name_seq().len(),
    {
        self.names.len()
    }

    /// An empty store, owning no figures.
    pub fn new() -> (s: FigureStore)
        ensures
            s.wf(),
            s@ == Map::<Seq<char>, Figure>::empty(),
            s.name_seq() == Seq::<Seq<char>>::empty(),
    {
        let s = FigureStore { names: Vec::new(), figs: Vec::new() };
        proof {
            assert(s@ =~= Map::<Seq<char>, Figure>::empty());
            assert(s.name_seq() =~= Seq::<Seq<char>>::empty());
        }
        s
    }

    /// Finds the storage slot of `name`, if the name is present.
    fn find(&self, name: &String) -> (r: Option<usize>)
        requires
            self.wf(),
        ensures
            match r {
                Some(i) => {
                    &&& i < self.names@.len()
                    &&& self.names@[i as int]@ == name@
                    &&& self@.dom().contains(name@)
                    &&& self.index_of(name@) == i as int
                    &&& self@[name@] == self.figs@[i as int]
                },
                None => !self@.dom().contains(name@),
            },
    {
        let n = self.names.len();
        let mut i: usize = 0;
        while i < n
            invariant
                i <= n,
                n == self.names@.len(),
                self.wf(),
                forall|j: int| 0 <= j < i ==> self.names@[j]@ != name@,
            decreases n - i,
        {
            if self.names[i] == *name {
                proof {
                    self.lemma_index_of(name@, i as int);
                }
                return Some(i);
            }
            i = i + 1;
        }
        None
    }

    /// Inserts a fresh `nrows` by `ncols` grid under `name`. If the name is
    /// already taken, the new figure replaces the old one without warning —
    /// last write wins; every other entry is untouched.
    ///
    /// Handles issued against the replaced figure are not detected: a handle
    /// carries only the name, so on its next access it resolves to the new
    /// figure, and coordinates outside the new shape fail with
    /// `IndexOutOfRange` against the new bounds. That re-validation is the
    /// chosen policy for handles that outlive their referent.
    pub fn add_figure(&mut self, name: String, nrows: usize, ncols: usize)
        requires
            old(self).wf(),
        ensures
            final(self).wf(),
            final(self)@.dom() == old(self)@.dom().insert(name@),
            is_new_grid(final(self)@[name@], nrows as int, ncols as int),
            forall|k: Seq<char>|
                k != name@ && old(self)@.dom().contains(k) ==> final(self)@[k] == old(self)@[k],
            old(self)@.dom().contains(name@) ==> final(self).name_seq() == old(self).name_seq(),
            !old(self)@.dom().contains(name@) ==> final(self).name_seq() == old(
                self,
            ).name_seq().push(name@),
    {
        let fig = Figure::new(nrows, ncols);
        match self.find(&name) {
            Some(i) => {
                self.figs[i] = fig;
                proof {
                    self.lemma_replace_at(*old(self), name@, i as int);
                }
            },
            None => {
                self.names.push(name);
                self.figs.push(fig);
                proof {
                    self.lemma_push_new(*old(self), name@);
                }
            },
        }
    }

    /// After overwriting the figure slot `i` (the slot of `name`), the map
    /// gains nothing and loses nothing but the value at `name`.
    proof fn lemma_replace_at(self, prev: FigureStore, name: Seq<char>, i: int)
        requires
            prev.wf(),
            0 <= i < prev.names@.len(),
            prev.names@[i]@ == name,
            self.names@ == prev.names@,
            self.figs@ == prev.figs@.update(i, self.figs@[i]),
            prev.figs@.len() == prev.names@.len(),
        ensures
            self.wf(),
            self@.dom() == prev@.dom().insert(name),
            self@[name] == self.figs@[i],
            forall|k: Seq<char>| k != name && prev@.dom().contains(k) ==> self@[k] == prev@[k],
            self.name_seq() == prev.name_seq(),
    {
        assert(self.name_seq() =~= prev.name_seq());
        assert(self@.dom() =~= prev@.dom().insert(name)) by {
            prev.lemma_index_of(name, i);
            assert forall|k: Seq<char>| self.contains_name(k) implies prev.contains_name(
                k,
            ) by {
                let j = choose|j: int|
                    0 <= j < self.names@.len() && self.names@[j]@ == k;
                assert(prev.names@[j]@ == k);
            }
        }
        self.lemma_index_of(name, i);
        assert forall|k: Seq<char>| k != name && prev@.dom().contains(k) implies self@[k]
            == prev@[k] by {
            let j = prev.index_of(k);
            assert(0 <= j < prev.names@.len() && prev.names@[j]@ == k);
            prev.lemma_index_of(k, j);
            self.lemma_index_of(k, j);
            assert(j != i);
        }
    }

    /// After pushing a brand-new name and its figure, the map is the old map
    /// plus the one new entry, and the name order gains the name at the end.
    proof fn lemma_push_new(self, prev: FigureStore, name: Seq<char>)
        requires
            prev.wf(),
            !prev.contains_name(name),
            self.names@.len() == prev.names@.len() + 1,
            self.names@ == prev.names@.push(self.names@[prev.names@.len() as int]),
            self.names@[prev.names@.len() as int]@ == name,
            self.figs@ == prev.figs@.push(self.figs@[prev.figs@.len() as int]),
            prev.figs@.len() == prev.names@.len(),
        ensures
            self.wf(),
            self@.dom() == prev@.dom().insert(name),
            self@[name] == self.figs@[prev.figs@.len() as int],
            forall|k: Seq<char>| k != name && prev@.dom().contains(k) ==> self@[k] == prev@[k],
            self.name_seq() == prev.name_seq().push(name),
    {
        let n = prev.names@.len() as int;
        assert(self.wf()) by {
            assert forall|i: int, j: int|
                0 <= i < j < self.names@.len() implies self.names@[i]@ != self.names@[j]@ by {
                if j < n {
                    assert(prev.names@[i]@ != prev.names@[j]@);
                } else {
                    assert(self.names@[j]@ == name);
                    assert(prev.names@[i]@ == self.names@[i]@);
                    if self.names@[i]@ == name {
                        assert(prev.contains_name(name));
                    }
                }
            }
        }
        assert(self.name_seq() =~= prev.name_seq().push(name));
        self.lemma_index_of(name, n);
        assert(self@.dom() =~= prev@.dom().insert(name)) by {
            assert forall|k: Seq<char>| self.contains_name(k) && k != name
                implies prev.contains_name(k) by {
                let j = choose|j: int|
                    0 <= j < self.names@.len() && self.names@[j]@ == k;
                assert(j != n);
                assert(prev.names@[j]@ == k);
            }
            assert forall|k: Seq<char>| prev.contains_name(k) implies self.contains_name(
                k,
            ) by {
                let j = choose|j: int|
                    0 <= j < prev.names@.len() && prev.names@[j]@ == k;
                assert(self.names@[j]@ == k);
            }
        }
        assert forall|k: Seq<char>| k != name && prev@.dom().contains(k) implies self@[k]
            == prev@[k] by {
            let j = prev.index_of(k);
            assert(0 <= j < prev.names@.len() && prev.names@[j]@ == k);
            prev.lemma_index_of(k, j);
            self.lemma_index_of(k, j);
        }
    }

    /// Resolves grid coordinates against the named figure, exactly as a plot
    /// handle must on every access: `NotFound` if the name has vanished from
    /// the store, `IndexOutOfRange` (citing the coordinate and its bound) if
    /// the grid is too small, and success otherwise.
    pub fn plot(&self, name: &String, row: usize, col: usize) -> (r: Result<(), Error>)
        requires
            self.wf(),
        ensures
            r == if self@.dom().contains(name@) {
                locate_plot(self@[name@], row, col)
            } else {
                Err::<(), Error>(Error::NotFound)
            },
    {
        match self.find(name) {
            None => Err(Error::NotFound),
            Some(i) => {
                let fig = &self.figs[i];
                let n = fig.plot_rows.len();
                if row >= n {
                    Err(Error::IndexOutOfRange { index: row, bound: n })
                } else {
                    let m = fig.plot_rows[row].plots.len();
                    if col >= m {
                        Err(Error::IndexOutOfRange { index: col, bound: m })
                    } else {
                        Ok(())
                    }
                }
            },
        }
    }

    /// Zips the two coordinate sequences into one line series — pairs beyond
    /// the shorter sequence are dropped silently — and appends it to the plot
    /// at (`row`, `col`) of the named figure. Fails, leaving the store
    /// unchanged, exactly where resolution fails: `NotFound` for a vanished
    /// name, `IndexOutOfRange` for coordinates outside the current grid.
    pub fn add_line_at(
        &mut self,
        name: &String,
        row: usize,
        col: usize,
        x: &Vec<u64>,
        y: &Vec<u64>,
    ) -> (r: Result<(), Error>)
        requires
            old(self).wf(),
        ensures
            final(self).wf(),
            final(self).name_seq() == old(self).name_seq(),
            r == if old(self)@.dom().contains(name@) {
                locate_plot(old(self)@[name@], row, col)
            } else {
                Err::<(), Error>(Error::NotFound)
            },
            r is Err ==> *final(self) == *old(self),
            r is Ok ==> {
                &&& final(self)@.dom() == old(self)@.dom()
                &&& forall|k: Seq<char>|
                    k != name@ && old(self)@.dom().contains(k) ==> final(self)@[k] == old(
                        self,
                    )@[k]
                &&& grid_with_appended(
                    old(self)@[name@],
                    final(self)@[name@],
                    row as int,
                    col as int,
                    zipped_points(x@, y@),
                )
            },
    {
        match self.find(name) {
            None => Err(Error::NotFound),
            Some(i) => {
                let n = self.figs[i].plot_rows.len();
                if row >= n {
                    return Err(Error::IndexOutOfRange { index: row, bound: n });
                }
                let m = self.figs[i].plot_rows[row].plots.len();
                if col >= m {
                    return Err(Error::IndexOutOfRange { index: col, bound: m });
                }
                let series = zip_line(x, y);
                let r = self.figs[i].plot_rows[row].plots[col].add_line(series);
                proof {
                    self.lemma_replace_at(*old(self), name@, i as int);
                }
                r
            },
        }
    }

    /// The name of the figure in slot `i`, in insertion order — the order the
    /// render loop walks once per frame.
    pub fn name_at(&self, i: usize) -> (r: &String)
        requires
            self.wf(),
            i < self.name_seq().len(),
        ensures
            r@ == self.name_seq()[i as int],
            self@.dom().contains(r@),
    {
        proof {
            self.lemma_index_of(self.names@[i as int]@, i as int);
        }
        &self.names[i]
    }

    /// The figure in slot `i`, for the render loop's read of one frame.
    pub fn figure_at(&self, i: usize) -> (r: &Figure)
        requires
            self.wf(),
            i < self.name_seq().len(),
        ensures
            *r == self@[self.name_seq()[i as int]],
    {
        proof {
            self.lemma_index_of(self.names@[i as int]@, i as int);
        }
        &self.figs[i]
    }

    /// The per-frame layout step for the figure in slot `i`: assigns
    /// `row_height` — the caller's even share of that figure's just-rendered
    /// content height — to every row of that figure. No other entry changes.
    pub fn split_height_at(&mut self, i: usize, row_height: u32)
        requires
            old(self).wf(),
            i < old(self).name_seq().len(),
        ensures
            final(self).wf(),
            final(self).name_seq() == old(self).name_seq(),
            final(self)@.dom() == old(self)@.dom(),
            forall|k: Seq<char>|
                k != old(self).name_seq()[i as int] && old(self)@.dom().contains(k)
                    ==> final(self)@[k] == old(self)@[k],
            grid_with_height(
                old(self)@[old(self).name_seq()[i as int]],
                final(self)@[old(self).name_seq()[i as int]],
                row_height,
            ),
    {
        proof {
            self.lemma_index_of(self.names@[i as int]@, i as int);
        }
        self.figs[i].split_height(row_height);
        proof {
            self.lemma_replace_at(*old(self), old(self).names@[i as int]@, i as int);
            assert(old(self)@.dom().insert(old(self).names@[i as int]@) =~= old(self)@.dom());
        }
    }
}

} // verus!
