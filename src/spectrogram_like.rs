use vstd::prelude::*;

verus! {

/// A contiguous buffer sliced into rows of equal width.
///
/// `all` holds the cells in row-major order. `lines` is the table of row
/// starts: entry `i` is the offset of row `i` in `all`. The frequency-axis
/// size is never stored; it is `all.len() / lines.len()`.
pub struct SpectrogramLike<T> {
    all: Vec<T>,
    lines: Vec<usize>,
}

impl<T> SpectrogramLike<T> {
    /// Number of rows (frames).
    pub closed spec fn time_axis(&self) -> nat {
        self.lines@.len()
    }

    /// Number of cells in each row.
    pub closed spec fn freq_axis(&self) -> nat {
        self.all@.len() / self.lines@.len()
    }

    /// All cells, row after row.
    pub closed spec fn cells(&self) -> Seq<T> {
        self.all@
    }

    /// The table of row starts.
    pub closed spec fn row_starts(&self) -> Seq<usize> {
        self.lines@
    }

    pub closed spec fn wf(&self) -> bool {
        &&& self.lines@.len() > 0
        &&& self.all@.len() <= usize::MAX
        &&& self.all@.len() / self.lines@.len() > 0
        &&& self.all@.len() == self.lines@.len() * (self.all@.len() / self.lines@.len())
        &&& forall|i: int|
            0 <= i < self.lines@.len() ==> #[trigger] self.lines@[i] == i * (self.all@.len()
                / self.lines@.len())
    }

    /// Cell `j` of row `i`.
    pub open spec fn cell(&self, i: int, j: int) -> T {
        self.cells()[i * self.freq_axis() + j]
    }

    /// Row `i` as a sequence of `freq_axis()` cells.
    pub open spec fn row(&self, i: int) -> Seq<T> {
        self.cells().subrange(i * self.freq_axis(), (i + 1) * self.freq_axis())
    }

    /// What a well-formed matrix guarantees about its shape and row table.
    pub proof fn lemma_shape(&self)
        requires
            self.wf(),
        ensures
            self.time_axis() > 0,
            self.freq_axis() > 0,
            self.cells().len() == self.time_axis() * self.freq_axis(),
            self.cells().len() <= usize::MAX,
            self.row_starts().len() == self.time_axis(),
            forall|i: int|
                0 <= i < self.time_axis() ==> #[trigger] self.row_starts()[i] == i
                    * self.freq_axis(),
    {
    }
}

impl<T> SpectrogramLike<T> {
    /// Number of rows.
    pub fn time_axis_size(&self) -> (r: usize)
        requires
            self.wf(),
        ensures
            r == self.time_axis(),
    {
        self.lines.len()
    }

    /// Number of cells in each row, recomputed from the buffer.
    pub fn frequency_axis_size(&self) -> (r: usize)
        requires
            self.wf(),
        ensures
            r == self.freq_axis(),
    {
        self.all.len() / self.lines.len()
    }

    /// Row `line`, or `None` when there is no such row.
    pub fn line(&self, line: usize) -> (r: Option<&[T]>)
        requires
            self.wf(),
        ensures
            line < self.time_axis() ==> r is Some && r->0@ == self.row(line as int),
            line >= self.time_axis() ==> r is None,
    {
        let f = self.frequency_axis_size();
        let total = self.all.len();
        if line < self.lines.len() {
            proof {
                self.lemma_shape();
                lemma_row_bounds(self.time_axis() as int, f as int, line as int, 0);
                assert((line + 1) * f <= total);
            }
            Some(vstd::slice::slice_subrange(self.all.as_slice(), line * f, (line + 1) * f))
        } else {
            None
        }
    }

    /// Row `line` for writing, or `None` when there is no such row. The other
    /// rows keep their cells.
    pub fn line_mut(&mut self, line: usize) -> (r: Option<&mut [T]>)
        requires
            old(self).wf(),
        ensures
            line < old(self).time_axis() ==> r is Some && (*r->0)@ == old(self).row(line as int),
            line < old(self).time_axis() ==> final(self).cells() == old(self).cells().subrange(
                0,
                line * old(self).freq_axis(),
            ) + (*final(r->0))@ + old(self).cells().subrange(
                (line + 1) * old(self).freq_axis(),
                old(self).cells().len() as int,
            ),
            final(self).row_starts() == old(self).row_starts(),
            line < old(self).time_axis() && (*final(r->0))@.len() == old(self).freq_axis()
                ==> final(self).wf() && final(self).freq_axis() == old(self).freq_axis(),
            line >= old(self).time_axis() ==> r is None && *final(self) == *old(self),
    {
        let f = self.frequency_axis_size();
        let total = self.all.len();
        if line < self.lines.len() {
            proof {
                self.lemma_shape();
                lemma_row_bounds(self.time_axis() as int, f as int, line as int, 0);
                assert((line + 1) * f <= total);
            }
            let (_, rest) = self.all.as_mut_slice().split_at_mut(line * f);
            let (row, _) = rest.split_at_mut(f);
            Some(row)
        } else {
            None
        }
    }

    /// Every row, in increasing row order.
    pub fn lines(&self) -> (r: Vec<&[T]>)
        requires
            self.wf(),
        ensures
            r@.len() == self.time_axis(),
            forall|i: int| 0 <= i < self.time_axis() ==> (#[trigger] r@[i])@ == self.row(i),
    {
        let t = self.time_axis_size();
        let f = self.frequency_axis_size();
        let total = self.all.len();
        let mut out: Vec<&[T]> = Vec::with_capacity(t);
        let mut i: usize = 0;
        while i < t
            invariant
                self.wf(),
                t == self.time_axis(),
                f == self.freq_axis(),
                total == self.cells().len(),
                i <= t,
                out@.len() == i,
                forall|k: int| 0 <= k < i ==> (#[trigger] out@[k])@ == self.row(k),
            decreases t - i,
        {
            proof {
                self.lemma_shape();
                lemma_row_bounds(t as int, f as int, i as int, 0);
                assert((i + 1) * f <= total);
            }
            out.push(vstd::slice::slice_subrange(self.all.as_slice(), i * f, (i + 1) * f));
            i = i + 1;
        }
        out
    }

    /// Every row for writing, in increasing row order. The contract gives
    /// each row's contents and keeps the row table, but not what the matrix
    /// holds after writes through the rows: that relation would run through
    /// the matrix while its buffer is still borrowed, which Verus refuses to
    /// mention. Verified callers that write use `line_mut`, which states it.
    pub fn lines_mut(&mut self) -> (r: Vec<&mut [T]>)
        requires
            old(self).wf(),
        ensures
            r@.len() == old(self).time_axis(),
            forall|i: int|
                0 <= i < old(self).time_axis() ==> (*#[trigger] r@[i])@ == old(self).row(i),
            final(self).row_starts() == old(self).row_starts(),
    {
        let t = self.time_axis_size();
        let f = self.frequency_axis_size();
        let total = self.all.len();
        proof {
            self.lemma_shape();
        }
        let ghost cells = self.cells();
        let mut rest: &mut [T] = self.all.as_mut_slice();
        let mut out: Vec<&mut [T]> = Vec::with_capacity(t);
        let mut i: usize = 0;
        while i < t
            invariant
                i <= t,
                f > 0,
                total == t * f,
                cells.len() == total,
                out@.len() == i,
                rest@ == cells.subrange(i * f, total as int),
                forall|k: int| 0 <= k < i ==> (*#[trigger] out@[k])@ == cells.subrange(k * f, (k + 1) * f),
            decreases t - i,
        {
            proof {
                lemma_row_bounds(t as int, f as int, i as int, 0);
            }
            let (row, tail) = rest.split_at_mut(f);
            out.push(row);
            rest = tail;
            i = i + 1;
        }
        out
    }

    /// The row table: entry `i` is where row `i` starts among the cells.
    pub fn as_ptr(&self) -> (r: &[usize])
        requires
            self.wf(),
        ensures
            r@ == self.row_starts(),
    {
        self.lines.as_slice()
    }

    /// The row table together with the cells for writing. Whatever is written
    /// into the cells becomes the matrix's cells; the table stays as it was.
    pub fn as_mut_ptr(&mut self) -> (r: (&[usize], &mut [T]))
        requires
            old(self).wf(),
        ensures
            r.0@ == old(self).row_starts(),
            (*r.1)@ == old(self).cells(),
            final(self).cells() == (*final(r.1))@,
            final(self).row_starts() == old(self).row_starts(),
            (*final(r.1))@.len() == old(self).cells().len() ==> final(self).wf()
                && final(self).freq_axis() == old(self).freq_axis(),
    {
        (self.lines.as_slice(), self.all.as_mut_slice())
    }

    /// Entry `i` of the row table, offset by a column `j`, addresses cell
    /// `(i, j)` and stays within the cells.
    pub proof fn lemma_cell_index(&self, i: int, j: int)
        requires
            self.wf(),
            0 <= i < self.time_axis(),
            0 <= j < self.freq_axis(),
        ensures
            self.row_starts().len() == self.time_axis(),
            self.row_starts()[i] + j == i * self.freq_axis() + j,
            0 <= self.row_starts()[i] + j < self.cells().len() <= usize::MAX,
            self.row(i)[j] == self.cells()[self.row_starts()[i] + j],
    {
        self.lemma_shape();
        lemma_row_bounds(self.time_axis() as int, self.freq_axis() as int, i, j);
    }

    /// Writing `v` into the cell that entry `i` of the row table, offset by
    /// `j`, addresses (as `as_mut_ptr` lets a caller do), then reading row `i`
    /// with `line`, gives `v` back at column `j`; the shape is kept and every
    /// other cell keeps its value.
    pub proof fn lemma_write_through_table(before: Self, after: Self, i: int, j: int, v: T)
        requires
            before.wf(),
            0 <= i < before.time_axis(),
            0 <= j < before.freq_axis(),
            after.row_starts() == before.row_starts(),
            after.cells() == before.cells().update(before.row_starts()[i] + j, v),
        ensures
            after.wf(),
            after.time_axis() == before.time_axis(),
            after.freq_axis() == before.freq_axis(),
            after.row(i)[j] == v,
            forall|k: int|
                0 <= k < after.cells().len() && k != i * after.freq_axis() + j
                    ==> #[trigger] after.cells()[k] == before.cells()[k],
    {
        before.lemma_shape();
        let f = before.freq_axis() as int;
        lemma_row_bounds(before.time_axis() as int, f, i, j);
        assert(after.all@.len() / after.lines@.len() == f);
        assert(after.row(i)[j] == after.cells()[i * f + j]);
    }

    /// Writing `v` into column `j` of row `i` (as `line_mut` lets a caller do),
    /// then reading row `i`, gives `v` back at column `j`; entry `i` of the row
    /// table, offset by `j`, addresses that same cell; every other cell keeps
    /// its value.
    pub proof fn lemma_write_then_read(before: Self, after: Self, i: int, j: int, v: T)
        requires
            before.wf(),
            0 <= i < before.time_axis(),
            0 <= j < before.freq_axis(),
            after.row_starts() == before.row_starts(),
            after.cells() == before.cells().subrange(0, i * before.freq_axis()) + before.row(
                i,
            ).update(j, v) + before.cells().subrange(
                (i + 1) * before.freq_axis(),
                before.cells().len() as int,
            ),
        ensures
            after.wf(),
            after.freq_axis() == before.freq_axis(),
            after.row(i)[j] == v,
            after.cell(i, j) == v,
            after.cells()[after.row_starts()[i] + j] == after.row(i)[j],
            forall|k: int|
                0 <= k < after.cells().len() && k != i * after.freq_axis() + j
                    ==> #[trigger] after.cells()[k] == before.cells()[k],
    {
        before.lemma_shape();
        let f = before.freq_axis() as int;
        let t = before.time_axis() as int;
        lemma_row_bounds(t, f, i, j);
        assert(after.cells().len() == before.cells().len());
        assert(after.all@.len() / after.lines@.len() == f);
        assert forall|k: int| 0 <= k < after.cells().len() && k != i * f + j implies #[trigger] after.cells()[k]
            == before.cells()[k] by {
            if k < i * f {
            } else if k < (i + 1) * f {
                assert(after.cells()[k] == before.row(i).update(j, v)[k - i * f]);
            } else {
            }
        }
        assert(after.row(i)[j] == after.cells()[i * f + j]);
    }
}

/// For a row `i < t` of a `t`-by-`f` matrix, its cells lie within `t * f`.
proof fn lemma_row_bounds(t: int, f: int, i: int, j: int)
    requires
        0 <= i < t,
        0 <= j < f,
    ensures
        0 <= i * f,
        i * f + j < (i + 1) * f,
        (i + 1) * f <= t * f,
        i * f + f == (i + 1) * f,
{
    assert(i * f + j < (i + 1) * f) by (nonlinear_arith)
        requires
            0 <= j < f,
    ;
    assert((i + 1) * f <= t * f) by (nonlinear_arith)
        requires
            0 <= i < t,
            0 < f,
    ;
    assert(0 <= i * f) by (nonlinear_arith)
        requires
            0 <= i,
            0 < f,
    ;
    assert(i * f + f == (i + 1) * f) by (nonlinear_arith);
}

/// The row table of a `t`-by-`f` matrix: entry `i` is `i * f`.
fn row_table(t: usize, f: usize) -> (r: Vec<usize>)
    requires
        f > 0,
        t * f <= usize::MAX,
    ensures
        r@.len() == t,
        forall|m: int| 0 <= m < t ==> #[trigger] r@[m] == m * f,
{
    let mut lines: Vec<usize> = Vec::with_capacity(t);
    let mut i: usize = 0;
    while i < t
        invariant
            i <= t,
            lines@.len() == i,
            t * f <= usize::MAX,
            f > 0,
            forall|m: int| 0 <= m < i ==> #[trigger] lines@[m] == m * f,
        decreases t - i,
    {
        proof {
            lemma_row_bounds(t as int, f as int, i as int, 0);
        }
        lines.push(i * f);
        i = i + 1;
    }
    lines
}

impl<T> SpectrogramLike<T> {
    /// A matrix of `time_axis_size` rows over `cells`, taken row after row;
    /// `None` unless there is at least one row, at least one cell, and the
    /// row count divides the cell count.
    pub fn from_row_major(time_axis_size: usize, cells: Vec<T>) -> (r: Option<SpectrogramLike<T>>)
        ensures
            r is Some <==> (time_axis_size > 0 && cells@.len() > 0 && (cells@.len() as int) % (
            time_axis_size as int) == 0),
            r matches Some(m) ==> m.wf() && m.time_axis() == time_axis_size && m.cells()
                == cells@ && m.freq_axis() == (cells@.len() as int) / (time_axis_size as int),
    {
        if time_axis_size == 0 || cells.len() == 0 || cells.len() % time_axis_size != 0 {
            return None;
        }
        let n = cells.len();
        let f = n / time_axis_size;
        proof {
            assert(n == time_axis_size * f) by (nonlinear_arith)
                requires
                    (n as int) % (time_axis_size as int) == 0,
                    f == (n as int) / (time_axis_size as int),
                    time_axis_size > 0,
            ;
            assert(f > 0) by (nonlinear_arith)
                requires
                    n == time_axis_size * f,
                    n > 0,
            ;
        }
        let lines = row_table(time_axis_size, f);
        Some(SpectrogramLike { all: cells, lines })
    }

    /// The row count, the row width and the cells, row after row.
    pub fn into_row_major(self) -> (r: (usize, usize, Vec<T>))
        requires
            self.wf(),
        ensures
            r.0 == self.time_axis(),
            r.1 == self.freq_axis(),
            r.2@ == self.cells(),
    {
        let t = self.time_axis_size();
        let f = self.frequency_axis_size();
        (t, f, self.all)
    }
}

impl<T: Default + Copy> SpectrogramLike<T> {
    /// A `time_axis_size` by `frequency_axis_size` matrix whose cells all hold
    /// `T::default()`.
    pub fn new(time_axis_size: usize, frequency_axis_size: usize) -> (r: SpectrogramLike<T>)
        requires
            time_axis_size > 0,
            frequency_axis_size > 0,
            time_axis_size * frequency_axis_size <= usize::MAX,
        ensures
            r.wf(),
            r.time_axis() == time_axis_size,
            r.freq_axis() == frequency_axis_size,
            forall|k: int|
                0 <= k < r.cells().len() ==> call_ensures(T::default, (), #[trigger] r.cells()[k]),
    {
        let n: usize = time_axis_size * frequency_axis_size;
        let zero = T::default();
        let mut all: Vec<T> = Vec::with_capacity(n);
        let mut k: usize = 0;
        while k < n
            invariant
                k <= n,
                all@.len() == k,
                call_ensures(T::default, (), zero),
                forall|m: int| 0 <= m < k ==> #[trigger] all@[m] == zero,
            decreases n - k,
        {
            all.push(zero);
            k = k + 1;
        }
        let lines = row_table(time_axis_size, frequency_axis_size);
        proof {
            assert((n as int) / (time_axis_size as int) == frequency_axis_size as int) by (nonlinear_arith)
                requires
                    n == time_axis_size * frequency_axis_size,
                    time_axis_size > 0,
            ;
        }
        SpectrogramLike { all, lines }
    }
}

} // verus!
