use vstd::prelude::*;

verus! {

/// A fixed-size grid of optional cells, stored row by row.
///
/// The cell `(x, y)` lives at index `x + y * width` of the backing store.
#[derive(Debug)]
pub struct VecGrid<T> {
    data: Vec<Option<T>>,
    width: usize,
    height: usize,
}

impl<T> VecGrid<T> {
    /// A grid holds exactly `width * height` cells.
    #[verifier::type_invariant]
    pub closed spec fn wf(&self) -> bool {
        self.data.len() == self.width * self.height
    }

    /// Number of columns.
    pub closed spec fn width(&self) -> nat {
        self.width as nat
    }

    /// Number of rows.
    pub closed spec fn height(&self) -> nat {
        self.height as nat
    }

    /// The backing store, row by row.
    pub closed spec fn cells(&self) -> Seq<Option<T>> {
        self.data@
    }

    /// Whether `(x, y)` names a cell of the grid.
    pub open spec fn in_bounds(&self, x: int, y: int) -> bool {
        0 <= x < self.width() && 0 <= y < self.height()
    }

    /// The content of cell `(x, y)`; empty outside the grid.
    pub open spec fn at(&self, x: int, y: int) -> Option<T> {
        if self.in_bounds(x, y) {
            self.cells()[x + y * self.width()]
        } else {
            None
        }
    }

    /// A well-formed grid holds exactly `width * height` cells, and their
    /// number fits a `usize`.
    pub proof fn lemma_len(self)
        requires
            self.wf(),
        ensures
            self.cells().len() == self.width() * self.height(),
            self.width() * self.height() <= usize::MAX,
    {
    }

    /// A grid of `width` by `height` empty cells.
    pub fn new(width: usize, height: usize) -> (grid: VecGrid<T>)
        requires
            width * height <= usize::MAX,
        ensures
            grid.wf(),
            grid.width() == width,
            grid.height() == height,
            grid.cells() == Seq::new((width * height) as nat, |i: int| None::<T>),
            forall|x: int, y: int| (#[trigger] grid.at(x, y)).is_none(),
    {
        let n: usize = width * height;
        let mut data: Vec<Option<T>> = Vec::with_capacity(n);
        let mut i: usize = 0;
        while i < n
            invariant
                i <= n,
                data@.len() == i,
                forall|k: int| 0 <= k < i ==> data@[k].is_none(),
            decreases n - i,
        {
            data.push(None);
            i += 1;
        }
        assert(data@ =~= Seq::new((width * height) as nat, |i: int| None::<T>));
        let grid = VecGrid { data, width, height };
        proof {
            assert forall|x: int, y: int| (#[trigger] grid.at(x, y)).is_none() by {
                if grid.in_bounds(x, y) {
                    lemma_index_in_range(x, y, width as int, height as int);
                }
            }
        }
        grid
    }

    /// The cell at `(x, y)`, or nothing when the cell is empty or `(x, y)`
    /// lies outside the grid.
    pub fn get(&self, x: usize, y: usize) -> (cell: Option<&T>)
        ensures
            match cell {
                Some(v) => self.at(x as int, y as int) == Some(*v),
                None => self.at(x as int, y as int).is_none(),
            },
    {
        proof {
            use_type_invariant(self);
        }
        if x < self.width && y < self.height {
            proof {
                lemma_index_in_range(x as int, y as int, self.width as int, self.height as int);
            }
            self.data[x + y * self.width].as_ref()
        } else {
            None
        }
    }

    /// Mutable access to the cell at `(x, y)`, or nothing when the cell is
    /// empty or `(x, y)` lies outside the grid. Whatever is written through
    /// the reference replaces the content of that one cell.
    pub fn get_mut(&mut self, x: usize, y: usize) -> (cell: Option<&mut T>)
        ensures
            final(self).wf(),
            final(self).width() == old(self).width(),
            final(self).height() == old(self).height(),
            match cell {
                Some(v) => old(self).at(x as int, y as int) == Some(*v)
                    && final(self).cells() == old(self).cells().update(
                    x + y * old(self).width(),
                    Some(*final(v)),
                ),
                None => old(self).at(x as int, y as int).is_none() && final(self).cells() == old(
                    self,
                ).cells(),
            },
    {
        proof {
            use_type_invariant(&*self);
        }
        if x < self.width && y < self.height {
            proof {
                lemma_index_in_range(x as int, y as int, self.width as int, self.height as int);
            }
            self.data[x + y * self.width].as_mut()
        } else {
            None
        }
    }

    /// Fills the cell at `(x, y)`, which must lie inside the grid.
    pub fn set(&mut self, cell: T, x: usize, y: usize)
        requires
            old(self).in_bounds(x as int, y as int),
        ensures
            final(self).wf(),
            final(self).width() == old(self).width(),
            final(self).height() == old(self).height(),
            final(self).cells() == old(self).cells().update(x + y * old(self).width(), Some(cell)),
            final(self).at(x as int, y as int) == Some(cell),
            forall|x2: int, y2: int|
                (x2, y2) != (x as int, y as int) ==> final(self).at(x2, y2) == old(self).at(x2, y2),
    {
        proof {
            use_type_invariant(&*self);
            lemma_index_in_range(x as int, y as int, self.width as int, self.height as int);
        }
        self.data[x + y * self.width] = Some(cell);
        proof {
            lemma_write_then_read(*old(self), *self, x as int, y as int, Some(cell));
        }
    }

    /// Empties the cell at `(x, y)`, which must lie inside the grid.
    pub fn delete(&mut self, x: usize, y: usize)
        requires
            old(self).in_bounds(x as int, y as int),
        ensures
            final(self).wf(),
            final(self).width() == old(self).width(),
            final(self).height() == old(self).height(),
            final(self).cells() == old(self).cells().update(x + y * old(self).width(), None),
            final(self).at(x as int, y as int).is_none(),
            forall|x2: int, y2: int|
                (x2, y2) != (x as int, y as int) ==> final(self).at(x2, y2) == old(self).at(x2, y2),
    {
        proof {
            use_type_invariant(&*self);
            lemma_index_in_range(x as int, y as int, self.width as int, self.height as int);
        }
        self.data[x + y * self.width] = None;
        proof {
            lemma_write_then_read(*old(self), *self, x as int, y as int, None);
        }
    }

    /// The backing store, row by row.
    pub fn get_data(&self) -> (data: &Vec<Option<T>>)
        ensures
            data@ == self.cells(),
            data@.len() == self.width() * self.height(),
    {
        proof {
            use_type_invariant(self);
        }
        &self.data
    }

    /// Replaces the whole grid by `data`, read row by row as a grid of
    /// `width` by `height` cells.
    pub fn set_data(&mut self, data: Vec<Option<T>>, width: usize, height: usize)
        requires
            data@.len() == width * height,
        ensures
            final(self).wf(),
            final(self).width() == width,
            final(self).height() == height,
            final(self).cells() == data@,
    {
        *self = VecGrid { data, width, height };
    }
}

/// A cell inside a `w` by `h` grid has a row-major index below `w * h`.
pub proof fn lemma_index_in_range(x: int, y: int, w: int, h: int)
    requires
        0 <= x < w,
        0 <= y < h,
    ensures
        0 <= y * w,
        0 <= x + y * w < w * h,
{
    assert(0 <= y * w) by (nonlinear_arith)
        requires
            0 <= y,
            0 <= w,
    ;
    assert(y * w <= (h - 1) * w) by (nonlinear_arith)
        requires
            0 <= y <= h - 1,
            0 <= w,
    ;
    assert((h - 1) * w == w * h - w) by (nonlinear_arith);
}

/// Two cells of a grid of width `w` share a row-major index only when they
/// are the same cell.
pub proof fn lemma_index_injective(x1: int, y1: int, x2: int, y2: int, w: int)
    requires
        0 <= x1 < w,
        0 <= x2 < w,
        x1 + y1 * w == x2 + y2 * w,
    ensures
        x1 == x2,
        y1 == y2,
{
    assert((y1 - y2) * w == x2 - x1) by (nonlinear_arith)
        requires
            x1 + y1 * w == x2 + y2 * w,
    ;
    if y1 != y2 {
        assert((y1 - y2) * w >= w || (y1 - y2) * w <= -w) by (nonlinear_arith)
            requires
                y1 != y2,
                w > 0,
        ;
    }
}

/// A row-major index below `w * h` names the cell `(i % w, i / w)`.
pub proof fn lemma_index_split(i: int, w: int, h: int)
    requires
        0 <= i < w * h,
        0 <= h,
        0 <= w,
    ensures
        0 <= i % w < w,
        0 <= i / w < h,
        i == i % w + (i / w) * w,
{
    assert(w > 0) by (nonlinear_arith)
        requires
            0 <= i < w * h,
            0 <= h,
            0 <= w,
    ;
    vstd::arithmetic::div_mod::lemma_fundamental_div_mod(i, w);
    vstd::arithmetic::div_mod::lemma_mod_bound(i, w);
    assert(i / w >= 0) by (nonlinear_arith)
        requires
            i >= 0,
            w > 0,
    ;
    assert(w * (i / w) == (i / w) * w) by (nonlinear_arith);
    if i / w >= h {
        assert((i / w) * w >= h * w) by (nonlinear_arith)
            requires
                i / w >= h,
                w > 0,
        ;
        assert(h * w == w * h) by (nonlinear_arith);
    }
}

/// What a grid holds after one cell has been rewritten: the new content in
/// that cell and the old content everywhere else.
///
/// This covers `set` followed by `get`, `delete` followed by `get`, and a
/// write through the reference that `get_mut` hands out.
pub proof fn lemma_write_then_read<T>(
    before: VecGrid<T>,
    after: VecGrid<T>,
    x: int,
    y: int,
    content: Option<T>,
)
    requires
        before.wf(),
        before.in_bounds(x, y),
        after.width() == before.width(),
        after.height() == before.height(),
        after.cells() == before.cells().update(x + y * before.width(), content),
    ensures
        after.at(x, y) == content,
        forall|x2: int, y2: int| (x2, y2) != (x, y) ==> after.at(x2, y2) == before.at(x2, y2),
{
    let w = before.width() as int;
    let h = before.height() as int;
    lemma_index_in_range(x, y, w, h);
    assert forall|x2: int, y2: int| (x2, y2) != (x, y) implies after.at(x2, y2) == before.at(
        x2,
        y2,
    ) by {
        if before.in_bounds(x2, y2) {
            lemma_index_in_range(x2, y2, w, h);
            if x2 + y2 * w == x + y * w {
                lemma_index_injective(x2, y2, x, y, w);
            }
        }
    }
}

/// A query outside the grid finds nothing.
pub proof fn lemma_outside_is_empty<T>(grid: VecGrid<T>, x: int, y: int)
    requires
        !grid.in_bounds(x, y),
    ensures
        grid.at(x, y).is_none(),
{
}

} // verus!
