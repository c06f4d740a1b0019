//! The grid container: a contiguous row-major buffer of `width * height`
//! elements, together with the addressing, adjacency and mutation
//! operations, all stated over the buffer's sequence view.

use vstd::prelude::*;

use crate::pos::GridPos;
use crate::rows::lemma_flatten_len;
use crate::rows::rows_seq;
use crate::rows::uniform_width;

verus! {

/// The linear index addressed by `(row, col)` in a grid of the given
/// `width` and `size`: `row * width + col` when the column lies within the
/// width and the computed index lies within the size, and nothing
/// otherwise.
pub open spec fn pos_index(width: int, size: int, row: int, col: int) -> Option<int> {
    if col < width && row * width + col < size {
        Some(row * width + col)
    } else {
        None
    }
}

/// The linear index wrapped by an optional handle.
pub open spec fn opt_index(o: Option<GridPos>) -> Option<int> {
    match o {
        Some(p) => Some(p.index()),
        None => None,
    }
}

/// The cell above index `i`: present exactly when `i` is not in the first
/// row.
pub open spec fn neighbor_up(i: int, width: int) -> Option<int> {
    if i >= width {
        Some(i - width)
    } else {
        None
    }
}

/// The cell to the right of index `i`: present exactly when `i` is not in
/// the last column.
pub open spec fn neighbor_right(i: int, width: int) -> Option<int> {
    if i % width + 1 < width {
        Some(i + 1)
    } else {
        None
    }
}

/// The cell below index `i`: present exactly when `i` is not in the last
/// row.
pub open spec fn neighbor_down(i: int, width: int, size: int) -> Option<int> {
    if i < size - width {
        Some(i + width)
    } else {
        None
    }
}

/// The cell to the left of index `i`: present exactly when `i` is not in
/// the first column.
pub open spec fn neighbor_left(i: int, width: int) -> Option<int> {
    if i % width > 0 {
        Some(i - 1)
    } else {
        None
    }
}

/// The four neighbor slots of index `i`, in clockwise order starting at Up:
/// Up, Right, Down, Left.
pub open spec fn spec_neighbors(i: int, width: int, size: int) -> Seq<Option<int>> {
    seq![
        neighbor_up(i, width),
        neighbor_right(i, width),
        neighbor_down(i, width, size),
        neighbor_left(i, width),
    ]
}

/// A present neighbor as a one-element sequence, an absent one as the empty
/// sequence.
pub open spec fn opt_to_seq(o: Option<int>) -> Seq<int> {
    match o {
        Some(i) => seq![i],
        None => Seq::empty(),
    }
}

/// The present neighbors of index `i`, in Up/Right/Down/Left order with
/// absent slots omitted.
pub open spec fn spec_neighbors_flat(i: int, width: int, size: int) -> Seq<int> {
    opt_to_seq(neighbor_up(i, width)) + opt_to_seq(neighbor_right(i, width)) + opt_to_seq(
        neighbor_down(i, width, size),
    ) + opt_to_seq(neighbor_left(i, width))
}

/// The linear indices wrapped by a sequence of handles.
pub open spec fn indices_of(ps: Seq<GridPos>) -> Seq<int> {
    ps.map_values(|p: GridPos| p.index())
}

/// The linear index reached from index `i` by a signed row and column
/// offset, in a grid of the given `width` and `size`: `i` is decomposed as
/// row `i / width` and column `i % width`, the offsets are added, and a
/// negative coordinate yields nothing.
pub open spec fn offset_index(i: int, width: int, ro: int, co: int, size: int) -> Option<int> {
    let row = i / width + ro;
    let col = i % width + co;
    if row < 0 || col < 0 {
        None
    } else {
        pos_index(width, size, row, col)
    }
}

/// The present neighbor indices among a sequence of optional slots, in
/// order.
pub open spec fn present_slots(s: Seq<Option<int>>) -> Seq<int> {
    s.filter(|o: Option<int>| o is Some).map_values(|o: Option<int>| o.unwrap())
}

/// For every coordinate pair in range — `col < width` and computed linear
/// index `row * width + col < size` — `pos_at` resolves to exactly that
/// linear index, so `get` at the resolved handle reads the element stored
/// for that row and column.
pub proof fn lemma_coordinate_lookup(width: int, size: int, row: int, col: int)
    requires
        0 <= row,
        0 <= col < width,
        row * width + col < size,
    ensures
        pos_index(width, size, row, col) == Some(row * width + col),
{
}

/// Presence of each neighbor slot of index `i`: Up exists exactly when `i`
/// is not in the first row, Right exactly when not in the last column,
/// Down exactly when not in the last row, Left exactly when not in the
/// first column.
pub proof fn lemma_neighbor_presence(i: int, width: int, size: int)
    requires
        width > 0,
        0 <= i,
    ensures
        neighbor_up(i, width) is Some <==> i >= width,
        neighbor_right(i, width) is Some <==> i % width + 1 < width,
        neighbor_down(i, width, size) is Some <==> i < size - width,
        neighbor_left(i, width) is Some <==> i % width > 0,
{
}

/// The flat neighbor list is the four-slot list with the absent slots
/// filtered out: it has one entry per present slot and keeps the
/// Up/Right/Down/Left order.
pub proof fn lemma_neighbors_flat_is_filter(i: int, width: int, size: int)
    ensures
        spec_neighbors_flat(i, width, size) == present_slots(spec_neighbors(i, width, size)),
{
    reveal_with_fuel(Seq::filter, 5);
    let u = neighbor_up(i, width);
    let r = neighbor_right(i, width);
    let d = neighbor_down(i, width, size);
    let l = neighbor_left(i, width);
    let s4 = seq![u, r, d, l];
    let s3 = seq![u, r, d];
    let s2 = seq![u, r];
    let s1 = seq![u];
    let s0 = Seq::<Option<int>>::empty();
    assert(s4.drop_last() =~= s3);
    assert(s3.drop_last() =~= s2);
    assert(s2.drop_last() =~= s1);
    assert(s1.drop_last() =~= s0);
    assert(present_slots(s0) =~= Seq::<int>::empty());
    assert(present_slots(s1) =~= opt_to_seq(u));
    assert(if r is Some {
        present_slots(s2) =~= present_slots(s1).push(r.unwrap())
    } else {
        present_slots(s2) =~= present_slots(s1)
    });
    assert(if d is Some {
        present_slots(s3) =~= present_slots(s2).push(d.unwrap())
    } else {
        present_slots(s3) =~= present_slots(s2)
    });
    assert(if l is Some {
        present_slots(s4) =~= present_slots(s3).push(l.unwrap())
    } else {
        present_slots(s4) =~= present_slots(s3)
    });
    assert(spec_neighbors_flat(i, width, size) =~= present_slots(s4));
}

/// A `put` at an in-range position makes a following `get` at the same
/// position return the value just put, and leaves every other cell as it
/// was.  (That an out-of-range `put` changes nothing is part of `put`'s
/// own contract.)
pub proof fn lemma_put_then_get<T>(s: Seq<T>, i: int, v: T)
    requires
        0 <= i < s.len(),
    ensures
        s.update(i, v).len() == s.len(),
        s.update(i, v)[i] == v,
        forall|j: int| 0 <= j < s.len() && j != i ==> s.update(i, v)[j] == s[j],
{
}

/// Round trip through nested rows: a grid built from uniform rows stores
/// `rows[row][col]` at linear index `row * width + col`, the very index
/// that `pos_at(row, col)` resolves to, so reading every coordinate back
/// through `pos_at` and `get` reproduces the rows exactly.
pub proof fn lemma_rows_round_trip<T>(rs: Seq<Seq<T>>, w: int, row: int, col: int)
    requires
        w > 0,
        uniform_width(rs, w),
        0 <= row < rs.len(),
        0 <= col < w,
    ensures
        pos_index(w, rs.flatten().len() as int, row, col) == Some(row * w + col),
        rs.flatten()[row * w + col] == rs[row][col],
{
    crate::rows::lemma_flatten_index(rs, w, row, col);
    assert(row * w + col < rs.len() * w) by (nonlinear_arith)
        requires
            0 <= row < rs.len(),
            0 <= col < w,
    ;
}

/// A fixed-size two-dimensional container backed by a single contiguous
/// buffer in row-major order.  `self@` is the buffer's contents;
/// `spec_width()` is the number of elements per row.
pub struct Grid<T> {
    data: Vec<T>,
    width: usize,
}

impl<T> View for Grid<T> {
    type V = Seq<T>;

    closed spec fn view(&self) -> Seq<T> {
        self.data@
    }
}

impl<T> Grid<T> {
    /// The number of elements per row.
    pub closed spec fn spec_width(&self) -> int {
        self.width as int
    }

    /// The buffer holds whole rows: its length is a multiple of the width,
    /// and a grid of width zero is empty.
    pub open spec fn well_formed(&self) -> bool {
        if self.spec_width() == 0 {
            self@.len() == 0
        } else {
            self@.len() as int % self.spec_width() == 0
        }
    }

    /// Wraps an already-flattened buffer together with its row width.  This
    /// low-level entry point does not validate that the buffer's length is a
    /// multiple of the width; the caller is responsible for it.
    pub fn new(width: usize, data: Vec<T>) -> (g: Grid<T>)
        ensures
            g@ == data@,
            g.spec_width() == width,
    {
        Grid { data, width }
    }

    /// The number of elements per row.
    pub fn width(&self) -> (w: usize)
        ensures
            w == self.spec_width(),
    {
        self.width
    }

    /// The total number of elements.
    pub fn size(&self) -> (n: usize)
        ensures
            n == self@.len(),
    {
        self.data.len()
    }

    /// Builds a grid from nested rows, flattening them in order; the width
    /// becomes the common row length.  Callers must supply at least one
    /// row, all of the same length as the first: `rows_uniform` checks
    /// exactly that, and rows of unequal length are a precondition
    /// violation, not a recoverable error.
    pub fn from_rows(rows: Vec<Vec<T>>) -> (g: Grid<T>)
        requires
            rows@.len() > 0,
            uniform_width(rows_seq(rows@), rows@[0]@.len() as int),
        ensures
            g.spec_width() == rows@[0]@.len(),
            g@ == rows_seq(rows@).flatten(),
            g@.len() == rows@.len() * rows@[0]@.len(),
            g.well_formed(),
    {
        let width = rows[0].len();
        let ghost orig: Seq<Seq<T>> = rows_seq(rows@);
        let mut rows = rows;
        let mut data: Vec<T> = Vec::new();
        while rows.len() > 0
            invariant
                data@ + rows_seq(rows@).flatten() == orig.flatten(),
            decreases rows@.len(),
        {
            let ghost before: Seq<Seq<T>> = rows_seq(rows@);
            let mut row = rows.remove(0);
            proof {
                assert(row@ == before.first());
                assert(rows_seq(rows@) =~= before.drop_first());
            }
            data.append(&mut row);
            proof {
                assert(before.flatten() == before.first() + before.drop_first().flatten());
                assert(data@ + rows_seq(rows@).flatten() =~= orig.flatten());
            }
        }
        proof {
            assert(rows_seq(rows@).flatten() =~= Seq::<T>::empty());
            assert(data@ =~= orig.flatten());
            lemma_flatten_len(orig, width as int);
            if width > 0 {
                vstd::arithmetic::div_mod::lemma_mod_multiples_basic(
                    orig.len() as int,
                    width as int,
                );
            } else {
                assert(orig.len() * 0 == 0) by (nonlinear_arith);
            }
        }
        Grid { data, width }
    }

    /// Allocates a `width * height` grid whose elements are all
    /// default-initialized.
    pub fn new_empty(width: usize, height: usize) -> (g: Grid<T>) where T: Default
        requires
            width * height <= usize::MAX,
        ensures
            g.spec_width() == width,
            g@.len() == width * height,
            g.well_formed(),
            forall|i: int| 0 <= i < g@.len() ==> call_ensures(T::default, (), #[trigger] g@[i]),
    {
        let size = width * height;
        let mut data: Vec<T> = Vec::with_capacity(size);
        while data.len() < size
            invariant
                data@.len() <= size,
                forall|i: int|
                    0 <= i < data@.len() ==> call_ensures(T::default, (), #[trigger] data@[i]),
            decreases size - data@.len(),
        {
            data.push(T::default());
        }
        proof {
            if width > 0 {
                vstd::arithmetic::div_mod::lemma_mod_multiples_basic(
                    height as int,
                    width as int,
                );
                assert(width * height == height * width) by (nonlinear_arith);
            }
        }
        Grid { data, width }
    }

    /// Resolves `(row, col)` to the handle for linear index
    /// `row * width + col`, or `None` when the column or the computed index
    /// is out of range.
    pub fn pos_at(&self, row: usize, col: usize) -> (r: Option<GridPos>)
        ensures
            opt_index(r) == pos_index(
                self.spec_width(),
                self@.len() as int,
                row as int,
                col as int,
            ),
    {
        let n = self.data.len();
        if col >= self.width {
            return None;
        }
        if let Some(base) = row.checked_mul(self.width) {
            if let Some(idx) = base.checked_add(col) {
                if idx < n {
                    return Some(GridPos::new(idx));
                }
            }
        }
        None
    }

    /// Returns the four neighbor slots of `position`, in clockwise order
    /// starting at Up: Up, Right, Down, Left.  A slot is present exactly
    /// when the corresponding adjacent cell exists; edge and corner cells
    /// have fewer than four present slots.
    pub fn get_neighbors(&self, position: &GridPos) -> (r: [Option<GridPos>; 4])
        requires
            self.well_formed(),
            position.index() < self@.len(),
        ensures
            opt_index(r@[0]) == neighbor_up(position.index(), self.spec_width()),
            opt_index(r@[1]) == neighbor_right(position.index(), self.spec_width()),
            opt_index(r@[2]) == neighbor_down(
                position.index(),
                self.spec_width(),
                self@.len() as int,
            ),
            opt_index(r@[3]) == neighbor_left(position.index(), self.spec_width()),
    {
        let index = position.value();
        let n = self.data.len();
        proof {
            assert(self.spec_width() > 0);
            if self@.len() < self.spec_width() {
                vstd::arithmetic::div_mod::lemma_small_mod(
                    self@.len(),
                    self.spec_width() as nat,
                );
            }
            vstd::arithmetic::div_mod::lemma_small_mod(0nat, self.spec_width() as nat);
        }
        let pos_in_row = index % self.width;
        let up = if index >= self.width {
            Some(GridPos::new(index - self.width))
        } else {
            None
        };
        let right = if pos_in_row + 1 < self.width {
            Some(GridPos::new(index + 1))
        } else {
            None
        };
        let down = if index < n - self.width {
            Some(GridPos::new(index + self.width))
        } else {
            None
        };
        let left = if pos_in_row > 0 {
            Some(GridPos::new(index - 1))
        } else {
            None
        };
        [up, right, down, left]
    }

    /// Returns only the present neighbors of `position`, in the same
    /// Up/Right/Down/Left order, with absent slots omitted.
    pub fn get_neighbors_flat(&self, position: &GridPos) -> (r: Vec<GridPos>)
        requires
            self.well_formed(),
            position.index() < self@.len(),
        ensures
            indices_of(r@) == spec_neighbors_flat(
                position.index(),
                self.spec_width(),
                self@.len() as int,
            ),
    {
        let ghost i = position.index();
        let ghost w = self.spec_width();
        let ghost n = self@.len() as int;
        let neighbors = self.get_neighbors(position);
        let mut r: Vec<GridPos> = Vec::new();
        if let Some(p) = neighbors[0] {
            r.push(p);
        }
        assert(indices_of(r@) =~= opt_to_seq(neighbor_up(i, w)));
        if let Some(p) = neighbors[1] {
            r.push(p);
        }
        assert(indices_of(r@) =~= opt_to_seq(neighbor_up(i, w)) + opt_to_seq(
            neighbor_right(i, w),
        ));
        if let Some(p) = neighbors[2] {
            r.push(p);
        }
        assert(indices_of(r@) =~= opt_to_seq(neighbor_up(i, w)) + opt_to_seq(
            neighbor_right(i, w),
        ) + opt_to_seq(neighbor_down(i, w, n)));
        if let Some(p) = neighbors[3] {
            r.push(p);
        }
        assert(indices_of(r@) =~= spec_neighbors_flat(i, w, n));
        r
    }

    /// Returns a reference to the element at `pos`, or `None` when the
    /// handle's index is out of range.  Never panics.
    pub fn get(&self, pos: &GridPos) -> (r: Option<&T>)
        ensures
            pos.index() < self@.len() ==> (r matches Some(v) && *v == self@[pos.index()]),
            pos.index() >= self@.len() ==> r is None,
    {
        let i = pos.value();
        if i < self.data.len() {
            Some(&self.data[i])
        } else {
            None
        }
    }

    /// Reads the cell reached from `at_position` by moving `row_offset`
    /// rows and `col_offset` columns.  A target with a negative coordinate,
    /// a column beyond the width, or a linear index beyond the size yields
    /// `None`.
    pub fn get_at_offset(&self, at_position: &GridPos, row_offset: i8, col_offset: i8) -> (r:
        Option<&T>)
        requires
            self.spec_width() > 0,
        ensures
            (match offset_index(
                at_position.index(),
                self.spec_width(),
                row_offset as int,
                col_offset as int,
                self@.len() as int,
            ) {
                Some(k) => r matches Some(v) && *v == self@[k],
                None => r is None,
            }),
    {
        let n = self.data.len();
        let idx = at_position.value();
        let col_i = (idx % self.width) as i128 + col_offset as i128;
        let row_i = (idx / self.width) as i128 + row_offset as i128;
        if row_i < 0 || col_i < 0 {
            return None;
        }
        if row_i > usize::MAX as i128 || col_i > usize::MAX as i128 {
            proof {
                if row_i > usize::MAX {
                    assert(row_i as int * self.spec_width() >= row_i as int)
                        by (nonlinear_arith)
                        requires
                            self.spec_width() >= 1,
                            row_i > 0,
                    ;
                }
            }
            return None;
        }
        let row = row_i as usize;
        let col = col_i as usize;
        match self.pos_at(row, col) {
            Some(p) => self.get(&p),
            None => None,
        }
    }

    /// Returns a mutable reference to the element at `pos`, or `None` when
    /// the handle's index is out of range.  Writing through the reference
    /// updates exactly that cell.
    pub fn get_mut(&mut self, pos: &GridPos) -> (r: Option<&mut T>)
        ensures
            pos.index() < old(self)@.len() ==> (r matches Some(cell)
                && *cell == old(self)@[pos.index()]
                && final(self)@ == old(self)@.update(pos.index(), *final(cell))
                && final(self).spec_width() == old(self).spec_width()),
            pos.index() >= old(self)@.len() ==> r is None && *final(self) == *old(self),
    {
        let i = pos.value();
        if i < self.data.len() {
            Some(&mut self.data[i])
        } else {
            None
        }
    }

    /// Replaces the element at `pos` with `new_value` when the handle's
    /// index is in range; an out-of-range `put` leaves the grid unchanged.
    pub fn put(&mut self, pos: &GridPos, new_value: T)
        ensures
            pos.index() < old(self)@.len() ==> final(self)@ == old(self)@.update(
                pos.index(),
                new_value,
            ),
            pos.index() >= old(self)@.len() ==> final(self)@ == old(self)@,
            final(self).spec_width() == old(self).spec_width(),
    {
        if let Some(cell) = self.get_mut(pos) {
            *cell = new_value;
        }
    }

    /// Starts an iteration over the elements in linear order.  The iterator
    /// is restartable: a fresh call begins again at index zero.
    pub fn iter(&self) -> (it: GridIterator<'_, T>)
        ensures
            it.grid() == *self,
            it.cursor() == 0,
    {
        GridIterator { grid: self, index: 0 }
    }

    /// The separator that follows the element at linear index `index` when
    /// the grid is rendered: `",\n"` after the last element of each row,
    /// `", "` after every other element.  Every element, the grid's last
    /// included, is followed by its separator.
    pub fn separator_after(&self, index: usize) -> (sep: &'static str)
        requires
            self.spec_width() > 0,
        ensures
            index as int % self.spec_width() == self.spec_width() - 1 ==> sep@ == ",\n"@,
            index as int % self.spec_width() != self.spec_width() - 1 ==> sep@ == ", "@,
    {
        if index % self.width == self.width - 1 {
            ",\n"
        } else {
            ", "
        }
    }
}

/// A lazy in-order walk over a grid's elements: it yields a reference to
/// the element at each linear index from zero upward and stops at the first
/// out-of-range index.
pub struct GridIterator<'a, T> {
    grid: &'a Grid<T>,
    index: usize,
}

impl<'a, T> GridIterator<'a, T> {
    /// The grid being walked.
    pub closed spec fn grid(&self) -> Grid<T> {
        *self.grid
    }

    /// The linear index of the next element to visit.
    pub closed spec fn cursor(&self) -> int {
        self.index as int
    }

    /// Returns the element at the cursor and advances past it, or `None`
    /// once the cursor has passed the last element.
    pub fn next(&mut self) -> (r: Option<&'a T>)
        ensures
            final(self).grid() == old(self).grid(),
            old(self).cursor() < old(self).grid()@.len() ==> (r matches Some(v)
                && *v == old(self).grid()@[old(self).cursor()]
                && final(self).cursor() == old(self).cursor() + 1),
            old(self).cursor() >= old(self).grid()@.len() ==> r is None && final(self).cursor()
                == old(self).cursor(),
    {
        let n = self.grid.size();
        if self.index < n {
            let r = self.grid.get(&GridPos::new(self.index));
            self.index = self.index + 1;
            r
        } else {
            None
        }
    }
}

} // verus!
