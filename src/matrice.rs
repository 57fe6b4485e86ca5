use vstd::prelude::*;

use crate::error::MatriceError;
use crate::scalar::Scalar;

verus! {

/// Every row of `m` holds `w` coefficients followed by its sum.
pub open spec fn well_shaped<T>(m: Seq<Seq<T>>, w: nat) -> bool {
    forall|r: int| 0 <= r < m.len() ==> #[trigger] m[r].len() == w + 1
}

/// The augmented row `r` with every entry multiplied by `k`.
pub open spec fn scaled_row<T: Scalar>(r: Seq<T>, k: T) -> Seq<T> {
    r.map_values(|x: T| x.spec_times(&k))
}

/// The augmented row `t` with `s` times `k` added to it, entry by entry.
pub open spec fn added_row<T: Scalar>(t: Seq<T>, s: Seq<T>, k: T) -> Seq<T> {
    Seq::new(t.len(), |i: int| t[i].spec_plus(&s[i].spec_times(&k)))
}

/// `m` with rows `a` and `b` exchanged.
pub open spec fn switched<T>(m: Seq<Seq<T>>, a: int, b: int) -> Seq<Seq<T>> {
    m.update(a, m[b]).update(b, m[a])
}

/// Switching the same two rows twice gives back the matrix one started with.
pub proof fn lemma_switch_twice<T>(m: Seq<Seq<T>>, a: int, b: int)
    requires
        0 <= a < m.len(),
        0 <= b < m.len(),
    ensures
        switched(switched(m, a, b), a, b) == m,
{
    assert(switched(switched(m, a, b), a, b) =~= m);
}

/// The augmented rows of a list of rows.
pub open spec fn rows_view<T>(rows: Seq<Row<T>>) -> Seq<Seq<T>> {
    rows.map_values(|r: Row<T>| r@)
}

/// Whether all rows of the list have as many entries as the first one.
pub open spec fn equal_lengths<T>(rows: Seq<Row<T>>) -> bool {
    forall|i: int| 0 <= i < rows.len() ==> #[trigger] rows[i]@.len() == rows[0]@.len()
}

/// One equation: its coefficients and its right-hand side.
#[derive(PartialEq, Debug)]
pub struct Row<T> {
    pub elements: Vec<T>,
    sum: T,
}

impl<T> View for Row<T> {
    /// The coefficients followed by the sum.
    type V = Seq<T>;

    closed spec fn view(&self) -> Seq<T> {
        self.elements@.push(self.sum)
    }
}

impl<T: Scalar> Row<T> {
    pub fn new(row: Vec<T>, sum: T) -> (r: Row<T>)
        ensures
            r@ == row@.push(sum),
    {
        Row { elements: row, sum: sum }
    }

    fn multiply_row(&mut self, factor: T)
        ensures
            final(self)@ == scaled_row(old(self)@, factor),
            final(self).elements@.len() == old(self).elements@.len(),
    {
        let n = self.elements.len();
        let mut i: usize = 0;
        while i < n
            invariant
                n == self.elements@.len(),
                i <= n,
                self.sum == old(self).sum,
                old(self).elements@.len() == n,
                forall|j: int|
                    0 <= j < i ==> #[trigger] self.elements@[j] == old(
                        self,
                    ).elements@[j].spec_times(&factor),
                forall|j: int| i <= j < n ==> #[trigger] self.elements@[j] == old(self).elements@[j],
            decreases n - i,
        {
            let x = self.elements[i].times(&factor);
            self.elements.set(i, x);
            i += 1;
        }
        self.sum = self.sum.times(&factor);
        assert(self@ =~= scaled_row(old(self)@, factor));
    }
}

/// An augmented matrix: `height` equations over `width` unknowns.
#[derive(PartialEq, Debug)]
pub struct AugMatrice<T> {
    rows: Vec<Row<T>>,
    /// The number of coefficients per row, the sum not counted.
    width: usize,
    height: usize,
}

impl<T> View for AugMatrice<T> {
    /// The augmented rows, top to bottom.
    type V = Seq<Seq<T>>;

    closed spec fn view(&self) -> Seq<Seq<T>> {
        rows_view(self.rows@)
    }
}

impl<T: Scalar> AugMatrice<T> {
    /// The number of unknowns.
    pub closed spec fn spec_width(&self) -> nat {
        self.width as nat
    }

    /// The cached height agrees with the rows.
    pub closed spec fn counted(&self) -> bool {
        self.height == self.rows.len()
    }

    /// The matrix is rectangular: each row has `spec_width()` coefficients and a sum.
    pub open spec fn wf(&self) -> bool {
        &&& self.counted()
        &&& well_shaped(self@, self.spec_width())
    }

    pub fn new(rows: Vec<Row<T>>) -> (r: Result<AugMatrice<T>, MatriceError>)
        ensures
            r is Ok <==> equal_lengths(rows@),
            r is Err ==> r == Err::<AugMatrice<T>, MatriceError>(
                MatriceError::RowsNotOfEqualLength,
            ),
            r matches Ok(m) ==> {
                &&& m.wf()
                &&& m@ == rows_view(rows@)
                &&& m.spec_width() == if rows@.len() == 0 {
                    0
                } else {
                    (rows@[0]@.len() - 1) as nat
                }
            },
    {
        let height = rows.len();
        if height == 0 {
            return Ok(AugMatrice { rows: rows, width: 0, height: 0 });
        }
        let width = rows[0].elements.len();
        let mut i: usize = 0;
        while i < height
            invariant
                height == rows@.len(),
                i <= height,
                width == rows@[0].elements@.len(),
                forall|j: int| 0 <= j < i ==> #[trigger] rows@[j].elements@.len() == width,
            decreases height - i,
        {
            if rows[i].elements.len() != width {
                assert(rows@[i as int]@.len() != rows@[0]@.len());
                return Err(MatriceError::RowsNotOfEqualLength);
            }
            i += 1;
        }
        let m = AugMatrice { rows: rows, width: width, height: height };
        assert(well_shaped(m@, m.spec_width())) by {
            assert forall|r: int| 0 <= r < m@.len() implies #[trigger] m@[r].len() == width + 1 by {
                assert(rows@[r].elements@.len() == width);
            }
        }
        Ok(m)
    }

    pub fn height(&self) -> (r: usize)
        requires
            self.wf(),
        ensures
            r == self@.len(),
    {
        self.height
    }

    pub fn width(&self) -> (r: usize)
        ensures
            r == self.spec_width(),
    {
        self.width
    }

    pub fn get_element(&self, row: usize, element: usize) -> (r: Result<T, MatriceError>)
        requires
            self.wf(),
        ensures
            row < self@.len() && element < self.spec_width() ==> r == Ok::<T, MatriceError>(
                self@[row as int][element as int],
            ),
            !(row < self@.len() && element < self.spec_width()) ==> r == Err::<T, MatriceError>(
                MatriceError::IndexOutOfBounds,
            ),
    {
        if row >= self.height || element >= self.width {
            return Err(MatriceError::IndexOutOfBounds);
        }
        assert(self@[row as int] == self.rows@[row as int]@);
        assert(self@[row as int].len() == self.width + 1);
        Ok(self.rows[row].elements[element])
    }

    pub fn get_sum(&self, row: usize) -> (r: Result<T, MatriceError>)
        requires
            self.wf(),
        ensures
            row < self@.len() ==> r == Ok::<T, MatriceError>(
                self@[row as int][self.spec_width() as int],
            ),
            row >= self@.len() ==> r == Err::<T, MatriceError>(MatriceError::IndexOutOfBounds),
    {
        if row >= self.height {
            return Err(MatriceError::IndexOutOfBounds);
        }
        assert(self@[row as int] == self.rows@[row as int]@);
        assert(self@[row as int].len() == self.width + 1);
        Ok(self.rows[row].sum)
    }
    pub fn row_switch(&mut self, row1: usize, row2: usize) -> (r: Result<(), MatriceError>)
        requires
            old(self).wf(),
        ensures
            final(self).wf(),
            final(self).spec_width() == old(self).spec_width(),
            row1 < old(self)@.len() && row2 < old(self)@.len() ==> r is Ok && final(self)@
                == switched(old(self)@, row1 as int, row2 as int),
            !(row1 < old(self)@.len() && row2 < old(self)@.len()) ==> r == Err::<(), MatriceError>(
                MatriceError::IndexOutOfBounds,
            ) && final(self)@ == old(self)@,
    {
        if row1 >= self.height || row2 >= self.height {
            return Err(MatriceError::IndexOutOfBounds);
        }
        if row1 != row2 {
            let mut spare = Row { elements: Vec::new(), sum: self.rows[row1].sum };
            self.rows.set_and_swap(row1, &mut spare);
            self.rows.set_and_swap(row2, &mut spare);
            self.rows.set_and_swap(row1, &mut spare);
        }
        assert(self@ =~= switched(old(self)@, row1 as int, row2 as int));
        Ok(())
    }

    pub fn multiply_row(&mut self, row: usize, factor: T) -> (r: Result<(), MatriceError>)
        requires
            old(self).wf(),
        ensures
            final(self).wf(),
            final(self).spec_width() == old(self).spec_width(),
            row < old(self)@.len() ==> r is Ok && final(self)@ == old(self)@.update(
                row as int,
                scaled_row(old(self)@[row as int], factor),
            ),
            row >= old(self)@.len() ==> r == Err::<(), MatriceError>(MatriceError::IndexOutOfBounds)
                && final(self)@ == old(self)@,
    {
        if row >= self.height {
            return Err(MatriceError::IndexOutOfBounds);
        }
        self.rows[row].multiply_row(factor);
        assert(self@ =~= old(self)@.update(row as int, scaled_row(old(self)@[row as int], factor)));
        Ok(())
    }

    /// Adds `factor` times row `row1` to row `row2`, sums included.
    pub fn add_multiplied_row(&mut self, row1: usize, row2: usize, factor: T) -> (r: Result<
        (),
        MatriceError,
    >)
        requires
            old(self).wf(),
        ensures
            final(self).wf(),
            final(self).spec_width() == old(self).spec_width(),
            row1 == row2 ==> r == Err::<(), MatriceError>(MatriceError::CannotGetSameReference),
            row1 != row2 && !(row1 < old(self)@.len() && row2 < old(self)@.len()) ==> r == Err::<
                (),
                MatriceError,
            >(MatriceError::IndexOutOfBounds),
            r is Err ==> final(self)@ == old(self)@,
            row1 != row2 && row1 < old(self)@.len() && row2 < old(self)@.len() ==> r is Ok
                && final(self)@ == old(self)@.update(
                row2 as int,
                added_row(old(self)@[row2 as int], old(self)@[row1 as int], factor),
            ),
    {
        if row1 == row2 {
            return Err(MatriceError::CannotGetSameReference);
        }
        if row1 >= self.height || row2 >= self.height {
            return Err(MatriceError::IndexOutOfBounds);
        }
        let ghost src = old(self).rows@[row1 as int];
        let ghost tgt = old(self).rows@[row2 as int];
        assert(old(self)@[row1 as int] == src@ && old(self)@[row2 as int] == tgt@);
        assert(old(self)@[row1 as int].len() == self.width + 1);
        assert(old(self)@[row2 as int].len() == self.width + 1);
        let w = self.width;
        let mut i: usize = 0;
        while i < w
            invariant
                w == self.width,
                self.width == old(self).width,
                self.height == old(self).height,
                self.height == self.rows@.len(),
                self.rows@.len() == old(self).rows@.len(),
                row1 < self.height && row2 < self.height && row1 != row2,
                src.elements@.len() == w && tgt.elements@.len() == w,
                i <= w,
                forall|q: int| 0 <= q < self.rows@.len() && q != row2 ==> #[trigger] self.rows@[q]
                    == old(self).rows@[q],
                self.rows@[row1 as int] == src,
                self.rows@[row2 as int].sum == tgt.sum,
                self.rows@[row2 as int].elements@.len() == w,
                forall|j: int|
                    0 <= j < i ==> #[trigger] self.rows@[row2 as int].elements@[j]
                        == tgt.elements@[j].spec_plus(&src.elements@[j].spec_times(&factor)),
                forall|j: int|
                    i <= j < w ==> #[trigger] self.rows@[row2 as int].elements@[j]
                        == tgt.elements@[j],
            decreases w - i,
        {
            let s = self.rows[row1].elements[i];
            let t = self.rows[row2].elements[i];
            let v = t.plus(&s.times(&factor));
            self.rows[row2].elements.set(i, v);
            i += 1;
        }
        let s = self.rows[row1].sum;
        let t = self.rows[row2].sum;
        self.rows[row2].sum = t.plus(&s.times(&factor));
        assert(self.rows@[row2 as int]@ =~= added_row(tgt@, src@, factor));
        assert(self@ =~= old(self)@.update(row2 as int, added_row(tgt@, src@, factor)));
        Ok(())
    }
}

} // verus!
