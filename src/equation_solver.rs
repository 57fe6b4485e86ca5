use vstd::prelude::*;

use crate::error::MatriceError;
use crate::matrice::{added_row, scaled_row, switched, well_shaped, AugMatrice};
use crate::scalar::Scalar;

verus! {

/// The first row at or after `from` whose entry in column `col` is not zero.
pub open spec fn first_nonzero<T: Scalar>(m: Seq<Seq<T>>, col: int, from: int) -> Option<int>
    decreases m.len() - from,
{
    if from < 0 || from >= m.len() {
        None
    } else if !m[from][col].spec_is_zero() {
        Some(from)
    } else {
        first_nonzero(m, col, from + 1)
    }
}

/// `m` with row `it` scaled so that its entry in column `it` becomes one.
pub open spec fn normalized<T: Scalar>(m: Seq<Seq<T>>, it: int) -> Seq<Seq<T>> {
    m.update(it, scaled_row(m[it], m[it][it].spec_reciprocal()))
}

/// `m` with column `it` cleared in every row but `it`, each by adding the
/// negated entry times row `it`.
pub open spec fn cleared<T: Scalar>(m: Seq<Seq<T>>, it: int) -> Seq<Seq<T>> {
    Seq::new(
        m.len(),
        |q: int|
            if q == it {
                m[q]
            } else {
                added_row(m[q], m[it], m[q][it].spec_negated())
            },
    )
}

/// One round of elimination on column `it`: pivot, normalize, clear.
/// `None` where no pivot exists.
pub open spec fn step<T: Scalar>(m: Seq<Seq<T>>, it: int) -> Option<Seq<Seq<T>>> {
    match first_nonzero(m, it, it) {
        Some(p) => Some(cleared(normalized(switched(m, it, p), it), it)),
        None => None,
    }
}

/// The matrix after rounds `0 .. k`, or `None` where one of them found no pivot.
pub open spec fn eliminated<T: Scalar>(m: Seq<Seq<T>>, k: nat) -> Option<Seq<Seq<T>>>
    decreases k,
{
    if k == 0 {
        Some(m)
    } else {
        match eliminated(m, (k - 1) as nat) {
            Some(e) => step(e, k - 1),
            None => None,
        }
    }
}

/// Every row below the first `w` has a zero sum.
pub open spec fn consistent<T: Scalar>(m: Seq<Seq<T>>, w: nat) -> bool {
    forall|r: int| w <= r < m.len() ==> (#[trigger] m[r])[w as int].spec_is_zero()
}

/// The sums of the first `w` rows.
pub open spec fn sum_column<T>(m: Seq<Seq<T>>, w: nat) -> Seq<T> {
    Seq::new(w, |i: int| m[i][w as int])
}

/// What solving the system with `w` unknowns yields: `None` when it is
/// underdetermined, when a column has no pivot, or when a leftover equation
/// is contradicted.
pub open spec fn solution_of<T: Scalar>(m: Seq<Seq<T>>, w: nat) -> Option<Seq<T>> {
    if w > m.len() {
        None
    } else {
        match eliminated(m, w) {
            Some(e) => if consistent(e, w) {
                Some(sum_column(e, w))
            } else {
                None
            },
            None => None,
        }
    }
}

/// `first_nonzero` finds the first row from `from` on with a non-zero entry,
/// and finds none exactly when all of them are zero.
pub proof fn lemma_first_nonzero<T: Scalar>(m: Seq<Seq<T>>, col: int, from: int)
    requires
        0 <= from,
    ensures
        first_nonzero(m, col, from) matches Some(p) ==> {
            &&& from <= p < m.len()
            &&& !m[p][col].spec_is_zero()
            &&& forall|q: int| from <= q < p ==> (#[trigger] m[q])[col].spec_is_zero()
        },
        first_nonzero(m, col, from) is None <==> forall|q: int|
            from <= q < m.len() ==> (#[trigger] m[q])[col].spec_is_zero(),
    decreases m.len() - from,
{
    if from < m.len() && m[from][col].spec_is_zero() {
        lemma_first_nonzero(m, col, from + 1);
    }
}

/// Once a round has found no pivot, no later round count succeeds.
proof fn lemma_no_pivot_stays<T: Scalar>(m: Seq<Seq<T>>, a: nat, b: nat)
    requires
        a <= b,
        eliminated(m, a) is None,
    ensures
        eliminated(m, b) is None,
    decreases b - a,
{
    if a < b {
        lemma_no_pivot_stays(m, a, (b - 1) as nat);
    }
}

impl<T: Scalar> AugMatrice<T> {
    /// Solves the system by Gauss-Jordan elimination, consuming the matrix.
    /// The solution holds one value per unknown, in order.
    pub fn solve_matrice(self) -> (r: Result<Vec<T>, MatriceError>)
        requires
            self.wf(),
        ensures
            self.spec_width() > self@.len() ==> r == Err::<Vec<T>, MatriceError>(
                MatriceError::SystemIsUnsolvable,
            ),
            match solution_of(self@, self.spec_width()) {
                Some(v) => r matches Ok(s) && s@ == v,
                None => r == Err::<Vec<T>, MatriceError>(MatriceError::SystemIsUnsolvable),
            },
    {
        let mut matrice = self;
        if matrice.width() > matrice.height() {
            return Err(MatriceError::SystemIsUnsolvable);
        }
        let width = matrice.width();
        let ghost start = matrice@;
        let mut iteration: usize = 0;
        while iteration < width
            invariant
                matrice.wf(),
                matrice.spec_width() == width,
                width <= matrice@.len(),
                iteration <= width,
                eliminated(start, iteration as nat) == Some(matrice@),
                start == self@,
                width == self.spec_width(),
            decreases width - iteration,
        {
            match matrice.reorder_row(iteration) {
                Ok(()) => {},
                Err(e) => {
                    proof {
                        assert(eliminated(start, (iteration + 1) as nat) is None);
                        lemma_no_pivot_stays(start, (iteration + 1) as nat, width as nat);
                    }
                    return Err(e);
                },
            }
            matrice.make_leading_one(iteration);
            matrice.clean_column(iteration);
            iteration += 1;
        }
        if matrice.is_solved() {
            Ok(matrice.get_solution())
        } else {
            Err(MatriceError::SystemIsUnsolvable)
        }
    }

    /// Brings the first row from `iteration` down whose entry in column
    /// `iteration` is not zero up to row `iteration`.
    pub fn reorder_row(&mut self, iteration: usize) -> (r: Result<(), MatriceError>)
        requires
            old(self).wf(),
            iteration < old(self).spec_width(),
        ensures
            final(self).wf(),
            final(self).spec_width() == old(self).spec_width(),
            final(self)@.len() == old(self)@.len(),
            r is Err <==> forall|q: int|
                iteration <= q < old(self)@.len() ==> (#[trigger] old(self)@[q])[iteration as int].spec_is_zero(),
            match first_nonzero(old(self)@, iteration as int, iteration as int) {
                Some(p) => r is Ok && final(self)@ == switched(old(self)@, iteration as int, p),
                None => r == Err::<(), MatriceError>(MatriceError::SystemIsUnsolvable)
                    && final(self)@ == old(self)@,
            },
    {
        proof {
            lemma_first_nonzero(self@, iteration as int, iteration as int);
        }
        let height = self.height();
        let mut row: usize = iteration;
        while row < height
            invariant
                self == old(self),
                self.wf(),
                height == self@.len(),
                iteration < self.spec_width(),
                iteration <= row,
                first_nonzero(self@, iteration as int, iteration as int) == first_nonzero(
                    self@,
                    iteration as int,
                    row as int,
                ),
            decreases height - row,
        {
            let x = self.get_element(row, iteration).unwrap();
            if !x.is_zero() {
                let _ = self.row_switch(iteration, row);
                return Ok(());
            }
            row += 1;
        }
        Err(MatriceError::SystemIsUnsolvable)
    }

    /// Scales row `iteration` by the reciprocal of its entry in column `iteration`.
    pub fn make_leading_one(&mut self, iteration: usize)
        requires
            old(self).wf(),
            iteration < old(self).spec_width(),
            iteration < old(self)@.len(),
        ensures
            final(self).wf(),
            final(self).spec_width() == old(self).spec_width(),
            final(self)@.len() == old(self)@.len(),
            final(self)@ == normalized(old(self)@, iteration as int),
    {
        let leading_non_zero = self.get_element(iteration, iteration).unwrap();
        let _ = self.multiply_row(iteration, leading_non_zero.reciprocal());
    }

    /// Clears column `iteration` in every row but row `iteration`.
    pub fn clean_column(&mut self, iteration: usize)
        requires
            old(self).wf(),
            iteration < old(self).spec_width(),
            iteration < old(self)@.len(),
        ensures
            final(self).wf(),
            final(self).spec_width() == old(self).spec_width(),
            final(self)@.len() == old(self)@.len(),
            final(self)@ == cleared(old(self)@, iteration as int),
    {
        let height = self.height();
        let ghost start = self@;
        let ghost w = self.spec_width();
        let mut row: usize = 0;
        while row < height
            invariant
                self.wf(),
                self.spec_width() == w,
                iteration < w,
                height == self@.len(),
                height == start.len(),
                iteration < height,
                row <= height,
                well_shaped(start, w),
                forall|q: int|
                    0 <= q < row && q != iteration ==> #[trigger] self@[q] == added_row(
                        start[q],
                        start[iteration as int],
                        start[q][iteration as int].spec_negated(),
                    ),
                forall|q: int|
                    0 <= q < height && (row <= q || q == iteration) ==> #[trigger] self@[q]
                        == start[q],
            decreases height - row,
        {
            if row != iteration {
                let factor = self.get_element(row, iteration).unwrap().negated();
                let _ = self.add_multiplied_row(iteration, row, factor);
            }
            row += 1;
        }
        assert(self@ =~= cleared(start, iteration as int));
    }

    /// Whether every equation past the first `width` has a zero sum.
    fn is_solved(&self) -> (r: bool)
        requires
            self.wf(),
        ensures
            r == consistent(self@, self.spec_width()),
    {
        let height = self.height();
        let mut row: usize = self.width();
        while row < height
            invariant
                self.wf(),
                height == self@.len(),
                self.spec_width() <= row,
                forall|q: int|
                    self.spec_width() <= q < row ==> (#[trigger] self@[q])[self.spec_width() as int].spec_is_zero(),
            decreases height - row,
        {
            if !self.get_sum(row).unwrap().is_zero() {
                return false;
            }
            row += 1;
        }
        true
    }

    /// The sums of the first `width` rows, in order.
    fn get_solution(self) -> (r: Vec<T>)
        requires
            self.wf(),
            self.spec_width() <= self@.len(),
        ensures
            r@ == sum_column(self@, self.spec_width()),
    {
        let width = self.width();
        let mut solution: Vec<T> = Vec::with_capacity(width);
        let mut row: usize = 0;
        while row < width
            invariant
                self.wf(),
                width == self.spec_width(),
                width <= self@.len(),
                row <= width,
                solution@.len() == row,
                forall|j: int| 0 <= j < row ==> #[trigger] solution@[j] == self@[j][width as int],
            decreases width - row,
        {
            solution.push(self.get_sum(row).unwrap());
            row += 1;
        }
        assert(solution@ =~= sum_column(self@, self.spec_width()));
        solution
    }
}

} // verus!
