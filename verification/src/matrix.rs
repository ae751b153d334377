//! Square matrices stored row by row.
use vstd::prelude::*;

verus! {

/// A square matrix of `T`.
#[derive(Debug)]
pub struct Matrix<T> {
    rows: Vec<Vec<T>>,
}

impl<T> View for Matrix<T> {
    type V = Seq<Seq<T>>;

    closed spec fn view(&self) -> Seq<Seq<T>> {
        Seq::new(self.rows@.len(), |i: int| self.rows@[i]@)
    }
}

/// `m` has `n` rows of `n` entries each.
pub open spec fn is_square<T>(m: Seq<Seq<T>>, n: nat) -> bool {
    &&& m.len() == n
    &&& forall|i: int| 0 <= i < n ==> (#[trigger] m[i]).len() == n
}

impl<T> Matrix<T> {
    #[verifier::type_invariant]
    spec fn well_formed(&self) -> bool {
        forall|i: int|
            0 <= i < self.rows@.len() ==> (#[trigger] self.rows@[i])@.len() == self.rows@.len()
    }
}

impl<T: Copy> Matrix<T> {
    /// The `n` by `n` matrix whose entries all are `value`.
    pub fn filled(n: usize, value: T) -> (m: Self)
        ensures
            is_square(m@, n as nat),
            forall|r: int, c: int| 0 <= r < n && 0 <= c < n ==> m@[r][c] == value,
    {
        let mut rows: Vec<Vec<T>> = Vec::new();
        let mut r: usize = 0;
        while r < n
            invariant
                r <= n,
                rows@.len() == r,
                forall|i: int| 0 <= i < r ==> (#[trigger] rows@[i])@.len() == n,
                forall|i: int, j: int| 0 <= i < r && 0 <= j < n ==> rows@[i]@[j] == value,
            decreases n - r,
        {
            let mut row: Vec<T> = Vec::new();
            let mut c: usize = 0;
            while c < n
                invariant
                    c <= n,
                    row@.len() == c,
                    forall|j: int| 0 <= j < c ==> row@[j] == value,
                decreases n - c,
            {
                row.push(value);
                c += 1;
            }
            rows.push(row);
            r += 1;
        }
        Matrix { rows }
    }

    /// The matrix with the given rows, of which there are as many as each holds
    /// entries.
    pub(crate) fn of_square_rows(rows: Vec<Vec<T>>) -> (m: Self)
        requires
            forall|r: int| 0 <= r < rows@.len() ==> (#[trigger] rows@[r])@.len() == rows@.len(),
        ensures
            is_square(m@, rows@.len()),
            forall|r: int| 0 <= r < rows@.len() ==> #[trigger] m@[r] == rows@[r]@,
    {
        Matrix { rows }
    }

    /// The matrix with the given rows; `None` unless there are as many rows as
    /// each row holds entries.
    pub fn from_rows(rows: Vec<Vec<T>>) -> (m: Option<Self>)
        ensures
            match m {
                Some(m) => is_square(m@, rows@.len()) && forall|r: int|
                    0 <= r < rows@.len() ==> #[trigger] m@[r] == rows@[r]@,
                None => exists|r: int|
                    0 <= r < rows@.len() && (#[trigger] rows@[r])@.len() != rows@.len(),
            },
    {
        let n = rows.len();
        let mut r: usize = 0;
        while r < n
            invariant
                r <= n,
                n == rows@.len(),
                forall|i: int| 0 <= i < r ==> (#[trigger] rows@[i])@.len() == n,
            decreases n - r,
        {
            if rows[r].len() != n {
                return None;
            }
            r += 1;
        }
        Some(Matrix::of_square_rows(rows))
    }

    /// The number of rows, which is also the number of columns.
    pub fn size(&self) -> (n: usize)
        ensures
            n == self@.len(),
            is_square(self@, n as nat),
    {
        proof {
            use_type_invariant(self);
        }
        self.rows.len()
    }

    /// The entry in row `r`, column `c`.
    pub fn get(&self, r: usize, c: usize) -> (value: T)
        requires
            r < self@.len(),
            c < self@.len(),
        ensures
            value == self@[r as int][c as int],
    {
        proof {
            use_type_invariant(self);
        }
        self.rows[r][c]
    }

    /// A matrix with the same entries.
    pub fn duplicate(&self) -> (m: Self)
        ensures
            m@ == self@,
    {
        proof {
            use_type_invariant(self);
        }
        let n = self.rows.len();
        let mut rows: Vec<Vec<T>> = Vec::new();
        let mut r: usize = 0;
        while r < n
            invariant
                r <= n,
                n == self.rows@.len(),
                forall|i: int| 0 <= i < n ==> (#[trigger] self.rows@[i])@.len() == n,
                rows@.len() == r,
                forall|i: int| 0 <= i < r ==> (#[trigger] rows@[i])@ == self.rows@[i]@,
            decreases n - r,
        {
            let mut row: Vec<T> = Vec::new();
            let mut c: usize = 0;
            while c < n
                invariant
                    c <= n,
                    r < n,
                    n == self.rows@.len(),
                    self.rows@[r as int]@.len() == n,
                    row@.len() == c,
                    forall|j: int| 0 <= j < c ==> #[trigger] row@[j] == self.rows@[r as int]@[j],
                decreases n - c,
            {
                row.push(self.rows[r][c]);
                c += 1;
            }
            rows.push(row);
            r += 1;
        }
        let m = Matrix { rows };
        m
    }

    /// Replaces the entry in row `r`, column `c` by `value`.
    pub fn set(&mut self, r: usize, c: usize, value: T)
        requires
            r < old(self)@.len(),
            c < old(self)@.len(),
        ensures
            final(self)@ == old(self)@.update(
                r as int,
                old(self)@[r as int].update(c as int, value),
            ),
    {
        proof {
            use_type_invariant(&*self);
        }
        let mut rows: Vec<Vec<T>> = Vec::new();
        core::mem::swap(&mut self.rows, &mut rows);
        rows[r][c] = value;
        self.rows = rows;
    }
}

} // verus!
