use vstd::prelude::*;

use crate::error::NetError;
use crate::scalar::Scalar;

verus! {

/// A dense matrix, stored row by row.
pub struct Matrix<N> {
    rows: usize,
    cols: usize,
    data: Vec<Vec<N>>,
}

/// Copies a row of values.
pub(crate) fn copy_values<N: Copy>(values: &Vec<N>) -> (r: Vec<N>)
    ensures
        r@ == values@,
{
    let mut r: Vec<N> = Vec::new();
    let mut j: usize = 0;
    while j < values.len()
        invariant
            j <= values@.len(),
            r@ == values@.subrange(0, j as int),
        decreases values@.len() - j,
    {
        r.push(values[j]);
        j = j + 1;
    }
    assert(r@ == values@.subrange(0, values@.len() as int));
    r
}

impl<N> Matrix<N> {
    #[verifier::type_invariant]
    spec fn inv(&self) -> bool {
        &&& self.data@.len() == self.rows
        &&& forall|i: int| 0 <= i < self.data@.len() ==> (#[trigger] self.data@[i])@.len() == self.cols
    }

    /// The number of rows.
    pub closed spec fn nrows(&self) -> nat {
        self.rows as nat
    }

    /// The number of columns.
    pub closed spec fn ncols(&self) -> nat {
        self.cols as nat
    }

    /// The value in row `i`, column `j`.
    pub closed spec fn at(&self, i: int, j: int) -> N {
        self.data@[i]@[j]
    }

    /// Row `i` as a sequence of `ncols()` values.
    pub open spec fn row_seq(&self, i: int) -> Seq<N> {
        Seq::new(self.ncols(), |j: int| self.at(i, j))
    }

    pub open spec fn has_shape(&self, rows: nat, cols: nat) -> bool {
        self.nrows() == rows && self.ncols() == cols
    }

    /// `t` is the transpose of `self`.
    pub open spec fn is_transpose_of(&self, t: &Self) -> bool {
        &&& t.nrows() == self.ncols()
        &&& t.ncols() == self.nrows()
        &&& forall|i: int, j: int|
            0 <= i < t.nrows() && 0 <= j < t.ncols() ==> #[trigger] t.at(i, j) == self.at(j, i)
    }

    pub fn rows(&self) -> (r: usize)
        ensures
            r == self.nrows(),
    {
        self.rows
    }

    pub fn cols(&self) -> (r: usize)
        ensures
            r == self.ncols(),
    {
        self.cols
    }
}

impl<N: Copy> Matrix<N> {
    /// A `rows` x `cols` matrix with `value` in every cell.
    pub fn filled(rows: usize, cols: usize, value: N) -> (r: Self)
        ensures
            r.has_shape(rows as nat, cols as nat),
            forall|i: int, j: int| 0 <= i < rows && 0 <= j < cols ==> #[trigger] r.at(i, j) == value,
    {
        let mut data: Vec<Vec<N>> = Vec::new();
        let mut i: usize = 0;
        while i < rows
            invariant
                i <= rows,
                data@.len() == i,
                forall|a: int| 0 <= a < i ==> (#[trigger] data@[a])@.len() == cols,
                forall|a: int, b: int| 0 <= a < i && 0 <= b < cols ==> #[trigger] data@[a]@[b] == value,
            decreases rows - i,
        {
            let mut row: Vec<N> = Vec::new();
            let mut j: usize = 0;
            while j < cols
                invariant
                    j <= cols,
                    row@.len() == j,
                    forall|b: int| 0 <= b < j ==> #[trigger] row@[b] == value,
                decreases cols - j,
            {
                row.push(value);
                j = j + 1;
            }
            data.push(row);
            i = i + 1;
        }
        Matrix { rows, cols, data }
    }

    /// A matrix built from its rows; every row must hold `cols` values.
    pub fn from_rows(cols: usize, values: Vec<Vec<N>>) -> (r: Result<Self, NetError>)
        ensures
            r.is_ok() <==> forall|i: int| 0 <= i < values@.len() ==> (#[trigger] values@[i])@.len() == cols,
            r is Err ==> r == Err::<Self, NetError>(NetError::DimensionMismatch),
            r matches Ok(m) ==> {
                &&& m.has_shape(values@.len(), cols as nat)
                &&& forall|i: int| 0 <= i < values@.len() ==> #[trigger] m.row_seq(i) == values@[i]@
            },
    {
        let mut i: usize = 0;
        while i < values.len()
            invariant
                i <= values@.len(),
                forall|a: int| 0 <= a < i ==> (#[trigger] values@[a])@.len() == cols,
            decreases values@.len() - i,
        {
            if values[i].len() != cols {
                return Err(NetError::DimensionMismatch);
            }
            i = i + 1;
        }
        let m = Matrix { rows: values.len(), cols, data: values };
        assert forall|a: int| 0 <= a < values@.len() implies #[trigger] m.row_seq(a) == values@[a]@ by {
            assert(m.row_seq(a) =~= values@[a]@);
        }
        Ok(m)
    }

    /// The `1 x n` matrix holding `values`.
    pub fn row_vector(values: Vec<N>) -> (r: Self)
        ensures
            r.has_shape(1, values@.len()),
            r.row_seq(0) == values@,
    {
        let cols = values.len();
        let mut data: Vec<Vec<N>> = Vec::new();
        data.push(values);
        let m = Matrix { rows: 1, cols, data };
        assert(m.row_seq(0) =~= values@);
        m
    }

    /// The value in row `row`, column `col`, or an error outside the matrix.
    pub fn get(&self, row: usize, col: usize) -> (r: Result<N, NetError>)
        ensures
            r.is_ok() <==> row < self.nrows() && col < self.ncols(),
            r matches Ok(v) ==> v == self.at(row as int, col as int),
            r is Err ==> r == Err::<N, NetError>(NetError::OutOfBounds),
    {
        proof {
            use_type_invariant(self);
        }
        if row < self.rows && col < self.cols {
            Ok(self.data[row][col])
        } else {
            Err(NetError::OutOfBounds)
        }
    }

    /// The values of row `i`, columns `0..cols` in order.
    pub fn row(&self, i: usize) -> (r: Vec<N>)
        requires
            i < self.nrows(),
        ensures
            r@ == self.row_seq(i as int),
    {
        proof {
            use_type_invariant(self);
        }
        let r = copy_values(&self.data[i]);
        assert(r@ =~= self.row_seq(i as int));
        r
    }

    /// All rows, in order.
    pub fn to_rows(&self) -> (r: Vec<Vec<N>>)
        ensures
            r@.len() == self.nrows(),
            forall|i: int| 0 <= i < self.nrows() ==> (#[trigger] r@[i])@ == self.row_seq(i),
    {
        proof {
            use_type_invariant(self);
        }
        let mut r: Vec<Vec<N>> = Vec::new();
        let mut i: usize = 0;
        while i < self.rows
            invariant
                self.inv(),
                i <= self.nrows(),
                r@.len() == i,
                forall|a: int| 0 <= a < i ==> (#[trigger] r@[a])@ == self.row_seq(a),
            decreases self.rows - i,
        {
            let row = self.row(i);
            r.push(row);
            i = i + 1;
        }
        r
    }

    /// The `cols x rows` matrix whose cell `(j, i)` is cell `(i, j)` of this one.
    pub fn transpose(&self) -> (r: Self)
        ensures
            self.is_transpose_of(&r),
    {
        proof {
            use_type_invariant(self);
        }
        let mut data: Vec<Vec<N>> = Vec::new();
        let mut j: usize = 0;
        while j < self.cols
            invariant
                self.inv(),
                j <= self.ncols(),
                data@.len() == j,
                forall|a: int| 0 <= a < j ==> (#[trigger] data@[a])@.len() == self.nrows(),
                forall|a: int, b: int|
                    0 <= a < j && 0 <= b < self.nrows() ==> #[trigger] data@[a]@[b] == self.at(b, a),
            decreases self.cols - j,
        {
            let mut column: Vec<N> = Vec::new();
            let mut i: usize = 0;
            while i < self.rows
                invariant
                    self.inv(),
                    i <= self.nrows(),
                    j < self.ncols(),
                    column@.len() == i,
                    forall|b: int| 0 <= b < i ==> #[trigger] column@[b] == self.at(b, j as int),
                decreases self.rows - i,
            {
                column.push(self.data[i][j]);
                i = i + 1;
            }
            data.push(column);
            j = j + 1;
        }
        Matrix { rows: self.cols, cols: self.rows, data }
    }
}


impl<N: Copy> Matrix<N> {
    /// The `rows` x `cols` matrix whose cell `(i, j)` is `f(i, j)`, filled row by row.
    pub fn generate<F: Fn(usize, usize) -> N>(rows: usize, cols: usize, f: F) -> (r: Self)
        requires
            forall|i: usize, j: usize| i < rows && j < cols ==> #[trigger] f.requires((i, j)),
        ensures
            r.has_shape(rows as nat, cols as nat),
            forall|i: int, j: int|
                0 <= i < rows && 0 <= j < cols ==> f.ensures((i as usize, j as usize), #[trigger] r.at(i, j)),
    {
        let mut data: Vec<Vec<N>> = Vec::new();
        let mut i: usize = 0;
        while i < rows
            invariant
                i <= rows,
                data@.len() == i,
                forall|i: usize, j: usize| i < rows && j < cols ==> #[trigger] f.requires((i, j)),
                forall|a: int| 0 <= a < i ==> (#[trigger] data@[a])@.len() == cols,
                forall|a: int, b: int|
                    0 <= a < i && 0 <= b < cols ==> f.ensures((a as usize, b as usize), #[trigger] data@[a]@[b]),
            decreases rows - i,
        {
            let mut row: Vec<N> = Vec::new();
            let mut j: usize = 0;
            while j < cols
                invariant
                    i < rows,
                    j <= cols,
                    row@.len() == j,
                    forall|i: usize, j: usize| i < rows && j < cols ==> #[trigger] f.requires((i, j)),
                    forall|b: int| 0 <= b < j ==> f.ensures((i, b as usize), #[trigger] row@[b]),
                decreases cols - j,
            {
                let v = f(i, j);
                row.push(v);
                j = j + 1;
            }
            data.push(row);
            i = i + 1;
        }
        Matrix { rows, cols, data }
    }

    /// The matrix of the same shape whose cell `(i, j)` is `f(value, i, j)`.
    pub fn map<F: Fn(N, usize, usize) -> N>(&self, f: F) -> (r: Self)
        requires
            forall|i: int, j: int|
                0 <= i < self.nrows() && 0 <= j < self.ncols() ==> f.requires(
                    (#[trigger] self.at(i, j), i as usize, j as usize),
                ),
        ensures
            r.has_shape(self.nrows(), self.ncols()),
            forall|i: int, j: int|
                0 <= i < self.nrows() && 0 <= j < self.ncols() ==> f.ensures(
                    (self.at(i, j), i as usize, j as usize),
                    #[trigger] r.at(i, j),
                ),
    {
        proof {
            use_type_invariant(self);
        }
        let mut data: Vec<Vec<N>> = Vec::new();
        let mut i: usize = 0;
        while i < self.rows
            invariant
                self.inv(),
                i <= self.nrows(),
                data@.len() == i,
                forall|i: int, j: int|
                    0 <= i < self.nrows() && 0 <= j < self.ncols() ==> f.requires(
                        (#[trigger] self.at(i, j), i as usize, j as usize),
                    ),
                forall|a: int| 0 <= a < i ==> (#[trigger] data@[a])@.len() == self.ncols(),
                forall|a: int, b: int|
                    0 <= a < i && 0 <= b < self.ncols() ==> f.ensures(
                        (self.at(a, b), a as usize, b as usize),
                        #[trigger] data@[a]@[b],
                    ),
            decreases self.rows - i,
        {
            let mut row: Vec<N> = Vec::new();
            let mut j: usize = 0;
            while j < self.cols
                invariant
                    self.inv(),
                    i < self.nrows(),
                    j <= self.ncols(),
                    row@.len() == j,
                    forall|i: int, j: int|
                        0 <= i < self.nrows() && 0 <= j < self.ncols() ==> f.requires(
                            (#[trigger] self.at(i, j), i as usize, j as usize),
                        ),
                    forall|b: int|
                        0 <= b < j ==> f.ensures((self.at(i as int, b), i, b as usize), #[trigger] row@[b]),
                decreases self.cols - j,
            {
                assert(f.requires((self.at(i as int, j as int), i, j)));
                let v = f(self.data[i][j], i, j);
                row.push(v);
                j = j + 1;
            }
            data.push(row);
            i = i + 1;
        }
        Matrix { rows: self.rows, cols: self.cols, data }
    }

    /// The matrix whose row `i` is `f` applied to row `i` of this one; `f` must keep
    /// the length of a row.
    pub fn map_row<F: Fn(Vec<N>) -> Vec<N>>(&self, f: F) -> (r: Self)
        requires
            forall|row: Vec<N>| #[trigger] f.requires((row,)),
            forall|row: Vec<N>, out: Vec<N>| #[trigger] f.ensures((row,), out) ==> out@.len() == row@.len(),
        ensures
            r.has_shape(self.nrows(), self.ncols()),
            forall|i: int|
                0 <= i < self.nrows() ==> #[trigger] row_mapped(f, self.row_seq(i), r.row_seq(i)),
    {
        proof {
            use_type_invariant(self);
        }
        let mut data: Vec<Vec<N>> = Vec::new();
        let mut i: usize = 0;
        while i < self.rows
            invariant
                self.inv(),
                i <= self.nrows(),
                data@.len() == i,
                forall|row: Vec<N>| #[trigger] f.requires((row,)),
                forall|row: Vec<N>, out: Vec<N>| #[trigger] f.ensures((row,), out) ==> out@.len() == row@.len(),
                forall|a: int| 0 <= a < i ==> (#[trigger] data@[a])@.len() == self.ncols(),
                forall|a: int| 0 <= a < i ==> #[trigger] row_mapped(f, self.row_seq(a), data@[a]@),
            decreases self.rows - i,
        {
            let row = self.row(i);
            let ghost given = row;
            let out = f(row);
            proof {
                assert(f.ensures((given,), out));
                assert(row_mapped(f, self.row_seq(i as int), out@));
            }
            data.push(out);
            i = i + 1;
        }
        let r = Matrix { rows: self.rows, cols: self.cols, data };
        assert forall|a: int| 0 <= a < self.nrows() implies #[trigger] row_mapped(f, self.row_seq(a), r.row_seq(a)) by {
            assert(r.row_seq(a) =~= data@[a]@);
        }
        r
    }
}

/// `f` maps some vector holding `row` to some vector holding `out`.
pub open spec fn row_mapped<N, F: Fn(Vec<N>) -> Vec<N>>(f: F, row: Seq<N>, out: Seq<N>) -> bool {
    exists|given: Vec<N>, result: Vec<N>|
        #![trigger f.ensures((given,), result)]
        given@ == row && result@ == out && f.ensures((given,), result)
}

/// `u[0] * v[0] + ... + u[k-1] * v[k-1]`, summed from the left starting at zero.
pub open spec fn partial_dot<N: Scalar>(u: Seq<N>, v: Seq<N>, k: nat) -> N
    decreases k,
{
    if k == 0 {
        N::spec_zero()
    } else {
        partial_dot(u, v, (k - 1) as nat).spec_plus(u[k - 1].spec_times(v[k - 1]))
    }
}

/// The inner product of `u` with the first `u.len()` values of `v`.
pub open spec fn dot_spec<N: Scalar>(u: Seq<N>, v: Seq<N>) -> N {
    partial_dot(u, v, u.len())
}

/// Where the products agree term by term, so do the partial sums.
pub proof fn lemma_partial_dot_swap<N: Scalar>(u: Seq<N>, v: Seq<N>, k: nat)
    requires
        k <= u.len(),
        k <= v.len(),
        forall|a: N, b: N| #[trigger] a.spec_times(b) == b.spec_times(a),
    ensures
        partial_dot(u, v, k) == partial_dot(v, u, k),
    decreases k,
{
    if k > 0 {
        lemma_partial_dot_swap(u, v, (k - 1) as nat);
        assert(u[k - 1].spec_times(v[k - 1]) == v[k - 1].spec_times(u[k - 1]));
    }
}

/// The arithmetic to apply cell by cell to two matrices of one shape.
enum CellOp {
    Plus,
    Minus,
    Times,
}

spec fn cell_op_spec<N: Scalar>(op: CellOp, a: N, b: N) -> N {
    match op {
        CellOp::Plus => a.spec_plus(b),
        CellOp::Minus => a.spec_minus(b),
        CellOp::Times => a.spec_times(b),
    }
}

impl<N> Matrix<N> {
    /// Column `j` as a sequence of `nrows()` values.
    pub open spec fn col_seq(&self, j: int) -> Seq<N> {
        Seq::new(self.nrows(), |i: int| self.at(i, j))
    }
}

impl<N: Scalar> Matrix<N> {
    /// `m` is the product `a . b`: each cell is the inner product of a row of `a`
    /// with a column of `b`.
    pub open spec fn is_product_of(m: Self, a: Self, b: Self) -> bool {
        &&& m.has_shape(a.nrows(), b.ncols())
        &&& forall|i: int, j: int|
            0 <= i < m.nrows() && 0 <= j < m.ncols() ==> #[trigger] m.at(i, j) == dot_spec(
                a.row_seq(i),
                b.col_seq(j),
            )
    }

    /// The all-zero `rows` x `cols` matrix.
    pub fn zero(rows: usize, cols: usize) -> (r: Self)
        ensures
            r.has_shape(rows as nat, cols as nat),
            forall|i: int, j: int| 0 <= i < rows && 0 <= j < cols ==> #[trigger] r.at(i, j) == N::spec_zero(),
    {
        Self::filled(rows, cols, N::zero())
    }

    /// The matrix product `self . other`; the column count of `self` must equal the
    /// row count of `other`.
    pub fn dot(&self, other: &Self) -> (r: Result<Self, NetError>)
        ensures
            r.is_ok() <==> self.ncols() == other.nrows(),
            r is Err ==> r == Err::<Self, NetError>(NetError::DimensionMismatch),
            r matches Ok(m) ==> Self::is_product_of(m, *self, *other),
    {
        proof {
            use_type_invariant(self);
            use_type_invariant(other);
        }
        if self.cols != other.rows {
            return Err(NetError::DimensionMismatch);
        }
        let mut data: Vec<Vec<N>> = Vec::new();
        let mut i: usize = 0;
        while i < self.rows
            invariant
                self.inv(),
                other.inv(),
                self.ncols() == other.nrows(),
                i <= self.nrows(),
                data@.len() == i,
                forall|a: int| 0 <= a < i ==> (#[trigger] data@[a])@.len() == other.ncols(),
                forall|a: int, b: int|
                    0 <= a < i && 0 <= b < other.ncols() ==> #[trigger] data@[a]@[b] == dot_spec(
                        self.row_seq(a),
                        other.col_seq(b),
                    ),
            decreases self.rows - i,
        {
            let mut row: Vec<N> = Vec::new();
            let mut j: usize = 0;
            while j < other.cols
                invariant
                    self.inv(),
                    other.inv(),
                    self.ncols() == other.nrows(),
                    i < self.nrows(),
                    j <= other.ncols(),
                    row@.len() == j,
                    forall|b: int|
                        0 <= b < j ==> #[trigger] row@[b] == dot_spec(self.row_seq(i as int), other.col_seq(b)),
                decreases other.cols - j,
            {
                let mut acc = N::zero();
                let mut k: usize = 0;
                while k < self.cols
                    invariant
                        self.inv(),
                        other.inv(),
                        self.ncols() == other.nrows(),
                        i < self.nrows(),
                        j < other.ncols(),
                        k <= self.ncols(),
                        acc == partial_dot(self.row_seq(i as int), other.col_seq(j as int), k as nat),
                    decreases self.cols - k,
                {
                    acc = acc.plus(self.data[i][k].times(other.data[k][j]));
                    k = k + 1;
                }
                row.push(acc);
                j = j + 1;
            }
            data.push(row);
            i = i + 1;
        }
        let m = Matrix { rows: self.rows, cols: other.cols, data };
        Ok(m)
    }

    fn cellwise(&self, other: &Self, op: CellOp) -> (r: Result<Self, NetError>)
        ensures
            r.is_ok() <==> self.nrows() == other.nrows() && self.ncols() == other.ncols(),
            r is Err ==> r == Err::<Self, NetError>(NetError::DimensionMismatch),
            r matches Ok(m) ==> {
                &&& m.has_shape(self.nrows(), self.ncols())
                &&& forall|i: int, j: int|
                    0 <= i < self.nrows() && 0 <= j < self.ncols() ==> #[trigger] m.at(i, j) == cell_op_spec(
                        op,
                        self.at(i, j),
                        other.at(i, j),
                    )
            },
    {
        proof {
            use_type_invariant(self);
            use_type_invariant(other);
        }
        if self.rows != other.rows || self.cols != other.cols {
            return Err(NetError::DimensionMismatch);
        }
        let mut data: Vec<Vec<N>> = Vec::new();
        let mut i: usize = 0;
        while i < self.rows
            invariant
                self.inv(),
                other.inv(),
                self.nrows() == other.nrows(),
                self.ncols() == other.ncols(),
                i <= self.nrows(),
                data@.len() == i,
                forall|a: int| 0 <= a < i ==> (#[trigger] data@[a])@.len() == self.ncols(),
                forall|a: int, b: int|
                    0 <= a < i && 0 <= b < self.ncols() ==> #[trigger] data@[a]@[b] == cell_op_spec(
                        op,
                        self.at(a, b),
                        other.at(a, b),
                    ),
            decreases self.rows - i,
        {
            let mut row: Vec<N> = Vec::new();
            let mut j: usize = 0;
            while j < self.cols
                invariant
                    self.inv(),
                    other.inv(),
                    self.nrows() == other.nrows(),
                    self.ncols() == other.ncols(),
                    i < self.nrows(),
                    j <= self.ncols(),
                    row@.len() == j,
                    forall|b: int|
                        0 <= b < j ==> #[trigger] row@[b] == cell_op_spec(
                            op,
                            self.at(i as int, b),
                            other.at(i as int, b),
                        ),
                decreases self.cols - j,
            {
                let a = self.data[i][j];
                let b = other.data[i][j];
                let v = match op {
                    CellOp::Plus => a.plus(b),
                    CellOp::Minus => a.minus(b),
                    CellOp::Times => a.times(b),
                };
                row.push(v);
                j = j + 1;
            }
            data.push(row);
            i = i + 1;
        }
        Ok(Matrix { rows: self.rows, cols: self.cols, data })
    }

    /// The cell-by-cell sum of two matrices of one shape.
    pub fn sum(&self, other: &Self) -> (r: Result<Self, NetError>)
        ensures
            r.is_ok() <==> self.nrows() == other.nrows() && self.ncols() == other.ncols(),
            r is Err ==> r == Err::<Self, NetError>(NetError::DimensionMismatch),
            r matches Ok(m) ==> {
                &&& m.has_shape(self.nrows(), self.ncols())
                &&& forall|i: int, j: int|
                    0 <= i < self.nrows() && 0 <= j < self.ncols() ==> #[trigger] m.at(i, j) == self.at(
                        i,
                        j,
                    ).spec_plus(other.at(i, j))
            },
    {
        self.cellwise(other, CellOp::Plus)
    }

    /// The cell-by-cell difference `self - other` of two matrices of one shape.
    pub fn difference(&self, other: &Self) -> (r: Result<Self, NetError>)
        ensures
            r.is_ok() <==> self.nrows() == other.nrows() && self.ncols() == other.ncols(),
            r is Err ==> r == Err::<Self, NetError>(NetError::DimensionMismatch),
            r matches Ok(m) ==> {
                &&& m.has_shape(self.nrows(), self.ncols())
                &&& forall|i: int, j: int|
                    0 <= i < self.nrows() && 0 <= j < self.ncols() ==> #[trigger] m.at(i, j) == self.at(
                        i,
                        j,
                    ).spec_minus(other.at(i, j))
            },
    {
        self.cellwise(other, CellOp::Minus)
    }

    /// The cell-by-cell product of two matrices of one shape.
    pub fn hadamard(&self, other: &Self) -> (r: Result<Self, NetError>)
        ensures
            r.is_ok() <==> self.nrows() == other.nrows() && self.ncols() == other.ncols(),
            r is Err ==> r == Err::<Self, NetError>(NetError::DimensionMismatch),
            r matches Ok(m) ==> {
                &&& m.has_shape(self.nrows(), self.ncols())
                &&& forall|i: int, j: int|
                    0 <= i < self.nrows() && 0 <= j < self.ncols() ==> #[trigger] m.at(i, j) == self.at(
                        i,
                        j,
                    ).spec_times(other.at(i, j))
            },
    {
        self.cellwise(other, CellOp::Times)
    }

    /// Every cell multiplied by `k`.
    pub fn scale(&self, k: N) -> (r: Self)
        ensures
            r.has_shape(self.nrows(), self.ncols()),
            forall|i: int, j: int|
                0 <= i < self.nrows() && 0 <= j < self.ncols() ==> #[trigger] r.at(i, j) == self.at(
                    i,
                    j,
                ).spec_times(k),
    {
        proof {
            use_type_invariant(self);
        }
        let mut data: Vec<Vec<N>> = Vec::new();
        let mut i: usize = 0;
        while i < self.rows
            invariant
                self.inv(),
                i <= self.nrows(),
                data@.len() == i,
                forall|a: int| 0 <= a < i ==> (#[trigger] data@[a])@.len() == self.ncols(),
                forall|a: int, b: int|
                    0 <= a < i && 0 <= b < self.ncols() ==> #[trigger] data@[a]@[b] == self.at(a, b).spec_times(k),
            decreases self.rows - i,
        {
            let mut row: Vec<N> = Vec::new();
            let mut j: usize = 0;
            while j < self.cols
                invariant
                    self.inv(),
                    i < self.nrows(),
                    j <= self.ncols(),
                    row@.len() == j,
                    forall|b: int| 0 <= b < j ==> #[trigger] row@[b] == self.at(i as int, b).spec_times(k),
                decreases self.cols - j,
            {
                row.push(self.data[i][j].times(k));
                j = j + 1;
            }
            data.push(row);
            i = i + 1;
        }
        Matrix { rows: self.rows, cols: self.cols, data }
    }

    /// Adds the `1 x cols` matrix `row` to every row of this one.
    pub fn add_to_each_row(&self, row: &Self) -> (r: Result<Self, NetError>)
        ensures
            r.is_ok() <==> row.nrows() == 1 && row.ncols() == self.ncols(),
            r is Err ==> r == Err::<Self, NetError>(NetError::DimensionMismatch),
            r matches Ok(m) ==> {
                &&& m.has_shape(self.nrows(), self.ncols())
                &&& forall|i: int, j: int|
                    0 <= i < self.nrows() && 0 <= j < self.ncols() ==> #[trigger] m.at(i, j) == self.at(
                        i,
                        j,
                    ).spec_plus(row.at(0, j))
            },
    {
        proof {
            use_type_invariant(self);
            use_type_invariant(row);
        }
        if row.rows != 1 || row.cols != self.cols {
            return Err(NetError::DimensionMismatch);
        }
        let mut data: Vec<Vec<N>> = Vec::new();
        let mut i: usize = 0;
        while i < self.rows
            invariant
                self.inv(),
                row.inv(),
                row.nrows() == 1,
                row.ncols() == self.ncols(),
                i <= self.nrows(),
                data@.len() == i,
                forall|a: int| 0 <= a < i ==> (#[trigger] data@[a])@.len() == self.ncols(),
                forall|a: int, b: int|
                    0 <= a < i && 0 <= b < self.ncols() ==> #[trigger] data@[a]@[b] == self.at(a, b).spec_plus(
                        row.at(0, b),
                    ),
            decreases self.rows - i,
        {
            let mut values: Vec<N> = Vec::new();
            let mut j: usize = 0;
            while j < self.cols
                invariant
                    self.inv(),
                    row.inv(),
                    row.nrows() == 1,
                    row.ncols() == self.ncols(),
                    i < self.nrows(),
                    j <= self.ncols(),
                    values@.len() == j,
                    forall|b: int| 0 <= b < j ==> #[trigger] values@[b] == self.at(i as int, b).spec_plus(row.at(0, b)),
                decreases self.cols - j,
            {
                values.push(self.data[i][j].plus(row.data[0][j]));
                j = j + 1;
            }
            data.push(values);
            i = i + 1;
        }
        Ok(Matrix { rows: self.rows, cols: self.cols, data })
    }
}

/// For an `m x k` matrix `a` and a `k x n` matrix `b` over a scalar whose product
/// commutes, `transpose(a . b) == transpose(b) . transpose(a)` cell by cell.
pub proof fn lemma_transpose_of_product<N: Scalar>(
    a: Matrix<N>,
    b: Matrix<N>,
    product: Matrix<N>,
    product_t: Matrix<N>,
    a_t: Matrix<N>,
    b_t: Matrix<N>,
    turned: Matrix<N>,
)
    requires
        forall|x: N, y: N| #[trigger] x.spec_times(y) == y.spec_times(x),
        a.ncols() == b.nrows(),
        Matrix::is_product_of(product, a, b),
        product.is_transpose_of(&product_t),
        a.is_transpose_of(&a_t),
        b.is_transpose_of(&b_t),
        Matrix::is_product_of(turned, b_t, a_t),
    ensures
        product_t.has_shape(turned.nrows(), turned.ncols()),
        forall|i: int, j: int|
            0 <= i < turned.nrows() && 0 <= j < turned.ncols() ==> #[trigger] product_t.at(i, j) == turned.at(
                i,
                j,
            ),
{
    assert forall|i: int, j: int|
        0 <= i < turned.nrows() && 0 <= j < turned.ncols() implies #[trigger] product_t.at(i, j) == turned.at(
        i,
        j,
    ) by {
        // transpose(b) row i is b column i; transpose(a) column j is a row j.
        assert(b_t.row_seq(i) =~= b.col_seq(i));
        assert(a_t.col_seq(j) =~= a.row_seq(j));
        assert(product_t.at(i, j) == product.at(j, i));
        assert(product.at(j, i) == dot_spec(a.row_seq(j), b.col_seq(i)));
        assert(turned.at(i, j) == dot_spec(b_t.row_seq(i), a_t.col_seq(j)));
        lemma_partial_dot_swap(a.row_seq(j), b.col_seq(i), a.ncols());
    }
}

} // verus!
