use vstd::prelude::*;

verus! {

/// The abstract content of a matrix: a row-major buffer with its shape.
pub struct MatrixView<T> {
    pub data: Seq<T>,
    pub rows: nat,
    pub cols: nat,
}

impl<T> MatrixView<T> {
    /// The value at row `r`, column `c`.
    pub open spec fn at(self, r: int, c: int) -> T {
        self.data[r * self.cols + c]
    }
}

/// A read-only view of a row-major buffer holding `rows * cols` values.
pub struct Matrix<'a, T> {
    data: &'a [T],
    rows: usize,
    cols: usize,
}

impl<'a, T> View for Matrix<'a, T> {
    type V = MatrixView<T>;

    closed spec fn view(&self) -> MatrixView<T> {
        MatrixView { data: self.data@, rows: self.rows as nat, cols: self.cols as nat }
    }
}

/// A buffer whose length disagrees with the shape it is given.
#[derive(Debug, Clone, Copy, PartialEq, Eq, Structural)]
pub struct ShapeError {
    /// The length the shape asks for, or `usize::MAX` when it does not fit in a `usize`.
    pub expected: usize,
    pub found: usize,
}

impl<'a, T> Matrix<'a, T> {
    #[verifier::type_invariant]
    closed spec fn shape_matches(self) -> bool {
        &&& self.data@.len() == self.rows * self.cols
        &&& self.data@.len() <= usize::MAX
    }

    /// Views `data` as a matrix of `rows` rows and `cols` columns; fails when
    /// the buffer does not hold exactly `rows * cols` values.
    pub fn new(data: &'a [T], rows: usize, cols: usize) -> (r: Result<Self, ShapeError>)
        ensures
            r is Ok <==> data@.len() == rows * cols,
            r matches Ok(m) ==> m@ == (MatrixView { data: data@, rows: rows as nat, cols: cols as nat }),
    {
        match rows.checked_mul(cols) {
            Some(n) if n == data.len() => Ok(Matrix { data, rows, cols }),
            Some(n) => Err(ShapeError { expected: n, found: data.len() }),
            None => Err(ShapeError { expected: usize::MAX, found: data.len() }),
        }
    }

    pub fn rows(&self) -> (r: usize)
        ensures
            r == self@.rows,
    {
        self.rows
    }

    pub fn cols(&self) -> (r: usize)
        ensures
            r == self@.cols,
    {
        self.cols
    }

    /// The whole buffer, row after row.
    pub fn as_slice(&self) -> (r: &'a [T])
        ensures
            r@ == self@.data,
            r@.len() == self@.rows * self@.cols,
    {
        proof {
            use_type_invariant(self);
        }
        self.data
    }

    /// The value at row `r`, column `c`.
    pub fn get(&self, r: usize, c: usize) -> (v: &'a T)
        requires
            r < self@.rows,
            c < self@.cols,
        ensures
            *v == self@.at(r as int, c as int),
    {
        proof {
            use_type_invariant(self);
            lemma_index_in_bounds(r as int, c as int, self.rows as int, self.cols as int);
        }
        &self.data[r * self.cols + c]
    }

    /// Row `r` as a slice of `cols` values.
    pub fn row(&self, r: usize) -> (s: &'a [T])
        requires
            r < self@.rows,
        ensures
            s@.len() == self@.cols,
            forall|c: int| 0 <= c < self@.cols ==> s@[c] == #[trigger] self@.at(r as int, c),
    {
        proof {
            use_type_invariant(self);
            lemma_row_end(r as int, self.rows as int, self.cols as int);
        }
        let start = r * self.cols;
        vstd::slice::slice_subrange(self.data, start, start + self.cols)
    }
}

proof fn lemma_index_in_bounds(r: int, c: int, rows: int, cols: int)
    requires
        0 <= r < rows,
        0 <= c < cols,
    ensures
        0 <= r * cols + c < rows * cols,
{
    assert(r * cols + c < rows * cols) by (nonlinear_arith)
        requires
            0 <= r < rows,
            0 <= c < cols,
    ;
    assert(0 <= r * cols) by (nonlinear_arith)
        requires
            0 <= r,
            0 <= c < cols,
    ;
}

proof fn lemma_row_end(r: int, rows: int, cols: int)
    requires
        0 <= r < rows,
        0 <= cols,
    ensures
        0 <= r * cols,
        r * cols + cols <= rows * cols,
{
    assert(0 <= r * cols && r * cols + cols <= rows * cols) by (nonlinear_arith)
        requires
            0 <= r < rows,
            0 <= cols,
    ;
}

} // verus!
