//! The input matrix: rows by columns of cells, held in an `ndarray` array.

use vstd::prelude::*;

verus! {

/// A matrix of cells, stored as an `ndarray::Array2<u32>`. What it holds is
/// known to the verifier only through [`columns`] and [`height`].
#[verifier::external_body]
pub struct Matrix {
    cells: ndarray::Array2<u32>,
}

/// `ndarray::ShapeError`, the error of `ndarray`'s constructors; nothing is
/// read from it.
#[verifier::external_type_specification]
#[verifier::external_body]
pub struct ExShapeError(ndarray::ShapeError);

/// The cells of a matrix, one sequence per column, each running down the
/// rows.
pub uninterp spec fn columns(matrix: Matrix) -> Seq<Seq<u32>>;

/// The number of rows of a matrix; it is the length of every column.
pub uninterp spec fn height(matrix: Matrix) -> nat;

/// Why a list of cells cannot be laid out in a given shape.
#[derive(Clone, Copy, Debug, PartialEq, Eq)]
pub enum ShapeFault {
    /// The shape has more cells than an array can address.
    TooLarge,
    /// The shape asks for another number of cells than were given.
    Mismatch,
}

/// The product of the axis lengths that are not zero.
pub open spec fn axis_product(rows: nat, cols: nat) -> nat {
    (if rows == 0 {
        1nat
    } else {
        rows
    }) * (if cols == 0 {
        1nat
    } else {
        cols
    })
}

/// A shape fits when the product of its non-zero axis lengths can be
/// addressed.
pub open spec fn shape_fits(rows: nat, cols: nat) -> bool {
    axis_product(rows, cols) <= isize::MAX
}

/// Cuts a row-major list of cells into columns.
pub open spec fn by_columns(cells: Seq<u32>, rows: nat, cols: nat) -> Seq<Seq<u32>> {
    Seq::new(cols, |c: int| Seq::new(rows, |r: int| cells[r * cols + c]))
}

/// Tells whether a shape fits.
fn fits(rows: usize, cols: usize) -> (ok: bool)
    ensures
        ok == shape_fits(rows as nat, cols as nat),
{
    let tall: usize = if rows == 0 {
        1
    } else {
        rows
    };
    let wide: usize = if cols == 0 {
        1
    } else {
        cols
    };
    match tall.checked_mul(wide) {
        Some(product) => product <= usize::MAX / 2,
        None => false,
    }
}

impl Matrix {
    /// `ndarray::Array2::from_shape_vec` with a shape of two axes in the
    /// default order. It succeeds exactly when the shape fits and names as
    /// many cells as were given; the cell of row `r` and column `c` is then
    /// the one at `r * cols + c` of the list.
    #[verifier::external_body]
    fn shaped(rows: usize, cols: usize, cells: Vec<u32>) -> (made: Result<Matrix, ndarray::ShapeError>)
        ensures
            made is Ok <==> (shape_fits(rows as nat, cols as nat) && rows * cols == cells.len()),
            made matches Ok(matrix) ==> height(matrix) == rows,
            made matches Ok(matrix) ==> columns(matrix) == by_columns(
                cells@,
                rows as nat,
                cols as nat,
            ),
    {
        match ndarray::Array2::from_shape_vec((rows, cols), cells) {
            Ok(cells) => Ok(Matrix { cells }),
            Err(error) => Err(error),
        }
    }

    /// `ndarray::ArrayBase::dim` on an array of two axes: the number of rows,
    /// then the number of columns.
    #[verifier::external_body]
    fn shape(&self) -> (dim: (usize, usize))
        ensures
            dim.0 == height(*self),
            dim.1 == columns(*self).len(),
            forall|c: int| 0 <= c < dim.1 ==> (#[trigger] columns(*self)[c]).len() == dim.0,
    {
        self.cells.dim()
    }

    /// Indexing an `ndarray` array of two axes by `[row, col]`, which panics
    /// outside the array's bounds.
    #[verifier::external_body]
    fn cell(&self, row: usize, col: usize) -> (bits: u32)
        requires
            col < columns(*self).len(),
            row < columns(*self)[col as int].len(),
        ensures
            bits == columns(*self)[col as int][row as int],
    {
        self.cells[[row, col]]
    }

    /// Lays a row-major list of cells out as a matrix of `rows` by `cols`.
    pub fn from_shape_vec(rows: usize, cols: usize, cells: Vec<u32>) -> (made: Result<
        Matrix,
        ShapeFault,
    >)
        ensures
            match made {
                Ok(matrix) => {
                    &&& shape_fits(rows as nat, cols as nat)
                    &&& rows * cols == cells.len()
                    &&& height(matrix) == rows
                    &&& columns(matrix) == by_columns(cells@, rows as nat, cols as nat)
                },
                Err(ShapeFault::TooLarge) => !shape_fits(rows as nat, cols as nat),
                Err(ShapeFault::Mismatch) => {
                    &&& shape_fits(rows as nat, cols as nat)
                    &&& rows * cols != cells.len()
                },
            },
    {
        match Matrix::shaped(rows, cols, cells) {
            Ok(matrix) => Ok(matrix),
            Err(_) => {
                if fits(rows, cols) {
                    Err(ShapeFault::Mismatch)
                } else {
                    Err(ShapeFault::TooLarge)
                }
            },
        }
    }

    /// Copies column `col` out of the matrix, top to bottom.
    pub(crate) fn column_at(&self, col: usize) -> (cells: Vec<u32>)
        requires
            col < columns(*self).len(),
        ensures
            cells@ == columns(*self)[col as int],
    {
        let (num_rows, _) = self.shape();
        let mut cells: Vec<u32> = Vec::new();
        let mut row: usize = 0;
        while row < num_rows
            invariant
                col < columns(*self).len(),
                num_rows == columns(*self)[col as int].len(),
                row <= num_rows,
                cells.len() == row,
                forall|i: int| 0 <= i < row ==> cells[i] == columns(*self)[col as int][i],
            decreases num_rows - row,
        {
            cells.push(self.cell(row, col));
            row += 1;
        }
        assert(cells@ =~= columns(*self)[col as int]);
        cells
    }

    /// Copies column `col` out of the matrix, top to bottom; `None` where the
    /// matrix has no such column.
    pub fn column(&self, col: usize) -> (cells: Option<Vec<u32>>)
        ensures
            match cells {
                Some(cells) => col < columns(*self).len() && cells@ == columns(*self)[col as int],
                None => col >= columns(*self).len(),
            },
    {
        if col < self.num_cols() {
            Some(self.column_at(col))
        } else {
            None
        }
    }

    /// The number of rows.
    pub fn num_rows(&self) -> (n: usize)
        ensures
            n == height(*self),
            forall|c: int| 0 <= c < columns(*self).len() ==> (#[trigger] columns(*self)[c]).len() == n,
    {
        self.shape().0
    }

    /// The number of columns.
    pub fn num_cols(&self) -> (n: usize)
        ensures
            n == columns(*self).len(),
    {
        self.shape().1
    }
}

} // verus!
