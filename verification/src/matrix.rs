//! Sample grids in memory, and the discrete operators computed on them.
//!
//! Samples are 64-bit integers. An operator whose exact result has a sample
//! outside that range returns `None`, and returns the exact result in every
//! other case.
use vstd::prelude::*;
use crate::grid::{dot, lemma_grid_ext, lemma_sum_congruence, lemma_sum_grows, sum, Grid};

verus! {

/// The samples of a stored row as mathematical integers.
pub open spec fn row_model(row: Seq<i64>) -> Seq<int> {
    Seq::new(row.len(), |j: int| row[j] as int)
}

/// A grid of 64-bit samples with a fixed shape, stored row by row.
#[derive(Debug)]
pub struct Matrix {
    height: usize,
    width: usize,
    rows: Vec<Vec<i64>>,
}

impl View for Matrix {
    type V = Grid;

    closed spec fn view(&self) -> Grid {
        Grid {
            height: self.height as nat,
            width: self.width as nat,
            rows: Seq::new(self.rows@.len(), |i: int| row_model(self.rows@[i]@)),
        }
    }
}

/// The cell-wise operators that share one way of being computed.
#[derive(Clone, Copy)]
enum Stencil {
    ForwardX,
    ForwardY,
    Divergence,
    Plus,
    Minus,
    Times(i64),
}

spec fn stencil_at(stencil: Stencil, a: Grid, b: Grid, i: int, j: int) -> int {
    match stencil {
        Stencil::ForwardX => a.forward_x_at(i, j),
        Stencil::ForwardY => a.forward_y_at(i, j),
        Stencil::Divergence => a.backward_x_at(i, j) + b.backward_y_at(i, j),
        Stencil::Plus => a.at(i, j) + b.at(i, j),
        Stencil::Minus => a.at(i, j) - b.at(i, j),
        Stencil::Times(factor) => factor * a.at(i, j),
    }
}

spec fn stencil_grid(stencil: Stencil, a: Grid, b: Grid) -> Grid {
    Grid::build(a.height, a.width, |i: int, j: int| stencil_at(stencil, a, b, i, j))
}

proof fn lemma_product_bound(x: i64, y: i64)
    ensures
        -0x4000_0000_0000_0000_0000_0000_0000_0000 <= x * y
            <= 0x4000_0000_0000_0000_0000_0000_0000_0000,
{
    assert(-0x4000_0000_0000_0000_0000_0000_0000_0000 <= x * y
        <= 0x4000_0000_0000_0000_0000_0000_0000_0000) by (nonlinear_arith)
        requires
            -0x8000_0000_0000_0000 <= x <= 0x8000_0000_0000_0000,
            -0x8000_0000_0000_0000 <= y <= 0x8000_0000_0000_0000,
    ;
}

/// Whether all rows are as long as the first.
pub open spec fn rectangular(rows: Seq<Vec<i64>>) -> bool {
    forall|i: int| 0 <= i < rows.len() ==> (#[trigger] rows[i])@.len() == rows[0]@.len()
}

/// The grid that a stack of equally long rows holds.
pub open spec fn rows_model(rows: Seq<Vec<i64>>) -> Grid {
    Grid {
        height: rows.len(),
        width: if rows.len() > 0 {
            rows[0]@.len()
        } else {
            0
        },
        rows: Seq::new(rows.len(), |i: int| row_model(rows[i]@)),
    }
}

/// The two components of a gradient.
pub struct FieldModel {
    pub dx: Grid,
    pub dy: Grid,
}

impl FieldModel {
    /// Whether both components are grids of one shape.
    pub open spec fn wf(self) -> bool {
        self.dx.wf() && self.dy.wf() && self.dx.same_shape(self.dy)
    }
}

proof fn lemma_stencils(a: Grid, b: Grid, factor: i64)
    requires
        a.wf(),
        b.wf(),
        a.same_shape(b),
    ensures
        stencil_grid(Stencil::ForwardX, a, a) == a.forward_x(),
        stencil_grid(Stencil::ForwardY, a, a) == a.forward_y(),
        stencil_grid(Stencil::Divergence, a, b) == Grid::divergence(a, b),
        stencil_grid(Stencil::Plus, a, b) == a.plus(b),
        stencil_grid(Stencil::Minus, a, b) == a.minus(b),
        stencil_grid(Stencil::Times(factor), a, a) == a.times(factor as int),
{
    lemma_grid_ext(stencil_grid(Stencil::ForwardX, a, a), a.forward_x());
    lemma_grid_ext(stencil_grid(Stencil::ForwardY, a, a), a.forward_y());
    lemma_grid_ext(stencil_grid(Stencil::Divergence, a, b), Grid::divergence(a, b));
    lemma_grid_ext(stencil_grid(Stencil::Plus, a, b), a.plus(b));
    lemma_grid_ext(stencil_grid(Stencil::Minus, a, b), a.minus(b));
    lemma_grid_ext(stencil_grid(Stencil::Times(factor), a, a), a.times(factor as int));
}

impl Matrix {
    /// Whether the stored rows are as many and as long as the shape says.
    /// Every sample of such a grid lies in the range of `i64`.
    pub open spec fn wf(&self) -> bool {
        self@.wf() && self@.fits()
    }

    /// Makes the grid of the given shape that holds `value` everywhere.
    pub fn uniform(height: usize, width: usize, value: i64) -> (r: Matrix)
        ensures
            r.wf(),
            r@ == Grid::uniform(height as nat, width as nat, value as int),
    {
        let mut rows: Vec<Vec<i64>> = Vec::new();
        let mut i: usize = 0;
        while i < height
            invariant
                i <= height,
                rows@.len() == i,
                forall|k: int| 0 <= k < i ==> (#[trigger] rows@[k])@.len() == width,
                forall|k: int, j: int|
                    0 <= k < i && 0 <= j < width ==> #[trigger] rows@[k]@[j] == value,
            decreases height - i,
        {
            let mut row: Vec<i64> = Vec::new();
            let mut j: usize = 0;
            while j < width
                invariant
                    j <= width,
                    row@.len() == j,
                    forall|l: int| 0 <= l < j ==> #[trigger] row@[l] == value,
                decreases width - j,
            {
                row.push(value);
                j = j + 1;
            }
            rows.push(row);
            i = i + 1;
        }
        let made = Matrix { height, width, rows };
        proof {
            let target = Grid::uniform(height as nat, width as nat, value as int);
            assert(made@.wf());
            lemma_grid_ext(made@, target);
        }
        made
    }

    /// Makes the grid of the given shape that holds 0 everywhere.
    pub fn new(height: usize, width: usize) -> (r: Matrix)
        ensures
            r.wf(),
            r@ == Grid::uniform(height as nat, width as nat, 0),
    {
        Matrix::uniform(height, width, 0)
    }

    /// Returns the number of rows.
    pub fn height(&self) -> (r: usize)
        ensures
            r == self@.height,
    {
        self.height
    }

    /// Returns the number of columns.
    pub fn width(&self) -> (r: usize)
        ensures
            r == self@.width,
    {
        self.width
    }

    fn cell(&self, i: usize, j: usize) -> (v: i64)
        requires
            self.wf(),
            self@.has(i as int, j as int),
        ensures
            v == self@.at(i as int, j as int),
    {
        assert(self@.rows[i as int].len() == self@.width);
        self.rows[i][j]
    }

    /// Returns the sample in row `i` and column `j`, and `None` where the
    /// grid has no such place.
    pub fn get(&self, i: usize, j: usize) -> (r: Option<i64>)
        requires
            self.wf(),
        ensures
            r.is_some() <==> self@.has(i as int, j as int),
            r matches Some(v) ==> v == self@.at(i as int, j as int),
    {
        if i < self.height && j < self.width {
            Some(self.cell(i, j))
        } else {
            None
        }
    }

    fn stencil_value(stencil: Stencil, a: &Matrix, b: &Matrix, i: usize, j: usize) -> (v: i128)
        requires
            a.wf(),
            b.wf(),
            a@.same_shape(b@),
            a@.has(i as int, j as int),
        ensures
            v == stencil_at(stencil, a@, b@, i as int, j as int),
    {
        match stencil {
            Stencil::ForwardX => {
                if j + 1 < a.width {
                    a.cell(i, j + 1) as i128 - a.cell(i, j) as i128
                } else {
                    0
                }
            },
            Stencil::ForwardY => {
                if i + 1 < a.height {
                    a.cell(i + 1, j) as i128 - a.cell(i, j) as i128
                } else {
                    0
                }
            },
            Stencil::Divergence => {
                let here_x: i128 = if j + 1 < a.width {
                    a.cell(i, j) as i128
                } else {
                    0
                };
                let left: i128 = if j > 0 {
                    a.cell(i, j - 1) as i128
                } else {
                    0
                };
                let here_y: i128 = if i + 1 < a.height {
                    b.cell(i, j) as i128
                } else {
                    0
                };
                let above: i128 = if i > 0 {
                    b.cell(i - 1, j) as i128
                } else {
                    0
                };
                (here_x - left) + (here_y - above)
            },
            Stencil::Plus => a.cell(i, j) as i128 + b.cell(i, j) as i128,
            Stencil::Minus => a.cell(i, j) as i128 - b.cell(i, j) as i128,
            Stencil::Times(factor) => {
                let sample = a.cell(i, j);
                proof {
                    lemma_product_bound(factor, sample);
                }
                (factor as i128) * (sample as i128)
            },
        }
    }

    fn apply(stencil: Stencil, a: &Matrix, b: &Matrix) -> (r: Option<Matrix>)
        requires
            a.wf(),
            b.wf(),
            a@.same_shape(b@),
        ensures
            r.is_some() <==> stencil_grid(stencil, a@, b@).fits(),
            r matches Some(m) ==> m.wf() && m@ == stencil_grid(stencil, a@, b@),
    {
        let ghost target = stencil_grid(stencil, a@, b@);
        let mut rows: Vec<Vec<i64>> = Vec::new();
        let mut i: usize = 0;
        while i < a.height
            invariant
                a.wf(),
                b.wf(),
                a@.same_shape(b@),
                target == stencil_grid(stencil, a@, b@),
                i <= a.height,
                rows@.len() == i,
                forall|k: int| 0 <= k < i ==> (#[trigger] rows@[k])@.len() == a.width,
                forall|k: int, l: int|
                    0 <= k < i && 0 <= l < a.width ==> #[trigger] rows@[k]@[l] == stencil_at(
                        stencil,
                        a@,
                        b@,
                        k,
                        l,
                    ),
            decreases a.height - i,
        {
            let mut row: Vec<i64> = Vec::new();
            let mut j: usize = 0;
            while j < a.width
                invariant
                    a.wf(),
                    b.wf(),
                    a@.same_shape(b@),
                    target == stencil_grid(stencil, a@, b@),
                    i < a.height,
                    j <= a.width,
                    row@.len() == j,
                    forall|l: int|
                        0 <= l < j ==> #[trigger] row@[l] == stencil_at(stencil, a@, b@, i as int, l),
                decreases a.width - j,
            {
                let v = Matrix::stencil_value(stencil, a, b, i, j);
                if v < i64::MIN as i128 || v > i64::MAX as i128 {
                    proof {
                        assert(target.has(i as int, j as int));
                        assert(target.at(i as int, j as int) == v);
                    }
                    return None;
                }
                row.push(v as i64);
                j = j + 1;
            }
            rows.push(row);
            i = i + 1;
        }
        let made = Matrix { height: a.height, width: a.width, rows };
        proof {
            assert(made@.wf());
            lemma_grid_ext(made@, target);
        }
        Some(made)
    }

    /// Makes the grid that holds the given rows.
    ///
    /// The rows must all have one length, which becomes the width; no row
    /// at all makes the grid of height and width 0. Rows of different
    /// lengths give `None`.
    pub fn from_rows(rows: Vec<Vec<i64>>) -> (r: Option<Matrix>)
        ensures
            r.is_some() <==> rectangular(rows@),
            r matches Some(m) ==> m.wf() && m@ == rows_model(rows@),
    {
        let height = rows.len();
        let width = if height > 0 {
            rows[0].len()
        } else {
            0
        };
        let mut i: usize = 0;
        while i < height
            invariant
                height == rows@.len(),
                height > 0 ==> width == rows@[0]@.len(),
                i <= height,
                forall|k: int| 0 <= k < i ==> (#[trigger] rows@[k])@.len() == width,
            decreases height - i,
        {
            if rows[i].len() != width {
                return None;
            }
            i = i + 1;
        }
        let made = Matrix { height, width, rows };
        proof {
            assert(made@.wf());
            assert(made@.rows =~= rows_model(rows@).rows);
        }
        Some(made)
    }

    /// Returns the rows of the grid, from the first to the last.
    pub fn to_rows(&self) -> (r: Vec<Vec<i64>>)
        requires
            self.wf(),
        ensures
            r@.len() == self@.height,
            forall|i: int| 0 <= i < r@.len() ==> row_model((#[trigger] r@[i])@) == self@.rows[i],
    {
        let mut out: Vec<Vec<i64>> = Vec::new();
        let mut i: usize = 0;
        while i < self.height
            invariant
                self.wf(),
                i <= self.height,
                out@.len() == i,
                forall|k: int| 0 <= k < i ==> row_model((#[trigger] out@[k])@) == self@.rows[k],
            decreases self.height - i,
        {
            let mut row: Vec<i64> = Vec::new();
            let mut j: usize = 0;
            while j < self.width
                invariant
                    self.wf(),
                    i < self.height,
                    j <= self.width,
                    row@.len() == j,
                    forall|l: int| 0 <= l < j ==> #[trigger] row@[l] == self@.at(i as int, l),
                decreases self.width - j,
            {
                row.push(self.cell(i, j));
                j = j + 1;
            }
            proof {
                assert(self@.rows[i as int].len() == self@.width);
                assert(row_model(row@) =~= self@.rows[i as int]);
            }
            out.push(row);
            i = i + 1;
        }
        out
    }

    /// Computes the gradient: the forward differences along rows and along
    /// columns, each 0 at the far edge.
    ///
    /// Returns `None` exactly when some difference does not fit a sample.
    pub fn gradient(&self) -> (r: Option<GradientField>)
        requires
            self.wf(),
        ensures
            r.is_some() <==> self@.forward_x().fits() && self@.forward_y().fits(),
            r matches Some(field) ==> {
                &&& field.wf()
                &&& field@.dx == self@.forward_x()
                &&& field@.dy == self@.forward_y()
            },
    {
        proof {
            lemma_stencils(self@, self@, 0);
        }
        match Matrix::apply(Stencil::ForwardX, self, self) {
            Some(dx) => match Matrix::apply(Stencil::ForwardY, self, self) {
                Some(dy) => Some(GradientField { dx, dy }),
                None => None,
            },
            None => None,
        }
    }

    /// Computes the cell-wise sum with a grid of the same shape.
    ///
    /// Returns `None` exactly when the shapes differ or some sum does not
    /// fit a sample.
    pub fn plus(&self, other: &Matrix) -> (r: Option<Matrix>)
        requires
            self.wf(),
            other.wf(),
        ensures
            r.is_some() <==> self@.same_shape(other@) && self@.plus(other@).fits(),
            r matches Some(m) ==> m.wf() && m@ == self@.plus(other@),
    {
        if self.height != other.height || self.width != other.width {
            return None;
        }
        proof {
            lemma_stencils(self@, other@, 0);
        }
        Matrix::apply(Stencil::Plus, self, other)
    }

    /// Computes the cell-wise difference with a grid of the same shape.
    ///
    /// Returns `None` exactly when the shapes differ or some difference
    /// does not fit a sample.
    pub fn minus(&self, other: &Matrix) -> (r: Option<Matrix>)
        requires
            self.wf(),
            other.wf(),
        ensures
            r.is_some() <==> self@.same_shape(other@) && self@.minus(other@).fits(),
            r matches Some(m) ==> m.wf() && m@ == self@.minus(other@),
    {
        if self.height != other.height || self.width != other.width {
            return None;
        }
        proof {
            lemma_stencils(self@, other@, 0);
        }
        Matrix::apply(Stencil::Minus, self, other)
    }

    /// Multiplies every sample by `factor`.
    ///
    /// Returns `None` exactly when some product does not fit a sample.
    pub fn scale(&self, factor: i64) -> (r: Option<Matrix>)
        requires
            self.wf(),
        ensures
            r.is_some() <==> self@.times(factor as int).fits(),
            r matches Some(m) ==> m.wf() && m@ == self@.times(factor as int),
    {
        proof {
            lemma_stencils(self@, self@, factor);
        }
        Matrix::apply(Stencil::Times(factor), self, self)
    }

    /// Computes the sum of the squares of all samples.
    ///
    /// Returns `None` exactly when the sum is above `u128::MAX`.
    pub fn norm_squared(&self) -> (r: Option<u128>)
        requires
            self.wf(),
        ensures
            r.is_some() <==> self@.norm_squared() <= u128::MAX,
            r matches Some(n) ==> n == self@.norm_squared(),
    {
        let ghost grid = self@;
        let ghost of_row = |i: int| dot(grid.rows[i], grid.rows[i]);
        proof {
            assert forall|i: int| 0 <= i < grid.height implies 0 <= #[trigger] of_row(i) by {
                let row = grid.rows[i];
                let squares = |j: int| row[j] * row[j];
                assert forall|j: int| 0 <= j < row.len() implies 0 <= #[trigger] squares(j) by {
                    assert(0 <= row[j] * row[j]) by (nonlinear_arith);
                }
                lemma_sum_grows(row.len(), squares, 0);
            }
        }
        let mut total: u128 = 0;
        let mut i: usize = 0;
        while i < self.height
            invariant
                self.wf(),
                grid == self@,
                of_row == |i: int| dot(grid.rows[i], grid.rows[i]),
                forall|k: int| 0 <= k < grid.height ==> 0 <= #[trigger] of_row(k),
                i <= self.height,
                total == sum(i as nat, of_row),
            decreases self.height - i,
        {
            let ghost row = grid.rows[i as int];
            let ghost squares = |j: int| row[j] * row[j];
            proof {
                assert(row.len() == grid.width);
                assert forall|j: int| 0 <= j < row.len() implies 0 <= #[trigger] squares(j) by {
                    assert(0 <= row[j] * row[j]) by (nonlinear_arith);
                }
            }
            let mut part: u128 = total;
            let mut j: usize = 0;
            while j < self.width
                invariant
                    self.wf(),
                    grid == self@,
                    of_row == |i: int| dot(grid.rows[i], grid.rows[i]),
                    forall|k: int| 0 <= k < grid.height ==> 0 <= #[trigger] of_row(k),
                    of_row(i as int) == sum(row.len(), squares),
                    i < self.height,
                    row == grid.rows[i as int],
                    row.len() == grid.width,
                    squares == |j: int| row[j] * row[j],
                    forall|l: int| 0 <= l < row.len() ==> 0 <= #[trigger] squares(l),
                    total == sum(i as nat, of_row),
                    j <= self.width,
                    part == total + sum(j as nat, squares),
                decreases self.width - j,
            {
                let sample = self.cell(i, j);
                proof {
                    lemma_product_bound(sample, sample);
                    assert(0 <= sample * sample) by (nonlinear_arith);
                    assert(squares(j as int) == sample * sample);
                }
                let square: i128 = (sample as i128) * (sample as i128);
                let square: u128 = square as u128;
                if part > u128::MAX - square {
                    proof {
                        lemma_sum_grows(row.len(), squares, (j + 1) as nat);
                        lemma_sum_grows(grid.height, of_row, (i + 1) as nat);
                        assert(sum((j + 1) as nat, squares) == sum(j as nat, squares) + squares(
                            j as int,
                        ));
                        assert(sum((i + 1) as nat, of_row) == sum(i as nat, of_row) + of_row(
                            i as int,
                        ));
                        lemma_sum_congruence(
                            grid.height,
                            of_row,
                            |i: int| dot(grid.rows[i], grid.rows[i]),
                        );
                    }
                    return None;
                }
                part = part + square;
                j = j + 1;
            }
            total = part;
            i = i + 1;
        }
        Some(total)
    }
}

/// A gradient field: the differences of a grid along rows and along
/// columns, two grids of one shape.
#[derive(Debug)]
pub struct GradientField {
    dx: Matrix,
    dy: Matrix,
}

impl View for GradientField {
    type V = FieldModel;

    closed spec fn view(&self) -> FieldModel {
        FieldModel { dx: self.dx@, dy: self.dy@ }
    }
}

impl GradientField {
    /// Whether both components are stored grids of one shape. Every
    /// sample of such a field lies in the range of `i64`.
    pub open spec fn wf(&self) -> bool {
        self@.wf() && self@.dx.fits() && self@.dy.fits()
    }

    /// Makes a field of two components, which must have one shape;
    /// components of different shapes give `None`.
    pub fn new(dx: Matrix, dy: Matrix) -> (r: Option<GradientField>)
        requires
            dx.wf(),
            dy.wf(),
        ensures
            r.is_some() <==> dx@.same_shape(dy@),
            r matches Some(field) ==> field.wf() && field@.dx == dx@ && field@.dy == dy@,
    {
        if dx.height != dy.height || dx.width != dy.width {
            None
        } else {
            Some(GradientField { dx, dy })
        }
    }

    /// Makes the field of the given shape that is 0 everywhere.
    pub fn zeros(height: usize, width: usize) -> (r: GradientField)
        ensures
            r.wf(),
            r@.dx == Grid::uniform(height as nat, width as nat, 0),
            r@.dy == Grid::uniform(height as nat, width as nat, 0),
    {
        GradientField { dx: Matrix::new(height, width), dy: Matrix::new(height, width) }
    }

    /// Returns the component along rows.
    pub fn dx(&self) -> (r: &Matrix)
        requires
            self.wf(),
        ensures
            r.wf(),
            r@ == self@.dx,
    {
        &self.dx
    }

    /// Returns the component along columns.
    pub fn dy(&self) -> (r: &Matrix)
        requires
            self.wf(),
        ensures
            r.wf(),
            r@ == self@.dy,
    {
        &self.dy
    }

    /// Computes the divergence: the backward difference of the first
    /// component along rows plus that of the second along columns, under
    /// the zero-flux convention.
    ///
    /// Returns `None` exactly when some sample of the result does not fit.
    pub fn divergence(&self) -> (r: Option<Matrix>)
        requires
            self.wf(),
        ensures
            r.is_some() <==> Grid::divergence(self@.dx, self@.dy).fits(),
            r matches Some(m) ==> m.wf() && m@ == Grid::divergence(self@.dx, self@.dy),
    {
        proof {
            lemma_stencils(self.dx@, self.dy@, 0);
        }
        Matrix::apply(Stencil::Divergence, &self.dx, &self.dy)
    }
}

} // verus!
