//! The mathematical model of a sample grid and of the discrete operators on
//! it: forward differences with a zero-flux boundary, the divergence that is
//! their negative adjoint, cell-wise arithmetic, and the inner product.
use vstd::prelude::*;

verus! {

/// A grid of `height` rows of `width` integer samples each.
pub struct Grid {
    pub height: nat,
    pub width: nat,
    pub rows: Seq<Seq<int>>,
}

/// The sum of `term(0)`, ..., `term(count - 1)`.
pub open spec fn sum(count: nat, term: spec_fn(int) -> int) -> int
    decreases count,
{
    if count == 0 {
        0
    } else {
        sum((count - 1) as nat, term) + term(count - 1)
    }
}

/// The sum of the products of the samples of two rows, place by place.
pub open spec fn dot(a: Seq<int>, b: Seq<int>) -> int {
    sum(a.len(), |j: int| a[j] * b[j])
}

impl Grid {
    /// Whether the rows are as many and as long as the shape says.
    pub open spec fn wf(self) -> bool {
        &&& self.rows.len() == self.height
        &&& forall|i: int| 0 <= i < self.height ==> (#[trigger] self.rows[i]).len() == self.width
    }

    /// The sample in row `i` and column `j`.
    pub open spec fn at(self, i: int, j: int) -> int {
        self.rows[i][j]
    }

    /// Whether `(i, j)` is a place of the grid.
    pub open spec fn has(self, i: int, j: int) -> bool {
        0 <= i < self.height && 0 <= j < self.width
    }

    /// Whether both grids have the same shape.
    pub open spec fn same_shape(self, other: Grid) -> bool {
        self.height == other.height && self.width == other.width
    }

    /// The grid of the given shape whose sample at `(i, j)` is `cell(i, j)`.
    pub open spec fn build(height: nat, width: nat, cell: spec_fn(int, int) -> int) -> Grid {
        Grid {
            height,
            width,
            rows: Seq::new(height, |i: int| Seq::new(width, |j: int| cell(i, j))),
        }
    }

    /// The grid of the given shape that holds `value` everywhere.
    pub open spec fn uniform(height: nat, width: nat, value: int) -> Grid {
        Grid::build(height, width, |i: int, j: int| value)
    }

    /// Whether every sample equals `value`.
    pub open spec fn is_uniform(self, value: int) -> bool {
        forall|i: int, j: int| self.has(i, j) ==> #[trigger] self.at(i, j) == value
    }

    /// Whether every sample lies in the range of `i64`.
    pub open spec fn fits(self) -> bool {
        forall|i: int, j: int|
            self.has(i, j) ==> i64::MIN <= #[trigger] self.at(i, j) <= i64::MAX
    }

    /// The forward difference along the row at `(i, j)`: the right
    /// neighbour minus the sample, and 0 in the last column.
    pub open spec fn forward_x_at(self, i: int, j: int) -> int {
        if j + 1 < self.width {
            self.at(i, j + 1) - self.at(i, j)
        } else {
            0
        }
    }

    /// The forward difference along the column at `(i, j)`: the neighbour
    /// below minus the sample, and 0 in the last row.
    pub open spec fn forward_y_at(self, i: int, j: int) -> int {
        if i + 1 < self.height {
            self.at(i + 1, j) - self.at(i, j)
        } else {
            0
        }
    }

    /// The backward difference along the row at `(i, j)` under the zero-flux
    /// convention: the sample counts as 0 in the last column, and its left
    /// neighbour as 0 in the first.
    pub open spec fn backward_x_at(self, i: int, j: int) -> int {
        (if j + 1 < self.width {
            self.at(i, j)
        } else {
            0
        }) - (if j > 0 {
            self.at(i, j - 1)
        } else {
            0
        })
    }

    /// The backward difference along the column at `(i, j)` under the
    /// zero-flux convention: the sample counts as 0 in the last row, and
    /// the neighbour above as 0 in the first.
    pub open spec fn backward_y_at(self, i: int, j: int) -> int {
        (if i + 1 < self.height {
            self.at(i, j)
        } else {
            0
        }) - (if i > 0 {
            self.at(i - 1, j)
        } else {
            0
        })
    }

    /// The first component of the gradient: forward differences along rows.
    pub open spec fn forward_x(self) -> Grid {
        Grid::build(self.height, self.width, |i: int, j: int| self.forward_x_at(i, j))
    }

    /// The second component of the gradient: forward differences along
    /// columns.
    pub open spec fn forward_y(self) -> Grid {
        Grid::build(self.height, self.width, |i: int, j: int| self.forward_y_at(i, j))
    }

    /// The backward differences along rows.
    pub open spec fn backward_x(self) -> Grid {
        Grid::build(self.height, self.width, |i: int, j: int| self.backward_x_at(i, j))
    }

    /// The backward differences along columns.
    pub open spec fn backward_y(self) -> Grid {
        Grid::build(self.height, self.width, |i: int, j: int| self.backward_y_at(i, j))
    }

    /// The divergence of the field whose components are `dx` and `dy`: the
    /// sum of the backward difference of `dx` along rows and of `dy` along
    /// columns.
    pub open spec fn divergence(dx: Grid, dy: Grid) -> Grid {
        Grid::build(
            dx.height,
            dx.width,
            |i: int, j: int| dx.backward_x_at(i, j) + dy.backward_y_at(i, j),
        )
    }

    /// The cell-wise sum.
    pub open spec fn plus(self, other: Grid) -> Grid {
        Grid::build(self.height, self.width, |i: int, j: int| self.at(i, j) + other.at(i, j))
    }

    /// The cell-wise difference.
    pub open spec fn minus(self, other: Grid) -> Grid {
        Grid::build(self.height, self.width, |i: int, j: int| self.at(i, j) - other.at(i, j))
    }

    /// Every sample multiplied by `factor`.
    pub open spec fn times(self, factor: int) -> Grid {
        Grid::build(self.height, self.width, |i: int, j: int| factor * self.at(i, j))
    }

    /// The inner product: the sum over all places of the product of the two
    /// samples there.
    pub open spec fn inner(self, other: Grid) -> int {
        sum(self.height, |i: int| dot(self.rows[i], other.rows[i]))
    }

    /// The sum of the squares of all samples.
    pub open spec fn norm_squared(self) -> int {
        self.inner(self)
    }
}

/// Two grids of one shape that hold the same sample at every place are
/// equal.
pub proof fn lemma_grid_ext(a: Grid, b: Grid)
    requires
        a.wf(),
        b.wf(),
        a.same_shape(b),
        forall|i: int, j: int| a.has(i, j) ==> a.at(i, j) == b.at(i, j),
    ensures
        a == b,
{
    assert forall|i: int| 0 <= i < a.height implies a.rows[i] == b.rows[i] by {
        assert forall|j: int| 0 <= j < a.width implies a.rows[i][j] == b.rows[i][j] by {
            assert(a.has(i, j));
            assert(a.at(i, j) == b.at(i, j));
        }
        assert(a.rows[i] =~= b.rows[i]);
    }
    assert(a.rows =~= b.rows);
}

/// Two sums of equally many terms that agree term by term are equal.
pub proof fn lemma_sum_congruence(count: nat, f: spec_fn(int) -> int, g: spec_fn(int) -> int)
    requires
        forall|k: int| 0 <= k < count ==> #[trigger] f(k) == g(k),
    ensures
        sum(count, f) == sum(count, g),
    decreases count,
{
    if count > 0 {
        lemma_sum_congruence((count - 1) as nat, f, g);
    }
}

/// The sum of term-wise sums is the sum of the sums.
pub proof fn lemma_sum_plus(
    count: nat,
    f: spec_fn(int) -> int,
    g: spec_fn(int) -> int,
    both: spec_fn(int) -> int,
)
    requires
        forall|k: int| 0 <= k < count ==> #[trigger] both(k) == f(k) + g(k),
    ensures
        sum(count, both) == sum(count, f) + sum(count, g),
    decreases count,
{
    if count > 0 {
        lemma_sum_plus((count - 1) as nat, f, g, both);
    }
}

/// A sum whose terms are the steps of a sequence collapses to the
/// difference of the sequence's ends.
pub proof fn lemma_sum_telescopes(count: nat, f: spec_fn(int) -> int, t: spec_fn(int) -> int)
    requires
        forall|k: int| 0 <= k < count ==> #[trigger] f(k) == t(k + 1) - t(k),
    ensures
        sum(count, f) == t(count as int) - t(0),
    decreases count,
{
    if count > 0 {
        lemma_sum_telescopes((count - 1) as nat, f, t);
    }
}

/// A sum whose terms are all 0 is 0.
pub proof fn lemma_sum_of_zeros(count: nat, f: spec_fn(int) -> int)
    requires
        forall|k: int| 0 <= k < count ==> #[trigger] f(k) == 0,
    ensures
        sum(count, f) == 0,
    decreases count,
{
    if count > 0 {
        lemma_sum_of_zeros((count - 1) as nat, f);
    }
}

/// A sum of terms that are not negative is not negative, and is at least
/// the sum of its first terms.
pub proof fn lemma_sum_grows(count: nat, term: spec_fn(int) -> int, shorter: nat)
    requires
        shorter <= count,
        forall|k: int| 0 <= k < count ==> 0 <= #[trigger] term(k),
    ensures
        0 <= sum(shorter, term) <= sum(count, term),
    decreases count,
{
    if shorter < count {
        lemma_sum_grows((count - 1) as nat, term, shorter);
    } else if count > 0 {
        lemma_sum_grows((count - 1) as nat, term, (count - 1) as nat);
    }
}

} // verus!
