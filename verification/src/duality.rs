//! The laws that tie the gradient to the divergence.
use vstd::prelude::*;
use crate::grid::{
    dot, lemma_grid_ext, lemma_sum_congruence, lemma_sum_of_zeros, lemma_sum_plus,
    lemma_sum_telescopes, sum, Grid,
};

verus! {

/// The forward differences of a row: the right neighbour minus the sample,
/// and 0 at the end.
pub open spec fn row_forward(u: Seq<int>) -> Seq<int> {
    Seq::new(
        u.len(),
        |j: int|
            if j + 1 < u.len() {
                u[j + 1] - u[j]
            } else {
                0
            },
    )
}

/// The backward differences of a row under the zero-flux convention.
pub open spec fn row_backward(p: Seq<int>) -> Seq<int> {
    Seq::new(
        p.len(),
        |j: int|
            (if j + 1 < p.len() {
                p[j]
            } else {
                0
            }) - (if j > 0 {
                p[j - 1]
            } else {
                0
            }),
    )
}

proof fn lemma_parts_step(a: int, b: int, c: int, d: int)
    ensures
        (a - b) * c + b * (c - d) == a * c - b * d,
        0 * c + b * (0 - d) == 0 - b * d,
        b * 0 == 0,
        0 * c == 0,
{
    assert((a - b) * c + b * (c - d) == a * c - b * d) by (nonlinear_arith);
    assert(0 * c + b * (0 - d) == 0 - b * d) by (nonlinear_arith);
}

/// Summation by parts along one row: the forward differences of `u`
/// against `p` and `u` against the backward differences of `p` cancel.
pub proof fn lemma_row_adjoint(u: Seq<int>, p: Seq<int>)
    requires
        u.len() == p.len(),
    ensures
        dot(row_forward(u), p) + dot(u, row_backward(p)) == 0,
{
    let w = u.len();
    let fu = row_forward(u);
    let bp = row_backward(p);
    let left = |j: int| fu[j] * p[j];
    let right = |j: int| u[j] * bp[j];
    let both = |j: int| fu[j] * p[j] + u[j] * bp[j];
    let t = |j: int|
        if 0 < j < w {
            u[j] * p[j - 1]
        } else {
            0
        };
    assert forall|j: int| 0 <= j < w implies #[trigger] both(j) == t(j + 1) - t(j) by {
        let before = if j > 0 {
            p[j - 1]
        } else {
            0
        };
        if j + 1 < w {
            lemma_parts_step(u[j + 1], u[j], p[j], before);
        } else {
            lemma_parts_step(0, u[j], p[j], before);
        }
        if j == 0 {
            lemma_parts_step(0, u[j], 0, 0);
        }
    }
    lemma_sum_telescopes(w, both, t);
    lemma_sum_plus(w, left, right, both);
    lemma_sum_congruence(w, left, |j: int| fu[j] * p[j]);
    lemma_sum_congruence(w, right, |j: int| u[j] * bp[j]);
}

/// The inner product of a row with a row of zeros is 0.
pub proof fn lemma_dot_zero(u: Seq<int>, z: Seq<int>)
    requires
        u.len() == z.len(),
        forall|j: int| 0 <= j < z.len() ==> #[trigger] z[j] == 0,
    ensures
        dot(u, z) == 0,
        dot(z, u) == 0,
{
    let uz = |j: int| u[j] * z[j];
    let zu = |j: int| z[j] * u[j];
    assert forall|j: int| 0 <= j < u.len() implies #[trigger] uz(j) == 0 by {
        assert(z[j] == 0);
        assert(u[j] * 0 == 0) by (nonlinear_arith);
    }
    assert forall|j: int| 0 <= j < u.len() implies #[trigger] zu(j) == 0 by {
        assert(z[j] == 0);
        assert(0 * u[j] == 0) by (nonlinear_arith);
    }
    lemma_sum_of_zeros(u.len(), uz);
    lemma_sum_of_zeros(z.len(), zu);
}

proof fn lemma_sum_of_four(
    count: nat,
    r: spec_fn(int) -> int,
    a: spec_fn(int) -> int,
    b: spec_fn(int) -> int,
    c: spec_fn(int) -> int,
    d: spec_fn(int) -> int,
)
    requires
        forall|k: int| 0 <= k < count ==> #[trigger] r(k) == a(k) - b(k) + c(k) - d(k),
    ensures
        sum(count, r) == sum(count, a) - sum(count, b) + sum(count, c) - sum(count, d),
    decreases count,
{
    if count > 0 {
        lemma_sum_of_four((count - 1) as nat, r, a, b, c, d);
    }
}

/// The inner product of rows is linear in each argument: with `f = x - u`
/// and `b = y - z` place by place, `f` against `p` plus `u` against `b`
/// expands into the four products of the parts.
pub proof fn lemma_dot_expands(
    f: Seq<int>,
    x: Seq<int>,
    u: Seq<int>,
    p: Seq<int>,
    b: Seq<int>,
    y: Seq<int>,
    z: Seq<int>,
)
    requires
        f.len() == u.len(),
        x.len() == u.len(),
        p.len() == u.len(),
        b.len() == u.len(),
        y.len() == u.len(),
        z.len() == u.len(),
        forall|j: int| 0 <= j < u.len() ==> #[trigger] f[j] == x[j] - u[j],
        forall|j: int| 0 <= j < u.len() ==> #[trigger] b[j] == y[j] - z[j],
    ensures
        dot(f, p) + dot(u, b) == dot(x, p) - dot(u, p) + dot(u, y) - dot(u, z),
{
    let w = u.len();
    let both = |j: int| f[j] * p[j] + u[j] * b[j];
    let xp = |j: int| x[j] * p[j];
    let up = |j: int| u[j] * p[j];
    let uy = |j: int| u[j] * y[j];
    let uz = |j: int| u[j] * z[j];
    assert forall|j: int| 0 <= j < w implies #[trigger] both(j) == xp(j) - up(j) + uy(j) - uz(j) by {
        assert(f[j] == x[j] - u[j]);
        assert(b[j] == y[j] - z[j]);
        assert((x[j] - u[j]) * p[j] + u[j] * (y[j] - z[j]) == x[j] * p[j] - u[j] * p[j] + u[j]
            * y[j] - u[j] * z[j]) by (nonlinear_arith);
    }
    lemma_sum_of_four(w, both, xp, up, uy, uz);
    lemma_sum_plus(w, |j: int| f[j] * p[j], |j: int| u[j] * b[j], both);
}

/// Summation by parts along rows, on a whole grid: the forward differences
/// of `u` along rows against `p`, and `u` against the backward differences
/// of `p` along rows, cancel.
pub proof fn lemma_adjoint_along_rows(u: Grid, p: Grid)
    requires
        u.wf(),
        p.wf(),
        u.same_shape(p),
    ensures
        u.forward_x().inner(p) + u.inner(p.backward_x()) == 0,
{
    let fu = u.forward_x();
    let bp = p.backward_x();
    let left = |i: int| dot(fu.rows[i], p.rows[i]);
    let right = |i: int| dot(u.rows[i], bp.rows[i]);
    let both = |i: int| dot(fu.rows[i], p.rows[i]) + dot(u.rows[i], bp.rows[i]);
    assert forall|i: int| 0 <= i < u.height implies #[trigger] both(i) == 0 by {
        assert(u.rows[i].len() == u.width);
        assert(p.rows[i].len() == u.width);
        assert(fu.rows[i] =~= row_forward(u.rows[i]));
        assert(bp.rows[i] =~= row_backward(p.rows[i]));
        lemma_row_adjoint(u.rows[i], p.rows[i]);
    }
    lemma_sum_of_zeros(u.height, both);
    lemma_sum_plus(u.height, left, right, both);
}

/// Summation by parts along columns, on a whole grid: the forward
/// differences of `u` along columns against `p`, and `u` against the
/// backward differences of `p` along columns, cancel.
pub proof fn lemma_adjoint_along_columns(u: Grid, p: Grid)
    requires
        u.wf(),
        p.wf(),
        u.same_shape(p),
    ensures
        u.forward_y().inner(p) + u.inner(p.backward_y()) == 0,
{
    let h = u.height;
    let w = u.width;
    let fu = u.forward_y();
    let bp = p.backward_y();
    let zero = Seq::new(w, |j: int| 0int);
    let left = |i: int| dot(fu.rows[i], p.rows[i]);
    let right = |i: int| dot(u.rows[i], bp.rows[i]);
    let both = |i: int| dot(fu.rows[i], p.rows[i]) + dot(u.rows[i], bp.rows[i]);
    let t = |i: int|
        if 0 < i < h {
            dot(u.rows[i], p.rows[i - 1])
        } else {
            0
        };
    assert forall|i: int| 0 <= i < h implies #[trigger] both(i) == t(i + 1) - t(i) by {
        let ui = u.rows[i];
        let pi = p.rows[i];
        assert(ui.len() == w && pi.len() == w);
        let above = if i > 0 {
            p.rows[i - 1]
        } else {
            zero
        };
        assert(above.len() == w);
        if i == 0 {
            lemma_dot_zero(ui, zero);
        }
        if i + 1 < h {
            let below = u.rows[i + 1];
            assert(below.len() == w);
            lemma_dot_expands(fu.rows[i], below, ui, pi, bp.rows[i], pi, above);
        } else {
            lemma_dot_zero(ui, zero);
            lemma_dot_expands(fu.rows[i], ui, ui, pi, bp.rows[i], zero, above);
        }
    }
    lemma_sum_telescopes(h, both, t);
    lemma_sum_plus(h, left, right, both);
}

/// The inner product is additive in its second argument.
pub proof fn lemma_inner_plus(u: Grid, a: Grid, b: Grid)
    requires
        u.wf(),
        a.wf(),
        b.wf(),
        u.same_shape(a),
        u.same_shape(b),
    ensures
        u.inner(a.plus(b)) == u.inner(a) + u.inner(b),
{
    let ab = a.plus(b);
    let whole = |i: int| dot(u.rows[i], ab.rows[i]);
    let first = |i: int| dot(u.rows[i], a.rows[i]);
    let second = |i: int| dot(u.rows[i], b.rows[i]);
    assert forall|i: int| 0 <= i < u.height implies #[trigger] whole(i) == first(i) + second(i) by {
        let ui = u.rows[i];
        let ai = a.rows[i];
        let bi = b.rows[i];
        let si = ab.rows[i];
        assert(ui.len() == u.width && ai.len() == u.width && bi.len() == u.width);
        let term = |j: int| ui[j] * si[j];
        let ta = |j: int| ui[j] * ai[j];
        let tb = |j: int| ui[j] * bi[j];
        assert forall|j: int| 0 <= j < u.width implies #[trigger] term(j) == ta(j) + tb(j) by {
            assert(si[j] == a.at(i, j) + b.at(i, j));
            assert(ui[j] * (ai[j] + bi[j]) == ui[j] * ai[j] + ui[j] * bi[j])
                by (nonlinear_arith);
        }
        lemma_sum_plus(u.width, ta, tb, term);
    }
    lemma_sum_plus(u.height, first, second, whole);
}

/// The divergence is the negative adjoint of the gradient: for a grid `u`
/// and a field `(dx, dy)` of the same shape, the inner product of the
/// gradient of `u` with the field is the negative of the inner product of
/// `u` with the divergence of the field.
pub proof fn lemma_divergence_is_negative_adjoint(u: Grid, dx: Grid, dy: Grid)
    requires
        u.wf(),
        dx.wf(),
        dy.wf(),
        u.same_shape(dx),
        u.same_shape(dy),
    ensures
        u.forward_x().inner(dx) + u.forward_y().inner(dy) == -u.inner(Grid::divergence(dx, dy)),
{
    let bx = dx.backward_x();
    let by = dy.backward_y();
    lemma_adjoint_along_rows(u, dx);
    lemma_adjoint_along_columns(u, dy);
    lemma_inner_plus(u, bx, by);
    lemma_grid_ext(bx.plus(by), Grid::divergence(dx, dy));
}

/// A grid that holds one value everywhere has a gradient that is 0
/// everywhere.
pub proof fn lemma_uniform_has_no_gradient(u: Grid, value: int)
    requires
        u.wf(),
        u.is_uniform(value),
    ensures
        u.forward_x() == Grid::uniform(u.height, u.width, 0),
        u.forward_y() == Grid::uniform(u.height, u.width, 0),
{
    let zero = Grid::uniform(u.height, u.width, 0);
    assert forall|i: int, j: int| u.has(i, j) implies u.forward_x().at(i, j) == zero.at(i, j)
        && u.forward_y().at(i, j) == zero.at(i, j) by {
        assert(u.at(i, j) == value);
        if j + 1 < u.width {
            assert(u.has(i, j + 1));
            assert(u.at(i, j + 1) == value);
        }
        if i + 1 < u.height {
            assert(u.has(i + 1, j));
            assert(u.at(i + 1, j) == value);
        }
    }
    lemma_grid_ext(u.forward_x(), zero);
    lemma_grid_ext(u.forward_y(), zero);
}

/// The field that is 0 everywhere has a divergence that is 0 everywhere.
pub proof fn lemma_zero_field_has_no_divergence(height: nat, width: nat)
    ensures
        Grid::divergence(Grid::uniform(height, width, 0), Grid::uniform(height, width, 0))
            == Grid::uniform(height, width, 0),
{
    let zero = Grid::uniform(height, width, 0);
    lemma_grid_ext(Grid::divergence(zero, zero), zero);
}

/// A grid differs from itself by the grid that is 0 everywhere, whose sum
/// of squares is 0: an estimate that an iteration leaves as it was has
/// changed by nothing.
pub proof fn lemma_no_change_has_no_norm(u: Grid)
    requires
        u.wf(),
    ensures
        u.minus(u) == Grid::uniform(u.height, u.width, 0),
        u.minus(u).norm_squared() == 0,
{
    let zero = Grid::uniform(u.height, u.width, 0);
    lemma_grid_ext(u.minus(u), zero);
    let of_row = |i: int| dot(zero.rows[i], zero.rows[i]);
    assert forall|i: int| 0 <= i < zero.height implies #[trigger] of_row(i) == 0 by {
        lemma_dot_zero(zero.rows[i], zero.rows[i]);
    }
    lemma_sum_of_zeros(zero.height, of_row);
}

} // verus!
