//! The order of the points that a projection of the field emits.
//!
//! For each grid index, in ascending order, five points are emitted: the
//! real part, the imaginary part and the density, which follow the field's
//! state, then two guide points on the reference rings at heights one and
//! zero. After all indices come the marks of a vertical axis. Where each point
//! stands, and what colour it has, is computed by the caller from its source.
use vstd::arithmetic::div_mod::lemma_fundamental_div_mod_converse;
use vstd::prelude::*;

verus! {

/// Points emitted for each grid index.
pub const POINTS_PER_INDEX: usize = 5;

/// Marks on the vertical axis in the default projection.
pub const AXIS_MARKS: usize = 400;

/// What a point at one grid index shows.
#[derive(Debug, Clone, Copy, PartialEq, Eq, Structural)]
pub enum Role {
    /// Height is the real part.
    Real,
    /// Height is the imaginary part.
    Imag,
    /// Height is the squared magnitude plus one.
    Density,
    /// A guide point on the ring at height one.
    UpperRing,
    /// A guide point on the ring at height zero.
    LowerRing,
}

/// Where one emitted point comes from.
#[derive(Debug, Clone, Copy, PartialEq, Eq, Structural)]
pub enum PointSource {
    /// A point at a grid index.
    Sample { index: usize, role: Role },
    /// The `mark`-th of the axis marks, counted from the bottom.
    Axis { mark: usize },
}

/// The role of the `r`-th point of an index.
pub open spec fn role_at(r: int) -> Role {
    if r == 0 {
        Role::Real
    } else if r == 1 {
        Role::Imag
    } else if r == 2 {
        Role::Density
    } else if r == 3 {
        Role::UpperRing
    } else {
        Role::LowerRing
    }
}

/// The roles whose height follows the field's state.
pub open spec fn follows_state(p: PointSource) -> bool {
    match p {
        PointSource::Sample { role, .. } => role == Role::Real || role == Role::Imag || role
            == Role::Density,
        PointSource::Axis { .. } => false,
    }
}

/// The grid index of a point at one; zero for an axis mark.
pub open spec fn index_of(p: PointSource) -> int {
    match p {
        PointSource::Sample { index, .. } => index as int,
        PointSource::Axis { .. } => 0,
    }
}

/// The `k`-th point of the projection of `n` grid indices with `marks` axis
/// marks.
pub open spec fn plan_entry(n: int, k: int) -> PointSource {
    if k < 5 * n {
        PointSource::Sample { index: (k / 5) as usize, role: role_at(k % 5) }
    } else {
        PointSource::Axis { mark: (k - 5 * n) as usize }
    }
}

/// The whole sequence of points for `n` grid indices and `marks` axis marks.
pub open spec fn plan(n: nat, marks: nat) -> Seq<PointSource> {
    Seq::new(5 * n + marks, |k: int| plan_entry(n as int, k))
}

/// The role of the `r`-th point of an index, for `r < 5`.
pub fn role_of(r: usize) -> (role: Role)
    requires
        r < POINTS_PER_INDEX,
    ensures
        role == role_at(r as int),
{
    if r == 0 {
        Role::Real
    } else if r == 1 {
        Role::Imag
    } else if r == 2 {
        Role::Density
    } else if r == 3 {
        Role::UpperRing
    } else {
        Role::LowerRing
    }
}

/// The sources of all points of a projection, in the order they are emitted.
pub fn projection_plan(n: usize, marks: usize) -> (r: Vec<PointSource>)
    requires
        5 * n + marks <= usize::MAX,
    ensures
        r@ == plan(n as nat, marks as nat),
{
    let mut r: Vec<PointSource> = Vec::new();
    let mut i: usize = 0;
    while i < n
        invariant
            i <= n,
            5 * n + marks <= usize::MAX,
            r@ == Seq::new(5 * i as nat, |k: int| plan_entry(n as int, k)),
        decreases n - i,
    {
        let mut j: usize = 0;
        while j < POINTS_PER_INDEX
            invariant
                i < n,
                j <= 5,
                5 * n + marks <= usize::MAX,
                r@ == Seq::new((5 * i + j) as nat, |k: int| plan_entry(n as int, k)),
            decreases 5 - j,
        {
            proof {
                lemma_fundamental_div_mod_converse(5 * i + j, 5, i as int, j as int);
            }
            r.push(PointSource::Sample { index: i, role: role_of(j) });
            j = j + 1;
            assert(r@ =~= Seq::new((5 * i + j) as nat, |k: int| plan_entry(n as int, k)));
        }
        i = i + 1;
    }
    let mut m: usize = 0;
    while m < marks
        invariant
            m <= marks,
            5 * n + marks <= usize::MAX,
            r@ == Seq::new((5 * n + m) as nat, |k: int| plan_entry(n as int, k)),
        decreases marks - m,
    {
        r.push(PointSource::Axis { mark: m });
        m = m + 1;
        assert(r@ =~= Seq::new((5 * n + m) as nat, |k: int| plan_entry(n as int, k)));
    }
    r
}

/// For each grid index `i`, the points at `5 i`, `5 i + 1` and `5 i + 2` are
/// its real part, imaginary part and density, and they are the only points
/// of the plan that follow the field's state; so there are three such points
/// per index, in ascending order of index.
pub proof fn lemma_state_points(n: nat, marks: nat)
    requires
        5 * n + marks <= usize::MAX,
    ensures
        forall|i: int, r: int|
            0 <= i < n && 0 <= r < 5 ==> #[trigger] plan(n, marks)[5 * i + r] == (PointSource::Sample {
                index: i as usize,
                role: role_at(r),
            }),
        forall|k: int|
            0 <= k < plan(n, marks).len() ==> (follows_state(#[trigger] plan(n, marks)[k]) <==> (k
                < 5 * n && k % 5 < 3)),
        forall|k1: int, k2: int|
            0 <= k1 <= k2 < 5 * n ==> #[trigger] index_of(plan(n, marks)[k1])
                <= #[trigger] index_of(plan(n, marks)[k2]),
{
    assert forall|i: int, r: int| 0 <= i < n && 0 <= r < 5 implies #[trigger] plan(n, marks)[5 * i
        + r] == (PointSource::Sample { index: i as usize, role: role_at(r) }) by {
        lemma_fundamental_div_mod_converse(5 * i + r, 5, i, r);
        assert(5 * i + r < 5 * n) by (nonlinear_arith)
            requires
                0 <= i < n,
                0 <= r < 5,
        ;
    }
    assert forall|k1: int, k2: int| 0 <= k1 <= k2 < 5 * n implies #[trigger] index_of(plan(n, marks)[k1]) <= #[trigger] index_of(plan(n, marks)[k2]) by {
        assert(k1 / 5 <= k2 / 5) by (nonlinear_arith)
            requires
                0 <= k1 <= k2,
        ;
        assert(k2 / 5 < n) by (nonlinear_arith)
            requires
                0 <= k2 < 5 * n,
        ;
        assert(k1 / 5 < n) by (nonlinear_arith)
            requires
                0 <= k1 < 5 * n,
        ;
    }
}

} // verus!
