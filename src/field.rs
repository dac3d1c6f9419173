//! The field: two equal-length buffers, real and imaginary, on a ring.
//!
//! The scalar type is a parameter. Arithmetic on scalars is handed in as
//! closures, so the library fixes what is read and written, and in which
//! order, while the caller fixes what a scalar operation computes.
use crate::ring::{lemma_succ_pred_inverse, neighbors, pred, succ};
use vstd::prelude::*;

verus! {

/// Why a field could not be built.
#[derive(Debug, Clone, Copy, PartialEq, Eq, Structural)]
pub enum FieldError {
    /// A field needs at least one grid point.
    InvalidSize,
    /// Two buffers that must have equal length do not.
    DimensionMismatch,
}

/// The simulated field: a complex value at each point of a ring of `len()` grid points.
pub struct Sim<T> {
    re: Vec<T>,
    im: Vec<T>,
}

/// Every entry of `s` is `z`.
pub open spec fn all_equal<T>(s: Seq<T>, z: T) -> bool {
    forall|i: int| 0 <= i < s.len() ==> s[i] == z
}

/// A four-argument kernel that, given `z` everywhere, can only return `z`.
pub open spec fn fixes<T, F: Fn(T, T, T, T) -> T>(f: F, z: T) -> bool {
    forall|r: T| call_ensures(f, (z, z, z, z), r) ==> r == z
}

/// A four-argument kernel that may be called on any arguments.
pub open spec fn total4<T, F: Fn(T, T, T, T) -> T>(f: F) -> bool {
    forall|a: T, b: T, c: T, d: T| call_requires(f, (a, b, c, d))
}

/// The value at `j` while cell `i` is being updated: cells up to and
/// including `i` hold their new value, the others their old one.
pub open spec fn partial<T>(before: Seq<T>, after: Seq<T>, i: int, j: int) -> T {
    if j <= i {
        after[j]
    } else {
        before[j]
    }
}

/// `(re1, im1)` is what one step makes of `(re0, im0)`.
///
/// For each index `i`, in ascending order, the imaginary part is updated by
/// `raise` from its old value and the old real parts at `i + 1`, `i - 1` and
/// `i`; then the real part is updated by `lower` from its old value and the
/// imaginary parts at `i + 1`, `i - 1` and `i`, where those at indices up to
/// `i` have already been updated in this pass.
pub open spec fn stepped<T, F: Fn(T, T, T, T) -> T, G: Fn(T, T, T, T) -> T>(
    re0: Seq<T>,
    im0: Seq<T>,
    re1: Seq<T>,
    im1: Seq<T>,
    raise: F,
    lower: G,
) -> bool {
    let n = re0.len() as int;
    &&& im0.len() == n
    &&& re1.len() == n
    &&& im1.len() == n
    &&& forall|i: int|
        0 <= i < n ==> call_ensures(
            raise,
            (im0[i], re0[succ(i, n)], re0[pred(i, n)], re0[i]),
            #[trigger] im1[i],
        )
    &&& forall|i: int|
        0 <= i < n ==> call_ensures(
            lower,
            (re0[i], partial(im0, im1, i, succ(i, n)), partial(im0, im1, i, pred(i, n)), im1[i]),
            #[trigger] re1[i],
        )
}

/// Each state of `tr` is what one step makes of the state before it.
pub open spec fn is_trace<T, F: Fn(T, T, T, T) -> T, G: Fn(T, T, T, T) -> T>(
    tr: Seq<(Seq<T>, Seq<T>)>,
    raise: F,
    lower: G,
) -> bool {
    forall|j: int|
        0 <= j < tr.len() - 1 ==> stepped(
            #[trigger] tr[j].0,
            tr[j].1,
            tr[j + 1].0,
            tr[j + 1].1,
            raise,
            lower,
        )
}

/// `(re1, im1)` is what `k` steps, one after another, make of `(re0, im0)`.
pub open spec fn stepped_times<T, F: Fn(T, T, T, T) -> T, G: Fn(T, T, T, T) -> T>(
    re0: Seq<T>,
    im0: Seq<T>,
    re1: Seq<T>,
    im1: Seq<T>,
    raise: F,
    lower: G,
    k: nat,
) -> bool {
    exists|tr: Seq<(Seq<T>, Seq<T>)>|
        #[trigger] is_trace(tr, raise, lower) && tr.len() == k + 1 && tr[0] == (re0, im0)
            && tr[k as int] == (re1, im1)
}

/// Each entry of `c` is a result of `combine` on the entries of `a` and `b`
/// at the same index.
pub open spec fn combined<T, F: Fn(T, T) -> T>(a: Seq<T>, b: Seq<T>, c: Seq<T>, combine: F) -> bool {
    &&& a.len() == b.len()
    &&& c.len() == a.len()
    &&& forall|i: int| 0 <= i < c.len() ==> call_ensures(combine, (a[i], b[i]), #[trigger] c[i])
}

/// A field that holds `z` everywhere still does after a step whose kernels
/// both fix `z`.
pub proof fn lemma_zero_fixed_point<T, F: Fn(T, T, T, T) -> T, G: Fn(T, T, T, T) -> T>(
    re0: Seq<T>,
    im0: Seq<T>,
    re1: Seq<T>,
    im1: Seq<T>,
    raise: F,
    lower: G,
    z: T,
)
    requires
        stepped(re0, im0, re1, im1, raise, lower),
        all_equal(re0, z),
        all_equal(im0, z),
        fixes(raise, z),
        fixes(lower, z),
    ensures
        all_equal(re1, z),
        all_equal(im1, z),
{
    let n = re0.len() as int;
    assert forall|i: int| 0 <= i < n implies im1[i] == z by {
        lemma_succ_pred_inverse(i, n);
        assert(call_ensures(raise, (im0[i], re0[succ(i, n)], re0[pred(i, n)], re0[i]), im1[i]));
    }
    assert forall|i: int| 0 <= i < n implies re1[i] == z by {
        lemma_succ_pred_inverse(i, n);
        assert(call_ensures(
            lower,
            (re0[i], partial(im0, im1, i, succ(i, n)), partial(im0, im1, i, pred(i, n)), im1[i]),
            re1[i],
        ));
    }
}

/// Superposing two fields whose sizes agree, with a combination that
/// computes `sum`, gives at each index the `sum` of the two values there, for
/// the real and the imaginary buffer alike: it is the same as adding the
/// buffers of the two fields elementwise.
pub proof fn lemma_superpose_pointwise<T, F: Fn(T, T) -> T>(
    a: Seq<T>,
    b: Seq<T>,
    c: Seq<T>,
    combine: F,
    sum: spec_fn(T, T) -> T,
)
    requires
        combined(a, b, c, combine),
        forall|x: T, y: T, r: T| call_ensures(combine, (x, y), r) ==> r == sum(x, y),
    ensures
        c == Seq::new(a.len(), |i: int| sum(a[i], b[i])),
{
    assert(c =~= Seq::new(a.len(), |i: int| sum(a[i], b[i])));
}

/// A copy of `v`, entry by entry.
fn copy_of<T: Copy>(v: &Vec<T>) -> (r: Vec<T>)
    ensures
        r@ == v@,
{
    let mut r: Vec<T> = Vec::new();
    let mut i: usize = 0;
    while i < v.len()
        invariant
            i <= v.len(),
            r@ == v@.subrange(0, i as int),
        decreases v.len() - i,
    {
        r.push(v[i]);
        i = i + 1;
    }
    assert(r@ =~= v@);
    r
}

impl<T> Sim<T> {
    /// The real buffer.
    pub closed spec fn real_view(&self) -> Seq<T> {
        self.re@
    }

    /// The imaginary buffer.
    pub closed spec fn imag_view(&self) -> Seq<T> {
        self.im@
    }

    /// The number of grid points.
    pub open spec fn size(&self) -> nat {
        self.real_view().len()
    }

    /// Both buffers have the same, non-zero length.
    pub open spec fn wf(&self) -> bool {
        &&& self.real_view().len() == self.imag_view().len()
        &&& self.real_view().len() > 0
    }

    /// A field of `n` grid points holding `zero` everywhere; `InvalidSize`
    /// exactly when `n` is zero.
    pub fn new(n: usize, zero: T) -> (r: Result<Sim<T>, FieldError>)
        where
            T: Copy,
        ensures
            match r {
                Ok(f) => {
                    &&& n > 0
                    &&& f.wf()
                    &&& f.size() == n
                    &&& f.real_view() == Seq::new(n as nat, |i: int| zero)
                    &&& f.imag_view() == Seq::new(n as nat, |i: int| zero)
                },
                Err(e) => n == 0 && e == FieldError::InvalidSize,
            },
    {
        if n == 0 {
            return Err(FieldError::InvalidSize);
        }
        let mut re: Vec<T> = Vec::new();
        let mut im: Vec<T> = Vec::new();
        let mut i: usize = 0;
        while i < n
            invariant
                i <= n,
                re@ == Seq::new(i as nat, |k: int| zero),
                im@ == Seq::new(i as nat, |k: int| zero),
            decreases n - i,
        {
            re.push(zero);
            im.push(zero);
            i = i + 1;
            assert(re@ =~= Seq::new(i as nat, |k: int| zero));
            assert(im@ =~= Seq::new(i as nat, |k: int| zero));
        }
        Ok(Sim { re, im })
    }

    /// A field with the given buffers. `DimensionMismatch` when their lengths
    /// differ, else `InvalidSize` when they are empty.
    pub fn from_parts(re: Vec<T>, im: Vec<T>) -> (r: Result<Sim<T>, FieldError>)
        ensures
            match r {
                Ok(f) => {
                    &&& re@.len() == im@.len()
                    &&& re@.len() > 0
                    &&& f.wf()
                    &&& f.real_view() == re@
                    &&& f.imag_view() == im@
                },
                Err(e) => if re@.len() != im@.len() {
                    e == FieldError::DimensionMismatch
                } else {
                    re@.len() == 0 && e == FieldError::InvalidSize
                },
            },
    {
        if re.len() != im.len() {
            Err(FieldError::DimensionMismatch)
        } else if re.len() == 0 {
            Err(FieldError::InvalidSize)
        } else {
            Ok(Sim { re, im })
        }
    }

    /// The two buffers, real first.
    pub fn into_parts(self) -> (r: (Vec<T>, Vec<T>))
        ensures
            r.0@ == self.real_view(),
            r.1@ == self.imag_view(),
    {
        (self.re, self.im)
    }

    /// The number of grid points.
    pub fn len(&self) -> (r: usize)
        ensures
            r == self.size(),
    {
        self.re.len()
    }

    /// The real part at index `i`.
    pub fn real_at(&self, i: usize) -> (r: T)
        where
            T: Copy,
        requires
            self.wf(),
            i < self.size(),
        ensures
            r == self.real_view()[i as int],
    {
        self.re[i]
    }

    /// The imaginary part at index `i`.
    pub fn imag_at(&self, i: usize) -> (r: T)
        where
            T: Copy,
        requires
            self.wf(),
            i < self.size(),
        ensures
            r == self.imag_view()[i as int],
    {
        self.im[i]
    }

    /// One integration step, in place.
    ///
    /// Index by index in ascending order, the imaginary part becomes
    /// `raise(imag[i], real[i + 1], real[i - 1], real[i])` over the real
    /// parts as they stood before the step, and then the real part becomes
    /// `lower(real[i], imag[i + 1], imag[i - 1], imag[i])` over the imaginary
    /// parts as they stand at that moment of the pass. Neighbours wrap around
    /// the ring.
    pub fn step<F, G>(&mut self, raise: &F, lower: &G)
        where
            T: Copy,
            F: Fn(T, T, T, T) -> T,
            G: Fn(T, T, T, T) -> T,
        requires
            old(self).wf(),
            total4(*raise),
            total4(*lower),
        ensures
            final(self).wf(),
            final(self).size() == old(self).size(),
            stepped(
                old(self).real_view(),
                old(self).imag_view(),
                final(self).real_view(),
                final(self).imag_view(),
                *raise,
                *lower,
            ),
    {
        let ghost re0 = self.re@;
        let ghost im0 = self.im@;
        let before = copy_of(&self.re);
        let n = self.re.len();
        let mut i: usize = 0;
        while i < n
            invariant
                n == re0.len(),
                n == im0.len(),
                before@ == re0,
                self.re@.len() == n,
                self.im@.len() == n,
                i <= n,
                total4(*raise),
                total4(*lower),
                forall|k: int| i <= k < n ==> self.re@[k] == re0[k],
                forall|k: int| i <= k < n ==> self.im@[k] == im0[k],
                forall|k: int|
                    0 <= k < i ==> call_ensures(
                        *raise,
                        (im0[k], re0[succ(k, n as int)], re0[pred(k, n as int)], re0[k]),
                        #[trigger] self.im@[k],
                    ),
                forall|k: int|
                    0 <= k < i ==> call_ensures(
                        *lower,
                        (
                            re0[k],
                            partial(im0, self.im@, k, succ(k, n as int)),
                            partial(im0, self.im@, k, pred(k, n as int)),
                            self.im@[k],
                        ),
                        #[trigger] self.re@[k],
                    ),
            decreases n - i,
        {
            let (minus, plus) = neighbors(i, n);
            let ni = raise(self.im[i], before[plus], before[minus], before[i]);
            let ghost im_prev = self.im@;
            let ghost re_prev = self.re@;
            self.im.set(i, ni);
            let nr = lower(self.re[i], self.im[plus], self.im[minus], self.im[i]);
            self.re.set(i, nr);
            proof {
                let im1 = self.im@;
                let re1 = self.re@;
                assert(im1[plus as int] == partial(im0, im1, i as int, plus as int));
                assert(im1[minus as int] == partial(im0, im1, i as int, minus as int));
                assert forall|k: int| 0 <= k < i + 1 implies call_ensures(
                    *raise,
                    (im0[k], re0[succ(k, n as int)], re0[pred(k, n as int)], re0[k]),
                    #[trigger] im1[k],
                ) by {
                    if k < i {
                        assert(im1[k] == im_prev[k]);
                    }
                }
                assert forall|k: int| 0 <= k < i + 1 implies call_ensures(
                    *lower,
                    (
                        re0[k],
                        partial(im0, im1, k, succ(k, n as int)),
                        partial(im0, im1, k, pred(k, n as int)),
                        im1[k],
                    ),
                    #[trigger] re1[k],
                ) by {
                    if k < i {
                        let s = succ(k, n as int);
                        let p = pred(k, n as int);
                        assert(re1[k] == re_prev[k]);
                        assert(im1[k] == im_prev[k]);
                        assert(partial(im0, im1, k, s) == partial(im0, im_prev, k, s));
                        assert(partial(im0, im1, k, p) == partial(im0, im_prev, k, p));
                    }
                }
            }
            i = i + 1;
        }
    }

    /// `count` integration steps, one after another; see `step`. A field that
    /// holds `z` everywhere keeps it when both kernels fix `z`.
    pub fn advance<F, G>(&mut self, count: usize, raise: &F, lower: &G)
        where
            T: Copy,
            F: Fn(T, T, T, T) -> T,
            G: Fn(T, T, T, T) -> T,
        requires
            old(self).wf(),
            total4(*raise),
            total4(*lower),
        ensures
            final(self).wf(),
            final(self).size() == old(self).size(),
            stepped_times(
                old(self).real_view(),
                old(self).imag_view(),
                final(self).real_view(),
                final(self).imag_view(),
                *raise,
                *lower,
                count as nat,
            ),
            forall|z: T|
                #![trigger fixes(*raise, z), fixes(*lower, z)]
                fixes(*raise, z) && fixes(*lower, z) && all_equal(old(self).real_view(), z)
                    && all_equal(old(self).imag_view(), z) ==> all_equal(final(self).real_view(), z)
                    && all_equal(final(self).imag_view(), z),
    {
        let ghost re0 = self.real_view();
        let ghost im0 = self.imag_view();
        let mut done: usize = 0;
        let ghost mut trace: Seq<(Seq<T>, Seq<T>)> = seq![(re0, im0)];
        while done < count
            invariant
                self.wf(),
                self.size() == re0.len(),
                done <= count,
                total4(*raise),
                total4(*lower),
                is_trace(trace, *raise, *lower),
                trace.len() == done + 1,
                trace[0] == (re0, im0),
                trace[done as int] == (self.real_view(), self.imag_view()),
                forall|z: T|
                    #![trigger fixes(*raise, z), fixes(*lower, z)]
                    fixes(*raise, z) && fixes(*lower, z) && all_equal(re0, z) && all_equal(im0, z)
                        ==> all_equal(self.real_view(), z) && all_equal(self.imag_view(), z),
            decreases count - done,
        {
            let ghost re_prev = self.real_view();
            let ghost im_prev = self.imag_view();
            self.step(raise, lower);
            proof {
                let tr = trace.push((self.real_view(), self.imag_view()));
                assert forall|j: int| 0 <= j < tr.len() - 1 implies stepped(
                    #[trigger] tr[j].0,
                    tr[j].1,
                    tr[j + 1].0,
                    tr[j + 1].1,
                    *raise,
                    *lower,
                ) by {
                    if j < done {
                        assert(tr[j] == trace[j] && tr[j + 1] == trace[j + 1]);
                    }
                }
                trace = tr;
                assert forall|z: T|
                    #![trigger fixes(*raise, z), fixes(*lower, z)]
                    fixes(*raise, z) && fixes(*lower, z) && all_equal(re0, z) && all_equal(im0, z)
                        implies all_equal(self.real_view(), z) && all_equal(self.imag_view(), z) by {
                    lemma_zero_fixed_point(
                        re_prev,
                        im_prev,
                        self.real_view(),
                        self.imag_view(),
                        *raise,
                        *lower,
                        z,
                    );
                }
            }
            done = done + 1;
        }
    }

    /// The elementwise combination of two fields of one size: each part at
    /// each index is `combine` of the two fields' parts there.
    /// `DimensionMismatch` exactly when the sizes differ.
    pub fn superpose<F>(&self, other: &Sim<T>, combine: &F) -> (r: Result<Sim<T>, FieldError>)
        where
            T: Copy,
            F: Fn(T, T) -> T,
        requires
            self.wf(),
            other.wf(),
            forall|a: T, b: T| call_requires(*combine, (a, b)),
        ensures
            match r {
                Ok(f) => {
                    &&& self.size() == other.size()
                    &&& f.wf()
                    &&& f.size() == self.size()
                    &&& combined(self.real_view(), other.real_view(), f.real_view(), *combine)
                    &&& combined(self.imag_view(), other.imag_view(), f.imag_view(), *combine)
                },
                Err(e) => self.size() != other.size() && e == FieldError::DimensionMismatch,
            },
    {
        if self.re.len() != other.re.len() {
            return Err(FieldError::DimensionMismatch);
        }
        let n = self.re.len();
        let mut re: Vec<T> = Vec::new();
        let mut im: Vec<T> = Vec::new();
        let mut i: usize = 0;
        while i < n
            invariant
                n == self.re@.len(),
                n == self.im@.len(),
                n == other.re@.len(),
                n == other.im@.len(),
                i <= n,
                re@.len() == i,
                im@.len() == i,
                forall|a: T, b: T| call_requires(*combine, (a, b)),
                forall|k: int| 0 <= k < i ==> call_ensures(*combine, (self.re@[k], other.re@[k]), #[trigger] re@[k]),
                forall|k: int| 0 <= k < i ==> call_ensures(*combine, (self.im@[k], other.im@[k]), #[trigger] im@[k]),
            decreases n - i,
        {
            re.push(combine(self.re[i], other.re[i]));
            im.push(combine(self.im[i], other.im[i]));
            i = i + 1;
        }
        Ok(Sim { re, im })
    }

    /// A field of `n` grid points whose parts at index `i` are the pair that
    /// `sample(i)` returns, real first. `InvalidSize` exactly when `n` is zero.
    pub fn tabulate<F>(n: usize, sample: &F) -> (r: Result<Sim<T>, FieldError>)
        where
            F: Fn(usize) -> (T, T),
        requires
            forall|i: usize| i < n ==> call_requires(*sample, (i,)),
        ensures
            match r {
                Ok(f) => {
                    &&& n > 0
                    &&& f.wf()
                    &&& f.size() == n
                    &&& forall|i: int|
                        0 <= i < n ==> call_ensures(
                            *sample,
                            (i as usize,),
                            (#[trigger] f.real_view()[i], f.imag_view()[i]),
                        )
                },
                Err(e) => n == 0 && e == FieldError::InvalidSize,
            },
    {
        if n == 0 {
            return Err(FieldError::InvalidSize);
        }
        let mut re: Vec<T> = Vec::new();
        let mut im: Vec<T> = Vec::new();
        let mut i: usize = 0;
        while i < n
            invariant
                i <= n,
                re@.len() == i,
                im@.len() == i,
                forall|k: usize| k < n ==> call_requires(*sample, (k,)),
                forall|k: int| 0 <= k < i ==> call_ensures(*sample, (k as usize,), (#[trigger] re@[k], im@[k])),
            decreases n - i,
        {
            let (a, b) = sample(i);
            re.push(a);
            im.push(b);
            i = i + 1;
        }
        Ok(Sim { re, im })
    }
}

} // verus!
