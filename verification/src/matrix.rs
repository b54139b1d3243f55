//! Small dense complex matrices in row-major order, dimension 2 or 6.

use vstd::prelude::*;
use crate::cpx::{Cpx, spec_cconj, cpx_ranged};

verus! {

#[derive(Clone, Debug)]
pub struct CMatrix {
    pub n: usize,
    pub a: Vec<Cpx>,
}

impl CMatrix {
    /// Well-formed: a square matrix of the sizes this library works with.
    pub open spec fn wf(self) -> bool {
        1 <= self.n <= 6 && self.a.len() == self.n * self.n
    }

    pub open spec fn at(self, r: int, c: int) -> Cpx {
        self.a@[r * self.n + c]
    }

    /// Every component of every entry strictly above `i64::MIN`.
    pub open spec fn ranged(self) -> bool {
        forall|k: int| 0 <= k < self.a.len() ==> cpx_ranged(#[trigger] self.a@[k])
    }

    /// Equal to its own conjugate transpose.
    pub open spec fn hermitian(self) -> bool {
        forall|r: int, c: int|
            0 <= r < self.n && 0 <= c < self.n ==> self.at(r, c) == spec_cconj(
                #[trigger] self.at(c, r),
            )
    }

    pub fn new(n: usize, a: Vec<Cpx>) -> (m: CMatrix)
        requires
            1 <= n <= 6,
            a.len() == n * n,
        ensures
            m.n == n,
            m.a == a,
            m.wf(),
    {
        CMatrix { n, a }
    }

    pub fn zeros(n: usize) -> (m: CMatrix)
        requires
            1 <= n <= 6,
        ensures
            m.wf(),
            m.n == n,
            forall|k: int| 0 <= k < n * n ==> (#[trigger] m.a@[k]).re.raw == 0 && m.a@[k].im.raw == 0,
    {
        let mut a: Vec<Cpx> = Vec::new();
        proof {
            assert(n * n <= 36) by (nonlinear_arith)
                requires
                    n <= 6,
            ;
        }
        let total = n * n;
        while a.len() < total
            invariant
                total == n * n,
                a.len() <= total,
                forall|k: int| 0 <= k < a.len() ==> (#[trigger] a@[k]).re.raw == 0 && a@[k].im.raw == 0,
            decreases total - a.len(),
        {
            a.push(Cpx::zero());
        }
        CMatrix { n, a }
    }

    pub fn get(&self, r: usize, c: usize) -> (e: Cpx)
        requires
            self.wf(),
            r < self.n,
            c < self.n,
        ensures
            e == self.at(r as int, c as int),
    {
        proof {
            assert(r * self.n + c < self.n * self.n) by (nonlinear_arith)
                requires
                    r < self.n,
                    c < self.n,
            ;
        }
        self.a[r * self.n + c]
    }

    pub fn set(&mut self, r: usize, c: usize, e: Cpx)
        requires
            old(self).wf(),
            r < old(self).n,
            c < old(self).n,
        ensures
            final(self).wf(),
            final(self).n == old(self).n,
            final(self).at(r as int, c as int) == e,
            forall|rr: int, cc: int|
                0 <= rr < final(self).n && 0 <= cc < final(self).n && !(rr == r && cc == c)
                    ==> #[trigger] final(self).at(rr, cc) == old(self).at(rr, cc),
    {
        proof {
            assert(r * self.n + c < self.n * self.n) by (nonlinear_arith)
                requires
                    r < self.n,
                    c < self.n,
            ;
        }
        let idx = r * self.n + c;
        self.a.set(idx, e);
        proof {
            assert forall|rr: int, cc: int|
                0 <= rr < self.n && 0 <= cc < self.n && !(rr == r && cc == c) implies #[trigger] self
                .at(rr, cc) == old(self).at(rr, cc) by {
                assert(rr * self.n + cc != r * self.n + c) by (nonlinear_arith)
                    requires
                        0 <= rr < self.n,
                        0 <= cc < self.n,
                        r < self.n,
                        c < self.n,
                        !(rr == r && cc == c),
                ;
                assert(rr * self.n + cc < self.n * self.n) by (nonlinear_arith)
                    requires
                        0 <= rr < self.n,
                        0 <= cc < self.n,
                ;
            }
        }
    }
}

} // verus!
