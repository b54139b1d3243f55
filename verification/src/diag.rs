//! Diagonalization results: eigenvalue/eigenvector pairs per spin channel,
//! and the ascending sort that every downstream consumer relies on.
//!
//! The dense Hermitian eigensolver itself is an outside collaborator; its
//! raw output enters here as plain fixed-point pairs and leaves sorted, with
//! the sortedness and the conservation of the pairs proved.

use vstd::prelude::*;
use crate::fix::Fix;
use crate::cpx::Cpx;

verus! {

broadcast use vstd::seq_lib::group_to_multiset_ensures;

/// One eigenvalue with its (column) eigenvector.
#[derive(Debug)]
pub struct EigenPair {
    pub value: Fix,
    pub vector: Vec<Cpx>,
}

/// All eigenpairs of one spin block.
#[derive(Debug)]
pub struct SpinEigen {
    pub n: usize,
    pub pairs: Vec<EigenPair>,
}

/// Eigenvalues ascending along the sequence.
pub open spec fn sorted_by_value(s: Seq<EigenPair>) -> bool {
    forall|i: int, j: int| 0 <= i <= j < s.len() ==> s[i].value.raw <= s[j].value.raw
}

impl SpinEigen {
    pub open spec fn wf(self) -> bool {
        &&& 1 <= self.n <= 6
    &&& self.pairs.len() == self.n
    &&& forall|i: int| 0 <= i < self.pairs.len() ==> (#[trigger] self.pairs@[i]).vector.len()
        == self.n
    }

    pub open spec fn spec_value(self, band: int) -> Fix {
        self.pairs@[band].value
    }

    pub fn new(n: usize, pairs: Vec<EigenPair>) -> (r: SpinEigen)
        requires
            1 <= n <= 6,
            pairs.len() == n,
            forall|i: int| 0 <= i < pairs.len() ==> (#[trigger] pairs@[i]).vector.len() == n,
        ensures
            r.wf(),
            r.n == n,
            r.pairs == pairs,
    {
        SpinEigen { n, pairs }
    }

    pub fn value(&self, band: usize) -> (r: Fix)
        requires
            self.wf(),
            band < self.n,
        ensures
            r == self.spec_value(band as int),
    {
        self.pairs[band].value
    }

    pub fn vector(&self, band: usize) -> (r: &Vec<Cpx>)
        requires
            self.wf(),
            band < self.n,
        ensures
            *r == self.pairs@[band as int].vector,
            r.len() == self.n,
    {
        &self.pairs[band].vector
    }
}

/// Index of a pair with minimal eigenvalue.
fn min_value_index(v: &Vec<EigenPair>) -> (k: usize)
    requires
        v.len() > 0,
    ensures
        k < v.len(),
        forall|i: int| 0 <= i < v.len() ==> v@[k as int].value.raw <= (#[trigger] v@[i]).value.raw,
{
    let mut k: usize = 0;
    let mut i: usize = 1;
    while i < v.len()
        invariant
            k < i <= v.len(),
            forall|j: int| 0 <= j < i ==> v@[k as int].value.raw <= (#[trigger] v@[j]).value.raw,
        decreases v.len() - i,
    {
        if v[i].value.raw < v[k].value.raw {
            k = i;
        }
        i = i + 1;
    }
    k
}

/// Sort eigenpairs by ascending eigenvalue; exactly the same pairs come out
/// that went in.
pub fn sort_eigenpairs_ascending(v: Vec<EigenPair>) -> (r: Vec<EigenPair>)
    ensures
        r.len() == v.len(),
        sorted_by_value(r@),
        r@.to_multiset() == v@.to_multiset(),
{
    let ghost total = v@.to_multiset();
    let mut rest = v;
    let mut out: Vec<EigenPair> = Vec::new();
    while rest.len() > 0
        invariant
            sorted_by_value(out@),
            out@.to_multiset().add(rest@.to_multiset()) =~= total,
            out.len() + rest.len() == total.len(),
            forall|i: int, j: int|
                0 <= i < out.len() && 0 <= j < rest.len() ==> (#[trigger] out@[i]).value.raw <= (
                #[trigger] rest@[j]).value.raw,
        decreases rest.len(),
    {
        let k = min_value_index(&rest);
        let ghost rest0 = rest@;
        let e = rest.remove(k);
        out.push(e);
        proof {
            assert(rest@ == rest0.remove(k as int));
            assert(forall|j: int|
                0 <= j < rest@.len() ==> (#[trigger] rest@[j]) == if j < k {
                    rest0[j]
                } else {
                    rest0[j + 1]
                });
            assert(out@.to_multiset().add(rest@.to_multiset()) =~= total);
        }
    }
    out
}

/// Sort a spin block's eigenpairs ascending.
pub fn sort_symmetric_eigen_ascending(e: SpinEigen) -> (r: SpinEigen)
    requires
        e.wf(),
    ensures
        r.wf(),
        r.n == e.n,
        sorted_by_value(r.pairs@),
        r.pairs@.to_multiset() == e.pairs@.to_multiset(),
{
    let ghost pairs0 = e.pairs@;
    let n = e.n;
    let sorted = sort_eigenpairs_ascending(e.pairs);
    proof {
        assert forall|i: int| 0 <= i < sorted.len() implies (#[trigger] sorted@[i]).vector.len()
            == n by {
            assert(sorted@.contains(sorted@[i]));
            assert(sorted@.to_multiset().count(sorted@[i]) > 0);
            assert(pairs0.to_multiset().count(sorted@[i]) > 0);
            assert(pairs0.contains(sorted@[i]));
            let j = choose|j: int| 0 <= j < pairs0.len() && pairs0[j] == sorted@[i];
            assert(pairs0[j].vector.len() == n);
        }
    }
    SpinEigen { n, pairs: sorted }
}

/// Both spin channels of one diagonalization.
#[derive(Debug)]
pub struct SEud {
    pub u: SpinEigen,
    pub d: SpinEigen,
}

impl SEud {
    pub open spec fn wf(self) -> bool {
        self.u.wf() && self.d.wf() && self.u.n == self.d.n
    }

    /// Both channels ascending: the shape every consumer may assume.
    pub open spec fn sorted(self) -> bool {
        sorted_by_value(self.u.pairs@) && sorted_by_value(self.d.pairs@)
    }

    pub fn new(u: SpinEigen, d: SpinEigen) -> (r: SEud)
        requires
            u.wf(),
            d.wf(),
            u.n == d.n,
        ensures
            r.wf(),
            r.u == u,
            r.d == d,
    {
        SEud { u, d }
    }

    /// Spin channel by index: 0 is up, 1 is down.
    pub fn index(&self, index: usize) -> (r: &SpinEigen)
        requires
            index < 2,
        ensures
            *r == if index == 0 {
                self.u
            } else {
                self.d
            },
    {
        if index == 0 {
            &self.u
        } else {
            &self.d
        }
    }

    /// Sort both channels ascending, keeping exactly the pairs.
    pub fn sort(self) -> (r: SEud)
        requires
            self.wf(),
        ensures
            r.wf(),
            r.u.n == self.u.n,
            r.sorted(),
            r.u.pairs@.to_multiset() == self.u.pairs@.to_multiset(),
            r.d.pairs@.to_multiset() == self.d.pairs@.to_multiset(),
    {
        SEud {
            u: sort_symmetric_eigen_ascending(self.u),
            d: sort_symmetric_eigen_ascending(self.d),
        }
    }

    /// All eigenvalues, up channel first.
    pub fn eigenvalues(&self) -> (r: Vec<Fix>)
        requires
            self.wf(),
        ensures
            r.len() == 2 * self.u.n,
            forall|i: int|
                0 <= i < self.u.n ==> #[trigger] r@[i] == self.u.pairs@[i].value,
            forall|i: int|
                self.u.n <= i < 2 * self.u.n ==> #[trigger] r@[i] == self.d.pairs@[
                    i - self.u.n
                ].value,
    {
        let mut r: Vec<Fix> = Vec::new();
        let n = self.u.n;
        let mut i: usize = 0;
        while i < n
            invariant
                i <= n,
                n == self.u.n,
                self.wf(),
                r.len() == i,
                forall|j: int| 0 <= j < i ==> #[trigger] r@[j] == self.u.pairs@[j].value,
            decreases n - i,
        {
            r.push(self.u.pairs[i].value);
            i = i + 1;
        }
        let mut i: usize = 0;
        while i < n
            invariant
                i <= n,
                n == self.u.n,
                self.wf(),
                r.len() == n + i,
                forall|j: int| 0 <= j < n ==> #[trigger] r@[j] == self.u.pairs@[j].value,
                forall|j: int| n <= j < n + i ==> #[trigger] r@[j] == self.d.pairs@[j - n].value,
            decreases n - i,
        {
            r.push(self.d.pairs[i].value);
            i = i + 1;
        }
        r
    }
}

} // verus!
