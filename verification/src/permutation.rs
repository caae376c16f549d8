//! The Poseidon permutation: a fixed sequence of full and partial rounds
//! over a state of field elements. A specification fixes the round counts,
//! the S-box and the constant tables.

use crate::field::{add_p, fp_add, fp_mul, mul_p, p, vals, vals2, wf_state, Element};
use vstd::prelude::*;

verus! {

broadcast use crate::field::lemma_vals_index, crate::field::lemma_vals2_index;

/// Every row of the table has length `n`.
pub open spec fn rows_are(m: Seq<Seq<nat>>, n: nat) -> bool {
    forall|i: int| 0 <= i < m.len() ==> #[trigger] m[i].len() == n
}

/// Every entry of the table is below the modulus.
pub open spec fn wf_table(m: Seq<Seq<nat>>) -> bool {
    forall|i: int| 0 <= i < m.len() ==> wf_state(#[trigger] m[i])
}

/// A specification for a Poseidon permutation: round counts, the S-box, and
/// the constant tables. Implementers either hard-code precomputed tables or
/// defer to an external generation procedure inside `constants`.
pub trait Spec: Sized {
    /// The number of full rounds, as a specification-level value.
    spec fn spec_full_rounds() -> nat;

    /// The number of partial rounds, as a specification-level value.
    spec fn spec_partial_rounds() -> nat;

    /// What the S-box returns, on elements read as integers.
    spec fn spec_sbox(x: nat) -> nat;

    /// The round-constant table this specification fixes, one row per round.
    spec fn spec_round_constants(&self) -> Seq<Seq<nat>>;

    /// The diffusion matrix this specification fixes.
    spec fn spec_mds(&self) -> Seq<Seq<nat>>;

    /// The number of full rounds for this specification.
    ///
    /// This must be an even number.
    fn full_rounds() -> (r: usize)
        ensures
            r as nat == Self::spec_full_rounds(),
            r % 2 == 0,
    ;

    /// The number of partial rounds for this specification.
    fn partial_rounds() -> (r: usize)
        ensures
            r as nat == Self::spec_partial_rounds(),
    ;

    /// The S-box for this specification.
    fn sbox(val: Element) -> (r: Element)
        requires
            val@ < p(),
        ensures
            r@ == Self::spec_sbox(val@),
            r@ < p(),
    ;

    /// Side-loaded index of the first correct and secure diffusion matrix
    /// that an external matrix-search procedure would generate; opaque here.
    fn secure_mds(&self) -> usize;

    /// Generates `(round_constants, mds, mds^-1)` corresponding to this
    /// specification. The state width is the side of `mds`; there is one
    /// constant row per round, each as wide as the state.
    fn constants(&self) -> (r: (Vec<Vec<Element>>, Vec<Vec<Element>>, Vec<Vec<Element>>))
        ensures
            vals2(r.0@) == self.spec_round_constants(),
            vals2(r.1@) == self.spec_mds(),
            r.1@.len() >= 2,
            rows_are(vals2(r.1@), r.1@.len() as nat),
            wf_table(vals2(r.1@)),
            r.0@.len() == Self::spec_full_rounds() + Self::spec_partial_rounds(),
            rows_are(vals2(r.0@), r.1@.len() as nat),
            wf_table(vals2(r.0@)),
            r.2@.len() == r.1@.len(),
            rows_are(vals2(r.2@), r.1@.len() as nat),
            wf_table(vals2(r.2@)),
    ;
}

/// The dot product, modulo `p`, of the first `n` entries of `row` and `s`,
/// accumulated left to right.
pub open spec fn dot(row: Seq<nat>, s: Seq<nat>, n: int) -> nat
    decreases n,
{
    if n <= 0 {
        0
    } else {
        add_p(dot(row, s, n - 1), mul_p(row[n - 1], s[n - 1]))
    }
}

/// The diffusion step: every output lane mixes every input lane,
/// `out[i] = sum_j m[i][j] * s[j]`.
pub open spec fn apply_mat(m: Seq<Seq<nat>>, s: Seq<nat>) -> Seq<nat> {
    Seq::new(s.len(), |i: int| dot(m[i], s, s.len() as int))
}

/// One full round: add the round's constant to every lane, apply the S-box
/// to every lane, then diffuse.
pub open spec fn spec_full_round<S: Spec>(s: Seq<nat>, m: Seq<Seq<nat>>, rc: Seq<nat>) -> Seq<nat> {
    apply_mat(m, Seq::new(s.len(), |i: int| S::spec_sbox(add_p(s[i], rc[i]))))
}

/// One partial round: add the round's constant to every lane, apply the
/// S-box to lane 0 only, then diffuse.
pub open spec fn spec_partial_round<S: Spec>(
    s: Seq<nat>,
    m: Seq<Seq<nat>>,
    rc: Seq<nat>,
) -> Seq<nat> {
    let a = Seq::new(s.len(), |i: int| add_p(s[i], rc[i]));
    apply_mat(m, a.update(0, S::spec_sbox(a[0])))
}

/// Whether round `k` is a full round: the rounds come as `full/2` full
/// rounds, then the partial rounds, then `full/2` full rounds again.
pub open spec fn round_is_full(k: int, half_full: int, partial: int) -> bool {
    k < half_full || half_full + partial <= k
}

/// The state after the first `n` rounds.
pub open spec fn spec_rounds<S: Spec>(
    s: Seq<nat>,
    m: Seq<Seq<nat>>,
    rcs: Seq<Seq<nat>>,
    half_full: int,
    partial: int,
    n: int,
) -> Seq<nat>
    decreases n,
{
    if n <= 0 {
        s
    } else {
        let prev = spec_rounds::<S>(s, m, rcs, half_full, partial, n - 1);
        if round_is_full(n - 1, half_full, partial) {
            spec_full_round::<S>(prev, m, rcs[n - 1])
        } else {
            spec_partial_round::<S>(prev, m, rcs[n - 1])
        }
    }
}

/// The Poseidon permutation of `s` under specification `S`, with matrix `m`
/// and round-constant table `rcs`: one round per constant row.
pub open spec fn spec_permute<S: Spec>(s: Seq<nat>, m: Seq<Seq<nat>>, rcs: Seq<Seq<nat>>) -> Seq<nat> {
    spec_rounds::<S>(
        s,
        m,
        rcs,
        (S::spec_full_rounds() / 2) as int,
        S::spec_partial_rounds() as int,
        rcs.len() as int,
    )
}

/// Multiplies the state by the matrix, every entry reduced modulo `p`.
fn mat_mul(m: &Vec<Vec<Element>>, s: &Vec<Element>) -> (r: Vec<Element>)
    requires
        m@.len() == s@.len(),
        rows_are(vals2(m@), s@.len() as nat),
        wf_table(vals2(m@)),
        wf_state(vals(s@)),
    ensures
        r@.len() == s@.len(),
        wf_state(vals(r@)),
        vals(r@) == apply_mat(vals2(m@), vals(s@)),
{
    let t = s.len();
    let mut out: Vec<Element> = Vec::new();
    let mut i: usize = 0;
    while i < t
        invariant
            t == s@.len(),
            m@.len() == t,
            rows_are(vals2(m@), t as nat),
            wf_table(vals2(m@)),
            wf_state(vals(s@)),
            i <= t,
            out@.len() == i,
            forall|k: int|
                0 <= k < i ==> #[trigger] vals(out@)[k] == dot(vals2(m@)[k], vals(s@), t as int),
            wf_state(vals(out@)),
        decreases t - i,
    {
        let mut acc = Element::zero();
        let mut j: usize = 0;
        while j < t
            invariant
                t == s@.len(),
                m@.len() == t,
                rows_are(vals2(m@), t as nat),
                wf_table(vals2(m@)),
                wf_state(vals(s@)),
                i < t,
                j <= t,
                acc@ == dot(vals2(m@)[i as int], vals(s@), j as int),
                acc@ < p(),
            decreases t - j,
        {
            let prod = fp_mul(m[i][j], s[j]);
            acc = fp_add(acc, prod);
            j += 1;
        }
        out.push(acc);
        i += 1;
    }
    proof {
        assert(vals(out@) =~= apply_mat(vals2(m@), vals(s@)));
    }
    out
}

/// One round of the permutation, using row `k` of the constant table.
fn apply_round<S: Spec>(
    state: &mut Vec<Element>,
    mds: &Vec<Vec<Element>>,
    rcs: &Vec<Vec<Element>>,
    k: usize,
    full: bool,
)
    requires
        old(state)@.len() >= 1,
        mds@.len() == old(state)@.len(),
        rows_are(vals2(mds@), old(state)@.len() as nat),
        wf_table(vals2(mds@)),
        k < rcs@.len(),
        rows_are(vals2(rcs@), old(state)@.len() as nat),
        wf_table(vals2(rcs@)),
        wf_state(vals(old(state)@)),
    ensures
        final(state)@.len() == old(state)@.len(),
        wf_state(vals(final(state)@)),
        full ==> vals(final(state)@) == spec_full_round::<S>(
            vals(old(state)@),
            vals2(mds@),
            vals2(rcs@)[k as int],
        ),
        !full ==> vals(final(state)@) == spec_partial_round::<S>(
            vals(old(state)@),
            vals2(mds@),
            vals2(rcs@)[k as int],
        ),
{
    let ghost s0 = vals(old(state)@);
    let ghost rc = vals2(rcs@)[k as int];
    let t = state.len();
    if full {
        let mut i: usize = 0;
        while i < t
            invariant
                t == state@.len(),
                t == s0.len(),
                i <= t,
                k < rcs@.len(),
                rc == vals2(rcs@)[k as int],
                rc.len() == t,
                wf_state(rc),
                wf_state(s0),
                wf_state(vals(state@)),
                forall|x: int| 0 <= x < i ==> vals(state@)[x] == S::spec_sbox(add_p(s0[x], rc[x])),
                forall|x: int| i <= x < t ==> vals(state@)[x] == s0[x],
            decreases t - i,
        {
            let v = fp_add(state[i], rcs[k][i]);
            let w = S::sbox(v);
            state.set(i, w);
            i += 1;
        }
        proof {
            assert(vals(state@) =~= Seq::new(s0.len(), |x: int| S::spec_sbox(add_p(s0[x], rc[x]))));
        }
    } else {
        let mut i: usize = 0;
        while i < t
            invariant
                t == state@.len(),
                t == s0.len(),
                i <= t,
                k < rcs@.len(),
                rc == vals2(rcs@)[k as int],
                rc.len() == t,
                wf_state(rc),
                wf_state(s0),
                wf_state(vals(state@)),
                forall|x: int| 0 <= x < i ==> vals(state@)[x] == add_p(s0[x], rc[x]),
                forall|x: int| i <= x < t ==> vals(state@)[x] == s0[x],
            decreases t - i,
        {
            let v = fp_add(state[i], rcs[k][i]);
            state.set(i, v);
            i += 1;
        }
        let ghost a = Seq::new(s0.len(), |x: int| add_p(s0[x], rc[x]));
        proof {
            assert(vals(state@) =~= a);
        }
        let w = S::sbox(state[0]);
        state.set(0, w);
        proof {
            assert(vals(state@) =~= a.update(0, S::spec_sbox(a[0])));
        }
    }
    let mixed = mat_mul(mds, state);
    *state = mixed;
}

/// Runs the Poseidon permutation on the given state.
///
/// The caller guarantees that `round_constants` has exactly one row per
/// round, `full + partial` in all; the rounds are applied as `full/2` full
/// rounds, the partial rounds, then `full/2` full rounds again, consuming
/// the constant rows in order.
pub fn permute<S: Spec>(
    state: &mut Vec<Element>,
    mds: &Vec<Vec<Element>>,
    round_constants: &Vec<Vec<Element>>,
)
    requires
        old(state)@.len() >= 1,
        mds@.len() == old(state)@.len(),
        rows_are(vals2(mds@), old(state)@.len() as nat),
        wf_table(vals2(mds@)),
        round_constants@.len() == S::spec_full_rounds() + S::spec_partial_rounds(),
        rows_are(vals2(round_constants@), old(state)@.len() as nat),
        wf_table(vals2(round_constants@)),
        wf_state(vals(old(state)@)),
    ensures
        final(state)@.len() == old(state)@.len(),
        wf_state(vals(final(state)@)),
        vals(final(state)@) == spec_permute::<S>(
            vals(old(state)@),
            vals2(mds@),
            vals2(round_constants@),
        ),
{
    let ghost s0 = vals(old(state)@);
    let r_f = S::full_rounds() / 2;
    let r_p = S::partial_rounds();
    let total = round_constants.len();
    let mut k: usize = 0;
    while k < total
        invariant
            state@.len() == s0.len(),
            s0.len() >= 1,
            wf_state(s0),
            wf_state(vals(state@)),
            mds@.len() == s0.len(),
            rows_are(vals2(mds@), s0.len() as nat),
            wf_table(vals2(mds@)),
            total == round_constants@.len(),
            total == S::spec_full_rounds() + S::spec_partial_rounds(),
            rows_are(vals2(round_constants@), s0.len() as nat),
            wf_table(vals2(round_constants@)),
            r_f as nat == S::spec_full_rounds() / 2,
            r_p as nat == S::spec_partial_rounds(),
            r_f + r_p <= total,
            k <= total,
            vals(state@) == spec_rounds::<S>(
                s0,
                vals2(mds@),
                vals2(round_constants@),
                r_f as int,
                r_p as int,
                k as int,
            ),
        decreases total - k,
    {
        let full = k < r_f || k >= r_f + r_p;
        apply_round::<S>(state, mds, round_constants, k, full);
        k += 1;
    }
}

} // verus!
