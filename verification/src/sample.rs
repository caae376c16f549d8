//! A small concrete specification: width 3, rate 2, the pow-5 S-box, and
//! fixed small constant tables. It is a structurally valid instance for
//! driving the permutation and sponge, not a vetted production parameter
//! set.

use crate::field::{fp_mul, mul_p, p, vals, vals2, Element};
use crate::permutation::{rows_are, wf_table, Spec};
use vstd::arithmetic::div_mod::lemma_mul_mod_noop_general;
use vstd::prelude::*;

verus! {

broadcast use crate::field::lemma_vals_index, crate::field::lemma_vals2_index;

/// A specification over a state of width 3 whose S-box is `x^5`: 8 full
/// rounds and 56 partial rounds, round constants counting upward from 1,
/// and a rotation as the diffusion matrix, whose inverse is the rotation
/// the other way.
pub struct Pow5T3Sample;

/// Builds one table row of three elements.
fn row3(a: u64, b: u64, c: u64) -> (r: Vec<Element>)
    ensures
        r@.len() == 3,
        vals(r@) == seq![a as nat, b as nat, c as nat],
{
    let mut row: Vec<Element> = Vec::new();
    row.push(Element::from_u64(a));
    row.push(Element::from_u64(b));
    row.push(Element::from_u64(c));
    proof {
        assert(vals(row@) =~= seq![a as nat, b as nat, c as nat]);
    }
    row
}

impl Spec for Pow5T3Sample {
    open spec fn spec_full_rounds() -> nat {
        8
    }

    open spec fn spec_partial_rounds() -> nat {
        56
    }

    open spec fn spec_sbox(x: nat) -> nat {
        (x * x * x * x * x) % p()
    }

    open spec fn spec_round_constants(&self) -> Seq<Seq<nat>> {
        Seq::new(64, |k: int| Seq::new(3, |j: int| (3 * k + j + 1) as nat))
    }

    open spec fn spec_mds(&self) -> Seq<Seq<nat>> {
        seq![seq![0nat, 1nat, 0nat], seq![0nat, 0nat, 1nat], seq![1nat, 0nat, 0nat]]
    }

    fn full_rounds() -> (r: usize) {
        8
    }

    fn partial_rounds() -> (r: usize) {
        56
    }

    fn sbox(val: Element) -> (r: Element) {
        let sq = fp_mul(val, val);
        let quad = fp_mul(sq, sq);
        let out = fp_mul(quad, val);
        proof {
            let x = val@ as int;
            let m = p() as int;
            lemma_mul_mod_noop_general(x * x, x * x, m);
            lemma_mul_mod_noop_general((x * x) * (x * x), x, m);
            assert((x * x) * (x * x) * x == x * x * x * x * x) by (nonlinear_arith);
        }
        out
    }

    fn secure_mds(&self) -> usize {
        0
    }

    fn constants(&self) -> (r: (Vec<Vec<Element>>, Vec<Vec<Element>>, Vec<Vec<Element>>)) {
        let mut rcs: Vec<Vec<Element>> = Vec::new();
        let mut k: usize = 0;
        while k < 64
            invariant
                k <= 64,
                rcs@.len() == k,
                forall|i: int|
                    0 <= i < k ==> #[trigger] vals2(rcs@)[i] =~= Seq::new(
                        3,
                        |j: int| (3 * i + j + 1) as nat,
                    ),
            decreases 64 - k,
        {
            let base = (3 * k) as u64;
            let row = row3(base + 1, base + 2, base + 3);
            rcs.push(row);
            k += 1;
        }
        let mut mds: Vec<Vec<Element>> = Vec::new();
        mds.push(row3(0, 1, 0));
        mds.push(row3(0, 0, 1));
        mds.push(row3(1, 0, 0));
        let mut mds_inv: Vec<Vec<Element>> = Vec::new();
        mds_inv.push(row3(0, 0, 1));
        mds_inv.push(row3(1, 0, 0));
        mds_inv.push(row3(0, 1, 0));
        proof {
            assert(vals2(rcs@) =~~= self.spec_round_constants());
            assert(vals2(mds@) =~~= self.spec_mds());
            assert(rows_are(vals2(mds_inv@), 3));
            assert(wf_table(vals2(mds_inv@)));
            assert(rows_are(vals2(rcs@), 3));
            assert(wf_table(vals2(rcs@)));
        }
        (rcs, mds, mds_inv)
    }
}

} // verus!
