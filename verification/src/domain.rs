//! Domains: the domain-separation and padding policy for one use of the
//! hash. A domain fixes the initial capacity value, which rate lanes are
//! pre-filled with padding, and the rule by which buffer slots are folded
//! into the state.

use crate::field::{add_p, fp_add, fp_from_u128, opt_vals, p, vals, wf_opts, wf_state, Element};
use vstd::prelude::*;

verus! {

broadcast use crate::field::lemma_vals_index, crate::field::lemma_opt_vals_index;

/// A domain in which a Poseidon hash function is being used.
pub trait Domain: Sized + Copy {
    /// The initial capacity value, encoding this domain.
    spec fn spec_initial_capacity(&self) -> nat;

    /// The padding of a rate buffer of width `rate`: which slots the domain
    /// pre-fills, and with what values.
    spec fn spec_padding(&self, rate: nat) -> Seq<Option<nat>>;

    /// The folding rule: what a state lane becomes when a set buffer slot
    /// is folded into it.
    spec fn spec_fold_lane(&self, lane: nat, value: nat) -> nat;

    /// The initial capacity element, encoding this domain.
    fn initial_capacity_element(&self) -> (r: Element)
        ensures
            r@ == self.spec_initial_capacity(),
            r@ < p(),
    ;

    /// The padding that will be added to each rate lane not supplied by the
    /// caller.
    fn padding(&self, rate: usize) -> (r: Vec<Option<Element>>)
        ensures
            r@.len() == rate,
            opt_vals(r@) == self.spec_padding(rate as nat),
            wf_opts(opt_vals(r@)),
    ;

    /// Updates the state with the input to a duplex round: every lane with
    /// a set slot in `input` is folded by the domain's rule; lanes with an
    /// unset slot, and every lane past the input buffer — the capacity lane
    /// among them — are left untouched.
    fn pad_and_add(&self, state: &mut Vec<Element>, input: &Vec<Option<Element>>)
        requires
            input@.len() < old(state)@.len(),
            wf_state(vals(old(state)@)),
            wf_opts(opt_vals(input@)),
        ensures
            final(state)@.len() == old(state)@.len(),
            wf_state(vals(final(state)@)),
            forall|i: int|
                0 <= i < input@.len() && opt_vals(input@)[i] is Some ==> #[trigger] vals(
                    final(state)@,
                )[i] == self.spec_fold_lane(vals(old(state)@)[i], opt_vals(input@)[i]->0),
            forall|i: int|
                0 <= i < input@.len() && opt_vals(input@)[i] is None ==> #[trigger] vals(
                    final(state)@,
                )[i] == vals(old(state)@)[i],
            forall|i: int|
                input@.len() <= i < old(state)@.len() ==> #[trigger] vals(final(state)@)[i]
                    == vals(old(state)@)[i],
    ;
}

/// The folded state: every lane with a set slot in `input` is replaced by
/// the domain's folding rule applied to it; every other lane is kept.
pub open spec fn spec_fold<D: Domain>(d: D, state: Seq<nat>, input: Seq<Option<nat>>) -> Seq<nat> {
    Seq::new(
        state.len(),
        |i: int|
            if 0 <= i < input.len() {
                match input[i] {
                    Some(v) => d.spec_fold_lane(state[i], v),
                    None => state[i],
                }
            } else {
                state[i]
            },
    )
}

/// A Poseidon hash function used with constant input length `L`: the
/// capacity value encodes `L` together with a hard-coded output length of
/// one element, the padding fills every rate lane at index `L` and above
/// with zero, and folding adds each set slot into its lane.
#[derive(Clone, Copy, Debug)]
pub struct ConstantLength<const L: usize>;

impl<const L: usize> Domain for ConstantLength<L> {
    /// The capacity value is `L * 2^64 + (o - 1)` with the output length
    /// `o` hard-coded to 1.
    open spec fn spec_initial_capacity(&self) -> nat {
        (L as nat) * 0x10000000000000000
    }

    open spec fn spec_padding(&self, rate: nat) -> Seq<Option<nat>> {
        Seq::new(rate, |i: int| if i < L { None } else { Some(0nat) })
    }

    open spec fn spec_fold_lane(&self, lane: nat, value: nat) -> nat {
        add_p(lane, value)
    }

    fn initial_capacity_element(&self) -> (r: Element) {
        let hi: u64 = L as u64;
        proof {
            assert((hi as u128) * 0x10000000000000000 <= 0xffffffffffffffff * 0x10000000000000000)
                by (nonlinear_arith)
                requires ((hi as u128) <= 0xffffffffffffffff);
        }
        let c: u128 = (hi as u128) * 0x10000000000000000;
        fp_from_u128(c)
    }

    fn padding(&self, rate: usize) -> (r: Vec<Option<Element>>) {
        let mut out: Vec<Option<Element>> = Vec::new();
        let mut i: usize = 0;
        while i < rate
            invariant
                i <= rate,
                out@.len() == i,
                forall|k: int|
                    0 <= k < i ==> opt_vals(out@)[k] == (if k < L {
                        Option::<nat>::None
                    } else {
                        Some(0nat)
                    }),
            decreases rate - i,
        {
            if i < L {
                out.push(None);
            } else {
                out.push(Some(Element::zero()));
            }
            i += 1;
        }
        proof {
            assert(opt_vals(out@) =~= self.spec_padding(rate as nat));
        }
        out
    }

    fn pad_and_add(&self, state: &mut Vec<Element>, input: &Vec<Option<Element>>) {
        let ghost s0 = vals(old(state)@);
        let n = input.len();
        let mut i: usize = 0;
        while i < n
            invariant
                n == input@.len(),
                n < state@.len(),
                state@.len() == s0.len(),
                wf_opts(opt_vals(input@)),
                wf_state(s0),
                wf_state(vals(state@)),
                i <= n,
                forall|k: int|
                    0 <= k < i ==> vals(state@)[k] == (match opt_vals(input@)[k] {
                        Some(v) => add_p(s0[k], v),
                        None => s0[k],
                    }),
                forall|k: int| i <= k < s0.len() ==> vals(state@)[k] == s0[k],
            decreases n - i,
        {
            match input[i] {
                Some(v) => {
                    let w = fp_add(state[i], v);
                    state.set(i, w);
                }
                None => {},
            }
            i += 1;
        }
    }
}

} // verus!
