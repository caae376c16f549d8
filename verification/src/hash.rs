//! The one-shot hashing facade: binds a specification and a domain to a
//! duplex sponge. Built once by `init`, consumed by a single `hash` call.

use crate::domain::{spec_fold, ConstantLength, Domain};
use crate::field::{p, vals, wf_state, Element};
use crate::permutation::{spec_permute, Spec};
use crate::sponge::{
    filled, init_duplex_view, lemma_absorb_fills, spec_absorb_seq, spec_squeeze, Duplex,
    DuplexView,
};
use vstd::prelude::*;

verus! {

broadcast use crate::field::lemma_vals_index;

/// What hashing a message returns: absorb every element of the message in
/// order, then squeeze once.
pub open spec fn spec_hash<S: Spec, D: Domain>(d: D, v0: DuplexView, msg: Seq<nat>) -> nat {
    spec_squeeze::<S, D>(d, spec_absorb_seq::<S, D>(d, v0, msg)).1
}

/// Hashing a message of length exactly `L`, at most the rate, under the
/// constant-length domain equals building the state directly — the
/// message, then zero padding up to the rate, then the capacity element —
/// running the permutation once, and reading lane 0.
pub proof fn lemma_direct_construction<S: Spec, const L: usize>(
    d: ConstantLength<L>,
    rcs: Seq<Seq<nat>>,
    mds: Seq<Seq<nat>>,
    msg: Seq<nat>,
)
    requires
        msg.len() == L,
        mds.len() >= 2,
        L < mds.len(),
        wf_state(msg),
    ensures
        spec_hash::<S, ConstantLength<L>>(
            d,
            init_duplex_view(rcs, mds, d.spec_initial_capacity()),
            msg,
        ) == spec_permute::<S>(
            msg + Seq::new((mds.len() - 1 - L) as nat, |i: int| 0nat) + seq![
                d.spec_initial_capacity(),
            ],
            mds,
            rcs,
        )[0],
{
    let t = mds.len() as int;
    let rate = (t - 1) as nat;
    let v0 = init_duplex_view(rcs, mds, d.spec_initial_capacity());
    lemma_absorb_fills::<S, ConstantLength<L>>(d, v0, msg);
    let folded = spec_fold(d, v0.state, filled(msg, rate));
    let direct = msg + Seq::new((mds.len() - 1 - L) as nat, |i: int| 0nat) + seq![
        d.spec_initial_capacity(),
    ];
    assert forall|i: int| 0 <= i < t implies folded[i] == direct[i] by {
        if i < L {
            vstd::arithmetic::div_mod::lemma_small_mod(msg[i], p());
        }
    }
    assert(folded =~= direct);
}

/// A Poseidon hash function, built around a duplex sponge.
pub struct Hash<S: Spec, D: Domain> {
    duplex: Duplex<S, D>,
    domain: D,
}

impl<S: Spec, D: Domain> Hash<S, D> {
    /// The domain this hasher was built for.
    pub closed spec fn spec_domain(&self) -> D {
        self.domain
    }

    /// The view of the held duplex sponge.
    pub closed spec fn spec_duplex(&self) -> DuplexView {
        self.duplex@
    }

    /// Well-formed: the duplex is, and folds with this hasher's domain.
    pub closed spec fn wf(&self) -> bool {
        &&& self.duplex.wf()
        &&& self.duplex.spec_domain() == self.domain
    }

    /// Initializes a new hasher: obtains the constant tables from the
    /// specification and seeds the duplex with the domain's capacity
    /// element.
    pub fn init(spec: S, domain: D) -> (r: Hash<S, D>)
        ensures
            r.wf(),
            r.spec_domain() == domain,
            r.spec_duplex() == init_duplex_view(
                spec.spec_round_constants(),
                spec.spec_mds(),
                domain.spec_initial_capacity(),
            ),
    {
        let cap = domain.initial_capacity_element();
        Hash { duplex: Duplex::new(spec, cap, domain), domain }
    }
}

impl<S: Spec, const L: usize> Hash<S, ConstantLength<L>> {
    /// Hashes the given message of length exactly `L`, which must fit the
    /// rate; consumes the hasher.
    pub fn hash(self, message: Vec<Element>) -> (r: Element)
        requires
            self.wf(),
            message@.len() == L,
            L <= self.spec_duplex().buffer.len(),
            wf_state(vals(message@)),
        ensures
            r@ == spec_hash::<S, ConstantLength<L>>(
                self.spec_domain(),
                self.spec_duplex(),
                vals(message@),
            ),
    {
        let mut this = self;
        let n = message.len();
        let mut i: usize = 0;
        while i < n
            invariant
                n == message@.len(),
                wf_state(vals(message@)),
                i <= n,
                this.duplex.wf(),
                this.duplex.spec_domain() == self.spec_domain(),
                this.duplex@ == spec_absorb_seq::<S, ConstantLength<L>>(
                    self.spec_domain(),
                    self.spec_duplex(),
                    vals(message@).take(i as int),
                ),
            decreases n - i,
        {
            this.duplex.absorb(message[i]);
            proof {
                let m = vals(message@);
                assert(m.take(i + 1).drop_last() =~= m.take(i as int));
                assert(m.take(i + 1).last() == m[i as int]);
            }
            i += 1;
        }
        proof {
            assert(vals(message@).take(n as int) =~= vals(message@));
        }
        this.duplex.squeeze()
    }
}

} // verus!
