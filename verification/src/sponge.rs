//! The duplex sponge: a two-mode state machine over a rate buffer of
//! optional elements, driving the Poseidon permutation on buffer-full and
//! buffer-empty boundaries.

use crate::domain::{spec_fold, Domain};
use crate::field::{opt_vals, p, vals, vals2, wf_opts, wf_state, Element};
use crate::permutation::{permute, rows_are, spec_permute, wf_table, Spec};
use core::marker::PhantomData;
use vstd::prelude::*;

verus! {

broadcast use
    crate::field::lemma_vals_index,
    crate::field::lemma_opt_vals_index,
    crate::field::lemma_vals2_index;

/// The mode a duplex sponge is in, as seen by specifications.
#[derive(PartialEq, Eq, Structural)]
pub ghost enum Mode {
    Absorbing,
    Squeezing,
}

/// What a duplex sponge holds, as seen by specifications: its mode, the
/// rate buffer, the working state, and the constant tables it was built
/// with.
#[verifier::ext_equal]
pub ghost struct DuplexView {
    pub mode: Mode,
    pub buffer: Seq<Option<nat>>,
    pub state: Seq<nat>,
    pub mds: Seq<Seq<nat>>,
    pub rcs: Seq<Seq<nat>>,
}

/// A buffer with every slot unset.
pub open spec fn all_none(rate: nat) -> Seq<Option<nat>> {
    Seq::new(rate, |i: int| Option::<nat>::None)
}

/// A fresh absorbing buffer: the given value in slot 0, all other slots
/// unset.
pub open spec fn fresh_buffer(rate: nat, x: nat) -> Seq<Option<nat>> {
    Seq::new(rate, |i: int| if i == 0 { Some(x) } else { None })
}

/// The index of the first unset slot, or the length if every slot is set.
pub open spec fn first_none(b: Seq<Option<nat>>) -> int
    decreases b.len(),
{
    if b.len() == 0 {
        0
    } else if b[0] is None {
        0
    } else {
        1 + first_none(b.drop_first())
    }
}

/// The index of the first set slot, or the length if every slot is unset.
pub open spec fn first_some(b: Seq<Option<nat>>) -> int
    decreases b.len(),
{
    if b.len() == 0 {
        0
    } else if b[0] is Some {
        0
    } else {
        1 + first_some(b.drop_first())
    }
}

/// A buffer whose first `i` slots are set and whose slot `i`, if any, is
/// unset has its first unset slot at `i`.
pub proof fn lemma_first_none_is(b: Seq<Option<nat>>, i: int)
    requires
        0 <= i <= b.len(),
        forall|k: int| 0 <= k < i ==> #[trigger] b[k] is Some,
        i < b.len() ==> b[i] is None,
    ensures
        first_none(b) == i,
    decreases i,
{
    if b.len() == 0 {
    } else if i == 0 {
    } else {
        lemma_first_none_is(b.drop_first(), i - 1);
    }
}

/// The mirror image of `lemma_first_none_is` for set slots.
pub proof fn lemma_first_some_is(b: Seq<Option<nat>>, i: int)
    requires
        0 <= i <= b.len(),
        forall|k: int| 0 <= k < i ==> #[trigger] b[k] is None,
        i < b.len() ==> b[i] is Some,
    ensures
        first_some(b) == i,
    decreases i,
{
    if b.len() == 0 {
    } else if i == 0 {
    } else {
        lemma_first_some_is(b.drop_first(), i - 1);
    }
}

/// One duplex round: fold the input buffer into the state by the domain's
/// rule, permute the state, and read the first `rate` lanes back out as a
/// fully set output buffer.
pub open spec fn spec_duplex_round<S: Spec, D: Domain>(
    d: D,
    state: Seq<nat>,
    input: Seq<Option<nat>>,
    m: Seq<Seq<nat>>,
    rcs: Seq<Seq<nat>>,
) -> (Seq<nat>, Seq<Option<nat>>) {
    let out_state = spec_permute::<S>(spec_fold(d, state, input), m, rcs);
    (out_state, Seq::new(input.len(), |i: int| Some(out_state[i])))
}

/// What absorbing one value does to a duplex sponge: fill the first unset
/// slot; on a full buffer, run one round, discard its output, and start a
/// fresh buffer; when squeezing, drop the unread output and start a fresh
/// buffer.
pub open spec fn spec_absorb<S: Spec, D: Domain>(d: D, v: DuplexView, x: nat) -> DuplexView {
    match v.mode {
        Mode::Absorbing => {
            if first_none(v.buffer) < v.buffer.len() {
                DuplexView { buffer: v.buffer.update(first_none(v.buffer), Some(x)), ..v }
            } else {
                let (s1, _) = spec_duplex_round::<S, D>(d, v.state, v.buffer, v.mds, v.rcs);
                DuplexView { buffer: fresh_buffer(v.buffer.len(), x), state: s1, ..v }
            }
        },
        Mode::Squeezing => DuplexView {
            mode: Mode::Absorbing,
            buffer: fresh_buffer(v.buffer.len(), x),
            ..v
        },
    }
}

/// What squeezing one value does to a duplex sponge, and what it returns:
/// when absorbing, run one round and serve slot 0 of its output; when
/// squeezing, serve the first set slot; on an exhausted buffer, run a
/// fresh round on an all-unset input and serve slot 0.
pub open spec fn spec_squeeze<S: Spec, D: Domain>(d: D, v: DuplexView) -> (DuplexView, nat) {
    match v.mode {
        Mode::Absorbing => {
            let (s1, out) = spec_duplex_round::<S, D>(d, v.state, v.buffer, v.mds, v.rcs);
            (
                DuplexView { mode: Mode::Squeezing, buffer: out.update(0, None), state: s1, ..v },
                s1[0],
            )
        },
        Mode::Squeezing => {
            if first_some(v.buffer) < v.buffer.len() {
                let k = first_some(v.buffer);
                (DuplexView { buffer: v.buffer.update(k, None), ..v }, v.buffer[k]->0)
            } else {
                let (s1, out) = spec_duplex_round::<S, D>(
                    d,
                    v.state,
                    all_none(v.buffer.len()),
                    v.mds,
                    v.rcs,
                );
                (
                    DuplexView {
                        mode: Mode::Squeezing,
                        buffer: out.update(0, None),
                        state: s1,
                        ..v
                    },
                    s1[0],
                )
            }
        },
    }
}

/// The duplex view after absorbing every value of `msg`, in order.
pub open spec fn spec_absorb_seq<S: Spec, D: Domain>(
    d: D,
    v: DuplexView,
    msg: Seq<nat>,
) -> DuplexView
    decreases msg.len(),
{
    if msg.len() == 0 {
        v
    } else {
        spec_absorb::<S, D>(d, spec_absorb_seq::<S, D>(d, v, msg.drop_last()), msg.last())
    }
}

/// The duplex view after squeezing `n` times, with the values served, in
/// order.
pub open spec fn spec_squeeze_seq<S: Spec, D: Domain>(d: D, v: DuplexView, n: int) -> (
    DuplexView,
    Seq<nat>,
)
    decreases n,
{
    if n <= 0 {
        (v, Seq::empty())
    } else {
        let (v1, outs) = spec_squeeze_seq::<S, D>(d, v, n - 1);
        let (v2, x) = spec_squeeze::<S, D>(d, v1);
        (v2, outs.push(x))
    }
}

/// A buffer whose first slots hold the values of `msg`, in order, and
/// whose remaining slots are unset.
pub open spec fn filled(msg: Seq<nat>, rate: nat) -> Seq<Option<nat>> {
    Seq::new(rate, |i: int| if i < msg.len() { Some(msg[i]) } else { None })
}

/// Absorbing `k` values, at most the rate, into a duplex with a fresh
/// absorbing buffer only fills the first `k` slots, in order: no round
/// runs, and the state is untouched.
pub proof fn lemma_absorb_fills<S: Spec, D: Domain>(d: D, v: DuplexView, msg: Seq<nat>)
    requires
        v.mode is Absorbing,
        v.buffer == all_none(v.buffer.len()),
        msg.len() <= v.buffer.len(),
    ensures
        spec_absorb_seq::<S, D>(d, v, msg) == (DuplexView {
            buffer: filled(msg, v.buffer.len()),
            ..v
        }),
    decreases msg.len(),
{
    let rate = v.buffer.len();
    if msg.len() == 0 {
        assert(filled(msg, rate) =~= v.buffer);
        assert(spec_absorb_seq::<S, D>(d, v, msg) =~= DuplexView {
            buffer: filled(msg, rate),
            ..v
        });
    } else {
        lemma_absorb_fills::<S, D>(d, v, msg.drop_last());
        let prev = spec_absorb_seq::<S, D>(d, v, msg.drop_last());
        let k = msg.len() - 1;
        lemma_first_none_is(prev.buffer, k);
        assert(prev.buffer.update(k, Some(msg.last())) =~= filled(msg, rate));
        assert(spec_absorb_seq::<S, D>(d, v, msg) =~= DuplexView {
            buffer: filled(msg, rate),
            ..v
        });
    }
}

/// Absorbing `rate + 1` values into a duplex with a fresh absorbing buffer
/// triggers exactly one internal duplex round, whose output is discarded:
/// what remains is the state after that round and a fresh buffer holding
/// only the last value.
pub proof fn lemma_absorb_overflow<S: Spec, D: Domain>(d: D, v: DuplexView, msg: Seq<nat>)
    requires
        v.mode is Absorbing,
        v.buffer == all_none(v.buffer.len()),
        v.buffer.len() >= 1,
        msg.len() == v.buffer.len() + 1,
    ensures
        spec_absorb_seq::<S, D>(d, v, msg) == (DuplexView {
            buffer: fresh_buffer(v.buffer.len(), msg.last()),
            state: spec_duplex_round::<S, D>(
                d,
                v.state,
                filled(msg.drop_last(), v.buffer.len()),
                v.mds,
                v.rcs,
            ).0,
            ..v
        }),
{
    let rate = v.buffer.len();
    lemma_absorb_fills::<S, D>(d, v, msg.drop_last());
    let prev = spec_absorb_seq::<S, D>(d, v, msg.drop_last());
    lemma_first_none_is(prev.buffer, rate as int);
    assert(spec_absorb_seq::<S, D>(d, v, msg) =~= DuplexView {
        buffer: fresh_buffer(rate, msg.last()),
        state: spec_duplex_round::<S, D>(
            d,
            v.state,
            filled(msg.drop_last(), rate),
            v.mds,
            v.rcs,
        ).0,
        ..v
    });
}

/// After `j` squeezes from an absorbing duplex, `j` at most the rate, the
/// values served are the first `j` rate lanes of the state after one
/// duplex round, in lane order, and the buffer keeps exactly the unread
/// lanes.
pub proof fn lemma_squeeze_run<S: Spec, D: Domain>(d: D, v: DuplexView, j: int)
    requires
        v.mode is Absorbing,
        1 <= j <= v.buffer.len(),
    ensures
        ({
            let rate = v.buffer.len();
            let s1 = spec_duplex_round::<S, D>(d, v.state, v.buffer, v.mds, v.rcs).0;
            &&& spec_squeeze_seq::<S, D>(d, v, j).0 == (DuplexView {
                mode: Mode::Squeezing,
                buffer: Seq::new(
                    rate,
                    |i: int| if i < j { Option::<nat>::None } else { Some(s1[i]) },
                ),
                state: s1,
                ..v
            })
            &&& spec_squeeze_seq::<S, D>(d, v, j).1 == Seq::new(j as nat, |i: int| s1[i])
        }),
    decreases j,
{
    let rate = v.buffer.len();
    let s1 = spec_duplex_round::<S, D>(d, v.state, v.buffer, v.mds, v.rcs).0;
    let out = spec_duplex_round::<S, D>(d, v.state, v.buffer, v.mds, v.rcs).1;
    if j == 1 {
        assert(out.update(0, None) =~= Seq::new(
            rate,
            |i: int| if i < 1 { Option::<nat>::None } else { Some(s1[i]) },
        ));
        assert(spec_squeeze_seq::<S, D>(d, v, 1).0 =~= DuplexView {
            mode: Mode::Squeezing,
            buffer: Seq::new(rate, |i: int| if i < 1 { Option::<nat>::None } else { Some(s1[i]) }),
            state: s1,
            ..v
        });
        assert(spec_squeeze_seq::<S, D>(d, v, 1).1 =~= Seq::new(1nat, |i: int| s1[i]));
    } else {
        lemma_squeeze_run::<S, D>(d, v, j - 1);
        let prev = spec_squeeze_seq::<S, D>(d, v, j - 1);
        lemma_first_some_is(prev.0.buffer, j - 1);
        assert(prev.0.buffer.update(j - 1, None) =~= Seq::new(
            rate,
            |i: int| if i < j { Option::<nat>::None } else { Some(s1[i]) },
        ));
        assert(spec_squeeze_seq::<S, D>(d, v, j).0 =~= DuplexView {
            mode: Mode::Squeezing,
            buffer: Seq::new(rate, |i: int| if i < j { Option::<nat>::None } else { Some(s1[i]) }),
            state: s1,
            ..v
        });
        assert(spec_squeeze_seq::<S, D>(d, v, j).1 =~= Seq::new(j as nat, |i: int| s1[i]));
    }
}

/// Squeezing `rate + 1` times from an absorbing duplex: the first `rate`
/// values are the rate lanes of the state after one duplex round, and the
/// extra call triggers a second round — on an all-unset input, so folding
/// changes nothing — serving lane 0 of the freshly permuted state.
pub proof fn lemma_extended_squeeze<S: Spec, D: Domain>(d: D, v: DuplexView)
    requires
        v.mode is Absorbing,
        v.buffer.len() >= 1,
    ensures
        ({
            let rate = v.buffer.len() as int;
            let s1 = spec_duplex_round::<S, D>(d, v.state, v.buffer, v.mds, v.rcs).0;
            let s2 = spec_permute::<S>(s1, v.mds, v.rcs);
            &&& spec_squeeze_seq::<S, D>(d, v, rate + 1).1 == Seq::new(
                rate as nat,
                |i: int| s1[i],
            ).push(s2[0])
            &&& spec_squeeze_seq::<S, D>(d, v, rate + 1).0.state == s2
        }),
{
    let rate = v.buffer.len() as int;
    let s1 = spec_duplex_round::<S, D>(d, v.state, v.buffer, v.mds, v.rcs).0;
    lemma_squeeze_run::<S, D>(d, v, rate);
    let prev = spec_squeeze_seq::<S, D>(d, v, rate);
    lemma_first_some_is(prev.0.buffer, rate);
    assert(spec_fold(d, s1, all_none(rate as nat)) =~= s1);
}

/// Absorbing into a sponge that still holds unread squeeze output equals
/// absorbing into a fresh absorbing sponge over the same state: the
/// unread output is discarded, and nothing of it is reused.
pub proof fn lemma_mode_switch_discard<S: Spec, D: Domain>(d: D, v: DuplexView, x: nat)
    requires
        v.mode is Squeezing,
        v.buffer.len() >= 1,
    ensures
        spec_absorb::<S, D>(d, v, x) == (spec_absorb::<S, D>(
            d,
            DuplexView { mode: Mode::Absorbing, buffer: all_none(v.buffer.len()), ..v },
            x,
        )),
{
    let rate = v.buffer.len();
    lemma_first_none_is(all_none(rate), 0);
    assert(all_none(rate).update(0, Some(x)) =~= fresh_buffer(rate, x));
    assert(spec_absorb::<S, D>(d, v, x) =~= spec_absorb::<S, D>(
        d,
        DuplexView { mode: Mode::Absorbing, buffer: all_none(rate), ..v },
        x,
    ));
}

/// The view of a fresh duplex built over the given tables: all-zero state
/// except the capacity lane, and an all-unset absorbing buffer one lane
/// narrower than the state.
pub open spec fn init_duplex_view(rcs: Seq<Seq<nat>>, mds: Seq<Seq<nat>>, cap: nat) -> DuplexView {
    let t = mds.len() as int;
    DuplexView {
        mode: Mode::Absorbing,
        buffer: all_none((t - 1) as nat),
        state: Seq::new(t as nat, |i: int| if i == t - 1 { cap } else { 0 }),
        mds: mds,
        rcs: rcs,
    }
}

/// The type used to hold duplex sponge state: either absorbing caller
/// input into the rate buffer, or serving squeezed output out of it.
pub enum Sponge {
    Absorbing(Vec<Option<Element>>),
    Squeezing(Vec<Option<Element>>),
}

impl Sponge {
    /// A fresh absorbing sponge over a buffer of width `rate`, holding
    /// `val` in slot 0 and nothing else.
    pub fn absorb(val: Element, rate: usize) -> (r: Sponge)
        requires
            rate >= 1,
        ensures
            (r matches Sponge::Absorbing(b) && b@.len() == rate && opt_vals(b@) == fresh_buffer(
                rate as nat,
                val@,
            )),
    {
        let mut input: Vec<Option<Element>> = Vec::new();
        input.push(Some(val));
        let mut i: usize = 1;
        while i < rate
            invariant
                1 <= i <= rate,
                input@.len() == i,
                input@[0] == Some(val),
                forall|k: int| 1 <= k < i ==> #[trigger] input@[k] is None,
            decreases rate - i,
        {
            input.push(None);
            i += 1;
        }
        proof {
            assert(opt_vals(input@) =~= fresh_buffer(rate as nat, val@));
        }
        Sponge::Absorbing(input)
    }
}

/// Copies a rate buffer slot by slot.
fn copy_buffer(b: &Vec<Option<Element>>) -> (r: Vec<Option<Element>>)
    ensures
        r@ == b@,
{
    let mut out: Vec<Option<Element>> = Vec::new();
    let mut i: usize = 0;
    let n = b.len();
    while i < n
        invariant
            i <= n,
            n == b@.len(),
            out@.len() == i,
            forall|k: int| 0 <= k < i ==> #[trigger] out@[k] == b@[k],
        decreases n - i,
    {
        out.push(b[i]);
        i += 1;
    }
    proof {
        assert(out@ =~= b@);
    }
    out
}

/// A buffer of `n` unset slots.
fn none_buffer(n: usize) -> (r: Vec<Option<Element>>)
    ensures
        r@.len() == n,
        opt_vals(r@) == all_none(n as nat),
{
    let mut out: Vec<Option<Element>> = Vec::new();
    let mut i: usize = 0;
    while i < n
        invariant
            i <= n,
            out@.len() == i,
            forall|k: int| 0 <= k < i ==> #[trigger] out@[k] is None,
        decreases n - i,
    {
        out.push(None);
        i += 1;
    }
    proof {
        assert(opt_vals(out@) =~= all_none(n as nat));
    }
    out
}

/// One duplex round over the held tables; the returned buffer holds the
/// first `rate` lanes of the permuted state, every slot set.
fn poseidon_duplex<S: Spec, D: Domain>(
    state: &mut Vec<Element>,
    input: &Vec<Option<Element>>,
    domain: &D,
    mds_matrix: &Vec<Vec<Element>>,
    round_constants: &Vec<Vec<Element>>,
) -> (output: Vec<Option<Element>>)
    requires
        input@.len() < old(state)@.len(),
        mds_matrix@.len() == old(state)@.len(),
        rows_are(vals2(mds_matrix@), old(state)@.len() as nat),
        wf_table(vals2(mds_matrix@)),
        round_constants@.len() == S::spec_full_rounds() + S::spec_partial_rounds(),
        rows_are(vals2(round_constants@), old(state)@.len() as nat),
        wf_table(vals2(round_constants@)),
        wf_state(vals(old(state)@)),
        wf_opts(opt_vals(input@)),
    ensures
        final(state)@.len() == old(state)@.len(),
        wf_state(vals(final(state)@)),
        vals(final(state)@) == spec_duplex_round::<S, D>(
            *domain,
            vals(old(state)@),
            opt_vals(input@),
            vals2(mds_matrix@),
            vals2(round_constants@),
        ).0,
        output@.len() == input@.len(),
        wf_opts(opt_vals(output@)),
        opt_vals(output@) == spec_duplex_round::<S, D>(
            *domain,
            vals(old(state)@),
            opt_vals(input@),
            vals2(mds_matrix@),
            vals2(round_constants@),
        ).1,
{
    domain.pad_and_add(state, input);
    proof {
        assert(vals(state@) =~= spec_fold(*domain, vals(old(state)@), opt_vals(input@)));
    }
    permute::<S>(state, mds_matrix, round_constants);
    let n = input.len();
    let mut output: Vec<Option<Element>> = Vec::new();
    let mut i: usize = 0;
    while i < n
        invariant
            i <= n,
            n < state@.len(),
            output@.len() == i,
            wf_state(vals(state@)),
            forall|k: int| 0 <= k < i ==> #[trigger] output@[k] == Some(state@[k]),
        decreases n - i,
    {
        output.push(Some(state[i]));
        i += 1;
    }
    proof {
        assert(opt_vals(output@) =~= Seq::new(
            opt_vals(input@).len(),
            |k: int| Some(vals(state@)[k]),
        ));
    }
    output
}

/// A Poseidon duplex sponge: the sponge mode and rate buffer, the working
/// state, the constant tables obtained from the specification, and the
/// domain whose folding rule drives each duplex round.
pub struct Duplex<S: Spec, D: Domain> {
    sponge: Sponge,
    state: Vec<Element>,
    domain: D,
    mds_matrix: Vec<Vec<Element>>,
    round_constants: Vec<Vec<Element>>,
    _marker: PhantomData<S>,
}

impl<S: Spec, D: Domain> View for Duplex<S, D> {
    type V = DuplexView;

    closed spec fn view(&self) -> DuplexView {
        DuplexView {
            mode: match self.sponge {
                Sponge::Absorbing(_) => Mode::Absorbing,
                Sponge::Squeezing(_) => Mode::Squeezing,
            },
            buffer: opt_vals(
                match self.sponge {
                    Sponge::Absorbing(b) => b@,
                    Sponge::Squeezing(b) => b@,
                },
            ),
            state: vals(self.state@),
            mds: vals2(self.mds_matrix@),
            rcs: vals2(self.round_constants@),
        }
    }
}

impl<S: Spec, D: Domain> Duplex<S, D> {
    /// The domain this duplex folds with.
    pub closed spec fn spec_domain(&self) -> D {
        self.domain
    }

    /// Well-formed: the buffer is one lane narrower than the state, the
    /// tables are as wide as the state with one constant row per round,
    /// and every element is below the modulus.
    pub closed spec fn wf(&self) -> bool {
        &&& self@.state.len() >= 2
        &&& self@.buffer.len() == self@.state.len() - 1
        &&& self@.mds.len() == self@.state.len()
        &&& rows_are(self@.mds, self@.state.len() as nat)
        &&& wf_table(self@.mds)
        &&& self@.rcs.len() == S::spec_full_rounds() + S::spec_partial_rounds()
        &&& rows_are(self@.rcs, self@.state.len() as nat)
        &&& wf_table(self@.rcs)
        &&& wf_state(self@.state)
        &&& wf_opts(self@.buffer)
    }

    /// Constructs a new duplex sponge for the given Poseidon specification:
    /// an all-zero state with the capacity element in the last lane, and an
    /// all-unset absorbing buffer.
    pub fn new(spec: S, initial_capacity_element: Element, domain: D) -> (r: Duplex<S, D>)
        requires
            initial_capacity_element@ < p(),
        ensures
            r.wf(),
            r.spec_domain() == domain,
            r@ == init_duplex_view(
                spec.spec_round_constants(),
                spec.spec_mds(),
                initial_capacity_element@,
            ),
    {
        let tables = spec.constants();
        let round_constants = tables.0;
        let mds_matrix = tables.1;
        let t = mds_matrix.len();
        let input = none_buffer(t - 1);
        let mut state: Vec<Element> = Vec::new();
        let mut i: usize = 0;
        while i < t - 1
            invariant
                i <= t - 1,
                state@.len() == i,
                forall|k: int| 0 <= k < i ==> vals(state@)[k] == 0,
            decreases t - 1 - i,
        {
            state.push(Element::zero());
            i += 1;
        }
        state.push(initial_capacity_element);
        let r = Duplex {
            sponge: Sponge::Absorbing(input),
            state,
            domain,
            mds_matrix,
            round_constants,
            _marker: PhantomData,
        };
        proof {
            assert(r@ =~= init_duplex_view(
                spec.spec_round_constants(),
                spec.spec_mds(),
                initial_capacity_element@,
            ));
        }
        r
    }

    /// Absorbs an element into the sponge.
    pub fn absorb(&mut self, value: Element)
        requires
            old(self).wf(),
            value@ < p(),
        ensures
            final(self).wf(),
            final(self).spec_domain() == old(self).spec_domain(),
            final(self)@ == spec_absorb::<S, D>(old(self).spec_domain(), old(self)@, value@),
    {
        let (is_absorbing, buf) = match &self.sponge {
            Sponge::Absorbing(b) => (true, copy_buffer(b)),
            Sponge::Squeezing(b) => (false, copy_buffer(b)),
        };
        let n = buf.len();
        if is_absorbing {
            let mut i: usize = 0;
            while i < n && buf[i].is_some()
                invariant
                    i <= n,
                    n == buf@.len(),
                    forall|k: int| 0 <= k < i ==> #[trigger] opt_vals(buf@)[k] is Some,
                decreases n - i,
            {
                i += 1;
            }
            proof {
                lemma_first_none_is(opt_vals(buf@), i as int);
            }
            if i < n {
                let mut b2 = buf;
                b2.set(i, Some(value));
                self.sponge = Sponge::Absorbing(b2);
                proof {
                    assert(self@ =~= spec_absorb::<S, D>(
                        old(self).spec_domain(),
                        old(self)@,
                        value@,
                    ));
                }
            } else {
                let _ = poseidon_duplex::<S, D>(
                    &mut self.state,
                    &buf,
                    &self.domain,
                    &self.mds_matrix,
                    &self.round_constants,
                );
                self.sponge = Sponge::absorb(value, n);
                proof {
                    assert(self@ =~= spec_absorb::<S, D>(
                        old(self).spec_domain(),
                        old(self)@,
                        value@,
                    ));
                }
            }
        } else {
            self.sponge = Sponge::absorb(value, n);
            proof {
                assert(self@ =~= spec_absorb::<S, D>(old(self).spec_domain(), old(self)@, value@));
            }
        }
    }

    /// Squeezes an element from the sponge.
    pub fn squeeze(&mut self) -> (r: Element)
        requires
            old(self).wf(),
        ensures
            final(self).wf(),
            final(self).spec_domain() == old(self).spec_domain(),
            final(self)@ == spec_squeeze::<S, D>(old(self).spec_domain(), old(self)@).0,
            r@ == spec_squeeze::<S, D>(old(self).spec_domain(), old(self)@).1,
            r@ < p(),
    {
        let (is_absorbing, buf) = match &self.sponge {
            Sponge::Absorbing(b) => (true, copy_buffer(b)),
            Sponge::Squeezing(b) => (false, copy_buffer(b)),
        };
        let n = buf.len();
        if is_absorbing {
            let out = poseidon_duplex::<S, D>(
                &mut self.state,
                &buf,
                &self.domain,
                &self.mds_matrix,
                &self.round_constants,
            );
            let r = out[0].unwrap();
            let mut b2 = out;
            b2.set(0, None);
            self.sponge = Sponge::Squeezing(b2);
            proof {
                assert(self@ =~= spec_squeeze::<S, D>(old(self).spec_domain(), old(self)@).0);
            }
            r
        } else {
            let mut i: usize = 0;
            while i < n && buf[i].is_none()
                invariant
                    i <= n,
                    n == buf@.len(),
                    forall|k: int| 0 <= k < i ==> #[trigger] opt_vals(buf@)[k] is None,
                decreases n - i,
            {
                i += 1;
            }
            proof {
                lemma_first_some_is(opt_vals(buf@), i as int);
            }
            if i < n {
                let r = buf[i].unwrap();
                let mut b2 = buf;
                b2.set(i, None);
                self.sponge = Sponge::Squeezing(b2);
                proof {
                    assert(self@ =~= spec_squeeze::<S, D>(old(self).spec_domain(), old(self)@).0);
                }
                r
            } else {
                let empty = none_buffer(n);
                let out = poseidon_duplex::<S, D>(
                    &mut self.state,
                    &empty,
                    &self.domain,
                    &self.mds_matrix,
                    &self.round_constants,
                );
                let r = out[0].unwrap();
                let mut b2 = out;
                b2.set(0, None);
                self.sponge = Sponge::Squeezing(b2);
                proof {
                    assert(self@ =~= spec_squeeze::<S, D>(old(self).spec_domain(), old(self)@).0);
                }
                r
            }
        }
    }
}

} // verus!
