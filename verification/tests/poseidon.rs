use halo2_poseidon::domain::{ConstantLength, Domain};
use halo2_poseidon::field::Element;
use halo2_poseidon::permutation::{permute, Spec};
use halo2_poseidon::sample::Pow5T3Sample;
use halo2_poseidon::sponge::{Duplex, Sponge};

#[test]
fn orchard_spec_equivalence() {
    let message = vec![Element::from_u64(6), Element::from_u64(42)];

    let (round_constants, mds, _) = Pow5T3Sample.constants();

    let hasher = halo2_poseidon::hash::Hash::<Pow5T3Sample, ConstantLength<2>>::init(Pow5T3Sample, ConstantLength);
    let result = hasher.hash(message);

    // The result should be equivalent to just directly applying the permutation and
    // taking the first state element as the output.
    let mut state = vec![
        Element::from_u64(6),
        Element::from_u64(42),
        Element::from_u128(2u128 << 64),
    ];
    permute::<Pow5T3Sample>(&mut state, &mds, &round_constants);
    assert_eq!(state[0], result);
}

#[test]
fn permutation_is_deterministic() {
    let (round_constants, mds, _) = Pow5T3Sample.constants();
    let mut state_a = vec![
        Element::from_u64(1),
        Element::from_u64(2),
        Element::from_u64(3),
    ];
    let mut state_b = vec![
        Element::from_u64(1),
        Element::from_u64(2),
        Element::from_u64(3),
    ];
    permute::<Pow5T3Sample>(&mut state_a, &mds, &round_constants);
    permute::<Pow5T3Sample>(&mut state_b, &mds, &round_constants);
    assert_eq!(state_a, state_b);
    // The permutation moved the state somewhere else.
    assert_ne!(state_a[0], Element::from_u64(1));
}

#[test]
fn sample_spec_structure() {
    let full = <Pow5T3Sample as Spec>::full_rounds();
    let partial = <Pow5T3Sample as Spec>::partial_rounds();
    assert_eq!(full % 2, 0);
    let (round_constants, mds, mds_inv) = Pow5T3Sample.constants();
    assert_eq!(round_constants.len(), full + partial);
    assert_eq!(mds.len(), 3);
    assert_eq!(mds_inv.len(), 3);
    for row in &round_constants {
        assert_eq!(row.len(), 3);
    }
    for row in &mds {
        assert_eq!(row.len(), 3);
    }
}

#[test]
fn capacity_encodes_the_length() {
    let domain: ConstantLength<2> = ConstantLength;
    // L * 2^64 with L = 2.
    assert_eq!(
        domain.initial_capacity_element(),
        Element::from_u128(36893488147419103232u128)
    );
}

#[test]
fn padding_fills_lanes_past_the_length() {
    let domain: ConstantLength<1> = ConstantLength;
    assert_eq!(domain.padding(2), vec![None, Some(Element::zero())]);
    let full: ConstantLength<2> = ConstantLength;
    assert_eq!(full.padding(2), vec![None, None]);
}

#[test]
fn folding_adds_set_slots() {
    let domain: ConstantLength<2> = ConstantLength;
    let mut state = vec![
        Element::from_u64(7),
        Element::from_u64(20),
        Element::from_u64(99),
    ];
    let input = vec![Some(Element::from_u64(5)), None];
    domain.pad_and_add(&mut state, &input);
    assert_eq!(state[0], Element::from_u64(12));
    assert_eq!(state[1], Element::from_u64(20));
    assert_eq!(state[2], Element::from_u64(99));
}

#[test]
fn sbox_is_the_fifth_power() {
    let out = <Pow5T3Sample as Spec>::sbox(Element::from_u64(3));
    assert_eq!(out, Element::from_u64(243));
    assert_eq!(
        <Pow5T3Sample as Spec>::sbox(Element::zero()),
        Element::zero()
    );
}

#[test]
fn sponge_absorb_builds_a_fresh_buffer() {
    let sponge = Sponge::absorb(Element::from_u64(3), 2);
    match sponge {
        Sponge::Absorbing(buffer) => {
            assert_eq!(buffer, vec![Some(Element::from_u64(3)), None]);
        }
        Sponge::Squeezing(_) => panic!("a fresh sponge absorbs"),
    }
}

#[test]
fn absorb_overflow_runs_one_discarded_round() {
    let domain: ConstantLength<2> = ConstantLength;
    let (round_constants, mds, _) = Pow5T3Sample.constants();

    let mut duplex =
        Duplex::<Pow5T3Sample, ConstantLength<2>>::new(Pow5T3Sample, domain.initial_capacity_element(), domain);
    duplex.absorb(Element::from_u64(5));
    duplex.absorb(Element::from_u64(7));
    duplex.absorb(Element::from_u64(11));
    let out = duplex.squeeze();

    // Reference: run the intermediate round explicitly, discard its output,
    // then the round the squeeze triggers.
    let mut state = vec![
        Element::zero(),
        Element::zero(),
        domain.initial_capacity_element(),
    ];
    let first = vec![Some(Element::from_u64(5)), Some(Element::from_u64(7))];
    domain.pad_and_add(&mut state, &first);
    permute::<Pow5T3Sample>(&mut state, &mds, &round_constants);
    let second = vec![Some(Element::from_u64(11)), None];
    domain.pad_and_add(&mut state, &second);
    permute::<Pow5T3Sample>(&mut state, &mds, &round_constants);
    assert_eq!(out, state[0]);
}

#[test]
fn extended_squeeze_produces_fresh_output() {
    let domain: ConstantLength<2> = ConstantLength;
    let (round_constants, mds, _) = Pow5T3Sample.constants();

    let mut duplex =
        Duplex::<Pow5T3Sample, ConstantLength<2>>::new(Pow5T3Sample, domain.initial_capacity_element(), domain);
    duplex.absorb(Element::from_u64(3));
    duplex.absorb(Element::from_u64(4));
    let out0 = duplex.squeeze();
    let out1 = duplex.squeeze();
    let out2 = duplex.squeeze();

    // Reference: one round serves the first two outputs; the third call
    // triggers a second permutation of the state, with nothing folded in.
    let mut state = vec![
        Element::zero(),
        Element::zero(),
        domain.initial_capacity_element(),
    ];
    let input = vec![Some(Element::from_u64(3)), Some(Element::from_u64(4))];
    domain.pad_and_add(&mut state, &input);
    permute::<Pow5T3Sample>(&mut state, &mds, &round_constants);
    assert_eq!(out0, state[0]);
    assert_eq!(out1, state[1]);
    permute::<Pow5T3Sample>(&mut state, &mds, &round_constants);
    assert_eq!(out2, state[0]);

    // A naive implementation would replay the first buffer instead.
    assert_ne!(out2, out0);
}

#[test]
fn mode_switch_discards_unread_output() {
    let domain: ConstantLength<2> = ConstantLength;
    let (round_constants, mds, _) = Pow5T3Sample.constants();

    let mut duplex =
        Duplex::<Pow5T3Sample, ConstantLength<2>>::new(Pow5T3Sample, domain.initial_capacity_element(), domain);
    duplex.absorb(Element::from_u64(3));
    duplex.absorb(Element::from_u64(4));
    // Squeeze only once: one output stays unread in the buffer.
    let _ = duplex.squeeze();
    duplex.absorb(Element::from_u64(9));
    let out = duplex.squeeze();

    // Reference: the same computation from the post-absorb state, with
    // nothing of the unread output reused.
    let mut state = vec![
        Element::zero(),
        Element::zero(),
        domain.initial_capacity_element(),
    ];
    let first = vec![Some(Element::from_u64(3)), Some(Element::from_u64(4))];
    domain.pad_and_add(&mut state, &first);
    permute::<Pow5T3Sample>(&mut state, &mds, &round_constants);
    let second = vec![Some(Element::from_u64(9)), None];
    domain.pad_and_add(&mut state, &second);
    permute::<Pow5T3Sample>(&mut state, &mds, &round_constants);
    assert_eq!(out, state[0]);
}

#[test]
fn hash_is_reproducible_across_instances() {
    let first = halo2_poseidon::hash::Hash::<Pow5T3Sample, ConstantLength<2>>::init(Pow5T3Sample, ConstantLength)
        .hash(vec![Element::from_u64(6), Element::from_u64(42)]);
    let second = halo2_poseidon::hash::Hash::<Pow5T3Sample, ConstantLength<2>>::init(Pow5T3Sample, ConstantLength)
        .hash(vec![Element::from_u64(6), Element::from_u64(42)]);
    assert_eq!(first, second);

    let other = halo2_poseidon::hash::Hash::<Pow5T3Sample, ConstantLength<2>>::init(Pow5T3Sample, ConstantLength)
        .hash(vec![Element::from_u64(6), Element::from_u64(43)]);
    assert_ne!(first, other);
}

#[test]
fn empty_message_hashes_the_padded_state() {
    let domain: ConstantLength<0> = ConstantLength;
    let (round_constants, mds, _) = Pow5T3Sample.constants();

    let result = halo2_poseidon::hash::Hash::<Pow5T3Sample, ConstantLength<0>>::init(Pow5T3Sample, ConstantLength)
        .hash(vec![]);

    let mut state = vec![
        Element::zero(),
        Element::zero(),
        domain.initial_capacity_element(),
    ];
    permute::<Pow5T3Sample>(&mut state, &mds, &round_constants);
    assert_eq!(result, state[0]);
}

#[test]
fn element_constructors_agree() {
    assert_eq!(Element::from_u64(5), Element::from_u128(5));
    assert_ne!(Element::from_u64(5), Element::from_u64(6));
    assert_eq!(Element::zero(), Element::from_u64(0));
    // (2^13)^5 = 2^65, crossing the u64 boundary.
    assert_eq!(
        <Pow5T3Sample as Spec>::sbox(Element::from_u64(8192)),
        Element::from_u128(36893488147419103232u128)
    );
}
