//! The prime field the sponge works over: the base field of the Pallas
//! curve. An element is held as its canonical 32-byte little-endian
//! encoding, and is read in specifications as the integer those bytes
//! denote, always below the modulus.

use group::ff::PrimeField;
use vstd::prelude::*;

verus! {

/// The modulus of the field.
pub open spec fn p() -> nat {
    0x40000000000000000000000000000000224698fc094cf91b992d30ed00000001nat
}

/// Addition in the field, on elements read as integers.
pub open spec fn add_p(a: nat, b: nat) -> nat {
    (a + b) % p()
}

/// Multiplication in the field, on elements read as integers.
pub open spec fn mul_p(a: nat, b: nat) -> nat {
    (a * b) % p()
}

/// The integer a little-endian byte string denotes.
spec fn le_bytes_to_nat(s: Seq<u8>) -> nat
    decreases s.len(),
{
    if s.len() == 0 {
        0
    } else {
        s[0] as nat + 256 * le_bytes_to_nat(s.drop_first())
    }
}

/// A field element, stored as its canonical little-endian encoding.
#[derive(Clone, Copy, PartialEq, Eq, Debug)]
pub struct Element {
    bytes: [u8; 32],
}

impl View for Element {
    type V = nat;

    closed spec fn view(&self) -> nat {
        le_bytes_to_nat(self.bytes@)
    }
}

/// Relies on `pasta_curves::Fp`: `from_repr` accepts exactly the canonical
/// little-endian bytes of an integer below the modulus, `+` adds in the
/// field, and `to_repr` returns the canonical bytes of the result.
#[verifier::external_body]
pub(crate) fn fp_add(a: Element, b: Element) -> (r: Element)
    requires
        a@ < p(),
        b@ < p(),
    ensures
        r@ == add_p(a@, b@),
        r@ < p(),
{
    let x = pasta_curves::Fp::from_repr(a.bytes).unwrap();
    let y = pasta_curves::Fp::from_repr(b.bytes).unwrap();
    Element { bytes: (x + y).to_repr() }
}

/// Relies on `pasta_curves::Fp`: as `fp_add`, with `*` multiplying in the
/// field.
#[verifier::external_body]
pub(crate) fn fp_mul(a: Element, b: Element) -> (r: Element)
    requires
        a@ < p(),
        b@ < p(),
    ensures
        r@ == mul_p(a@, b@),
        r@ < p(),
{
    let x = pasta_curves::Fp::from_repr(a.bytes).unwrap();
    let y = pasta_curves::Fp::from_repr(b.bytes).unwrap();
    Element { bytes: (x * y).to_repr() }
}

/// Relies on `pasta_curves::Fp`: `From<u64>` embeds the integer into the
/// field, and the modulus is above `u64::MAX`, so the value is kept exactly;
/// `to_repr` returns its canonical bytes.
#[verifier::external_body]
pub(crate) fn fp_from_u64(x: u64) -> (r: Element)
    ensures
        r@ == x as nat,
        r@ < p(),
{
    Element { bytes: pasta_curves::Fp::from(x).to_repr() }
}

/// Relies on `pasta_curves::Fp::from_u128`: embeds a 128-bit integer into
/// the field; the modulus is above `2^128`, so the value is kept exactly.
/// `to_repr` returns its canonical bytes.
#[verifier::external_body]
pub(crate) fn fp_from_u128(x: u128) -> (r: Element)
    ensures
        r@ == x as nat,
        r@ < p(),
{
    Element { bytes: pasta_curves::Fp::from_u128(x).to_repr() }
}

impl Element {
    /// The element denoting the given 64-bit integer.
    pub fn from_u64(x: u64) -> (r: Element)
        ensures
            r@ == x as nat,
            r@ < p(),
    {
        fp_from_u64(x)
    }

    /// The element denoting the given 128-bit integer.
    pub fn from_u128(x: u128) -> (r: Element)
        ensures
            r@ == x as nat,
            r@ < p(),
    {
        fp_from_u128(x)
    }

    /// The additive identity.
    pub fn zero() -> (r: Element)
        ensures
            r@ == 0,
    {
        fp_from_u64(0)
    }
}

/// The integer values of a sequence of elements.
pub open spec fn vals(s: Seq<Element>) -> Seq<nat> {
    s.map_values(|e: Element| e@)
}

/// The integer values under the set slots of a buffer.
pub open spec fn opt_vals(s: Seq<Option<Element>>) -> Seq<Option<nat>> {
    s.map_values(
        |o: Option<Element>|
            match o {
                Some(e) => Some(e@),
                None => None,
            },
    )
}

/// The integer values of a table of elements, row by row.
pub open spec fn vals2(m: Seq<Vec<Element>>) -> Seq<Seq<nat>> {
    m.map_values(|row: Vec<Element>| vals(row@))
}

/// Reading a table of elements commutes with indexing.
pub broadcast proof fn lemma_vals2_index(m: Seq<Vec<Element>>, i: int)
    requires
        0 <= i < m.len(),
    ensures
        #![trigger vals2(m)[i]]
        #![trigger m[i]@]
        vals2(m)[i] == vals(m[i]@),
{
}

/// Reading a sequence of elements commutes with indexing.
pub broadcast proof fn lemma_vals_index(s: Seq<Element>, i: int)
    requires
        0 <= i < s.len(),
    ensures
        #![trigger vals(s)[i]]
        #![trigger s[i]@]
        vals(s)[i] == s[i]@,
{
}

/// Reading a buffer of optional elements commutes with indexing.
pub broadcast proof fn lemma_opt_vals_index(s: Seq<Option<Element>>, i: int)
    requires
        0 <= i < s.len(),
    ensures
        #![trigger opt_vals(s)[i]]
        #![trigger s[i]]
        opt_vals(s)[i] == match s[i] {
            Some(e) => Some(e@),
            None => None,
        },
{
}

/// Every entry is below the modulus.
pub open spec fn wf_state(s: Seq<nat>) -> bool {
    forall|i: int| 0 <= i < s.len() ==> s[i] < p()
}

/// Every set entry is below the modulus.
pub open spec fn wf_opts(s: Seq<Option<nat>>) -> bool {
    forall|i: int| 0 <= i < s.len() ==> (#[trigger] s[i] matches Some(v) ==> v < p())
}

} // verus!
