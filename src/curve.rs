//! The group that the scheme works in: the prime-order subgroup of the Edwards
//! BLS12 curve, with its scalar field, as snarkVM's console types provide them.
//!
//! Elements and scalars cross this module as their canonical little-endian
//! encodings (32 bytes each), so that contracts can speak of them as byte
//! sequences. The curve arithmetic itself stays with snarkVM: each operation
//! below is a thin wrapper, and its result is named by an uninterpreted spec
//! function together with the algebraic facts that the scheme relies on.
use snarkvm::console::network::{MainnetV0, Network};
use snarkvm::console::prelude::{FromBytes, ToBytes, Zero};
use snarkvm::console::types::{Field, Group, Scalar};
use vstd::prelude::*;

verus! {

/// Length in bytes of the canonical encoding of an element or of a scalar.
pub const ENCODED_LEN: usize = 32;

/// Whether the bytes decode to an element of the prime-order subgroup.
pub uninterp spec fn decodes_as_element(b: Seq<u8>) -> bool;

/// Whether the bytes decode to a scalar (an integer below the group order).
pub uninterp spec fn decodes_as_scalar(b: Seq<u8>) -> bool;

/// The encoding of the sum of two elements.
pub uninterp spec fn element_sum(a: Seq<u8>, b: Seq<u8>) -> Seq<u8>;

/// The encoding of the difference of two elements.
pub uninterp spec fn element_difference(a: Seq<u8>, b: Seq<u8>) -> Seq<u8>;

/// The encoding of the element `p` multiplied by the scalar `k`.
pub uninterp spec fn scaled(k: Seq<u8>, p: Seq<u8>) -> Seq<u8>;

/// Whether the element is the identity of the group.
pub uninterp spec fn is_identity_element(p: Seq<u8>) -> bool;

/// The scalar that a shared element and an index hash to.
pub uninterp spec fn mask_scalar_of(shared: Seq<u8>, index: int) -> Seq<u8>;

/// A canonical encoding of a group element.
pub open spec fn is_element(b: Seq<u8>) -> bool {
    b.len() == ENCODED_LEN && decodes_as_element(b)
}

/// A canonical encoding of a scalar.
pub open spec fn is_scalar(b: Seq<u8>) -> bool {
    b.len() == ENCODED_LEN && decodes_as_scalar(b)
}

/// Relies on `Group::from_bytes_le` of snarkVM's console types: it reads an
/// x-coordinate and succeeds only for a point of the prime-order subgroup.
#[verifier::external_body]
fn element_decodes(b: &[u8]) -> (r: bool)
    ensures
        r == decodes_as_element(b@),
{
    Group::<MainnetV0>::from_bytes_le(b).is_ok()
}

/// Relies on `Scalar::from_bytes_le` of snarkVM's console types: it succeeds
/// only for an integer below the scalar field's modulus.
#[verifier::external_body]
fn scalar_decodes(b: &[u8]) -> (r: bool)
    ensures
        r == decodes_as_scalar(b@),
{
    Scalar::<MainnetV0>::from_bytes_le(b).is_ok()
}

/// Whether `b` is the canonical encoding of a group element.
pub fn is_valid_element(b: &[u8]) -> (r: bool)
    ensures
        r == is_element(b@),
{
    b.len() == ENCODED_LEN && element_decodes(b)
}

/// Whether `b` is the canonical encoding of a scalar.
pub fn is_valid_scalar(b: &[u8]) -> (r: bool)
    ensures
        r == is_scalar(b@),
{
    b.len() == ENCODED_LEN && scalar_decodes(b)
}

/// Relies on the addition of snarkVM's console `Group`: the sum is again a
/// subgroup element, and subtracting the second summand gives back the first.
#[verifier::external_body]
pub(crate) fn add_elements(a: &[u8], b: &[u8]) -> (r: Vec<u8>)
    requires
        is_element(a@),
        is_element(b@),
    ensures
        r@ == element_sum(a@, b@),
        is_element(r@),
        element_difference(r@, b@) == a@,
{
    let a = Group::<MainnetV0>::from_bytes_le(a).unwrap();
    let b = Group::<MainnetV0>::from_bytes_le(b).unwrap();
    (a + b).to_bytes_le().unwrap()
}

/// Relies on the subtraction of snarkVM's console `Group`: the difference is
/// again a subgroup element.
#[verifier::external_body]
pub(crate) fn sub_elements(a: &[u8], b: &[u8]) -> (r: Vec<u8>)
    requires
        is_element(a@),
        is_element(b@),
    ensures
        r@ == element_difference(a@, b@),
        is_element(r@),
{
    let a = Group::<MainnetV0>::from_bytes_le(a).unwrap();
    let b = Group::<MainnetV0>::from_bytes_le(b).unwrap();
    (a - b).to_bytes_le().unwrap()
}

/// Relies on the scalar multiplication of snarkVM's console `Group`: the
/// product is a subgroup element, and multiplications by two scalars commute
/// (`j * (k * p) == k * (j * p)`).
#[verifier::external_body]
pub(crate) fn scale_element(k: &[u8], p: &[u8]) -> (r: Vec<u8>)
    requires
        is_scalar(k@),
        is_element(p@),
    ensures
        r@ == scaled(k@, p@),
        is_element(r@),
        forall|j: Seq<u8>| is_scalar(j) ==> #[trigger] scaled(j, r@) == scaled(k@, scaled(j, p@)),
{
    let k = Scalar::<MainnetV0>::from_bytes_le(k).unwrap();
    let p = Group::<MainnetV0>::from_bytes_le(p).unwrap();
    (p * k).to_bytes_le().unwrap()
}

/// Relies on `Group::is_zero` of snarkVM's console types.
#[verifier::external_body]
pub(crate) fn is_identity(p: &[u8]) -> (r: bool)
    requires
        is_element(p@),
    ensures
        r == is_identity_element(p@),
{
    Group::<MainnetV0>::from_bytes_le(p).unwrap().is_zero()
}

/// Relies on `Network::hash_to_scalar_psd2` of snarkVM's mainnet, a Poseidon
/// hash onto the scalar field, applied to the shared element's x-coordinate
/// and the index. It never fails, and its result depends on the inputs alone.
#[verifier::external_body]
pub(crate) fn mask_scalar(shared: &[u8], index: u64) -> (r: Vec<u8>)
    requires
        is_element(shared@),
    ensures
        r@ == mask_scalar_of(shared@, index as int),
        is_scalar(r@),
{
    let x = Field::<MainnetV0>::from_bytes_le(shared).unwrap();
    let input = [x, Field::<MainnetV0>::from_u64(index)];
    MainnetV0::hash_to_scalar_psd2(&input).unwrap().to_bytes_le().unwrap()
}

} // verus!
