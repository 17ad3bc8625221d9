use vstd::prelude::*;
use substrate_bn::{AffineG1, Fr, Group, G1};
use crate::input::ParticipantMetadata;

verus! {

/// The commitment to a scalar given as 32 big-endian bytes: the generator of
/// the BN254 group G1 times the scalar, as the affine coordinates x then y,
/// each as 32 big-endian bytes.
pub uninterp spec fn commitment_of(scalar: Seq<u8>) -> Seq<u8>;

/// The order of the BN254 group G1, which is the modulus of its scalar field.
pub open spec fn group_order() -> nat {
    21888242871839275222246405745257275088548364400416034343698204186575808495617nat
}

/// The number that `s` writes, most significant byte first.
pub open spec fn be_value(s: Seq<u8>) -> nat
    decreases s.len(),
{
    if s.len() == 0 {
        0
    } else {
        be_value(s.drop_last()) * 256 + s.last() as nat
    }
}

/// Relies on substrate_bn's `Fr::random`, fed by rand's `thread_rng`, and on
/// `Fr::to_big_endian`: a fresh element of the BN254 scalar field, written as
/// its 32-byte internal representation, which is below the field's modulus.
#[verifier::external_body]
fn draw_scalar() -> (r: Vec<u8>)
    ensures
        r@.len() == 32,
        be_value(r@) < group_order(),
{
    let scalar = Fr::random(&mut rand::thread_rng());
    let mut out = vec![0u8; 32];
    let _ = scalar.to_big_endian(&mut out);
    out
}

/// Relies on substrate_bn: `Fr::from_slice` reads the scalar, `G1::one()` times
/// it, made affine by `AffineG1::from_jacobian`, and `Fq::to_big_endian`
/// writes the two coordinates. For 32 bytes below the group order the point is
/// at infinity, and the result `None`, exactly when the scalar is zero.
#[verifier::external_body]
fn commit_scalar(scalar: &Vec<u8>) -> (r: Option<Vec<u8>>)
    ensures
        r matches Some(c) ==> c@ == commitment_of(scalar@) && c@.len() == 64,
        scalar@.len() == 32 && be_value(scalar@) < group_order() ==> (r is Some <==> be_value(
            scalar@,
        ) != 0),
{
    let fr = Fr::from_slice(scalar).ok()?;
    let point = AffineG1::from_jacobian(G1::one() * fr)?;
    let mut out = vec![0u8; 64];
    point.x().to_big_endian(&mut out[0..32]).ok()?;
    point.y().to_big_endian(&mut out[32..64]).ok()?;
    Some(out)
}

/// Why no commitment came out.
#[derive(PartialEq, Eq, Structural, Clone, Copy, Debug)]
pub enum CommitmentError {
    /// The scalar drawn is zero, which gives no affine point.
    ZeroScalar,
}

/// `c` is the commitment to some nonzero scalar below the group order.
pub open spec fn is_commitment(c: Seq<u8>) -> bool {
    c.len() == 64 && exists|s: Seq<u8>|
        s.len() == 32 && 0 < be_value(s) < group_order() && c == #[trigger] commitment_of(s)
}

/// The commitment to a scalar of 32 bytes below the group order; the zero
/// scalar, and only it, is refused.
pub fn commit_to(scalar: &Vec<u8>) -> (r: Result<Vec<u8>, CommitmentError>)
    requires
        scalar@.len() == 32,
        be_value(scalar@) < group_order(),
    ensures
        r is Err <==> be_value(scalar@) == 0,
        r matches Ok(c) ==> c@ == commitment_of(scalar@) && c@.len() == 64,
        r matches Err(e) ==> e == CommitmentError::ZeroScalar,
{
    match commit_scalar(scalar) {
        Some(c) => Ok(c),
        None => Err(CommitmentError::ZeroScalar),
    }
}

/// A fresh private scalar and the public commitment to it. It fails only where
/// the scalar drawn is zero.
pub fn generate_commitment() -> (r: Result<(Vec<u8>, Vec<u8>), CommitmentError>)
    ensures
        r matches Ok((s, c)) ==> s@.len() == 32 && be_value(s@) < group_order() && be_value(s@)
            != 0 && c@ == commitment_of(s@) && c@.len() == 64,
        r matches Err(e) ==> e == CommitmentError::ZeroScalar,
{
    let scalar = draw_scalar();
    match commit_to(&scalar) {
        Ok(c) => Ok((scalar, c)),
        Err(e) => Err(e),
    }
}

fn fresh_commitment() -> (r: Result<Vec<u8>, CommitmentError>)
    ensures
        r matches Ok(c) ==> is_commitment(c@),
        r matches Err(e) ==> e == CommitmentError::ZeroScalar,
{
    match generate_commitment() {
        Ok((_scalar, c)) => Ok(c),
        Err(e) => Err(e),
    }
}

/// The public commitments of the server and of the two players, each to a
/// fresh scalar that is dropped here. It fails only where a scalar drawn is
/// zero.
pub fn make_metadata() -> (r: Result<ParticipantMetadata, CommitmentError>)
    ensures
        r matches Ok(m) ==> is_commitment(m.server@) && is_commitment(m.player0@)
            && is_commitment(m.player1@),
        r matches Err(e) ==> e == CommitmentError::ZeroScalar,
{
    let server = match fresh_commitment() {
        Ok(c) => c,
        Err(e) => return Err(e),
    };
    let player0 = match fresh_commitment() {
        Ok(c) => c,
        Err(e) => return Err(e),
    };
    let player1 = match fresh_commitment() {
        Ok(c) => c,
        Err(e) => return Err(e),
    };
    Ok(ParticipantMetadata { server, player0, player1 })
}

} // verus!
