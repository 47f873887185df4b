//! The length-bounded byte vectors that organisations and proposals store.

use vstd::prelude::*;
use frame_support::traits::ConstU32;
use frame_support::BoundedVec;

verus! {

#[verifier::external_type_specification]
#[verifier::external_body]
#[verifier::reject_recursive_types(T)]
#[verifier::reject_recursive_types(S)]
pub struct ExBoundedVec<T, S>(BoundedVec<T, S>);

#[verifier::external_type_specification]
#[verifier::external_body]
pub struct ExConstU32<const N: u32>(ConstU32<N>);

/// The bytes that an organisation's name holds.
pub uninterp spec fn name_bytes(v: BoundedVec<u8, ConstU32<128>>) -> Seq<u8>;

/// `BoundedVec::try_from` with a bound of 128: it succeeds exactly when the
/// vector has at most 128 items, and then holds those items.
#[verifier::external_body]
pub(crate) fn bound_name(v: Vec<u8>) -> (r: Result<BoundedVec<u8, ConstU32<128>>, Vec<u8>>)
    ensures
        r is Ok <==> v@.len() <= 128,
        r matches Ok(b) ==> name_bytes(b) == v@,
        r matches Err(e) ==> e@ == v@,
{
    BoundedVec::try_from(v)
}

/// The bytes that a proposal's details hold.
pub uninterp spec fn detail_bytes(v: BoundedVec<u8, ConstU32<2048>>) -> Seq<u8>;

/// `BoundedVec::try_from` with a bound of 2048: it succeeds exactly when the
/// vector has at most 2048 items, and then holds those items.
#[verifier::external_body]
pub(crate) fn bound_detail(v: Vec<u8>) -> (r: Result<BoundedVec<u8, ConstU32<2048>>, Vec<u8>>)
    ensures
        r is Ok <==> v@.len() <= 2048,
        r matches Ok(b) ==> detail_bytes(b) == v@,
        r matches Err(e) ==> e@ == v@,
{
    BoundedVec::try_from(v)
}

} // verus!
