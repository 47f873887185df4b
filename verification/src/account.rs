//! The treasury account of an organisation.

use vstd::prelude::*;
use frame_support::PalletId;
use sp_runtime::traits::AccountIdConversion;
use sp_runtime::AccountId32;
use crate::types::AccountId;
use vstd::arithmetic::div_mod::lemma_fundamental_div_mod;

verus! {

/// The account whose 32 bytes are `b"modl"`, the eight bytes of the pallet
/// id, the eight little-endian bytes of the organisation id and twelve
/// zeros.
pub open spec fn org_treasury(pallet_id: Seq<u8>, org_id: u64) -> AccountId {
    (
        (0x6c64_6f6d
            + pallet_id[0] * 0x1_0000_0000
            + pallet_id[1] * 0x100_0000_0000
            + pallet_id[2] * 0x1_0000_0000_0000
            + pallet_id[3] * 0x100_0000_0000_0000
            + pallet_id[4] * 0x1_0000_0000_0000_0000
            + pallet_id[5] * 0x100_0000_0000_0000_0000
            + pallet_id[6] * 0x1_0000_0000_0000_0000_0000
            + pallet_id[7] * 0x100_0000_0000_0000_0000_0000
            + (org_id % 0x1_0000_0000) * 0x1_0000_0000_0000_0000_0000_0000) as u128,
        (org_id / 0x1_0000_0000) as u128,
    )
}

/// `PalletId::into_sub_account_truncating(org_id)` into a 32-byte
/// `AccountId32`, given as the little-endian values of its two halves. The
/// seed is `b"modl"`, the eight bytes of the pallet id and the eight
/// little-endian bytes of the organisation id; the account is decoded from
/// it, padded with zeros.
#[verifier::external_body]
pub(crate) fn pallet_sub_account(pallet_id: [u8; 8], org_id: u64) -> (r: AccountId)
    ensures
        r == org_treasury(pallet_id@, org_id),
{
    let account: AccountId32 = PalletId(pallet_id).into_sub_account_truncating(org_id);
    let bytes: [u8; 32] = account.into();
    let mut low = [0u8; 16];
    let mut high = [0u8; 16];
    low.copy_from_slice(&bytes[..16]);
    high.copy_from_slice(&bytes[16..]);
    (u128::from_le_bytes(low), u128::from_le_bytes(high))
}

/// Different organisations have different treasuries.
pub proof fn treasuries_are_distinct(pallet_id: Seq<u8>, a: u64, b: u64)
    requires
        a != b,
    ensures
        org_treasury(pallet_id, a) != org_treasury(pallet_id, b),
{
    let base: int = 0x6c64_6f6d
        + pallet_id[0] * 0x1_0000_0000
        + pallet_id[1] * 0x100_0000_0000
        + pallet_id[2] * 0x1_0000_0000_0000
        + pallet_id[3] * 0x100_0000_0000_0000
        + pallet_id[4] * 0x1_0000_0000_0000_0000
        + pallet_id[5] * 0x100_0000_0000_0000_0000
        + pallet_id[6] * 0x1_0000_0000_0000_0000_0000
        + pallet_id[7] * 0x100_0000_0000_0000_0000_0000;
    let w: int = 0x1_0000_0000;
    let top: int = 0x1_0000_0000_0000_0000_0000_0000;
    assert(0 <= base < top);
    let la = a as int % w;
    let lb = b as int % w;
    lemma_fundamental_div_mod(a as int, w);
    lemma_fundamental_div_mod(b as int, w);
    assert(0 <= la < w && 0 <= lb < w);
    assert(0 <= la * top <= (w - 1) * top) by (nonlinear_arith)
        requires
            0 <= la < w,
            top > 0,
    ;
    assert(0 <= lb * top <= (w - 1) * top) by (nonlinear_arith)
        requires
            0 <= lb < w,
            top > 0,
    ;
    if org_treasury(pallet_id, a) == org_treasury(pallet_id, b) {
        assert(base + la * top == base + lb * top);
        assert(la == lb) by (nonlinear_arith)
            requires
                la * top == lb * top,
                top > 0,
        ;
        assert(a as int / w == b as int / w);
    }
}

} // verus!
