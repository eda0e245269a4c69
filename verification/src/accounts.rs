//! Custody accounts: one account per project, derived from the identifier of
//! the engine and the project's key.
use crate::types::{AccountId, ProjectKey};
use frame_support::PalletId;
use frame_support::sp_runtime::traits::AccountIdConversion;
use vstd::prelude::*;

verus! {

/// The identifier under which an engine holds funds.
pub type PalletIdBytes = [u8; 8];

/// The bytes of the sub-account that sp-runtime derives from a pallet
/// identifier and the seed `"//"` followed by the decimal digits of `key`.
pub uninterp spec fn sub_account(pallet_id: PalletIdBytes, key: ProjectKey) -> [u8; 32];

/// `PalletId::into_sub_account_truncating` of frame-support and sp-runtime, on
/// a 32-byte account and the seed `format!("//{key}")`.
///
/// The outside function encodes the type tag, the identifier and the seed, and
/// decodes an account from those bytes followed by zeroes; it depends on its
/// arguments alone, which is all that the contract claims.
#[verifier::external_body]
fn into_sub_account(pallet_id: PalletIdBytes, key: ProjectKey) -> (bytes: [u8; 32])
    ensures
        bytes == sub_account(pallet_id, key),
{
    PalletId(pallet_id).into_sub_account_truncating(format!("//{key}"))
}

/// The custody account of project `key` under the engine `pallet_id`.
pub open spec fn project_account(pallet_id: PalletIdBytes, key: ProjectKey) -> AccountId {
    AccountId { bytes: sub_account(pallet_id, key) }
}

/// The custody account of project `key` under the engine `pallet_id`.
pub fn derive_project_account(pallet_id: PalletIdBytes, key: ProjectKey) -> (account: AccountId)
    ensures
        account == project_account(pallet_id, key),
{
    AccountId::new(into_sub_account(pallet_id, key))
}

} // verus!
