//! Steam IDs, as the `steamid_ng` crate packs and unpacks them.
use vstd::prelude::*;

verus! {

/// The 64-bit Steam ID of an individual account in the public universe on the desktop
/// instance: `account_id | 1 << 32 | 1 << 52 | 1 << 56`.
pub open spec fn individual_steamid(account_id: u32) -> u64 {
    (account_id as int + 76561197960265728) as u64
}

/// Builds the Steam ID of an individual account from its account ID.
///
/// Calls `steamid_ng::SteamID::new` with the desktop instance, the individual account type and
/// the public universe, and converts the result with `u64::from`. The source of `SteamID::new`
/// packs the account ID in the low 32 bits, the instance (1) from bit 32, the account type (1)
/// from bit 52 and the universe (1) from bit 56, which the contract states.
#[verifier::external_body]
pub(crate) fn steamid_from_account_id(account_id: u32) -> (res: u64)
    ensures
        res == individual_steamid(account_id),
{
    u64::from(
        steamid_ng::SteamID::new(
            account_id,
            steamid_ng::Instance::Desktop,
            steamid_ng::AccountType::Individual,
            steamid_ng::Universe::Public,
        ),
    )
}

/// The account ID of a 64-bit Steam ID: its low 32 bits.
pub open spec fn account_id_spec(steamid: u64) -> u32 {
    (steamid % 0x1_0000_0000) as u32
}

/// The account ID of a Steam ID.
///
/// Calls `steamid_ng::SteamID::account_id` on `SteamID::from(steamid)`; its source masks the
/// low 32 bits, which the contract states.
#[verifier::external_body]
pub(crate) fn account_id(steamid: u64) -> (res: u32)
    ensures
        res == account_id_spec(steamid),
{
    steamid_ng::SteamID::from(steamid).account_id()
}


/// The account ID of the Steam ID built from an account ID is that account ID.
pub proof fn law_account_id_round_trip(account_id: u32)
    ensures
        account_id_spec(individual_steamid(account_id)) == account_id,
{
    let x = account_id as int + 76561197960265728;
    assert(x < 0x1_0000_0000_0000_0000);
    assert(76561197960265728 == 17825793 * 0x1_0000_0000);
    assert(x % 0x1_0000_0000 == account_id) by (nonlinear_arith)
        requires
            x == account_id + 17825793 * 0x1_0000_0000,
            0 <= account_id < 0x1_0000_0000,
    ;
}

} // verus!
