//! The identities that sign Heddle's macOS bundle.

use vstd::prelude::*;

verus! {

/// Apple Developer Team ID that signs Heddle, used for code signing and signature
/// validation. A staged update must be signed by this team.
pub const APPLE_TEAM_ID: &'static str = "4STAAHTNCN";

/// The upstream vendor's team ID, kept only to locate state written by an earlier build
/// inside the vendor's app group container, so that it can be moved out. Nothing else may
/// use it.
pub const LEGACY_WARP_APP_GROUP_TEAM_ID: &'static str = "2BBY89MBSN";

/// Law: the team an update must be signed by is not the upstream vendor's team, so an
/// update signed by the vendor is never accepted as one of Heddle's.
pub proof fn lemma_signing_team_is_not_the_vendors()
    ensures
        APPLE_TEAM_ID@ != LEGACY_WARP_APP_GROUP_TEAM_ID@,
{
    reveal_strlit("4STAAHTNCN");
    reveal_strlit("2BBY89MBSN");
    assert(APPLE_TEAM_ID@ == "4STAAHTNCN"@);
    assert(LEGACY_WARP_APP_GROUP_TEAM_ID@ == "2BBY89MBSN"@);
    assert("4STAAHTNCN"@[0] != "2BBY89MBSN"@[0]);
}

} // verus!
