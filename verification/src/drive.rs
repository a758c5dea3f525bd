//! Drive settings.
//!
//! Drive holds the user's locally stored workflows, notebooks, prompts and env-var
//! collections. Whether it is shown is the user's setting and nothing else: there is no
//! account whose absence could hide it.

use vstd::prelude::*;

verus! {

/// The Drive settings group.
#[derive(Debug, Clone, Copy)]
pub struct WarpDriveSettings {
    /// Whether Drive appears in the tools panel, command palette, and command search.
    pub enable_warp_drive: bool,
    /// Whether the sharing onboarding block has been shown.
    pub sharing_onboarding_block_shown: bool,
}

impl WarpDriveSettings {
    /// Whether Drive should be considered enabled: exactly the user's setting.
    pub fn is_warp_drive_enabled(&self) -> (r: bool)
        ensures
            r == self.enable_warp_drive,
    {
        self.enable_warp_drive
    }
}

impl Default for WarpDriveSettings {
    /// The defaults of the group: Drive is on, and the sharing onboarding block has not
    /// been shown.
    fn default() -> (r: Self)
        ensures
            r.enable_warp_drive,
            !r.sharing_onboarding_block_shown,
    {
        WarpDriveSettings { enable_warp_drive: true, sharing_onboarding_block_shown: false }
    }
}

} // verus!
