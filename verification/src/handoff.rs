//! Compose-side payloads of the local-to-cloud conversation handoff.
//!
//! `HandoffLaunchAttachments` carries the attachments of a compose request: those fed to
//! the spawn request, and those restored into the source input on failure.
//! `PendingCloudLaunch` carries the auto-submit payload for `& query` and `/handoff query`.
//! Both are generic over the two attachment kinds.

use vstd::prelude::*;

verus! {

/// The attachments of a handoff compose request.
#[derive(Debug, Clone)]
pub struct HandoffLaunchAttachments<R, D> {
    pub request_attachments: Vec<R>,
    pub display_attachments: Vec<D>,
}

impl<R, D> Default for HandoffLaunchAttachments<R, D> {
    /// No attachments of either kind.
    fn default() -> (r: Self)
        ensures
            r.request_attachments@.len() == 0,
            r.display_attachments@.len() == 0,
    {
        HandoffLaunchAttachments { request_attachments: Vec::new(), display_attachments: Vec::new() }
    }
}

/// The auto-submit payload for `& query` and `/handoff query`. `request_attachments` feed
/// the spawn request while `display_attachments` are restored into the source input on
/// failure.
#[derive(Debug, Clone)]
pub struct PendingCloudLaunch<R, D> {
    pub prompt: String,
    pub attachments: HandoffLaunchAttachments<R, D>,
}

} // verus!
