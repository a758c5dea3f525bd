//! Where the release manifest is read from, if it may be read at all.
//!
//! Heddle publishes a release manifest with every GitHub release. Consent gates the whole
//! operation: without an explicit yes nothing is read, not even a local file. With consent,
//! a local path named in the environment replaces the download; a leading `~` in it stands
//! for the user's home directory, which the caller passes in.

use vstd::prelude::*;
use crate::text::str_eq;
use crate::update_consent::UpdateConsent;
use crate::version::{parse_spec, HeddleVersion};

verus! {

/// Where Heddle publishes its release manifest: GitHub resolves
/// `releases/latest/download/<asset>` to the asset of the current release.
pub const MANIFEST_URL: &'static str =
    "https://github.com/nikolaypaskov/heddle/releases/latest/download/channel_versions.json";

/// The environment variable that points the fetch at a local manifest file instead.
pub const LOCAL_MANIFEST_PATH_VAR: &'static str = "HEDDLE_CHANNEL_VERSIONS_PATH";

/// Where the manifest is to be read from.
#[derive(Debug, Clone, PartialEq, Eq)]
pub enum ManifestSource {
    /// No check is permitted. This is no failure.
    NotPermitted,
    /// Read the manifest from this file.
    LocalFile { path: String },
    /// Download the manifest from this URL.
    Remote { url: String },
}

/// `input` with a leading `~` that stands alone or is followed by `/` replaced by `home`,
/// when a home directory is known; any other path, `~user` among them, unchanged.
pub open spec fn tilde_expanded(input: Seq<char>, home: Option<Seq<char>>) -> Seq<char> {
    if input.len() > 0 && input[0] == '~' && (input.len() == 1 || input[1] == '/') {
        match home {
            Some(h) => h + input.skip(1),
            None => input,
        }
    } else {
        input
    }
}

/// Whether a path starts with `~\`, which is expanded on Windows only.
pub open spec fn starts_with_tilde_backslash(input: Seq<char>) -> bool {
    input.len() > 1 && input[0] == '~' && input[1] == '\\'
}

/// Whether `out` is the tilde expansion of `input` with the home directory `home`: exactly
/// `tilde_expanded`, except that `~\` is expanded on Windows and kept elsewhere.
pub open spec fn tilde_outcome(input: Seq<char>, home: Option<Seq<char>>, out: Seq<char>) -> bool {
    if starts_with_tilde_backslash(input) {
        out == input || (home matches Some(h) && out == h + input.skip(1))
    } else {
        out == tilde_expanded(input, home)
    }
}

/// The model of an optional string.
pub open spec fn opt_view(s: Option<String>) -> Option<Seq<char>> {
    match s {
        Some(v) => Some(v@),
        None => None,
    }
}

/// Expands a leading `~` in `path` to `home` with `shellexpand::tilde_with_context`.
///
/// Trusted: the contract restates that function's source: a bare `~` or `~/...` becomes
/// the home directory followed by the rest when one is given and stays as it is otherwise;
/// `~\...` does the same on Windows only; every other path comes back unchanged.
#[verifier::external_body]
fn expand_tilde(path: &str, home: &Option<String>) -> (r: String)
    ensures
        tilde_outcome(path@, opt_view(*home), r@),
{
    shellexpand::tilde_with_context(path, || home.as_deref()).into_owned()
}

/// Decides where the release manifest is read from. Without consent nothing is read,
/// whatever the environment names; with it, `local_override` (the value of
/// `LOCAL_MANIFEST_PATH_VAR`, if set) is read with a leading `~` standing for `home` (the
/// user's home directory, if known), and otherwise the manifest is downloaded from
/// `MANIFEST_URL`.
pub fn manifest_source(
    consent: UpdateConsent,
    local_override: Option<String>,
    home: Option<String>,
) -> (r: ManifestSource)
    ensures
        consent != UpdateConsent::Enabled ==> r == ManifestSource::NotPermitted,
        consent == UpdateConsent::Enabled ==> match local_override {
            Some(p) => r matches ManifestSource::LocalFile { path } && tilde_outcome(
                p@,
                opt_view(home),
                path@,
            ),
            None => r matches ManifestSource::Remote { url } && url@ == MANIFEST_URL@,
        },
{
    if !consent.should_check() {
        return ManifestSource::NotPermitted;
    }
    match local_override {
        Some(p) => ManifestSource::LocalFile { path: expand_tilde(p.as_str(), &home) },
        None => ManifestSource::Remote { url: MANIFEST_URL.to_owned() },
    }
}

/// One channel of the release manifest: its name (`stable`, `preview`, `dev`) and the
/// version text it offers.
#[derive(Clone, Debug)]
pub struct ChannelEntry {
    pub channel: String,
    pub version: String,
}

/// The release manifest: what each channel offers, in the order the manifest lists them.
#[derive(Clone, Debug)]
pub struct ChannelVersions {
    pub channels: Vec<ChannelEntry>,
}

/// The position of the first entry of `entries` for `channel`, if any.
pub open spec fn first_entry_for(entries: Seq<ChannelEntry>, channel: Seq<char>) -> Option<int> {
    if exists|i: int| 0 <= i < entries.len() && entries[i].channel@ == channel {
        Some(
            choose|i: int|
                0 <= i < entries.len() && entries[i].channel@ == channel && forall|j: int|
                    0 <= j < i ==> entries[j].channel@ != channel,
        )
    } else {
        None
    }
}

impl ChannelVersions {
    /// The version `channel` offers: that of its first entry, read as a Heddle version.
    /// `None` when the manifest has no such channel, or its version text does not parse.
    pub fn offered_version(&self, channel: &str) -> (r: Option<HeddleVersion>)
        ensures
            match first_entry_for(self.channels@, channel@) {
                None => r is None,
                Some(i) => match parse_spec(self.channels@[i].version@) {
                    None => r is None,
                    Some(v) => r matches Some(x) && x@ == v,
                },
            },
    {
        let mut k: usize = 0;
        while k < self.channels.len()
            invariant
                k <= self.channels@.len(),
                forall|j: int| 0 <= j < k ==> self.channels@[j].channel@ != channel@,
            decreases self.channels@.len() - k,
        {
            if str_eq(self.channels[k].channel.as_str(), channel) {
                proof {
                    let i = first_entry_for(self.channels@, channel@)->0;
                    assert(0 <= k < self.channels@.len() && self.channels@[k as int].channel@
                        == channel@);
                    if i < k {
                        assert(self.channels@[i].channel@ != channel@);
                    }
                    if i > k {
                        assert(self.channels@[k as int].channel@ != channel@);
                    }
                }
                return HeddleVersion::parse(self.channels[k].version.as_str());
            }
            k = k + 1;
        }
        None
    }
}

} // verus!
