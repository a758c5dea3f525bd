//! The version check that stands between a downloaded update and its installation.
//!
//! A signature proves who built a bundle, not which release it is: an older release is
//! validly signed too. So the version is read from the downloaded bundle itself and must be
//! strictly newer than the running build. The check fails closed: a version that cannot be
//! read or parsed, on either side, means "do not install".

use vstd::prelude::*;
use crate::version::{parse_spec, version_lt, HeddleVersion};

verus! {

/// Why a staged bundle is refused.
#[derive(Debug, Clone, PartialEq, Eq)]
pub enum BundleVersionError {
    /// The staged bundle's version could not be read.
    UnreadableStagedVersion,
    /// The staged bundle carries a version that is not one of Heddle's.
    UnparseableStagedVersion { version: String },
    /// The running build's own version is not known, so nothing can be proved newer.
    UnknownRunningVersion,
    /// The staged bundle is not newer than the running build.
    NotNewer { running: String, staged: String },
}

/// Checks that the staged bundle, whose version read from its own metadata is
/// `staged_version` (`None` when it could not be read), is strictly newer than the running
/// build, whose version is `running_version`.
pub fn verify_bundle_is_newer(running_version: Option<&str>, staged_version: Option<&str>) -> (r:
    Result<(), BundleVersionError>)
    ensures
        match staged_version {
            None => r == Err::<(), BundleVersionError>(BundleVersionError::UnreadableStagedVersion),
            Some(s) => match parse_spec(s@) {
                None => r matches Err(BundleVersionError::UnparseableStagedVersion { version })
                    && version@ == s@,
                Some(staged) => match running_version {
                    Some(v) if parse_spec(v@) is Some => if version_lt(
                        parse_spec(v@)->0,
                        staged,
                    ) {
                        r is Ok
                    } else {
                        r matches Err(BundleVersionError::NotNewer { running, staged: st })
                            && running@ == v@ && st@ == s@
                    },
                    _ => r == Err::<(), BundleVersionError>(
                        BundleVersionError::UnknownRunningVersion,
                    ),
                },
            },
        },
{
    let staged_text = match staged_version {
        None => return Err(BundleVersionError::UnreadableStagedVersion),
        Some(s) => s,
    };
    let staged = match HeddleVersion::parse(staged_text) {
        None => {
            return Err(BundleVersionError::UnparseableStagedVersion { version: staged_text.to_owned() });
        },
        Some(v) => v,
    };
    let running_text = match running_version {
        None => return Err(BundleVersionError::UnknownRunningVersion),
        Some(v) => v,
    };
    let running = match HeddleVersion::parse(running_text) {
        None => return Err(BundleVersionError::UnknownRunningVersion),
        Some(v) => v,
    };
    if running < staged {
        Ok(())
    } else {
        Err(
            BundleVersionError::NotNewer {
                running: running_text.to_owned(),
                staged: staged_text.to_owned(),
            },
        )
    }
}

} // verus!
