//! Whether a harness can be offered as a local child, and why not.
//!
//! The built-in agent needs nothing. A harness that runs as a child process needs its CLI
//! on the user's machine; the Codex child also needs its feature flag. Whether a CLI is
//! installed is asked of the caller, who probes the `PATH`.

use vstd::prelude::*;
use crate::harness::Harness;

verus! {

/// Shown on a local harness whose CLI is missing.
pub const LOCAL_HARNESS_INSTALLATION_REQUIRED_TOOLTIP: &'static str =
    "Install this harness's CLI to use it as a local harness.";

/// Shown on the local OpenCode harness when its CLI is missing.
pub const LOCAL_OPENCODE_HARNESS_INSTALLATION_REQUIRED_TOOLTIP: &'static str =
    "Install OpenCode to use this local harness.";

/// Shown on the local Codex harness when its CLI is missing.
pub const LOCAL_CODEX_HARNESS_INSTALLATION_REQUIRED_TOOLTIP: &'static str =
    "Install Codex to use this local harness.";

/// Why the local Codex harness is refused while its feature flag is off.
pub const LOCAL_CODEX_HARNESS_DISABLED_MESSAGE: &'static str =
    "Local Codex child harnesses are not enabled in this build.";

/// Why a harness that cannot run as a local child is refused.
pub const LOCAL_HARNESS_UNSUPPORTED_MESSAGE: &'static str =
    "This harness cannot run as a local child.";

/// Whether a harness can be offered as a local child.
#[derive(Debug, Clone, Copy, PartialEq, Eq)]
pub enum LocalHarnessSetupState {
    /// It can be launched.
    Ready,
    /// Its CLI is not installed; `tooltip` says what to install.
    MissingHarness { tooltip: &'static str },
    /// The product does not offer it; `message` says why.
    ProductDisabled { message: &'static str },
}

/// Whether the state of `h` depends on its CLI being installed, with the Codex child's
/// flag at `codex_enabled`.
pub open spec fn probes_cli(h: Harness, codex_enabled: bool) -> bool {
    match h {
        Harness::Claude | Harness::OpenCode => true,
        Harness::Codex => codex_enabled,
        _ => false,
    }
}

/// The setup state of `h`, with the Codex child's flag at `codex_enabled`, when its CLI
/// is (`installed`) or is not installed.
pub open spec fn setup_state(h: Harness, codex_enabled: bool, installed: bool) -> LocalHarnessSetupState {
    match h {
        Harness::Oz => LocalHarnessSetupState::Ready,
        Harness::Claude => if installed {
            LocalHarnessSetupState::Ready
        } else {
            LocalHarnessSetupState::MissingHarness { tooltip: LOCAL_HARNESS_INSTALLATION_REQUIRED_TOOLTIP }
        },
        Harness::OpenCode => if installed {
            LocalHarnessSetupState::Ready
        } else {
            LocalHarnessSetupState::MissingHarness {
                tooltip: LOCAL_OPENCODE_HARNESS_INSTALLATION_REQUIRED_TOOLTIP,
            }
        },
        Harness::Codex => if !codex_enabled {
            LocalHarnessSetupState::ProductDisabled { message: LOCAL_CODEX_HARNESS_DISABLED_MESSAGE }
        } else if installed {
            LocalHarnessSetupState::Ready
        } else {
            LocalHarnessSetupState::MissingHarness {
                tooltip: LOCAL_CODEX_HARNESS_INSTALLATION_REQUIRED_TOOLTIP,
            }
        },
        Harness::Gemini | Harness::Unknown => LocalHarnessSetupState::ProductDisabled {
            message: LOCAL_HARNESS_UNSUPPORTED_MESSAGE,
        },
    }
}

/// The setup state of `harness` as a local child, with the Codex child's flag at
/// `local_codex_enabled`. `cli_installed` says whether a harness's CLI is installed; it is
/// asked about `harness` alone, and only when the answer matters.
pub fn local_harness_setup_state_with_cli_resolver<F: Fn(Harness) -> bool>(
    harness: Harness,
    local_codex_enabled: bool,
    cli_installed: F,
) -> (r: LocalHarnessSetupState)
    requires
        call_requires(cli_installed, (harness,)),
    ensures
        probes_cli(harness, local_codex_enabled) ==> exists|installed: bool|
            #[trigger] call_ensures(cli_installed, (harness,), installed) && r == setup_state(
                harness,
                local_codex_enabled,
                installed,
            ),
        !probes_cli(harness, local_codex_enabled) ==> r == setup_state(
            harness,
            local_codex_enabled,
            false,
        ),
{
    match harness {
        Harness::Oz => LocalHarnessSetupState::Ready,
        Harness::Claude => {
            let installed = cli_installed(harness);
            if installed {
                LocalHarnessSetupState::Ready
            } else {
                LocalHarnessSetupState::MissingHarness {
                    tooltip: LOCAL_HARNESS_INSTALLATION_REQUIRED_TOOLTIP,
                }
            }
        },
        Harness::OpenCode => {
            let installed = cli_installed(harness);
            if installed {
                LocalHarnessSetupState::Ready
            } else {
                LocalHarnessSetupState::MissingHarness {
                    tooltip: LOCAL_OPENCODE_HARNESS_INSTALLATION_REQUIRED_TOOLTIP,
                }
            }
        },
        Harness::Codex => {
            if !local_codex_enabled {
                return LocalHarnessSetupState::ProductDisabled {
                    message: LOCAL_CODEX_HARNESS_DISABLED_MESSAGE,
                };
            }
            let installed = cli_installed(harness);
            if installed {
                LocalHarnessSetupState::Ready
            } else {
                LocalHarnessSetupState::MissingHarness {
                    tooltip: LOCAL_CODEX_HARNESS_INSTALLATION_REQUIRED_TOOLTIP,
                }
            }
        },
        Harness::Gemini | Harness::Unknown => LocalHarnessSetupState::ProductDisabled {
            message: LOCAL_HARNESS_UNSUPPORTED_MESSAGE,
        },
    }
}

/// Law: a product-disabled harness is refused whatever is installed, and a harness whose
/// CLI is probed is ready exactly when the CLI is installed.
pub proof fn lemma_ready_iff_installed(h: Harness, codex_enabled: bool, installed: bool)
    ensures
        probes_cli(h, codex_enabled) ==> (setup_state(h, codex_enabled, installed)
            is Ready <==> installed),
        !probes_cli(h, codex_enabled) ==> setup_state(h, codex_enabled, installed) == setup_state(
            h,
            codex_enabled,
            !installed,
        ),
        setup_state(h, codex_enabled, installed) is ProductDisabled ==> !probes_cli(
            h,
            codex_enabled,
        ),
{
}

} // verus!
