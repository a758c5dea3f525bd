use heddle::harness::Harness;
use heddle::local_harness_setup::{
    local_harness_setup_state_with_cli_resolver, LocalHarnessSetupState,
    LOCAL_CODEX_HARNESS_DISABLED_MESSAGE, LOCAL_CODEX_HARNESS_INSTALLATION_REQUIRED_TOOLTIP,
    LOCAL_HARNESS_INSTALLATION_REQUIRED_TOOLTIP, LOCAL_HARNESS_UNSUPPORTED_MESSAGE,
    LOCAL_OPENCODE_HARNESS_INSTALLATION_REQUIRED_TOOLTIP,
};

/// The Codex child's feature flag as a default build has it.
const CODEX_FLAG_DEFAULT: bool = false;
/// The Codex child's feature flag, turned on.
const CODEX_FLAG_ON: bool = true;

#[test]
fn claude_is_product_enabled_when_cli_is_installed() {
    assert_eq!(
        local_harness_setup_state_with_cli_resolver(Harness::Claude, CODEX_FLAG_DEFAULT, |_| true),
        LocalHarnessSetupState::Ready
    );
}

#[test]
fn claude_is_disabled_for_missing_cli() {
    assert_eq!(
        local_harness_setup_state_with_cli_resolver(Harness::Claude, CODEX_FLAG_DEFAULT, |_| false),
        LocalHarnessSetupState::MissingHarness {
            tooltip: LOCAL_HARNESS_INSTALLATION_REQUIRED_TOOLTIP,
        }
    );
}

#[test]
fn codex_is_enabled_when_flag_is_on() {
    assert_eq!(
        local_harness_setup_state_with_cli_resolver(Harness::Codex, CODEX_FLAG_ON, |_| true),
        LocalHarnessSetupState::Ready
    );
}

#[test]
fn codex_requires_cli_when_flag_is_on() {
    assert_eq!(
        local_harness_setup_state_with_cli_resolver(Harness::Codex, CODEX_FLAG_ON, |_| false),
        LocalHarnessSetupState::MissingHarness {
            tooltip: LOCAL_CODEX_HARNESS_INSTALLATION_REQUIRED_TOOLTIP,
        }
    );
}

#[test]
fn codex_remains_product_disabled() {
    assert_eq!(
        local_harness_setup_state_with_cli_resolver(Harness::Codex, CODEX_FLAG_DEFAULT, |_| true),
        LocalHarnessSetupState::ProductDisabled {
            message: LOCAL_CODEX_HARNESS_DISABLED_MESSAGE,
        }
    );
}

#[test]
fn opencode_is_ready_when_cli_is_installed() {
    assert_eq!(
        local_harness_setup_state_with_cli_resolver(Harness::OpenCode, CODEX_FLAG_DEFAULT, |_| true),
        LocalHarnessSetupState::Ready
    );
}

#[test]
fn opencode_is_disabled_for_missing_cli() {
    assert_eq!(
        local_harness_setup_state_with_cli_resolver(
            Harness::OpenCode,
            CODEX_FLAG_DEFAULT,
            |_| false
        ),
        LocalHarnessSetupState::MissingHarness {
            tooltip: LOCAL_OPENCODE_HARNESS_INSTALLATION_REQUIRED_TOOLTIP,
        }
    );
}

#[test]
fn cli_probes_are_per_harness() {
    // A resolver that only knows about one harness's CLI must not make another's look
    // installed.
    let only_claude = |harness: Harness| harness == Harness::Claude;

    assert_eq!(
        local_harness_setup_state_with_cli_resolver(Harness::Claude, CODEX_FLAG_DEFAULT, only_claude),
        LocalHarnessSetupState::Ready
    );
    assert_eq!(
        local_harness_setup_state_with_cli_resolver(
            Harness::OpenCode,
            CODEX_FLAG_DEFAULT,
            only_claude
        ),
        LocalHarnessSetupState::MissingHarness {
            tooltip: LOCAL_OPENCODE_HARNESS_INSTALLATION_REQUIRED_TOOLTIP,
        }
    );
}

#[test]
fn the_built_in_agent_needs_nothing_installed() {
    assert_eq!(
        local_harness_setup_state_with_cli_resolver(Harness::Oz, CODEX_FLAG_DEFAULT, |_| false),
        LocalHarnessSetupState::Ready
    );
}

#[test]
fn harnesses_that_cannot_run_locally_are_refused_whatever_is_installed() {
    for harness in [Harness::Gemini, Harness::Unknown] {
        for flag in [CODEX_FLAG_DEFAULT, CODEX_FLAG_ON] {
            assert_eq!(
                local_harness_setup_state_with_cli_resolver(harness, flag, |_| true),
                LocalHarnessSetupState::ProductDisabled {
                    message: LOCAL_HARNESS_UNSUPPORTED_MESSAGE,
                }
            );
        }
    }
}
