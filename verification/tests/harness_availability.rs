use heddle::harness::{
    harness_to_graphql_harness, local_harness_catalog, secret_owner_from_space, AgentHarness,
    AuthSecretEntry, AuthSecretFetchState, Harness, HarnessAvailabilityEvent,
    HarnessAvailabilityModel, SecretOwner, Space, SpaceType, AUTH_SECRET_FETCH_FAILURE_COOLDOWN_MS,
};

/// The shared display names of the harnesses.
fn display_name(harness: Harness) -> &'static str {
    match harness {
        Harness::Oz => "Warp",
        Harness::Claude => "Anthropic CLI",
        Harness::OpenCode => "OpenCode",
        Harness::Codex => "Codex",
        Harness::Gemini => "Gemini",
        Harness::Unknown => "Unknown",
    }
}

fn catalog_harnesses() -> Vec<Harness> {
    local_harness_catalog(&display_name)
        .into_iter()
        .map(|entry| entry.harness)
        .collect()
}

#[test]
fn catalog_offers_the_local_child_harnesses_without_an_account() {
    let harnesses = catalog_harnesses();

    for expected in [
        Harness::Oz,
        Harness::Claude,
        Harness::OpenCode,
        Harness::Codex,
    ] {
        assert!(
            harnesses.contains(&expected),
            "{expected:?} missing from the local harness catalog: {harnesses:?}"
        );
    }
}

#[test]
fn catalog_is_more_than_the_built_in_agent() {
    let harnesses = catalog_harnesses();

    assert!(
        harnesses.len() > 1,
        "a one-entry catalog hides the harness selector entirely: {harnesses:?}"
    );
}

#[test]
fn catalog_excludes_gemini() {
    assert!(!catalog_harnesses().contains(&Harness::Gemini));
}

#[test]
fn catalog_excludes_unknown() {
    assert!(!catalog_harnesses().contains(&Harness::Unknown));
}

#[test]
fn catalog_entries_use_the_shared_display_names() {
    for entry in local_harness_catalog(&display_name) {
        assert_eq!(
            entry.display_name,
            display_name(entry.harness),
            "catalog label drifted from the shared harness display metadata"
        );
    }
}

#[test]
fn claude_offers_local_model_choices() {
    let claude = local_harness_catalog(&display_name)
        .into_iter()
        .find(|entry| entry.harness == Harness::Claude)
        .expect("the Anthropic CLI harness is missing from the catalog");

    assert!(
        !claude.available_models.is_empty(),
        "an empty list collapses the model picker to a single inert row"
    );
    let ids: Vec<&str> = claude
        .available_models
        .iter()
        .map(|model| model.id.as_str())
        .collect();
    assert!(ids.contains(&"opus"), "{ids:?}");
    assert!(ids.contains(&"sonnet"), "{ids:?}");
}

#[test]
fn claude_model_ids_are_aliases_not_dated_versions() {
    for model in local_harness_catalog(&display_name)
        .into_iter()
        .filter(|entry| entry.harness == Harness::Claude)
        .flat_map(|entry| entry.available_models)
    {
        assert!(
            !model.id.contains(char::is_numeric),
            "{} looks like a pinned version, not an alias",
            model.id
        );
        assert!(!model.display_name.is_empty());
    }
}

#[test]
fn harnesses_that_cannot_apply_a_model_offer_none() {
    for entry in local_harness_catalog(&display_name)
        .into_iter()
        .filter(|entry| entry.harness != Harness::Claude)
    {
        assert!(
            entry.available_models.is_empty(),
            "{:?} offers models it cannot pass to the child process",
            entry.harness
        );
    }
}

#[test]
fn the_catalog_is_in_a_fixed_order_and_fully_enabled() {
    let catalog = local_harness_catalog(&display_name);
    let harnesses: Vec<Harness> = catalog.iter().map(|e| e.harness).collect();
    assert_eq!(
        harnesses,
        vec![Harness::Oz, Harness::Claude, Harness::OpenCode, Harness::Codex]
    );
    assert!(catalog.iter().all(|e| e.enabled));
    let claude_models: Vec<(&str, &str)> = catalog[1]
        .available_models
        .iter()
        .map(|m| (m.id.as_str(), m.display_name.as_str()))
        .collect();
    assert_eq!(
        claude_models,
        vec![("opus", "Opus"), ("sonnet", "Sonnet"), ("haiku", "Haiku")]
    );
}

#[test]
fn the_model_offers_the_catalog_and_more_than_one_harness() {
    let model = HarnessAvailabilityModel::new(&display_name);
    assert_eq!(model.available_harnesses().len(), 4);
    assert!(model.should_show_harness_selector(true));
    assert!(!model.should_show_harness_selector(false));
    assert!(model.has_any_enabled_harness());
    assert!(model.is_harness_enabled(Harness::Codex));
    assert!(!model.is_harness_enabled(Harness::Gemini));
    assert_eq!(model.display_name_for(Harness::Claude, &display_name), "Anthropic CLI");
    assert_eq!(model.display_name_for(Harness::Gemini, &display_name), "Gemini");
    assert_eq!(model.models_for(Harness::Claude).map(|m| m.len()), Some(3));
    assert!(model.models_for(Harness::Codex).is_none(), "an empty model list is no list");
    assert!(model.models_for(Harness::Unknown).is_none());
}

#[test]
fn only_known_harnesses_have_a_service_name() {
    assert_eq!(harness_to_graphql_harness(Harness::Oz), Some(AgentHarness::Oz));
    assert_eq!(
        harness_to_graphql_harness(Harness::Claude),
        Some(AgentHarness::ClaudeCode)
    );
    assert_eq!(
        harness_to_graphql_harness(Harness::Gemini),
        Some(AgentHarness::Gemini)
    );
    assert_eq!(
        harness_to_graphql_harness(Harness::Codex),
        Some(AgentHarness::Codex)
    );
    assert_eq!(harness_to_graphql_harness(Harness::OpenCode), None);
    assert_eq!(harness_to_graphql_harness(Harness::Unknown), None);
}

#[test]
fn a_team_space_owns_its_secrets() {
    let team = Space {
        type_: SpaceType::Team,
        uid: "team-1".to_string(),
    };
    let user = Space {
        type_: SpaceType::User,
        uid: "user-1".to_string(),
    };
    assert_eq!(
        secret_owner_from_space(&team),
        SecretOwner::Team {
            team_uid: "team-1".to_string()
        }
    );
    assert_eq!(secret_owner_from_space(&user), SecretOwner::CurrentUser);
}

#[test]
fn no_fetch_starts_while_logged_out() {
    let mut model = HarnessAvailabilityModel::new(&display_name);
    assert_eq!(model.ensure_auth_secrets_fetched(Harness::Claude, 0, false), None);
    assert!(matches!(
        model.auth_secrets_for(Harness::Claude),
        AuthSecretFetchState::NotFetched
    ));
}

#[test]
fn a_failed_fetch_waits_out_its_cooldown() {
    let mut model = HarnessAvailabilityModel::new(&display_name);
    assert_eq!(
        model.ensure_auth_secrets_fetched(Harness::Claude, 1_000, true),
        Some(AgentHarness::ClaudeCode)
    );
    assert!(matches!(
        model.auth_secrets_for(Harness::Claude),
        AuthSecretFetchState::Loading
    ));
    // A second request while loading starts nothing.
    assert_eq!(model.ensure_auth_secrets_fetched(Harness::Claude, 1_001, true), None);

    let event = model.auth_secrets_fetch_failed(Harness::Claude, "offline".to_string(), 2_000);
    assert!(matches!(event, HarnessAvailabilityEvent::AuthSecretsFetchFailed));
    assert!(!model.can_retry_auth_secret_fetch(Harness::Claude, 2_000));
    let deadline = 2_000 + AUTH_SECRET_FETCH_FAILURE_COOLDOWN_MS;
    assert!(!model.can_retry_auth_secret_fetch(Harness::Claude, deadline - 1));
    assert_eq!(
        model.ensure_auth_secrets_fetched(Harness::Claude, deadline - 1, true),
        None
    );
    assert!(model.can_retry_auth_secret_fetch(Harness::Claude, deadline));
    assert_eq!(
        model.ensure_auth_secrets_fetched(Harness::Claude, deadline, true),
        Some(AgentHarness::ClaudeCode)
    );
}

#[test]
fn harnesses_without_a_service_name_never_fetch() {
    let mut model = HarnessAvailabilityModel::new(&display_name);
    assert_eq!(model.ensure_auth_secrets_fetched(Harness::OpenCode, 0, true), None);
    assert!(matches!(
        model.auth_secrets_for(Harness::OpenCode),
        AuthSecretFetchState::NotFetched
    ));
}

fn entry(name: &str, owner: SecretOwner) -> AuthSecretEntry {
    AuthSecretEntry {
        name: name.to_string(),
        owner,
    }
}

fn loaded_names(model: &HarnessAvailabilityModel, harness: Harness) -> Option<Vec<String>> {
    match model.auth_secrets_for(harness) {
        AuthSecretFetchState::Loaded(entries) => {
            Some(entries.iter().map(|e| e.name.clone()).collect())
        }
        _ => None,
    }
}

#[test]
fn created_and_deleted_secrets_update_the_loaded_list() {
    let mut model = HarnessAvailabilityModel::new(&display_name);
    model.auth_secrets_loaded(
        Harness::Claude,
        vec![
            entry("a", SecretOwner::CurrentUser),
            entry(
                "b",
                SecretOwner::Team {
                    team_uid: "t".to_string(),
                },
            ),
        ],
    );
    model.auth_secret_created(Harness::Claude, entry("c", SecretOwner::CurrentUser));
    assert_eq!(
        loaded_names(&model, Harness::Claude),
        Some(vec!["a".to_string(), "b".to_string(), "c".to_string()])
    );

    // The owner has to match too: a user secret named `b` is not the team's `b`.
    model.auth_secret_deleted(Harness::Claude, "b".to_string(), SecretOwner::CurrentUser);
    assert_eq!(
        loaded_names(&model, Harness::Claude),
        Some(vec!["a".to_string(), "b".to_string(), "c".to_string()])
    );
    let event = model.auth_secret_deleted(
        Harness::Claude,
        "b".to_string(),
        SecretOwner::Team {
            team_uid: "t".to_string(),
        },
    );
    assert!(matches!(
        event,
        HarnessAvailabilityEvent::AuthSecretDeleted { harness: Harness::Claude, .. }
    ));
    assert_eq!(
        loaded_names(&model, Harness::Claude),
        Some(vec!["a".to_string(), "c".to_string()])
    );
}

#[test]
fn a_created_secret_starts_a_list_when_none_was_loaded() {
    let mut model = HarnessAvailabilityModel::new(&display_name);
    let event = model.auth_secret_created(Harness::Codex, entry("k", SecretOwner::CurrentUser));
    assert!(matches!(
        event,
        HarnessAvailabilityEvent::AuthSecretCreated { harness: Harness::Codex, .. }
    ));
    assert_eq!(loaded_names(&model, Harness::Codex), Some(vec!["k".to_string()]));
}

#[test]
fn invalidating_forgets_secrets_and_cooldowns() {
    let mut model = HarnessAvailabilityModel::new(&display_name);
    model.auth_secrets_fetch_failed(Harness::Claude, "x".to_string(), 10);
    model.auth_secrets_loaded(Harness::Codex, vec![]);
    model.invalidate_auth_secrets(Harness::Claude);
    assert!(matches!(
        model.auth_secrets_for(Harness::Claude),
        AuthSecretFetchState::NotFetched
    ));
    assert!(model.can_retry_auth_secret_fetch(Harness::Claude, 10));
    assert!(matches!(
        model.auth_secrets_for(Harness::Codex),
        AuthSecretFetchState::Loaded(_)
    ));
    model.invalidate_all_auth_secrets();
    assert!(matches!(
        model.auth_secrets_for(Harness::Codex),
        AuthSecretFetchState::NotFetched
    ));
}
