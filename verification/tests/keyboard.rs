use heddle::keyboard::{
    apply_binding_removal, apply_binding_write, canonical_action_name, keybinding_file_path,
    keybindings_in_load_order, remove_custom_keybinding, write_custom_keybinding,
    PersistedTrigger, TriggerError, UserDefinedKeybinding, DISABLE_SAVE_ENV_VAR,
    KEYBINDINGS_FILE_NAME, REMOVED_KEYBINDING_SERIALIZATION,
};
use heddle::keymap::KeybindingMap;

/// A keystroke parser standing in for the UI toolkit's: a keystroke is a non-empty run of
/// ASCII letters, digits and `-`, kept as written.
fn parse_keystroke(word: &str) -> Option<String> {
    if !word.is_empty() && word.chars().all(|c| c.is_ascii_alphanumeric() || c == '-') {
        Some(word.to_string())
    } else {
        None
    }
}

fn trigger_to_keybinding(
    trigger: PersistedTrigger,
) -> Result<UserDefinedKeybinding<String>, TriggerError> {
    UserDefinedKeybinding::try_from_trigger(&trigger, parse_keystroke)
}

#[test]
fn test_short_user_defined_keybinding_to_persisted_trigger() {
    let keystroke = parse_keystroke("ctrl-p").unwrap();
    let keybinding = UserDefinedKeybinding::Keystrokes(vec![keystroke]);
    let persisted_trigger = PersistedTrigger::from_keybinding(&keybinding);

    assert_eq!(persisted_trigger, PersistedTrigger("ctrl-p".to_string()));
}

#[test]
fn test_long_user_defined_keybinding_to_persisted_trigger() {
    let keystroke = parse_keystroke("ctrl-p").unwrap();
    let other_keystroke = parse_keystroke("1").unwrap();

    let keybinding = UserDefinedKeybinding::Keystrokes(vec![keystroke, other_keystroke]);
    let persisted_trigger = PersistedTrigger::from_keybinding(&keybinding);

    assert_eq!(persisted_trigger, PersistedTrigger("ctrl-p 1".to_string()));
}

#[test]
fn test_short_persisted_trigger_to_user_defined_keybinding() -> Result<(), TriggerError> {
    let persisted_trigger = PersistedTrigger("ctrl-x".to_string());
    let keybinding = trigger_to_keybinding(persisted_trigger)?;

    let correct_keybinding =
        UserDefinedKeybinding::Keystrokes(vec![parse_keystroke("ctrl-x").unwrap()]);

    assert_eq!(keybinding, correct_keybinding);
    Ok(())
}

#[test]
fn test_long_persisted_trigger_to_user_defined_keybinding() -> Result<(), TriggerError> {
    let persisted_trigger = PersistedTrigger("ctrl-x 8".to_string());
    let keybinding = trigger_to_keybinding(persisted_trigger)?;

    let correct_keybinding = UserDefinedKeybinding::Keystrokes(vec![
        parse_keystroke("ctrl-x").unwrap(),
        parse_keystroke("8").unwrap(),
    ]);

    assert_eq!(keybinding, correct_keybinding);
    Ok(())
}

#[test]
fn test_persisted_trigger_to_removed_user_keybinding() -> Result<(), TriggerError> {
    let persisted_trigger = PersistedTrigger(REMOVED_KEYBINDING_SERIALIZATION.to_string());
    let keybinding = trigger_to_keybinding(persisted_trigger)?;

    assert_eq!(keybinding, UserDefinedKeybinding::Removed);
    Ok(())
}

#[test]
fn test_removed_user_keybinding_to_persisted_trigger() {
    let keybinding: UserDefinedKeybinding<String> = UserDefinedKeybinding::Removed;
    let persisted_trigger = PersistedTrigger::from_keybinding(&keybinding);

    assert_eq!(
        persisted_trigger,
        PersistedTrigger(REMOVED_KEYBINDING_SERIALIZATION.to_string())
    );
}

#[test]
fn test_unparsable_persisted_trigger() {
    let persisted_trigger = PersistedTrigger("".to_string());
    let keybinding = trigger_to_keybinding(persisted_trigger);

    assert!(keybinding.is_err());
}

#[test]
fn legacy_action_ids_resolve_to_their_current_names() {
    assert_eq!(
        canonical_action_name("terminal:warpify_subshell"),
        "terminal:heddlify_subshell"
    );
    assert_eq!(
        canonical_action_name("workspace:show_settings_warpify_page"),
        "workspace:show_settings_heddlify_page"
    );
}

#[test]
fn current_and_unknown_action_ids_pass_through_untouched() {
    assert_eq!(
        canonical_action_name("terminal:heddlify_subshell"),
        "terminal:heddlify_subshell"
    );
    assert_eq!(
        canonical_action_name("terminal:not_a_real_action"),
        "terminal:not_a_real_action"
    );
}

#[test]
fn canonicalising_twice_changes_nothing() {
    for name in [
        "terminal:warpify_subshell",
        "workspace:show_settings_warpify_page",
        "terminal:heddlify_subshell",
        "editor:undo",
    ] {
        let once = canonical_action_name(name);
        assert_eq!(canonical_action_name(once), once);
    }
}

#[test]
fn a_whitespace_only_trigger_has_no_keystrokes() {
    assert_eq!(
        trigger_to_keybinding(PersistedTrigger("   \t ".to_string())),
        Err(TriggerError::NoKeystrokes)
    );
}

#[test]
fn the_first_unparsable_keystroke_is_reported() {
    assert_eq!(
        trigger_to_keybinding(PersistedTrigger("ctrl-x $$ @@".to_string())),
        Err(TriggerError::UnparsableKeystroke {
            keystroke: "$$".to_string()
        })
    );
}

#[test]
fn keystrokes_may_be_separated_by_any_whitespace() {
    assert_eq!(
        trigger_to_keybinding(PersistedTrigger("  cmd-k\tcmd-s \n".to_string())),
        Ok(UserDefinedKeybinding::Keystrokes(vec![
            "cmd-k".to_string(),
            "cmd-s".to_string()
        ]))
    );
}

#[test]
fn a_keybinding_round_trips_through_its_persisted_form() {
    let keybinding = UserDefinedKeybinding::Keystrokes(vec!["ctrl-a".to_string(), "b".to_string()]);
    let persisted = PersistedTrigger::from_keybinding(&keybinding);
    assert_eq!(trigger_to_keybinding(persisted), Ok(keybinding));
}

#[test]
fn the_keybindings_file_is_named_as_before() {
    assert_eq!(KEYBINDINGS_FILE_NAME, "keybindings.yaml");
    assert_eq!(REMOVED_KEYBINDING_SERIALIZATION, "none");
}

#[test]
fn writing_a_binding_purges_its_legacy_spelling() {
    let mut map = KeybindingMap::new();
    map.insert("terminal:warpify_subshell".to_string(), "ctrl-a".to_string());
    map.insert("editor:undo".to_string(), "cmd-z".to_string());
    apply_binding_write(&mut map, "terminal:heddlify_subshell".to_string(), "ctrl-b".to_string());

    assert!(!map.contains_key("terminal:warpify_subshell"));
    assert_eq!(map.get("terminal:heddlify_subshell"), Some(&"ctrl-b".to_string()));
    assert_eq!(map.get("editor:undo"), Some(&"cmd-z".to_string()));
    assert_eq!(map.len(), 2);
}

#[test]
fn removing_a_binding_purges_both_spellings() {
    let mut map = KeybindingMap::new();
    map.insert("terminal:warpify_subshell".to_string(), 1u32);
    map.insert("terminal:heddlify_subshell".to_string(), 2u32);
    map.insert("editor:undo".to_string(), 3u32);
    apply_binding_removal(&mut map, "terminal:heddlify_subshell");

    assert!(!map.contains_key("terminal:warpify_subshell"));
    assert!(!map.contains_key("terminal:heddlify_subshell"));
    assert_eq!(map.get("editor:undo"), Some(&3u32));
    assert_eq!(map.len(), 1);
}

#[test]
fn removal_undoes_a_write_of_a_new_action() {
    let mut map = KeybindingMap::new();
    map.insert("editor:undo".to_string(), 3u32);
    apply_binding_write(&mut map, "editor:redo".to_string(), 4u32);
    apply_binding_removal(&mut map, "editor:redo");
    assert_eq!(map.into_entries(), vec![("editor:undo".to_string(), 3u32)]);
}

#[test]
fn legacy_spellings_load_first_so_current_ones_win() {
    let ordered = keybindings_in_load_order(vec![
        ("terminal:heddlify_subshell".to_string(), "new"),
        ("editor:undo".to_string(), "cmd-z"),
        ("terminal:warpify_subshell".to_string(), "old"),
    ]);
    assert_eq!(
        ordered,
        vec![
            ("terminal:heddlify_subshell".to_string(), "old"),
            ("terminal:heddlify_subshell".to_string(), "new"),
            ("editor:undo".to_string(), "cmd-z"),
        ]
    );
}

#[test]
fn the_keybindings_file_lives_in_the_config_directory() {
    assert_eq!(
        keybinding_file_path("/home/u/.config/heddle"),
        "/home/u/.config/heddle/keybindings.yaml"
    );
    assert_eq!(
        keybinding_file_path("/home/u/.config/heddle/"),
        "/home/u/.config/heddle/keybindings.yaml"
    );
    assert_eq!(keybinding_file_path(""), "keybindings.yaml");
    assert_eq!(DISABLE_SAVE_ENV_VAR, "WARP_TEST_DISABLE_KEYBINDING_SAVE");
}

#[test]
fn an_unreadable_file_is_written_over_from_scratch() {
    let saved = write_custom_keybinding(None, "editor:undo".to_string(), "cmd-z".to_string());
    assert_eq!(
        saved.into_entries(),
        vec![("editor:undo".to_string(), "cmd-z".to_string())]
    );
    let removed: KeybindingMap<String> = remove_custom_keybinding(None, "editor:undo");
    assert_eq!(removed.len(), 0);
}

#[test]
fn resetting_a_migrated_binding_drops_its_stale_removal() {
    // The legacy `none` beside the current ID must go too, or it would apply again after a
    // restart and undo the reset.
    let mut stored = KeybindingMap::new();
    stored.insert("terminal:warpify_subshell".to_string(), "none".to_string());
    stored.insert("terminal:heddlify_subshell".to_string(), "ctrl-s".to_string());
    let saved = remove_custom_keybinding(Some(stored), "terminal:heddlify_subshell");
    assert_eq!(saved.len(), 0);
}

#[test]
fn a_single_keystroke_is_a_one_keystroke_binding() {
    assert_eq!(
        UserDefinedKeybinding::keystroke("ctrl-k".to_string()),
        UserDefinedKeybinding::Keystrokes(vec!["ctrl-k".to_string()])
    );
    let persisted =
        PersistedTrigger::from_keybinding(&UserDefinedKeybinding::keystroke("cmd-p".to_string()));
    assert_eq!(persisted, PersistedTrigger("cmd-p".to_string()));
}
