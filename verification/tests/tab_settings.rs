use heddle::settings_value::{FileValue, SettingsValue};
use heddle::tab_settings::{
    HeaderToolbarChipSelection, HeaderToolbarItemKind, HideTitleBarSearchBarInVerticalTabs,
    ShowVerticalTabPanelInRestoredWindows, UseLatestUserPromptAsConversationTitleInTabNames,
};

#[test]
fn use_latest_user_prompt_as_conversation_title_in_tab_names_uses_vertical_tabs_path() {
    assert_eq!(
        UseLatestUserPromptAsConversationTitleInTabNames::toml_path(),
        Some("appearance.vertical_tabs.use_latest_prompt_as_title")
    );
    assert_eq!(
        UseLatestUserPromptAsConversationTitleInTabNames::hierarchy(),
        Some("appearance.vertical_tabs")
    );
    assert_eq!(
        UseLatestUserPromptAsConversationTitleInTabNames::toml_key(),
        "use_latest_prompt_as_title"
    );
}

#[test]
fn show_vertical_tab_panel_in_restored_windows_uses_vertical_tabs_path() {
    assert_eq!(
        ShowVerticalTabPanelInRestoredWindows::toml_path(),
        Some("appearance.vertical_tabs.show_panel_in_restored_windows")
    );
    assert_eq!(
        ShowVerticalTabPanelInRestoredWindows::hierarchy(),
        Some("appearance.vertical_tabs")
    );
    assert_eq!(
        ShowVerticalTabPanelInRestoredWindows::toml_key(),
        "show_panel_in_restored_windows"
    );
}

#[test]
fn hide_title_bar_search_bar_in_vertical_tabs_uses_vertical_tabs_path() {
    assert_eq!(
        HideTitleBarSearchBarInVerticalTabs::toml_path(),
        Some("appearance.vertical_tabs.hide_title_bar_search_bar")
    );
    assert_eq!(
        HideTitleBarSearchBarInVerticalTabs::hierarchy(),
        Some("appearance.vertical_tabs")
    );
    assert_eq!(
        HideTitleBarSearchBarInVerticalTabs::toml_key(),
        "hide_title_bar_search_bar"
    );
}

#[test]
fn the_vertical_tab_switches_default_to_off() {
    assert!(!UseLatestUserPromptAsConversationTitleInTabNames::default_value());
    assert!(!ShowVerticalTabPanelInRestoredWindows::default_value());
    assert!(!HideTitleBarSearchBarInVerticalTabs::default_value());
}

#[test]
fn header_toolbar_chip_selection_default_contains_code_review() {
    let config = HeaderToolbarChipSelection::Default;
    assert!(config.contains_item(&HeaderToolbarItemKind::CodeReview));
}

#[test]
fn header_toolbar_chip_selection_custom_without_code_review_reports_absent() {
    let config = HeaderToolbarChipSelection::Custom {
        left: vec![
            HeaderToolbarItemKind::TabsPanel,
            HeaderToolbarItemKind::ToolsPanel,
        ],
        right: vec![HeaderToolbarItemKind::NotificationsMailbox],
    };
    assert!(!config.contains_item(&HeaderToolbarItemKind::CodeReview));
    assert!(config.contains_item(&HeaderToolbarItemKind::TabsPanel));
    assert!(config.contains_item(&HeaderToolbarItemKind::ToolsPanel));
    assert!(config.contains_item(&HeaderToolbarItemKind::NotificationsMailbox));
}

#[test]
fn header_toolbar_chip_selection_custom_with_code_review_on_left_reports_present() {
    let config = HeaderToolbarChipSelection::Custom {
        left: vec![HeaderToolbarItemKind::CodeReview],
        right: vec![],
    };
    assert!(config.contains_item(&HeaderToolbarItemKind::CodeReview));
}

#[test]
fn header_toolbar_chip_selection_custom_empty_reports_all_absent() {
    let config = HeaderToolbarChipSelection::Custom {
        left: vec![],
        right: vec![],
    };
    for item in HeaderToolbarItemKind::all_items() {
        assert!(!config.contains_item(&item));
    }
}

#[test]
fn the_default_arrangement_shows_every_chip() {
    for item in HeaderToolbarItemKind::all_items() {
        assert!(HeaderToolbarChipSelection::Default.contains_item(&item));
    }
    assert_eq!(HeaderToolbarItemKind::all_items().len(), 4);
}

#[test]
fn header_toolbar_chip_selection_round_trips() {
    for config in [
        HeaderToolbarChipSelection::Default,
        HeaderToolbarChipSelection::Custom {
            left: vec![
                HeaderToolbarItemKind::TabsPanel,
                HeaderToolbarItemKind::CodeReview,
            ],
            right: vec![HeaderToolbarItemKind::NotificationsMailbox],
        },
    ] {
        let file_value = config.to_file_value();
        assert_eq!(
            HeaderToolbarChipSelection::from_file_value(&file_value),
            Some(config)
        );
    }
}

fn strings(names: &[&str]) -> FileValue {
    FileValue::Array(
        names
            .iter()
            .map(|n| FileValue::String(n.to_string()))
            .collect(),
    )
}

#[test]
fn header_toolbar_chip_selection_drops_unknown_item_but_keeps_the_rest() {
    // A layout persisted by an older build that still lists a removed toolbar item must
    // decode to the surviving items rather than resetting the whole arrangement.
    let stored = FileValue::Object(vec![(
        "custom".to_string(),
        FileValue::Object(vec![
            (
                "left".to_string(),
                strings(&["tabs_panel", "agent_management", "code_review"]),
            ),
            (
                "right".to_string(),
                strings(&["agent_management", "notifications_mailbox"]),
            ),
        ]),
    )]);

    let decoded = HeaderToolbarChipSelection::from_file_value(&stored)
        .expect("a custom layout with an unknown item still decodes");

    assert_eq!(
        decoded,
        HeaderToolbarChipSelection::Custom {
            left: vec![
                HeaderToolbarItemKind::TabsPanel,
                HeaderToolbarItemKind::CodeReview,
            ],
            right: vec![HeaderToolbarItemKind::NotificationsMailbox],
        }
    );
}

#[test]
fn the_stored_forms_are_pinned() {
    assert_eq!(
        HeaderToolbarChipSelection::Default.to_file_value(),
        FileValue::String("default".to_string())
    );
    let custom = HeaderToolbarChipSelection::Custom {
        left: vec![HeaderToolbarItemKind::ToolsPanel],
        right: vec![],
    };
    assert_eq!(
        custom.to_file_value(),
        FileValue::Object(vec![(
            "custom".to_string(),
            FileValue::Object(vec![
                ("left".to_string(), strings(&["tools_panel"])),
                ("right".to_string(), strings(&[])),
            ]),
        )])
    );
}

#[test]
fn a_malformed_arrangement_does_not_read() {
    for stored in [
        FileValue::String("custom".to_string()),
        FileValue::Number(1),
        FileValue::Object(vec![]),
        FileValue::Object(vec![(
            "custom".to_string(),
            FileValue::Object(vec![("left".to_string(), strings(&[]))]),
        )]),
        FileValue::Object(vec![(
            "custom".to_string(),
            FileValue::Object(vec![
                ("left".to_string(), FileValue::Null),
                ("right".to_string(), strings(&[])),
            ]),
        )]),
    ] {
        assert_eq!(HeaderToolbarChipSelection::from_file_value(&stored), None);
    }
}
