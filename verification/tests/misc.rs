use heddle::drive::WarpDriveSettings;
use heddle::footer::{
    HeddlifyFooterView, HeddlifyFooterViewAction, HeddlifyFooterViewEvent,
    HEDDLIFY_SUBSHELL_ACTION,
};
use heddle::handoff::{HandoffLaunchAttachments, PendingCloudLaunch};
use heddle::harness_support;
use heddle::sharing::{
    feedback_form_url, ContentEditability, GITHUB_ISSUES_URL, PRIVACY_POLICY_URL, USER_DOCS_URL,
};
use heddle::signing::{APPLE_TEAM_ID, LEGACY_WARP_APP_GROUP_TEAM_ID};
use heddle::tips::{get_cloud_mode_tips, CloudModeTip};

#[test]
fn the_footer_starts_hidden_and_shows_the_subshell_binding() {
    let mut footer = HeddlifyFooterView::new();
    assert!(!footer.is_active());
    assert_eq!(footer.heddlify_button_binding(), None);
    footer.show();
    assert!(footer.is_active());
    assert_eq!(footer.heddlify_button_binding(), Some("terminal:heddlify_subshell"));
    assert_eq!(HEDDLIFY_SUBSHELL_ACTION, "terminal:heddlify_subshell");
}

#[test]
fn every_footer_action_clears_the_footer() {
    for action in [
        HeddlifyFooterViewAction::Heddlify,
        HeddlifyFooterViewAction::UseAgent,
        HeddlifyFooterViewAction::Dismiss,
    ] {
        let mut footer = HeddlifyFooterView::new();
        footer.show();
        footer.handle_action(action);
        assert!(!footer.is_active());
        assert_eq!(footer.heddlify_button_binding(), None);
    }
}

#[test]
fn heddlify_is_only_announced_from_an_active_footer() {
    let mut footer = HeddlifyFooterView::new();
    assert_eq!(footer.handle_action(HeddlifyFooterViewAction::Heddlify), None);
    footer.show();
    assert_eq!(
        footer.handle_action(HeddlifyFooterViewAction::Heddlify),
        Some(HeddlifyFooterViewEvent::Heddlify)
    );
    assert_eq!(
        footer.handle_action(HeddlifyFooterViewAction::UseAgent),
        Some(HeddlifyFooterViewEvent::UseAgent)
    );
    assert_eq!(
        footer.handle_action(HeddlifyFooterViewAction::Dismiss),
        Some(HeddlifyFooterViewEvent::Dismiss)
    );
}

#[test]
fn clearing_the_footer_hides_it() {
    let mut footer = HeddlifyFooterView::new();
    footer.show();
    footer.clear();
    assert!(!footer.is_active());
    assert_eq!(footer.heddlify_button_binding(), None);
}

#[test]
fn the_tips_all_carry_a_github_link() {
    let tips = get_cloud_mode_tips();
    assert_eq!(tips.len(), 38);
    for tip in &tips {
        let link = tip.link().expect("every tip has a link");
        assert!(link.starts_with("https://github.com/"), "{link}");
        assert!(!tip.description().is_empty());
    }
    assert_eq!(
        tips[0].description(),
        "Install the Oz Slack integration to trigger agents from any channel or DM."
    );
    assert_eq!(
        tips[7].link().as_deref(),
        Some("https://github.com/warpdotdev/oz-agent-action")
    );
}

#[test]
fn no_two_tips_share_a_description_and_every_call_gives_the_same_tips() {
    let first = get_cloud_mode_tips();
    let second = get_cloud_mode_tips();
    assert_eq!(first.len(), second.len());
    for (i, tip) in first.iter().enumerate() {
        assert_eq!(tip.description(), second[i].description());
        assert_eq!(tip.link(), second[i].link());
        for other in &first[i + 1..] {
            assert_ne!(tip.description(), other.description());
        }
    }
}

#[test]
fn a_tip_keeps_its_text_and_link() {
    let tip = CloudModeTip::new("text", Some("https://example.com"));
    assert_eq!(tip.description(), "text");
    assert_eq!(tip.link().as_deref(), Some("https://example.com"));
    let bare = CloudModeTip::new("bare", None);
    assert_eq!(bare.link(), None);
}

#[test]
fn only_editable_content_can_be_edited() {
    assert!(ContentEditability::Editable.can_edit());
    assert!(!ContentEditability::ReadOnly.can_edit());
    assert!(!ContentEditability::RequiresLogin.can_edit());
}

#[test]
fn feedback_goes_to_the_issue_chooser() {
    assert_eq!(
        feedback_form_url(),
        "https://github.com/nikolaypaskov/heddle/issues/new/choose"
    );
    assert!(feedback_form_url().starts_with(GITHUB_ISSUES_URL));
    assert!(USER_DOCS_URL.starts_with("https://github.com/nikolaypaskov/heddle"));
    assert!(PRIVACY_POLICY_URL.starts_with("https://github.com/nikolaypaskov/heddle"));
}

#[test]
fn drive_is_enabled_exactly_by_its_setting() {
    let on = WarpDriveSettings {
        enable_warp_drive: true,
        sharing_onboarding_block_shown: false,
    };
    let off = WarpDriveSettings {
        enable_warp_drive: false,
        sharing_onboarding_block_shown: true,
    };
    assert!(on.is_warp_drive_enabled());
    assert!(!off.is_warp_drive_enabled());
}

#[test]
fn drive_is_on_by_default() {
    let settings = WarpDriveSettings::default();
    assert!(settings.is_warp_drive_enabled());
    assert!(!settings.sharing_onboarding_block_shown);
}

#[test]
fn handoff_attachments_default_to_none() {
    let attachments: HandoffLaunchAttachments<u8, String> = HandoffLaunchAttachments::default();
    assert!(attachments.request_attachments.is_empty());
    assert!(attachments.display_attachments.is_empty());
    let launch = PendingCloudLaunch {
        prompt: "fix it".to_string(),
        attachments,
    };
    assert_eq!(launch.prompt, "fix it");
}

#[test]
fn harness_support_is_refused_with_its_reason() {
    let err = harness_support::run().unwrap_err();
    assert!(err.contains("harness-support"), "{err}");
    assert!(err.contains("does not talk to"), "{err}");
}

#[test]
fn the_signing_team_is_heddles_own() {
    assert_eq!(APPLE_TEAM_ID, "4STAAHTNCN");
    assert_ne!(APPLE_TEAM_ID, LEGACY_WARP_APP_GROUP_TEAM_ID);
}
