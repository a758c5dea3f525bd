use heddle::tools::{
    api_keys_with_warp_credit_fallback_setting, get_supported_cli_agent_tools,
    get_supported_tools, supports_orchestration_v2, ApiKeys, SessionType, ToolFeatureFlags,
    ToolRequestParams, ToolType,
};

fn no_flags() -> ToolFeatureFlags {
    ToolFeatureFlags {
        conversations_as_context: false,
        artifact_command: false,
        remote_codebase_indexing: false,
        agent_mode_computer_use: false,
        video_recording: false,
        list_skills: false,
        ask_user_question: false,
        transfer_control_tool: false,
    }
}

fn all_flags() -> ToolFeatureFlags {
    ToolFeatureFlags {
        conversations_as_context: true,
        artifact_command: true,
        remote_codebase_indexing: true,
        agent_mode_computer_use: true,
        video_recording: true,
        list_skills: true,
        ask_user_question: true,
        transfer_control_tool: true,
    }
}

fn params(session_type: Option<SessionType>, switches: bool) -> ToolRequestParams {
    ToolRequestParams {
        session_type,
        computer_use_enabled: switches,
        orchestration_enabled: switches,
        ask_user_question_enabled: switches,
    }
}

fn base() -> Vec<ToolType> {
    vec![
        ToolType::Grep,
        ToolType::FileGlob,
        ToolType::FileGlobV2,
        ToolType::ReadMcpResource,
        ToolType::CallMcpTool,
        ToolType::InitProject,
        ToolType::OpenCodeReview,
        ToolType::RunShellCommand,
        ToolType::SuggestNewConversation,
        ToolType::Subagent,
        ToolType::WriteToLongRunningShellCommand,
        ToolType::ReadShellCommandOutput,
        ToolType::ReadDocuments,
        ToolType::CreateDocuments,
        ToolType::EditDocuments,
        ToolType::SuggestPrompt,
    ]
}

#[test]
fn a_plain_local_request_gets_the_local_file_tools() {
    let mut expected = base();
    expected.extend([
        ToolType::ReadFiles,
        ToolType::ApplyFileDiffs,
        ToolType::SearchCodebase,
        ToolType::InsertReviewComments,
    ]);
    assert_eq!(
        get_supported_tools(&params(Some(SessionType::Local), false), &no_flags()),
        expected
    );
    assert_eq!(get_supported_tools(&params(None, false), &no_flags()), expected);
}

#[test]
fn every_flag_and_switch_adds_its_tools_in_order() {
    let mut expected = base();
    expected.extend([
        ToolType::FetchConversation,
        ToolType::ReadFiles,
        ToolType::ApplyFileDiffs,
        ToolType::SearchCodebase,
        ToolType::UploadFileArtifact,
        ToolType::UseComputer,
        ToolType::RequestComputerUse,
        ToolType::StartRecording,
        ToolType::StopRecording,
        ToolType::InsertReviewComments,
        ToolType::ReadSkill,
        ToolType::RunAgents,
        ToolType::SendMessageToAgent,
        ToolType::WaitForEvents,
        ToolType::AskUserQuestion,
    ]);
    assert_eq!(
        get_supported_tools(&params(Some(SessionType::Local), true), &all_flags()),
        expected
    );
}

#[test]
fn an_unconnected_remote_session_gets_no_file_tools() {
    let remote = Some(SessionType::HeddlifiedRemote { host_id: None });
    let tools = get_supported_tools(&params(remote.clone(), false), &all_flags());
    for tool in [
        ToolType::ReadFiles,
        ToolType::ApplyFileDiffs,
        ToolType::SearchCodebase,
        ToolType::UploadFileArtifact,
    ] {
        assert!(!tools.contains(&tool), "{tool:?} offered before the host is known");
    }
    let cli = get_supported_cli_agent_tools(&params(remote, false), &all_flags());
    assert!(!cli.contains(&ToolType::ReadFiles));
}

#[test]
fn a_connected_remote_session_searches_only_with_remote_indexing() {
    let remote = Some(SessionType::HeddlifiedRemote {
        host_id: Some("host".to_string()),
    });
    let without = get_supported_tools(&params(remote.clone(), false), &no_flags());
    let mut expected = base();
    expected.extend([
        ToolType::ReadFiles,
        ToolType::ApplyFileDiffs,
        ToolType::InsertReviewComments,
    ]);
    assert_eq!(without, expected);

    let flags = ToolFeatureFlags {
        remote_codebase_indexing: true,
        artifact_command: true,
        ..no_flags()
    };
    let with = get_supported_tools(&params(remote, false), &flags);
    let mut expected = base();
    expected.extend([
        ToolType::ReadFiles,
        ToolType::ApplyFileDiffs,
        ToolType::SearchCodebase,
        ToolType::InsertReviewComments,
    ]);
    assert_eq!(with, expected);
}

#[test]
fn computer_use_needs_both_the_flag_and_the_request() {
    let flags = ToolFeatureFlags {
        agent_mode_computer_use: true,
        ..no_flags()
    };
    let off = get_supported_tools(&params(None, false), &flags);
    assert!(!off.contains(&ToolType::UseComputer));
    let on = get_supported_tools(&params(None, true), &flags);
    assert!(on.contains(&ToolType::UseComputer));
    assert!(!on.contains(&ToolType::StartRecording));
}

#[test]
fn cli_agent_tools_follow_the_session() {
    assert_eq!(
        get_supported_cli_agent_tools(&params(None, false), &no_flags()),
        vec![
            ToolType::WriteToLongRunningShellCommand,
            ToolType::ReadShellCommandOutput,
            ToolType::Grep,
            ToolType::FileGlob,
            ToolType::FileGlobV2,
            ToolType::ReadFiles,
            ToolType::SearchCodebase,
        ]
    );
    let remote = Some(SessionType::HeddlifiedRemote {
        host_id: Some("h".to_string()),
    });
    assert_eq!(
        get_supported_cli_agent_tools(&params(remote, false), &all_flags()),
        vec![
            ToolType::WriteToLongRunningShellCommand,
            ToolType::ReadShellCommandOutput,
            ToolType::Grep,
            ToolType::FileGlob,
            ToolType::FileGlobV2,
            ToolType::TransferShellCommandControlToUser,
            ToolType::ReadFiles,
            ToolType::SearchCodebase,
        ]
    );
}

#[test]
fn orchestration_v2_follows_the_switch() {
    assert!(supports_orchestration_v2(true));
    assert!(!supports_orchestration_v2(false));
}

#[test]
fn the_credit_fallback_setting_is_applied_to_the_keys() {
    let keys = ApiKeys {
        provider_keys: vec!["k".to_string()],
        allow_use_of_warp_credits: true,
    };
    let updated = api_keys_with_warp_credit_fallback_setting(Some(keys), false).unwrap();
    assert_eq!(updated.provider_keys, vec!["k".to_string()]);
    assert!(!updated.allow_use_of_warp_credits);

    let declared = api_keys_with_warp_credit_fallback_setting::<Vec<String>>(None, true).unwrap();
    assert!(declared.provider_keys.is_empty());
    assert!(declared.allow_use_of_warp_credits);

    assert!(api_keys_with_warp_credit_fallback_setting::<Vec<String>>(None, false).is_none());
}
