//! The tools an agent request declares support for.
//!
//! The list depends on the session the request comes from, the request's own switches and
//! the feature flags in force. A remote session gets the file tools only once its host is
//! known, since only then can they be routed to the remote server.

use vstd::prelude::*;

verus! {

/// A tool the client can execute on the agent's behalf. Declared in the order the agent
/// request lists them.
#[derive(Debug, Clone, Copy, PartialEq, Eq, Structural)]
pub enum ToolType {
    FetchConversation,
    Grep,
    FileGlob,
    FileGlobV2,
    ReadMcpResource,
    CallMcpTool,
    InitProject,
    OpenCodeReview,
    RunShellCommand,
    SuggestNewConversation,
    Subagent,
    WriteToLongRunningShellCommand,
    ReadShellCommandOutput,
    ReadDocuments,
    CreateDocuments,
    EditDocuments,
    SuggestPrompt,
    ReadFiles,
    ApplyFileDiffs,
    SearchCodebase,
    UploadFileArtifact,
    UseComputer,
    RequestComputerUse,
    StartRecording,
    StopRecording,
    InsertReviewComments,
    ReadSkill,
    RunAgents,
    SendMessageToAgent,
    WaitForEvents,
    AskUserQuestion,
    TransferShellCommandControlToUser,
}

/// The kind of session a request comes from.
#[derive(Debug, Clone, PartialEq, Eq)]
pub enum SessionType {
    Local,
    /// A remote session; `host_id` is only known after a successful connection handshake.
    HeddlifiedRemote { host_id: Option<String> },
}

/// The feature flags that shape the tool list.
#[derive(Debug, Clone, Copy)]
pub struct ToolFeatureFlags {
    pub conversations_as_context: bool,
    pub artifact_command: bool,
    pub remote_codebase_indexing: bool,
    pub agent_mode_computer_use: bool,
    pub video_recording: bool,
    pub list_skills: bool,
    pub ask_user_question: bool,
    pub transfer_control_tool: bool,
}

/// What the tool list reads from an agent request.
#[derive(Debug, Clone)]
pub struct ToolRequestParams {
    /// The session the request comes from, if it is known.
    pub session_type: Option<SessionType>,
    pub computer_use_enabled: bool,
    pub orchestration_enabled: bool,
    pub ask_user_question_enabled: bool,
}

/// Whether the request comes from a local session (or from no known session).
pub open spec fn is_local_session(s: Option<SessionType>) -> bool {
    match s {
        None => true,
        Some(SessionType::Local) => true,
        Some(SessionType::HeddlifiedRemote { .. }) => false,
    }
}

/// Whether the request comes from a remote session whose host is known.
pub open spec fn is_connected_remote(s: Option<SessionType>) -> bool {
    match s {
        Some(SessionType::HeddlifiedRemote { host_id }) => host_id is Some,
        _ => false,
    }
}

/// `items` when `cond` holds, nothing otherwise.
pub open spec fn when(cond: bool, items: Seq<ToolType>) -> Seq<ToolType> {
    if cond {
        items
    } else {
        Seq::empty()
    }
}

/// The tools every agent request declares.
pub open spec fn base_tools() -> Seq<ToolType> {
    seq![
        ToolType::Grep,
        ToolType::FileGlob,
        ToolType::FileGlobV2,
        ToolType::ReadMcpResource,
        ToolType::CallMcpTool,
        ToolType::InitProject,
        ToolType::OpenCodeReview,
        ToolType::RunShellCommand,
        ToolType::SuggestNewConversation,
        ToolType::Subagent,
        ToolType::WriteToLongRunningShellCommand,
        ToolType::ReadShellCommandOutput,
        ToolType::ReadDocuments,
        ToolType::CreateDocuments,
        ToolType::EditDocuments,
        ToolType::SuggestPrompt,
    ]
}

/// The file tools the session supports.
pub open spec fn session_tools(p: ToolRequestParams, f: ToolFeatureFlags) -> Seq<ToolType> {
    if is_local_session(p.session_type) {
        seq![ToolType::ReadFiles, ToolType::ApplyFileDiffs, ToolType::SearchCodebase] + when(
            f.artifact_command,
            seq![ToolType::UploadFileArtifact],
        )
    } else if is_connected_remote(p.session_type) {
        seq![ToolType::ReadFiles, ToolType::ApplyFileDiffs] + when(
            f.remote_codebase_indexing,
            seq![ToolType::SearchCodebase],
        )
    } else {
        Seq::empty()
    }
}

/// The computer-use tools, when both the flag and the request allow them.
pub open spec fn computer_use_tools(p: ToolRequestParams, f: ToolFeatureFlags) -> Seq<ToolType> {
    when(
        f.agent_mode_computer_use && p.computer_use_enabled,
        seq![ToolType::UseComputer, ToolType::RequestComputerUse] + when(
            f.video_recording,
            seq![ToolType::StartRecording, ToolType::StopRecording],
        ),
    )
}

/// The tools an agent request declares.
pub open spec fn supported_tools_spec(p: ToolRequestParams, f: ToolFeatureFlags) -> Seq<ToolType> {
    base_tools() + when(f.conversations_as_context, seq![ToolType::FetchConversation])
        + session_tools(p, f) + computer_use_tools(p, f) + seq![ToolType::InsertReviewComments]
        + when(f.list_skills, seq![ToolType::ReadSkill]) + when(
        p.orchestration_enabled,
        seq![ToolType::RunAgents, ToolType::SendMessageToAgent, ToolType::WaitForEvents],
    ) + when(f.ask_user_question && p.ask_user_question_enabled, seq![ToolType::AskUserQuestion])
}

/// The tools a CLI-agent request declares.
pub open spec fn supported_cli_agent_tools_spec(p: ToolRequestParams, f: ToolFeatureFlags) -> Seq<
    ToolType,
> {
    seq![
        ToolType::WriteToLongRunningShellCommand,
        ToolType::ReadShellCommandOutput,
        ToolType::Grep,
        ToolType::FileGlob,
        ToolType::FileGlobV2,
    ] + when(f.transfer_control_tool, seq![ToolType::TransferShellCommandControlToUser]) + if is_local_session(
        p.session_type,
    ) {
        seq![ToolType::ReadFiles, ToolType::SearchCodebase]
    } else if is_connected_remote(p.session_type) {
        seq![ToolType::ReadFiles] + when(f.remote_codebase_indexing, seq![ToolType::SearchCodebase])
    } else {
        Seq::empty()
    }
}

/// Whether the request comes from a local session, and whether from a connected remote one.
fn classify_session(s: &Option<SessionType>) -> (r: (bool, bool))
    ensures
        r.0 == is_local_session(*s),
        r.1 == is_connected_remote(*s),
{
    match s {
        None => (true, false),
        Some(SessionType::Local) => (true, false),
        Some(SessionType::HeddlifiedRemote { host_id }) => (false, host_id.is_some()),
    }
}

/// The tools every agent request declares, as a vector.
fn base_tool_vec() -> (r: Vec<ToolType>)
    ensures
        r@ == base_tools(),
{
    let mut tools: Vec<ToolType> = Vec::new();
    tools.push(ToolType::Grep);
    tools.push(ToolType::FileGlob);
    tools.push(ToolType::FileGlobV2);
    tools.push(ToolType::ReadMcpResource);
    tools.push(ToolType::CallMcpTool);
    tools.push(ToolType::InitProject);
    tools.push(ToolType::OpenCodeReview);
    tools.push(ToolType::RunShellCommand);
    tools.push(ToolType::SuggestNewConversation);
    tools.push(ToolType::Subagent);
    tools.push(ToolType::WriteToLongRunningShellCommand);
    tools.push(ToolType::ReadShellCommandOutput);
    tools.push(ToolType::ReadDocuments);
    tools.push(ToolType::CreateDocuments);
    tools.push(ToolType::EditDocuments);
    tools.push(ToolType::SuggestPrompt);
    assert(tools@ =~= base_tools());
    tools
}

/// Appends the session's file tools.
fn push_session_tools(tools: &mut Vec<ToolType>, params: &ToolRequestParams, flags: &ToolFeatureFlags)
    ensures
        final(tools)@ == old(tools)@ + session_tools(*params, *flags),
{
    let (local, connected_remote) = classify_session(&params.session_type);
    if local {
        tools.push(ToolType::ReadFiles);
        tools.push(ToolType::ApplyFileDiffs);
        tools.push(ToolType::SearchCodebase);
        if flags.artifact_command {
            tools.push(ToolType::UploadFileArtifact);
        }
    } else if connected_remote {
        // The host is only known after a successful connection handshake, so its
        // presence shows that the remote tools can be routed.
        tools.push(ToolType::ReadFiles);
        tools.push(ToolType::ApplyFileDiffs);
        if flags.remote_codebase_indexing {
            tools.push(ToolType::SearchCodebase);
        }
    }
    assert(tools@ =~= old(tools)@ + session_tools(*params, *flags));
}

/// Appends the computer-use tools when they are allowed.
fn push_computer_use_tools(
    tools: &mut Vec<ToolType>,
    params: &ToolRequestParams,
    flags: &ToolFeatureFlags,
)
    ensures
        final(tools)@ == old(tools)@ + computer_use_tools(*params, *flags),
{
    if flags.agent_mode_computer_use && params.computer_use_enabled {
        tools.push(ToolType::UseComputer);
        tools.push(ToolType::RequestComputerUse);
        if flags.video_recording {
            tools.push(ToolType::StartRecording);
            tools.push(ToolType::StopRecording);
        }
    }
    assert(tools@ =~= old(tools)@ + computer_use_tools(*params, *flags));
}

/// Appends the orchestration tools when orchestration is enabled.
fn push_orchestration_tools(tools: &mut Vec<ToolType>, enabled: bool)
    ensures
        final(tools)@ == old(tools)@ + when(
            enabled,
            seq![ToolType::RunAgents, ToolType::SendMessageToAgent, ToolType::WaitForEvents],
        ),
{
    if enabled {
        tools.push(ToolType::RunAgents);
        tools.push(ToolType::SendMessageToAgent);
        // Declared so that the server does not fall back to its own form of waiting.
        tools.push(ToolType::WaitForEvents);
    }
    assert(tools@ =~= old(tools)@ + when(
        enabled,
        seq![ToolType::RunAgents, ToolType::SendMessageToAgent, ToolType::WaitForEvents],
    ));
}

/// Appends `tool` when `cond` holds.
fn push_when(tools: &mut Vec<ToolType>, cond: bool, tool: ToolType)
    ensures
        final(tools)@ == old(tools)@ + when(cond, seq![tool]),
{
    if cond {
        tools.push(tool);
    }
    assert(tools@ =~= old(tools)@ + when(cond, seq![tool]));
}

/// Returns the tools an agent request declares support for.
pub fn get_supported_tools(params: &ToolRequestParams, flags: &ToolFeatureFlags) -> (r: Vec<
    ToolType,
>)
    ensures
        r@ == supported_tools_spec(*params, *flags),
{
    let mut tools = base_tool_vec();
    push_when(&mut tools, flags.conversations_as_context, ToolType::FetchConversation);
    push_session_tools(&mut tools, params, flags);
    push_computer_use_tools(&mut tools, params, flags);
    push_when(&mut tools, true, ToolType::InsertReviewComments);
    push_when(&mut tools, flags.list_skills, ToolType::ReadSkill);
    push_orchestration_tools(&mut tools, params.orchestration_enabled);
    push_when(
        &mut tools,
        flags.ask_user_question && params.ask_user_question_enabled,
        ToolType::AskUserQuestion,
    );
    tools
}

/// Returns the tools a CLI-agent request declares support for.
pub fn get_supported_cli_agent_tools(params: &ToolRequestParams, flags: &ToolFeatureFlags) -> (r:
    Vec<ToolType>)
    ensures
        r@ == supported_cli_agent_tools_spec(*params, *flags),
{
    let mut tools: Vec<ToolType> = Vec::new();
    tools.push(ToolType::WriteToLongRunningShellCommand);
    tools.push(ToolType::ReadShellCommandOutput);
    tools.push(ToolType::Grep);
    tools.push(ToolType::FileGlob);
    tools.push(ToolType::FileGlobV2);
    let ghost s0 = tools@;

    if flags.transfer_control_tool {
        tools.push(ToolType::TransferShellCommandControlToUser);
    }
    let ghost s1 = tools@;
    assert(s1 =~= s0 + when(
        flags.transfer_control_tool,
        seq![ToolType::TransferShellCommandControlToUser],
    ));

    let (local, connected_remote) = classify_session(&params.session_type);
    if local {
        tools.push(ToolType::ReadFiles);
        tools.push(ToolType::SearchCodebase);
    } else if connected_remote {
        tools.push(ToolType::ReadFiles);
        if flags.remote_codebase_indexing {
            tools.push(ToolType::SearchCodebase);
        }
    }
    assert(tools@ =~= supported_cli_agent_tools_spec(*params, *flags));
    tools
}

/// Whether the agent backend supports the second orchestration protocol: exactly when
/// orchestration is enabled.
pub fn supports_orchestration_v2(orchestration_enabled: bool) -> (r: bool)
    ensures
        r == orchestration_enabled,
{
    orchestration_enabled
}

/// Law: a remote session whose host is not yet known is offered no file tools, in either
/// kind of request: they could not be routed anywhere.
pub proof fn lemma_unconnected_remote_gets_no_file_tools(
    p: ToolRequestParams,
    f: ToolFeatureFlags,
)
    requires
        p.session_type matches Some(SessionType::HeddlifiedRemote { host_id }) && host_id is None,
    ensures
        !supported_tools_spec(p, f).contains(ToolType::ReadFiles),
        !supported_tools_spec(p, f).contains(ToolType::ApplyFileDiffs),
        !supported_tools_spec(p, f).contains(ToolType::SearchCodebase),
        !supported_cli_agent_tools_spec(p, f).contains(ToolType::ReadFiles),
        !supported_cli_agent_tools_spec(p, f).contains(ToolType::SearchCodebase),
{
    let s = supported_tools_spec(p, f);
    assert(session_tools(p, f) =~= Seq::<ToolType>::empty());
    assert forall|i: int| 0 <= i < s.len() implies #[trigger] s[i] != ToolType::ReadFiles
        && s[i] != ToolType::ApplyFileDiffs && s[i] != ToolType::SearchCodebase by {
    }
    let c = supported_cli_agent_tools_spec(p, f);
    assert forall|i: int| 0 <= i < c.len() implies #[trigger] c[i] != ToolType::ReadFiles
        && c[i] != ToolType::SearchCodebase by {
    }
}

/// Whether `x` occurs in `a + b` is whether it occurs in either.
proof fn lemma_concat_contains(a: Seq<ToolType>, b: Seq<ToolType>, x: ToolType)
    ensures
        (a + b).contains(x) <==> a.contains(x) || b.contains(x),
{
    if a.contains(x) {
        let i = choose|i: int| 0 <= i < a.len() && a[i] == x;
        assert((a + b)[i] == x);
    }
    if b.contains(x) {
        let i = choose|i: int| 0 <= i < b.len() && b[i] == x;
        assert((a + b)[a.len() + i] == x);
    }
    if (a + b).contains(x) {
        let i = choose|i: int| 0 <= i < (a + b).len() && (a + b)[i] == x;
        if i < a.len() {
            assert(a[i] == x);
        } else {
            assert(b[i - a.len()] == x);
        }
    }
}

/// Law: the orchestration tools are declared exactly when orchestration is enabled.
pub proof fn lemma_orchestration_tools_iff_enabled(p: ToolRequestParams, f: ToolFeatureFlags)
    ensures
        supported_tools_spec(p, f).contains(ToolType::RunAgents) <==> p.orchestration_enabled,
        supported_tools_spec(p, f).contains(ToolType::WaitForEvents) <==> p.orchestration_enabled,
{
    let w1 = when(f.conversations_as_context, seq![ToolType::FetchConversation]);
    let st = session_tools(p, f);
    let cu = computer_use_tools(p, f);
    let irc = seq![ToolType::InsertReviewComments];
    let sk = when(f.list_skills, seq![ToolType::ReadSkill]);
    let orch = when(
        p.orchestration_enabled,
        seq![ToolType::RunAgents, ToolType::SendMessageToAgent, ToolType::WaitForEvents],
    );
    let ask = when(f.ask_user_question && p.ask_user_question_enabled, seq![ToolType::AskUserQuestion]);
    let before = base_tools() + w1 + st + cu + irc + sk;
    assert(supported_tools_spec(p, f) == before + orch + ask);
    assert forall|x: ToolType|
        x == ToolType::RunAgents || x == ToolType::WaitForEvents implies (
        #[trigger] supported_tools_spec(p, f).contains(x) <==> p.orchestration_enabled) by {
        lemma_concat_contains(before + orch, ask, x);
        lemma_concat_contains(before, orch, x);
        lemma_concat_contains(base_tools() + w1 + st + cu + irc, sk, x);
        lemma_concat_contains(base_tools() + w1 + st + cu, irc, x);
        lemma_concat_contains(base_tools() + w1 + st, cu, x);
        lemma_concat_contains(base_tools() + w1, st, x);
        lemma_concat_contains(base_tools(), w1, x);
        if cu.len() > 0 {
            lemma_concat_contains(
                seq![ToolType::UseComputer, ToolType::RequestComputerUse],
                when(f.video_recording, seq![ToolType::StartRecording, ToolType::StopRecording]),
                x,
            );
        }
        if p.orchestration_enabled {
            assert(orch[if x == ToolType::RunAgents { 0int } else { 2int }] == x);
        }
    }
}

/// The condition under which an agent request declares the tool `x`.
pub open spec fn tool_declared_when(p: ToolRequestParams, f: ToolFeatureFlags, x: ToolType) -> bool {
    let local = is_local_session(p.session_type);
    let remote = is_connected_remote(p.session_type);
    let computer_use = f.agent_mode_computer_use && p.computer_use_enabled;
    match x {
        ToolType::FetchConversation => f.conversations_as_context,
        ToolType::ReadFiles | ToolType::ApplyFileDiffs => local || remote,
        ToolType::SearchCodebase => local || (remote && f.remote_codebase_indexing),
        ToolType::UploadFileArtifact => local && f.artifact_command,
        ToolType::UseComputer | ToolType::RequestComputerUse => computer_use,
        ToolType::StartRecording | ToolType::StopRecording => computer_use && f.video_recording,
        ToolType::ReadSkill => f.list_skills,
        ToolType::RunAgents | ToolType::SendMessageToAgent | ToolType::WaitForEvents => p.orchestration_enabled,
        ToolType::AskUserQuestion => f.ask_user_question && p.ask_user_question_enabled,
        ToolType::TransferShellCommandControlToUser => false,
        _ => true,
    }
}

/// The condition under which a CLI-agent request declares the tool `x`.
pub open spec fn cli_tool_declared_when(p: ToolRequestParams, f: ToolFeatureFlags, x: ToolType) -> bool {
    let local = is_local_session(p.session_type);
    let remote = is_connected_remote(p.session_type);
    match x {
        ToolType::WriteToLongRunningShellCommand | ToolType::ReadShellCommandOutput | ToolType::Grep
        | ToolType::FileGlob | ToolType::FileGlobV2 => true,
        ToolType::TransferShellCommandControlToUser => f.transfer_control_tool,
        ToolType::ReadFiles => local || remote,
        ToolType::SearchCodebase => local || (remote && f.remote_codebase_indexing),
        _ => false,
    }
}

/// Whether `x` occurs in `when(c, s)`.
proof fn lemma_when_contains(c: bool, s: Seq<ToolType>, x: ToolType)
    ensures
        (when(c, s)).contains(x) <==> c && s.contains(x),
{
}

/// Whether `x` is one of the tools every agent request declares.
proof fn lemma_base_contains(x: ToolType)
    ensures
        base_tools().contains(x) <==> match x {
            ToolType::Grep | ToolType::FileGlob | ToolType::FileGlobV2 | ToolType::ReadMcpResource
            | ToolType::CallMcpTool | ToolType::InitProject | ToolType::OpenCodeReview
            | ToolType::RunShellCommand | ToolType::SuggestNewConversation | ToolType::Subagent
            | ToolType::WriteToLongRunningShellCommand | ToolType::ReadShellCommandOutput
            | ToolType::ReadDocuments | ToolType::CreateDocuments | ToolType::EditDocuments
            | ToolType::SuggestPrompt => true,
            _ => false,
        },
{
    let b = base_tools();
    if b.contains(x) {
        let i = choose|i: int| 0 <= i < b.len() && b[i] == x;
        assert(0 <= i < 16);
    }
    match x {
        ToolType::Grep => assert(b[0] == x),
        ToolType::FileGlob => assert(b[1] == x),
        ToolType::FileGlobV2 => assert(b[2] == x),
        ToolType::ReadMcpResource => assert(b[3] == x),
        ToolType::CallMcpTool => assert(b[4] == x),
        ToolType::InitProject => assert(b[5] == x),
        ToolType::OpenCodeReview => assert(b[6] == x),
        ToolType::RunShellCommand => assert(b[7] == x),
        ToolType::SuggestNewConversation => assert(b[8] == x),
        ToolType::Subagent => assert(b[9] == x),
        ToolType::WriteToLongRunningShellCommand => assert(b[10] == x),
        ToolType::ReadShellCommandOutput => assert(b[11] == x),
        ToolType::ReadDocuments => assert(b[12] == x),
        ToolType::CreateDocuments => assert(b[13] == x),
        ToolType::EditDocuments => assert(b[14] == x),
        ToolType::SuggestPrompt => assert(b[15] == x),
        _ => {},
    }
}

/// Law: an agent request declares each tool exactly under its condition. Every request
/// declares the shell, search, MCP, document and review tools. A local session (or none
/// known) gets the file tools and codebase search; a remote one whose host is known gets the
/// file tools, and codebase search only with remote codebase indexing on; a remote one whose
/// host is unknown gets neither. Artifact upload needs a local session and its flag; the
/// computer-use tools need both the flag and the request's switch (recording also its
/// flag); skills need their flag; the orchestration tools need orchestration enabled; asking
/// the user needs both its flag and the request's switch. Shell-control transfer is only
/// ever a CLI-agent tool.
pub proof fn lemma_declared_tools(p: ToolRequestParams, f: ToolFeatureFlags, x: ToolType)
    ensures
        supported_tools_spec(p, f).contains(x) <==> tool_declared_when(p, f, x),
{
    let w1 = when(f.conversations_as_context, seq![ToolType::FetchConversation]);
    let st = session_tools(p, f);
    let cu = computer_use_tools(p, f);
    let irc = seq![ToolType::InsertReviewComments];
    let sk = when(f.list_skills, seq![ToolType::ReadSkill]);
    let orch_list = seq![ToolType::RunAgents, ToolType::SendMessageToAgent, ToolType::WaitForEvents];
    let orch = when(p.orchestration_enabled, orch_list);
    let ask = when(f.ask_user_question && p.ask_user_question_enabled, seq![ToolType::AskUserQuestion]);
    assert(supported_tools_spec(p, f) == base_tools() + w1 + st + cu + irc + sk + orch + ask);
    lemma_concat_contains(base_tools() + w1 + st + cu + irc + sk + orch, ask, x);
    lemma_concat_contains(base_tools() + w1 + st + cu + irc + sk, orch, x);
    lemma_concat_contains(base_tools() + w1 + st + cu + irc, sk, x);
    lemma_concat_contains(base_tools() + w1 + st + cu, irc, x);
    lemma_concat_contains(base_tools() + w1 + st, cu, x);
    lemma_concat_contains(base_tools() + w1, st, x);
    lemma_concat_contains(base_tools(), w1, x);
    lemma_base_contains(x);
    lemma_when_contains(f.conversations_as_context, seq![ToolType::FetchConversation], x);
    lemma_when_contains(f.list_skills, seq![ToolType::ReadSkill], x);
    lemma_when_contains(p.orchestration_enabled, orch_list, x);
    lemma_when_contains(f.ask_user_question && p.ask_user_question_enabled, seq![ToolType::AskUserQuestion], x);
    let rec = when(f.video_recording, seq![ToolType::StartRecording, ToolType::StopRecording]);
    let cu_list = seq![ToolType::UseComputer, ToolType::RequestComputerUse] + rec;
    lemma_when_contains(f.agent_mode_computer_use && p.computer_use_enabled, cu_list, x);
    lemma_concat_contains(seq![ToolType::UseComputer, ToolType::RequestComputerUse], rec, x);
    lemma_when_contains(f.video_recording, seq![ToolType::StartRecording, ToolType::StopRecording], x);
    let local_files = seq![ToolType::ReadFiles, ToolType::ApplyFileDiffs, ToolType::SearchCodebase];
    let upload = when(f.artifact_command, seq![ToolType::UploadFileArtifact]);
    let remote_files = seq![ToolType::ReadFiles, ToolType::ApplyFileDiffs];
    let search = when(f.remote_codebase_indexing, seq![ToolType::SearchCodebase]);
    lemma_concat_contains(local_files, upload, x);
    lemma_concat_contains(remote_files, search, x);
    lemma_when_contains(f.artifact_command, seq![ToolType::UploadFileArtifact], x);
    lemma_when_contains(f.remote_codebase_indexing, seq![ToolType::SearchCodebase], x);
    lemma_small_contains(x);
}

/// Membership in the short tool lists above.
proof fn lemma_small_contains(x: ToolType)
    ensures
        seq![ToolType::FetchConversation].contains(x) <==> x == ToolType::FetchConversation,
        seq![ToolType::ReadSkill].contains(x) <==> x == ToolType::ReadSkill,
        seq![ToolType::InsertReviewComments].contains(x) <==> x == ToolType::InsertReviewComments,
        seq![ToolType::AskUserQuestion].contains(x) <==> x == ToolType::AskUserQuestion,
        seq![ToolType::UploadFileArtifact].contains(x) <==> x == ToolType::UploadFileArtifact,
        seq![ToolType::SearchCodebase].contains(x) <==> x == ToolType::SearchCodebase,
        seq![ToolType::ReadFiles].contains(x) <==> x == ToolType::ReadFiles,
        seq![ToolType::TransferShellCommandControlToUser].contains(x) <==> x
            == ToolType::TransferShellCommandControlToUser,
        seq![ToolType::UseComputer, ToolType::RequestComputerUse].contains(x) <==> (x
            == ToolType::UseComputer || x == ToolType::RequestComputerUse),
        seq![ToolType::StartRecording, ToolType::StopRecording].contains(x) <==> (x
            == ToolType::StartRecording || x == ToolType::StopRecording),
        seq![ToolType::ReadFiles, ToolType::ApplyFileDiffs].contains(x) <==> (x
            == ToolType::ReadFiles || x == ToolType::ApplyFileDiffs),
        seq![ToolType::ReadFiles, ToolType::SearchCodebase].contains(x) <==> (x
            == ToolType::ReadFiles || x == ToolType::SearchCodebase),
        seq![ToolType::ReadFiles, ToolType::ApplyFileDiffs, ToolType::SearchCodebase].contains(x)
            <==> (x == ToolType::ReadFiles || x == ToolType::ApplyFileDiffs || x
            == ToolType::SearchCodebase),
        seq![ToolType::RunAgents, ToolType::SendMessageToAgent, ToolType::WaitForEvents].contains(x)
            <==> (x == ToolType::RunAgents || x == ToolType::SendMessageToAgent || x
            == ToolType::WaitForEvents),
        seq![
            ToolType::WriteToLongRunningShellCommand,
            ToolType::ReadShellCommandOutput,
            ToolType::Grep,
            ToolType::FileGlob,
            ToolType::FileGlobV2,
        ].contains(x) <==> (x == ToolType::WriteToLongRunningShellCommand || x
            == ToolType::ReadShellCommandOutput || x == ToolType::Grep || x == ToolType::FileGlob
            || x == ToolType::FileGlobV2),
{
    let s1 = seq![ToolType::FetchConversation];
    let s2 = seq![ToolType::ReadSkill];
    let s3 = seq![ToolType::InsertReviewComments];
    let s4 = seq![ToolType::AskUserQuestion];
    let s5 = seq![ToolType::UploadFileArtifact];
    let s6 = seq![ToolType::SearchCodebase];
    let s7 = seq![ToolType::ReadFiles];
    let s8 = seq![ToolType::TransferShellCommandControlToUser];
    let t1 = seq![ToolType::UseComputer, ToolType::RequestComputerUse];
    let t2 = seq![ToolType::StartRecording, ToolType::StopRecording];
    let t3 = seq![ToolType::ReadFiles, ToolType::ApplyFileDiffs];
    let t4 = seq![ToolType::ReadFiles, ToolType::SearchCodebase];
    let u1 = seq![ToolType::ReadFiles, ToolType::ApplyFileDiffs, ToolType::SearchCodebase];
    let u2 = seq![ToolType::RunAgents, ToolType::SendMessageToAgent, ToolType::WaitForEvents];
    let v = seq![
        ToolType::WriteToLongRunningShellCommand,
        ToolType::ReadShellCommandOutput,
        ToolType::Grep,
        ToolType::FileGlob,
        ToolType::FileGlobV2,
    ];
    assert(s1[0] == ToolType::FetchConversation);
    assert(s2[0] == ToolType::ReadSkill);
    assert(s3[0] == ToolType::InsertReviewComments);
    assert(s4[0] == ToolType::AskUserQuestion);
    assert(s5[0] == ToolType::UploadFileArtifact);
    assert(s6[0] == ToolType::SearchCodebase);
    assert(s7[0] == ToolType::ReadFiles);
    assert(s8[0] == ToolType::TransferShellCommandControlToUser);
    assert(t1[0] == ToolType::UseComputer && t1[1] == ToolType::RequestComputerUse);
    assert(t2[0] == ToolType::StartRecording && t2[1] == ToolType::StopRecording);
    assert(t3[0] == ToolType::ReadFiles && t3[1] == ToolType::ApplyFileDiffs);
    assert(t4[0] == ToolType::ReadFiles && t4[1] == ToolType::SearchCodebase);
    assert(u1[0] == ToolType::ReadFiles && u1[1] == ToolType::ApplyFileDiffs && u1[2]
        == ToolType::SearchCodebase);
    assert(u2[0] == ToolType::RunAgents && u2[1] == ToolType::SendMessageToAgent && u2[2]
        == ToolType::WaitForEvents);
    assert(v[0] == ToolType::WriteToLongRunningShellCommand && v[1]
        == ToolType::ReadShellCommandOutput && v[2] == ToolType::Grep && v[3] == ToolType::FileGlob
        && v[4] == ToolType::FileGlobV2);
}

/// Law: a CLI-agent request declares each tool exactly under its condition: the shell,
/// grep and glob tools always; shell-control transfer with its flag; file reading for a
/// local session (or none known) or a remote one whose host is known; codebase search for a
/// local session, and for a connected remote one only with remote codebase indexing on; and
/// nothing else.
pub proof fn lemma_declared_cli_agent_tools(p: ToolRequestParams, f: ToolFeatureFlags, x: ToolType)
    ensures
        supported_cli_agent_tools_spec(p, f).contains(x) <==> cli_tool_declared_when(p, f, x),
{
    let head = seq![
        ToolType::WriteToLongRunningShellCommand,
        ToolType::ReadShellCommandOutput,
        ToolType::Grep,
        ToolType::FileGlob,
        ToolType::FileGlobV2,
    ];
    let tr = when(f.transfer_control_tool, seq![ToolType::TransferShellCommandControlToUser]);
    let search = when(f.remote_codebase_indexing, seq![ToolType::SearchCodebase]);
    let tail = if is_local_session(p.session_type) {
        seq![ToolType::ReadFiles, ToolType::SearchCodebase]
    } else if is_connected_remote(p.session_type) {
        seq![ToolType::ReadFiles] + search
    } else {
        Seq::empty()
    };
    assert(supported_cli_agent_tools_spec(p, f) == head + tr + tail);
    lemma_concat_contains(head + tr, tail, x);
    lemma_concat_contains(head, tr, x);
    lemma_concat_contains(seq![ToolType::ReadFiles], search, x);
    lemma_when_contains(f.transfer_control_tool, seq![ToolType::TransferShellCommandControlToUser], x);
    lemma_when_contains(f.remote_codebase_indexing, seq![ToolType::SearchCodebase], x);
    lemma_small_contains(x);
}

/// The place of each tool in an agent request's list.
pub open spec fn tool_place(x: ToolType) -> int {
    match x {
        ToolType::Grep => 0,
        ToolType::FileGlob => 1,
        ToolType::FileGlobV2 => 2,
        ToolType::ReadMcpResource => 3,
        ToolType::CallMcpTool => 4,
        ToolType::InitProject => 5,
        ToolType::OpenCodeReview => 6,
        ToolType::RunShellCommand => 7,
        ToolType::SuggestNewConversation => 8,
        ToolType::Subagent => 9,
        ToolType::WriteToLongRunningShellCommand => 10,
        ToolType::ReadShellCommandOutput => 11,
        ToolType::ReadDocuments => 12,
        ToolType::CreateDocuments => 13,
        ToolType::EditDocuments => 14,
        ToolType::SuggestPrompt => 15,
        ToolType::FetchConversation => 16,
        ToolType::ReadFiles => 17,
        ToolType::ApplyFileDiffs => 18,
        ToolType::SearchCodebase => 19,
        ToolType::UploadFileArtifact => 20,
        ToolType::UseComputer => 21,
        ToolType::RequestComputerUse => 22,
        ToolType::StartRecording => 23,
        ToolType::StopRecording => 24,
        ToolType::InsertReviewComments => 25,
        ToolType::ReadSkill => 26,
        ToolType::RunAgents => 27,
        ToolType::SendMessageToAgent => 28,
        ToolType::WaitForEvents => 29,
        ToolType::AskUserQuestion => 30,
        ToolType::TransferShellCommandControlToUser => 31,
    }
}

/// The place of each tool in a CLI-agent request's list.
pub open spec fn cli_tool_place(x: ToolType) -> int {
    match x {
        ToolType::WriteToLongRunningShellCommand => 0,
        ToolType::ReadShellCommandOutput => 1,
        ToolType::Grep => 2,
        ToolType::FileGlob => 3,
        ToolType::FileGlobV2 => 4,
        ToolType::TransferShellCommandControlToUser => 5,
        ToolType::ReadFiles => 6,
        ToolType::SearchCodebase => 7,
        _ => 8,
    }
}

/// Whether `s` lists tools in strictly increasing `place`, each place in `lo..hi`.
pub open spec fn in_order(s: Seq<ToolType>, place: spec_fn(ToolType) -> int, lo: int, hi: int) -> bool {
    &&& forall|i: int| 0 <= i < s.len() ==> lo <= #[trigger] place(s[i]) < hi
    &&& forall|i: int, j: int| 0 <= i < j < s.len() ==> place(#[trigger] s[i]) < place(#[trigger] s[j])
}

/// Two lists in order, the first wholly before the second, are in order together.
proof fn lemma_in_order_concat(
    a: Seq<ToolType>,
    b: Seq<ToolType>,
    place: spec_fn(ToolType) -> int,
    lo: int,
    mid: int,
    hi: int,
)
    requires
        lo <= mid <= hi,
        in_order(a, place, lo, mid),
        in_order(b, place, mid, hi),
    ensures
        in_order(a + b, place, lo, hi),
{
    let c = a + b;
    assert forall|i: int| 0 <= i < c.len() implies lo <= #[trigger] place(c[i]) < hi by {
        if i < a.len() {
            assert(c[i] == a[i]);
            assert(lo <= place(a[i]) < mid);
            assert(place(c[i]) == place(a[i]));
        } else {
            assert(c[i] == b[i - a.len()]);
            assert(mid <= place(b[i - a.len()]) < hi);
            assert(place(c[i]) == place(b[i - a.len()]));
        }
    }
    assert forall|i: int, j: int| 0 <= i < j < c.len() implies place(#[trigger] c[i]) < place(
        #[trigger] c[j],
    ) by {
        if j < a.len() {
            assert(c[i] == a[i] && c[j] == a[j]);
        } else if i >= a.len() {
            assert(c[i] == b[i - a.len()] && c[j] == b[j - a.len()]);
        } else {
            assert(c[i] == a[i] && c[j] == b[j - a.len()]);
            assert(lo <= place(a[i]) < mid);
            assert(mid <= place(b[j - a.len()]) < hi);
        }
    }
}

/// A list whose tools sit at consecutive places from `lo` is in order.
proof fn lemma_in_order_consecutive(s: Seq<ToolType>, place: spec_fn(ToolType) -> int, lo: int)
    requires
        forall|i: int| 0 <= i < s.len() ==> #[trigger] place(s[i]) == lo + i,
    ensures
        in_order(s, place, lo, lo + s.len()),
{
    assert forall|i: int, j: int| 0 <= i < j < s.len() implies place(#[trigger] s[i]) < place(
        #[trigger] s[j],
    ) by {
        assert(place(s[i]) == lo + i);
        assert(place(s[j]) == lo + j);
    }
}

/// An optional part is in order when its list is, and an empty list always is.
proof fn lemma_in_order_when(c: bool, s: Seq<ToolType>, place: spec_fn(ToolType) -> int, lo: int, hi: int)
    requires
        in_order(s, place, lo, hi),
    ensures
        in_order(when(c, s), place, lo, hi),
{
}

/// Law: an agent request lists its tools in one fixed order (`tool_place`), each at most
/// once: whatever the session, switches and flags, a tool never appears twice and two tools
/// never swap places.
pub proof fn lemma_declared_tools_in_order(p: ToolRequestParams, f: ToolFeatureFlags)
    ensures
        forall|i: int, j: int|
            0 <= i < j < supported_tools_spec(p, f).len() ==> tool_place(
                #[trigger] supported_tools_spec(p, f)[i],
            ) < tool_place(#[trigger] supported_tools_spec(p, f)[j]),
{
    let pl = |x: ToolType| tool_place(x);
    let b = base_tools();
    assert forall|i: int| 0 <= i < b.len() implies #[trigger] pl(b[i]) == 0 + i by {
        assert(0 <= i < 16);
    }
    lemma_in_order_consecutive(b, pl, 0);
    let w1 = when(f.conversations_as_context, seq![ToolType::FetchConversation]);
    lemma_in_order_consecutive(seq![ToolType::FetchConversation], pl, 16);
    lemma_in_order_when(f.conversations_as_context, seq![ToolType::FetchConversation], pl, 16, 17);
    let local_files = seq![ToolType::ReadFiles, ToolType::ApplyFileDiffs, ToolType::SearchCodebase];
    let upload = seq![ToolType::UploadFileArtifact];
    lemma_in_order_consecutive(local_files, pl, 17);
    lemma_in_order_consecutive(upload, pl, 20);
    lemma_in_order_when(f.artifact_command, upload, pl, 20, 21);
    lemma_in_order_concat(local_files, when(f.artifact_command, upload), pl, 17, 20, 21);
    let remote_files = seq![ToolType::ReadFiles, ToolType::ApplyFileDiffs];
    let search = seq![ToolType::SearchCodebase];
    lemma_in_order_consecutive(remote_files, pl, 17);
    lemma_in_order_consecutive(search, pl, 19);
    lemma_in_order_when(f.remote_codebase_indexing, search, pl, 19, 21);
    assert(in_order(remote_files, pl, 17, 19));
    lemma_in_order_concat(remote_files, when(f.remote_codebase_indexing, search), pl, 17, 19, 21);
    let st = session_tools(p, f);
    assert(in_order(st, pl, 17, 21));
    let uc = seq![ToolType::UseComputer, ToolType::RequestComputerUse];
    let rec = seq![ToolType::StartRecording, ToolType::StopRecording];
    lemma_in_order_consecutive(uc, pl, 21);
    lemma_in_order_consecutive(rec, pl, 23);
    lemma_in_order_when(f.video_recording, rec, pl, 23, 25);
    lemma_in_order_concat(uc, when(f.video_recording, rec), pl, 21, 23, 25);
    lemma_in_order_when(
        f.agent_mode_computer_use && p.computer_use_enabled,
        uc + when(f.video_recording, rec),
        pl,
        21,
        25,
    );
    let cu = computer_use_tools(p, f);
    let irc = seq![ToolType::InsertReviewComments];
    lemma_in_order_consecutive(irc, pl, 25);
    let sk = seq![ToolType::ReadSkill];
    lemma_in_order_consecutive(sk, pl, 26);
    lemma_in_order_when(f.list_skills, sk, pl, 26, 27);
    let orch = seq![ToolType::RunAgents, ToolType::SendMessageToAgent, ToolType::WaitForEvents];
    lemma_in_order_consecutive(orch, pl, 27);
    lemma_in_order_when(p.orchestration_enabled, orch, pl, 27, 30);
    let ask = seq![ToolType::AskUserQuestion];
    lemma_in_order_consecutive(ask, pl, 30);
    lemma_in_order_when(f.ask_user_question && p.ask_user_question_enabled, ask, pl, 30, 31);
    let a1 = b + w1;
    lemma_in_order_concat(b, w1, pl, 0, 16, 17);
    lemma_in_order_concat(a1, st, pl, 0, 17, 21);
    lemma_in_order_concat(a1 + st, cu, pl, 0, 21, 25);
    lemma_in_order_concat(a1 + st + cu, irc, pl, 0, 25, 26);
    let wsk = when(f.list_skills, sk);
    lemma_in_order_concat(a1 + st + cu + irc, wsk, pl, 0, 26, 27);
    let worch = when(p.orchestration_enabled, orch);
    lemma_in_order_concat(a1 + st + cu + irc + wsk, worch, pl, 0, 27, 30);
    let wask = when(f.ask_user_question && p.ask_user_question_enabled, ask);
    lemma_in_order_concat(a1 + st + cu + irc + wsk + worch, wask, pl, 0, 30, 31);
    assert(supported_tools_spec(p, f) == a1 + st + cu + irc + wsk + worch + wask);
}

/// Law: a CLI-agent request lists its tools in one fixed order (`cli_tool_place`), each at
/// most once.
pub proof fn lemma_declared_cli_agent_tools_in_order(p: ToolRequestParams, f: ToolFeatureFlags)
    ensures
        forall|i: int, j: int|
            0 <= i < j < supported_cli_agent_tools_spec(p, f).len() ==> cli_tool_place(
                #[trigger] supported_cli_agent_tools_spec(p, f)[i],
            ) < cli_tool_place(#[trigger] supported_cli_agent_tools_spec(p, f)[j]),
{
    let pl = |x: ToolType| cli_tool_place(x);
    let head = seq![
        ToolType::WriteToLongRunningShellCommand,
        ToolType::ReadShellCommandOutput,
        ToolType::Grep,
        ToolType::FileGlob,
        ToolType::FileGlobV2,
    ];
    lemma_in_order_consecutive(head, pl, 0);
    let tr = seq![ToolType::TransferShellCommandControlToUser];
    lemma_in_order_consecutive(tr, pl, 5);
    lemma_in_order_when(f.transfer_control_tool, tr, pl, 5, 6);
    let wtr = when(f.transfer_control_tool, tr);
    lemma_in_order_concat(head, wtr, pl, 0, 5, 6);
    let local = seq![ToolType::ReadFiles, ToolType::SearchCodebase];
    lemma_in_order_consecutive(local, pl, 6);
    let rf = seq![ToolType::ReadFiles];
    let search = seq![ToolType::SearchCodebase];
    lemma_in_order_consecutive(rf, pl, 6);
    lemma_in_order_consecutive(search, pl, 7);
    lemma_in_order_when(f.remote_codebase_indexing, search, pl, 7, 8);
    lemma_in_order_concat(rf, when(f.remote_codebase_indexing, search), pl, 6, 7, 8);
    let tail = if is_local_session(p.session_type) {
        local
    } else if is_connected_remote(p.session_type) {
        rf + when(f.remote_codebase_indexing, search)
    } else {
        Seq::empty()
    };
    assert(in_order(tail, pl, 6, 8));
    lemma_in_order_concat(head + wtr, tail, pl, 0, 6, 8);
    assert(supported_cli_agent_tools_spec(p, f) == head + wtr + tail);
}

/// The API-key settings of an agent request: the keys themselves (`P`), and whether the
/// user allows falling back to the built-in credits.
#[derive(Debug, Clone, Default)]
pub struct ApiKeys<P> {
    pub provider_keys: P,
    pub allow_use_of_warp_credits: bool,
}

/// Applies the credit-fallback setting to the request's API keys. Keys that are present
/// carry the setting; without keys, a request that allows the fallback still declares it,
/// with default keys, and one that does not sends no key settings at all.
pub fn api_keys_with_warp_credit_fallback_setting<P: Default>(
    api_keys: Option<ApiKeys<P>>,
    allow_use_of_warp_credits: bool,
) -> (r: Option<ApiKeys<P>>)
    ensures
        match api_keys {
            Some(k) => r matches Some(n) && n.provider_keys == k.provider_keys
                && n.allow_use_of_warp_credits == allow_use_of_warp_credits,
            None => if allow_use_of_warp_credits {
                r matches Some(n) && n.allow_use_of_warp_credits
            } else {
                r is None
            },
        },
{
    match api_keys {
        Some(mut api_keys) => {
            api_keys.allow_use_of_warp_credits = allow_use_of_warp_credits;
            Some(api_keys)
        },
        None => if allow_use_of_warp_credits {
            Some(ApiKeys { provider_keys: P::default(), allow_use_of_warp_credits: true })
        } else {
            None
        },
    }
}

} // verus!
