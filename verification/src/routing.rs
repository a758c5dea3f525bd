//! Where a pane's follow-up prompt should be submitted.
//!
//! The routing is decided from what the pane's terminal model reports about its shared
//! session: whether it is an active viewer or sharer, whether it is an ambient-agent or
//! transcript pane, and the ambient task it is associated with, if any. A remote
//! conversation must never continue on the local agent.

use vstd::prelude::*;

verus! {

/// What a pane's terminal model reports about its shared session, as read by the
/// routing decision. `T` identifies an ambient agent task.
pub struct RoutingFacts<T> {
    /// The pane is connected as a live shared-session viewer.
    pub is_active_viewer: bool,
    /// The viewer may submit (read-only viewers may not).
    pub is_executor: bool,
    /// The pane is actively sharing its session.
    pub is_active_sharer: bool,
    /// The pane is a shared ambient-agent session.
    pub is_ambient: bool,
    /// The pane is a conversation transcript viewer.
    pub is_transcript_viewer: bool,
    /// The ambient task this pane is associated with, if any.
    pub ambient_agent_task_id: Option<T>,
}

/// How a follow-up prompt for a pane should be routed.
#[derive(Debug, Clone, PartialEq, Eq)]
pub enum AIQueryRouting<T> {
    /// Connected as a live shared-session viewer; the follow-up is forwarded to the sharer.
    /// `ambient_agent_task_id` is set only for ambient agent shared sessions.
    LiveRemoteVm { is_executor: bool, ambient_agent_task_id: Option<T> },
    /// A finished or non-resumable remote conversation; a follow-up must never run locally.
    UnconnectedReadOnly,
    /// Continues on the local machine.
    Local,
}

impl<T> AIQueryRouting<T> {
    /// Whether the follow-up runs on the local machine.
    pub fn is_local(&self) -> (r: bool)
        ensures
            r <==> *self is Local,
    {
        match self {
            AIQueryRouting::Local => true,
            _ => false,
        }
    }
}

/// The routing of a pane with the given facts.
pub open spec fn routing_spec<T>(f: RoutingFacts<T>) -> AIQueryRouting<T> {
    if f.is_active_viewer {
        AIQueryRouting::LiveRemoteVm {
            is_executor: f.is_executor,
            ambient_agent_task_id: f.ambient_agent_task_id,
        }
    } else if !f.is_ambient && !f.is_transcript_viewer {
        AIQueryRouting::Local
    } else if f.is_active_sharer {
        AIQueryRouting::Local
    } else if f.ambient_agent_task_id is None {
        AIQueryRouting::Local
    } else {
        AIQueryRouting::UnconnectedReadOnly
    }
}

/// Resolves the routing for a pane from what its terminal model reports.
///
/// A live viewer forwards its follow-up to the sharer, whether the shared session is an
/// ambient run or a shared local session. Ordinary local panes and local sharers run
/// locally. A disconnected ambient or transcript pane runs locally only when it has no
/// ambient task; with one, the run is remote and non-resumable here.
pub fn resolve_ai_query_routing<T>(facts: RoutingFacts<T>) -> (r: AIQueryRouting<T>)
    ensures
        r == routing_spec(facts),
{
    if facts.is_active_viewer {
        return AIQueryRouting::LiveRemoteVm {
            is_executor: facts.is_executor,
            ambient_agent_task_id: facts.ambient_agent_task_id,
        };
    }
    if !facts.is_ambient && !facts.is_transcript_viewer {
        return AIQueryRouting::Local;
    }
    if facts.is_active_sharer {
        return AIQueryRouting::Local;
    }
    if facts.ambient_agent_task_id.is_none() {
        return AIQueryRouting::Local;
    }
    AIQueryRouting::UnconnectedReadOnly
}

/// Whether the pane's conversation errored out before any run was created: never for a
/// transcript viewer, otherwise exactly when the first live conversation of the pane
/// reports an error status.
pub fn conversation_failed_before_task_creation(
    is_transcript_viewer: bool,
    first_live_conversation_errored: bool,
) -> (r: bool)
    ensures
        r <==> !is_transcript_viewer && first_live_conversation_errored,
{
    if is_transcript_viewer {
        return false;
    }
    first_live_conversation_errored
}

/// Law: a remote conversation never continues on the local agent. A disconnected
/// ambient or transcript pane that carries an ambient task is read-only, and a live
/// viewer always forwards to the sharer.
pub proof fn lemma_remote_runs_never_route_locally<T>(f: RoutingFacts<T>)
    ensures
        f.is_active_viewer ==> routing_spec(f) is LiveRemoteVm,
        !f.is_active_viewer && !f.is_active_sharer && (f.is_ambient || f.is_transcript_viewer)
            && f.ambient_agent_task_id is Some ==> routing_spec(f) is UnconnectedReadOnly,
        routing_spec(f) is LiveRemoteVm ==> f.is_active_viewer,
{
}

/// Law: each pane is routed by what it reports, case by case.
/// - An active viewer forwards to the sharer: the routing is a live remote one that carries
///   exactly the pane's own `is_executor` and ambient task, whether or not the session is
///   an ambient run. An executor viewer is never made read-only.
/// - Otherwise, a pane that is neither an ambient nor a transcript pane, or that is sharing
///   its session, runs locally.
/// - Otherwise (a disconnected ambient or transcript pane), it runs locally exactly when it
///   has no ambient task, and is read-only when it has one.
pub proof fn lemma_routing_follows_the_pane<T>(f: RoutingFacts<T>)
    ensures
        f.is_active_viewer ==> routing_spec(f) == (AIQueryRouting::LiveRemoteVm {
            is_executor: f.is_executor,
            ambient_agent_task_id: f.ambient_agent_task_id,
        }),
        !f.is_active_viewer && ((!f.is_ambient && !f.is_transcript_viewer) || f.is_active_sharer)
            ==> routing_spec(f) is Local,
        !f.is_active_viewer && (f.is_ambient || f.is_transcript_viewer) && !f.is_active_sharer
            ==> (routing_spec(f) is Local <==> f.ambient_agent_task_id is None),
        !f.is_active_viewer && (f.is_ambient || f.is_transcript_viewer) && !f.is_active_sharer
            ==> (routing_spec(f) is UnconnectedReadOnly <==> f.ambient_agent_task_id is Some),
{
}

} // verus!
