use heddle::routing::{
    conversation_failed_before_task_creation, resolve_ai_query_routing, AIQueryRouting,
    RoutingFacts,
};

fn ambient_task_id(index: usize) -> String {
    format!("550e8400-e29b-41d4-a716-{index:012}")
}

/// What a plain local terminal pane reports: no shared session at all.
fn local_pane() -> RoutingFacts<String> {
    RoutingFacts {
        is_active_viewer: false,
        is_executor: false,
        is_active_sharer: false,
        is_ambient: false,
        is_transcript_viewer: false,
        ambient_agent_task_id: None,
    }
}

/// What a pane attached to an ambient agent's shared session reports.
fn ambient_pane(task_id: String) -> RoutingFacts<String> {
    RoutingFacts {
        is_ambient: true,
        ambient_agent_task_id: Some(task_id),
        ..local_pane()
    }
}

#[test]
fn routing_is_local_for_non_cloud_pane() {
    assert_eq!(resolve_ai_query_routing(local_pane()), AIQueryRouting::Local);
}

#[test]
fn routing_is_live_remote_vm_for_active_viewer() {
    let facts = RoutingFacts {
        is_active_viewer: true,
        is_executor: false,
        ..ambient_pane(ambient_task_id(1))
    };
    assert_eq!(
        resolve_ai_query_routing(facts),
        AIQueryRouting::LiveRemoteVm {
            is_executor: false,
            ambient_agent_task_id: Some(ambient_task_id(1)),
        }
    );
}

#[test]
fn routing_omits_task_id_for_non_ambient_shared_session_viewer() {
    let facts = RoutingFacts {
        is_active_viewer: true,
        is_executor: true,
        ..local_pane()
    };
    assert_eq!(
        resolve_ai_query_routing(facts),
        AIQueryRouting::LiveRemoteVm {
            is_executor: true,
            ambient_agent_task_id: None,
        }
    );
}

#[test]
fn routing_is_local_for_active_sharer_local_orchestration_child() {
    let facts = RoutingFacts {
        is_active_sharer: true,
        ..ambient_pane(ambient_task_id(1))
    };
    assert_eq!(resolve_ai_query_routing(facts), AIQueryRouting::Local);
}

#[test]
fn a_disconnected_ambient_pane_with_a_task_is_read_only() {
    let routing = resolve_ai_query_routing(ambient_pane(ambient_task_id(2)));
    assert_eq!(routing, AIQueryRouting::UnconnectedReadOnly);
    assert!(!routing.is_local());
}

#[test]
fn a_transcript_viewer_without_a_task_runs_locally() {
    let facts = RoutingFacts {
        is_transcript_viewer: true,
        ..local_pane()
    };
    let routing = resolve_ai_query_routing(facts);
    assert_eq!(routing, AIQueryRouting::Local);
    assert!(routing.is_local());
}

#[test]
fn a_transcript_viewer_with_a_task_is_read_only() {
    let facts = RoutingFacts {
        is_transcript_viewer: true,
        ambient_agent_task_id: Some(ambient_task_id(3)),
        ..local_pane()
    };
    assert_eq!(
        resolve_ai_query_routing(facts),
        AIQueryRouting::UnconnectedReadOnly
    );
}

#[test]
fn only_a_live_conversation_error_counts_as_failing_before_the_task() {
    assert!(conversation_failed_before_task_creation(false, true));
    assert!(!conversation_failed_before_task_creation(false, false));
    assert!(!conversation_failed_before_task_creation(true, true));
    assert!(!conversation_failed_before_task_creation(true, false));
}
