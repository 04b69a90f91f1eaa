//! The rules that decide who receives a message and whether a retry is a
//! duplicate, exercised through the public operations of the workspace tables.

use borg_agent_runtime::store::WorkspaceTables;
use borg_agent_runtime::time::Timestamp;
use borg_agent_runtime::workspace::{
    Audience, DeliveryMode, DeliveryState, Participant, ParticipantKind, PresenceLease, Thread,
    Uuid, Workspace, WorkspaceEvent, WorkspaceEventKind, WorkspaceMembership, WorkspaceMessage,
    WorkspaceMessageBody, WorkspaceRole,
};

const NOW: i64 = 1_767_225_600;

fn at(offset: i64) -> Timestamp {
    Timestamp { secs: NOW + offset, nanos: 0 }
}

fn fresh() -> Uuid {
    uuid::Uuid::new_v4().as_u128()
}

fn participant(id: Uuid, name: &str) -> Participant {
    Participant {
        id,
        display_name: name.to_string(),
        kind: ParticipantKind::Agent,
        created_at: at(0),
    }
}

fn message_event(
    workspace_id: Uuid,
    author_id: Uuid,
    text: &str,
    audience: Audience,
    idempotency_key: &str,
) -> WorkspaceEvent {
    WorkspaceEvent {
        id: fresh(),
        workspace_id,
        sequence: 0,
        author_id,
        idempotency_key: idempotency_key.to_string(),
        created_at: at(0),
        kind: WorkspaceEventKind::Message {
            message: WorkspaceMessage {
                id: fresh(),
                workspace_id,
                thread_id: None,
                reply_to_message_id: None,
                author_id,
                body: WorkspaceMessageBody {
                    text: text.to_string(),
                    mentions: Vec::new(),
                    attachments: Vec::new(),
                },
                audience,
                created_at: at(0),
            },
            mode: DeliveryMode::Notify,
        },
    }
}

/// A workspace with three members: an author and two others.
fn workspace_with_members(store: &mut WorkspaceTables) -> (Uuid, Uuid, Uuid, Uuid) {
    let workspace_id = fresh();
    let author = fresh();
    let second = fresh();
    let third = fresh();
    for (id, name) in [(author, "author"), (second, "second"), (third, "third")] {
        store.create_participant(participant(id, name)).expect("create participant");
    }
    store
        .create_workspace(Workspace {
            id: workspace_id,
            name: "conformance".to_string(),
            created_at: at(0),
        })
        .expect("create workspace");
    for id in [author, second, third] {
        store
            .add_member(WorkspaceMembership {
                workspace_id,
                participant_id: id,
                role: WorkspaceRole::Editor,
                joined_at: at(0),
            })
            .expect("add member");
    }
    (workspace_id, author, second, third)
}

#[test]
fn an_appended_message_is_sequenced_and_replayable_by_its_recipients() {
    let mut store = WorkspaceTables::new();
    let (workspace_id, author, second, _third) = workspace_with_members(&mut store);

    let event = store
        .append(message_event(
            workspace_id,
            author,
            "hello workspace",
            Audience::Workspace,
            "key-1",
        ))
        .expect("append");
    assert_eq!(event.sequence, 1, "sequences start at one");

    assert_eq!(
        store.replay(workspace_id, author, 0, 50).expect("replay").len(),
        1,
        "an author sees their own event"
    );
    assert_eq!(
        store.replay(workspace_id, second, 0, 50).expect("replay").len(),
        1,
        "a recipient sees a delivered event"
    );

    assert!(
        store.replay(workspace_id, fresh(), 0, 50).is_err(),
        "a non-member must not read a workspace"
    );

    let second_event = store
        .append(message_event(
            workspace_id,
            author,
            "second message",
            Audience::Workspace,
            "key-2",
        ))
        .expect("append");
    assert_eq!(second_event.sequence, 2);
}

#[test]
fn an_idempotency_key_admits_once_and_rejects_a_changed_payload() {
    let mut store = WorkspaceTables::new();
    let (workspace_id, author, _second, _third) = workspace_with_members(&mut store);

    let event =
        message_event(workspace_id, author, "only once", Audience::Workspace, "shared-key");
    let first = store.append(event.clone()).expect("append");
    let retried = store.append(event).expect("retry");
    assert_eq!(first.sequence, retried.sequence);
    assert_eq!(
        store.replay(workspace_id, author, 0, 50).unwrap().len(),
        1,
        "a retry must not create a second event"
    );

    let conflicting =
        message_event(workspace_id, author, "something else", Audience::Workspace, "shared-key");
    assert!(store.append(conflicting).is_err());
}

#[test]
fn a_direct_audience_reaches_only_its_target() {
    let mut store = WorkspaceTables::new();
    let (workspace_id, author, second, third) = workspace_with_members(&mut store);

    store
        .append(message_event(
            workspace_id,
            author,
            "for your eyes only",
            Audience::Direct { participant: second },
            "direct-1",
        ))
        .expect("append");

    assert_eq!(
        store.deliveries_after(workspace_id, second, 0, 50).unwrap().len(),
        1,
        "the target receives a direct message"
    );
    assert!(
        store.deliveries_after(workspace_id, third, 0, 50).unwrap().is_empty(),
        "an uninvolved member must not receive a direct message"
    );
    assert!(
        store.replay(workspace_id, third, 0, 50).unwrap().is_empty(),
        "a private audience must not leak through replay"
    );

    assert!(store
        .append(message_event(
            workspace_id,
            author,
            "to a stranger",
            Audience::Direct { participant: fresh() },
            "direct-2",
        ))
        .is_err());
    assert!(store
        .append(message_event(
            workspace_id,
            fresh(),
            "from a stranger",
            Audience::Workspace,
            "direct-3",
        ))
        .is_err());
}

#[test]
fn delivery_transitions_are_monotonic_and_count_attempts() {
    let mut store = WorkspaceTables::new();
    let (workspace_id, author, second, _third) = workspace_with_members(&mut store);
    let event = store
        .append(message_event(
            workspace_id,
            author,
            "deliver me",
            Audience::Workspace,
            "delivery-1",
        ))
        .expect("append");

    let delivered = store
        .transition_delivery(workspace_id, event.sequence, second, DeliveryState::Relayed, None)
        .expect("relay");
    assert_eq!(delivered.state, DeliveryState::Relayed);

    let repeated = store
        .transition_delivery(workspace_id, event.sequence, second, DeliveryState::Relayed, None)
        .expect("repeat");
    assert_eq!(repeated.attempts, delivered.attempts);

    assert!(
        store
            .transition_delivery(
                workspace_id,
                event.sequence,
                second,
                DeliveryState::Pending,
                None
            )
            .is_err(),
        "a non-monotonic delivery transition must be refused"
    );

    let acknowledged = store
        .transition_delivery(
            workspace_id,
            event.sequence,
            second,
            DeliveryState::Acknowledged,
            None,
        )
        .expect("acknowledge");
    assert_eq!(acknowledged.state, DeliveryState::Acknowledged);

    assert!(store
        .transition_delivery(workspace_id, event.sequence, fresh(), DeliveryState::Relayed, None)
        .is_err());
}

#[test]
fn presence_leases_expire_and_exclude_non_members() {
    let mut store = WorkspaceTables::new();
    let (workspace_id, author, second, _third) = workspace_with_members(&mut store);
    let hour = 3_600;

    store
        .acquire_presence_lease(
            PresenceLease {
                workspace_id,
                participant_id: author,
                client_id: fresh(),
                host_id: None,
                expires_at: at(hour),
            },
            at(0),
        )
        .expect("acquire");
    let active = store.active_presence(workspace_id, at(0));
    assert_eq!(active.len(), 1);
    assert_eq!(active[0].participant_id, author);

    assert!(store
        .acquire_presence_lease(
            PresenceLease {
                workspace_id,
                participant_id: second,
                client_id: fresh(),
                host_id: None,
                expires_at: at(-60),
            },
            at(0),
        )
        .is_err());
    assert!(store
        .acquire_presence_lease(
            PresenceLease {
                workspace_id,
                participant_id: fresh(),
                client_id: fresh(),
                host_id: None,
                expires_at: at(hour),
            },
            at(0),
        )
        .is_err());

    assert!(
        store.active_presence(workspace_id, at(2 * hour)).is_empty(),
        "an expired lease must not remain active"
    );
}

#[test]
fn the_shared_read_surface_answers_identically() {
    let mut store = WorkspaceTables::new();
    let (workspace_id, author, second, _third) = workspace_with_members(&mut store);

    assert_eq!(store.workspace_name(workspace_id), Some("conformance".to_string()));
    assert_eq!(store.workspace_name(fresh()), None, "an unknown workspace has no name");

    let found = store.participant(author).expect("author exists");
    assert_eq!(found.id, author);
    assert!(store.participant(fresh()).is_none());

    let roster = store.workspace_roster(workspace_id, author).expect("roster");
    assert_eq!(roster.len(), 3);
    assert!(
        store.workspace_roster(workspace_id, fresh()).is_err(),
        "a non-member must not read the roster"
    );

    let workspaces = store.list_workspaces_for_participant(second);
    assert_eq!(workspaces.len(), 1);
    assert_eq!(workspaces[0].id, workspace_id);
    assert!(store.list_workspaces_for_participant(fresh()).is_empty());

    let event = store
        .append(message_event(
            workspace_id,
            author,
            "findable",
            Audience::Workspace,
            "read-surface-1",
        ))
        .expect("append");
    assert!(store.contains_message(event.id), "an appended message is findable by id");
    assert!(!store.contains_message(fresh()));
    assert!(store.contains_idempotent_event(workspace_id, author, "read-surface-1"));
    assert!(!store.contains_idempotent_event(workspace_id, author, "never-used"));

    assert_eq!(
        store.latest_projected_session_sequence(workspace_id, fresh()).expect("watermark"),
        0
    );
}

#[test]
fn workspace_provisioning_is_idempotent_and_direction_independent() {
    let mut store = WorkspaceTables::new();
    let workspace_id = fresh();
    let human = fresh();
    let agent = fresh();

    store.ensure_execution_workspace(
        workspace_id,
        "project",
        human,
        "Human",
        agent,
        "Agent",
        at(0),
    );
    store.ensure_execution_workspace(
        workspace_id,
        "project",
        human,
        "Human Renamed",
        agent,
        "Agent",
        at(1),
    );

    let roster = store.workspace_roster(workspace_id, human).expect("roster");
    assert_eq!(roster.len(), 2, "membership must not duplicate");
    let human_entry = roster
        .iter()
        .find(|entry| entry.participant.id == human)
        .expect("human is a member");
    assert_eq!(
        human_entry.participant.display_name, "Human Renamed",
        "a relaunch refreshes display names"
    );
    assert_eq!(human_entry.role, WorkspaceRole::Owner);

    let forward = store.ensure_direct_workspace(human, agent, at(2)).expect("direct");
    let reverse = store.ensure_direct_workspace(agent, human, at(3)).expect("direct");
    assert_eq!(forward, reverse, "direct workspaces are symmetric");
    assert!(
        store.ensure_direct_workspace(human, human, at(4)).is_err(),
        "a direct message needs two distinct participants"
    );
    assert!(
        store.ensure_direct_workspace(human, fresh(), at(5)).is_err(),
        "an unknown participant cannot be direct-messaged"
    );
}

#[test]
fn a_pending_message_is_listed_until_its_delivery_settles() {
    let mut store = WorkspaceTables::new();
    let (workspace_id, author, second, _third) = workspace_with_members(&mut store);

    let event = store
        .append(message_event(
            workspace_id,
            author,
            "please read me",
            Audience::Workspace,
            "pending-1",
        ))
        .expect("append");

    let pending = store.pending_message_events(workspace_id, second, 10).expect("pending");
    assert_eq!(pending.len(), 1, "an undelivered message is pending");
    assert_eq!(pending[0].0.id, event.id);
    assert_eq!(pending[0].1.state, DeliveryState::Pending);
    assert!(store.pending_message_events(workspace_id, author, 10).expect("pending").is_empty());
    assert!(
        store.pending_message_events(workspace_id, second, 0).expect("pending").is_empty(),
        "a zero limit asks for nothing"
    );

    let deliveries = store.message_deliveries(event.id);
    assert_eq!(deliveries.len(), 2);
    assert!(deliveries.iter().all(|delivery| delivery.workspace_id == workspace_id));

    store
        .transition_delivery(workspace_id, event.sequence, second, DeliveryState::Admitted, None)
        .expect("admit");
    store
        .transition_delivery(
            workspace_id,
            event.sequence,
            second,
            DeliveryState::Acknowledged,
            None,
        )
        .expect("acknowledge");
    assert!(
        store.pending_message_events(workspace_id, second, 10).expect("pending").is_empty(),
        "a settled delivery stops being pending"
    );
}

#[test]
fn a_message_cannot_reference_a_thread_or_reply_outside_its_workspace() {
    let mut store = WorkspaceTables::new();
    let (workspace_id, author, _second, _third) = workspace_with_members(&mut store);
    let (other_workspace, other_author, _, _) = workspace_with_members(&mut store);

    let foreign_thread = fresh();
    store
        .create_thread(Thread {
            id: foreign_thread,
            workspace_id: other_workspace,
            title: "elsewhere".to_string(),
            created_at: at(0),
        })
        .expect("create thread");

    let mut event =
        message_event(workspace_id, author, "grafted", Audience::Workspace, "reference-1");
    if let WorkspaceEventKind::Message { message, .. } = &mut event.kind {
        message.thread_id = Some(foreign_thread);
    }
    assert!(
        store.append(event).is_err(),
        "a thread from another workspace must be refused"
    );

    let elsewhere = store
        .append(message_event(
            other_workspace,
            other_author,
            "over here",
            Audience::Workspace,
            "reference-2",
        ))
        .expect("append elsewhere");
    let WorkspaceEventKind::Message { message: foreign, .. } = &elsewhere.kind else {
        panic!("message expected");
    };
    let mut event = message_event(
        workspace_id,
        author,
        "replying across a boundary",
        Audience::Workspace,
        "reference-3",
    );
    if let WorkspaceEventKind::Message { message, .. } = &mut event.kind {
        message.reply_to_message_id = Some(foreign.id);
    }
    assert!(
        store.append(event).is_err(),
        "a reply target from another workspace must be refused"
    );

    let local_thread = fresh();
    store
        .create_thread(Thread {
            id: local_thread,
            workspace_id,
            title: "here".to_string(),
            created_at: at(0),
        })
        .expect("create thread");
    let mut event = message_event(
        workspace_id,
        author,
        "properly threaded",
        Audience::Workspace,
        "reference-4",
    );
    if let WorkspaceEventKind::Message { message, .. } = &mut event.kind {
        message.thread_id = Some(local_thread);
    }
    store.append(event).expect("local thread is valid");
}

#[test]
fn a_relay_message_lands_locally_without_local_reference_checks() {
    let mut store = WorkspaceTables::new();
    let recipient = fresh();
    let remote_author = fresh();
    store.create_participant(participant(recipient, "local")).expect("create recipient");
    let workspace_id = fresh();

    let message = WorkspaceMessage {
        id: fresh(),
        workspace_id,
        thread_id: Some(fresh()),
        reply_to_message_id: Some(fresh()),
        author_id: remote_author,
        body: WorkspaceMessageBody {
            text: "from another installation".to_string(),
            mentions: Vec::new(),
            attachments: Vec::new(),
        },
        audience: Audience::Direct { participant: recipient },
        created_at: at(0),
    };
    let event = store
        .import_relay_message(message.clone(), "Remote Agent", recipient, DeliveryMode::Notify)
        .expect("import relay message");
    assert_eq!(event.author_id, remote_author);
    assert!(
        store.contains_message(event.id),
        "an imported relay message is durable locally"
    );

    let repeated = store
        .import_relay_message(message.clone(), "Remote Agent", recipient, DeliveryMode::Notify)
        .expect("re-import");
    assert_eq!(repeated.sequence, event.sequence);

    let mut mismatched = message.clone();
    mismatched.id = fresh();
    mismatched.audience = Audience::Direct { participant: fresh() };
    assert!(
        store
            .import_relay_message(mismatched, "Remote Agent", recipient, DeliveryMode::Notify)
            .is_err(),
        "relay recipient mismatch must be refused"
    );
    let mut self_addressed = message;
    self_addressed.id = fresh();
    self_addressed.author_id = recipient;
    assert!(
        store
            .import_relay_message(self_addressed, "Remote Agent", recipient, DeliveryMode::Notify)
            .is_err(),
        "a relay sender cannot be its own recipient"
    );
}

#[test]
fn a_relay_roster_entry_projects_only_onto_a_local_workspace() {
    let mut store = WorkspaceTables::new();
    let (workspace_id, author, _second, _third) = workspace_with_members(&mut store);

    assert!(store
        .upsert_relay_roster_entry(
            fresh(),
            participant(fresh(), "cloud"),
            WorkspaceRole::Viewer,
            at(1),
        )
        .is_err());

    let cloud = fresh();
    store
        .upsert_relay_roster_entry(
            workspace_id,
            participant(cloud, "Cloud"),
            WorkspaceRole::Viewer,
            at(2),
        )
        .expect("project roster");
    let roster = store.workspace_roster(workspace_id, author).expect("roster");
    let entry = roster
        .iter()
        .find(|entry| entry.participant.id == cloud)
        .expect("projected participant is a member");
    assert_eq!(entry.role, WorkspaceRole::Viewer);

    store
        .upsert_relay_roster_entry(
            workspace_id,
            participant(cloud, "Cloud"),
            WorkspaceRole::Editor,
            at(3),
        )
        .expect("re-project");
    let roster = store.workspace_roster(workspace_id, author).expect("roster");
    assert_eq!(roster.len(), 4, "re-projection must not duplicate");
    assert_eq!(
        roster.iter().find(|entry| entry.participant.id == cloud).expect("member").role,
        WorkspaceRole::Editor
    );
}

#[test]
fn instance_discovery_tombstones_and_revives_identically() {
    let mut store = WorkspaceTables::new();
    let participant_id = fresh();
    store.create_participant(participant(participant_id, "worker")).expect("participant");

    let cwd = "/tmp/borg-conformance-checkout";
    store.register_local_instance(participant_id, None, cwd, 4242, at(0));

    let live = store.list_instances(false);
    let found = live
        .iter()
        .find(|instance| instance.participant.id == participant_id)
        .expect("a registered instance is discoverable");
    assert_eq!(
        found.cwd.as_deref(),
        Some("/tmp/borg-conformance-checkout"),
        "the launch directory distinguishes checkouts"
    );
    assert_eq!(found.pid, Some(4242));
    assert!(found.seen_at.is_some(), "a local registration records when it was seen");

    let reaped = store.mark_local_instances_exited(&[participant_id], at(1));
    assert_eq!(reaped, 1, "exactly the named instance is reaped");

    assert!(
        !store.list_instances(false).iter().any(|i| i.participant.id == participant_id),
        "an exited instance is no longer advertised"
    );
    assert!(
        store.list_instances(true).iter().any(|i| i.participant.id == participant_id),
        "an exited instance is retained, not deleted"
    );

    store.register_local_instance(participant_id, None, cwd, 5353, at(2));
    let revived: Vec<_> = store
        .list_instances(false)
        .into_iter()
        .filter(|instance| instance.participant.id == participant_id)
        .collect();
    assert_eq!(
        revived.len(),
        1,
        "relaunch revives the existing instance instead of duplicating it"
    );
    assert_eq!(revived[0].pid, Some(5353), "the revived instance carries the new process");

    let again = store.mark_local_instances_exited(&[fresh()], at(3));
    assert_eq!(again, 0, "reaping an unknown instance changes nothing");
}
