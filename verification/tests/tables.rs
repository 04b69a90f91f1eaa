//! What the workspace tables refuse, what they keep, and what they give back.

use borg_agent_runtime::audience::resolve_recipients;
use borg_agent_runtime::delivery::{addressed_sequence, allowed, move_delivery};
use borg_agent_runtime::directory::local_human_participant_id;
use borg_agent_runtime::error::WorkspaceError;
use borg_agent_runtime::router::{message_receipt, settle_append, AppendFailure};
use borg_agent_runtime::store::WorkspaceTables;
use borg_agent_runtime::time::Timestamp;
use borg_agent_runtime::workspace::{
    AtomicWorkClaim, Audience, DeliveryAttempt, DeliveryMode, DeliveryState, NewWorkspaceMessage,
    Participant, ParticipantKind, PresenceLease, RecipientDelivery, SharedWork, Uuid,
    WorkDependency, WorkReview, Workspace, WorkspaceArtifact, WorkspaceDecision, WorkspaceEvent,
    WorkspaceEventKind, WorkspaceMembership, WorkspaceMessage, WorkspaceMessageBody,
    WorkspaceReviewRequest, WorkspaceRole,
};

const SPACE: Uuid = 100;
const ALICE: Uuid = 1;
const BOB: Uuid = 2;
const CAROL: Uuid = 3;
const STRANGER: Uuid = 9;

fn at(secs: i64) -> Timestamp {
    Timestamp { secs, nanos: 0 }
}

fn person(id: Uuid, kind: ParticipantKind) -> Participant {
    Participant { id, display_name: format!("person {id}"), kind, created_at: at(id as i64) }
}

fn member(id: Uuid, role: WorkspaceRole) -> WorkspaceMembership {
    WorkspaceMembership { workspace_id: SPACE, participant_id: id, role, joined_at: at(10) }
}

/// A workspace of an owner and two editors.
fn tables() -> WorkspaceTables {
    let mut tables = WorkspaceTables::new();
    for id in [ALICE, BOB, CAROL] {
        tables.create_participant(person(id, ParticipantKind::Agent)).unwrap();
    }
    tables
        .create_workspace(Workspace { id: SPACE, name: "space".into(), created_at: at(0) })
        .unwrap();
    tables.add_member(member(ALICE, WorkspaceRole::Owner)).unwrap();
    tables.add_member(member(BOB, WorkspaceRole::Editor)).unwrap();
    tables.add_member(member(CAROL, WorkspaceRole::Editor)).unwrap();
    tables
}

fn event(id: Uuid, author_id: Uuid, key: &str, kind: WorkspaceEventKind) -> WorkspaceEvent {
    WorkspaceEvent {
        id,
        workspace_id: SPACE,
        sequence: 0,
        author_id,
        idempotency_key: key.into(),
        created_at: at(20),
        kind,
    }
}

fn message(id: Uuid, author_id: Uuid, text: &str, audience: Audience) -> WorkspaceMessage {
    WorkspaceMessage {
        id,
        workspace_id: SPACE,
        thread_id: None,
        reply_to_message_id: None,
        author_id,
        body: WorkspaceMessageBody {
            text: text.into(),
            mentions: Vec::new(),
            attachments: Vec::new(),
        },
        audience,
        created_at: at(20),
    }
}

fn said(id: Uuid, author_id: Uuid, key: &str, audience: Audience) -> WorkspaceEvent {
    event(
        id,
        author_id,
        key,
        WorkspaceEventKind::Message {
            message: message(id, author_id, "hello", audience),
            mode: DeliveryMode::Notify,
        },
    )
}

fn work(id: Uuid, title: &str) -> WorkspaceEventKind {
    WorkspaceEventKind::WorkCreated {
        work: SharedWork { id, title: title.into(), detail: None },
        mode: DeliveryMode::Notify,
    }
}

fn claim(work_id: Uuid, claimant_id: Uuid, expected_claim_id: Option<Uuid>) -> WorkspaceEventKind {
    WorkspaceEventKind::WorkClaimed {
        claim: AtomicWorkClaim { work_id, claimant_id, expected_claim_id },
        mode: DeliveryMode::Notify,
    }
}

fn projected(id: Uuid, key: &str, session_sequence: u64) -> WorkspaceEvent {
    event(
        id,
        ALICE,
        key,
        WorkspaceEventKind::SessionEvent {
            session_id: 50,
            session_event_id: id,
            session_sequence,
            mode: DeliveryMode::Boundary,
        },
    )
}

fn refusal(tables: &mut WorkspaceTables, event: WorkspaceEvent) -> WorkspaceError {
    let journal = tables.events.len();
    let error = tables.append(event).unwrap_err();
    assert_eq!(tables.events.len(), journal, "a refused event leaves no trace");
    error
}

#[test]
fn empty_tables_are_consistent_and_stay_so() {
    assert!(WorkspaceTables::new().is_consistent());
    let mut tables = tables();
    tables.append(said(1000, ALICE, "k", Audience::Workspace)).unwrap();
    assert!(tables.is_consistent());
    let twice = tables.participants[0].clone();
    tables.participants.push(twice);
    assert!(!tables.is_consistent());
}

#[test]
fn messages_are_refused_for_a_reason() {
    let mut tables = tables();
    assert_eq!(
        refusal(&mut tables, said(1000, ALICE, "", Audience::Workspace)),
        WorkspaceError::EmptyIdempotencyKey
    );
    assert_eq!(
        refusal(&mut tables, said(1000, STRANGER, "k", Audience::Workspace)),
        WorkspaceError::AuthorNotMember
    );
    let mut other = said(1000, ALICE, "k", Audience::Workspace);
    if let WorkspaceEventKind::Message { message, .. } = &mut other.kind {
        message.author_id = BOB;
    }
    assert_eq!(refusal(&mut tables, other), WorkspaceError::MessageMismatch);
    let mut other = said(1000, ALICE, "k", Audience::Workspace);
    if let WorkspaceEventKind::Message { message, .. } = &mut other.kind {
        message.thread_id = Some(7);
    }
    assert_eq!(refusal(&mut tables, other), WorkspaceError::ThreadMissing);
    let mut other = said(1000, ALICE, "k", Audience::Workspace);
    if let WorkspaceEventKind::Message { message, .. } = &mut other.kind {
        message.reply_to_message_id = Some(7);
    }
    assert_eq!(refusal(&mut tables, other), WorkspaceError::ReplyTargetMissing);
    assert_eq!(
        refusal(
            &mut tables,
            said(1000, ALICE, "k", Audience::Participants { participants: Vec::new() })
        ),
        WorkspaceError::EmptyAudience
    );
    assert_eq!(
        refusal(&mut tables, said(1000, ALICE, "k", Audience::Direct { participant: STRANGER })),
        WorkspaceError::AudienceNonMember
    );
    tables.append(said(1000, ALICE, "k", Audience::Workspace)).unwrap();
    assert_eq!(
        refusal(&mut tables, said(1001, ALICE, "k", Audience::Direct { participant: BOB })),
        WorkspaceError::IdempotencyConflict
    );
}

#[test]
fn an_unknown_or_full_workspace_hands_out_no_sequence() {
    let mut tables = tables();
    tables.members.push(WorkspaceMembership {
        workspace_id: 200,
        participant_id: ALICE,
        role: WorkspaceRole::Owner,
        joined_at: at(10),
    });
    let mut lost = projected(1000, "k", 1);
    lost.workspace_id = 200;
    assert_eq!(
        refusal(&mut tables, lost),
        WorkspaceError::WorkspaceUnknown { workspace_id: 200 }
    );
    tables.workspaces[0].next_sequence = i64::MAX as u64;
    assert_eq!(
        refusal(&mut tables, said(1000, ALICE, "k", Audience::Workspace)),
        WorkspaceError::SequenceExhausted
    );
}

#[test]
fn work_is_refused_for_a_reason() {
    let mut tables = tables();
    assert_eq!(
        refusal(&mut tables, event(1, ALICE, "w0", work(500, " \n"))),
        WorkspaceError::EmptyWorkTitle
    );
    tables.append(event(1, ALICE, "w1", work(500, "build"))).unwrap();
    assert!(tables.work_exists(SPACE, 500));
    assert_eq!(
        refusal(&mut tables, event(2, ALICE, "w2", work(500, "again"))),
        WorkspaceError::WorkExists
    );
    let artifact = |name: &str, work_id| WorkspaceEventKind::ArtifactPublished {
        artifact: WorkspaceArtifact {
            id: 600,
            work_id,
            name: name.into(),
            media_type: None,
            uri: "file:///a".into(),
            content_hash: None,
        },
        mode: DeliveryMode::Notify,
    };
    assert_eq!(
        refusal(&mut tables, event(3, ALICE, "a1", artifact("", None))),
        WorkspaceError::EmptyArtifact
    );
    assert_eq!(
        refusal(&mut tables, event(3, ALICE, "a1", artifact("a", Some(501)))),
        WorkspaceError::ArtifactWorkMissing
    );
    tables.append(event(3, ALICE, "a1", artifact("a", Some(500)))).unwrap();
    let decision = WorkspaceEventKind::DecisionRecorded {
        decision: WorkspaceDecision {
            id: 1,
            subject: "s".into(),
            outcome: " ".into(),
            rationale: None,
        },
        mode: DeliveryMode::Notify,
    };
    assert_eq!(
        refusal(&mut tables, event(4, ALICE, "d1", decision)),
        WorkspaceError::EmptyDecision
    );
    let depends = |work_id, depends_on_work_id| WorkspaceEventKind::DependencyDeclared {
        dependency: WorkDependency { work_id, depends_on_work_id },
        mode: DeliveryMode::Notify,
    };
    assert_eq!(
        refusal(&mut tables, event(5, ALICE, "e1", depends(500, 500))),
        WorkspaceError::SelfDependency
    );
    assert_eq!(
        refusal(&mut tables, event(5, ALICE, "e1", depends(500, 501))),
        WorkspaceError::DependencyWorkMissing
    );
    let request = |work_id, requested_reviewer_id| WorkspaceEventKind::ReviewRequested {
        request: WorkspaceReviewRequest {
            id: 1,
            work_id,
            requested_reviewer_id,
            instructions: None,
        },
        mode: DeliveryMode::Notify,
    };
    assert_eq!(
        refusal(&mut tables, event(6, ALICE, "r1", request(501, None))),
        WorkspaceError::ReviewedWorkMissing
    );
    assert_eq!(
        refusal(&mut tables, event(6, ALICE, "r1", request(500, Some(STRANGER)))),
        WorkspaceError::RequestedReviewerNotMember
    );
    let review = |reviewer_id, verdict: &str| WorkspaceEventKind::ReviewRecorded {
        review: WorkReview {
            work_id: 500,
            reviewer_id,
            verdict: verdict.into(),
            detail: None,
        },
        mode: DeliveryMode::Notify,
    };
    assert_eq!(
        refusal(&mut tables, event(7, ALICE, "v1", review(STRANGER, "ok"))),
        WorkspaceError::ReviewerNotMember
    );
    assert_eq!(
        refusal(&mut tables, event(7, ALICE, "v1", review(BOB, ""))),
        WorkspaceError::EmptyVerdict
    );
}

#[test]
fn one_claimant_wins_and_later_claims_name_the_current_one() {
    let mut tables = tables();
    tables.append(event(1, ALICE, "w", work(500, "build"))).unwrap();
    assert_eq!(
        refusal(&mut tables, event(2, BOB, "c0", claim(501, BOB, None))),
        WorkspaceError::ClaimedWorkMissing
    );
    assert_eq!(
        refusal(&mut tables, event(2, BOB, "c0", claim(500, STRANGER, None))),
        WorkspaceError::ClaimantNotMember
    );
    tables.append(event(2, BOB, "c1", claim(500, BOB, None))).unwrap();
    assert_eq!(
        refusal(&mut tables, event(3, CAROL, "c2", claim(500, CAROL, None))),
        WorkspaceError::ClaimConflict
    );
    tables.append(event(3, CAROL, "c2", claim(500, CAROL, Some(2)))).unwrap();
    assert_eq!(tables.claims.len(), 1);
    assert_eq!(tables.claims[0].claimant_id, CAROL);
    assert_eq!(tables.claims[0].claim_id, 3);
}

#[test]
fn a_dependency_is_declared_once() {
    let mut tables = tables();
    tables.append(event(1, ALICE, "w1", work(500, "a"))).unwrap();
    tables.append(event(2, ALICE, "w2", work(501, "b"))).unwrap();
    for (id, key) in [(3, "e1"), (4, "e2")] {
        tables
            .append(event(
                id,
                ALICE,
                key,
                WorkspaceEventKind::DependencyDeclared {
                    dependency: WorkDependency { work_id: 500, depends_on_work_id: 501 },
                    mode: DeliveryMode::Notify,
                },
            ))
            .unwrap();
    }
    assert_eq!(tables.dependencies.len(), 1);
    assert_eq!(tables.dependencies[0].sequence, 3);
}

#[test]
fn audiences_resolve_to_sorted_members() {
    let members = [
        (5, WorkspaceRole::Editor),
        (2, WorkspaceRole::Owner),
        (9, WorkspaceRole::Editor),
    ];
    assert_eq!(resolve_recipients(&Audience::Workspace, &members), Ok(vec![2, 5, 9]));
    assert_eq!(
        resolve_recipients(&Audience::Role { role: WorkspaceRole::Editor }, &members),
        Ok(vec![5, 9])
    );
    assert_eq!(
        resolve_recipients(&Audience::Role { role: WorkspaceRole::Viewer }, &members),
        Err(WorkspaceError::EmptyAudience)
    );
    assert_eq!(
        resolve_recipients(&Audience::Participants { participants: vec![9, 2, 9] }, &members),
        Ok(vec![2, 9])
    );
    assert_eq!(
        resolve_recipients(&Audience::Direct { participant: 5 }, &members),
        Ok(vec![5])
    );
    assert_eq!(
        resolve_recipients(&Audience::Participants { participants: vec![2, 3] }, &members),
        Err(WorkspaceError::AudienceNonMember)
    );
    assert_eq!(
        resolve_recipients(&Audience::Workspace, &[]),
        Err(WorkspaceError::EmptyAudience)
    );
}

#[test]
fn deliveries_move_only_forward() {
    let states = [
        DeliveryState::Pending,
        DeliveryState::Relayed,
        DeliveryState::Admitted,
        DeliveryState::Acknowledged,
        DeliveryState::Failed,
        DeliveryState::Recalled,
    ];
    let reachable = |from| {
        states.iter().copied().filter(|to| allowed(from, *to)).collect::<Vec<_>>()
    };
    assert_eq!(
        reachable(DeliveryState::Pending),
        vec![
            DeliveryState::Relayed,
            DeliveryState::Admitted,
            DeliveryState::Failed,
            DeliveryState::Recalled
        ]
    );
    assert_eq!(reachable(DeliveryState::Failed), vec![DeliveryState::Pending]);
    assert!(reachable(DeliveryState::Acknowledged).is_empty());
    assert!(reachable(DeliveryState::Recalled).is_empty());

    let delivery = RecipientDelivery {
        workspace_id: SPACE,
        sequence: 1,
        recipient_id: BOB,
        mode: DeliveryMode::Notify,
        state: DeliveryState::Pending,
        attempts: 0,
        last_attempt: None,
    };
    let attempt = DeliveryAttempt { attempted_at: at(30), detail: Some("first".into()) };
    let moved =
        move_delivery(&delivery, DeliveryState::Relayed, Some(attempt.clone())).unwrap();
    assert_eq!((moved.attempts, moved.last_attempt.clone()), (1, Some(attempt.clone())));
    let again = move_delivery(&moved, DeliveryState::Relayed, Some(attempt.clone())).unwrap();
    assert_eq!(again.attempts, 1);
    let silent = move_delivery(&moved, DeliveryState::Acknowledged, None).unwrap();
    assert_eq!((silent.attempts, silent.last_attempt), (1, Some(attempt.clone())));
    assert_eq!(
        move_delivery(&moved, DeliveryState::Recalled, None),
        Err(WorkspaceError::InvalidTransition)
    );
    let mut worn = delivery;
    worn.attempts = u32::MAX;
    assert_eq!(
        move_delivery(&worn, DeliveryState::Failed, Some(attempt)),
        Err(WorkspaceError::OutOfRange)
    );
}

#[test]
fn deliveries_are_found_by_message_and_bounded_by_columns() {
    let mut tables = tables();
    let sent = tables.append(said(1000, ALICE, "k", Audience::Workspace)).unwrap();
    assert_eq!(tables.message_sequence(SPACE, 1000), Some(sent.sequence));
    let moved = tables
        .transition_message_delivery(SPACE, 1000, BOB, DeliveryState::Admitted, None)
        .unwrap();
    assert_eq!(moved.map(|delivery| delivery.state), Some(DeliveryState::Admitted));
    assert_eq!(
        tables.transition_message_delivery(SPACE, 1001, BOB, DeliveryState::Admitted, None),
        Ok(None)
    );
    assert_eq!(
        tables.transition_delivery(SPACE, 1, ALICE, DeliveryState::Admitted, None),
        Err(WorkspaceError::NoDelivery)
    );
    assert_eq!(
        tables.transition_delivery(SPACE, u64::MAX, BOB, DeliveryState::Admitted, None),
        Err(WorkspaceError::OutOfRange)
    );
    assert_eq!(tables.delivery_recipients(SPACE, 1), Ok(vec![BOB, CAROL]));
    assert_eq!(
        tables.delivery_recipients(SPACE, u64::MAX),
        Err(WorkspaceError::OutOfRange)
    );
    assert_eq!(
        tables.deliveries_after(SPACE, BOB, u64::MAX, 1),
        Err(WorkspaceError::OutOfRange)
    );
    assert_eq!(
        tables.replay(SPACE, STRANGER, 0, 1),
        Err(WorkspaceError::ViewerNotMember)
    );
    assert_eq!(tables.replay(SPACE, BOB, u64::MAX, 1), Err(WorkspaceError::OutOfRange));
    assert_eq!(tables.require_member(SPACE, BOB), Ok(()));
    assert!(!tables.is_member(SPACE, STRANGER));
}

#[test]
fn replay_is_ordered_limited_and_private() {
    let mut tables = tables();
    tables.append(said(1000, ALICE, "a", Audience::Workspace)).unwrap();
    tables.append(said(1001, ALICE, "b", Audience::Direct { participant: BOB })).unwrap();
    tables.append(said(1002, CAROL, "c", Audience::Workspace)).unwrap();
    let sequences = |events: Vec<WorkspaceEvent>| {
        events.iter().map(|event| event.sequence).collect::<Vec<_>>()
    };
    assert_eq!(sequences(tables.replay(SPACE, BOB, 0, 10).unwrap()), vec![1, 2, 3]);
    assert_eq!(sequences(tables.replay(SPACE, CAROL, 0, 10).unwrap()), vec![1, 3]);
    assert_eq!(sequences(tables.replay(SPACE, BOB, 1, 1).unwrap()), vec![2]);
    assert!(tables.replay(SPACE, BOB, 0, 0).unwrap().is_empty());
    assert_eq!(
        tables.event_by_idempotency_key(SPACE, ALICE, "b").map(|event| event.id),
        Some(1001)
    );
    assert_eq!(tables.event_by_idempotency_key(SPACE, BOB, "b"), None);
}

#[test]
fn rows_are_created_once() {
    let mut tables = tables();
    assert_eq!(
        tables.create_participant(person(ALICE, ParticipantKind::Human)),
        Err(WorkspaceError::DuplicateKey)
    );
    assert_eq!(
        tables.create_workspace(Workspace { id: SPACE, name: "x".into(), created_at: at(0) }),
        Err(WorkspaceError::DuplicateKey)
    );
    assert_eq!(
        tables.add_member(member(BOB, WorkspaceRole::Viewer)),
        Err(WorkspaceError::DuplicateKey)
    );
    assert_eq!(tables.participant(ALICE).unwrap().kind, ParticipantKind::Agent);
}

#[test]
fn presence_is_refused_for_a_reason_and_renewed_in_place() {
    let mut tables = tables();
    let lease = |participant_id, expires_at| PresenceLease {
        workspace_id: SPACE,
        participant_id,
        client_id: 70,
        host_id: None,
        expires_at,
    };
    assert_eq!(
        tables.acquire_presence_lease(lease(ALICE, at(5)), at(5)),
        Err(WorkspaceError::LeaseExpired)
    );
    assert_eq!(
        tables.acquire_presence_lease(lease(STRANGER, at(6)), at(5)),
        Err(WorkspaceError::PresenceNotMember)
    );
    tables.acquire_presence_lease(lease(ALICE, at(6)), at(5)).unwrap();
    tables.acquire_presence_lease(lease(ALICE, at(9)), at(5)).unwrap();
    assert_eq!(tables.active_presence(SPACE, at(8)), vec![lease(ALICE, at(9))]);
    assert!(tables.active_presence(SPACE, at(9)).is_empty());
    assert!(tables.leases.is_empty(), "what has lapsed is swept");
}

#[test]
fn a_direct_workspace_is_named_after_both_ends() {
    let mut tables = tables();
    assert_eq!(
        tables.ensure_direct_workspace(ALICE, ALICE, at(1)),
        Err(WorkspaceError::DirectToSelf)
    );
    assert_eq!(
        tables.ensure_direct_workspace(STRANGER, ALICE, at(1)),
        Err(WorkspaceError::DirectParticipantUnknown { participant_id: STRANGER })
    );
    let direct = tables.ensure_direct_workspace(BOB, ALICE, at(1)).unwrap();
    let name = format!(
        "borg://local-direct/{}/{}",
        uuid::Uuid::from_u128(ALICE),
        uuid::Uuid::from_u128(BOB)
    );
    assert_eq!(
        direct,
        uuid::Uuid::new_v5(&uuid::Uuid::NAMESPACE_URL, name.as_bytes()).as_u128()
    );
    assert_eq!(tables.ensure_direct_workspace(ALICE, BOB, at(2)), Ok(direct));
    assert_eq!(tables.workspace_roster(direct, ALICE).unwrap().len(), 2);
}

#[test]
fn a_local_human_is_known_by_name() {
    let once = local_human_participant_id("Ada");
    assert_eq!(once, local_human_participant_id("Ada"));
    assert_ne!(once, local_human_participant_id("Bea"));
    assert_eq!(once, local_human_participant_id("  Ada\n"));
    assert_eq!(
        once,
        uuid::Uuid::new_v5(&uuid::Uuid::NAMESPACE_URL, b"borg://local-human/Ada").as_u128()
    );
}

#[test]
fn relay_deliveries_are_refused_for_a_reason() {
    let mut tables = tables();
    let to_bob = Audience::Direct { participant: BOB };
    let import = |tables: &mut WorkspaceTables, message| {
        tables.import_relay_message(message, "Remote", BOB, DeliveryMode::Notify)
    };
    assert_eq!(
        import(&mut tables, message(1, BOB, "x", to_bob.clone())),
        Err(WorkspaceError::RelayToSelf)
    );
    assert_eq!(
        import(&mut tables, message(1, STRANGER, " ", to_bob.clone())),
        Err(WorkspaceError::EmptyRelayMessage)
    );
    assert_eq!(
        import(&mut tables, message(1, STRANGER, "x", Audience::Workspace)),
        Err(WorkspaceError::RelayRecipientMismatch)
    );
    tables.create_participant(person(STRANGER, ParticipantKind::Human)).unwrap();
    assert_eq!(
        import(&mut tables, message(1, STRANGER, "x", to_bob.clone())),
        Err(WorkspaceError::RelayIdentityConflict)
    );
    assert_eq!(
        tables.upsert_relay_roster_entry(
            200,
            person(40, ParticipantKind::Agent),
            WorkspaceRole::Viewer,
            at(1)
        ),
        Err(WorkspaceError::RelayWorkspaceMissing)
    );
    let landed = import(&mut tables, message(1, 40, "x", to_bob)).unwrap();
    assert_eq!(tables.participant(40).unwrap().display_name, "Remote");
    assert_eq!(tables.delivery_recipients(SPACE, landed.sequence), Ok(vec![BOB]));
}

#[test]
fn only_agents_are_instances() {
    let mut tables = tables();
    assert_eq!(
        tables.upsert_instance(person(40, ParticipantKind::Human), None, None, at(1)),
        Err(WorkspaceError::NotAnAgent)
    );
    assert_eq!(
        tables.upsert_directory_instance(
            person(40, ParticipantKind::Service),
            None,
            None,
            None,
            None,
            at(1)
        ),
        Err(WorkspaceError::NotAnAgent)
    );
    tables.upsert_instance(person(40, ParticipantKind::Agent), Some(8), Some(SPACE), at(1)).unwrap();
    tables
        .upsert_directory_instance(
            person(40, ParticipantKind::Agent),
            None,
            None,
            Some("/elsewhere"),
            Some("stopped"),
            at(2),
        )
        .unwrap();
    let found = tables
        .list_instances(true)
        .into_iter()
        .find(|instance| instance.participant.id == 40)
        .unwrap();
    assert_eq!(found.host_id, Some(8));
    assert_eq!(found.cwd.as_deref(), Some("/elsewhere"));
    assert_eq!(found.exited_at, Some(at(2)));
    assert!(!tables.list_instances(false).iter().any(|i| i.participant.id == 40));
    tables
        .upsert_directory_instance(
            person(40, ParticipantKind::Agent),
            None,
            None,
            None,
            Some("running"),
            at(3),
        )
        .unwrap();
    assert!(tables.list_instances(false).iter().any(|i| i.participant.id == 40));
}

#[test]
fn a_projected_batch_is_all_or_nothing_and_repeatable() {
    let mut tables = tables();
    let batch = vec![projected(1, "s1", 1), projected(2, "s2", 4)];
    tables.append_session_event_batch(&batch).unwrap();
    assert_eq!(tables.events.len(), 2);
    assert_eq!(tables.latest_projected_session_sequence(SPACE, 50), Ok(4));
    tables.append_session_event_batch(&batch).unwrap();
    assert_eq!(tables.events.len(), 2);
    assert_eq!(
        tables.append_session_event_batch(&[projected(3, "s3", 5), projected(4, "s1", 9)]),
        Err(WorkspaceError::IdempotencyConflict)
    );
    assert_eq!(tables.events.len(), 2);
    assert_eq!(
        tables.append_session_event_batch(&[said(5, ALICE, "m", Audience::Workspace)]),
        Err(WorkspaceError::IncompatibleBatch)
    );
    tables.append_session_event_batch(&[]).unwrap();
    tables.append_session_event_batch(&[projected(6, "s6", u64::MAX)]).unwrap();
    assert_eq!(
        tables.latest_projected_session_sequence(SPACE, 50),
        Err(WorkspaceError::OutOfRange)
    );
}

fn input(text: &str, key: &str, audience: Audience) -> NewWorkspaceMessage {
    NewWorkspaceMessage {
        workspace_id: SPACE,
        author_id: ALICE,
        text: text.into(),
        mentions: Vec::new(),
        attachments: Vec::new(),
        audience,
        mode: DeliveryMode::Wake,
        thread_id: None,
        reply_to_message_id: None,
        idempotency_key: key.into(),
    }
}

#[test]
fn a_routed_message_returns_the_same_receipt_again() {
    let mut tables = tables();
    let hello = input("hello", "k", Audience::Workspace);
    let receipt = tables.append_message(&hello).unwrap();
    assert_eq!(receipt.sequence, 1);
    assert_eq!(receipt.recipient_ids, vec![BOB, CAROL]);
    assert_eq!(receipt.mode, DeliveryMode::Wake);
    assert_eq!(uuid::Uuid::from_u128(receipt.message_id).get_version_num(), 4);
    assert_eq!(tables.append_message(&hello), Ok(receipt.clone()));
    assert_eq!(tables.append_message_as(&hello, 77, at(99)), Ok(receipt));
    assert_eq!(tables.events.len(), 1);
}

#[test]
fn routed_messages_are_refused_for_a_reason() {
    let mut tables = tables();
    assert_eq!(
        tables.append_message(&input(" ", "k", Audience::Workspace)),
        Err(WorkspaceError::EmptyMessage)
    );
    assert_eq!(
        tables.append_message(&input("x", "\t", Audience::Workspace)),
        Err(WorkspaceError::EmptyMessageKey)
    );
    let mut foreign = input("x", "k", Audience::Workspace);
    foreign.author_id = STRANGER;
    assert_eq!(tables.append_message(&foreign), Err(WorkspaceError::ViewerNotMember));
    assert_eq!(
        tables.append_message(&input("x", "k", Audience::Direct { participant: ALICE })),
        Err(WorkspaceError::OnlyAuthorAddressed)
    );
    tables.append_message(&input("x", "k", Audience::Workspace)).unwrap();
    assert_eq!(
        tables.append_message(&input("y", "k", Audience::Workspace)),
        Err(WorkspaceError::IdempotencyConflict)
    );
    assert_eq!(
        message_receipt(&projected(1, "s", 1), Vec::new(), &Vec::new()),
        Err(WorkspaceError::NotAMessage)
    );
    let sent = said(5, ALICE, "m", Audience::Workspace);
    assert_eq!(
        message_receipt(&sent, vec![BOB], &vec![BOB, CAROL]),
        Err(WorkspaceError::ReceiptMismatch)
    );
}

#[test]
fn a_lost_race_is_settled_by_what_was_written() {
    let hello = input("hello", "k", Audience::Workspace);
    let mut tables = tables();
    tables.append_message_as(&hello, 77, at(20)).unwrap();
    let written = tables.event_by_idempotency_key(SPACE, ALICE, "k");
    let settled =
        settle_append(&hello, Err(WorkspaceError::IdempotencyConflict), written.clone()).unwrap();
    assert_eq!(Some(settled), written);
    assert_eq!(
        settle_append(&hello, Err(WorkspaceError::AuthorNotMember), None),
        Err(AppendFailure::Refused { error: WorkspaceError::AuthorNotMember })
    );
    let other = input("something else", "k", Audience::Workspace);
    assert_eq!(
        settle_append(&other, Err(WorkspaceError::IdempotencyConflict), written),
        Err(AppendFailure::Conflict)
    );
}

#[test]
fn refusals_describe_themselves() {
    assert_eq!(
        WorkspaceError::IdempotencyConflict.message(),
        "idempotency conflict: key was used with a different payload"
    );
    assert!(WorkspaceError::WorkspaceUnknown { workspace_id: SPACE }
        .message()
        .contains("00000000-0000-0000-0000-000000000064"));
    assert!(WorkspaceError::DirectParticipantUnknown { participant_id: 255 }
        .message()
        .contains("00000000-0000-0000-0000-0000000000ff"));
}

#[test]
fn only_an_addressed_recipient_has_a_delivery_to_move() {
    assert_eq!(addressed_sequence(Some(4), &vec![BOB, CAROL], CAROL), Some(4));
    assert_eq!(addressed_sequence(Some(4), &vec![BOB, CAROL], ALICE), None);
    assert_eq!(addressed_sequence(None, &vec![BOB], BOB), None);
    assert_eq!(addressed_sequence(Some(4), &Vec::new(), BOB), None);
}

#[test]
fn sequences_have_no_gaps() {
    let mut tables = tables();
    for key in ["a", "b", "c"] {
        tables.append(said(1000, ALICE, key, Audience::Workspace)).unwrap();
    }
    refusal(&mut tables, said(1001, STRANGER, "d", Audience::Workspace));
    let sequences: Vec<u64> = tables.events.iter().map(|event| event.sequence).collect();
    assert_eq!(sequences, vec![1, 2, 3]);
    assert!(tables.is_consistent());
    let lost = tables.events.remove(1);
    tables.deliveries.retain(|row| row.delivery.sequence != 2);
    assert!(!tables.is_consistent(), "a sequence without its event");
    tables.events.insert(1, lost);
    assert!(tables.is_consistent());
    tables.workspaces[0].next_sequence = 5;
    assert!(!tables.is_consistent(), "a sequence that was never used");
}

#[test]
fn a_message_routed_again_later_gets_its_first_receipt() {
    let mut tables = tables();
    let hello = input("hello", "k", Audience::Workspace);
    let first = tables.append_message_as(&hello, 77, at(20)).unwrap();
    tables.append_message_as(&input("more", "k2", Audience::Workspace), 78, at(21)).unwrap();
    tables
        .transition_delivery(SPACE, first.sequence, BOB, DeliveryState::Admitted, None)
        .unwrap();
    let journal = tables.events.clone();
    let deliveries = tables.deliveries.len();
    let again = tables.append_message_as(&hello, 79, at(22)).unwrap();
    assert_eq!(again, first);
    assert_eq!(tables.events, journal);
    assert_eq!(tables.deliveries.len(), deliveries);
    let retry = said(1000, ALICE, "k", Audience::Workspace);
    assert_eq!(refusal(&mut tables, retry), WorkspaceError::IdempotencyConflict);
}
