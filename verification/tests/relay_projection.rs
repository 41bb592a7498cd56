use ditchd::ids::{identifier_text, new_identifier, parse_identifier};
use ditchd::json::{parse_json, Json};
use ditchd::projection::{
    projection_changes, same_projection_content, set_projection_version, ProjectionSnapshot, Shown,
};
use ditchd::remote_machine::{
    active_devices_from_response, configured_relay_origin, machine_device_path, machine_devices_path,
    preferred_machine_name, MAX_MACHINE_NAME_CHARS,
};
use ditchd::transport::{FrameStep, ProjectionAckOutcome, ProjectionTransport};

fn parsed(text: &str) -> Json {
    parse_json(text).expect("fixture should be valid JSON")
}

fn project_record(id: u128, name: &str, status: &str) -> Json {
    Json::object()
        .with("project_id", Json::of_text(&identifier_text(id)))
        .with("name", Json::of_text(name))
        .with("status", Json::of_text(status))
        .with("running_count", Json::of_signed(0))
        .with("waiting_count", Json::of_signed(0))
        .with("ready_count", Json::of_signed(0))
        .with("failed_count", Json::of_signed(0))
        .with("attention_count", Json::of_signed(0))
        .with("last_activity_at", Json::of_signed(1_787_596_800_123))
        .with("projection_version", Json::of_signed(1))
}

fn snapshot_with_projects(count: usize) -> ProjectionSnapshot {
    let mut snapshot = ProjectionSnapshot::empty();
    for index in 0..count {
        let id = new_identifier();
        snapshot.insert(
            "project",
            &identifier_text(id),
            project_record(id, &format!("Project {index}"), "idle"),
        );
    }
    snapshot
}

fn transport_of(snapshot: ProjectionSnapshot) -> ProjectionTransport {
    ProjectionTransport::new(new_identifier(), new_identifier(), snapshot)
}

fn same_snapshot(left: &ProjectionSnapshot, right: &ProjectionSnapshot) -> bool {
    left.records.len() == right.records.len()
        && left.records.iter().zip(right.records.iter()).all(|(a, b)| {
            a.kind == b.kind && a.id == b.id && a.value.same(&b.value)
        })
}

struct FakeProjectionRelay {
    active: ProjectionSnapshot,
    staging: Option<(u128, u64, ProjectionSnapshot)>,
}

impl FakeProjectionRelay {
    fn receive(&mut self, frame: &Json) -> Json {
        let payload = frame.get("payload").unwrap();
        let epoch = parse_identifier(payload.text_at("epoch").unwrap()).unwrap();
        let sequence = payload.get("sequence").unwrap().as_unsigned().unwrap();
        let expected = self
            .staging
            .as_ref()
            .filter(|(staging_epoch, _, _)| *staging_epoch == epoch)
            .map_or(1, |(_, accepted, _)| accepted + 1);
        if sequence != expected {
            return Json::object().with("type", Json::of_text("projection_gap")).with(
                "payload",
                Json::object()
                    .with("expected_sequence", Json::of_unsigned(expected))
                    .with("received_sequence", Json::of_unsigned(sequence))
                    .with("full_snapshot_required", Json::Bool(true)),
            );
        }
        match frame.text_at("type").unwrap() {
            "projection_snapshot_begin" => {
                self.staging = Some((epoch, sequence, ProjectionSnapshot::empty()));
            }
            "projection_snapshot_record" => {
                let (_, accepted, snapshot) = self.staging.as_mut().unwrap();
                *accepted = sequence;
                let kind = payload.text_at("kind").unwrap();
                let record = payload.get("record").unwrap();
                let id_key = match kind {
                    "project" => "project_id",
                    "session" => "session_id",
                    "attention" => "attention_id",
                    _ => panic!("unexpected snapshot kind"),
                };
                let id = record.text_at(id_key).unwrap();
                snapshot.insert(kind, id, record.copy());
            }
            "projection_snapshot_commit" => {
                self.active = self.staging.take().unwrap().2;
            }
            _ => panic!("unexpected fake-relay frame"),
        }
        if let Some((_, accepted, _)) = self.staging.as_mut() {
            *accepted = sequence;
        }
        Json::object().with("type", Json::of_text("projection_ack"))
    }
}

#[test]
fn production_relay_is_the_default() {
    const PRODUCTION_RELAY_ORIGIN: &str = "https://relay.ditchnow.nl";
    assert_eq!(
        configured_relay_origin(None, PRODUCTION_RELAY_ORIGIN).as_deref(),
        Ok(PRODUCTION_RELAY_ORIGIN)
    );
    assert_eq!(
        configured_relay_origin(Some("   "), PRODUCTION_RELAY_ORIGIN).as_deref(),
        Ok(PRODUCTION_RELAY_ORIGIN)
    );
}

#[test]
fn machine_name_prefers_an_explicit_normalized_override() {
    assert_eq!(
        preferred_machine_name(Some("  Studio Mac  \n"), Some("System Mac")),
        "Studio Mac"
    );
}

#[test]
fn machine_name_uses_the_system_name_and_has_a_safe_fallback() {
    assert_eq!(
        preferred_machine_name(Some("  "), Some("  Metin’s MacBook Pro\n")),
        "Metin’s MacBook Pro"
    );
    assert_eq!(preferred_machine_name(None, None), "This Mac");
}

#[test]
fn machine_name_respects_the_relay_contract_limit() {
    let long_name = "m".repeat(MAX_MACHINE_NAME_CHARS + 1);
    assert_eq!(
        preferred_machine_name(None, Some(&long_name)).chars().count(),
        MAX_MACHINE_NAME_CHARS
    );
}

#[test]
fn secure_environment_override_is_normalized() {
    assert_eq!(
        configured_relay_origin(
            Some(" https://staging-relay.ditchnow.nl/ "),
            "https://relay.ditchnow.nl",
        )
        .as_deref(),
        Ok("https://staging-relay.ditchnow.nl")
    );
    assert_eq!(
        configured_relay_origin(Some("http://localhost:8787/"), "https://relay.ditchnow.nl").as_deref(),
        Ok("http://localhost:8787")
    );
}

#[test]
fn unsafe_or_non_origin_overrides_are_rejected() {
    for value in [
        "relay.ditchnow.nl",
        "http://relay.ditchnow.nl",
        "https://user@example.test",
        "https://example.test/path",
        "https://example.test?environment=staging",
        "https://example.test/#fragment",
    ] {
        assert!(
            configured_relay_origin(Some(value), "https://relay.ditchnow.nl").is_err(),
            "{value}"
        );
    }
}

#[test]
fn device_roster_and_revoke_paths_are_machine_scoped() {
    let machine_id = parse_identifier("22222222-2222-4222-8222-222222222222").unwrap();
    let device_id = parse_identifier("11111111-1111-4111-8111-111111111111").unwrap();
    assert_eq!(
        machine_devices_path(machine_id),
        "/v1/machines/22222222-2222-4222-8222-222222222222/devices"
    );
    assert_eq!(
        machine_device_path(machine_id, device_id),
        "/v1/machines/22222222-2222-4222-8222-222222222222/devices/11111111-1111-4111-8111-111111111111"
    );
}

#[test]
fn transmitted_projection_frame_keeps_timestamp_as_json_integer() {
    let id = new_identifier();
    let mut snapshot = ProjectionSnapshot::empty();
    snapshot.insert("project", &identifier_text(id), project_record(id, "Fixture project", "idle"));
    let transport = transport_of(snapshot);
    let frame = parsed(&transport.queue[1].frame);
    assert_eq!(frame.text_at("type"), Some("projection_snapshot_record"));
    assert_eq!(
        frame
            .get2("payload", "record")
            .and_then(|record| record.get("last_activity_at"))
            .and_then(|value| value.as_signed()),
        Some(1_787_596_800_123)
    );
}

#[test]
fn active_device_roster_uses_integer_timestamps_and_rejects_tombstones() {
    let device_id = new_identifier();
    let signing_public_key = "BEpzUDasQTezvS3DbSVeuAqDbQ7lL27drGz6T2wFxigZ7q0Cq5KV0ZgV3gGsCWAQq6d1GgTTArxB7r-tF3UsNeY";
    let agreement_public_key = "BKLLvBAvoHGRc8aMEJgGlYX6M_FcwKQqu8B5czZ-XzsEoEvQgqAK7cDxfc1NpOQVmXFm6pfcyXSoSm5bfEoo05E";
    let sound = vec![signing_public_key.to_owned(), agreement_public_key.to_owned()];
    let response = |state: &str| {
        parsed(&format!(
            "{{\"protocol_version\":1,\"devices\":[{{\"id\":\"{}\",\"name\":\"iPhone\",\"platform\":\"ios\",\"state\":\"{state}\",\"signing_public_key\":\"{signing_public_key}\",\"agreement_public_key\":\"{agreement_public_key}\",\"key_version\":3,\"authorized_at\":1787596700000,\"last_seen_at\":1787596800123}}]}}",
            identifier_text(device_id)
        ))
    };
    let devices = active_devices_from_response(&response("active"), &sound).unwrap();
    assert_eq!(devices.len(), 1);
    assert_eq!(devices[0].device_id, device_id);
    assert_eq!(devices[0].last_seen_at, Some(1_787_596_800_123));
    assert_eq!(devices[0].key_version, 3);

    assert!(active_devices_from_response(&response("revoked"), &sound).is_err());
    assert!(active_devices_from_response(&response("active"), &Vec::new()).is_err());
}

#[test]
fn staged_snapshot_waits_for_each_ack_and_commits_at_the_end() {
    let snapshot = snapshot_with_projects(2);
    let mut transport = transport_of(snapshot);
    assert_eq!(transport.queue.len(), 4);

    let mut frame_types = Vec::new();
    let mut committed = false;
    while let Some(work) = transport.next_frame() {
        let frame = parsed(&work.frame);
        frame_types.push(frame.text_at("type").unwrap().to_owned());
        let epoch = work.epoch;
        let sequence = work.sequence;
        match transport.acknowledge(epoch, sequence, "applied").unwrap() {
            ProjectionAckOutcome::Committed(snapshot) => {
                committed = true;
                assert_eq!(snapshot.records.len(), 2);
            }
            ProjectionAckOutcome::Advanced => {}
            ProjectionAckOutcome::Ignored => panic!("current ACK must advance"),
        }
    }
    assert!(committed);
    assert_eq!(
        frame_types,
        [
            "projection_snapshot_begin",
            "projection_snapshot_record",
            "projection_snapshot_record",
            "projection_snapshot_commit"
        ]
    );
}

fn drain(transport: &mut ProjectionTransport) {
    while let Some(work) = transport.next_frame() {
        let epoch = work.epoch;
        let sequence = work.sequence;
        transport.acknowledge(epoch, sequence, "applied").unwrap();
    }
}

#[test]
fn ordinary_change_emits_only_the_changed_projection() {
    let original = snapshot_with_projects(2);
    let mut transport = transport_of(original.copy());
    drain(&mut transport);
    let mut changed = original;
    let id = parse_identifier(&changed.records[0].id).unwrap();
    let name = changed.records[0].value.text_at("name").unwrap().to_owned();
    changed.records[0].value = project_record(id, &name, "running");
    transport.queue_incremental(changed);
    assert_eq!(transport.queue.len(), 1);
    let frame = parsed(&transport.queue[0].frame);
    assert_eq!(frame.text_at("type"), Some("projection_update"));
    assert_eq!(frame.text_at2("payload", "kind"), Some("project"));
}

#[test]
fn stale_ack_is_ignored_without_changing_current_epoch() {
    let mut transport = transport_of(snapshot_with_projects(1));
    let current_epoch = transport.epoch;
    assert!(matches!(
        transport.acknowledge(new_identifier(), 1, "applied").unwrap(),
        ProjectionAckOutcome::Ignored
    ));
    assert_eq!(transport.epoch, current_epoch);
    assert_eq!(transport.acknowledged_sequence, 0);
}

#[test]
fn deterministic_relay_keeps_old_projection_until_snapshot_commit() {
    let old = snapshot_with_projects(1);
    let replacement = snapshot_with_projects(2);
    let mut relay = FakeProjectionRelay { active: old.copy(), staging: None };
    let mut transport = transport_of(replacement.copy());

    for _ in 0..3 {
        let work = transport.next_frame().unwrap();
        let epoch = work.epoch;
        let sequence = work.sequence;
        let response = relay.receive(&parsed(&work.frame));
        assert_eq!(response.text_at("type"), Some("projection_ack"));
        transport.acknowledge(epoch, sequence, "applied").unwrap();
    }
    assert!(same_snapshot(&relay.active, &old));

    let work = transport.next_frame().unwrap();
    let epoch = work.epoch;
    let sequence = work.sequence;
    relay.receive(&parsed(&work.frame));
    assert!(matches!(
        transport.acknowledge(epoch, sequence, "applied").unwrap(),
        ProjectionAckOutcome::Committed(_)
    ));
    assert_eq!(relay.active.records.len(), replacement.records.len());
}

#[test]
fn deterministic_relay_requests_reconciliation_for_a_gap() {
    let mut relay = FakeProjectionRelay { active: ProjectionSnapshot::empty(), staging: None };
    let transport = transport_of(snapshot_with_projects(1));
    let skipped = parsed(&transport.queue[1].frame);
    assert_eq!(skipped.get2("payload", "sequence").unwrap().as_unsigned(), Some(2));
    let response = relay.receive(&skipped);
    assert_eq!(response.text_at("type"), Some("projection_gap"));
    assert_eq!(response.get2("payload", "expected_sequence").unwrap().as_unsigned(), Some(1));
    assert_eq!(response.get2("payload", "full_snapshot_required").unwrap().as_bool(), Some(true));
}

#[test]
fn incremental_projection_work_is_bounded_to_thirty_two_records() {
    let mut transport = transport_of(ProjectionSnapshot::empty());
    drain(&mut transport);
    transport.queue_incremental(snapshot_with_projects(40));
    assert_eq!(transport.queue.len(), 32);
    assert!(transport.dirty);
}

#[test]
fn frames_wait_for_their_acknowledgement_and_time_out() {
    let mut transport = transport_of(snapshot_with_projects(1));
    assert!(matches!(transport.frame_step(1_000), FrameStep::Send(_)));
    assert!(matches!(transport.frame_step(2_000), FrameStep::Waiting));
    assert!(matches!(transport.frame_step(40_000), FrameStep::TimedOut));
    drain(&mut transport);
    assert!(matches!(transport.frame_step(50_000), FrameStep::Idle));
    assert!(!transport.wants_changes());
    transport.mark_dirty();
    assert!(transport.wants_changes());
}

#[test]
fn refused_acknowledgements_are_failures() {
    let mut transport = transport_of(snapshot_with_projects(1));
    let work = transport.next_frame().unwrap();
    let (epoch, sequence) = (work.epoch, work.sequence);
    assert!(transport.acknowledge(epoch, sequence, "rejected").is_err());
}

#[test]
fn changes_are_those_records_that_differ_but_for_their_version() {
    let before = snapshot_with_projects(1);
    let id = parse_identifier(&before.records[0].id).unwrap();
    let bumped = set_projection_version(before.records[0].value.copy(), 9);
    assert!(same_projection_content(&before.records[0].value, &bumped));
    let mut after = ProjectionSnapshot::empty();
    after.insert("project", &before.records[0].id, bumped);
    assert!(projection_changes(&before, &after).is_empty());
    after.insert("project", &before.records[0].id, project_record(id, "Project 0", "running"));
    assert_eq!(projection_changes(&before, &after).len(), 1);
    after.remove("project", &before.records[0].id);
    assert_eq!(projection_changes(&before, &after).len(), 1);
}

#[test]
fn a_snapshot_counts_what_it_shows() {
    let shown = |id: u128| vec![Shown { id, value: Json::object() }];
    let snapshot = ProjectionSnapshot::of_parts(&shown(1), &shown(2), &Vec::new());
    let counts = snapshot.counts();
    assert_eq!(counts.get("projects").unwrap().as_unsigned(), Some(1));
    assert_eq!(counts.get("sessions").unwrap().as_unsigned(), Some(1));
    assert_eq!(counts.get("attention").unwrap().as_unsigned(), Some(0));
}

#[test]
fn only_web_addresses_are_asked_for_their_origin() {
    let nested = format!("{}https://relay.example", "blob:".repeat(200_000));
    assert_eq!(
        configured_relay_origin(Some(&nested), "https://relay.example").unwrap_err(),
        "expected HTTPS (plain HTTP is allowed only for localhost)"
    );
    assert_eq!(
        configured_relay_origin(Some("https://Relay.Example:8443/"), "https://relay.example").unwrap(),
        "https://relay.example:8443"
    );
}
