use ditchd::clock::{current_millis, valid_millis};
use ditchd::ids::{identifier_text, new_identifier, parse_identifier};
use ditchd::json::{parse_json, render_json, Json};
use ditchd::receipts::Receipts;
use ditchd::relay::{
    command_ack_frame, command_result_frame, connected_owner, find_active_device, handle_socket_frame, heartbeat_due,
    heartbeat_frame, socket_address, stays_connected, ticket_request, unwrap_command, Backoff, RelayFrameAction,
};
use ditchd::remote_command::{
    begin_command, check_command, conclude_command, finish_command, plan_command, rejected, CommandAction, CommandStep,
    ConfirmationClass, RemoteCommand, RemoteCommandType, RemoteError,
};
use ditchd::remote_machine::{machine_path, path_of_confirmation, RemoteDeviceRecord};
use ditchd::remote_pairing::{
    confirm_device, confirm_owner, consumed_pairing, machine_record, nonce_text, pairing_from_response, persist_projection_progress,
    registration_body, registration_proof_text, registration_result, rejection_text, should_reconcile, signed_request_headers, EntitlementEffect, RemoteController,
    RemoteMachineRecord,
};

use ditchd::requests::{ClientRequest, Place};
use ditchd::state::RuntimeState;

const NOW: i64 = 1_787_596_800_000;

fn parsed(text: &str) -> Json {
    parse_json(text).expect("fixture should be valid JSON")
}

fn machine(owner: Option<u128>) -> RemoteMachineRecord {
    RemoteMachineRecord {
        machine_id: 1,
        owner_id: owner,
        name: "Mac".to_owned(),
        signing_public_key: "s".to_owned(),
        agreement_public_key: "a".to_owned(),
        key_version: 1,
        enabled: true,
        projection_epoch: 3,
        projection_sequence: 0,
    }
}

fn device(state: &str) -> RemoteDeviceRecord {
    RemoteDeviceRecord {
        device_id: 9,
        name: "iPhone".to_owned(),
        signing_public_key: "s".to_owned(),
        agreement_public_key: "a".to_owned(),
        key_version: 1,
        state: state.to_owned(),
        last_seen_at: None,
    }
}

fn command() -> RemoteCommand {
    RemoteCommand {
        protocol_version: 1,
        command_id: 77,
        idempotency_key: "k".to_owned(),
        owner_id: 2,
        machine_id: 1,
        device_id: 9,
        command_type: RemoteCommandType::SessionStop,
        created_at: NOW,
        expires_at: NOW + 1000,
    }
}

#[test]
fn ssh_runtime_cannot_start_mobile_connection_or_accept_mobile_commands() {
    let mut controller = RemoteController::new(Some("https://relay.ditchnow.nl".to_owned()));
    assert!(!controller.start_connection(true, true, &Some(machine(Some(2)))));
    assert_eq!(
        check_command(
            &command(),
            Ok(ConfirmationClass::Device),
            true,
            true,
            &Some(machine(Some(2))),
            &vec![device("active")],
        ),
        Err("unauthorized")
    );
    let mut serving = RuntimeState::restore(Vec::new(), Vec::new(), Vec::new(), None, true);
    assert!(matches!(serving.place(ClientRequest::CreateRemotePairing), Place::Refused(_)));
    assert!(controller.start_connection(true, false, &Some(machine(Some(2)))));
}

#[test]
fn commands_are_taken_from_the_owners_active_devices_alone() {
    let check = |command: &RemoteCommand,
                 envelope: Result<ConfirmationClass, RemoteError>,
                 authenticated: bool,
                 machine: Option<RemoteMachineRecord>,
                 state: &str| {
        check_command(command, envelope, authenticated, false, &machine, &vec![device(state)])
    };
    let device_class = Ok(ConfirmationClass::Device);
    assert_eq!(check(&command(), device_class, false, Some(machine(Some(2))), "active"), Ok(()));
    assert_eq!(
        check(&command(), device_class, false, Some(machine(Some(3))), "active"),
        Err("unauthorized")
    );
    assert_eq!(check(&command(), device_class, false, None, "active"), Err("unauthorized"));
    assert_eq!(
        check(&command(), device_class, false, Some(machine(Some(2))), "revoked"),
        Err("device_revoked")
    );
    let strong = Ok(ConfirmationClass::DeviceOwnerAuthentication);
    assert_eq!(
        check(&command(), strong, false, Some(machine(Some(2))), "active"),
        Err("action_not_allowed")
    );
    assert_eq!(check(&command(), strong, true, Some(machine(Some(2))), "active"), Ok(()));
    assert_eq!(
        check(&command(), Ok(ConfirmationClass::DesktopOnly), true, Some(machine(Some(2))), "active"),
        Err("action_not_allowed")
    );
    assert_eq!(
        check(&command(), Err(RemoteError::CommandExpired), true, Some(machine(Some(2))), "active"),
        Err("command_expired")
    );
    let mut timeless = command();
    timeless.expires_at = i64::MAX;
    assert_eq!(
        check(&timeless, device_class, false, Some(machine(Some(2))), "active"),
        Err("command_expired")
    );
}

#[test]
fn a_command_is_carried_out_once() {
    let mut receipts = Receipts::new();
    let code = |step: CommandStep| match step {
        CommandStep::Answer(result) => result.error_code,
        other => panic!("{other:?}"),
    };
    assert_eq!(code(begin_command(&mut receipts, 77, "body", None)), Some("internal_error"));
    assert_eq!(code(begin_command(&mut receipts, 77, "body", Some(false))), Some("command_duplicate"));
    assert!(matches!(begin_command(&mut receipts, 77, "body", Some(true)), CommandStep::CarryOut));
    assert!(matches!(begin_command(&mut receipts, 77, "body", Some(true)), CommandStep::Recover));
    conclude_command(&mut receipts, &finish_command(77, None, None));
    assert_eq!(code(begin_command(&mut receipts, 77, "body", Some(true))), None);
}

#[test]
fn bodies_of_commands_are_checked() {
    let id = identifier_text(5);
    let stop = parsed(&format!("{{\"session_id\":\"{id}\"}}"));
    assert!(matches!(
        plan_command(RemoteCommandType::SessionStop, &stop),
        Ok(CommandAction::Stop { agent_id: 5 })
    ));
    let empty = parsed(&format!("{{\"session_id\":\"{id}\",\"text\":\"\"}}"));
    assert_eq!(
        plan_command(RemoteCommandType::SessionPrompt, &empty).unwrap_err(),
        "action_not_allowed"
    );
    assert_eq!(
        plan_command(RemoteCommandType::IntegrationApply, &stop).unwrap_err(),
        "action_not_allowed"
    );
    let page = parsed(&format!("{{\"session_id\":\"{id}\",\"limit\":201}}"));
    assert!(plan_command(RemoteCommandType::QuerySessionTranscript, &page).is_err());
}

#[test]
fn results_of_commands_are_told_in_the_codes_of_the_phone() {
    let done = finish_command(77, None, Some(Json::object()));
    assert_eq!((done.status, done.error_code), ("completed", None));
    assert_eq!(finish_command(77, Some("agent_not_found"), None).error_code, Some("session_not_found"));
    assert_eq!(finish_command(77, Some("agent_busy"), None).error_code, Some("session_not_running"));
    assert_eq!(finish_command(77, Some("odd"), None).error_code, Some("action_not_allowed"));
    assert_eq!(rejected(77, "unauthorized").status, "rejected");
}

#[test]
fn frames_of_the_relay_are_read() {
    let epoch = new_identifier();
    let ack = format!(
        "{{\"protocol_version\":1,\"message_id\":\"{}\",\"type\":\"projection_ack\",\"created_at\":1,\"payload\":{{\"epoch\":\"{}\",\"accepted_sequence\":4,\"status\":\"applied\"}}}}",
        identifier_text(new_identifier()),
        identifier_text(epoch)
    );
    assert!(matches!(
        handle_socket_frame(&ack).unwrap(),
        RelayFrameAction::ProjectionAck { epoch: e, sequence: 4, status } if e == epoch && status == "applied"
    ));
    assert!(handle_socket_frame("not json").is_err());
}

#[test]
fn the_owners_authentication_does_not_last() {
    let wrapper = |at: i64| parsed(&format!("{{\"owner_authenticated_at\":{at},\"body\":{{\"a\":1}}}}"));
    let (body, fresh) = unwrap_command(&wrapper(NOW - 60_000), NOW);
    assert!(fresh);
    assert_eq!(render_json(&body), "{\"a\":1}");
    assert!(!unwrap_command(&wrapper(NOW - 60_001), NOW).1);
    assert!(!unwrap_command(&wrapper(NOW + 1), NOW).1);
}

#[test]
fn connections_are_kept_and_retried_with_patience() {
    assert!(stays_connected(true, &Some(machine(Some(2)))));
    assert!(!stays_connected(false, &Some(machine(Some(2)))));
    assert!(!stays_connected(true, &None));
    assert_eq!(connected_owner(&Some(machine(Some(2)))).unwrap(), (2, 1));
    assert!(connected_owner(&Some(machine(None))).is_err());
    let mut backoff = Backoff::new();
    let first = backoff.after_failure(0);
    let second = backoff.after_failure(0);
    assert!(second > first);
    backoff.reset();
    assert_eq!(backoff.after_failure(0), first);
    assert!(heartbeat_due(0, 20_000));
    assert!(!heartbeat_due(0, 19_999));
    assert_eq!(find_active_device(&vec![device("revoked"), device("active")], 9), Some(1));
}

#[test]
fn the_socket_is_opened_at_the_relays_own_address() {
    let answer = parsed("{\"ticket\":\"abc\"}");
    assert_eq!(
        socket_address("https://relay.ditchnow.nl", &answer).unwrap(),
        "wss://relay.ditchnow.nl/v1/socket?ticket=abc"
    );
    assert_eq!(
        socket_address("http://localhost:8787", &answer).unwrap(),
        "ws://localhost:8787/v1/socket?ticket=abc"
    );
    assert_eq!(socket_address("https://x", &parsed("{}")), Err("relay omitted socket ticket"));
}

#[test]
fn nonces_are_written_in_base_64_for_urls() {
    assert_eq!(nonce_text(&[]), "");
    assert_eq!(nonce_text(&[0xfb, 0xff]), "-_8");
    assert_eq!(nonce_text(b"light w"), "bGlnaHQgdw");
    assert_eq!(nonce_text(&[1, 2, 3]), "AQID");
}

#[test]
fn signed_requests_carry_their_principal() {
    let headers = signed_request_headers(1, NOW, "nonce", "signature", Some("token"));
    assert!(headers.iter().any(|header| header.name == "X-Ditch-Principal-Id"
        && header.value == "00000000-0000-0000-0000-000000000001"));
    assert!(headers
        .iter()
        .any(|header| header.name == "X-Ditch-Timestamp" && header.value == "1787596800000"));
}

#[test]
fn machines_keep_their_owner_and_their_progress() {
    let kept = machine_record(Some(&machine(Some(2))), 1, "Mac", "s", "a", 8);
    assert_eq!((kept.owner_id, kept.projection_epoch), (Some(2), 3));
    let progressed = persist_projection_progress(Some(machine(Some(2))), 5, 6).unwrap();
    assert_eq!((progressed.projection_epoch, progressed.projection_sequence), (5, 6));
    assert!(persist_projection_progress(None, 5, 6).is_err());
    assert!(should_reconcile(&Some(machine(Some(2)))));
    assert!(!should_reconcile(&Some(machine(None))));
    assert!(registration_result(201).is_ok());
    assert!(registration_result(500).is_err());
    assert_eq!(
        rejection_text(Some(&parsed("{\"error\":{\"code\":\"slot_limit\"}}"))),
        "slot_limit"
    );
    assert_eq!(rejection_text(None), "relay rejected request");
}

#[test]
fn pairings_show_their_secret_once() {
    let id = new_identifier();
    let value = parsed(&format!(
        "{{\"pairing_id\":\"{0}\",\"machine_id\":\"{1}\",\"expires_at\":{2},\"secret\":\"abc\"}}",
        identifier_text(id),
        identifier_text(1),
        NOW
    ));
    let hidden = pairing_from_response("https://relay.ditchnow.nl", &value, false).unwrap();
    assert_eq!(hidden.qr_payload, None);
    assert_eq!((hidden.pairing_id, hidden.machine_id, hidden.expires_at), (id, 1, NOW));
    assert_eq!(hidden.state, "pending");
    let shown = pairing_from_response("https://relay.ditchnow.nl", &value, true).unwrap();
    assert_eq!(
        shown.qr_payload.unwrap(),
        format!(
            "ditch://pair?v=1&relay=https://relay.ditchnow.nl&pairing_id={}&machine_id=00000000-0000-0000-0000-000000000001&secret=abc&expires_at=1787596800000",
            identifier_text(id)
        )
    );
    assert!(pairing_from_response("https://relay.ditchnow.nl", &parsed("{}"), true).is_err());
    assert!(confirm_owner(&parsed("{}"), Some(machine(None))).is_err());
}

#[test]
fn identifiers_are_read_and_written() {
    let id = new_identifier();
    let text = identifier_text(id);
    assert_eq!(text.len(), 36);
    assert_eq!(text.as_bytes()[14], b'4');
    assert_eq!(parse_identifier(&text), Some(id));
    assert_eq!(parse_identifier("no identifier"), None);
    assert_ne!(new_identifier(), new_identifier());
}

#[test]
fn times_are_dates() {
    assert!(valid_millis(NOW));
    assert!(!valid_millis(i64::MAX));
    assert!(!valid_millis(i64::MIN));
    assert!(valid_millis(current_millis()));
}

#[test]
fn results_are_sent_with_a_lifetime() {
    let frame = parsed(&command_result_frame(77, 9, Json::object(), 5, NOW));
    assert_eq!(frame.text_at("type"), Some("command_result"));
    assert_eq!(frame.get("created_at").unwrap().as_signed(), Some(NOW));
}

#[test]
fn paths_of_the_relay_name_their_subject() {
    assert_eq!(machine_path(1), "/v1/machines/00000000-0000-0000-0000-000000000001");
    assert_eq!(
        path_of_confirmation(2),
        "/v1/pairings/00000000-0000-0000-0000-000000000002/confirm"
    );
}

#[test]
fn a_machine_signs_what_it_registers() {
    assert_eq!(
        registration_proof_text(1, "Mac", "s", "a"),
        "DITCH-MACHINE-REGISTER-1\n00000000-0000-0000-0000-000000000001\nMac\ns\na"
    );
    assert_eq!(
        render_json(&registration_body(1, "Mac", "s", "a", "p")),
        render_json(&parsed(
            r#"{"protocol_version":1,"machine_id":"00000000-0000-0000-0000-000000000001","name":"Mac","signing_public_key":"s","agreement_public_key":"a","proof":"p"}"#
        ))
    );
    assert_eq!(
        render_json(&ticket_request(1, 2)),
        render_json(&parsed(
            r#"{"machine_id":"00000000-0000-0000-0000-000000000001","role":"machine","connection_epoch":"00000000-0000-0000-0000-000000000002"}"#
        ))
    );
}

#[test]
fn frames_carry_their_kind() {
    let frame = parsed(&command_ack_frame(77, 9, 5, NOW));
    let text = render_json(&frame);
    assert!(text.contains("\"command_ack\"") && text.contains("\"accepted\""));
    assert!(text.contains(&identifier_text(77)) && text.contains(&identifier_text(9)));
    assert!(heartbeat_frame(5, NOW).contains("\"heartbeat\""));
}

#[test]
fn a_pairing_is_kept_until_it_is_forgotten() {
    let mut controller = RemoteController::new(None);
    let pairing = consumed_pairing(4, 1, &device("active"), NOW);
    assert_eq!(pairing.state, "consumed");
    assert!(pairing.qr_payload.is_none());
    assert_eq!(pairing.pending_device_id, Some(9));
    controller.remember_pairing(4, pairing);
    controller.remember_pairing(4, consumed_pairing(4, 1, &device("active"), NOW + 1));
    assert_eq!(controller.pairings.len(), 1);
    assert_eq!(controller.pairings[0].1.expires_at, NOW + 1);
    controller.forget_pairing(5);
    assert_eq!(controller.pairings.len(), 1);
    controller.forget_pairing(4);
    assert!(controller.pairings.is_empty());
}

#[test]
fn a_paired_device_needs_its_keys() {
    let whole = parsed(r#"{"device_signing_public_key":"s","device_agreement_public_key":"a"}"#);
    let device = confirm_device(&whole, 9, NOW).unwrap();
    assert_eq!((device.device_id, device.name.as_str(), device.state.as_str()), (9, "iPhone", "active"));
    assert_eq!(device.last_seen_at, Some(NOW));
    assert_eq!(confirm_device(&parsed("{}"), 9, NOW).unwrap_err().code, "remote_pairing_failed");
}

#[test]
fn losing_the_right_wakes_the_connection() {
    let mut controller = RemoteController::new(Some("https://relay.ditchnow.nl".to_owned()));
    controller.authenticated_socket_live = true;
    assert!(controller.publishes_projection(true));
    assert!(!controller.publishes_projection(false));
    assert_eq!(controller.entitlement_changed(true), EntitlementEffect::Start);
    assert!(controller.authenticated_socket_live);
    assert_eq!(controller.entitlement_changed(false), EntitlementEffect::Wake);
    assert!(!controller.authenticated_socket_live);
    controller.connection_started = true;
    controller.connection_ended();
    assert!(!controller.connection_started);
}
