use ditchd::edition::{
    delay_after, entitlement_retry_delay, refresh_failure_text, CapabilityAvailability,
    CommercialEntitlement, CommercialEntitlementStatus, EntitlementReadiness, RefreshOutcome,
    RefreshedCommercialEntitlement, RemoteGate, State, ENTITLEMENT_REFRESH_INTERVAL,
};
use ditchd::json::Json;
use ditchd::service::{
    accepts_credential, commercial_release_error, commercial_upgrade_deferred, release_settings,
    runtime_capabilities, told_release_sequence, BuildSettings, UpgradeError,
};

const NOW: i64 = 1_787_596_800_000;

fn refreshed(status: CommercialEntitlementStatus) -> RefreshedCommercialEntitlement {
    let active = matches!(
        status,
        CommercialEntitlementStatus::Active | CommercialEntitlementStatus::OverLimit
    );
    RefreshedCommercialEntitlement {
        capability: CommercialEntitlement {
            status,
            capabilities: if active { vec!["remote_control".to_owned()] } else { Vec::new() },
            valid_until: None,
        },
        summary: Json::object().with("active", Json::Bool(active)),
    }
}

#[test]
fn explicit_activation_updates_capabilities_without_restarting_the_runtime() {
    let mut state = State::new();
    state.entitlement_refresh_in_flight = true;
    state.entitlement_refresh_failures = 3;
    let old_generation = state.entitlement_generation;
    assert!(state.accept_activation(refreshed(CommercialEntitlementStatus::Active), NOW));
    assert_eq!(state.remote_control_availability(NOW), CapabilityAvailability::Allowed);
    assert_ne!(state.entitlement_generation, old_generation);
    assert_eq!(state.entitlement_refresh_failures, 0);
    assert!(state.entitlement_refresh_in_flight);
}

#[test]
fn active_community_license_does_not_enable_commercial_capabilities() {
    let mut state = State::new();
    assert!(!state.accept_activation(refreshed(CommercialEntitlementStatus::Inactive), NOW));
    assert_eq!(
        state.remote_control_availability(NOW),
        CapabilityAvailability::Required(CommercialEntitlementStatus::Inactive)
    );
}

#[test]
fn startup_and_refresh_failure_are_not_reported_as_expired() {
    let mut state = State::new();
    assert_eq!(state.remote_control_availability(NOW), CapabilityAvailability::Loading);
    state.entitlement_readiness = EntitlementReadiness::RefreshFailed;
    assert_eq!(state.remote_control_availability(NOW), CapabilityAvailability::Unavailable);
}

#[test]
fn confirmed_entitlement_is_the_only_source_of_required_or_allowed() {
    let mut state = State::new();
    state.entitlement_readiness = EntitlementReadiness::Ready;
    state.entitlement = Some(refreshed(CommercialEntitlementStatus::Expired));
    assert_eq!(
        state.remote_control_availability(NOW),
        CapabilityAvailability::Required(CommercialEntitlementStatus::Expired)
    );
    state.entitlement = Some(refreshed(CommercialEntitlementStatus::Active));
    assert_eq!(state.remote_control_availability(NOW), CapabilityAvailability::Allowed);
}

#[test]
fn failed_refreshes_back_off_quickly_before_normal_polling() {
    assert_eq!(entitlement_retry_delay(1), 2);
    assert_eq!(entitlement_retry_delay(2), 5);
    assert_eq!(entitlement_retry_delay(3), 15);
    assert_eq!(entitlement_retry_delay(4), 60);
    assert_eq!(entitlement_retry_delay(20), 60);
    assert_eq!(ENTITLEMENT_REFRESH_INTERVAL, 300);
}

#[test]
fn a_refresh_that_was_overtaken_by_an_activation_changes_nothing() {
    let mut state = State::new();
    let generation = state.begin_refresh().expect("no refresh is under way");
    assert!(state.begin_refresh().is_none());
    assert!(state.accept_activation(refreshed(CommercialEntitlementStatus::Active), NOW));
    let outcome = state.finish_refresh(generation, Some(refreshed(CommercialEntitlementStatus::Expired)));
    assert_eq!(outcome, RefreshOutcome::Updated);
    assert_eq!(state.remote_control_availability(NOW), CapabilityAvailability::Allowed);
    assert!(!state.entitlement_refresh_in_flight);
}

#[test]
fn failed_refreshes_are_counted_and_waited_for() {
    let mut state = State::new();
    let generation = state.begin_refresh().unwrap();
    let outcome = state.finish_refresh(generation, None);
    assert_eq!(outcome, RefreshOutcome::Failed(1));
    assert_eq!(delay_after(outcome), 2);
    assert_eq!(delay_after(RefreshOutcome::Updated), ENTITLEMENT_REFRESH_INTERVAL);
    assert_eq!(
        refresh_failure_text("offline", 1),
        "Commercial entitlement refresh attempt 1 failed: offline"
    );
    assert_eq!(
        state.commercial_entitlement(RefreshOutcome::AlreadyInFlight).unwrap_err().code,
        "commercial_entitlement_loading"
    );
}

#[test]
fn a_runtime_on_an_ssh_host_offers_no_remote_control() {
    let mut state = State::new();
    state.accept_activation(refreshed(CommercialEntitlementStatus::Active), NOW);
    assert!(matches!(
        state.require_remote_control_entitlement(true, NOW),
        RemoteGate::Refused { error } if error.code == "wrong_execution_target"
    ));
    assert!(matches!(state.require_remote_control_entitlement(false, NOW), RemoteGate::Open));
}

#[test]
fn a_plan_that_has_ended_is_not_in_force() {
    let mut entitlement = refreshed(CommercialEntitlementStatus::Active).capability;
    entitlement.valid_until = Some(NOW);
    assert!(!entitlement.active_at(NOW));
    assert!(entitlement.active_at(NOW - 1));
}

#[test]
fn capabilities_are_those_of_the_runtime_and_of_the_plan() {
    let mut state = State::new();
    let bare = runtime_capabilities(3, &state, NOW);
    assert_eq!(bare[0], "edition_commercial");
    assert_eq!(bare[9], "remote_runtime_protocol_v3");
    assert_eq!(bare.len(), 10);
    state.accept_activation(refreshed(CommercialEntitlementStatus::Active), NOW);
    assert_eq!(runtime_capabilities(3, &state, NOW)[10], "remote_control");
}

#[test]
fn commercial_upgrade_is_deferred_without_stopping_active_agents() {
    assert!(commercial_upgrade_deferred(0).is_none());
    let deferred = commercial_upgrade_deferred(2).expect("active agents defer an upgrade");
    assert_eq!(deferred.code, "commercial_upgrade_deferred");
    assert!(deferred.message.contains("2 active agents"));
    assert!(deferred.message.contains("not interrupt"));
    assert!(commercial_upgrade_deferred(1).unwrap().message.contains("1 active agent to finish"));
}

#[test]
fn release_failures_have_codes_of_their_own() {
    let code = |error: UpgradeError| commercial_release_error(&error, "words").code;
    assert_eq!(code(UpgradeError::Network), "commercial_release_network_failed");
    assert_eq!(
        code(UpgradeError::Relay { code: "release_unavailable".into() }),
        "commercial_release_unavailable"
    );
    assert_eq!(
        code(UpgradeError::Relay { code: "device_not_licensed".into() }),
        "commercial_device_not_licensed"
    );
    assert_eq!(code(UpgradeError::Relay { code: "other".into() }), "commercial_release_rejected");
    assert_eq!(code(UpgradeError::Rejected), "commercial_release_rejected");
    assert_eq!(code(UpgradeError::Expired), "commercial_release_authorization_expired");
    assert_eq!(code(UpgradeError::Downgrade), "commercial_release_downgrade_refused");
    assert_eq!(code(UpgradeError::Incompatible), "commercial_release_incompatible");
    assert_eq!(code(UpgradeError::ManifestSignature), "commercial_release_signature_invalid");
    assert_eq!(code(UpgradeError::Digest), "commercial_release_artifact_invalid");
    assert_eq!(code(UpgradeError::Size), "commercial_release_artifact_invalid");
    assert_eq!(code(UpgradeError::ApplicationIdentity), "commercial_release_identity_invalid");
    assert_eq!(
        code(UpgradeError::InvalidResponse("official Apple Team ID is not configured".into())),
        "commercial_release_verification_not_configured"
    );
    assert_eq!(code(UpgradeError::InvalidResponse("odd".into())), "commercial_release_invalid");
    assert_eq!(code(UpgradeError::Io), "commercial_release_staging_failed");
    assert_eq!(commercial_release_error(&UpgradeError::Io, "disk full").message, "disk full");
}

fn settings() -> BuildSettings {
    BuildSettings {
        public_key: Some("AAEC/w==".into()),
        team_id: Some("TEAM123456".into()),
        build_number: None,
        community_build_sequence: Some("41".into()),
        release_sequence: Some("7".into()),
    }
}

#[test]
fn releases_are_held_to_what_the_build_was_given() {
    let held = release_settings(&settings()).expect("complete settings");
    assert_eq!(held.public_key, [0u8, 1, 2, 255]);
    assert_eq!(held.team_id, "TEAM123456");
    assert_eq!(held.community_build, 41);
    assert_eq!(held.installed_sequence, 7);
    let plain = BuildSettings { build_number: Some("50".into()), release_sequence: None, ..settings() };
    let held = release_settings(&plain).unwrap();
    assert_eq!((held.community_build, held.installed_sequence), (50, 0));
}

#[test]
fn incomplete_build_settings_are_refused() {
    let refused = |build: BuildSettings| release_settings(&build).unwrap_err();
    assert_eq!(
        refused(BuildSettings { public_key: None, ..settings() }),
        "this source build is not configured for official Commercial artifacts"
    );
    for key in ["AAEC_w==", "AAEC/w", "AAEC/x==", "A"] {
        assert_eq!(
            refused(BuildSettings { public_key: Some(key.into()), ..settings() }),
            "release verification key is invalid"
        );
    }
    assert_eq!(
        refused(BuildSettings { team_id: None, ..settings() }),
        "official Apple Team ID is not configured"
    );
    assert_eq!(
        refused(BuildSettings { build_number: Some("x".into()), ..settings() }),
        "Community build sequence is invalid"
    );
    assert_eq!(
        refused(BuildSettings { release_sequence: Some("-1".into()), ..settings() }),
        "installed release sequence is invalid"
    );
}

#[test]
fn told_sequences_and_credentials_are_bounded() {
    assert_eq!(told_release_sequence(Some("18446744073709551615")), u64::MAX);
    assert_eq!(told_release_sequence(Some("18446744073709551616")), 0);
    assert_eq!(told_release_sequence(Some("+12")), 12);
    assert_eq!(told_release_sequence(Some("+")), 0);
    assert_eq!(told_release_sequence(None), 0);
    assert!(accepts_credential(128) && !accepts_credential(129) && !accepts_credential(0));
}

#[test]
fn a_refresh_decides_whether_remote_control_is_open() {
    let mut state = State::new();
    assert!(state.accept_activation(refreshed(CommercialEntitlementStatus::Active), NOW));
    assert!(state.require_after_refresh(RefreshOutcome::Updated, NOW).is_none());
    assert!(state.require_after_refresh(RefreshOutcome::AlreadyInFlight, NOW).is_some());
    assert!(state.require_after_refresh(RefreshOutcome::Failed(1), NOW).is_some());
}
