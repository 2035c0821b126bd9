use blackhole::kill_switch::config::{resolve_backend_kind, CoreConfig, TorBackendKind};
use blackhole::kill_switch::error::BlackholeError;
use blackhole::kill_switch::guard::{GuardState, GuardStateMachine};

#[test]
fn starts_disabled() {
    let sm = GuardStateMachine::new();
    assert_eq!(sm.current(), GuardState::Disabled);
}

#[test]
fn happy_path_enable_then_disable() {
    let mut sm = GuardStateMachine::new();
    sm.begin_enable().unwrap();
    assert_eq!(sm.current(), GuardState::Enabling);
    sm.finish_enable(true);
    assert_eq!(sm.current(), GuardState::Enabled);

    sm.begin_disable().unwrap();
    assert_eq!(sm.current(), GuardState::Disabling);
    sm.finish_disable(true);
    assert_eq!(sm.current(), GuardState::Disabled);
}

#[test]
fn cannot_enable_twice_concurrently() {
    let mut sm = GuardStateMachine::new();
    sm.begin_enable().unwrap();
    let err = sm.begin_enable().unwrap_err();
    assert!(matches!(
        err,
        BlackholeError::InvalidTransition { action: "enable", state: GuardState::Enabling }
    ));
}

#[test]
fn disable_from_already_disabled_is_allowed_for_crash_recovery() {
    let mut sm = GuardStateMachine::new();
    sm.begin_disable().unwrap();
    assert_eq!(sm.current(), GuardState::Disabling);
    sm.finish_disable(true);
    assert_eq!(sm.current(), GuardState::Disabled);
}

#[test]
fn cannot_disable_mid_transition() {
    let mut sm = GuardStateMachine::new();
    sm.begin_enable().unwrap();
    let err = sm.begin_disable().unwrap_err();
    assert!(matches!(
        err,
        BlackholeError::InvalidTransition { action: "disable", state: GuardState::Enabling }
    ));
}

#[test]
fn failed_enable_is_fail_closed_into_faulted() {
    let mut sm = GuardStateMachine::new();
    sm.begin_enable().unwrap();
    sm.finish_enable(false);
    assert_eq!(sm.current(), GuardState::Faulted);

    let err = sm.require_enabled("new_identity").unwrap_err();
    assert!(matches!(
        err,
        BlackholeError::InvalidTransition { action: "new_identity", state: GuardState::Faulted }
    ));
}

#[test]
fn can_retry_enable_from_faulted() {
    let mut sm = GuardStateMachine::new();
    sm.begin_enable().unwrap();
    sm.finish_enable(false);
    assert_eq!(sm.current(), GuardState::Faulted);

    sm.begin_enable().unwrap();
    sm.finish_enable(true);
    assert_eq!(sm.current(), GuardState::Enabled);
}

#[test]
fn can_attempt_disable_from_faulted() {
    let mut sm = GuardStateMachine::new();
    sm.begin_enable().unwrap();
    sm.finish_enable(false);

    sm.begin_disable().unwrap();
    sm.finish_disable(true);
    assert_eq!(sm.current(), GuardState::Disabled);
}

#[test]
fn failed_disable_stays_faulted_not_enabled() {
    let mut sm = GuardStateMachine::new();
    sm.begin_enable().unwrap();
    sm.finish_enable(true);

    sm.begin_disable().unwrap();
    sm.finish_disable(false);
    assert_eq!(sm.current(), GuardState::Faulted);
}

#[test]
fn new_identity_requires_enabled() {
    let mut sm = GuardStateMachine::new();
    assert!(sm.require_enabled("new_identity").is_err());

    sm.begin_enable().unwrap();
    sm.finish_enable(true);
    assert!(sm.require_enabled("new_identity").is_ok());
}

#[test]
fn reconcile_flags_enabled_state_with_no_actual_blocking_as_faulted() {
    let mut sm = GuardStateMachine::new();
    sm.begin_enable().unwrap();
    sm.finish_enable(true);

    let (state, detail) = sm.reconcile(false, "nftables table");
    assert_eq!(state, GuardState::Faulted);
    assert!(detail.unwrap().contains("nftables table"));
}

#[test]
fn reconcile_flags_disabled_state_with_lingering_rules_as_faulted() {
    let sm = GuardStateMachine::new();
    let (state, detail) = sm.reconcile(true, "WFP sublayer");
    assert_eq!(state, GuardState::Faulted);
    assert!(detail.unwrap().contains("WFP sublayer"));
}

#[test]
fn reconcile_is_quiet_when_state_and_reality_agree() {
    let mut sm = GuardStateMachine::new();
    let (state, detail) = sm.reconcile(false, "nftables table");
    assert_eq!(state, GuardState::Disabled);
    assert!(detail.is_none());

    sm.begin_enable().unwrap();
    sm.finish_enable(true);
    let (state, detail) = sm.reconcile(true, "nftables table");
    assert_eq!(state, GuardState::Enabled);
    assert!(detail.is_none());
}

#[test]
fn cannot_finish_enable_without_begin_is_harmless_but_should_not_be_called() {
    let mut sm = GuardStateMachine::new();
    sm.finish_enable(true);
    assert_eq!(sm.current(), GuardState::Enabled);
}

#[test]
fn backend_selection_prefers_cli_over_config_over_default() {
    let no_config = CoreConfig::default();
    let config_wants_subprocess =
        CoreConfig { tor_backend: Some(TorBackendKind::Subprocess), ..Default::default() };

    assert_eq!(resolve_backend_kind(None, &no_config), TorBackendKind::Arti);
    assert_eq!(resolve_backend_kind(None, &config_wants_subprocess), TorBackendKind::Subprocess);
    assert_eq!(
        resolve_backend_kind(Some(TorBackendKind::Arti), &config_wants_subprocess),
        TorBackendKind::Arti
    );
    assert_eq!(resolve_backend_kind(Some(TorBackendKind::Subprocess), &no_config), TorBackendKind::Subprocess);
}

#[test]
fn reconcile_detail_wording_is_exact() {
    let mut sm = GuardStateMachine::new();
    sm.begin_enable().unwrap();
    sm.finish_enable(true);
    let (_, detail) = sm.reconcile(false, "nftables table");
    assert_eq!(detail.unwrap(), "in-memory state says enabled but nftables table is missing");
    let fresh = GuardStateMachine::default();
    let (_, detail) = fresh.reconcile(true, "WFP sublayer");
    assert_eq!(detail.unwrap(), "in-memory state says disabled but WFP sublayer is still present");
}

#[test]
fn in_flight_disable_refuses_enable_and_disable() {
    let mut sm = GuardStateMachine::new();
    sm.begin_disable().unwrap();
    assert!(matches!(
        sm.begin_enable().unwrap_err(),
        BlackholeError::InvalidTransition { action: "enable", state: GuardState::Disabling }
    ));
    assert!(sm.begin_disable().is_err());
    assert_eq!(sm.current(), GuardState::Disabling);
}

#[test]
fn state_labels() {
    assert_eq!(GuardState::Faulted.label(), "faulted");
    assert_eq!(GuardState::Enabled.label(), "enabled");
}
