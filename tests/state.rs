use airbag::payload::parse_config;
use airbag::policy::setConfig;
use airbag::state::{registration_outcome, AirbagError, AirbagState, HandlerAction};

fn config_of(signals: &[(i32, &str)]) -> airbag::policy::NativeAirBagConfig {
    setConfig(
        signals
            .iter()
            .map(|(s, m)| (*s, vec![(m.to_string(), Vec::new())]))
            .collect(),
    )
}

#[test]
fn nothing_registered_falls_to_default() {
    let state: AirbagState<&str> = AirbagState::new();
    assert_eq!(state.handler_action(11, "  #0 at libfoo.so: 0x0  f\n"), HandlerAction::RestoreDefault);
    assert!(state.signals_to_install().is_empty());
}

#[test]
fn reregistration_keeps_first_original() {
    let mut state: AirbagState<&str> = AirbagState::new();
    let restore = state.configure(config_of(&[(11, "libfoo.so"), (6, "libbar.so")]));
    assert!(restore.is_empty());
    assert_eq!(state.signals_to_install(), vec![11, 6]);
    assert!(state.record_original(11, "default-11"));
    assert!(state.record_original(6, "app-6"));

    // Second registration: keeps 11, drops 6, adds 4.
    let restore = state.configure(config_of(&[(11, "libbaz.so"), (4, "libfoo.so")]));
    assert_eq!(restore, vec![(6, "app-6")]);
    assert!(!state.record_original(11, "ours"));
    assert!(state.record_original(4, "default-4"));
    assert_eq!(state.original_count(), 2);

    let trace = "  #0 at /lib/libfoo.so: 0x0  f\n";
    match state.handler_action(11, trace) {
        HandlerAction::RestoreOriginal(i) => {
            assert_eq!(state.original_signal(i), 11);
            assert_eq!(*state.original_handler(i), "default-11");
        }
        other => panic!("unexpected {:?}", other),
    }
    assert_eq!(state.handler_action(4, trace), HandlerAction::Suppress);
    assert_eq!(state.handler_action(6, trace), HandlerAction::RestoreDefault);

    let all = state.teardown();
    assert_eq!(all, vec![(11, "default-11"), (4, "default-4")]);
    assert_eq!(state.original_count(), 0);
    assert_eq!(state.handler_action(4, trace), HandlerAction::RestoreDefault);
}

#[test]
fn registration_errors() {
    assert!(matches!(registration_outcome(false, &vec![(11, true)]), Err(AirbagError::ResourceExhausted)));
    assert!(registration_outcome(true, &vec![(11, true), (6, true)]).is_ok());
    assert!(registration_outcome(true, &vec![]).is_ok());
    match registration_outcome(true, &vec![(11, true), (9, false), (6, false)]) {
        Err(AirbagError::InstallationFailed(v)) => assert_eq!(v, vec![9, 6]),
        other => panic!("unexpected {:?}", other),
    }
}

#[test]
fn payload_is_read() {
    let config = parse_config(r#"{ "11": { "libfoo.so": ["KnownBenignAssert"], "libbar.so": [] }, "6": { "": [] } }"#)
        .unwrap();
    assert_eq!(config.signals(), vec![6, 11]);
    let mut state: AirbagState<u8> = AirbagState::new();
    state.configure(config);
    assert_eq!(state.handler_action(11, "  #0 at /x/libbar.so: 0x0  f\n"), HandlerAction::Suppress);
    assert_eq!(state.handler_action(11, "  #0 at /x/libfoo.so: 0x0  f\n"), HandlerAction::RestoreDefault);
    assert_eq!(
        state.handler_action(11, "  #0 at /x/libfoo.so: 0x0  KnownBenignAssert\n"),
        HandlerAction::Suppress
    );
    assert_eq!(state.handler_action(6, "anything"), HandlerAction::RestoreDefault);
}

#[test]
fn malformed_payload_is_reported() {
    assert!(matches!(parse_config("not json"), Err(AirbagError::ConfigurationMalformed)));
    assert!(matches!(parse_config(r#"{ "eleven": {} }"#), Err(AirbagError::ConfigurationMalformed)));
    assert!(matches!(parse_config(r#"{ "11": { "a": "b" } }"#), Err(AirbagError::ConfigurationMalformed)));
    assert!(parse_config("{}").unwrap().signals().is_empty());
}
