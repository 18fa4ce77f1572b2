use lumencache::protocol::decoder::{Config, Response, Scene, Value};
use lumencache::protocol::encoder::{
    ActivateSceneCommand, ClearScenesCommand, Commands, GetConfigCommand, GetScenesCommand,
    GetValueCommand, SetValueCommand,
};
use lumencache::request::{Request, Resolution, ResponseMatcher};

fn some_config(id: u8) -> Config {
    Config {
        id,
        hardware_type: 7,
        hardware_version: 3,
        firmware_version: String::from("1.0"),
        hardware_serial_number: String::from("SN"),
        mode: 6,
        dimming_curve: 1,
        pwm_frequency: 2,
        minimum_output_pwm: 30,
        maximum_output_pwm: 220,
        resume_level: 255,
        ramp_duration: 0,
        motion_sensor_enable: 1,
        mode_6_alternate_actions: 0,
        inverted_output: 0,
    }
}

fn scene(id: u8, index: u8) -> Scene {
    Scene { id, scene: index, level: 10, duration: 20 }
}

#[test]
fn test_matcher_resolves_matching_value() {
    let mut matcher = ResponseMatcher::new();
    matcher.wait_for_response_to(Request::SetValue(SetValueCommand { id: 13, value: 37 }));
    let resolved = matcher.handle_response(&Response::Value(Value { id: 13, value: 37 }));
    assert!(matches!(resolved, Some(Resolution::Value(Value { id: 13, value: 37 }))));
}

#[test]
fn test_matcher_ignores_cross_talk() {
    let mut matcher = ResponseMatcher::new();
    matcher.wait_for_response_to(Request::GetValue(GetValueCommand { id: 13 }));
    // A value report from another address must not disturb the wait...
    assert!(matcher
        .handle_response(&Response::Value(Value { id: 14, value: 1 }))
        .is_none());
    // ...and the request is still pending and resolvable afterwards.
    let resolved = matcher.handle_response(&Response::Value(Value { id: 13, value: 9 }));
    assert!(matches!(resolved, Some(Resolution::Value(Value { id: 13, value: 9 }))));
}

#[test]
fn test_matcher_without_pending_request_ignores_responses() {
    let mut matcher = ResponseMatcher::new();
    assert!(matcher
        .handle_response(&Response::Value(Value { id: 1, value: 1 }))
        .is_none());
}

#[test]
fn test_matcher_activate_scene_accepts_any_value() {
    let mut matcher = ResponseMatcher::new();
    matcher.wait_for_response_to(Request::ActivateScene(ActivateSceneCommand { id: 13 }));
    let resolved = matcher.handle_response(&Response::Value(Value { id: 99, value: 0 }));
    assert!(matches!(resolved, Some(Resolution::Acknowledged)));
}

#[test]
fn test_matcher_hail_accepts_any_config() {
    let mut matcher = ResponseMatcher::new();
    matcher.wait_for_response_to(Request::Hail);
    let resolved = matcher.handle_response(&Response::Config(some_config(77)));
    match resolved {
        Some(Resolution::Config(config)) => assert_eq!(config, some_config(77)),
        other => panic!("expected a config resolution, got {:?}", other),
    }
}

#[test]
fn test_matcher_get_config_checks_address() {
    let mut matcher = ResponseMatcher::new();
    matcher.wait_for_response_to(Request::GetConfig(GetConfigCommand { id: 5 }));
    assert!(matcher.handle_response(&Response::Config(some_config(6))).is_none());
    let resolved = matcher.handle_response(&Response::Config(some_config(5)));
    assert!(matches!(resolved, Some(Resolution::Config(_))));
}

#[test]
fn test_scene_aggregation_one_five_sixtyfour() {
    // An enumeration seeing indices 1, 5 and 64 yields exactly the entries
    // with indices 1 and 5, in arrival order; 64 is the sentinel.
    let mut matcher = ResponseMatcher::new();
    matcher.wait_for_response_to(Request::GetScenes(GetScenesCommand { id: 9 }));
    assert!(matcher.handle_response(&Response::Scene(scene(9, 1))).is_none());
    assert!(matcher.handle_response(&Response::Scene(scene(9, 5))).is_none());
    let resolved = matcher.handle_response(&Response::Scene(scene(9, 64)));
    match resolved {
        Some(Resolution::Scenes(list)) => {
            assert_eq!(list, vec![scene(9, 1), scene(9, 5)]);
        },
        other => panic!("expected the aggregated scene list, got {:?}", other),
    }
}

#[test]
fn test_scene_aggregation_restarts_on_index_one() {
    let mut matcher = ResponseMatcher::new();
    matcher.wait_for_response_to(Request::GetScenes(GetScenesCommand { id: 9 }));
    assert!(matcher.handle_response(&Response::Scene(scene(9, 1))).is_none());
    assert!(matcher.handle_response(&Response::Scene(scene(9, 2))).is_none());
    // A fresh index 1 discards what was accumulated so far.
    assert!(matcher.handle_response(&Response::Scene(scene(9, 1))).is_none());
    let resolved = matcher.handle_response(&Response::Scene(scene(9, 64)));
    match resolved {
        Some(Resolution::Scenes(list)) => assert_eq!(list, vec![scene(9, 1)]),
        other => panic!("expected the aggregated scene list, got {:?}", other),
    }
}

#[test]
fn test_clear_scenes_aggregates_like_get_scenes() {
    let mut matcher = ResponseMatcher::new();
    matcher.wait_for_response_to(Request::ClearScenes(ClearScenesCommand { id: 9 }));
    assert!(matcher.handle_response(&Response::Scene(scene(9, 1))).is_none());
    let resolved = matcher.handle_response(&Response::Scene(scene(9, 64)));
    match resolved {
        Some(Resolution::Scenes(list)) => assert_eq!(list, vec![scene(9, 1)]),
        other => panic!("expected the aggregated scene list, got {:?}", other),
    }
}

#[test]
fn test_timeout_clears_pending_request() {
    let mut matcher = ResponseMatcher::new();
    matcher.wait_for_response_to(Request::GetValue(GetValueCommand { id: 13 }));
    assert!(matcher.timeout());
    // Nothing pending any more: neither a second timeout nor a late
    // response finds a caller.
    assert!(!matcher.timeout());
    assert!(matcher
        .handle_response(&Response::Value(Value { id: 13, value: 1 }))
        .is_none());
}

#[test]
fn test_parse_and_match_scene_exchange() {
    // The full inbound path: wire bytes through the codec, each decoded
    // frame through the matcher, until the enumeration resolves.
    let mut wire = b"{9,1,10,20}{9,5,30,40}{9,64,0,0}".to_vec();
    let mut matcher = ResponseMatcher::new();
    matcher.wait_for_response_to(Request::GetScenes(GetScenesCommand { id: 9 }));
    let mut resolved = None;
    while let Some(response) = lumencache::protocol::codec::LumenCacheCodec::parse(&mut wire) {
        if let Some(resolution) = matcher.handle_response(&response) {
            resolved = Some(resolution);
        }
    }
    match resolved {
        Some(Resolution::Scenes(list)) => {
            assert_eq!(
                list,
                vec![
                    Scene { id: 9, scene: 1, level: 10, duration: 20 },
                    Scene { id: 9, scene: 5, level: 30, duration: 40 },
                ]
            );
        },
        other => panic!("expected the aggregated scene list, got {:?}", other),
    }
}

#[test]
fn test_request_command_mapping() {
    let request = Request::SetValue(SetValueCommand { id: 1, value: 2 });
    match request.command() {
        Commands::SetValue(c) => {
            assert_eq!(c.id, 1);
            assert_eq!(c.value, 2);
        },
        other => panic!("wrong command {:?}", other),
    }
    assert!(matches!(Request::Hail.command(), Commands::Hail));
}
