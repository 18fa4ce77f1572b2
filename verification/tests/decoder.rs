use lumencache::protocol::codec::LumenCacheCodec;
use lumencache::protocol::decoder::{Config, ParseError, Response, Scene, SerialNumber, Value};

#[test]
fn test_no_begin() {
    let mut buf = b"foo".to_vec();
    assert_eq!(LumenCacheCodec::parse(&mut buf), None);
    assert_eq!(buf, b"foo".to_vec());
}

#[test]
fn test_no_end() {
    let mut buf = b"(foo".to_vec();
    assert_eq!(LumenCacheCodec::parse(&mut buf), None);
    assert_eq!(buf, b"(foo".to_vec());
}

#[test]
fn test_chars_before_begin() {
    let mut buf = b"bar(13,37)baz".to_vec();
    assert_eq!(
        LumenCacheCodec::parse(&mut buf),
        Some(Response::Value(Value { id: 13, value: 37 }))
    );
    assert_eq!(buf, b"baz".to_vec());
}

#[test]
fn test_multiple_delimiters() {
    let mut buf = b"(13,,37)".to_vec();
    assert_eq!(LumenCacheCodec::parse(&mut buf), None);
    assert_eq!(buf, b"".to_vec());
}

#[test]
fn test_spaces() {
    let mut buf = b" ( 13 , 37 ) ".to_vec();
    assert_eq!(
        LumenCacheCodec::parse(&mut buf),
        Some(Response::Value(Value { id: 13, value: 37 }))
    );
    assert_eq!(buf, b" ".to_vec());
}

#[test]
fn test_exact_match() {
    let mut buf = b"(13,37)".to_vec();
    assert_eq!(
        LumenCacheCodec::parse(&mut buf),
        Some(Response::Value(Value { id: 13, value: 37 }))
    );
    assert_eq!(buf, b"".to_vec());
}

#[test]
fn test_multiple() {
    let mut buf = b"(13,37)(42,24)".to_vec();
    assert_eq!(
        LumenCacheCodec::parse(&mut buf),
        Some(Response::Value(Value { id: 13, value: 37 }))
    );
    assert_eq!(buf, b"(42,24)".to_vec());
}

#[test]
fn test_config() {
    let mut buf = b"{1,7,3,123456.12,0123456789ABCDEF0123,6,1,2,30,220,255,0,1,0,0}".to_vec();
    assert_eq!(
        LumenCacheCodec::parse(&mut buf),
        Some(Response::Config(Config {
            id: 1,
            hardware_type: 7,
            hardware_version: 3,
            firmware_version: String::from("123456.12"),
            hardware_serial_number: String::from("0123456789ABCDEF0123"),
            mode: 6,
            dimming_curve: 1,
            pwm_frequency: 2,
            minimum_output_pwm: 30,
            maximum_output_pwm: 220,
            resume_level: 255,
            ramp_duration: 0,
            motion_sensor_enable: 1,
            mode_6_alternate_actions: 0,
            inverted_output: 0
        }))
    );
    assert_eq!(buf, b"".to_vec());
}

#[test]
fn test_empty_buffer() {
    let mut buf: Vec<u8> = Vec::new();
    assert_eq!(LumenCacheCodec::parse(&mut buf), None);
    assert_eq!(buf, Vec::<u8>::new());
}

#[test]
fn test_serial_number_frame() {
    let mut buf = b"{9,SN-42}".to_vec();
    assert_eq!(
        LumenCacheCodec::parse(&mut buf),
        Some(Response::SerialNumber(SerialNumber {
            id: 9,
            serial_number: String::from("SN-42"),
        }))
    );
    assert_eq!(buf, b"".to_vec());
}

#[test]
fn test_serial_number_keeps_non_ascii_text() {
    let mut buf = "{9,ä}".as_bytes().to_vec();
    assert_eq!(
        LumenCacheCodec::parse(&mut buf),
        Some(Response::SerialNumber(SerialNumber {
            id: 9,
            serial_number: String::from("ä"),
        }))
    );
    assert_eq!(buf, b"".to_vec());
}

#[test]
fn test_scene_frame() {
    let mut buf = b"{9,5,120,-1}".to_vec();
    assert_eq!(
        LumenCacheCodec::parse(&mut buf),
        Some(Response::Scene(Scene { id: 9, scene: 5, level: 120, duration: -1 }))
    );
    assert_eq!(buf, b"".to_vec());
}

#[test]
fn test_structured_wrong_arity_is_dropped() {
    let mut buf = b"{1,2,3}".to_vec();
    assert_eq!(LumenCacheCodec::parse(&mut buf), None);
    assert_eq!(buf, b"".to_vec());
}

#[test]
fn test_value_out_of_range_is_dropped() {
    let mut buf = b"(13,256)".to_vec();
    assert_eq!(LumenCacheCodec::parse(&mut buf), None);
    assert_eq!(buf, b"".to_vec());
}

#[test]
fn test_closer_before_opener_is_skipped() {
    let mut buf = b")x(13,37)".to_vec();
    assert_eq!(
        LumenCacheCodec::parse(&mut buf),
        Some(Response::Value(Value { id: 13, value: 37 }))
    );
    assert_eq!(buf, b"".to_vec());
}

#[test]
fn test_parse_value_wrong_field_count() {
    assert_eq!(
        LumenCacheCodec::parse_value("13"),
        Err(ParseError::WrongFieldCount { expected: 2, found: 1 })
    );
    assert_eq!(
        LumenCacheCodec::parse_value("1,2,3"),
        Err(ParseError::WrongFieldCount { expected: 2, found: 3 })
    );
}

#[test]
fn test_parse_value_bad_field() {
    assert_eq!(LumenCacheCodec::parse_value("x,1"), Err(ParseError::BadField));
    assert_eq!(LumenCacheCodec::parse_value("1,"), Err(ParseError::BadField));
}

#[test]
fn test_parse_serial_wrong_field_count() {
    assert_eq!(
        LumenCacheCodec::parse_serial(vec![String::from("1")]),
        Err(ParseError::WrongFieldCount { expected: 2, found: 1 })
    );
}

#[test]
fn test_parse_scene_signed_fields() {
    let parts = vec![
        String::from("9"),
        String::from("64"),
        String::from("-1"),
        String::from("-1"),
    ];
    assert_eq!(
        LumenCacheCodec::parse_scene(parts),
        Ok(Response::Scene(Scene { id: 9, scene: 64, level: -1, duration: -1 }))
    );
}

#[test]
fn test_parse_config_bad_field() {
    let mut parts: Vec<String> = Vec::new();
    for _ in 0..15 {
        parts.push(String::from("1"));
    }
    parts[5] = String::from("abc");
    assert_eq!(LumenCacheCodec::parse_config(parts), Err(ParseError::BadField));
}
