use hijacker2::metadata::{
    record_default_name, select_audio_source_name, update_from_name, update_from_property,
    DefaultMetadata, PropertyUpdate,
};

fn names(m: &DefaultMetadata) -> [Option<&str>; 4] {
    [
        m.default_audio_source_name.as_deref(),
        m.default_configured_audio_source_name.as_deref(),
        m.default_audio_sink_name.as_deref(),
        m.default_configured_audio_sink_name.as_deref(),
    ]
}

#[test]
fn nothing_is_known_at_first() {
    let metadata = DefaultMetadata::default();
    assert_eq!(names(&metadata), [None, None, None, None]);
    assert_eq!(select_audio_source_name(&metadata), None);
}

#[test]
fn default_source_comes_before_configured_source() {
    let mut metadata = DefaultMetadata::default();
    record_default_name(&mut metadata, "default.configured.audio.source", "b".to_string());
    assert_eq!(select_audio_source_name(&metadata).unwrap(), "b");
    record_default_name(&mut metadata, "default.audio.source", "a".to_string());
    assert_eq!(select_audio_source_name(&metadata).unwrap(), "a");
    record_default_name(&mut metadata, "default.configured.audio.source", "c".to_string());
    assert_eq!(select_audio_source_name(&metadata).unwrap(), "a");
}

#[test]
fn sinks_are_no_sources() {
    let mut metadata = DefaultMetadata::default();
    record_default_name(&mut metadata, "default.audio.sink", "c".to_string());
    record_default_name(&mut metadata, "default.configured.audio.sink", "d".to_string());
    assert_eq!(names(&metadata), [None, None, Some("c"), Some("d")]);
    assert_eq!(select_audio_source_name(&metadata), None);
}

#[test]
fn keys_can_come_in_any_order() {
    let keys = [
        ("default.audio.source", "a"),
        ("default.configured.audio.source", "b"),
        ("default.audio.sink", "c"),
        ("default.configured.audio.sink", "d"),
    ];
    let mut forth = DefaultMetadata::default();
    let mut back = DefaultMetadata::default();
    for (key, name) in keys {
        record_default_name(&mut forth, key, name.to_string());
    }
    for (key, name) in keys.iter().rev() {
        record_default_name(&mut back, key, name.to_string());
    }
    assert_eq!(names(&forth), [Some("a"), Some("b"), Some("c"), Some("d")]);
    assert_eq!(names(&back), names(&forth));
}

#[test]
fn names_are_taken_by_what_they_are() {
    let mut metadata = DefaultMetadata::default();
    let key = "default.audio.source";
    assert_eq!(update_from_name(&mut metadata, key, None), PropertyUpdate::NameMissing);
    assert_eq!(update_from_name(&mut metadata, key, Some(None)), PropertyUpdate::NameNotText);
    assert_eq!(names(&metadata), [None, None, None, None]);
    assert_eq!(update_from_name(&mut metadata, key, Some(Some("a"))), PropertyUpdate::Taken);
    assert_eq!(names(&metadata), [Some("a"), None, None, None]);
}

#[test]
fn names_are_read_from_json() {
    let mut metadata = DefaultMetadata::default();
    let update = update_from_property(
        &mut metadata,
        Some("default.audio.source"),
        Some(r#"{"volume": 3, "name": "alsa_input"}"#),
    );
    assert_eq!(update, PropertyUpdate::Taken);
    assert_eq!(names(&metadata), [Some("alsa_input"), None, None, None]);
}

#[test]
fn other_keys_are_passed_over() {
    let mut metadata = DefaultMetadata::default();
    let update = update_from_property(&mut metadata, Some("other"), Some(r#"{"name":"x"}"#));
    assert_eq!(update, PropertyUpdate::Taken);
    assert_eq!(names(&metadata), [None, None, None, None]);
}

#[test]
fn values_without_a_name_are_passed_over() {
    let key = Some("default.audio.source");
    for (value, expected) in [
        (r#"{"Name": "x"}"#, PropertyUpdate::NameMissing),
        ("{}", PropertyUpdate::NameMissing),
        ("[\"name\"]", PropertyUpdate::NameMissing),
        ("\"name\"", PropertyUpdate::NameMissing),
        ("7", PropertyUpdate::NameMissing),
        (r#"{"name": 7}"#, PropertyUpdate::NameNotText),
        (r#"{"name": null}"#, PropertyUpdate::NameNotText),
        (r#"{"name": {"name": "x"}}"#, PropertyUpdate::NameNotText),
        ("", PropertyUpdate::Malformed),
        ("{name: x}", PropertyUpdate::Malformed),
        (r#"{"name": "x"} y"#, PropertyUpdate::Malformed),
    ] {
        let mut metadata = DefaultMetadata::default();
        assert_eq!(update_from_property(&mut metadata, key, Some(value)), expected, "{value}");
        assert_eq!(names(&metadata), [None, None, None, None]);
    }
}

#[test]
fn incomplete_properties_are_passed_over() {
    let mut metadata = DefaultMetadata::default();
    let value = Some(r#"{"name":"x"}"#);
    for (key, value) in [(None, value), (Some("default.audio.source"), None), (None, None)] {
        assert_eq!(update_from_property(&mut metadata, key, value), PropertyUpdate::Incomplete);
    }
    assert_eq!(names(&metadata), [None, None, None, None]);
}
