use hijacker2::audio::{AudioInfoError, Channels, CodecParameters, Position, SampleFormat};
use hijacker2::cli_args::Args;
use hijacker2::graph::{ObjectType, PwObject};
use hijacker2::linking::Link;
use hijacker2::metadata::DefaultMetadata;
use hijacker2::properties::{Properties, Property};
use hijacker2::session::{
    has_become_active, stream_properties, Action, Event, RunError, Session, Stage, StreamState,
};

fn object(id: u32, type_: ObjectType, entries: &[(&str, &str)]) -> PwObject {
    let entries = entries.iter().map(|(k, v)| Property::new(k, v)).collect();
    PwObject { id, type_, props: Some(Properties { entries }) }
}

fn server() -> Vec<PwObject> {
    let port = ObjectType::Port;
    vec![
        object(4, ObjectType::Metadata, &[("metadata.name", "default")]),
        object(5, ObjectType::Node, &[("node.name", "mic")]),
        object(6, ObjectType::Node, &[("node.name", "call")]),
        object(20, ObjectType::Link, &[("link.output.node", "5"), ("link.input.node", "6")]),
        object(30, port, &[("node.id", "6"), ("port.direction", "in"), ("audio.channel", "FL")]),
        object(34, port, &[("node.id", "8"), ("port.direction", "out"), ("audio.channel", "FL")]),
        object(35, port, &[("node.id", "8"), ("port.direction", "out"), ("audio.channel", "FR")]),
    ]
}

fn stereo() -> CodecParameters {
    CodecParameters {
        sample_format: Some(SampleFormat::F32),
        sample_rate: Some(48000),
        channels: Channels::from_bits(3),
    }
}

fn args(source: Option<&str>) -> Args {
    Args { file_path: "a.wav".to_string(), audio_source_name: source.map(|s| s.to_string()) }
}

fn advance(session: Session, event: Event) -> (Session, Action) {
    let (session, action) = session.step(event);
    (session, action.unwrap())
}

/// Takes a run to where the objects have been asked for.
fn collecting(source: Option<&str>) -> Session {
    let (session, _) = Session::start(args(source));
    let (session, _) = advance(session, Event::FileDecoded(stereo()));
    let (session, _) = advance(session, Event::Connected);
    let (session, _) = advance(session, Event::StreamCreated);
    let (session, action) = advance(session, Event::StreamConnected);
    assert!(matches!(action, Action::CollectObjects));
    session
}

fn failure(action: Action) -> String {
    match action {
        Action::Fail(error) => error.message(),
        _ => panic!("expected a failure"),
    }
}

#[test]
fn run_with_default_source() {
    let (session, action) = Session::start(args(None));
    assert!(matches!(action, Action::DecodeFile(path) if path == "a.wav"));
    let (session, action) = advance(session, Event::FileDecoded(stereo()));
    assert!(matches!(action, Action::Connect));
    let (session, action) = advance(session, Event::Connected);
    match action {
        Action::CreateStream(props) => assert_eq!(props.audio_channels, "2"),
        _ => panic!("expected a stream"),
    }
    let (session, action) = advance(session, Event::StreamCreated);
    match action {
        Action::ConnectStream(info) => {
            assert_eq!((info.rate, info.channels), (48000, 2));
            assert_eq!(info.position[..2], [Position::FL, Position::FR]);
        }
        _ => panic!("expected a connection"),
    }
    let (session, action) = advance(session, Event::StreamConnected);
    assert!(matches!(action, Action::CollectObjects));
    let (session, action) = advance(session, Event::ObjectsCollected(server()));
    assert!(matches!(action, Action::ReadMetadata(4)));
    let mut metadata = DefaultMetadata::default();
    metadata.default_configured_audio_source_name = Some("mic".to_string());
    let (session, action) = advance(session, Event::MetadataRead(metadata));
    assert!(matches!(action, Action::AskStreamNode));
    let (session, action) = advance(session, Event::StreamNode(8));
    match action {
        Action::CreateLinks(links) => assert_eq!(links, vec![Link::new(8, 34, 6, 30)]),
        _ => panic!("expected links"),
    }
    let (session, action) = advance(session, Event::LinksCreated);
    assert!(matches!(action, Action::Play { num_channels: 2 }));
    let (session, action) = advance(session, Event::PlaybackEnded);
    assert!(matches!(action, Action::Finish));
    let (session, action) = session.step(Event::PlaybackEnded);
    assert!(action.is_none());
    assert!(matches!(session.stage, Stage::Finished));
}

#[test]
fn named_source_needs_no_metadata() {
    let session = collecting(Some("mic"));
    let (session, action) = advance(session, Event::ObjectsCollected(server()));
    assert!(matches!(action, Action::AskStreamNode));
    match session.stage {
        Stage::AskingStreamNode { num_channels, node_ids, .. } => {
            assert_eq!((num_channels, node_ids), (2, vec![6]));
        }
        _ => panic!("unexpected stage"),
    }
}

#[test]
fn missing_channels_fail_before_the_stream() {
    let (session, _) = Session::start(args(None));
    let params = CodecParameters { channels: None, ..stereo() };
    let (session, _) = advance(session, Event::FileDecoded(params));
    let (session, action) = advance(session, Event::Connected);
    assert_eq!(failure(action), "Missing audio channel data in codec parameters");
    assert!(matches!(session.stage, Stage::Failed));
    let (_, action) = session.step(Event::StreamCreated);
    assert!(action.is_none());
}

#[test]
fn missing_rate_fails_after_the_stream() {
    let (session, _) = Session::start(args(None));
    let params = CodecParameters { sample_rate: None, ..stereo() };
    let (session, _) = advance(session, Event::FileDecoded(params));
    let (session, action) = advance(session, Event::Connected);
    assert!(matches!(action, Action::CreateStream(_)));
    let (_, action) = advance(session, Event::StreamCreated);
    assert_eq!(failure(action), "Audio sample rate not found in codec parameters");
}

#[test]
fn missing_default_metadata_fails() {
    let session = collecting(None);
    let mut objects = server();
    objects.remove(0);
    let (_, action) = advance(session, Event::ObjectsCollected(objects));
    assert_eq!(failure(action), "Could not get default metadata on pipewire server");
}

#[test]
fn missing_default_source_fails() {
    let session = collecting(None);
    let (session, _) = advance(session, Event::ObjectsCollected(server()));
    let mut metadata = DefaultMetadata::default();
    metadata.default_audio_sink_name = Some("mic".to_string());
    let (_, action) = advance(session, Event::MetadataRead(metadata));
    assert_eq!(
        failure(action),
        "Pipewire metadata object does not contain any default audio source"
    );
}

#[test]
fn unknown_source_fails() {
    let session = collecting(Some("camera"));
    let (_, action) = advance(session, Event::ObjectsCollected(server()));
    assert_eq!(failure(action), "Could not find audio source node with name `camera`");
}

#[test]
fn missing_channels_have_a_message_of_their_own() {
    assert_eq!(
        RunError::AudioInfo(AudioInfoError::MissingChannels).message(),
        "Audio channel data not found in codec parameters"
    );
}

#[test]
fn events_out_of_turn_change_nothing() {
    let (session, _) = Session::start(args(None));
    let (session, action) = session.step(Event::StreamConnected);
    assert!(action.is_none());
    assert!(matches!(session.stage, Stage::Decoding));
    let (_, action) = advance(session, Event::FileDecoded(stereo()));
    assert!(matches!(action, Action::Connect));
}

#[test]
fn stream_plays_music() {
    let props = stream_properties(26);
    assert_eq!(props.media_type, "Audio");
    assert_eq!(props.media_category, "Playback");
    assert_eq!(props.media_role, "Music");
    assert_eq!(props.audio_channels, "26");
}

#[test]
fn stream_becomes_active_from_pause() {
    let (paused, streaming) = (StreamState::Paused, StreamState::Streaming);
    assert!(has_become_active(&paused, &streaming));
    assert!(!has_become_active(&streaming, &paused));
    assert!(!has_become_active(&streaming, &streaming));
    assert!(!has_become_active(&StreamState::Connecting, &streaming));
    assert!(!has_become_active(&StreamState::Unconnected, &paused));
    assert!(!has_become_active(&paused, &StreamState::Error("gone".to_string())));
}
