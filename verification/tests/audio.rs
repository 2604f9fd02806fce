use hijacker2::audio::{
    audio_info_from_codec_parameters, channel_count, channel_position, AudioFormat, AudioInfoError,
    Channels, CodecParameters, Position, SampleFormat,
};

fn params(mask: Option<u32>) -> CodecParameters {
    CodecParameters {
        sample_format: Some(SampleFormat::S16),
        sample_rate: Some(44100),
        channels: mask.map(|m| Channels::from_bits(m).unwrap()),
    }
}

#[test]
fn only_known_channels_make_a_set() {
    assert_eq!(Channels::from_bits(0x3ff_ffff).unwrap().bits(), 0x3ff_ffff);
    assert_eq!(Channels::from_bits(0).unwrap().bits(), 0);
    assert!(Channels::from_bits(0x400_0000).is_none());
    assert!(Channels::from_bits(0x8000_0001).is_none());
}

#[test]
fn channels_are_counted() {
    assert_eq!(channel_count(&params(None)), None);
    assert_eq!(channel_count(&params(Some(0))), Some(0));
    assert_eq!(channel_count(&params(Some(0x3))), Some(2));
    assert_eq!(channel_count(&params(Some(0x200_0001))), Some(2));
    assert_eq!(channel_count(&params(Some(0x3ff_ffff))), Some(26));
}

#[test]
fn stereo_is_described() {
    let info = audio_info_from_codec_parameters(&params(Some(0x3))).unwrap();
    assert_eq!(info.format, AudioFormat::S16);
    assert_eq!(info.rate, 44100);
    assert_eq!(info.channels, 2);
    assert_eq!(info.position[0], Position::FL);
    assert_eq!(info.position[1], Position::FR);
    assert!(info.position[2..].iter().all(|p| *p == Position::Unknown));
}

#[test]
fn positions_skip_missing_channels() {
    let info = audio_info_from_codec_parameters(&params(Some(0x200_0204))).unwrap();
    assert_eq!(info.channels, 3);
    assert_eq!(info.position[..4], [Position::FC, Position::SL, Position::LFE2, Position::Unknown]);
}

#[test]
fn every_channel_has_its_position() {
    let info = audio_info_from_codec_parameters(&params(Some(0x3ff_ffff))).unwrap();
    let expected = [
        Position::FL,
        Position::FR,
        Position::FC,
        Position::LFE,
        Position::RL,
        Position::RR,
        Position::FLC,
        Position::FRC,
        Position::RC,
        Position::SL,
        Position::SR,
        Position::TC,
        Position::TFL,
        Position::TFC,
        Position::TFR,
        Position::TRL,
        Position::TRC,
        Position::TRR,
        Position::RLC,
        Position::RRC,
        Position::FLW,
        Position::FRW,
        Position::FLH,
        Position::FCH,
        Position::FRH,
        Position::LFE2,
    ];
    assert_eq!(info.channels, 26);
    assert_eq!(info.position[..26], expected);
    assert!(info.position[26..].iter().all(|p| *p == Position::Unknown));
    for i in 0..26 {
        for j in 0..i {
            assert_ne!(info.position[i], info.position[j]);
        }
    }
}

#[test]
fn masks_agree_with_the_codec_library() {
    let pairs = [
        (symphonia::core::audio::Channels::FRONT_LEFT, Position::FL),
        (symphonia::core::audio::Channels::FRONT_RIGHT, Position::FR),
        (symphonia::core::audio::Channels::FRONT_CENTRE, Position::FC),
        (symphonia::core::audio::Channels::LFE1, Position::LFE),
        (symphonia::core::audio::Channels::REAR_LEFT, Position::RL),
        (symphonia::core::audio::Channels::REAR_RIGHT, Position::RR),
        (symphonia::core::audio::Channels::FRONT_LEFT_CENTRE, Position::FLC),
        (symphonia::core::audio::Channels::FRONT_RIGHT_CENTRE, Position::FRC),
        (symphonia::core::audio::Channels::REAR_CENTRE, Position::RC),
        (symphonia::core::audio::Channels::SIDE_LEFT, Position::SL),
        (symphonia::core::audio::Channels::SIDE_RIGHT, Position::SR),
        (symphonia::core::audio::Channels::TOP_CENTRE, Position::TC),
        (symphonia::core::audio::Channels::TOP_FRONT_LEFT, Position::TFL),
        (symphonia::core::audio::Channels::TOP_FRONT_CENTRE, Position::TFC),
        (symphonia::core::audio::Channels::TOP_FRONT_RIGHT, Position::TFR),
        (symphonia::core::audio::Channels::TOP_REAR_LEFT, Position::TRL),
        (symphonia::core::audio::Channels::TOP_REAR_CENTRE, Position::TRC),
        (symphonia::core::audio::Channels::TOP_REAR_RIGHT, Position::TRR),
        (symphonia::core::audio::Channels::REAR_LEFT_CENTRE, Position::RLC),
        (symphonia::core::audio::Channels::REAR_RIGHT_CENTRE, Position::RRC),
        (symphonia::core::audio::Channels::FRONT_LEFT_WIDE, Position::FLW),
        (symphonia::core::audio::Channels::FRONT_RIGHT_WIDE, Position::FRW),
        (symphonia::core::audio::Channels::FRONT_LEFT_HIGH, Position::FLH),
        (symphonia::core::audio::Channels::FRONT_CENTRE_HIGH, Position::FCH),
        (symphonia::core::audio::Channels::FRONT_RIGHT_HIGH, Position::FRH),
        (symphonia::core::audio::Channels::LFE2, Position::LFE2),
    ];
    for (channel, position) in pairs {
        assert_eq!(channel_position(channel.bits()), position);
    }
    assert_eq!(symphonia::core::audio::Channels::all().bits(), 0x3ff_ffff);
}

#[test]
fn no_single_channel_has_no_position() {
    assert_eq!(channel_position(0), Position::Unknown);
    assert_eq!(channel_position(3), Position::Unknown);
    assert_eq!(channel_position(0x400_0000), Position::Unknown);
}

#[test]
fn formats_are_named() {
    let cases = [
        (Some(SampleFormat::U8), AudioFormat::U8),
        (Some(SampleFormat::U16), AudioFormat::U16),
        (Some(SampleFormat::U24), AudioFormat::U24),
        (Some(SampleFormat::U32), AudioFormat::U32),
        (Some(SampleFormat::S8), AudioFormat::S8),
        (Some(SampleFormat::S16), AudioFormat::S16),
        (Some(SampleFormat::S24), AudioFormat::S24),
        (Some(SampleFormat::S32), AudioFormat::S32),
        (Some(SampleFormat::F32), AudioFormat::F32LE),
        (Some(SampleFormat::F64), AudioFormat::F64LE),
        (None, AudioFormat::F32LE),
    ];
    for (sample_format, format) in cases {
        let params = CodecParameters { sample_format, ..params(Some(1)) };
        assert_eq!(audio_info_from_codec_parameters(&params).unwrap().format, format);
    }
}

#[test]
fn missing_rate_is_reported_before_missing_channels() {
    let no_rate = CodecParameters { sample_rate: None, ..params(Some(3)) };
    assert_eq!(audio_info_from_codec_parameters(&no_rate), Err(AudioInfoError::MissingSampleRate));
    assert_eq!(
        audio_info_from_codec_parameters(&params(None)),
        Err(AudioInfoError::MissingChannels)
    );
    let nothing = CodecParameters { sample_format: None, sample_rate: None, channels: None };
    assert_eq!(audio_info_from_codec_parameters(&nothing), Err(AudioInfoError::MissingSampleRate));
}
