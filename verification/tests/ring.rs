use hijacker2::ring::{
    chunk_layout, fill_buffer, next_sample_index, pad_with_silence, process_buffer,
    process_samples, push_available_samples, sample_ring, Chunk, Feed, Played,
};

#[test]
fn sending_stops_at_the_end_or_when_full() {
    assert_eq!(next_sample_index(0, 10, 4), 4);
    assert_eq!(next_sample_index(1, 2, 4), 3);
    assert_eq!(next_sample_index(1, 3, 4), 4);
    assert_eq!(next_sample_index(4, 0, 4), 4);
    assert_eq!(next_sample_index(2, 0, 4), 2);
    assert_eq!(next_sample_index(3, usize::MAX, 4), 4);
}

#[test]
fn samples_come_out_in_order() {
    let (mut producer, mut consumer) = sample_ring(1);
    assert_eq!(push_available_samples(&mut producer, &[1, 2, 3], 0), Feed::Done);
    assert_eq!(push_available_samples(&mut producer, &[9, 4, 5], 1), Feed::Done);
    let mut buffer = [7; 2];
    assert!(!fill_buffer(&mut consumer, &mut buffer));
    assert_eq!(buffer, [1, 2]);
    let mut buffer = [7; 5];
    assert!(!fill_buffer(&mut consumer, &mut buffer));
    assert_eq!(buffer, [3, 4, 5, 0, 0]);
}

#[test]
fn silence_ends_playback() {
    let (mut producer, mut consumer) = sample_ring(1);
    let mut buffer = [7; 3];
    assert!(fill_buffer(&mut consumer, &mut buffer));
    assert_eq!(buffer, [0; 3]);
    assert_eq!(push_available_samples(&mut producer, &[0], 0), Feed::Done);
    assert!(!fill_buffer(&mut consumer, &mut buffer));
    assert!(fill_buffer(&mut consumer, &mut []));
}

#[test]
fn full_ring_makes_sending_wait() {
    let (mut producer, mut consumer) = sample_ring(1);
    let samples: Vec<u32> = (0..40000).collect();
    assert_eq!(
        push_available_samples(&mut producer, &samples, 0),
        Feed::Wait { next: 32768 }
    );
    assert_eq!(
        push_available_samples(&mut producer, &samples, 32768),
        Feed::Wait { next: 32768 }
    );
    let mut out = Vec::new();
    let mut buffer = vec![0; 1000];
    assert!(!fill_buffer(&mut consumer, &mut buffer));
    out.extend_from_slice(&buffer);
    assert_eq!(
        push_available_samples(&mut producer, &samples, 32768),
        Feed::Wait { next: 33768 }
    );
    let mut buffer = vec![0; 32768];
    assert!(!fill_buffer(&mut consumer, &mut buffer));
    out.extend_from_slice(&buffer);
    assert_eq!(push_available_samples(&mut producer, &samples, 33768), Feed::Done);
    let mut buffer = vec![1; 40000 - 33768];
    assert!(!fill_buffer(&mut consumer, &mut buffer));
    out.extend_from_slice(&buffer);
    assert_eq!(out, samples);
}

#[test]
fn each_channel_adds_room() {
    let (mut producer, _consumer) = sample_ring(2);
    let samples = vec![1; 65536];
    assert_eq!(push_available_samples(&mut producer, &samples, 0), Feed::Done);
    assert_eq!(push_available_samples(&mut producer, &[1], 0), Feed::Wait { next: 0 });
    assert_eq!(push_available_samples(&mut producer, &[], 0), Feed::Done);
}

#[test]
fn packet_is_sent_whole_in_rounds() {
    let (mut producer, mut consumer) = sample_ring(1);
    let samples: Vec<u32> = (1..=100000).collect();
    let mut out: Vec<u32> = Vec::new();
    let mut next = 0;
    let mut rounds = 0;
    while let Feed::Wait { next: later } = push_available_samples(&mut producer, &samples, next) {
        next = later;
        rounds += 1;
        let mut buffer = [0; 30000];
        fill_buffer(&mut consumer, &mut buffer);
        out.extend_from_slice(&buffer);
    }
    assert_eq!(rounds, 3);
    let mut buffer = [0; 10000];
    assert!(!fill_buffer(&mut consumer, &mut buffer));
    out.extend_from_slice(&buffer);
    assert_eq!(out, samples);
    assert!(fill_buffer(&mut consumer, &mut buffer));
}

#[test]
fn chunk_covers_the_buffer() {
    assert_eq!(chunk_layout(4096, 2), Chunk { offset: 0, stride: 8, size: 4096 });
    assert_eq!(chunk_layout(0, 1), Chunk { offset: 0, stride: 4, size: 0 });
    assert_eq!(chunk_layout(0, 0x2000_0000).stride, i32::MIN);
}

#[test]
fn buffer_is_padded_with_silence() {
    let mut buffer = [5, 6, 7];
    assert!(!pad_with_silence(&mut buffer, 3));
    assert_eq!(buffer, [5, 6, 7]);
    assert!(!pad_with_silence(&mut buffer, 1));
    assert_eq!(buffer, [5, 0, 0]);
    assert!(pad_with_silence(&mut buffer, 0));
    assert_eq!(buffer, [0, 0, 0]);
    assert!(pad_with_silence(&mut [], 0));
}

#[test]
fn bytes_of_samples_are_written() {
    let (mut producer, mut consumer) = sample_ring(2);
    let samples = [1.0f32.to_bits(), (-0.5f32).to_bits()];
    assert_eq!(push_available_samples(&mut producer, &samples, 0), Feed::Done);
    let mut memory = [9u32; 3];
    let bytes: &mut [u8] = bytemuck::cast_slice_mut(&mut memory);
    let chunk = Chunk { offset: 0, stride: 8, size: 12 };
    assert_eq!(
        process_buffer(&mut consumer, bytes, 2),
        Some(Played { finished: false, chunk })
    );
    assert_eq!(bytes[0..4], 1.0f32.to_ne_bytes());
    assert_eq!(bytes[4..8], (-0.5f32).to_ne_bytes());
    assert_eq!(bytes[8..12], [0; 4]);
    assert_eq!(
        process_buffer(&mut consumer, bytes, 2),
        Some(Played { finished: true, chunk })
    );
    assert_eq!(memory, [0; 3]);
}

#[test]
fn buffers_that_cannot_hold_samples_are_left_alone() {
    let (mut producer, mut consumer) = sample_ring(1);
    assert_eq!(push_available_samples(&mut producer, &[3], 0), Feed::Done);
    let mut memory = [0x0909_0909u32; 3];
    let bytes: &mut [u8] = bytemuck::cast_slice_mut(&mut memory);
    assert_eq!(process_buffer(&mut consumer, &mut bytes[0..6], 1), None);
    assert_eq!(process_buffer(&mut consumer, &mut bytes[1..9], 1), None);
    assert_eq!(memory, [0x0909_0909; 3]);
    let mut buffer = [7];
    assert!(!fill_buffer(&mut consumer, &mut buffer));
    assert_eq!(buffer, [3]);
}

#[test]
fn playing_fails_only_without_samples() {
    let (mut producer, mut consumer) = sample_ring(1);
    assert_eq!(push_available_samples(&mut producer, &[3, 4], 0), Feed::Done);
    assert_eq!(process_samples(&mut consumer, None, 12, 2), None);
    let chunk = Chunk { offset: 0, stride: 8, size: 12 };
    let mut buffer = [7; 3];
    assert_eq!(
        process_samples(&mut consumer, Some(&mut buffer), 12, 2),
        Some(Played { finished: false, chunk })
    );
    assert_eq!(buffer, [3, 4, 0]);
    assert_eq!(
        process_samples(&mut consumer, Some(&mut buffer), 12, 2),
        Some(Played { finished: true, chunk })
    );
    assert_eq!(buffer, [0, 0, 0]);
}

#[test]
fn waiting_samples_are_played() {
    let (mut producer, mut consumer) = sample_ring(1);
    assert_eq!(push_available_samples(&mut producer, &[1, 2, 3, 4, 5], 0), Feed::Done);
    let mut buffer = [9; 2];
    assert!(!fill_buffer(&mut consumer, &mut buffer));
    assert_eq!(buffer, [1, 2]);
    assert!(fill_buffer(&mut consumer, &mut []));
    assert!(!fill_buffer(&mut consumer, &mut buffer));
    assert_eq!(buffer, [3, 4]);
    assert!(!fill_buffer(&mut consumer, &mut buffer));
    assert_eq!(buffer, [5, 0]);
    assert!(fill_buffer(&mut consumer, &mut buffer));
    assert_eq!(buffer, [0, 0]);
}
