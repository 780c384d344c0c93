use botw_vr::telemetry::{
    decode_frame, decode_sample, InputPoll, PollPhase, TelemetryError, TelemetrySample,
};

fn frame_with_words(words: &[u32; 24]) -> Vec<u8> {
    let mut out = Vec::new();
    for w in words.iter() {
        out.extend_from_slice(&w.to_be_bytes());
    }
    out
}

#[test]
fn decode_unit_frame() {
    // Six fields [1.0, 0, 0, 0, 0, 0] repeated over the frame.
    let mut words = [0u32; 24];
    for i in 0..4 {
        words[6 * i] = 0x3F800000;
    }
    let frame = frame_with_words(&words);
    assert_eq!(frame.len(), 96);
    let sample = decode_sample(&frame).unwrap();
    assert_eq!(sample.pos_x, 0x3F800000);
    assert_eq!(f32::from_bits(sample.pos_x), 1.0);
    assert_eq!(f32::from_bits(sample.pos_y), 0.0);
    assert_eq!(f32::from_bits(sample.pos_z), 0.0);
    assert_eq!(f32::from_bits(sample.rot_x), 0.0);
    assert_eq!(f32::from_bits(sample.rot_y), 0.0);
    assert_eq!(f32::from_bits(sample.rot_z), 0.0);
}

#[test]
fn short_datagram_is_rejected_whole() {
    let frame = vec![0u8; 95];
    assert_eq!(decode_sample(&frame).unwrap_err(), TelemetryError::BadFrameLength);
    assert_eq!(decode_frame(&frame).unwrap_err(), TelemetryError::BadFrameLength);
}

#[test]
fn long_datagram_is_rejected_whole() {
    let frame = vec![0u8; 97];
    assert_eq!(decode_frame(&frame).unwrap_err(), TelemetryError::BadFrameLength);
}

#[test]
fn decode_frame_reads_big_endian_words() {
    let mut words = [0u32; 24];
    words[0] = 0x01020304;
    words[3] = 0xAABBCCDD;
    words[23] = 0x00000001;
    let frame = frame_with_words(&words);
    let decoded = decode_frame(&frame).unwrap();
    assert_eq!(decoded.len(), 24);
    assert_eq!(decoded[0], 0x01020304);
    assert_eq!(decoded[3], 0xAABBCCDD);
    assert_eq!(decoded[23], 1);
    // The wire really is big-endian: the first byte is the high byte.
    assert_eq!(frame[0], 0x01);
    assert_eq!(frame[3], 0x04);
}

#[test]
fn latest_sample_overwrites_earlier_one() {
    let mut poll = InputPoll::new();
    poll.start_polling();
    let mut words_a = [0u32; 24];
    words_a[3] = 0x3F800000;
    let mut words_b = [0u32; 24];
    words_b[3] = 0x40000000;
    poll.publish_frame(&frame_with_words(&words_a)).unwrap();
    poll.publish_frame(&frame_with_words(&words_b)).unwrap();
    let mut out = TelemetrySample::zeroed();
    // Exactly one read sees the later sample; the earlier one is never
    // observable.
    assert!(poll.get_input(&mut out));
    assert_eq!(out.rot_x, 0x40000000);
    let snapshot = out;
    assert!(!poll.get_input(&mut out));
    assert_eq!(out, snapshot);
}

#[test]
fn get_input_leaves_out_unchanged_when_nothing_arrived() {
    let mut poll = InputPoll::new();
    poll.start_polling();
    let mut out = TelemetrySample::zeroed();
    out.pos_x = 0x12345678;
    assert!(!poll.get_input(&mut out));
    assert_eq!(out.pos_x, 0x12345678);
}

#[test]
fn malformed_frame_changes_nothing() {
    let mut poll = InputPoll::new();
    poll.start_polling();
    let mut words = [0u32; 24];
    words[4] = 7;
    poll.publish_frame(&frame_with_words(&words)).unwrap();
    let err = poll.publish_frame(&vec![0u8; 42]).unwrap_err();
    assert_eq!(err, TelemetryError::BadFrameLength);
    let mut out = TelemetrySample::zeroed();
    assert!(poll.get_input(&mut out));
    assert_eq!(out.rot_y, 7);
}

#[test]
fn stop_keeps_last_sample_readable() {
    let mut poll = InputPoll::new();
    poll.start_polling();
    let mut words = [0u32; 24];
    words[5] = 0x41200000;
    poll.publish_frame(&frame_with_words(&words)).unwrap();
    poll.stop_polling().unwrap();
    assert_eq!(poll.phase, PollPhase::Stopped);
    let mut out = TelemetrySample::zeroed();
    assert!(poll.get_input(&mut out));
    assert_eq!(out.rot_z, 0x41200000);
    // And from then on the consumer keeps its copy, unchanged.
    assert!(!poll.get_input(&mut out));
    assert_eq!(out.rot_z, 0x41200000);
}

#[test]
fn stop_before_start_is_an_error() {
    let mut poll = InputPoll::new();
    assert_eq!(poll.stop_polling().unwrap_err(), TelemetryError::NotStarted);
    assert_eq!(poll.phase, PollPhase::Idle);
}

#[test]
fn second_stop_is_accepted() {
    let mut poll = InputPoll::new();
    poll.start_polling();
    poll.stop_polling().unwrap();
    poll.stop_polling().unwrap();
    assert_eq!(poll.phase, PollPhase::Stopped);
}
