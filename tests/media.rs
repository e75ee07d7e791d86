use softphone::capture::{device_frame_samples, frame_source, ring_capacity, CaptureClock, FrameSource};
use softphone::codec::CodecType;
use softphone::controls::AudioControls;
use softphone::dtmf::{build_dtmf_payload, dtmf_packets, DtmfClock, DtmfError};

#[test]
fn dtmf_payload_layout() {
    assert_eq!(build_dtmf_payload(5, 1, 10, 1280), vec![5, 0x8A, 0x05, 0x00]);
    assert_eq!(build_dtmf_payload(11, 0, 10, 160), vec![11, 0x0A, 0x00, 0xA0]);
}

#[test]
fn dtmf_five_then_hash() {
    let mut clock = DtmfClock::new();
    clock.next = 4000;
    let five = clock.plan('5', 101).unwrap();
    assert_eq!(five.len(), 8);
    for (k, p) in five.iter().enumerate() {
        assert_eq!(p.timestamp, 4000);
        assert_eq!(p.payload_type, 101);
        assert_eq!(p.payload[0], 5);
        let duration = ((p.payload[2] as u16) << 8) | p.payload[3] as u16;
        assert_eq!(duration, 160 * (k as u16 + 1));
        assert_eq!(p.payload[1] & 0x80 != 0, k >= 5);
    }
    let hash = clock.plan('#', 101).unwrap();
    assert!(hash.iter().all(|p| p.timestamp == 4000 + 1280 && p.payload[0] == 11));
}

#[test]
fn dtmf_invalid_digit_reserves_nothing() {
    let mut clock = DtmfClock::new();
    assert_eq!(clock.plan('x', 101), Err(DtmfError::InvalidDigit('x')));
    assert_eq!(clock.next, 0);
    assert_eq!(dtmf_packets(15, 96, 7).len(), 8);
}

#[test]
fn capture_timestamps_advance_and_wrap() {
    let mut clock = CaptureClock::new(160, 8000);
    let a = clock.silence();
    let b = clock.encoded(CodecType::PCMU, &vec![0i16; 160]);
    assert_eq!(a.rtp_timestamp, 0);
    assert_eq!(b.rtp_timestamp, 160);
    assert_eq!(b.data.len(), 160);
    clock.next_timestamp = u32::MAX - 10;
    let c = clock.emit(vec![1, 2, 3]);
    assert_eq!(c.rtp_timestamp, u32::MAX - 10);
    assert_eq!(clock.next_timestamp, 149);
}

#[test]
fn capture_underrun_gives_full_silence_frame() {
    let mut clock = CaptureClock::new(160, 8000);
    let f = clock.tick(false, 100, 960).unwrap();
    assert_eq!(f.data, vec![0u8; 160]);
    let g = clock.tick(true, 5000, 960).unwrap();
    assert_eq!(g.rtp_timestamp, 160);
    assert!(clock.tick(false, 960, 960).is_none());
    assert_eq!(clock.next_timestamp, 320);
    assert_eq!(frame_source(false, 960, 960), FrameSource::Microphone);
    assert_eq!(frame_source(false, 959, 960), FrameSource::Silence);
}

#[test]
fn basic_pcmu_frames_are_160_bytes_fifty_per_second() {
    let mut clock = CaptureClock::new(160, 8000);
    let mut total = 0u64;
    for _ in 0..50 {
        let f = clock.encoded(CodecType::PCMU, &vec![0i16; 160]);
        assert_eq!(f.data.len(), 160);
        total += f.data.len() as u64;
    }
    assert_eq!(total, 8000);
    assert_eq!(clock.next_timestamp, 8000);
}

#[test]
fn device_frame_sizes() {
    assert_eq!(device_frame_samples(160, 48000, 8000), 960);
    assert_eq!(device_frame_samples(160, 44100, 8000), 882);
    assert_eq!(device_frame_samples(160, 44101, 8000), 883);
    assert_eq!(device_frame_samples(320, 16000, 16000), 320);
    assert_eq!(ring_capacity(48000, 2), 19200);
    assert_eq!(ring_capacity(44100, 1), 8800);
}

#[test]
fn toggles_twice_restore_state() {
    let mut c = AudioControls::new();
    let before = c;
    assert!(c.toggle_mic_mute());
    assert!(!c.toggle_mic_mute());
    assert!(c.toggle_speaker_mute());
    assert!(!c.toggle_speaker_mute());
    assert!(c.toggle_noise_reduce());
    assert!(!c.toggle_noise_reduce());
    assert_eq!(c, before);
    c.set_noise_reduce(true);
    c.set_speaker_noise_reduce(true);
    assert!(c.mic_denoise && c.speaker_denoise && !c.mic_muted);
}
