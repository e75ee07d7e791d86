use softphone::codec::{parse_negotiated_codec, CodecType, CodecTypeExt};

#[test]
fn roundtrip_pcmu_silence() {
    let pcm = vec![0i16; 160];
    let encoded = CodecType::PCMU.encode(&pcm);
    let decoded = CodecType::PCMU.decode(&encoded);
    for s in &decoded {
        assert!(s.abs() < 10, "expected near-zero, got {}", s);
    }
}

#[test]
fn roundtrip_pcma_silence() {
    let pcm = vec![0i16; 160];
    let encoded = CodecType::PCMA.encode(&pcm);
    let decoded = CodecType::PCMA.decode(&encoded);
    for s in &decoded {
        assert!(s.abs() < 16, "expected near-zero, got {}", s);
    }
}

#[test]
fn parse_sdp_pcmu_default() {
    let sdp = "v=0\r\no=- 0 0 IN IP4 0.0.0.0\r\ns=-\r\nt=0 0\r\nm=audio 5004 RTP/AVP 0\r\na=rtpmap:0 PCMU/8000\r\n";
    let codec = parse_negotiated_codec(sdp);
    assert_eq!(codec.codec, CodecType::PCMU);
    assert_eq!(codec.payload_type, 0);
    assert_eq!(codec.clock_rate, 8000);
    assert_eq!(codec.ptime_ms, 20);
}

#[test]
fn parse_sdp_pcma_with_ptime() {
    let sdp = "v=0\r\nm=audio 5004 RTP/AVP 8\r\na=rtpmap:8 PCMA/8000\r\na=ptime:30\r\n";
    let codec = parse_negotiated_codec(sdp);
    assert_eq!(codec.codec, CodecType::PCMA);
    assert_eq!(codec.payload_type, 8);
    assert_eq!(codec.ptime_ms, 30);
    assert_eq!(codec.frame_samples(), 240);
}

#[test]
fn parse_sdp_opus() {
    let sdp = "v=0\r\nm=audio 5004 RTP/AVP 111\r\na=rtpmap:111 opus/48000/2\r\na=ptime:20\r\n";
    let codec = parse_negotiated_codec(sdp);
    assert_eq!(codec.codec, CodecType::Opus);
    assert_eq!(codec.payload_type, 111);
    assert_eq!(codec.clock_rate, 48000);
    assert_eq!(codec.ptime_ms, 20);
    assert_eq!(codec.frame_samples(), 960);
}

#[test]
fn parse_sdp_g722() {
    let sdp = "v=0\r\nm=audio 5004 RTP/AVP 9\r\na=rtpmap:9 G722/16000\r\na=ptime:20\r\n";
    let codec = parse_negotiated_codec(sdp);
    assert_eq!(codec.codec, CodecType::G722);
    assert_eq!(codec.payload_type, 9);
    assert_eq!(codec.clock_rate, 16000);
    assert_eq!(codec.ptime_ms, 20);
    assert_eq!(codec.frame_samples(), 320);
}

#[test]
fn test_codec_extensions() {
    assert_eq!(<CodecType as CodecTypeExt>::from_payload_type(0), Some(CodecType::PCMU));
    assert_eq!(<CodecType as CodecTypeExt>::from_payload_type(8), Some(CodecType::PCMA));
    assert_eq!(<CodecType as CodecTypeExt>::from_payload_type(9), Some(CodecType::G722));
    assert_eq!(<CodecType as CodecTypeExt>::from_payload_type(111), Some(CodecType::Opus));

    assert_eq!(CodecType::PCMU.to_payload_type(), 0);
    assert_eq!(CodecType::PCMA.to_payload_type(), 8);
    assert_eq!(CodecType::G722.to_payload_type(), 9);
    assert_eq!(CodecType::Opus.to_payload_type(), 111);

    assert_eq!(CodecType::PCMU.default_clock_rate(), 8000);
    assert_eq!(CodecType::G722.default_clock_rate(), 16000);
    assert_eq!(CodecType::Opus.default_clock_rate(), 48000);
}

#[test]
fn parse_sdp_static_payload_type_without_rtpmap() {
    let sdp = "v=0\r\nm=audio 4000 RTP/AVP 8 101\r\na=rtpmap:101 telephone-event/8000\r\n";
    let codec = parse_negotiated_codec(sdp);
    assert_eq!(codec.codec, CodecType::PCMA);
    assert_eq!(codec.payload_type, 8);
    assert_eq!(codec.clock_rate, 8000);
    assert_eq!(codec.telephone_event_pt, Some(101));
}

#[test]
fn parse_sdp_ignores_out_of_range_ptime_and_video() {
    let sdp = "m=audio 4000 RTP/AVP 9\na=ptime:500\nm=video 5000 RTP/AVP 96\na=rtpmap:96 PCMU/90000\na=ptime:40\n";
    let codec = parse_negotiated_codec(sdp);
    assert_eq!(codec.codec, CodecType::G722);
    assert_eq!(codec.clock_rate, 16000);
    assert_eq!(codec.ptime_ms, 20);
}

#[test]
fn parse_empty_sdp_gives_pcmu_defaults() {
    let codec = parse_negotiated_codec("");
    assert_eq!(codec.codec, CodecType::PCMU);
    assert_eq!(codec.frame_samples(), 160);
    assert_eq!(codec.telephone_event_pt, None);
}

#[test]
fn pcmu_frame_is_one_byte_per_sample() {
    let pcm = vec![1000i16; 160];
    let encoded = CodecType::PCMU.encode(&pcm);
    assert_eq!(encoded.len(), 160);
    assert_ne!(encoded, vec![0u8; 160]);
    assert_eq!(CodecType::PCMU.decode(&encoded).len(), 160);
}
