use softphone::sdp::{
    answer_for_peer, detect_srtp, has_ice_credentials, inbound_transport_mode,
    inject_ice_attributes, outbound_transport_mode, replace_with_public_address,
    strip_ice_attributes, TransportMode,
};

const ANSWER: &str = "v=0\r\no=- 123 456 IN IP4 10.0.0.5\r\ns=-\r\nc=IN IP4 10.0.0.5\r\nt=0 0\r\nm=audio 50000 RTP/AVP 0 101\r\na=ice-ufrag:abcd\r\na=ice-pwd:secretsecret\r\na=candidate:1 1 UDP 2130706431 10.0.0.5 50000 typ host\r\na=candidate:2 1 UDP 1694498815 203.0.113.7 61000 typ srflx\r\na=end-of-candidates\r\na=rtcp-mux\r\na=sendonly\r\na=rtpmap:0 PCMU/8000\r\n";

#[test]
fn nat_answer_uses_public_address_without_ice() {
    let out = replace_with_public_address(ANSWER, "203.0.113.7", 61000);
    assert_eq!(
        out,
        "v=0\r\no=- 123 456 IN IP4 203.0.113.7\r\ns=-\r\nc=IN IP4 203.0.113.7\r\nt=0 0\r\nm=audio 61000 RTP/AVP 0 101\r\na=sendrecv\r\na=rtpmap:0 PCMU/8000\r\n"
    );
    assert!(!out.contains("a=ice-"));
    assert!(!out.contains("a=candidate:"));
    assert!(!out.contains("a=rtcp-mux"));
    assert!(out.ends_with("\r\n"));
    assert!(out.lines().all(|l| !l.starts_with("a=ice-") && !l.starts_with("a=sendonly")));
}

#[test]
fn strip_without_public_address_keeps_addresses() {
    let out = strip_ice_attributes(ANSWER);
    assert!(out.contains("c=IN IP4 10.0.0.5\r\n"));
    assert!(out.contains("m=audio 50000 RTP/AVP 0 101\r\n"));
    assert!(out.contains("a=sendrecv\r\n"));
    assert!(!out.contains("a=ice-"));
    assert!(!out.contains("a=end-of-candidates"));
}

#[test]
fn answer_for_ice_peer_is_unchanged() {
    assert_eq!(answer_for_peer(ANSWER, true, &Some(("1.2.3.4".to_string(), 9))), ANSWER);
    let rewritten = answer_for_peer(ANSWER, false, &Some(("1.2.3.4".to_string(), 9)));
    assert!(rewritten.contains("c=IN IP4 1.2.3.4\r\n"));
    assert!(rewritten.contains("m=audio 9 RTP/AVP 0 101\r\n"));
    assert_eq!(answer_for_peer(ANSWER, false, &None), strip_ice_attributes(ANSWER));
}

#[test]
fn inject_adds_placeholder_credentials_after_audio_line() {
    let offer = "v=0\nc=IN IP4 192.0.2.1\nm=audio 4000 RTP/AVP 0\na=rtpmap:0 PCMU/8000\n";
    let out = inject_ice_attributes(offer);
    assert_eq!(
        out,
        "v=0\r\nc=IN IP4 192.0.2.1\r\nm=audio 4000 RTP/AVP 0\r\na=ice-ufrag:fake\r\na=ice-pwd:fakefakefakefakefakefake\r\na=rtpmap:0 PCMU/8000\r\n"
    );
    assert!(has_ice_credentials(&out));
    assert!(!has_ice_credentials(offer));
    assert_eq!(inject_ice_attributes("v=0\r\n"), "v=0\r\n");
    assert_eq!(inject_ice_attributes(""), "\r\n");
}

#[test]
fn srtp_is_detected_from_crypto_fingerprint_or_profile() {
    assert!(detect_srtp("m=audio 4000 RTP/SAVP 0\r\n"));
    assert!(detect_srtp("m=audio 4000 RTP/AVP 0\r\na=crypto:1 AES_CM_128_HMAC_SHA1_80 inline:abc\r\n"));
    assert!(detect_srtp("m=audio 9 UDP/TLS/RTP/SAVPF 111\r\n"));
    assert!(detect_srtp("a=fingerprint:sha-256 AB:CD\r\nm=audio 4000 RTP/AVP 0\r\n"));
    assert!(!detect_srtp("m=audio 4000 RTP/AVP 0\r\na=rtpmap:0 PCMU/8000\r\n"));
    assert!(!detect_srtp("m=audio 4000 RTP/SAVPX 0\r\n"));
    assert_eq!(inbound_transport_mode("m=audio 4000 RTP/SAVP 0\r\n"), TransportMode::Srtp);
    assert_eq!(inbound_transport_mode("m=audio 4000 RTP/AVP 0\r\n"), TransportMode::Rtp);
    assert_eq!(outbound_transport_mode(true), TransportMode::Srtp);
    assert_eq!(outbound_transport_mode(false), TransportMode::Rtp);
}
