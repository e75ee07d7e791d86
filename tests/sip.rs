use softphone::calls::{CallRegistry, CallTokens};
use softphone::client::SipClient;
use softphone::devices::is_useful_device;
use softphone::events::{CallState, CallStatePayload, IncomingCallPayload, RegistrationStatus, RegistrationStatusPayload};
use softphone::flow::{format_flow_entry, FileAction, FlowSwitch, SipFlowConfig};
use softphone::registration::{effective_expires, refresh_interval, RefreshAction, RefreshSchedule};
use softphone::routing::{
    admission_reply, admit_invite, dialog_effect, reject_status, release_tokens, route_reply,
    route_request, CallError, CallPhase, DialogEvent, DialogKind, InviteAdmission, OutboundCall,
    RequestRoute, RetryDecision, SipMethod,
};
use softphone::transport::{
    connection_setup, first_non_loopback_ipv4, needs_dns, ConnectionSetup, Interface, TransportError,
    extract_protocol_from_uri, normalize_server, probe_target, websocket_url, Protocol,
};

#[test]
fn refresh_at_three_quarters_capped_by_keepalive() {
    assert_eq!(refresh_interval(3600, None), 2700);
    assert_eq!(refresh_interval(3600, Some(25)), 25);
    assert_eq!(refresh_interval(60, None), 45);
    assert_eq!(refresh_interval(u64::MAX, None), u64::MAX / 4 * 3 + 2);
    assert_eq!(effective_expires(30), 60);
    assert_eq!(effective_expires(300), 300);
}

#[test]
fn register_call_id_is_stable() {
    let mut s = RefreshSchedule::start(3600, Some(25));
    let id = s.call_id();
    assert_eq!(id.len(), 36);
    assert_eq!(s.first_delay(), 25);
    assert_eq!(s.refreshed(120), RefreshAction::RefreshIn(25));
    assert_eq!(s.call_id(), id);
    assert_eq!(s.refreshed(10), RefreshAction::RefreshIn(25));
    assert_eq!(s.call_id(), id);
    assert_eq!(s.cancelled(), RefreshAction::Unregister(id.clone()));
    let mut t = RefreshSchedule::with_call_id("abc".to_string(), 100, None);
    assert_eq!(t.first_delay(), 75);
    assert_eq!(t.failed(), RefreshAction::Lost);
}

#[test]
fn incoming_invite_routing() {
    assert_eq!(route_request(SipMethod::Invite, false, false, false), RequestRoute::IncomingCall);
    assert_eq!(route_request(SipMethod::Invite, false, false, true), RequestRoute::Retransmission);
    assert_eq!(route_request(SipMethod::Ack, false, false, false), RequestRoute::AckDialog);
    assert_eq!(route_request(SipMethod::Other, false, false, false), RequestRoute::Accept);
    assert_eq!(route_request(SipMethod::Other, true, true, false), RequestRoute::ToDialog);
    assert_eq!(route_request(SipMethod::Invite, true, false, false), RequestRoute::NoSuchDialog);
    assert_eq!(route_reply(RequestRoute::NoSuchDialog), Some(481));
    assert_eq!(route_reply(RequestRoute::Accept), Some(200));
    assert_eq!(route_reply(RequestRoute::AckDialog), None);
    assert_eq!(admit_invite(false, false), InviteAdmission::NoDialog);
    assert_eq!(admission_reply(admit_invite(true, false)), Some(500));
    assert_eq!(admission_reply(admit_invite(true, true)), None);
}

#[test]
fn incoming_call_reject_scenario() {
    let mut reg: CallRegistry<&str, &str> = CallRegistry::new();
    assert!(reg.add_pending("abcd@peer".to_string(), "dialog").is_ok());
    assert_eq!(reg.add_pending("abcd@peer".to_string(), "again"), Err("again"));
    let ev = IncomingCallPayload::new("abcd@peer".to_string(), Some("sip:bob@peer".to_string()), None);
    assert_eq!(ev.caller, "sip:bob@peer");
    assert_eq!(reject_status(Some(603)), 603);
    assert_eq!(reject_status(None), 486);
    assert_eq!(reject_status(Some(42)), 486);
    assert!(reg.add_pending("other@peer".to_string(), "second").is_ok());
    assert_eq!(reg.take_pending(&"abcd@peer".to_string()), Some("dialog"));
    assert_eq!(reg.take_pending(&"other@peer".to_string()), Some("second"));
    assert!(!reg.is_pending(&"abcd@peer".to_string()));
    let ended = CallStatePayload::new(CallState::Ended, Some("abcd@peer".to_string()), Some("rejected".to_string()));
    assert_eq!(ended.state, "ended");
    let rejected = CallStatePayload::rejected("abcd@peer".to_string());
    assert_eq!(rejected, ended);
    assert_eq!(IncomingCallPayload::new("x".to_string(), None, None).caller, "Unknown");
}

#[test]
fn active_call_is_never_pending() {
    let mut reg: CallRegistry<u8, u8> = CallRegistry::new();
    reg.add_pending("a".to_string(), 1).unwrap();
    assert_eq!(reg.set_active("a".to_string(), 9), Err(9));
    assert_eq!(reg.take_pending(&"a".to_string()), Some(1));
    assert_eq!(reg.set_active("a".to_string(), 9), Ok(None));
    assert_eq!(reg.add_pending("a".to_string(), 2), Err(2));
    assert_eq!(reg.set_active("b".to_string(), 7), Ok(Some(("a".to_string(), 9))));
    assert_eq!(reg.take_active(), Some(("b".to_string(), 7)));
    assert_eq!(reg.take_active(), None);
}

#[test]
fn srtp_fallback_retries_once_with_new_call_id() {
    let mut call = OutboundCall::start(true);
    let first = call.call_id.clone();
    assert_eq!(call.rejected(488), RetryDecision::RetryWithRtp);
    assert!(!call.srtp);
    assert_ne!(call.call_id, first);
    assert_eq!(call.call_id.len(), 36);
    assert_eq!(call.rejected(488), RetryDecision::GiveUp(CallError::Rejected(488)));
    let mut plain = OutboundCall::start(false);
    assert_eq!(plain.rejected(488), RetryDecision::GiveUp(CallError::Rejected(488)));
    assert_eq!(call.answered(false), Ok(()));
}

#[test]
fn cancel_during_ringing() {
    let mut phase = CallPhase::Idle;
    assert!(phase.advance(CallPhase::Calling));
    assert!(phase.advance(CallPhase::Ringing));
    assert!(!phase.advance(CallPhase::Calling));
    let mut tokens: CallTokens<&str> = CallTokens::new();
    tokens.insert("pending_outbound".to_string(), "token");
    let released = release_tokens(&mut tokens, false, &String::new());
    assert_eq!(released, vec!["token"]);
    assert_eq!(tokens.len(), 0);
    assert!(phase.advance(CallPhase::Ended));
    let reg: CallRegistry<u8, u8> = CallRegistry::new();
    assert!(reg.active().is_none());
    let call = OutboundCall::start(true);
    assert_eq!(call.answered(true), Err(CallError::Cancelled));
}

#[test]
fn hangup_with_active_call_releases_its_token() {
    let mut tokens: CallTokens<u8> = CallTokens::new();
    assert_eq!(tokens.insert("d1".to_string(), 1), None);
    assert_eq!(tokens.insert("d1".to_string(), 2), Some(1));
    tokens.insert("d2".to_string(), 3);
    assert_eq!(release_tokens(&mut tokens, true, &"d1".to_string()), vec![2]);
    assert_eq!(tokens.len(), 1);
    assert_eq!(tokens.remove(&"d2".to_string()), Some(3));
    assert_eq!(tokens.remove(&"d2".to_string()), None);
    tokens.insert("a".to_string(), 10);
    tokens.insert("b".to_string(), 20);
    let mut all = release_tokens(&mut tokens, false, &String::new());
    all.sort();
    assert_eq!(all, vec![10, 20]);
}

#[test]
fn dialog_events_drive_call_state() {
    let id = "dlg-1".to_string();
    let calling = dialog_effect(&DialogEvent::Calling, Some(DialogKind::ClientInvite), &id);
    assert_eq!(calling.emit.unwrap().state, "calling");
    assert!(dialog_effect(&DialogEvent::Calling, Some(DialogKind::ServerInvite), &id).emit.is_none());
    let early = dialog_effect(&DialogEvent::Early, Some(DialogKind::ClientInvite), &id);
    assert_eq!(early.emit.unwrap().state, "ringing");
    let done = dialog_effect(&DialogEvent::Terminated("Terminated".to_string()), None, &id);
    assert!(done.remove_dialog && done.cancel_call);
    let p = done.emit.unwrap();
    assert_eq!(p.state, "ended");
    assert_eq!(p.reason, Some("Terminated".to_string()));
    assert_eq!(p.call_id, Some(id));
    assert_eq!(RegistrationStatusPayload::new(RegistrationStatus::Registered, None).status, "registered");
}

#[test]
fn server_addresses() {
    let t = normalize_server("wss://pbx.example.com:8443/ws");
    assert_eq!(t.uri, "sip:pbx.example.com:8443;transport=wss");
    assert_eq!(t.ws_path, Some("/ws".to_string()));
    let t = normalize_server("ws://pbx.example.com");
    assert_eq!(t.uri, "sip:pbx.example.com;transport=ws");
    assert_eq!(t.ws_path, Some("/".to_string()));
    assert_eq!(normalize_server("192.0.2.10").uri, "sip:192.0.2.10");
    assert_eq!(normalize_server("sips:pbx").uri, "sips:pbx");
    let plan = SipClient::plan("192.0.2.10", Some("proxy.example.com:5061"));
    assert_eq!(plan.outbound_proxy, Some("sip:proxy.example.com:5061".to_string()));
    assert_eq!(websocket_url(true, "pbx", None, Some("ws")), "wss://pbx:5060/ws");
    assert_eq!(websocket_url(false, "10.0.0.1", Some(80), None), "ws://10.0.0.1:80/");
    assert_eq!(probe_target("pbx.example.com"), "pbx.example.com:5060");
    assert_eq!(probe_target("pbx.example.com:5080"), "pbx.example.com:5080");
}

#[test]
fn transports() {
    assert_eq!(extract_protocol_from_uri(Some(Protocol::Tcp), true), Protocol::Tcp);
    assert_eq!(extract_protocol_from_uri(None, true), Protocol::Tls);
    assert_eq!(extract_protocol_from_uri(None, false), Protocol::Udp);
    assert_eq!(Protocol::TlsSctp.as_str(), "TLS-SCTP");
    assert_eq!(Protocol::Wss.max_keepalive(), Some(25));
    assert_eq!(Protocol::Udp.max_keepalive(), None);
}

#[test]
fn sip_flow_reenable_appends() {
    let (mut f, a0) = FlowSwitch::new("/tmp/logs".to_string(), false);
    assert_eq!(a0, FileAction::Keep);
    assert_eq!(f.enable(), FileAction::OpenAppend("/tmp/logs".to_string()));
    assert_eq!(f.enable(), FileAction::Keep);
    assert_eq!(f.disable(), FileAction::Close);
    assert_eq!(f.entry("t", "OUTGOING", Some("id"), "msg"), None);
    assert_eq!(f.enable(), FileAction::OpenAppend("/tmp/logs".to_string()));
    assert_eq!(f.set_log_dir("/var/x".to_string()), FileAction::OpenAppend("/var/x".to_string()));
    assert_eq!(f.config(), SipFlowConfig { enabled: true, log_dir: "/var/x".to_string() });
    let e = f.entry("2024-01-01 00:00:00.000", "INCOMING", Some("abc"), "INVITE").unwrap();
    let sep = "=".repeat(80);
    assert_eq!(e, format!("\n{}\n[2024-01-01 00:00:00.000] INCOMING (Call-ID: abc)\n{}\nINVITE\n", sep, sep));
    assert_eq!(e, format_flow_entry("2024-01-01 00:00:00.000", "INCOMING", "abc", "INVITE"));
    assert_eq!(f.entry("t", "INCOMING", None, "x"), None);
    assert_eq!(SipFlowConfig::default_in(Some("/home/a"), "/tmp").log_dir, "/home/a/softphone");
    assert_eq!(SipFlowConfig::default_in(None, "/tmp/").log_dir, "/tmp/softphone");
}

#[test]
fn alsa_device_filter() {
    assert!(is_useful_device("default"));
    assert!(is_useful_device("plughw:CARD=PCH,DEV=0"));
    assert!(!is_useful_device("plughw:CARD=0,DEV=0"));
    assert!(is_useful_device("plughw:PCH,0"));
    assert!(!is_useful_device("plughw:1,0"));
    assert!(!is_useful_device("plughw:,0"));
    assert!(!is_useful_device("hw:CARD=PCH"));
    assert!(!is_useful_device("defaults"));
}

#[test]
fn connection_setup_and_dns() {
    assert_eq!(connection_setup(Protocol::Udp), Ok(ConnectionSetup::Datagram));
    assert_eq!(connection_setup(Protocol::Ws), Ok(ConnectionSetup::Stream));
    assert_eq!(connection_setup(Protocol::Sctp), Err(TransportError::Unsupported(Protocol::Sctp)));
    assert!(needs_dns(Protocol::Tls, false));
    assert!(!needs_dns(Protocol::Tls, true));
    assert!(!needs_dns(Protocol::Udp, false));
    let ifs = vec![
        Interface { is_loopback: true, ipv4: Some(u32::from_be_bytes([127, 0, 0, 1])) },
        Interface { is_loopback: false, ipv4: None },
        Interface { is_loopback: false, ipv4: Some(u32::from_be_bytes([192, 168, 1, 20])) },
        Interface { is_loopback: false, ipv4: Some(u32::from_be_bytes([10, 0, 0, 2])) },
    ];
    assert_eq!(first_non_loopback_ipv4(&ifs), Some(u32::from_be_bytes([192, 168, 1, 20])));
    assert_eq!(first_non_loopback_ipv4(&ifs[..2].to_vec()), None);
}
