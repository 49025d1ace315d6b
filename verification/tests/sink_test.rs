use websink::codec::{FormatDescriptor, StreamMode, VideoCodec};
use websink::error::{Missing, SinkError};
use websink::forward::{dispatch, Admission, Delivery, FlowStatus};
use websink::peers::ConnectionState;
use websink::signal::{Outcome, SessionRequest, Step};
use websink::sink::{Property, PropertyValue, Settings, State, StopReport, WebSink, DEFAULT_PORT};

fn grant(port: u16) -> Option<u16> {
    if port == 0 {
        Some(40000)
    } else {
        Some(port)
    }
}

fn started() -> WebSink {
    let mut sink = WebSink::default();
    assert_eq!(sink.start(true, grant), Ok(8091));
    sink
}

fn h264_raw() -> FormatDescriptor {
    FormatDescriptor::new("video/x-h264", None)
}

fn h264_rtp() -> FormatDescriptor {
    FormatDescriptor::new("application/x-rtp", Some("H264"))
}

fn rtp_packet(sequence: u16) -> Vec<u8> {
    let mut data = vec![0x80, 0x60];
    data.extend_from_slice(&sequence.to_be_bytes());
    data.extend_from_slice(&[0, 0, 0, 1, 0, 0, 0, 2, 0xAB, 0xCD]);
    data
}

fn connect(sink: &mut WebSink) -> String {
    let (mut negotiation, mut step) =
        sink.begin_session(SessionRequest { offer: "offer".to_string() }).unwrap();
    let codec = negotiation.codec;
    loop {
        step = match step {
            Step::ReadLocal => negotiation.advance(Outcome::Answer("answer".to_string())),
            Step::Finish { answer } => {
                return sink.finish_session(answer, codec).response.session_id;
            }
            Step::Abort(e) => panic!("negotiation gave up: {:?}", e),
            _ => negotiation.advance(Outcome::Done),
        };
    }
}

#[test]
fn settings_have_their_defaults() {
    let settings = Settings::default();
    assert_eq!(DEFAULT_PORT, 8091);
    assert_eq!(settings.port, 8091);
    assert_eq!(settings.stun_server, "stun:stun.l.google.com:19302");
    assert!(!settings.is_live);
}

#[test]
fn a_new_sink_is_idle() {
    let sink = WebSink::default();
    assert_eq!(sink.settings, Settings::default());
    assert_eq!(sink.next_pad, 0);
    assert!(!sink.state.running);
    assert_eq!(sink.state.server_port, None);
    assert_eq!(sink.state.webrtc_config, None);
    assert_eq!(sink.state.peer_connections.len(), 0);
    assert_eq!(sink.state.tracks.len(), 0);
    let state = State::default();
    assert!(!state.running);
    assert_eq!(state.server_port, None);
}

#[test]
fn properties_go_by_name() {
    assert_eq!(Property::from_name("port"), Some(Property::Port));
    assert_eq!(Property::from_name("stun-server"), Some(Property::StunServer));
    assert_eq!(Property::from_name("is-live"), Some(Property::IsLive));
    assert_eq!(Property::from_name("stun_server"), None);
    assert_eq!(Property::from_name(""), None);
    assert_eq!(Property::Port.name(), "port");
    assert_eq!(Property::StunServer.name(), "stun-server");
    assert_eq!(Property::IsLive.name(), "is-live");
}

#[test]
fn properties_can_be_set_and_read() {
    let mut sink = WebSink::default();
    assert_eq!(sink.property(Property::Port), PropertyValue::UInt(8091));
    assert_eq!(
        sink.property(Property::StunServer),
        PropertyValue::Text(Some("stun:stun.l.google.com:19302".to_string()))
    );
    assert_eq!(sink.property(Property::IsLive), PropertyValue::Flag(false));

    sink.set_property(Property::Port, PropertyValue::UInt(0));
    sink.set_property(Property::StunServer, PropertyValue::Text(Some(String::new())));
    sink.set_property(Property::IsLive, PropertyValue::Flag(true));
    assert_eq!(sink.property(Property::Port), PropertyValue::UInt(0));
    assert_eq!(sink.property(Property::StunServer), PropertyValue::Text(Some(String::new())));
    assert_eq!(sink.property(Property::IsLive), PropertyValue::Flag(true));
    assert_eq!(sink.settings.port, 0);
    assert_eq!(sink.settings.stun_server, "");
    assert!(sink.settings.is_live);
}

#[test]
fn port_property_keeps_its_low_16_bits() {
    let mut settings = Settings::default();
    settings.set_property(Property::Port, PropertyValue::UInt(65535));
    assert_eq!(settings.port, 65535);
    settings.set_property(Property::Port, PropertyValue::UInt(65536 + 9000));
    assert_eq!(settings.port, 9000);
}

#[test]
fn absent_stun_server_falls_back_to_the_default() {
    let mut settings = Settings::default();
    settings.set_property(Property::StunServer, PropertyValue::Text(Some("stun:a:1".to_string())));
    assert_eq!(settings.stun_server, "stun:a:1");
    settings.set_property(Property::StunServer, PropertyValue::Text(None));
    assert_eq!(settings.stun_server, "stun:stun.l.google.com:19302");
}

#[test]
fn pads_are_numbered_from_zero() {
    let mut sink = WebSink::default();
    assert_eq!(sink.request_pad().as_deref(), Some("sink_0"));
    assert_eq!(sink.request_pad().as_deref(), Some("sink_1"));
    assert_eq!(sink.request_pad().as_deref(), Some("sink_2"));
    assert_eq!(sink.next_pad, 3);
    assert_eq!(sink.state.tracks.pad_count(), 3);
    sink.release_pad("sink_1");
    assert_eq!(sink.request_pad().as_deref(), Some("sink_3"));
    assert_eq!(sink.state.tracks.pad_count(), 3);
}

#[test]
fn pad_numbers_run_out() {
    let mut sink = WebSink::default();
    sink.next_pad = u32::MAX - 1;
    assert_eq!(sink.request_pad().as_deref(), Some("sink_4294967294"));
    assert_eq!(sink.request_pad(), None);
    assert_eq!(sink.next_pad, u32::MAX);
}

#[test]
fn start_makes_the_configuration_and_takes_a_port() {
    let mut sink = WebSink::default();
    assert_eq!(sink.start(true, grant), Ok(8091));
    assert!(sink.state.running);
    assert_eq!(sink.state.server_port, Some(8091));
    let config = sink.state.webrtc_config.clone().unwrap();
    assert_eq!(config.ice_servers, vec!["stun:stun.l.google.com:19302".to_string()]);
}

#[test]
fn start_without_stun_server_has_no_ice_servers() {
    let mut sink = WebSink::default();
    sink.set_property(Property::StunServer, PropertyValue::Text(Some(String::new())));
    sink.start(true, grant).unwrap();
    assert!(sink.state.webrtc_config.clone().unwrap().ice_servers.is_empty());
}

#[test]
fn start_without_runtime_fails_and_changes_nothing() {
    let mut sink = WebSink::default();
    assert_eq!(sink.start(false, grant), Err(SinkError::RuntimeInitFailed));
    assert!(!sink.state.running);
    assert_eq!(sink.state.webrtc_config, None);
    assert_eq!(sink.state.server_port, None);
}

#[test]
fn start_without_a_free_port_fails() {
    let mut sink = WebSink::default();
    assert_eq!(sink.start(true, |_| None), Err(SinkError::NoPortAvailable));
    assert_eq!(sink.state.server_port, None);
}

#[test]
fn auto_port_start_and_stop() {
    let mut sink = WebSink::default();
    sink.set_property(Property::Port, PropertyValue::UInt(0));
    let port = sink.start(true, grant).unwrap();
    assert!(port > 0);
    assert_eq!(sink.state.server_port, Some(port));
    let report = sink.stop();
    assert_eq!(report, StopReport { abort_server: true, peers_dropped: 0 });
    assert_eq!(sink.state.server_port, None);
    assert_eq!(sink.start(true, grant), Ok(port));
}

#[test]
fn port_fallback_at_start() {
    let mut sink = WebSink::default();
    sink.set_property(Property::Port, PropertyValue::UInt(9124));
    let port = sink.start(true, |p| if p == 9124 { None } else { Some(p) }).unwrap();
    assert!(port > 9124 && port <= 9224);
    assert_eq!(port, 9125);
}

#[test]
fn settings_show_at_the_next_start() {
    let mut sink = started();
    sink.set_property(Property::Port, PropertyValue::UInt(9000));
    sink.set_property(Property::StunServer, PropertyValue::Text(Some("stun:b:2".to_string())));
    assert_eq!(sink.state.server_port, Some(8091));
    assert_eq!(
        sink.state.webrtc_config.clone().unwrap().ice_servers,
        vec!["stun:stun.l.google.com:19302".to_string()]
    );
    sink.stop();
    assert_eq!(sink.start(true, grant), Ok(9000));
    assert_eq!(sink.state.webrtc_config.clone().unwrap().ice_servers, vec!["stun:b:2".to_string()]);
}

#[test]
fn stop_drops_everything() {
    let mut sink = started();
    sink.set_caps("sink_0", &h264_raw()).unwrap();
    connect(&mut sink);
    connect(&mut sink);
    let report = sink.stop();
    assert_eq!(report, StopReport { abort_server: true, peers_dropped: 2 });
    assert!(!sink.state.running);
    assert_eq!(sink.state.webrtc_config, None);
    assert_eq!(sink.state.peer_connections.len(), 0);
    assert_eq!(sink.state.tracks.len(), 0);
    assert_eq!(sink.render_gate("sink_0"), Admission::Reject);
    assert_eq!(sink.stop(), StopReport { abort_server: false, peers_dropped: 0 });
}

#[test]
fn unsupported_format_is_rejected_without_a_track() {
    let mut sink = started();
    let result = sink.set_caps("sink_0", &FormatDescriptor::new("audio/mpeg", None));
    assert_eq!(result, Err(SinkError::UnsupportedFormat));
    assert_eq!(sink.state.tracks.len(), 0);
    assert_eq!(sink.state.tracks.pad_count(), 0);
    assert!(sink.state.tracks.lookup("sink_0").is_none());
    assert_eq!(sink.state.tracks.track_index("sink_0"), None);
}

#[test]
fn format_event_on_an_idle_sink_makes_no_track() {
    let mut sink = WebSink::default();
    assert_eq!(sink.set_caps("sink_0", &h264_raw()), Ok(None));
    assert_eq!(sink.state.tracks.len(), 0);
    assert_eq!(
        sink.set_caps("sink_0", &FormatDescriptor::new("audio/mpeg", None)),
        Err(SinkError::UnsupportedFormat)
    );
}

#[test]
fn format_event_binds_the_pad() {
    let mut sink = started();
    assert_eq!(sink.set_caps("sink_0", &h264_raw()), Ok(Some(0)));
    assert_eq!(sink.set_caps("sink_1", &h264_rtp()), Ok(Some(1)));
    assert_eq!(sink.set_caps("sink_0", &h264_raw()), Ok(Some(0)));
    assert_eq!(sink.set_caps("sink_0", &h264_rtp()), Err(SinkError::BadRenegotiation));
    assert_eq!(sink.state.tracks.len(), 2);
    assert_eq!(sink.state.tracks.lookup("sink_1").unwrap().track_id(), "track_sink_1");
}

#[test]
fn h264_sample_mode_without_peers() {
    let mut sink = started();
    let pad = sink.request_pad().unwrap();
    sink.set_caps(&pad, &h264_raw()).unwrap();
    let mut written = 0;
    for _ in 0..300 {
        let gate = sink.render_gate(&pad);
        assert_eq!(gate, Admission::Read { track: 0, mode: StreamMode::Sample, deliver: false });
        assert_eq!(gate.status(true), FlowStatus::Success);
        if let Admission::Read { mode, deliver, .. } = gate {
            if dispatch(mode, deliver, &[0, 0, 0, 1, 0x65], None) != Delivery::Nothing {
                written += 1;
            }
        }
    }
    assert_eq!(written, 0);
}

#[test]
fn h264_rtp_passthrough() {
    let mut sink = started();
    let pad = sink.request_pad().unwrap();
    sink.set_caps(&pad, &h264_rtp()).unwrap();
    connect(&mut sink);
    let mut written = 0;
    for sequence in 0..300u16 {
        let gate = sink.render_gate(&pad);
        assert_eq!(gate, Admission::Read { track: 0, mode: StreamMode::Rtp, deliver: true });
        assert_eq!(gate.status(true), FlowStatus::Success);
        if let Admission::Read { mode, deliver, .. } = gate {
            match dispatch(mode, deliver, &rtp_packet(sequence), None) {
                Delivery::Rtp(packet) => {
                    assert_eq!(packet.header.sequence_number, sequence);
                    written += 1;
                }
                other => panic!("expected a packet, got {:?}", other),
            }
        }
    }
    assert_eq!(written, 300);
}

#[test]
fn live_sink_without_peers_does_not_read() {
    let mut sink = started();
    sink.set_property(Property::IsLive, PropertyValue::Flag(true));
    assert_eq!(sink.render_gate("sink_0"), Admission::Skip);
    sink.set_caps("sink_0", &h264_raw()).unwrap();
    assert_eq!(sink.render_gate("sink_0"), Admission::Skip);
    assert_eq!(sink.render_gate("sink_0").status(false), FlowStatus::Success);
    connect(&mut sink);
    assert_eq!(
        sink.render_gate("sink_0"),
        Admission::Read { track: 0, mode: StreamMode::Sample, deliver: true }
    );
}

#[test]
fn buffer_before_the_format_event_fails() {
    let mut sink = started();
    let pad = sink.request_pad().unwrap();
    assert_eq!(sink.render_gate(&pad), Admission::Reject);
    assert_eq!(sink.render_gate(&pad).status(true), FlowStatus::Failure);
    assert_eq!(sink.render_gate("unknown"), Admission::Reject);
}

#[test]
fn signalling_needs_configuration_and_track() {
    let mut sink = WebSink::default();
    let request = SessionRequest { offer: "offer".to_string() };
    assert_eq!(
        sink.begin_session(request.clone()),
        Err(SinkError::NotReady(Missing::Configuration))
    );
    sink.start(true, grant).unwrap();
    assert_eq!(sink.begin_session(request.clone()), Err(SinkError::NotReady(Missing::Track)));
    sink.set_caps("sink_0", &h264_raw()).unwrap();
    assert!(sink.begin_session(request).is_ok());
}

#[test]
fn signalling_success_and_peer_close() {
    let mut sink = started();
    sink.set_caps("sink_0", &h264_raw()).unwrap();
    let (mut negotiation, _) =
        sink.begin_session(SessionRequest { offer: "offer".to_string() }).unwrap();
    for _ in 0..7 {
        negotiation.advance(Outcome::Done);
    }
    let step = negotiation.advance(Outcome::Answer("{\"type\":\"answer\"}".to_string()));
    assert_eq!(step, Step::Finish { answer: "{\"type\":\"answer\"}".to_string() });
    let established = sink.finish_session("{\"type\":\"answer\"}".to_string(), negotiation.codec);
    assert_eq!(established.peer_count, 1);
    assert_eq!(established.response.answer, "{\"type\":\"answer\"}");
    assert_eq!(established.response.negotiated_codec.as_deref(), Some("video/h264"));
    let id = established.response.session_id;
    assert_eq!(uuid::Uuid::parse_str(&id).unwrap().get_version_num(), 4);
    assert!(sink.state.peer_connections.contains(&id));

    assert_eq!(sink.peer_state_changed(&id, ConnectionState::Connecting), None);
    assert_eq!(sink.peer_state_changed(&id, ConnectionState::Connected), None);
    assert_eq!(sink.state.peer_connections.len(), 1);
    assert_eq!(sink.peer_state_changed(&id, ConnectionState::Closed), Some(0));
    assert!(!sink.state.peer_connections.contains(&id));
}

#[test]
fn a_failed_negotiation_retains_no_session() {
    let mut sink = started();
    sink.set_caps("sink_0", &h264_raw()).unwrap();
    let (mut negotiation, _) =
        sink.begin_session(SessionRequest { offer: "offer".to_string() }).unwrap();
    negotiation.advance(Outcome::Done);
    let step = negotiation.advance(Outcome::Failed("no peer".to_string()));
    assert_eq!(step, Step::Abort(SinkError::Engine("no peer".to_string())));
    assert_eq!(sink.state.peer_connections.len(), 0);
}
