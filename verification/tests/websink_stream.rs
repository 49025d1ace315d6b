// The sink fed with 300 buffers of one format, with no peer attached: no
// buffer may fail, and the sink must start and stop cleanly.
use websink::codec::{FormatDescriptor, StreamMode, VideoCodec};
use websink::forward::{dispatch, Admission, Delivery, FlowStatus};
use websink::sink::{Property, PropertyValue, StopReport, WebSink};

fn access_unit(n: u32) -> Vec<u8> {
    let mut data = vec![0, 0, 0, 1, 0x65];
    data.extend_from_slice(&n.to_be_bytes());
    data
}

fn rtp_packet(n: u32) -> Vec<u8> {
    let mut data = vec![0x80, 0x60];
    data.extend_from_slice(&(n as u16).to_be_bytes());
    data.extend_from_slice(&(n * 3000).to_be_bytes());
    data.extend_from_slice(&[0, 0, 0, 7]);
    data.extend_from_slice(&access_unit(n));
    data
}

fn run_pipeline(caps: FormatDescriptor, port: u16, codec: VideoCodec, mode: StreamMode) {
    let mut sink = WebSink::default();
    sink.set_property(Property::Port, PropertyValue::UInt(port as u32));
    assert_eq!(sink.start(true, |p| Some(p)), Ok(port));

    let pad = sink.request_pad().expect("a pad");
    assert_eq!(sink.set_caps(&pad, &caps), Ok(Some(0)));
    assert_eq!(sink.state.tracks.format_of(&pad), Some((codec, mode)));

    let mut errors: Vec<String> = Vec::new();
    for n in 0..300u32 {
        let payload = match mode {
            StreamMode::Sample => access_unit(n),
            StreamMode::Rtp => rtp_packet(n),
        };
        let gate = sink.render_gate(&pad);
        match gate {
            Admission::Read { mode, deliver, .. } => {
                if dispatch(mode, deliver, &payload, Some(33_333_333)) != Delivery::Nothing {
                    errors.push(format!("buffer {} was written without a peer", n));
                }
            }
            other => errors.push(format!("buffer {} was not read: {:?}", n, other)),
        }
        if gate.status(true) != FlowStatus::Success {
            errors.push(format!("buffer {} failed", n));
        }
    }

    assert_eq!(sink.stop(), StopReport { abort_server: true, peers_dropped: 0 });
    assert!(errors.is_empty(), "Pipeline errors: {:?}", errors);
}

#[test]
fn test_websink_sample_h264() {
    println!("Testing H.264 Sample Mode");
    run_pipeline(FormatDescriptor::new("video/x-h264", None), 8087, VideoCodec::H264, StreamMode::Sample);
}

#[test]
fn test_websink_rtp_h264() {
    println!("Testing H.264 RTP Mode");
    run_pipeline(
        FormatDescriptor::new("application/x-rtp", Some("H264")),
        8088,
        VideoCodec::H264,
        StreamMode::Rtp,
    );
}

#[test]
fn test_websink_rtp_vp8() {
    println!("Testing VP8 RTP Mode");
    run_pipeline(
        FormatDescriptor::new("application/x-rtp", Some("VP8")),
        8089,
        VideoCodec::VP8,
        StreamMode::Rtp,
    );
}

#[test]
fn test_websink_rtp_vp9() {
    println!("Testing VP9 RTP Mode");
    run_pipeline(
        FormatDescriptor::new("application/x-rtp", Some("VP9")),
        8090,
        VideoCodec::VP9,
        StreamMode::Rtp,
    );
}

#[test]
fn test_websink_sample_vp8() {
    println!("Testing VP8 Sample Mode");
    run_pipeline(FormatDescriptor::new("video/x-vp8", None), 8091, VideoCodec::VP8, StreamMode::Sample);
}

#[test]
fn test_websink_sample_vp9() {
    println!("Testing VP9 Sample Mode");
    run_pipeline(FormatDescriptor::new("video/x-vp9", None), 8092, VideoCodec::VP9, StreamMode::Sample);
}
