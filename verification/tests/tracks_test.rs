use websink::codec::{StreamMode, VideoCodec};
use websink::error::SinkError;
use websink::tracks::{TrackRegistry, VideoTrack};

#[test]
fn new_registry_is_empty() {
    let registry = TrackRegistry::new();
    assert_eq!(registry.len(), 0);
    assert_eq!(registry.pad_count(), 0);
    assert!(registry.lookup("sink_0").is_none());
    assert!(registry.live_indices().is_empty());
}

#[test]
fn bind_appends_a_track_named_after_the_pad() {
    let mut registry = TrackRegistry::new();
    assert_eq!(registry.bind("sink_0", VideoCodec::H264, StreamMode::Sample), Ok(0));
    assert_eq!(registry.bind("sink_1", VideoCodec::VP8, StreamMode::Rtp), Ok(1));
    assert_eq!(registry.len(), 2);
    let track = registry.lookup("sink_0").unwrap();
    assert_eq!(track.track_id(), "track_sink_0");
    assert_eq!(track.stream_id(), "stream_sink_0");
    assert_eq!(track.codec(), VideoCodec::H264);
    assert_eq!(track.mode(), StreamMode::Sample);
    assert_eq!(track.codec_mime_type(), "video/H264");
    let track = registry.lookup("sink_1").unwrap();
    assert_eq!(track.track_id(), "track_sink_1");
    assert_eq!(track.stream_id(), "stream_sink_1");
    assert_eq!(track.mode(), StreamMode::Rtp);
    assert_eq!(track.codec_mime_type(), "video/VP8");
    assert_eq!(registry.track_index("sink_1"), Some(1));
    assert_eq!(registry.format_of("sink_1"), Some((VideoCodec::VP8, StreamMode::Rtp)));
}

#[test]
fn bind_with_the_same_format_reuses_the_track() {
    let mut registry = TrackRegistry::new();
    assert_eq!(registry.bind("sink_0", VideoCodec::H264, StreamMode::Sample), Ok(0));
    assert_eq!(registry.bind("sink_0", VideoCodec::H264, StreamMode::Sample), Ok(0));
    assert_eq!(registry.len(), 1);
    assert_eq!(registry.pad_count(), 1);
}

#[test]
fn bind_with_another_format_is_bad_renegotiation() {
    let mut registry = TrackRegistry::new();
    assert_eq!(registry.bind("sink_0", VideoCodec::H264, StreamMode::Sample), Ok(0));
    assert_eq!(
        registry.bind("sink_0", VideoCodec::H265, StreamMode::Sample),
        Err(SinkError::BadRenegotiation)
    );
    assert_eq!(
        registry.bind("sink_0", VideoCodec::H264, StreamMode::Rtp),
        Err(SinkError::BadRenegotiation)
    );
    assert_eq!(registry.len(), 1);
    assert_eq!(registry.format_of("sink_0"), Some((VideoCodec::H264, StreamMode::Sample)));
}

#[test]
fn unbind_marks_the_track_removed() {
    let mut registry = TrackRegistry::new();
    registry.bind("sink_0", VideoCodec::H264, StreamMode::Sample).unwrap();
    registry.bind("sink_1", VideoCodec::VP9, StreamMode::Sample).unwrap();
    assert_eq!(registry.unbind("sink_0"), Some(0));
    assert!(registry.lookup("sink_0").is_none());
    assert!(registry.track(0).is_none());
    assert!(registry.track(1).is_some());
    assert_eq!(registry.len(), 2);
    assert_eq!(registry.pad_count(), 1);
    assert_eq!(registry.live_indices(), vec![1]);
    assert_eq!(registry.unbind("sink_0"), None);
    assert_eq!(registry.unbind("nowhere"), None);
}

#[test]
fn a_released_pad_gets_a_new_track_when_bound_again() {
    let mut registry = TrackRegistry::new();
    registry.bind("sink_0", VideoCodec::H264, StreamMode::Sample).unwrap();
    registry.unbind("sink_0");
    assert_eq!(registry.bind("sink_0", VideoCodec::VP8, StreamMode::Rtp), Ok(1));
    assert_eq!(registry.live_indices(), vec![1]);
    assert_eq!(registry.lookup("sink_0").unwrap().codec(), VideoCodec::VP8);
}

#[test]
fn requested_pad_has_no_track_until_bound() {
    let mut registry = TrackRegistry::new();
    registry.request("sink_0");
    registry.request("sink_0");
    assert_eq!(registry.pad_count(), 1);
    assert_eq!(registry.track_index("sink_0"), None);
    assert_eq!(registry.format_of("sink_0"), None);
    assert_eq!(registry.bind("sink_0", VideoCodec::H265, StreamMode::Rtp), Ok(0));
    assert_eq!(registry.pad_count(), 1);
    assert_eq!(registry.track_index("sink_0"), Some(0));
}

#[test]
fn bound_pads_and_live_tracks_agree_after_any_calls() {
    let mut registry = TrackRegistry::new();
    let pads = ["a", "b", "c", "d"];
    let script: [(bool, usize); 12] = [
        (true, 0), (true, 1), (false, 0), (true, 2), (true, 0), (false, 1),
        (false, 3), (true, 3), (false, 2), (true, 1), (false, 0), (true, 0),
    ];
    for (bind, pad) in script {
        if bind {
            registry.bind(pads[pad], VideoCodec::H264, StreamMode::Sample).unwrap();
        } else {
            registry.unbind(pads[pad]);
        }
        let mut bound: Vec<usize> = pads.iter().filter_map(|p| registry.track_index(p)).collect();
        bound.sort();
        assert_eq!(bound, registry.live_indices());
        for index in 0..registry.len() {
            assert_eq!(registry.track(index).is_some(), bound.contains(&index));
        }
    }
}

#[test]
fn clear_forgets_everything() {
    let mut registry = TrackRegistry::new();
    registry.bind("sink_0", VideoCodec::H264, StreamMode::Sample).unwrap();
    registry.clear();
    assert_eq!(registry.len(), 0);
    assert_eq!(registry.pad_count(), 0);
    assert!(registry.lookup("sink_0").is_none());
}

#[test]
fn a_track_knows_its_ids() {
    let track = VideoTrack::new("cam", VideoCodec::VP9, StreamMode::Rtp);
    assert_eq!(track.track_id(), "track_cam");
    assert_eq!(track.stream_id(), "stream_cam");
    assert_eq!(track.codec_mime_type(), "video/VP9");
    assert!(matches!(track, VideoTrack::Rtp(_)));
    assert!(matches!(VideoTrack::new("cam", VideoCodec::VP9, StreamMode::Sample), VideoTrack::Sample(_)));
}

#[test]
fn bindings_list_what_is_known_of_every_pad() {
    let mut registry = TrackRegistry::new();
    registry.request("sink_0");
    registry.bind("sink_1", VideoCodec::VP8, StreamMode::Rtp).unwrap();
    let bindings = registry.bindings();
    assert_eq!(bindings.len(), 2);
    assert_eq!(bindings[0].pad_name, "sink_0");
    assert_eq!(bindings[0].format, None);
    assert_eq!(bindings[0].track_index, None);
    assert_eq!(bindings[1].pad_name, "sink_1");
    assert_eq!(bindings[1].format, Some((VideoCodec::VP8, StreamMode::Rtp)));
    assert_eq!(bindings[1].track_index, Some(0));
}
