use websink::codec::{FormatDescriptor, StreamMode, VideoCodec};

fn classify(media_type: &str, encoding_name: Option<&str>) -> Option<(VideoCodec, StreamMode)> {
    VideoCodec::from_caps(&FormatDescriptor::new(media_type, encoding_name))
}

#[test]
fn raw_formats_are_sample_mode() {
    assert_eq!(classify("video/x-h264", None), Some((VideoCodec::H264, StreamMode::Sample)));
    assert_eq!(classify("video/x-h265", None), Some((VideoCodec::H265, StreamMode::Sample)));
    assert_eq!(classify("video/x-vp8", None), Some((VideoCodec::VP8, StreamMode::Sample)));
    assert_eq!(classify("video/x-vp9", None), Some((VideoCodec::VP9, StreamMode::Sample)));
}

#[test]
fn raw_formats_ignore_the_encoding_name() {
    assert_eq!(
        classify("video/x-h264", Some("VP8")),
        Some((VideoCodec::H264, StreamMode::Sample))
    );
}

#[test]
fn rtp_formats_go_by_encoding_name() {
    assert_eq!(classify("application/x-rtp", Some("H264")), Some((VideoCodec::H264, StreamMode::Rtp)));
    assert_eq!(classify("application/x-rtp", Some("H265")), Some((VideoCodec::H265, StreamMode::Rtp)));
    assert_eq!(classify("application/x-rtp", Some("VP8")), Some((VideoCodec::VP8, StreamMode::Rtp)));
    assert_eq!(classify("application/x-rtp", Some("VP9")), Some((VideoCodec::VP9, StreamMode::Rtp)));
}

#[test]
fn rtp_with_unknown_or_missing_encoding_name_is_unsupported() {
    assert_eq!(classify("application/x-rtp", Some("OPUS")), None);
    assert_eq!(classify("application/x-rtp", Some("h264")), None);
    assert_eq!(classify("application/x-rtp", Some("")), None);
    assert_eq!(classify("application/x-rtp", None), None);
}

#[test]
fn other_media_types_are_unsupported() {
    assert_eq!(classify("audio/mpeg", None), None);
    assert_eq!(classify("video/x-raw", None), None);
    assert_eq!(classify("video/x-H264", None), None);
    assert_eq!(classify("", Some("H264")), None);
    assert_eq!(classify("video/x-h2645", None), None);
}

#[test]
fn mime_strings_are_those_of_the_engine() {
    assert_eq!(VideoCodec::H264.mime_type(), webrtc::api::media_engine::MIME_TYPE_H264);
    assert_eq!(VideoCodec::H265.mime_type(), webrtc::api::media_engine::MIME_TYPE_HEVC);
    assert_eq!(VideoCodec::VP8.mime_type(), webrtc::api::media_engine::MIME_TYPE_VP8);
    assert_eq!(VideoCodec::VP9.mime_type(), webrtc::api::media_engine::MIME_TYPE_VP9);
}

#[test]
fn mime_table_is_fixed() {
    assert_eq!(VideoCodec::H264.mime_type(), "video/H264");
    assert_eq!(VideoCodec::H265.mime_type(), "video/H265");
    assert_eq!(VideoCodec::VP8.mime_type(), "video/VP8");
    assert_eq!(VideoCodec::VP9.mime_type(), "video/VP9");
}

#[test]
fn mime_case_forms_agree_with_std() {
    for codec in [VideoCodec::H264, VideoCodec::H265, VideoCodec::VP8, VideoCodec::VP9] {
        assert_eq!(codec.mime_type_lower(), codec.mime_type().to_lowercase());
        assert_eq!(codec.mime_type_upper(), codec.mime_type().to_uppercase());
    }
}

#[test]
fn classified_codec_has_the_mime_of_its_encoding_name() {
    for name in ["H264", "H265", "VP8", "VP9"] {
        let (codec, mode) = classify("application/x-rtp", Some(name)).unwrap();
        assert_eq!(mode, StreamMode::Rtp);
        assert_eq!(codec.mime_type(), format!("video/{}", name));
    }
}

#[test]
fn codec_names_for_people() {
    assert_eq!(VideoCodec::H264.name(), "H.264");
    assert_eq!(VideoCodec::H265.name(), "H.265/HEVC");
    assert_eq!(VideoCodec::VP8.name(), "VP8");
    assert_eq!(VideoCodec::VP9.name(), "VP9");
}
