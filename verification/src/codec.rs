//! Codecs, stream modes and the classification of upstream formats.

use vstd::prelude::*;
use crate::text::{lowered, same_text, uppered};

verus! {

/// The video codecs the sink can send.
#[derive(Debug, Clone, Copy, PartialEq, Eq, Structural)]
pub enum VideoCodec {
    H264,
    H265,
    VP8,
    VP9,
}

/// How the buffers of one input are to be read.
#[derive(Debug, Clone, Copy, PartialEq, Eq, Structural)]
pub enum StreamMode {
    /// Each buffer is one encoded access unit, packetised on the way out.
    Sample,
    /// Each buffer is an RTP packet, forwarded as it is.
    Rtp,
}

/// What an upstream format event announces: the media type and, for generic
/// RTP, the `encoding-name` field when it holds a string.
#[derive(Debug, Clone, PartialEq, Eq)]
pub struct FormatDescriptor {
    pub media_type: String,
    pub encoding_name: Option<String>,
}

/// The mathematical content of a [`FormatDescriptor`].
pub struct FormatView {
    pub media_type: Seq<char>,
    pub encoding_name: Option<Seq<char>>,
}

impl View for FormatDescriptor {
    type V = FormatView;

    open spec fn view(&self) -> FormatView {
        FormatView {
            media_type: self.media_type@,
            encoding_name: match self.encoding_name {
                Some(e) => Some(e@),
                None => None,
            },
        }
    }
}

/// The media type of generic RTP.
pub open spec fn rtp_media_type() -> Seq<char> {
    "application/x-rtp"@
}

impl VideoCodec {
    /// The name a codec goes by in RTP: the value of `encoding-name`, and the
    /// subtype of its MIME string.
    pub open spec fn encoding_name(self) -> Seq<char> {
        match self {
            VideoCodec::H264 => "H264"@,
            VideoCodec::H265 => "H265"@,
            VideoCodec::VP8 => "VP8"@,
            VideoCodec::VP9 => "VP9"@,
        }
    }

    /// The media type under which a codec arrives as raw access units.
    pub open spec fn sample_media_type(self) -> Seq<char> {
        match self {
            VideoCodec::H264 => "video/x-h264"@,
            VideoCodec::H265 => "video/x-h265"@,
            VideoCodec::VP8 => "video/x-vp8"@,
            VideoCodec::VP9 => "video/x-vp9"@,
        }
    }

    /// The fixed MIME string of a codec.
    pub open spec fn mime(self) -> Seq<char> {
        match self {
            VideoCodec::H264 => "video/H264"@,
            VideoCodec::H265 => "video/H265"@,
            VideoCodec::VP8 => "video/VP8"@,
            VideoCodec::VP9 => "video/VP9"@,
        }
    }

    /// The MIME string in lower case, as a signalling response reports it.
    pub open spec fn mime_lower(self) -> Seq<char> {
        match self {
            VideoCodec::H264 => "video/h264"@,
            VideoCodec::H265 => "video/h265"@,
            VideoCodec::VP8 => "video/vp8"@,
            VideoCodec::VP9 => "video/vp9"@,
        }
    }

    /// The MIME string in upper case, as an error message quotes it.
    pub open spec fn mime_upper(self) -> Seq<char> {
        match self {
            VideoCodec::H264 => "VIDEO/H264"@,
            VideoCodec::H265 => "VIDEO/H265"@,
            VideoCodec::VP8 => "VIDEO/VP8"@,
            VideoCodec::VP9 => "VIDEO/VP9"@,
        }
    }

    /// The name of a codec for people.
    pub open spec fn display_name(self) -> Seq<char> {
        match self {
            VideoCodec::H264 => "H.264"@,
            VideoCodec::H265 => "H.265/HEVC"@,
            VideoCodec::VP8 => "VP8"@,
            VideoCodec::VP9 => "VP9"@,
        }
    }

    /// The codec whose RTP name is `name`, if there is one.
    pub open spec fn of_encoding_name(name: Seq<char>) -> Option<VideoCodec> {
        if name == VideoCodec::H264.encoding_name() {
            Some(VideoCodec::H264)
        } else if name == VideoCodec::H265.encoding_name() {
            Some(VideoCodec::H265)
        } else if name == VideoCodec::VP8.encoding_name() {
            Some(VideoCodec::VP8)
        } else if name == VideoCodec::VP9.encoding_name() {
            Some(VideoCodec::VP9)
        } else {
            None
        }
    }

    /// The codec that arrives as raw access units under `media_type`, if there is one.
    pub open spec fn of_sample_media_type(media_type: Seq<char>) -> Option<VideoCodec> {
        if media_type == VideoCodec::H264.sample_media_type() {
            Some(VideoCodec::H264)
        } else if media_type == VideoCodec::H265.sample_media_type() {
            Some(VideoCodec::H265)
        } else if media_type == VideoCodec::VP8.sample_media_type() {
            Some(VideoCodec::VP8)
        } else if media_type == VideoCodec::VP9.sample_media_type() {
            Some(VideoCodec::VP9)
        } else {
            None
        }
    }

    /// The MIME string used when codec capabilities are negotiated.
    pub fn mime_type(&self) -> (r: &'static str)
        ensures
            r@ == self.mime(),
    {
        match self {
            VideoCodec::H264 => "video/H264",
            VideoCodec::H265 => "video/H265",
            VideoCodec::VP8 => "video/VP8",
            VideoCodec::VP9 => "video/VP9",
        }
    }

    /// The MIME string in lower case.
    pub fn mime_type_lower(&self) -> (r: &'static str)
        ensures
            r@ == self.mime_lower(),
    {
        match self {
            VideoCodec::H264 => "video/h264",
            VideoCodec::H265 => "video/h265",
            VideoCodec::VP8 => "video/vp8",
            VideoCodec::VP9 => "video/vp9",
        }
    }

    /// The MIME string in upper case.
    pub fn mime_type_upper(&self) -> (r: &'static str)
        ensures
            r@ == self.mime_upper(),
    {
        match self {
            VideoCodec::H264 => "VIDEO/H264",
            VideoCodec::H265 => "VIDEO/H265",
            VideoCodec::VP8 => "VIDEO/VP8",
            VideoCodec::VP9 => "VIDEO/VP9",
        }
    }

    /// A name for people.
    pub fn name(&self) -> (r: &'static str)
        ensures
            r@ == self.display_name(),
    {
        match self {
            VideoCodec::H264 => "H.264",
            VideoCodec::H265 => "H.265/HEVC",
            VideoCodec::VP8 => "VP8",
            VideoCodec::VP9 => "VP9",
        }
    }

    /// Tells codec and stream mode from a format descriptor; `None` means the
    /// format is not supported.
    pub fn from_caps(caps: &FormatDescriptor) -> (r: Option<(VideoCodec, StreamMode)>)
        ensures
            r == classify(caps@),
    {
        let media_type = caps.media_type.as_str();
        if same_text(media_type, "video/x-h264") {
            Some((VideoCodec::H264, StreamMode::Sample))
        } else if same_text(media_type, "video/x-h265") {
            Some((VideoCodec::H265, StreamMode::Sample))
        } else if same_text(media_type, "video/x-vp8") {
            Some((VideoCodec::VP8, StreamMode::Sample))
        } else if same_text(media_type, "video/x-vp9") {
            Some((VideoCodec::VP9, StreamMode::Sample))
        } else if same_text(media_type, "application/x-rtp") {
            match &caps.encoding_name {
                Some(name) => {
                    let name = name.as_str();
                    if same_text(name, "H264") {
                        Some((VideoCodec::H264, StreamMode::Rtp))
                    } else if same_text(name, "H265") {
                        Some((VideoCodec::H265, StreamMode::Rtp))
                    } else if same_text(name, "VP8") {
                        Some((VideoCodec::VP8, StreamMode::Rtp))
                    } else if same_text(name, "VP9") {
                        Some((VideoCodec::VP9, StreamMode::Rtp))
                    } else {
                        None
                    }
                },
                None => None,
            }
        } else {
            None
        }
    }
}

impl FormatDescriptor {
    /// A descriptor with the given media type and `encoding-name`.
    pub fn new(media_type: &str, encoding_name: Option<&str>) -> (r: FormatDescriptor)
        ensures
            r@.media_type == media_type@,
            r@.encoding_name == match encoding_name {
                Some(e) => Some(e@),
                None => None,
            },
    {
        FormatDescriptor {
            media_type: media_type.to_owned(),
            encoding_name: match encoding_name {
                Some(e) => Some(e.to_owned()),
                None => None,
            },
        }
    }
}

/// The classification of a format: raw access units of a codec under the
/// codec's own media type; RTP packets under the generic RTP media type with a
/// known `encoding-name`; nothing else.
pub open spec fn classify(d: FormatView) -> Option<(VideoCodec, StreamMode)> {
    match VideoCodec::of_sample_media_type(d.media_type) {
        Some(codec) => Some((codec, StreamMode::Sample)),
        None => if d.media_type == rtp_media_type() {
            match d.encoding_name {
                Some(name) => match VideoCodec::of_encoding_name(name) {
                    Some(codec) => Some((codec, StreamMode::Rtp)),
                    None => None,
                },
                None => None,
            }
        } else {
            None
        },
    }
}

/// The texts that stand for a codec are what the fixed table says: the MIME
/// string is `video/` and the RTP name, its lower and upper case forms are
/// what their names say, and the names of two codecs differ.
pub proof fn lemma_codec_table(c: VideoCodec)
    ensures
        c.mime() == "video/"@ + c.encoding_name(),
        c.mime_lower() == lowered(c.mime()),
        c.mime_upper() == uppered(c.mime()),
        VideoCodec::of_encoding_name(c.encoding_name()) == Some(c),
        VideoCodec::of_sample_media_type(c.sample_media_type()) == Some(c),
        c.sample_media_type() != rtp_media_type(),
{
    reveal_strlit("video/");
    reveal_strlit("H264");
    reveal_strlit("H265");
    reveal_strlit("VP8");
    reveal_strlit("VP9");
    reveal_strlit("video/H264");
    reveal_strlit("video/H265");
    reveal_strlit("video/VP8");
    reveal_strlit("video/VP9");
    reveal_strlit("video/h264");
    reveal_strlit("video/h265");
    reveal_strlit("video/vp8");
    reveal_strlit("video/vp9");
    reveal_strlit("VIDEO/H264");
    reveal_strlit("VIDEO/H265");
    reveal_strlit("VIDEO/VP8");
    reveal_strlit("VIDEO/VP9");
    reveal_strlit("video/x-h264");
    reveal_strlit("video/x-h265");
    reveal_strlit("video/x-vp8");
    reveal_strlit("video/x-vp9");
    reveal_strlit("application/x-rtp");
    assert(c.mime() =~= "video/"@ + c.encoding_name());
    assert(c.mime_lower() =~= lowered(c.mime()));
    assert(c.mime_upper() =~= uppered(c.mime()));
    assert("H264"@[3] != "H265"@[3]);
    assert("VP8"@[2] != "VP9"@[2]);
    assert("video/x-h264"@[11] != "video/x-h265"@[11]);
    assert("video/x-vp8"@[10] != "video/x-vp9"@[10]);
    assert(c.sample_media_type()[0] != rtp_media_type()[0]);
}

/// Whatever the classifier accepts, it accepts under the fixed table: in
/// sample mode the media type is the codec's own, in RTP mode the media type is
/// generic RTP and the codec's MIME string is `video/` followed by the
/// `encoding-name`; and every entry of the table is accepted.
pub proof fn lemma_classifier_follows_table(d: FormatView)
    ensures
        match classify(d) {
            Some((codec, StreamMode::Sample)) => d.media_type == codec.sample_media_type(),
            Some((codec, StreamMode::Rtp)) => {
                &&& d.media_type == rtp_media_type()
                &&& d.encoding_name == Some(codec.encoding_name())
                &&& codec.mime() == "video/"@ + d.encoding_name->Some_0
            },
            None => forall|c: VideoCodec|
                {
                    &&& d.media_type != #[trigger] c.sample_media_type()
                    &&& !(d.media_type == rtp_media_type() && d.encoding_name == Some(
                        c.encoding_name(),
                    ))
                },
        },
{
    lemma_codec_table(VideoCodec::H264);
    lemma_codec_table(VideoCodec::H265);
    lemma_codec_table(VideoCodec::VP8);
    lemma_codec_table(VideoCodec::VP9);
}

} // verus!
