//! The failures the sink can report.

use vstd::prelude::*;
use vstd::string::StringExecFns;

verus! {

/// What a signalling request found missing.
#[derive(Debug, Clone, Copy, PartialEq, Eq, Structural)]
pub enum Missing {
    /// The sink was not started, so there is no WebRTC configuration.
    Configuration,
    /// No pad has announced its format, so there is no track.
    Track,
}

/// Everything that can go wrong in the sink, by kind.
#[derive(Debug, Clone, PartialEq, Eq)]
pub enum SinkError {
    /// The upstream format is none of the accepted ones.
    UnsupportedFormat,
    /// A pad that already feeds a track announced another format.
    BadRenegotiation,
    /// A signalling request arrived before the sink had a configuration and a track.
    NotReady(Missing),
    /// The peer cannot decode what the sink sends; the field is the MIME
    /// string of the codec in upper case.
    UnsupportedCodec(String),
    /// No candidate port could be bound.
    NoPortAvailable,
    /// The asynchronous runtime could not be created.
    RuntimeInitFailed,
    /// An inbound buffer did not hold an RTP packet.
    ParseFailure,
    /// An outbound track refused a write.
    WriteFailure,
    /// The media engine failed a negotiation step; the field is its message.
    Engine(String),
}

/// The mathematical content of a [`SinkError`].
pub enum ErrorView {
    UnsupportedFormat,
    BadRenegotiation,
    NotReady(Missing),
    UnsupportedCodec(Seq<char>),
    NoPortAvailable,
    RuntimeInitFailed,
    ParseFailure,
    WriteFailure,
    Engine(Seq<char>),
}

impl View for SinkError {
    type V = ErrorView;

    open spec fn view(&self) -> ErrorView {
        match self {
            SinkError::UnsupportedFormat => ErrorView::UnsupportedFormat,
            SinkError::BadRenegotiation => ErrorView::BadRenegotiation,
            SinkError::NotReady(m) => ErrorView::NotReady(*m),
            SinkError::UnsupportedCodec(mime) => ErrorView::UnsupportedCodec(mime@),
            SinkError::NoPortAvailable => ErrorView::NoPortAvailable,
            SinkError::RuntimeInitFailed => ErrorView::RuntimeInitFailed,
            SinkError::ParseFailure => ErrorView::ParseFailure,
            SinkError::WriteFailure => ErrorView::WriteFailure,
            SinkError::Engine(text) => ErrorView::Engine(text@),
        }
    }
}

impl ErrorView {
    /// The text of an error, as it is logged and sent to a client.
    pub open spec fn text(self) -> Seq<char> {
        match self {
            ErrorView::UnsupportedFormat => "Unsupported video format"@,
            ErrorView::BadRenegotiation => "Format changed on a pad that feeds a track"@,
            ErrorView::NotReady(Missing::Configuration) => "WebRTC config not initialized"@,
            ErrorView::NotReady(Missing::Track) => "Video track not initialized"@,
            ErrorView::UnsupportedCodec(mime) => "Server is sending "@ + mime
                + ". Codec is not supported by browser."@,
            ErrorView::NoPortAvailable => "No available port found"@,
            ErrorView::RuntimeInitFailed => "Failed to create the runtime"@,
            ErrorView::ParseFailure => "Failed to parse RTP packet"@,
            ErrorView::WriteFailure => "Failed to write to track"@,
            ErrorView::Engine(text) => text,
        }
    }
}

impl SinkError {
    /// The text of the error.
    pub fn message(&self) -> (r: String)
        ensures
            r@ == self@.text(),
    {
        match self {
            SinkError::UnsupportedFormat => String::from_str("Unsupported video format"),
            SinkError::BadRenegotiation => String::from_str(
                "Format changed on a pad that feeds a track",
            ),
            SinkError::NotReady(Missing::Configuration) => String::from_str(
                "WebRTC config not initialized",
            ),
            SinkError::NotReady(Missing::Track) => String::from_str("Video track not initialized"),
            SinkError::UnsupportedCodec(mime) => String::from_str("Server is sending ").concat(
                mime.as_str(),
            ).concat(". Codec is not supported by browser."),
            SinkError::NoPortAvailable => String::from_str("No available port found"),
            SinkError::RuntimeInitFailed => String::from_str("Failed to create the runtime"),
            SinkError::ParseFailure => String::from_str("Failed to parse RTP packet"),
            SinkError::WriteFailure => String::from_str("Failed to write to track"),
            SinkError::Engine(text) => text.clone(),
        }
    }
}

} // verus!
