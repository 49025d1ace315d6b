//! The sink element: its settings, its pads and its two states.
//!
//! The element is idle until it is started and ready from then on until it is
//! stopped. Settings can be changed at any time; a start reads them, so a
//! change shows at the next start. Pads are handed out on request, each with
//! a number of its own.

use vstd::prelude::*;
use vstd::string::StringExecFns;
use crate::codec::{classify, FormatDescriptor, StreamMode, VideoCodec};
use crate::error::{Missing, SinkError};
use crate::forward::{admission, screen, Admission};
use crate::peers::{observed, with_session, ConnectionState, PeerRegistry};
use crate::port::{find_available_port, search_outcome};
use crate::signal::{
    conclude,
    is_uuid_v4,
    servers_of,
    Established,
    IceConfig,
    Negotiation,
    Phase,
    SessionRequest,
    Step,
    StepView,
};
use crate::text::{decimal, lemma_decimal_reads_back, same_text, to_decimal};
use crate::tracks::{lists_in_order, RegistryView, TrackRegistry};

verus! {

/// The port the HTTP server asks for unless told otherwise.
pub const DEFAULT_PORT: u16 = 8091;

/// The STUN server that is used unless told otherwise.
pub open spec fn default_stun_server() -> Seq<char> {
    "stun:stun.l.google.com:19302"@
}

/// What the operator can set.
#[derive(Debug, Clone, PartialEq, Eq)]
pub struct Settings {
    /// The port to listen on; 0 asks for any free port.
    pub port: u16,
    /// The URI of the STUN server; empty for none.
    pub stun_server: String,
    /// Whether buffers are skipped unread while no peer is attached.
    pub is_live: bool,
}

/// The mathematical content of [`Settings`].
pub struct SettingsView {
    pub port: u16,
    pub stun_server: Seq<char>,
    pub is_live: bool,
}

impl View for Settings {
    type V = SettingsView;

    open spec fn view(&self) -> SettingsView {
        SettingsView { port: self.port, stun_server: self.stun_server@, is_live: self.is_live }
    }
}

impl Default for Settings {
    fn default() -> (r: Settings)
        ensures
            r@ == (SettingsView {
                port: DEFAULT_PORT,
                stun_server: default_stun_server(),
                is_live: false,
            }),
    {
        Settings {
            port: DEFAULT_PORT,
            stun_server: String::from_str("stun:stun.l.google.com:19302"),
            is_live: false,
        }
    }
}

/// The properties of the element.
#[derive(Debug, Clone, Copy, PartialEq, Eq, Structural)]
pub enum Property {
    Port,
    StunServer,
    IsLive,
}

impl Property {
    /// The name of the property.
    pub open spec fn label(self) -> Seq<char> {
        match self {
            Property::Port => "port"@,
            Property::StunServer => "stun-server"@,
            Property::IsLive => "is-live"@,
        }
    }

    /// The property that goes by `name`, if there is one.
    pub open spec fn of_name(name: Seq<char>) -> Option<Property> {
        if name == Property::Port.label() {
            Some(Property::Port)
        } else if name == Property::StunServer.label() {
            Some(Property::StunServer)
        } else if name == Property::IsLive.label() {
            Some(Property::IsLive)
        } else {
            None
        }
    }

    /// The name of the property.
    pub fn name(&self) -> (r: &'static str)
        ensures
            r@ == self.label(),
    {
        match self {
            Property::Port => "port",
            Property::StunServer => "stun-server",
            Property::IsLive => "is-live",
        }
    }

    /// Finds a property by its name.
    pub fn from_name(name: &str) -> (r: Option<Property>)
        ensures
            r == Property::of_name(name@),
    {
        if same_text(name, "port") {
            Some(Property::Port)
        } else if same_text(name, "stun-server") {
            Some(Property::StunServer)
        } else if same_text(name, "is-live") {
            Some(Property::IsLive)
        } else {
            None
        }
    }
}

/// The value of a property.
#[derive(Debug, Clone, PartialEq, Eq)]
pub enum PropertyValue {
    UInt(u32),
    Text(Option<String>),
    Flag(bool),
}

impl PropertyValue {
    /// Whether the value is of the type of `property`.
    pub open spec fn fits(self, property: Property) -> bool {
        match property {
            Property::Port => self is UInt,
            Property::StunServer => self is Text,
            Property::IsLive => self is Flag,
        }
    }
}

/// The port that a property value stands for: its low 16 bits.
pub open spec fn port_of(value: u32) -> u16 {
    (value % 0x1_0000) as u16
}

impl SettingsView {
    /// The settings after `property` was set to `value`. A port keeps its low
    /// 16 bits; a STUN server that is not given falls back to the default.
    pub open spec fn with(self, property: Property, value: PropertyValue) -> SettingsView {
        match (property, value) {
            (Property::Port, PropertyValue::UInt(v)) => SettingsView { port: port_of(v), ..self },
            (Property::StunServer, PropertyValue::Text(Some(s))) => SettingsView {
                stun_server: s@,
                ..self
            },
            (Property::StunServer, PropertyValue::Text(None)) => SettingsView {
                stun_server: default_stun_server(),
                ..self
            },
            (Property::IsLive, PropertyValue::Flag(b)) => SettingsView { is_live: b, ..self },
            _ => self,
        }
    }

    /// Whether `value` is what reading `property` gives.
    pub open spec fn shows(self, property: Property, value: PropertyValue) -> bool {
        match property {
            Property::Port => value == PropertyValue::UInt(self.port as u32),
            Property::StunServer => value matches PropertyValue::Text(Some(s)) && s@
                == self.stun_server,
            Property::IsLive => value == PropertyValue::Flag(self.is_live),
        }
    }
}

impl Settings {
    /// Sets a property.
    pub fn set_property(&mut self, property: Property, value: PropertyValue)
        requires
            value.fits(property),
        ensures
            final(self)@ == old(self)@.with(property, value),
    {
        match value {
            PropertyValue::UInt(v) => {
                self.port = (v % 0x1_0000) as u16;
            },
            PropertyValue::Text(Some(s)) => {
                self.stun_server = s;
            },
            PropertyValue::Text(None) => {
                self.stun_server = String::from_str("stun:stun.l.google.com:19302");
            },
            PropertyValue::Flag(b) => {
                self.is_live = b;
            },
        }
    }

    /// Reads a property.
    pub fn property(&self, property: Property) -> (r: PropertyValue)
        ensures
            self@.shows(property, r),
            r.fits(property),
    {
        match property {
            Property::Port => PropertyValue::UInt(self.port as u32),
            Property::StunServer => PropertyValue::Text(Some(self.stun_server.clone())),
            Property::IsLive => PropertyValue::Flag(self.is_live),
        }
    }
}

/// What the element shares between the pipeline and the runtime.
pub struct State {
    /// Whether the element is started.
    pub running: bool,
    /// The port the HTTP server got, while it is up.
    pub server_port: Option<u16>,
    /// The sessions that are alive.
    pub peer_connections: PeerRegistry,
    /// The tracks and the pads that feed them.
    pub tracks: TrackRegistry,
    /// The configuration new peer connections are created with.
    pub webrtc_config: Option<IceConfig>,
}

impl State {
    /// Whether the registries meet their invariants.
    pub open spec fn wf(&self) -> bool {
        &&& self.peer_connections.wf()
        &&& self.tracks.wf()
    }

    /// Whether nothing is left of a running element.
    pub open spec fn is_idle(&self) -> bool {
        &&& !self.running
        &&& self.server_port is None
        &&& self.webrtc_config is None
        &&& self.peer_connections@.len() == 0
        &&& self.tracks@ == RegistryView::empty()
    }

    /// What the forwarder needs to know of `pad`: the index and the mode of
    /// the track it feeds, if it feeds one.
    pub open spec fn feed_of(&self, pad: Seq<char>) -> Option<(usize, StreamMode)> {
        match self.tracks@.track_of(pad) {
            Some(t) => Some((t as usize, self.tracks@.slots[t].track.mode)),
            None => None,
        }
    }
}

impl Default for State {
    fn default() -> (r: State)
        ensures
            r.wf(),
            r.is_idle(),
    {
        State {
            running: false,
            server_port: None,
            peer_connections: PeerRegistry::new(),
            tracks: TrackRegistry::new(),
            webrtc_config: None,
        }
    }
}

/// What stopping the element asks of the caller, and what it dropped.
#[derive(Debug, Clone, Copy, PartialEq, Eq, Structural)]
pub struct StopReport {
    /// Whether there is a server task to abort.
    pub abort_server: bool,
    /// How many peer sessions were dropped.
    pub peers_dropped: usize,
}

/// The name of the pad with the number `n`.
pub open spec fn pad_name(n: u32) -> Seq<char> {
    "sink_"@ + decimal(n as nat)
}

/// The sink element.
pub struct WebSink {
    pub settings: Settings,
    pub state: State,
    /// The number of the next pad that is handed out.
    pub next_pad: u32,
}

impl Default for WebSink {
    fn default() -> (r: WebSink)
        ensures
            r.wf(),
            r.state.is_idle(),
            r.next_pad == 0,
            r.settings@ == (SettingsView {
                port: DEFAULT_PORT,
                stun_server: default_stun_server(),
                is_live: false,
            }),
    {
        WebSink { settings: Settings::default(), state: State::default(), next_pad: 0 }
    }
}

impl WebSink {
    /// Whether the element is in order.
    pub open spec fn wf(&self) -> bool {
        self.state.wf()
    }

    /// Sets a property. The state of a running element does not change: the
    /// new value is read at the next start.
    pub fn set_property(&mut self, property: Property, value: PropertyValue)
        requires
            value.fits(property),
        ensures
            final(self).settings@ == old(self).settings@.with(property, value),
            final(self).state == old(self).state,
            final(self).next_pad == old(self).next_pad,
    {
        self.settings.set_property(property, value);
    }

    /// Reads a property.
    pub fn property(&self, property: Property) -> (r: PropertyValue)
        ensures
            self.settings@.shows(property, r),
            r.fits(property),
    {
        self.settings.property(property)
    }

    /// Hands out a new input pad, named `sink_` and its number. The numbers
    /// rise by one from 0; when they are used up, there is no pad.
    pub fn request_pad(&mut self) -> (r: Option<String>)
        requires
            old(self).wf(),
        ensures
            final(self).wf(),
            final(self).settings == old(self).settings,
            final(self).state.running == old(self).state.running,
            final(self).state.server_port == old(self).state.server_port,
            final(self).state.webrtc_config == old(self).state.webrtc_config,
            final(self).state.peer_connections == old(self).state.peer_connections,
            match r {
                Some(name) => {
                    &&& old(self).next_pad < u32::MAX
                    &&& name@ == pad_name(old(self).next_pad)
                    &&& final(self).next_pad == old(self).next_pad + 1
                    &&& final(self).state.tracks@ == old(self).state.tracks@.request(name@)
                },
                None => {
                    &&& old(self).next_pad == u32::MAX
                    &&& final(self).next_pad == old(self).next_pad
                    &&& final(self).state.tracks@ == old(self).state.tracks@
                },
            },
    {
        if self.next_pad == u32::MAX {
            return None;
        }
        let name = String::from_str("sink_").concat(to_decimal(self.next_pad as u64).as_str());
        self.next_pad = self.next_pad + 1;
        self.state.tracks.request(name.as_str());
        Some(name)
    }

    /// Releases an input pad: its binding goes and its track is marked as
    /// removed. Returns the index of that track, if the pad fed one.
    pub fn release_pad(&mut self, pad: &str) -> (r: Option<usize>)
        requires
            old(self).wf(),
        ensures
            final(self).wf(),
            final(self).settings == old(self).settings,
            final(self).next_pad == old(self).next_pad,
            final(self).state.running == old(self).state.running,
            final(self).state.server_port == old(self).state.server_port,
            final(self).state.webrtc_config == old(self).state.webrtc_config,
            final(self).state.peer_connections == old(self).state.peer_connections,
            final(self).state.tracks@ == old(self).state.tracks@.unbind(pad@),
            match r {
                Some(t) => old(self).state.tracks@.track_of(pad@) == Some(t as int),
                None => old(self).state.tracks@.track_of(pad@) is None,
            },
    {
        self.state.tracks.unbind(pad)
    }

    /// Takes the element from idle to ready.
    ///
    /// The caller has tried to create the runtime and says whether it has
    /// one; without it nothing changes. With it, the configuration is made
    /// from the STUN setting, and a port is searched from the port setting on,
    /// through `bind`. The element counts as started even where no port was
    /// found; tracks and sessions stay as they are.
    pub fn start<B: Fn(u16) -> Option<u16>>(&mut self, runtime_ready: bool, bind: B) -> (r: Result<
        u16,
        SinkError,
    >)
        requires
            old(self).wf(),
            forall|p: u16| bind.requires((p,)),
        ensures
            final(self).wf(),
            final(self).settings == old(self).settings,
            final(self).next_pad == old(self).next_pad,
            final(self).state.peer_connections == old(self).state.peer_connections,
            final(self).state.tracks == old(self).state.tracks,
            !runtime_ready ==> {
                &&& r == Err::<u16, SinkError>(SinkError::RuntimeInitFailed)
                &&& final(self).state == old(self).state
            },
            runtime_ready ==> {
                &&& search_outcome(old(self).settings.port, bind, r)
                &&& final(self).state.running
                &&& final(self).state.webrtc_config matches Some(config) && config.servers()
                    == servers_of(old(self).settings.stun_server@)
                &&& final(self).state.server_port == match r {
                    Ok(port) => Some(port),
                    Err(_) => None,
                }
            },
    {
        if !runtime_ready {
            return Err(SinkError::RuntimeInitFailed);
        }
        self.state.running = true;
        self.state.webrtc_config = Some(IceConfig::from_stun(self.settings.stun_server.as_str()));
        let found = find_available_port(self.settings.port, bind);
        self.state.server_port = match &found {
            Ok(port) => Some(*port),
            Err(_) => None,
        };
        found
    }

    /// Takes the element from ready to idle: the server is to be aborted if
    /// it is up, every session and every track is dropped, and no pad feeds a
    /// track any more.
    pub fn stop(&mut self) -> (r: StopReport)
        ensures
            final(self).wf(),
            final(self).state.is_idle(),
            final(self).settings == old(self).settings,
            final(self).next_pad == old(self).next_pad,
            r.abort_server == old(self).state.server_port is Some,
            r.peers_dropped == old(self).state.peer_connections@.len(),
            forall|pad: Seq<char>| #[trigger] final(self).state.feed_of(pad) is None,
    {
        let abort_server = self.state.server_port.is_some();
        let peers_dropped = self.state.peer_connections.clear();
        self.state.tracks.clear();
        self.state.server_port = None;
        self.state.running = false;
        self.state.webrtc_config = None;
        StopReport { abort_server, peers_dropped }
    }

    /// Handles the format event of a pad. A format that is not supported is
    /// refused. While the element is idle nothing else happens. While it is
    /// ready the pad is bound to the format and the index of its track is
    /// returned; a pad that feeds a track in another format is refused.
    pub fn set_caps(&mut self, pad: &str, caps: &FormatDescriptor) -> (r: Result<
        Option<usize>,
        SinkError,
    >)
        requires
            old(self).wf(),
        ensures
            final(self).wf(),
            final(self).settings == old(self).settings,
            final(self).next_pad == old(self).next_pad,
            final(self).state.running == old(self).state.running,
            final(self).state.server_port == old(self).state.server_port,
            final(self).state.webrtc_config == old(self).state.webrtc_config,
            final(self).state.peer_connections == old(self).state.peer_connections,
            final(self).state.tracks@ == caps_effect(
                old(self).state.running,
                old(self).state.tracks@,
                pad@,
                classify(caps@),
            ).0,
            match r {
                Ok(Some(t)) => caps_effect(
                    old(self).state.running,
                    old(self).state.tracks@,
                    pad@,
                    classify(caps@),
                ).1 == Ok::<Option<int>, SinkError>(Some(t as int)),
                Ok(None) => caps_effect(
                    old(self).state.running,
                    old(self).state.tracks@,
                    pad@,
                    classify(caps@),
                ).1 == Ok::<Option<int>, SinkError>(None),
                Err(e) => caps_effect(
                    old(self).state.running,
                    old(self).state.tracks@,
                    pad@,
                    classify(caps@),
                ).1 == Err::<Option<int>, SinkError>(e),
            },
    {
        match VideoCodec::from_caps(caps) {
            None => Err(SinkError::UnsupportedFormat),
            Some((codec, mode)) => {
                if self.state.running {
                    match self.state.tracks.bind(pad, codec, mode) {
                        Ok(t) => Ok(Some(t)),
                        Err(e) => Err(e),
                    }
                } else {
                    Ok(None)
                }
            },
        }
    }

    /// Decides whether a buffer that arrived on `pad` is looked at.
    pub fn render_gate(&self, pad: &str) -> (r: Admission)
        requires
            self.wf(),
        ensures
            r == admission(
                self.settings.is_live,
                self.state.peer_connections@.len(),
                self.state.feed_of(pad@),
            ),
    {
        let peers = self.state.peer_connections.len();
        let feed: Option<(usize, StreamMode)> = match self.state.tracks.lookup(pad) {
            Some(track) => {
                let mode = track.mode();
                match self.state.tracks.track_index(pad) {
                    Some(t) => Some((t, mode)),
                    None => None,
                }
            },
            None => None,
        };
        screen(self.settings.is_live, peers, feed)
    }

    /// Starts a signalling exchange.
    pub fn begin_session(&self, request: SessionRequest) -> (r: Result<
        (Negotiation, Step),
        SinkError,
    >)
        requires
            self.wf(),
        ensures
            r is Ok <==> self.state.webrtc_config is Some && exists|t: int|
                self.state.tracks@.live_tracks().contains(t),
            r matches Err(e) ==> e == (if self.state.webrtc_config is None {
                SinkError::NotReady(Missing::Configuration)
            } else {
                SinkError::NotReady(Missing::Track)
            }),
            r matches Ok(pair) ==> {
                &&& pair.0@.wf()
                &&& pair.0@.phase == Phase::Engine
                &&& pair.1@ == StepView::BuildEngine
                &&& pair.0@.ice_servers == self.state.webrtc_config->Some_0.servers()
                &&& pair.0@.offer == request.offer@
                &&& lists_in_order(pair.0@.tracks, self.state.tracks@.live_tracks())
                &&& pair.0@.codec == self.state.tracks@.slots[pair.0@.tracks[0] as int].track.codec
            },
    {
        Negotiation::begin(self.state.webrtc_config.as_ref(), &self.state.tracks, request)
    }

    /// Enters the session whose final answer is `answer` under a new random
    /// id, and builds the response. The count in the result is the number of
    /// sessions after it, for notification.
    pub fn finish_session(&mut self, answer: String, codec: VideoCodec) -> (r: Established)
        requires
            old(self).wf(),
        ensures
            final(self).wf(),
            final(self).settings == old(self).settings,
            final(self).next_pad == old(self).next_pad,
            final(self).state.running == old(self).state.running,
            final(self).state.server_port == old(self).state.server_port,
            final(self).state.webrtc_config == old(self).state.webrtc_config,
            final(self).state.tracks == old(self).state.tracks,
            is_uuid_v4(r.response.session_id@),
            final(self).state.peer_connections@ == with_session(
                old(self).state.peer_connections@,
                r.response.session_id@,
            ),
            r.peer_count == final(self).state.peer_connections@.len(),
            r.response.answer@ == answer@,
            r.response.negotiated_codec matches Some(mime) && mime@ == codec.mime_lower(),
    {
        conclude(&mut self.state.peer_connections, answer, codec)
    }

    /// Takes note that the connection of the session `id` is in `state`. A
    /// session that is disconnected, failed or closed leaves the registry, and
    /// the number of sessions that are left is returned for notification.
    pub fn peer_state_changed(&mut self, id: &str, state: ConnectionState) -> (notify: Option<
        usize,
    >)
        requires
            old(self).wf(),
        ensures
            final(self).wf(),
            final(self).settings == old(self).settings,
            final(self).next_pad == old(self).next_pad,
            final(self).state.running == old(self).state.running,
            final(self).state.server_port == old(self).state.server_port,
            final(self).state.webrtc_config == old(self).state.webrtc_config,
            final(self).state.tracks == old(self).state.tracks,
            final(self).state.peer_connections@ == observed(
                old(self).state.peer_connections@,
                id@,
                state,
            ).0,
            match notify {
                Some(n) => observed(old(self).state.peer_connections@, id@, state).1 == Some(
                    n as nat,
                ),
                None => observed(old(self).state.peer_connections@, id@, state).1 is None,
            },
    {
        self.state.peer_connections.observe(id, state)
    }
}

/// What a format event does to the tracks, and what its handler returns,
/// given whether the element is running and how the format was classified.
pub open spec fn caps_effect(
    running: bool,
    tracks: RegistryView,
    pad: Seq<char>,
    format: Option<(VideoCodec, StreamMode)>,
) -> (RegistryView, Result<Option<int>, SinkError>) {
    match format {
        None => (tracks, Err(SinkError::UnsupportedFormat)),
        Some((codec, mode)) => if running {
            (
                tracks.bind(pad, codec, mode).0,
                match tracks.bind(pad, codec, mode).1 {
                    Ok(t) => Ok(Some(t)),
                    Err(e) => Err(e),
                },
            )
        } else {
            (tracks, Ok(None))
        },
    }
}

/// Two pads with different numbers have different names.
pub proof fn lemma_pad_names_differ(a: u32, b: u32)
    requires
        a != b,
    ensures
        pad_name(a) != pad_name(b),
{
    reveal_strlit("sink_");
    lemma_decimal_reads_back(a as nat);
    lemma_decimal_reads_back(b as nat);
    if pad_name(a) == pad_name(b) {
        assert(pad_name(a).subrange(5, pad_name(a).len() as int) =~= decimal(a as nat));
        assert(pad_name(b).subrange(5, pad_name(b).len() as int) =~= decimal(b as nat));
        assert(decimal(a as nat) == decimal(b as nat));
    }
}

} // verus!
