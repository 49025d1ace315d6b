//! The signalling exchange: one offer in, one answer out.
//!
//! The media engine does the work of a negotiation, and the caller drives it.
//! What is done when, and what a failure at each point means, is decided
//! here: a [`Negotiation`] names the next step, takes its outcome and names
//! the step after it, until the answer is final or the attempt is given up.
//! Only a negotiation that came through enters the registry of sessions.

use vstd::prelude::*;
use vstd::string::StringExecFns;
use crate::codec::VideoCodec;
use crate::error::{ErrorView, Missing, SinkError};
use crate::peers::{with_session, PeerRegistry};
use crate::text::{contains_text, occurs_in};
use crate::tracks::{lists_in_order, TrackRegistry};

verus! {

/// The ICE servers a peer connection is created with.
#[derive(Debug, Clone, PartialEq, Eq)]
pub struct IceConfig {
    pub ice_servers: Vec<String>,
}

/// The servers that a STUN setting stands for: none where it is empty.
pub open spec fn servers_of(stun_server: Seq<char>) -> Seq<Seq<char>> {
    if stun_server.len() == 0 {
        Seq::empty()
    } else {
        seq![stun_server]
    }
}

impl IceConfig {
    /// The servers of the configuration, as texts.
    pub open spec fn servers(&self) -> Seq<Seq<char>> {
        Seq::new(self.ice_servers@.len(), |i: int| self.ice_servers@[i]@)
    }

    /// The configuration for a STUN setting; an empty setting means no server.
    pub fn from_stun(stun_server: &str) -> (r: IceConfig)
        ensures
            r.servers() == servers_of(stun_server@),
    {
        let mut ice_servers: Vec<String> = Vec::new();
        if !stun_server.is_empty() {
            ice_servers.push(stun_server.to_owned());
        }
        let r = IceConfig { ice_servers };
        assert(r.servers() =~= servers_of(stun_server@));
        r
    }
}

/// A signalling request: the offer, as the JSON text of a session description.
#[derive(Debug, Clone, PartialEq, Eq)]
pub struct SessionRequest {
    pub offer: String,
}

/// A signalling response: the answer, as the JSON text of a session
/// description, the id of the session, and the MIME string of the codec that
/// is sent, in lower case.
#[derive(Debug, Clone, PartialEq, Eq)]
pub struct SessionResponse {
    pub answer: String,
    pub session_id: String,
    pub negotiated_codec: Option<String>,
}

/// How far a negotiation has come: the step whose outcome is awaited.
#[derive(Debug, Clone, Copy, PartialEq, Eq, Structural)]
pub enum Phase {
    Engine,
    Peer,
    Track(usize),
    Offer,
    Answer,
    Local,
    Gather,
    Read,
    Closed,
}

/// What the caller does next.
#[derive(Debug, Clone, PartialEq, Eq)]
pub enum Step {
    /// Build a media engine of its own for the session, with the default
    /// codecs and interceptors.
    BuildEngine,
    /// Create the peer connection with these ICE servers.
    CreatePeer { ice_servers: Vec<String> },
    /// Attach the track with this index.
    AttachTrack { index: usize },
    /// Parse the offer and set it as the remote description.
    ApplyOffer { offer: String },
    /// Create the answer.
    CreateAnswer,
    /// Set the answer as the local description.
    ApplyAnswer,
    /// Wait until ICE gathering is complete.
    AwaitGathering,
    /// Read the local description back.
    ReadLocal,
    /// The answer is final: enter the session and respond.
    Finish { answer: String },
    /// Give up, drop the peer connection and report the error.
    Abort(SinkError),
}

/// The mathematical content of a [`Step`].
pub enum StepView {
    BuildEngine,
    CreatePeer { ice_servers: Seq<Seq<char>> },
    AttachTrack { index: usize },
    ApplyOffer { offer: Seq<char> },
    CreateAnswer,
    ApplyAnswer,
    AwaitGathering,
    ReadLocal,
    Finish { answer: Seq<char> },
    Abort(ErrorView),
}

impl View for Step {
    type V = StepView;

    open spec fn view(&self) -> StepView {
        match self {
            Step::BuildEngine => StepView::BuildEngine,
            Step::CreatePeer { ice_servers } => StepView::CreatePeer {
                ice_servers: Seq::new(ice_servers@.len(), |i: int| ice_servers@[i]@),
            },
            Step::AttachTrack { index } => StepView::AttachTrack { index: *index },
            Step::ApplyOffer { offer } => StepView::ApplyOffer { offer: offer@ },
            Step::CreateAnswer => StepView::CreateAnswer,
            Step::ApplyAnswer => StepView::ApplyAnswer,
            Step::AwaitGathering => StepView::AwaitGathering,
            Step::ReadLocal => StepView::ReadLocal,
            Step::Finish { answer } => StepView::Finish { answer: answer@ },
            Step::Abort(e) => StepView::Abort(e@),
        }
    }
}

/// How a step ended.
#[derive(Debug, Clone, PartialEq, Eq)]
pub enum Outcome {
    /// The step was done.
    Done,
    /// The step failed; the field is the message of the engine.
    Failed(String),
    /// The local description was read; the field is its JSON text.
    Answer(String),
    /// There was no local description to read.
    NoAnswer,
}

/// The mathematical content of an [`Outcome`].
pub enum OutcomeView {
    Done,
    Failed(Seq<char>),
    Answer(Seq<char>),
    NoAnswer,
}

impl View for Outcome {
    type V = OutcomeView;

    open spec fn view(&self) -> OutcomeView {
        match self {
            Outcome::Done => OutcomeView::Done,
            Outcome::Failed(text) => OutcomeView::Failed(text@),
            Outcome::Answer(text) => OutcomeView::Answer(text@),
            Outcome::NoAnswer => OutcomeView::NoAnswer,
        }
    }
}

/// The words by which the engine says that the peer cannot decode the codec.
pub open spec fn codec_refusal() -> Seq<char> {
    "codec is not supported"@
}

/// The message for a local description that is not there.
pub open spec fn no_local_description() -> Seq<char> {
    "Failed to get local description"@
}

/// The message for an outcome that does not belong to the step it answers.
pub open spec fn out_of_turn() -> Seq<char> {
    "Outcome does not belong to the step"@
}

/// One signalling exchange on its way.
#[derive(Debug, Clone, PartialEq, Eq)]
pub struct Negotiation {
    pub phase: Phase,
    pub tracks: Vec<usize>,
    pub ice_servers: Vec<String>,
    pub codec: VideoCodec,
    pub offer: String,
}

/// The mathematical content of a [`Negotiation`].
pub struct NegotiationView {
    pub phase: Phase,
    pub tracks: Seq<usize>,
    pub ice_servers: Seq<Seq<char>>,
    pub codec: VideoCodec,
    pub offer: Seq<char>,
}

impl View for Negotiation {
    type V = NegotiationView;

    open spec fn view(&self) -> NegotiationView {
        NegotiationView {
            phase: self.phase,
            tracks: self.tracks@,
            ice_servers: Seq::new(self.ice_servers@.len(), |i: int| self.ice_servers@[i]@),
            codec: self.codec,
            offer: self.offer@,
        }
    }
}

impl NegotiationView {
    /// Whether the negotiation is in order: it has a track to attach, and the
    /// track it waits for is one of them.
    pub open spec fn wf(self) -> bool {
        &&& 0 < self.tracks.len() <= usize::MAX
        &&& self.phase matches Phase::Track(k) ==> k < self.tracks.len()
    }

    /// The negotiation in another phase.
    pub open spec fn at(self, phase: Phase) -> NegotiationView {
        NegotiationView { phase, ..self }
    }

    /// What a failure with the message `text` means in this phase: while the
    /// answer is set as the local description, a message that speaks of an
    /// unsupported codec names the codec that is sent; any other failure is
    /// the engine's own.
    pub open spec fn failure(self, text: Seq<char>) -> ErrorView {
        if self.phase == Phase::Local && occurs_in(text, codec_refusal()) {
            ErrorView::UnsupportedCodec(self.codec.mime_upper())
        } else {
            ErrorView::Engine(text)
        }
    }

    /// The step that follows when the awaited step was done.
    pub open spec fn proceed(self) -> (NegotiationView, StepView) {
        match self.phase {
            Phase::Engine => (
                self.at(Phase::Peer),
                StepView::CreatePeer { ice_servers: self.ice_servers },
            ),
            Phase::Peer => (
                self.at(Phase::Track(0)),
                StepView::AttachTrack { index: self.tracks[0] },
            ),
            Phase::Track(k) => if k + 1 < self.tracks.len() {
                (
                    self.at(Phase::Track((k + 1) as usize)),
                    StepView::AttachTrack { index: self.tracks[k + 1] },
                )
            } else {
                (self.at(Phase::Offer), StepView::ApplyOffer { offer: self.offer })
            },
            Phase::Offer => (self.at(Phase::Answer), StepView::CreateAnswer),
            Phase::Answer => (self.at(Phase::Local), StepView::ApplyAnswer),
            Phase::Local => (self.at(Phase::Gather), StepView::AwaitGathering),
            Phase::Gather => (self.at(Phase::Read), StepView::ReadLocal),
            Phase::Read | Phase::Closed => (
                self.at(Phase::Closed),
                StepView::Abort(ErrorView::Engine(out_of_turn())),
            ),
        }
    }

    /// The negotiation after the awaited step ended in `outcome`, and the
    /// step that follows. A failure ends the negotiation, and so does an
    /// outcome that does not belong to the awaited step.
    pub open spec fn next(self, outcome: OutcomeView) -> (NegotiationView, StepView) {
        match outcome {
            OutcomeView::Failed(text) => if self.phase == Phase::Closed {
                (self, StepView::Abort(ErrorView::Engine(out_of_turn())))
            } else {
                (self.at(Phase::Closed), StepView::Abort(self.failure(text)))
            },
            OutcomeView::Done => self.proceed(),
            OutcomeView::Answer(answer) => if self.phase == Phase::Read {
                (self.at(Phase::Closed), StepView::Finish { answer })
            } else {
                (self.at(Phase::Closed), StepView::Abort(ErrorView::Engine(out_of_turn())))
            },
            OutcomeView::NoAnswer => if self.phase == Phase::Read {
                (
                    self.at(Phase::Closed),
                    StepView::Abort(ErrorView::Engine(no_local_description())),
                )
            } else {
                (self.at(Phase::Closed), StepView::Abort(ErrorView::Engine(out_of_turn())))
            },
        }
    }
}

impl Negotiation {
    /// Starts a signalling exchange for `request`.
    ///
    /// The sink must have been started, which gives it its configuration, and
    /// a pad must have announced its format, which gives it a track. The
    /// negotiation attaches every track that is not removed, in the order of
    /// the indices, and reports the codec of the first of them.
    pub fn begin(config: Option<&IceConfig>, tracks: &TrackRegistry, request: SessionRequest) -> (r:
        Result<(Negotiation, Step), SinkError>)
        requires
            tracks.wf(),
        ensures
            r is Ok <==> config is Some && exists|t: int| tracks@.live_tracks().contains(t),
            r matches Err(e) ==> e == (if config is None {
                SinkError::NotReady(Missing::Configuration)
            } else {
                SinkError::NotReady(Missing::Track)
            }),
            r matches Ok(pair) ==> {
                &&& pair.0@.wf()
                &&& pair.0@.phase == Phase::Engine
                &&& pair.1@ == StepView::BuildEngine
                &&& pair.0@.ice_servers == config->Some_0.servers()
                &&& pair.0@.offer == request.offer@
                &&& lists_in_order(pair.0@.tracks, tracks@.live_tracks())
                &&& pair.0@.codec == tracks@.slots[pair.0@.tracks[0] as int].track.codec
            },
    {
        match config {
            None => Err(SinkError::NotReady(Missing::Configuration)),
            Some(config) => {
                let live = tracks.live_indices();
                if live.len() == 0 {
                    assert forall|t: int| !tracks@.live_tracks().contains(t) by {
                        if tracks@.live_tracks().contains(t) {
                            let k = choose|k: int| 0 <= k < live@.len() && #[trigger] live@[k] == t;
                        }
                    }
                    return Err(SinkError::NotReady(Missing::Track));
                }
                let first: usize = live[0];
                assert(tracks@.live_tracks().contains(live@[0] as int));
                let codec = match tracks.track(first) {
                    Some(track) => track.codec(),
                    None => VideoCodec::H264,
                };
                let negotiation = Negotiation {
                    phase: Phase::Engine,
                    tracks: live,
                    ice_servers: config.ice_servers.clone(),
                    codec,
                    offer: request.offer,
                };
                assert(negotiation@.ice_servers =~= config.servers());
                Ok((negotiation, Step::BuildEngine))
            },
        }
    }

    fn failure(&self, text: String) -> (e: SinkError)
        ensures
            e@ == self@.failure(text@),
    {
        if self.phase == Phase::Local && contains_text(text.as_str(), "codec is not supported") {
            SinkError::UnsupportedCodec(self.codec.mime_type_upper().to_owned())
        } else {
            SinkError::Engine(text)
        }
    }

    fn proceed(&mut self) -> (step: Step)
        requires
            old(self)@.wf(),
        ensures
            final(self)@.wf(),
            final(self)@ == old(self)@.proceed().0,
            step@ == old(self)@.proceed().1,
    {
        match self.phase {
            Phase::Engine => {
                self.phase = Phase::Peer;
                let step = Step::CreatePeer { ice_servers: self.ice_servers.clone() };
                assert(step@->CreatePeer_ice_servers =~= old(self)@.ice_servers);
                step
            },
            Phase::Peer => {
                self.phase = Phase::Track(0);
                Step::AttachTrack { index: self.tracks[0] }
            },
            Phase::Track(k) => {
                let total: usize = self.tracks.len();
                if k + 1 < total {
                    self.phase = Phase::Track(k + 1);
                    Step::AttachTrack { index: self.tracks[k + 1] }
                } else {
                    self.phase = Phase::Offer;
                    Step::ApplyOffer { offer: self.offer.clone() }
                }
            },
            Phase::Offer => {
                self.phase = Phase::Answer;
                Step::CreateAnswer
            },
            Phase::Answer => {
                self.phase = Phase::Local;
                Step::ApplyAnswer
            },
            Phase::Local => {
                self.phase = Phase::Gather;
                Step::AwaitGathering
            },
            Phase::Gather => {
                self.phase = Phase::Read;
                Step::ReadLocal
            },
            Phase::Read | Phase::Closed => {
                self.phase = Phase::Closed;
                Step::Abort(
                    SinkError::Engine(String::from_str("Outcome does not belong to the step")),
                )
            },
        }
    }

    /// Takes the outcome of the awaited step and names the step that follows.
    pub fn advance(&mut self, outcome: Outcome) -> (step: Step)
        requires
            old(self)@.wf(),
        ensures
            final(self)@.wf(),
            final(self)@ == old(self)@.next(outcome@).0,
            step@ == old(self)@.next(outcome@).1,
    {
        match outcome {
            Outcome::Failed(text) => {
                if self.phase == Phase::Closed {
                    Step::Abort(
                        SinkError::Engine(String::from_str("Outcome does not belong to the step")),
                    )
                } else {
                    let e = self.failure(text);
                    self.phase = Phase::Closed;
                    Step::Abort(e)
                }
            },
            Outcome::Done => self.proceed(),
            Outcome::Answer(answer) => {
                let due = self.phase == Phase::Read;
                self.phase = Phase::Closed;
                if due {
                    Step::Finish { answer }
                } else {
                    Step::Abort(
                        SinkError::Engine(String::from_str("Outcome does not belong to the step")),
                    )
                }
            },
            Outcome::NoAnswer => {
                let due = self.phase == Phase::Read;
                self.phase = Phase::Closed;
                if due {
                    Step::Abort(
                        SinkError::Engine(String::from_str("Failed to get local description")),
                    )
                } else {
                    Step::Abort(
                        SinkError::Engine(String::from_str("Outcome does not belong to the step")),
                    )
                }
            },
        }
    }
}

/// Whether `c` is a digit or one of the letters `a` to `f`.
pub open spec fn is_lower_hex(c: char) -> bool {
    ('0' as u32 <= c as u32 <= '9' as u32) || ('a' as u32 <= c as u32 <= 'f' as u32)
}

/// Whether `s` is a random (version 4) UUID in its usual writing: 32 hex
/// digits in lower case, in groups of 8, 4, 4, 4 and 12 with a hyphen between
/// them, the third group starting with `4` and the fourth with `8`, `9`, `a`
/// or `b`.
pub open spec fn is_uuid_v4(s: Seq<char>) -> bool {
    &&& s.len() == 36
    &&& forall|i: int|
        0 <= i < 36 ==> if i == 8 || i == 13 || i == 18 || i == 23 {
            #[trigger] s[i] == '-'
        } else {
            is_lower_hex(s[i])
        }
    &&& s[14] == '4'
    &&& (s[19] == '8' || s[19] == '9' || s[19] == 'a' || s[19] == 'b')
}

/// Makes a new session id with `uuid::Uuid::new_v4` and writes it out with the
/// crate's `to_string`. The id is random; whatever it is, it is a version 4
/// UUID in hyphenated lower case.
#[verifier::external_body]
fn fresh_session_id() -> (r: String)
    ensures
        is_uuid_v4(r@),
{
    uuid::Uuid::new_v4().to_string()
}

/// A session that was entered: the response for the client, and the number of
/// sessions to notify.
#[derive(Debug, Clone, PartialEq, Eq)]
pub struct Established {
    pub response: SessionResponse,
    pub peer_count: usize,
}

/// Enters the session `session_id`, whose final answer is `answer`, and builds
/// the response.
pub fn conclude_as(
    peers: &mut PeerRegistry,
    session_id: String,
    answer: String,
    codec: VideoCodec,
) -> (r: Established)
    requires
        old(peers).wf(),
    ensures
        final(peers).wf(),
        final(peers)@ == with_session(old(peers)@, session_id@),
        r.peer_count == final(peers)@.len(),
        r.response.session_id@ == session_id@,
        r.response.answer@ == answer@,
        r.response.negotiated_codec matches Some(mime) && mime@ == codec.mime_lower(),
{
    let peer_count = peers.insert(session_id.clone());
    Established {
        response: SessionResponse {
            answer,
            session_id,
            negotiated_codec: Some(codec.mime_type_lower().to_owned()),
        },
        peer_count,
    }
}

/// Enters a session under a new random id and builds the response.
pub fn conclude(peers: &mut PeerRegistry, answer: String, codec: VideoCodec) -> (r: Established)
    requires
        old(peers).wf(),
    ensures
        final(peers).wf(),
        is_uuid_v4(r.response.session_id@),
        final(peers)@ == with_session(old(peers)@, r.response.session_id@),
        r.peer_count == final(peers)@.len(),
        r.response.answer@ == answer@,
        r.response.negotiated_codec matches Some(mime) && mime@ == codec.mime_lower(),
{
    conclude_as(peers, fresh_session_id(), answer, codec)
}

/// How far a phase is from the start of a negotiation with `tracks` tracks.
pub open spec fn progress(phase: Phase, tracks: nat) -> nat {
    match phase {
        Phase::Engine => 0,
        Phase::Peer => 1,
        Phase::Track(k) => 2 + k as nat,
        Phase::Offer => 2 + tracks,
        Phase::Answer => 3 + tracks,
        Phase::Local => 4 + tracks,
        Phase::Gather => 5 + tracks,
        Phase::Read => 6 + tracks,
        Phase::Closed => 7 + tracks,
    }
}

/// A negotiation only moves forward: every outcome takes it to a later phase,
/// until it is closed, and a closed negotiation stays closed and names no
/// step but the one that gives up. So a negotiation with `n` tracks is over
/// after `n + 7` outcomes at the latest.
pub proof fn lemma_negotiation_moves_forward(n: NegotiationView, outcome: OutcomeView)
    requires
        n.wf(),
    ensures
        n.next(outcome).0.wf(),
        n.next(outcome).0.tracks == n.tracks,
        n.next(outcome).0.codec == n.codec,
        n.next(outcome).0.offer == n.offer,
        n.next(outcome).0.ice_servers == n.ice_servers,
        n.phase != Phase::Closed ==> progress(n.phase, n.tracks.len()) < progress(
            n.next(outcome).0.phase,
            n.tracks.len(),
        ),
        progress(n.next(outcome).0.phase, n.tracks.len()) <= 7 + n.tracks.len(),
        n.phase == Phase::Closed ==> n.next(outcome).0.phase == Phase::Closed && n.next(
            outcome,
        ).1 is Abort,
{
}

/// A negotiation finishes only when the local description was read back, and
/// then with that description; a failure always gives up, and what is given
/// up stays given up: after a step that gives up, or that finishes, the
/// negotiation is closed.
pub proof fn lemma_negotiation_ends(n: NegotiationView, outcome: OutcomeView)
    requires
        n.wf(),
    ensures
        n.next(outcome).1 is Finish <==> n.phase == Phase::Read && outcome is Answer,
        n.next(outcome).1 is Finish ==> n.next(outcome).1 == (StepView::Finish {
            answer: outcome->Answer_0,
        }),
        outcome is Failed ==> n.next(outcome).1 is Abort,
        n.next(outcome).1 is Abort || n.next(outcome).1 is Finish <==> n.next(outcome).0.phase
            == Phase::Closed,
        n.next(outcome).1 matches StepView::Abort(ErrorView::UnsupportedCodec(mime)) ==> {
            &&& n.phase == Phase::Local
            &&& outcome matches OutcomeView::Failed(text) && occurs_in(text, codec_refusal())
            &&& mime == n.codec.mime_upper()
        },
{
}

/// The negotiation and the step that is named after `count` steps were done
/// one after the other, from a negotiation that has just begun.
pub open spec fn after_done(n: NegotiationView, count: nat) -> (NegotiationView, StepView)
    decreases count,
{
    if count == 0 {
        (n, StepView::BuildEngine)
    } else {
        after_done(n, (count - 1) as nat).0.next(OutcomeView::Done)
    }
}

/// While the tracks are attached, the `j`-th track is the one that is named
/// after `2 + j` steps were done.
pub proof fn lemma_tracks_in_order(n: NegotiationView, j: nat)
    requires
        n.wf(),
        n.phase == Phase::Engine,
        j < n.tracks.len(),
    ensures
        after_done(n, 2 + j) == (
            n.at(Phase::Track(j as usize)),
            StepView::AttachTrack { index: n.tracks[j as int] },
        ),
    decreases j,
{
    reveal_with_fuel(after_done, 3);
    if j > 0 {
        lemma_tracks_in_order(n, (j - 1) as nat);
    }
}

/// A negotiation in which nothing fails takes the steps in their order: the
/// engine, the peer connection with the configured servers, every track in
/// the order of the list, the offer, the answer, the local description, the
/// gathering, and the reading of the final description, which finishes it.
pub proof fn lemma_smooth_negotiation(n: NegotiationView, answer: Seq<char>)
    requires
        n.wf(),
        n.phase == Phase::Engine,
    ensures
        after_done(n, 0).1 == StepView::BuildEngine,
        after_done(n, 1).1 == (StepView::CreatePeer { ice_servers: n.ice_servers }),
        forall|j: nat|
            j < n.tracks.len() ==> (#[trigger] after_done(n, 2 + j)).1 == (StepView::AttachTrack {
                index: n.tracks[j as int],
            }),
        after_done(n, 2 + n.tracks.len()).1 == (StepView::ApplyOffer { offer: n.offer }),
        after_done(n, 3 + n.tracks.len()).1 == StepView::CreateAnswer,
        after_done(n, 4 + n.tracks.len()).1 == StepView::ApplyAnswer,
        after_done(n, 5 + n.tracks.len()).1 == StepView::AwaitGathering,
        after_done(n, 6 + n.tracks.len()).1 == StepView::ReadLocal,
        after_done(n, 6 + n.tracks.len()).0.next(OutcomeView::Answer(answer)).1 == (
        StepView::Finish { answer }),
{
    let t = n.tracks.len();
    reveal_with_fuel(after_done, 3);
    assert forall|j: nat| j < t implies (#[trigger] after_done(n, 2 + j)).1 == (
    StepView::AttachTrack { index: n.tracks[j as int] }) by {
        lemma_tracks_in_order(n, j);
    }
    lemma_tracks_in_order(n, (t - 1) as nat);
    assert(after_done(n, 1 + t) == (
        n.at(Phase::Track((t - 1) as usize)),
        StepView::AttachTrack { index: n.tracks[t - 1] },
    ));
    assert(after_done(n, 2 + t) == after_done(n, 1 + t).0.next(OutcomeView::Done));
    assert(after_done(n, 2 + t).0 == n.at(Phase::Offer));
    assert(after_done(n, 3 + t) == after_done(n, 2 + t).0.next(OutcomeView::Done));
    assert(after_done(n, 4 + t) == after_done(n, 3 + t).0.next(OutcomeView::Done));
    assert(after_done(n, 5 + t) == after_done(n, 4 + t).0.next(OutcomeView::Done));
    assert(after_done(n, 6 + t) == after_done(n, 5 + t).0.next(OutcomeView::Done));
}

} // verus!
