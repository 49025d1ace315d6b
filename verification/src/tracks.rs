//! The outbound tracks and the input pads that feed them.
//!
//! Tracks live in a sequence that only grows, so an index names one track for
//! good. A pad that is released leaves its track behind, marked as removed:
//! peers that took it may keep it, the sink writes to it no more.

use vstd::prelude::*;
use vstd::string::StringExecFns;
use crate::codec::{StreamMode, VideoCodec};
use crate::error::SinkError;
use crate::text::same_text;

verus! {

/// What a track carries and who feeds it.
#[derive(Debug, Clone, PartialEq, Eq)]
pub struct TrackInfo {
    pub pad: String,
    pub codec: VideoCodec,
}

/// An outbound track: one that takes encoded access units, or one that takes
/// RTP packets.
#[derive(Debug, Clone, PartialEq, Eq)]
pub enum VideoTrack {
    Sample(TrackInfo),
    Rtp(TrackInfo),
}

/// The mathematical content of a [`VideoTrack`].
pub struct TrackView {
    pub pad: Seq<char>,
    pub codec: VideoCodec,
    pub mode: StreamMode,
}

impl TrackView {
    /// The id under which browsers see the track.
    pub open spec fn track_id(self) -> Seq<char> {
        "track_"@ + self.pad
    }

    /// The id of the stream the track belongs to.
    pub open spec fn stream_id(self) -> Seq<char> {
        "stream_"@ + self.pad
    }
}

impl View for VideoTrack {
    type V = TrackView;

    open spec fn view(&self) -> TrackView {
        match self {
            VideoTrack::Sample(info) => TrackView {
                pad: info.pad@,
                codec: info.codec,
                mode: StreamMode::Sample,
            },
            VideoTrack::Rtp(info) => TrackView {
                pad: info.pad@,
                codec: info.codec,
                mode: StreamMode::Rtp,
            },
        }
    }
}

impl VideoTrack {
    /// A track for the pad `pad`.
    pub fn new(pad: &str, codec: VideoCodec, mode: StreamMode) -> (r: VideoTrack)
        ensures
            r@ == (TrackView { pad: pad@, codec, mode }),
    {
        let info = TrackInfo { pad: pad.to_owned(), codec };
        match mode {
            StreamMode::Sample => VideoTrack::Sample(info),
            StreamMode::Rtp => VideoTrack::Rtp(info),
        }
    }

    fn info(&self) -> (r: &TrackInfo)
        ensures
            r.pad@ == self@.pad,
            r.codec == self@.codec,
    {
        match self {
            VideoTrack::Sample(info) => info,
            VideoTrack::Rtp(info) => info,
        }
    }

    /// The codec the track carries.
    pub fn codec(&self) -> (r: VideoCodec)
        ensures
            r == self@.codec,
    {
        self.info().codec
    }

    /// Whether the track takes access units or RTP packets.
    pub fn mode(&self) -> (r: StreamMode)
        ensures
            r == self@.mode,
    {
        match self {
            VideoTrack::Sample(_) => StreamMode::Sample,
            VideoTrack::Rtp(_) => StreamMode::Rtp,
        }
    }

    /// The MIME string of the codec the track carries.
    pub fn codec_mime_type(&self) -> (r: String)
        ensures
            r@ == self@.codec.mime(),
    {
        self.info().codec.mime_type().to_owned()
    }

    /// The track id: `track_` and the pad's name.
    pub fn track_id(&self) -> (r: String)
        ensures
            r@ == self@.track_id(),
    {
        String::from_str("track_").concat(self.info().pad.as_str())
    }

    /// The stream id: `stream_` and the pad's name.
    pub fn stream_id(&self) -> (r: String)
        ensures
            r@ == self@.stream_id(),
    {
        String::from_str("stream_").concat(self.info().pad.as_str())
    }
}

/// What is known of one input pad.
#[derive(Debug, Clone, PartialEq, Eq)]
pub struct PadBinding {
    pub pad_name: String,
    pub format: Option<(VideoCodec, StreamMode)>,
    pub track_index: Option<usize>,
}

/// The mathematical content of a [`PadBinding`].
pub struct BindingView {
    pub pad: Seq<char>,
    pub format: Option<(VideoCodec, StreamMode)>,
    pub track: Option<int>,
}

impl View for PadBinding {
    type V = BindingView;

    open spec fn view(&self) -> BindingView {
        BindingView {
            pad: self.pad_name@,
            format: self.format,
            track: match self.track_index {
                Some(t) => Some(t as int),
                None => None,
            },
        }
    }
}

/// One entry of the backing sequence of tracks.
pub struct SlotView {
    pub track: TrackView,
    pub live: bool,
}

/// The mathematical content of a [`TrackRegistry`].
pub struct RegistryView {
    pub slots: Seq<SlotView>,
    pub bindings: Seq<BindingView>,
}

/// Whether `list` holds exactly the indices in `set`, each once, in rising order.
pub open spec fn lists_in_order(list: Seq<usize>, set: Set<int>) -> bool {
    &&& forall|k: int| 0 <= k < list.len() ==> set.contains(#[trigger] list[k] as int)
    &&& forall|t: int|
        set.contains(t) ==> exists|k: int| 0 <= k < list.len() && #[trigger] list[k] == t
    &&& forall|k: int, l: int| 0 <= k < l < list.len() ==> list[k] < list[l]
}

/// One change of a registry.
pub enum RegistryCall {
    /// A pad is requested.
    Request(Seq<char>),
    /// A pad is bound to a format.
    Bind(Seq<char>, VideoCodec, StreamMode),
    /// A pad is released.
    Unbind(Seq<char>),
}

impl RegistryView {
    /// The registry without tracks and pads.
    pub open spec fn empty() -> RegistryView {
        RegistryView { slots: Seq::empty(), bindings: Seq::empty() }
    }

    /// The registry after one change.
    pub open spec fn apply(self, call: RegistryCall) -> RegistryView {
        match call {
            RegistryCall::Request(pad) => self.request(pad),
            RegistryCall::Bind(pad, codec, mode) => self.bind(pad, codec, mode).0,
            RegistryCall::Unbind(pad) => self.unbind(pad),
        }
    }

    /// The registry after a history of changes, from the empty one.
    pub open spec fn after(calls: Seq<RegistryCall>) -> RegistryView
        decreases calls.len(),
    {
        if calls.len() == 0 {
            RegistryView::empty()
        } else {
            RegistryView::after(calls.drop_last()).apply(calls.last())
        }
    }

    /// Whether `pad` has a binding.
    pub open spec fn has_pad(self, pad: Seq<char>) -> bool {
        exists|i: int| 0 <= i < self.bindings.len() && (#[trigger] self.bindings[i]).pad == pad
    }

    /// Where the binding of `pad` stands, if it has one.
    pub open spec fn position(self, pad: Seq<char>) -> int {
        choose|i: int| 0 <= i < self.bindings.len() && (#[trigger] self.bindings[i]).pad == pad
    }

    /// The index of the live track that `pad` feeds, if it feeds one.
    pub open spec fn track_of(self, pad: Seq<char>) -> Option<int> {
        if self.has_pad(pad) {
            self.bindings[self.position(pad)].track
        } else {
            None
        }
    }

    /// The format announced on `pad`, if the pad has one.
    pub open spec fn format_of(self, pad: Seq<char>) -> Option<(VideoCodec, StreamMode)> {
        if self.has_pad(pad) {
            self.bindings[self.position(pad)].format
        } else {
            None
        }
    }

    /// The indices that the bindings hold.
    pub open spec fn bound_tracks(self) -> Set<int> {
        Set::new(
            |t: int|
                exists|i: int|
                    0 <= i < self.bindings.len() && (#[trigger] self.bindings[i]).track == Some(t),
        )
    }

    /// The indices of the tracks that are not removed.
    pub open spec fn live_tracks(self) -> Set<int> {
        Set::new(|t: int| 0 <= t < self.slots.len() && self.slots[t].live)
    }

    /// Whether no pad has two bindings.
    pub open spec fn pads_distinct(self) -> bool {
        forall|i: int, j: int|
            0 <= i < j < self.bindings.len() ==> (#[trigger] self.bindings[i]).pad != (
            #[trigger] self.bindings[j]).pad
    }

    /// The invariant of the registry: no pad has two bindings; a binding with
    /// a track names a live track of its own pad and format; a binding has a
    /// track exactly when its format is known; and every live track is named
    /// by the binding of its pad.
    pub open spec fn wf(self) -> bool {
        &&& self.pads_distinct()
        &&& forall|i: int|
            0 <= i < self.bindings.len() ==> self.binding_ok(#[trigger] self.bindings[i])
        &&& forall|t: int| 0 <= t < self.slots.len() ==> #[trigger] self.track_ok(t)
    }

    /// What the invariant asks of one track: if it is not removed, the
    /// binding of its pad names it.
    pub open spec fn track_ok(self, t: int) -> bool {
        self.slots[t].live ==> self.track_of(self.slots[t].track.pad) == Some(t)
    }

    /// What the invariant asks of one binding.
    pub open spec fn binding_ok(self, b: BindingView) -> bool {
        match b.track {
            Some(t) => {
                &&& 0 <= t < self.slots.len()
                &&& self.slots[t].live
                &&& self.slots[t].track.pad == b.pad
                &&& b.format == Some((self.slots[t].track.codec, self.slots[t].track.mode))
            },
            None => b.format is None,
        }
    }

    /// The registry after `pad` was bound to a format, and what the call returns.
    ///
    /// A pad that feeds a track keeps it when the format is the same, and is
    /// refused when it is not. Otherwise a track is appended and the pad's
    /// binding names it.
    pub open spec fn bind(self, pad: Seq<char>, codec: VideoCodec, mode: StreamMode) -> (
        RegistryView,
        Result<int, SinkError>,
    ) {
        match self.track_of(pad) {
            Some(t) => if self.slots[t].track.codec == codec && self.slots[t].track.mode == mode {
                (self, Ok(t))
            } else {
                (self, Err(SinkError::BadRenegotiation))
            },
            None => {
                let t = self.slots.len() as int;
                let slot = SlotView { track: TrackView { pad, codec, mode }, live: true };
                let binding = BindingView { pad, format: Some((codec, mode)), track: Some(t) };
                let bindings = if self.has_pad(pad) {
                    self.bindings.update(self.position(pad), binding)
                } else {
                    self.bindings.push(binding)
                };
                (RegistryView { slots: self.slots.push(slot), bindings }, Ok(t))
            },
        }
    }

    /// The registry after `pad` was released: its binding is gone and its
    /// track, if it fed one, is marked as removed.
    pub open spec fn unbind(self, pad: Seq<char>) -> RegistryView {
        if self.has_pad(pad) {
            let i = self.position(pad);
            let slots = match self.bindings[i].track {
                Some(t) => self.slots.update(
                    t,
                    SlotView { track: self.slots[t].track, live: false },
                ),
                None => self.slots,
            };
            RegistryView { slots, bindings: self.bindings.remove(i) }
        } else {
            self
        }
    }

    /// The registry after `pad` was requested: a pad that is new gets a
    /// binding without format and track.
    pub open spec fn request(self, pad: Seq<char>) -> RegistryView {
        if self.has_pad(pad) {
            self
        } else {
            RegistryView {
                slots: self.slots,
                bindings: self.bindings.push(BindingView { pad, format: None, track: None }),
            }
        }
    }
}

/// The tracks of the sink and the bindings of its pads.
pub struct TrackRegistry {
    tracks: Vec<VideoTrack>,
    live: Vec<bool>,
    bindings: Vec<PadBinding>,
}

impl View for TrackRegistry {
    type V = RegistryView;

    closed spec fn view(&self) -> RegistryView {
        RegistryView {
            slots: Seq::new(
                self.tracks@.len(),
                |t: int| SlotView { track: self.tracks@[t]@, live: self.live@[t] },
            ),
            bindings: Seq::new(self.bindings@.len(), |i: int| self.bindings@[i]@),
        }
    }
}

impl TrackRegistry {
    /// Whether the registry meets its invariant.
    pub closed spec fn wf(&self) -> bool {
        &&& self.tracks@.len() == self.live@.len()
        &&& self@.wf()
    }

    /// In a registry that meets its invariant, the tracks that the bindings
    /// name are the tracks that are not removed.
    pub proof fn lemma_bindings_name_live_tracks(&self)
        requires
            self.wf(),
        ensures
            self@.wf(),
            self@.bound_tracks() == self@.live_tracks(),
    {
        lemma_bound_tracks_are_live_tracks(self@);
    }

    /// A registry without tracks and pads.
    pub fn new() -> (r: TrackRegistry)
        ensures
            r.wf(),
            r@ == RegistryView::empty(),
    {
        let r = TrackRegistry { tracks: Vec::new(), live: Vec::new(), bindings: Vec::new() };
        assert(r@.slots =~= RegistryView::empty().slots);
        assert(r@.bindings =~= RegistryView::empty().bindings);
        r
    }

    fn find(&self, pad: &str) -> (r: Option<usize>)
        ensures
            match r {
                Some(i) => i < self@.bindings.len() && self@.bindings[i as int].pad == pad@,
                None => !self@.has_pad(pad@),
            },
    {
        let mut i: usize = 0;
        while i < self.bindings.len()
            invariant
                i <= self.bindings@.len(),
                self@.bindings.len() == self.bindings@.len(),
                forall|j: int| 0 <= j < i ==> (#[trigger] self@.bindings[j]).pad != pad@,
            decreases self.bindings.len() - i,
        {
            if same_text(self.bindings[i].pad_name.as_str(), pad) {
                return Some(i);
            }
            i += 1;
        }
        None
    }

    /// How many tracks the backing sequence holds, removed ones included.
    pub fn len(&self) -> (r: usize)
        ensures
            r == self@.slots.len(),
    {
        self.tracks.len()
    }

    /// How many pads have a binding.
    pub fn pad_count(&self) -> (r: usize)
        ensures
            r == self@.bindings.len(),
    {
        self.bindings.len()
    }

    /// What is known of every pad, in the order in which the pads came.
    pub fn bindings(&self) -> (r: &Vec<PadBinding>)
        ensures
            r@.len() == self@.bindings.len(),
            forall|i: int| 0 <= i < r@.len() ==> (#[trigger] r@[i])@ == self@.bindings[i],
    {
        &self.bindings
    }

    /// The track at `index`, if it is there and not removed.
    pub fn track(&self, index: usize) -> (r: Option<&VideoTrack>)
        requires
            self.wf(),
        ensures
            match r {
                Some(track) => index < self@.slots.len() && self@.slots[index as int].live
                    && track@ == self@.slots[index as int].track,
                None => !(index < self@.slots.len() && self@.slots[index as int].live),
            },
    {
        if index < self.tracks.len() && self.live[index] {
            Some(&self.tracks[index])
        } else {
            None
        }
    }

    /// The index of the track that `pad` feeds, if it feeds one.
    pub fn track_index(&self, pad: &str) -> (r: Option<usize>)
        requires
            self.wf(),
        ensures
            match r {
                Some(t) => self@.track_of(pad@) == Some(t as int),
                None => self@.track_of(pad@) is None,
            },
    {
        match self.find(pad) {
            Some(i) => {
                proof {
                    lemma_position(self@, i as int);
                }
                self.bindings[i].track_index
            },
            None => None,
        }
    }

    /// The format that was announced on `pad`, if one was and the pad feeds a track.
    pub fn format_of(&self, pad: &str) -> (r: Option<(VideoCodec, StreamMode)>)
        requires
            self.wf(),
        ensures
            r == self@.format_of(pad@),
    {
        match self.find(pad) {
            Some(i) => {
                proof {
                    lemma_position(self@, i as int);
                }
                self.bindings[i].format
            },
            None => None,
        }
    }

    /// The track that `pad` feeds, if it feeds one.
    pub fn lookup(&self, pad: &str) -> (r: Option<&VideoTrack>)
        requires
            self.wf(),
        ensures
            match r {
                Some(track) => self@.track_of(pad@) is Some && track@ == self@.slots[self@.track_of(
                    pad@,
                )->Some_0].track,
                None => self@.track_of(pad@) is None,
            },
    {
        match self.track_index(pad) {
            Some(t) => {
                proof {
                    let i = self@.position(pad@);
                    assert(self@.binding_ok(self@.bindings[i]));
                }
                Some(&self.tracks[t])
            },
            None => None,
        }
    }

    /// Every track that is not removed, by index, in the order of the indices.
    pub fn live_indices(&self) -> (r: Vec<usize>)
        requires
            self.wf(),
        ensures
            lists_in_order(r@, self@.live_tracks()),
    {
        let mut out: Vec<usize> = Vec::new();
        let mut t: usize = 0;
        while t < self.tracks.len()
            invariant
                self.wf(),
                t <= self.tracks@.len(),
                forall|k: int| 0 <= k < out@.len() ==> (#[trigger] out@[k]) < t,
                forall|k: int|
                    0 <= k < out@.len() ==> self@.live_tracks().contains(#[trigger] out@[k] as int),
                forall|u: int|
                    0 <= u < t && self@.live_tracks().contains(u) ==> exists|k: int|
                        0 <= k < out@.len() && #[trigger] out@[k] == u,
                forall|k: int, l: int| 0 <= k < l < out@.len() ==> out@[k] < out@[l],
            decreases self.tracks.len() - t,
        {
            if self.live[t] {
                let ghost before = out@;
                out.push(t);
                proof {
                    assert(out@[before.len() as int] == t);
                    assert forall|u: int|
                        0 <= u < t + 1 && self@.live_tracks().contains(u) implies exists|k: int|
                        0 <= k < out@.len() && #[trigger] out@[k] == u by {
                        if u < t {
                            let k = choose|k: int|
                                0 <= k < before.len() && #[trigger] before[k] == u;
                            assert(out@[k] == u);
                        }
                    }
                }
            }
            t += 1;
        }
        out
    }

    /// Notes that `pad` exists: a pad that is new gets a binding without
    /// format and track.
    pub fn request(&mut self, pad: &str)
        requires
            old(self).wf(),
        ensures
            final(self).wf(),
            final(self)@ == old(self)@.request(pad@),
    {
        if self.find(pad).is_none() {
            self.bindings.push(
                PadBinding { pad_name: pad.to_owned(), format: None, track_index: None },
            );
            proof {
                assert(self@.slots =~= old(self)@.request(pad@).slots);
                assert(self@.bindings =~= old(self)@.request(pad@).bindings);
                lemma_request_keeps_invariant(old(self)@, pad@);
            }
        }
    }

    /// Binds `pad` to a format and returns the index of the track it feeds.
    ///
    /// A pad that feeds a track keeps it when the format is the one it has,
    /// and is refused with `BadRenegotiation` when it is another. Otherwise a
    /// new track is appended for the pad.
    pub fn bind(&mut self, pad: &str, codec: VideoCodec, mode: StreamMode) -> (r: Result<
        usize,
        SinkError,
    >)
        requires
            old(self).wf(),
        ensures
            final(self).wf(),
            final(self)@ == old(self)@.bind(pad@, codec, mode).0,
            match r {
                Ok(t) => old(self)@.bind(pad@, codec, mode).1 == Ok::<int, SinkError>(t as int),
                Err(e) => old(self)@.bind(pad@, codec, mode).1 == Err::<int, SinkError>(e),
            },
    {
        let found = self.find(pad);
        proof {
            if let Some(i) = found {
                lemma_position(self@, i as int);
                assert(self@.binding_ok(self@.bindings[i as int]));
            }
        }
        let bound: Option<usize> = match found {
            Some(i) => self.bindings[i].track_index,
            None => None,
        };
        match bound {
            Some(t) => {
                let same = self.tracks[t].codec() == codec && self.tracks[t].mode() == mode;
                if same {
                    Ok(t)
                } else {
                    Err(SinkError::BadRenegotiation)
                }
            },
            None => {
                let t = self.tracks.len();
                self.tracks.push(VideoTrack::new(pad, codec, mode));
                self.live.push(true);
                let binding = PadBinding {
                    pad_name: pad.to_owned(),
                    format: Some((codec, mode)),
                    track_index: Some(t),
                };
                match found {
                    Some(i) => {
                        self.bindings.set(i, binding);
                    },
                    None => {
                        self.bindings.push(binding);
                    },
                }
                proof {
                    let want = old(self)@.bind(pad@, codec, mode).0;
                    assert(self@.slots =~= want.slots);
                    assert(self@.bindings =~= want.bindings);
                    lemma_bind_keeps_invariant(old(self)@, pad@, codec, mode);
                }
                Ok(t)
            },
        }
    }

    /// Releases `pad`: its binding goes, and the track it fed is marked as
    /// removed. Returns the index of that track, if the pad fed one.
    pub fn unbind(&mut self, pad: &str) -> (r: Option<usize>)
        requires
            old(self).wf(),
        ensures
            final(self).wf(),
            final(self)@ == old(self)@.unbind(pad@),
            match r {
                Some(t) => old(self)@.track_of(pad@) == Some(t as int),
                None => old(self)@.track_of(pad@) is None,
            },
    {
        match self.find(pad) {
            Some(i) => {
                proof {
                    lemma_position(self@, i as int);
                    assert(self@.binding_ok(self@.bindings[i as int]));
                }
                let released = self.bindings.remove(i);
                match released.track_index {
                    Some(t) => {
                        self.live.set(t, false);
                    },
                    None => {},
                }
                proof {
                    let want = old(self)@.unbind(pad@);
                    assert(self@.slots =~= want.slots);
                    assert(self@.bindings =~= want.bindings);
                    lemma_unbind_keeps_invariant(old(self)@, pad@);
                }
                released.track_index
            },
            None => None,
        }
    }

    /// Forgets every track and every pad.
    pub fn clear(&mut self)
        ensures
            final(self).wf(),
            final(self)@ == RegistryView::empty(),
    {
        self.tracks = Vec::new();
        self.live = Vec::new();
        self.bindings = Vec::new();
        assert(self@.slots =~= RegistryView::empty().slots);
        assert(self@.bindings =~= RegistryView::empty().bindings);
    }
}

/// Where pads are distinct, the binding at `i` is the binding of its pad.
pub proof fn lemma_position(v: RegistryView, i: int)
    requires
        v.pads_distinct(),
        0 <= i < v.bindings.len(),
    ensures
        v.has_pad(v.bindings[i].pad),
        v.position(v.bindings[i].pad) == i,
        v.track_of(v.bindings[i].pad) == v.bindings[i].track,
{
    let pad = v.bindings[i].pad;
    let j = v.position(pad);
    assert(0 <= j < v.bindings.len() && v.bindings[j].pad == pad);
    if j < i {
        assert(v.bindings[j].pad != v.bindings[i].pad);
    } else if i < j {
        assert(v.bindings[i].pad != v.bindings[j].pad);
    }
}

/// A pad without a binding feeds no track, and no binding bears its name.
pub proof fn lemma_absent(v: RegistryView, pad: Seq<char>)
    requires
        !v.has_pad(pad),
    ensures
        v.track_of(pad) is None,
        forall|i: int| 0 <= i < v.bindings.len() ==> (#[trigger] v.bindings[i]).pad != pad,
{
}

/// Binding a pad keeps the invariant.
pub proof fn lemma_bind_keeps_invariant(
    v: RegistryView,
    pad: Seq<char>,
    codec: VideoCodec,
    mode: StreamMode,
)
    requires
        v.wf(),
    ensures
        v.bind(pad, codec, mode).0.wf(),
{
    let w = v.bind(pad, codec, mode).0;
    if v.track_of(pad) is None {
        let t = v.slots.len() as int;
        let at = if v.has_pad(pad) {
            v.position(pad)
        } else {
            v.bindings.len() as int
        };
        if v.has_pad(pad) {
            lemma_position(v, at);
        } else {
            lemma_absent(v, pad);
        }
        assert(w.bindings[at].pad == pad);
        assert forall|i: int| 0 <= i < w.bindings.len() && i != at implies (
        #[trigger] w.bindings[i]) == v.bindings[i] && w.bindings[i].pad != pad by {
            if v.has_pad(pad) {
                if i < at {
                    assert(v.bindings[i].pad != v.bindings[at].pad);
                } else {
                    assert(v.bindings[at].pad != v.bindings[i].pad);
                }
            }
        }
        assert(w.pads_distinct()) by {
            assert forall|i: int, j: int| 0 <= i < j < w.bindings.len() implies (
            #[trigger] w.bindings[i]).pad != (#[trigger] w.bindings[j]).pad by {
                if i != at && j != at {
                    assert(v.bindings[i].pad != v.bindings[j].pad);
                }
            }
        }
        assert forall|i: int| 0 <= i < w.bindings.len() implies w.binding_ok(
            #[trigger] w.bindings[i],
        ) by {
            if i != at {
                assert(v.binding_ok(v.bindings[i]));
            }
        }
        assert forall|u: int| 0 <= u < w.slots.len() implies #[trigger] w.track_ok(u) by {
            if u == t {
                lemma_position(w, at);
            } else if w.slots[u].live {
                let q = v.slots[u].track.pad;
                assert(v.track_ok(u));
                let j = v.position(q);
                assert(v.has_pad(q));
                assert(0 <= j < v.bindings.len() && v.bindings[j].pad == q);
                assert(q != pad);
                assert(j != at);
                lemma_position(w, j);
            }
        }
    }
}

/// The index in a sequence of what stands at `i` once the element at `at` is
/// taken out.
pub open spec fn skip(i: int, at: int) -> int {
    if i < at {
        i
    } else {
        i + 1
    }
}

/// Releasing a pad keeps the invariant.
pub proof fn lemma_unbind_keeps_invariant(v: RegistryView, pad: Seq<char>)
    requires
        v.wf(),
    ensures
        v.unbind(pad).wf(),
{
    let w = v.unbind(pad);
    if v.has_pad(pad) {
        let at = v.position(pad);
        lemma_position(v, at);
        assert forall|i: int| 0 <= i < w.bindings.len() implies (#[trigger] w.bindings[i])
            == v.bindings[skip(i, at)] by {}
        assert(w.pads_distinct()) by {
            assert forall|i: int, j: int| 0 <= i < j < w.bindings.len() implies (
            #[trigger] w.bindings[i]).pad != (#[trigger] w.bindings[j]).pad by {
                assert(v.bindings[skip(i, at)].pad != v.bindings[skip(j, at)].pad);
            }
        }
        assert forall|i: int| 0 <= i < w.bindings.len() implies w.binding_ok(
            #[trigger] w.bindings[i],
        ) by {
            let a = skip(i, at);
            assert(v.binding_ok(v.bindings[a]));
            assert(v.bindings[a].pad != v.bindings[at].pad) by {
                if a < at {
                    assert(v.bindings[a].pad != v.bindings[at].pad);
                } else {
                    assert(v.bindings[at].pad != v.bindings[a].pad);
                }
            }
            if v.bindings[a].track is Some && v.bindings[at].track is Some {
                assert(v.binding_ok(v.bindings[at]));
            }
        }
        assert forall|u: int| 0 <= u < w.slots.len() implies #[trigger] w.track_ok(u) by {
            if w.slots[u].live {
                let q = v.slots[u].track.pad;
                assert(v.track_ok(u));
                let j = v.position(q);
                assert(v.has_pad(q));
                assert(0 <= j < v.bindings.len() && v.bindings[j].pad == q);
                assert(v.bindings[j].track == Some(u));
                assert(j != at);
                let k = if j < at { j } else { j - 1 };
                assert(w.bindings[k] == v.bindings[j]);
                lemma_position(w, k);
            }
        }
    }
}

/// Requesting a pad keeps the invariant.
pub proof fn lemma_request_keeps_invariant(v: RegistryView, pad: Seq<char>)
    requires
        v.wf(),
    ensures
        v.request(pad).wf(),
{
    let w = v.request(pad);
    if !v.has_pad(pad) {
        lemma_absent(v, pad);
        let at = v.bindings.len() as int;
        assert(w.pads_distinct()) by {
            assert forall|i: int, j: int| 0 <= i < j < w.bindings.len() implies (
            #[trigger] w.bindings[i]).pad != (#[trigger] w.bindings[j]).pad by {
                if j != at {
                    assert(v.bindings[i].pad != v.bindings[j].pad);
                } else {
                    assert(v.bindings[i].pad != pad);
                }
            }
        }
        assert forall|i: int| 0 <= i < w.bindings.len() implies w.binding_ok(
            #[trigger] w.bindings[i],
        ) by {
            if i != at {
                assert(v.binding_ok(v.bindings[i]));
            }
        }
        assert forall|u: int| 0 <= u < w.slots.len() implies #[trigger] w.track_ok(u) by {
            if w.slots[u].live {
                let q = v.slots[u].track.pad;
                assert(v.track_ok(u));
                let j = v.position(q);
                assert(v.has_pad(q));
                assert(0 <= j < v.bindings.len() && v.bindings[j].pad == q);
                assert(w.bindings[j] == v.bindings[j]);
                lemma_position(w, j);
            }
        }
    }
}

/// In a registry that meets its invariant, the tracks that the bindings name
/// are the tracks that are not removed, and no two bindings name one track.
pub proof fn lemma_bound_tracks_are_live_tracks(v: RegistryView)
    requires
        v.wf(),
    ensures
        v.bound_tracks() == v.live_tracks(),
        forall|i: int, j: int|
            #![trigger v.bindings[i], v.bindings[j]]
            0 <= i < j < v.bindings.len() && v.bindings[i].track is Some ==> v.bindings[i].track
                != v.bindings[j].track,
{
    assert forall|t: int| v.bound_tracks().contains(t) implies v.live_tracks().contains(t) by {
        let i = choose|i: int|
            0 <= i < v.bindings.len() && (#[trigger] v.bindings[i]).track == Some(t);
        assert(v.binding_ok(v.bindings[i]));
    }
    assert forall|t: int| v.live_tracks().contains(t) implies v.bound_tracks().contains(t) by {
        let q = v.slots[t].track.pad;
        assert(v.track_ok(t));
        let j = v.position(q);
        assert(v.has_pad(q));
        assert(0 <= j < v.bindings.len() && v.bindings[j].track == Some(t));
    }
    assert(v.bound_tracks() =~= v.live_tracks());
    assert forall|i: int, j: int|
        #![trigger v.bindings[i], v.bindings[j]]
        0 <= i < j < v.bindings.len() && v.bindings[i].track is Some implies v.bindings[i].track
            != v.bindings[j].track by {
        assert(v.binding_ok(v.bindings[i]));
        assert(v.binding_ok(v.bindings[j]));
        assert(v.bindings[i].pad != v.bindings[j].pad);
    }
}

/// After every history of requests, bindings and releases, the registry
/// meets its invariant, and the tracks that the bindings name are the tracks
/// that are not removed.
pub proof fn lemma_every_history_keeps_tracks_in_step(calls: Seq<RegistryCall>)
    ensures
        RegistryView::after(calls).wf(),
        RegistryView::after(calls).bound_tracks() == RegistryView::after(calls).live_tracks(),
    decreases calls.len(),
{
    if calls.len() > 0 {
        lemma_every_history_keeps_tracks_in_step(calls.drop_last());
        let before = RegistryView::after(calls.drop_last());
        match calls.last() {
            RegistryCall::Request(pad) => lemma_request_keeps_invariant(before, pad),
            RegistryCall::Bind(pad, codec, mode) => lemma_bind_keeps_invariant(
                before,
                pad,
                codec,
                mode,
            ),
            RegistryCall::Unbind(pad) => lemma_unbind_keeps_invariant(before, pad),
        }
    }
    lemma_bound_tracks_are_live_tracks(RegistryView::after(calls));
}

/// Binding a pad again to the format it has changes nothing and gives the
/// same track.
pub proof fn lemma_bind_again(v: RegistryView, pad: Seq<char>, codec: VideoCodec, mode: StreamMode)
    requires
        v.wf(),
        v.bind(pad, codec, mode).1 is Ok,
    ensures
        v.bind(pad, codec, mode).0.bind(pad, codec, mode) == v.bind(pad, codec, mode),
{
    let w = v.bind(pad, codec, mode).0;
    lemma_bind_keeps_invariant(v, pad, codec, mode);
    if v.track_of(pad) is None {
        let at = if v.has_pad(pad) {
            v.position(pad)
        } else {
            v.bindings.len() as int
        };
        if v.has_pad(pad) {
            lemma_position(v, at);
        }
        assert(w.bindings[at].pad == pad);
        lemma_position(w, at);
    }
}

} // verus!
