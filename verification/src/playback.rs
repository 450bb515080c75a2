//! Routing of decoded incoming voice frames to playback sources, one per
//! remote SSRC. A source is requested from the mixer the first time an SSRC
//! is heard; until the mixer hands it over, frames for that SSRC are
//! dropped; once connected, every frame is delivered to it.

use vstd::prelude::*;

use std::collections::HashMap;

verus! {

broadcast use vstd::std_specs::hash::group_hash_axioms;

/// Where an SSRC's playback source stands.
#[derive(Debug, Clone, Copy, PartialEq, Eq, Structural)]
pub enum SourceState {
    /// Requested from the mixer, not handed over yet.
    Initializing,
    /// Handed over: frames are pushed to it.
    Connected,
}

/// What asking an initializing source's hand-over channel gave.
#[derive(Debug, Clone, Copy, PartialEq, Eq, Structural)]
pub enum HandOver {
    /// The source arrived.
    Ready,
    /// Nothing yet.
    Pending,
    /// The mixer dropped the request.
    Dropped,
}

/// What becomes of a frame.
#[derive(Debug, Clone, Copy, PartialEq, Eq, Structural)]
pub enum FrameRoute {
    /// First frame of a new SSRC: a source is requested, the frame is
    /// dropped, and the receive loop yields so the request reaches the UI.
    RequestSource,
    /// Pushed to the SSRC's source.
    Deliver,
    /// Dropped; the receive loop goes on.
    Discard,
}

impl FrameRoute {
    /// Whether the receive loop goes on without yielding.
    pub fn keeps_receiving(&self) -> (r: bool)
        ensures
            r == (*self != FrameRoute::RequestSource),
    {
        !matches!(self, FrameRoute::RequestSource)
    }
}

/// The playback sources by SSRC.
#[derive(Debug)]
pub struct PlaybackSources {
    sources: HashMap<u32, SourceState>,
}

/// The next table and the route of a frame for `ssrc`; `hand_over` is only
/// read while the SSRC's source is initializing.
pub open spec fn route_spec(sources: Map<u32, SourceState>, ssrc: u32, hand_over: HandOver) -> (
    Map<u32, SourceState>,
    FrameRoute,
) {
    if !sources.contains_key(ssrc) {
        (sources.insert(ssrc, SourceState::Initializing), FrameRoute::RequestSource)
    } else if sources[ssrc] == SourceState::Connected {
        (sources, FrameRoute::Deliver)
    } else {
        match hand_over {
            HandOver::Ready => (sources.insert(ssrc, SourceState::Connected), FrameRoute::Deliver),
            HandOver::Pending => (sources, FrameRoute::Discard),
            HandOver::Dropped => (sources.remove(ssrc), FrameRoute::Discard),
        }
    }
}

impl PlaybackSources {
    /// The sources' states by SSRC.
    pub closed spec fn states(&self) -> Map<u32, SourceState> {
        self.sources@
    }

    /// No source yet.
    pub fn new() -> (r: Self)
        ensures
            r.states() == Map::<u32, SourceState>::empty(),
    {
        PlaybackSources { sources: HashMap::new() }
    }

    /// The state of an SSRC's source, if one was requested.
    pub fn state(&self, ssrc: u32) -> (r: Option<SourceState>)
        ensures
            r == (if self.states().contains_key(ssrc) {
                Some(self.states()[ssrc])
            } else {
                None
            }),
    {
        match self.sources.get(&ssrc) {
            Some(s) => Some(*s),
            None => None,
        }
    }

    /// Routes a frame from `ssrc`. An unknown SSRC gets a source requested;
    /// an initializing one becomes connected when the hand-over is ready
    /// (and the frame goes to it), is forgotten when the hand-over was
    /// dropped (so the next frame requests again), and otherwise drops the
    /// frame; a connected one gets the frame.
    pub fn route(&mut self, ssrc: u32, hand_over: HandOver) -> (r: FrameRoute)
        ensures
            (final(self).states(), r) == route_spec(old(self).states(), ssrc, hand_over),
    {
        match self.state(ssrc) {
            None => {
                self.sources.insert(ssrc, SourceState::Initializing);
                FrameRoute::RequestSource
            },
            Some(SourceState::Connected) => FrameRoute::Deliver,
            Some(SourceState::Initializing) => match hand_over {
                HandOver::Ready => {
                    self.sources.insert(ssrc, SourceState::Connected);
                    FrameRoute::Deliver
                },
                HandOver::Pending => FrameRoute::Discard,
                HandOver::Dropped => {
                    self.sources.remove(&ssrc);
                    FrameRoute::Discard
                },
            },
        }
    }
}

/// A newly heard SSRC requests exactly one source: its first frame asks for
/// it, and while the hand-over is pending no further request is made; once
/// handed over, its frames are delivered.
pub proof fn law_one_request_per_source(sources: Map<u32, SourceState>, ssrc: u32, later: HandOver)
    requires
        !sources.contains_key(ssrc),
    ensures
        ({
            let (s1, r1) = route_spec(sources, ssrc, later);
            &&& r1 == FrameRoute::RequestSource
            &&& route_spec(s1, ssrc, HandOver::Pending).1 == FrameRoute::Discard
            &&& route_spec(s1, ssrc, HandOver::Ready).1 == FrameRoute::Deliver
            &&& route_spec(route_spec(s1, ssrc, HandOver::Ready).0, ssrc, later).1 == FrameRoute::Deliver
        }),
{
}

/// A frame from one SSRC never changes the state of another's source.
pub proof fn law_other_sources_untouched(sources: Map<u32, SourceState>, ssrc: u32, other: u32, hand_over: HandOver)
    requires
        ssrc != other,
    ensures
        route_spec(sources, ssrc, hand_over).0.contains_key(other) == sources.contains_key(other),
        sources.contains_key(other) ==> route_spec(sources, ssrc, hand_over).0[other] == sources[other],
{
}

} // verus!
