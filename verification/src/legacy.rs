//! The first-generation messaging model (users, messages, channels and
//! servers with 32-bit identifiers) and its voice-location bookkeeping,
//! still used by the older adaptor layer.

use vstd::prelude::*;

use std::marker::PhantomData;

verus! {

/// First-generation identifier type.
pub type ID = u32;

/// An ID paired with data; identifiers compare by ID alone.
#[derive(Debug, Clone)]
pub struct Identifier<D> {
    pub neo_id: ID,
    pub data: D,
}

impl<D> Identifier<D> {
    /// The ID.
    pub fn get_id(&self) -> (r: &ID)
        ensures
            *r == self.neo_id,
    {
        &self.neo_id
    }

    /// The same ID without data.
    pub fn remove_data(self) -> (r: Identifier<()>)
        ensures
            r.neo_id == self.neo_id,
    {
        Identifier { neo_id: self.neo_id, data: () }
    }
}

impl<D, E> PartialEq<Identifier<E>> for Identifier<D> {
    fn eq(&self, other: &Identifier<E>) -> (r: bool) {
        self.neo_id == other.neo_id
    }
}

impl<D, E> vstd::std_specs::cmp::PartialEqSpecImpl<Identifier<E>> for Identifier<D> {
    open spec fn obeys_eq_spec() -> bool {
        true
    }

    open spec fn eq_spec(&self, other: &Identifier<E>) -> bool {
        self.neo_id == other.neo_id
    }
}

/// A user.
#[derive(Debug, Clone)]
pub struct Usr {
    pub name: String,
    /// Path of the cached avatar, if any.
    pub icon: Option<String>,
}

/// A reaction: an emoji character and its count.
#[derive(Debug, Clone, Copy)]
pub struct Reaction {
    pub emoji: char,
    pub count: u32,
}

/// A message.
#[derive(Debug)]
pub struct Msg {
    pub author: Identifier<Usr>,
    pub text: String,
    pub reactions: Vec<Reaction>,
}

/// What a channel carries.
#[derive(Debug, Clone, Copy, PartialEq, Eq)]
pub enum ChanType {
    Spacer,
    Text,
    Voice,
    TextAndVoice,
}

/// A channel.
#[derive(Debug)]
pub struct Chan {
    pub chan_type: ChanType,
    pub name: String,
    pub icon: Option<String>,
    pub participants: Vec<Identifier<Usr>>,
}

/// A server.
#[derive(Debug, Clone)]
pub struct Server {
    pub name: String,
    pub icon: Option<String>,
}

/// State of a voice call.
#[derive(Debug, Clone, Copy, PartialEq, Eq)]
pub enum CallStatus {
    Connected,
    Connecting,
    Disconnected,
}

/// What a first-generation messenger reports for a capability it lacks.
#[derive(Debug, Clone, Copy, PartialEq, Eq)]
pub enum MessamgerError {
    NotImplimented,
}

/// Where a voice call is joined: a direct channel or a server.
pub enum VCLocationKind<'a> {
    Direct(&'a Identifier<Chan>),
    Server,
}

// === voice-location typestate ===
/// Typestate: nothing received yet.
#[derive(Debug, Clone, Copy)]
pub struct NoData;

/// Typestate: the endpoint arrived, the session has not.
#[derive(Debug, Clone, Copy)]
pub struct EndpointData;

/// Typestate: the session arrived, the endpoint has not.
#[derive(Debug, Clone, Copy)]
pub struct SessionData;

/// Typestate: endpoint and session are both known.
#[derive(Debug, Clone, Copy)]
pub struct AllData;

/// States that still wait for a session id.
pub trait AwaitingSession {
    type Next;
}

/// States that still wait for an endpoint.
pub trait AwaitingEndpoint {
    type Next;
}

impl AwaitingSession for NoData {
    type Next = SessionData;
}

impl AwaitingEndpoint for NoData {
    type Next = EndpointData;
}

impl AwaitingSession for EndpointData {
    type Next = AllData;
}

impl AwaitingEndpoint for SessionData {
    type Next = AllData;
}

/// What is known of a voice location; the location id is the guild id in
/// guilds and the channel id in direct channels.
#[derive(Debug)]
pub struct VCLocation<DataFetched> {
    location_id: String,
    session_id: String,
    token: String,
    endpoint: String,
    status: PhantomData<DataFetched>,
}

impl<DataFetched> VCLocation<DataFetched> {
    pub closed spec fn location_id_spec(&self) -> Seq<char> {
        self.location_id@
    }

    pub closed spec fn session_id_spec(&self) -> Seq<char> {
        self.session_id@
    }

    pub closed spec fn token_spec(&self) -> Seq<char> {
        self.token@
    }

    pub closed spec fn endpoint_spec(&self) -> Seq<char> {
        self.endpoint@
    }

    /// A copy of the location.
    pub fn duplicate(&self) -> (r: Self)
        ensures
            r.location_id_spec() == self.location_id_spec(),
            r.session_id_spec() == self.session_id_spec(),
            r.token_spec() == self.token_spec(),
            r.endpoint_spec() == self.endpoint_spec(),
    {
        VCLocation {
            location_id: self.location_id.clone(),
            session_id: self.session_id.clone(),
            token: self.token.clone(),
            endpoint: self.endpoint.clone(),
            status: PhantomData,
        }
    }
}

impl VCLocation<NoData> {
    /// A location with nothing but its id.
    pub fn new(location_id: String) -> (r: Self)
        ensures
            r.location_id_spec() == location_id@,
            r.session_id_spec().len() == 0,
            r.token_spec().len() == 0,
            r.endpoint_spec().len() == 0,
    {
        VCLocation {
            location_id,
            session_id: String::new(),
            token: String::new(),
            endpoint: String::new(),
            status: PhantomData,
        }
    }
}

impl<Data: AwaitingEndpoint> VCLocation<Data> {
    /// Records the endpoint and its token.
    pub fn insert_endpoint(self, endpoint: String, token: String) -> (r: VCLocation<Data::Next>)
        ensures
            r.location_id_spec() == self.location_id_spec(),
            r.session_id_spec() == self.session_id_spec(),
            r.token_spec() == token@,
            r.endpoint_spec() == endpoint@,
    {
        VCLocation {
            location_id: self.location_id,
            session_id: self.session_id,
            token,
            endpoint,
            status: PhantomData,
        }
    }
}

impl<Data: AwaitingSession> VCLocation<Data> {
    /// Records the session id.
    pub fn insert_session(self, session_id: String) -> (r: VCLocation<Data::Next>)
        ensures
            r.location_id_spec() == self.location_id_spec(),
            r.session_id_spec() == session_id@,
            r.token_spec() == self.token_spec(),
            r.endpoint_spec() == self.endpoint_spec(),
    {
        VCLocation {
            location_id: self.location_id,
            session_id,
            token: self.token,
            endpoint: self.endpoint,
            status: PhantomData,
        }
    }
}

impl VCLocation<AllData> {
    /// The location id.
    pub fn get_location_id(&self) -> (r: &str)
        ensures
            r@ == self.location_id_spec(),
    {
        self.location_id.as_str()
    }

    /// The voice server endpoint.
    pub fn get_endpoint(&self) -> (r: &str)
        ensures
            r@ == self.endpoint_spec(),
    {
        self.endpoint.as_str()
    }

    /// The token for the endpoint.
    pub fn get_token(&self) -> (r: &str)
        ensures
            r@ == self.token_spec(),
    {
        self.token.as_str()
    }

    /// The session id.
    pub fn get_session(&self) -> (r: &str)
        ensures
            r@ == self.session_id_spec(),
    {
        self.session_id.as_str()
    }

    /// Back to waiting for data, keeping what was known.
    pub fn clear(self) -> (r: VCLocation<NoData>)
        ensures
            r.location_id_spec() == self.location_id_spec(),
            r.session_id_spec() == self.session_id_spec(),
            r.token_spec() == self.token_spec(),
            r.endpoint_spec() == self.endpoint_spec(),
    {
        VCLocation {
            location_id: self.location_id,
            session_id: self.session_id,
            token: self.token,
            endpoint: self.endpoint,
            status: PhantomData,
        }
    }
}

/// A voice location in whichever state it is in.
#[derive(Debug)]
pub enum VCLoc {
    Unset,
    AwaitingData(VCLocation<NoData>),
    AwaitingSession(VCLocation<EndpointData>),
    AwaitingEndpoint(VCLocation<SessionData>),
    Ready(VCLocation<AllData>),
}

impl Default for VCLoc {
    fn default() -> (r: Self)
        ensures
            r is Unset,
    {
        VCLoc::Unset
    }
}

/// The four strings a voice location holds, in whichever state.
pub open spec fn vc_loc_fields(l: VCLoc) -> (Seq<char>, Seq<char>, Seq<char>, Seq<char>) {
    match l {
        VCLoc::Unset => (Seq::empty(), Seq::empty(), Seq::empty(), Seq::empty()),
        VCLoc::AwaitingData(v) => (v.location_id_spec(), v.session_id_spec(), v.token_spec(), v.endpoint_spec()),
        VCLoc::AwaitingSession(v) => (v.location_id_spec(), v.session_id_spec(), v.token_spec(), v.endpoint_spec()),
        VCLoc::AwaitingEndpoint(v) => (v.location_id_spec(), v.session_id_spec(), v.token_spec(), v.endpoint_spec()),
        VCLoc::Ready(v) => (v.location_id_spec(), v.session_id_spec(), v.token_spec(), v.endpoint_spec()),
    }
}

impl VCLoc {
    /// Goes back from ready to waiting for data; only a ready location can
    /// be cleared.
    pub fn clear(&mut self)
        requires
            *old(self) is Ready,
        ensures
            *final(self) is AwaitingData,
            vc_loc_fields(*final(self)) == vc_loc_fields(*old(self)),
    {
        let mut current = VCLoc::Unset;
        std::mem::swap(self, &mut current);
        match current {
            VCLoc::Ready(v) => {
                *self = VCLoc::AwaitingData(v.clear());
            },
            other => {
                *self = other;
            },
        }
    }

    /// Records an endpoint: a location waiting for data now waits for the
    /// session, one waiting for the endpoint becomes ready, and a ready one
    /// takes the new endpoint and token.
    pub fn insert_endpoint(&mut self, endpoint: String, token: String)
        requires
            *old(self) is AwaitingData || *old(self) is AwaitingEndpoint || *old(self) is Ready,
        ensures
            *old(self) is AwaitingData ==> *final(self) is AwaitingSession,
            *old(self) is AwaitingEndpoint ==> *final(self) is Ready,
            *old(self) is Ready ==> *final(self) is Ready,
            vc_loc_fields(*final(self)).0 == vc_loc_fields(*old(self)).0,
            vc_loc_fields(*final(self)).1 == vc_loc_fields(*old(self)).1,
            vc_loc_fields(*final(self)).2 == token@,
            vc_loc_fields(*final(self)).3 == endpoint@,
    {
        let mut current = VCLoc::Unset;
        std::mem::swap(self, &mut current);
        match current {
            VCLoc::AwaitingData(v) => {
                *self = VCLoc::AwaitingSession(v.insert_endpoint(endpoint, token));
            },
            VCLoc::AwaitingEndpoint(v) => {
                *self = VCLoc::Ready(v.insert_endpoint(endpoint, token));
            },
            VCLoc::Ready(v) => {
                let updated = VCLocation::<AllData> {
                    location_id: v.location_id,
                    session_id: v.session_id,
                    token,
                    endpoint,
                    status: PhantomData,
                };
                *self = VCLoc::Ready(updated);
            },
            other => {
                *self = other;
            },
        }
    }

    /// Records a session id: a location waiting for data now waits for the
    /// endpoint, one waiting for the session becomes ready, and a ready one
    /// takes the new session id.
    pub fn insert_session(&mut self, session_id: String)
        requires
            *old(self) is AwaitingData || *old(self) is AwaitingSession || *old(self) is Ready,
        ensures
            *old(self) is AwaitingData ==> *final(self) is AwaitingEndpoint,
            *old(self) is AwaitingSession ==> *final(self) is Ready,
            *old(self) is Ready ==> *final(self) is Ready,
            vc_loc_fields(*final(self)).0 == vc_loc_fields(*old(self)).0,
            vc_loc_fields(*final(self)).1 == session_id@,
            vc_loc_fields(*final(self)).2 == vc_loc_fields(*old(self)).2,
            vc_loc_fields(*final(self)).3 == vc_loc_fields(*old(self)).3,
    {
        let mut current = VCLoc::Unset;
        std::mem::swap(self, &mut current);
        match current {
            VCLoc::AwaitingData(v) => {
                *self = VCLoc::AwaitingEndpoint(v.insert_session(session_id));
            },
            VCLoc::AwaitingSession(v) => {
                *self = VCLoc::Ready(v.insert_session(session_id));
            },
            VCLoc::Ready(v) => {
                let updated = VCLocation::<AllData> {
                    location_id: v.location_id,
                    session_id,
                    token: v.token,
                    endpoint: v.endpoint,
                    status: PhantomData,
                };
                *self = VCLoc::Ready(updated);
            },
            other => {
                *self = other;
            },
        }
    }
}

} // verus!
