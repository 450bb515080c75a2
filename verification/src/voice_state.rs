//! State kept while joining and running a voice call: the data the voice
//! connection waits for, the voice gateway opcodes, and the DAVE protocol
//! transitions announced by the server.

use vstd::prelude::*;

use std::collections::HashMap;

use crate::encryption::{is_xchacha, EncryptionMode};

verus! {

broadcast use vstd::std_specs::hash::group_hash_axioms;

/// Channel a call takes place in.
pub type ChannelID = u64;

/// Voice session id sent by the main gateway.
pub type SessionId = String;

/// A voice server endpoint and the token that admits us to it.
#[derive(Debug)]
pub struct Endpoint {
    pub wss: String,
    pub token: String,
}

impl Endpoint {
    /// An endpoint with the given address and token.
    pub fn new(wss: String, token: String) -> (r: Self)
        ensures
            r.wss == wss,
            r.token == token,
    {
        Endpoint { wss, token }
    }
}

/// Voice gateway opcodes (Discord's codes in the comments).
#[derive(Clone, Copy, Debug, PartialEq, Eq, Structural)]
pub enum VoiceOpcode {
    /// 0
    Identify,
    /// 1
    SelectProtocol,
    /// 2
    Ready,
    /// 3
    Heartbeat,
    /// 4
    SessionDescription,
    /// 5
    Speaking,
    /// 6
    HeartbeatACK,
    /// 7
    Resume,
    /// 8
    Hello,
    /// 9
    Resumed,
    /// 11
    ClientConnect,
    /// 12
    Video,
    /// 13
    ClientDisconnect,
    /// 14
    SessionUpdate,
    /// 15
    MediaSinkWants,
    /// 16
    VoiceBackendVersion,
    /// 18
    ClientFlags,
    /// 19
    SpeedTest,
    /// 20
    ClientPlatform,
    /// 21
    DAVEProtocolPrepareTransition,
    /// 22
    DAVEProtocolExecuteTransition,
    /// 23
    DAVEProtocolTransitionReady,
    /// 24
    DAVEProtocolPrepareEpoch,
    /// 25
    MLSExternalSenderPackage,
    /// 26
    MLSKeyPackage,
    /// 27
    MLSProposals,
    /// 28
    MLSCommitWelcome,
    /// 29
    MLSAnnounceCommitTransition,
    /// 30
    MLSWelcome,
    /// 31
    MLSInvalidCommitWelcome,
}

pub open spec fn voice_opcode_code(op: VoiceOpcode) -> u8 {
    match op {
        VoiceOpcode::Identify => 0,
        VoiceOpcode::SelectProtocol => 1,
        VoiceOpcode::Ready => 2,
        VoiceOpcode::Heartbeat => 3,
        VoiceOpcode::SessionDescription => 4,
        VoiceOpcode::Speaking => 5,
        VoiceOpcode::HeartbeatACK => 6,
        VoiceOpcode::Resume => 7,
        VoiceOpcode::Hello => 8,
        VoiceOpcode::Resumed => 9,
        VoiceOpcode::ClientConnect => 11,
        VoiceOpcode::Video => 12,
        VoiceOpcode::ClientDisconnect => 13,
        VoiceOpcode::SessionUpdate => 14,
        VoiceOpcode::MediaSinkWants => 15,
        VoiceOpcode::VoiceBackendVersion => 16,
        VoiceOpcode::ClientFlags => 18,
        VoiceOpcode::SpeedTest => 19,
        VoiceOpcode::ClientPlatform => 20,
        VoiceOpcode::DAVEProtocolPrepareTransition => 21,
        VoiceOpcode::DAVEProtocolExecuteTransition => 22,
        VoiceOpcode::DAVEProtocolTransitionReady => 23,
        VoiceOpcode::DAVEProtocolPrepareEpoch => 24,
        VoiceOpcode::MLSExternalSenderPackage => 25,
        VoiceOpcode::MLSKeyPackage => 26,
        VoiceOpcode::MLSProposals => 27,
        VoiceOpcode::MLSCommitWelcome => 28,
        VoiceOpcode::MLSAnnounceCommitTransition => 29,
        VoiceOpcode::MLSWelcome => 30,
        VoiceOpcode::MLSInvalidCommitWelcome => 31,
    }
}

impl VoiceOpcode {
    /// The wire code of the opcode.
    pub fn code(self) -> (r: u8)
        ensures
            r == voice_opcode_code(self),
    {
        match self {
            VoiceOpcode::Identify => 0,
            VoiceOpcode::SelectProtocol => 1,
            VoiceOpcode::Ready => 2,
            VoiceOpcode::Heartbeat => 3,
            VoiceOpcode::SessionDescription => 4,
            VoiceOpcode::Speaking => 5,
            VoiceOpcode::HeartbeatACK => 6,
            VoiceOpcode::Resume => 7,
            VoiceOpcode::Hello => 8,
            VoiceOpcode::Resumed => 9,
            VoiceOpcode::ClientConnect => 11,
            VoiceOpcode::Video => 12,
            VoiceOpcode::ClientDisconnect => 13,
            VoiceOpcode::SessionUpdate => 14,
            VoiceOpcode::MediaSinkWants => 15,
            VoiceOpcode::VoiceBackendVersion => 16,
            VoiceOpcode::ClientFlags => 18,
            VoiceOpcode::SpeedTest => 19,
            VoiceOpcode::ClientPlatform => 20,
            VoiceOpcode::DAVEProtocolPrepareTransition => 21,
            VoiceOpcode::DAVEProtocolExecuteTransition => 22,
            VoiceOpcode::DAVEProtocolTransitionReady => 23,
            VoiceOpcode::DAVEProtocolPrepareEpoch => 24,
            VoiceOpcode::MLSExternalSenderPackage => 25,
            VoiceOpcode::MLSKeyPackage => 26,
            VoiceOpcode::MLSProposals => 27,
            VoiceOpcode::MLSCommitWelcome => 28,
            VoiceOpcode::MLSAnnounceCommitTransition => 29,
            VoiceOpcode::MLSWelcome => 30,
            VoiceOpcode::MLSInvalidCommitWelcome => 31,
        }
    }

    /// The opcode written as `code`, if any.
    pub fn from_code(code: u8) -> (r: Option<VoiceOpcode>)
        ensures
            r matches Some(op) ==> voice_opcode_code(op) == code,
            r is None ==> forall|op: VoiceOpcode| voice_opcode_code(op) != code,
    {
        match code {
            0 => Some(VoiceOpcode::Identify),
            1 => Some(VoiceOpcode::SelectProtocol),
            2 => Some(VoiceOpcode::Ready),
            3 => Some(VoiceOpcode::Heartbeat),
            4 => Some(VoiceOpcode::SessionDescription),
            5 => Some(VoiceOpcode::Speaking),
            6 => Some(VoiceOpcode::HeartbeatACK),
            7 => Some(VoiceOpcode::Resume),
            8 => Some(VoiceOpcode::Hello),
            9 => Some(VoiceOpcode::Resumed),
            11 => Some(VoiceOpcode::ClientConnect),
            12 => Some(VoiceOpcode::Video),
            13 => Some(VoiceOpcode::ClientDisconnect),
            14 => Some(VoiceOpcode::SessionUpdate),
            15 => Some(VoiceOpcode::MediaSinkWants),
            16 => Some(VoiceOpcode::VoiceBackendVersion),
            18 => Some(VoiceOpcode::ClientFlags),
            19 => Some(VoiceOpcode::SpeedTest),
            20 => Some(VoiceOpcode::ClientPlatform),
            21 => Some(VoiceOpcode::DAVEProtocolPrepareTransition),
            22 => Some(VoiceOpcode::DAVEProtocolExecuteTransition),
            23 => Some(VoiceOpcode::DAVEProtocolTransitionReady),
            24 => Some(VoiceOpcode::DAVEProtocolPrepareEpoch),
            25 => Some(VoiceOpcode::MLSExternalSenderPackage),
            26 => Some(VoiceOpcode::MLSKeyPackage),
            27 => Some(VoiceOpcode::MLSProposals),
            28 => Some(VoiceOpcode::MLSCommitWelcome),
            29 => Some(VoiceOpcode::MLSAnnounceCommitTransition),
            30 => Some(VoiceOpcode::MLSWelcome),
            31 => Some(VoiceOpcode::MLSInvalidCommitWelcome),
            _ => None,
        }
    }
}

// === joining a call ===
/// What the voice connection still waits for: the main gateway delivers a
/// session id and a voice server endpoint, in either order.
#[derive(Debug)]
pub enum VoiceGateawayStatus {
    Closed,
    AwaitingData { channel_id: ChannelID },
    AwaitingEndpoint { channel_id: ChannelID, session_id: SessionId },
    AwaitingSession { channel_id: ChannelID, endpoint: Endpoint },
    Ready { channel_id: ChannelID, endpoint: Endpoint, session_id: SessionId },
}

impl Default for VoiceGateawayStatus {
    fn default() -> (r: Self)
        ensures
            r is Closed,
    {
        VoiceGateawayStatus::Closed
    }
}

/// The status after an endpoint arrives: it completes a status waiting for
/// it and replaces the endpoint of one waiting for the session; a closed or
/// ready status ignores it.
pub open spec fn with_endpoint(s: VoiceGateawayStatus, e: Endpoint) -> VoiceGateawayStatus {
    match s {
        VoiceGateawayStatus::Closed => VoiceGateawayStatus::Closed,
        VoiceGateawayStatus::AwaitingData { channel_id } => VoiceGateawayStatus::AwaitingSession {
            channel_id,
            endpoint: e,
        },
        VoiceGateawayStatus::AwaitingEndpoint { channel_id, session_id } => VoiceGateawayStatus::Ready {
            channel_id,
            endpoint: e,
            session_id,
        },
        VoiceGateawayStatus::AwaitingSession { channel_id, .. } => VoiceGateawayStatus::AwaitingSession {
            channel_id,
            endpoint: e,
        },
        VoiceGateawayStatus::Ready { channel_id, endpoint, session_id } => VoiceGateawayStatus::Ready {
            channel_id,
            endpoint,
            session_id,
        },
    }
}

/// The status after a session id arrives: it completes a status waiting for
/// it; a status that already has one, a closed or a ready status ignores it.
pub open spec fn with_session(s: VoiceGateawayStatus, id: SessionId) -> VoiceGateawayStatus {
    match s {
        VoiceGateawayStatus::Closed => VoiceGateawayStatus::Closed,
        VoiceGateawayStatus::AwaitingData { channel_id } => VoiceGateawayStatus::AwaitingEndpoint {
            channel_id,
            session_id: id,
        },
        VoiceGateawayStatus::AwaitingEndpoint { channel_id, session_id } => VoiceGateawayStatus::AwaitingEndpoint {
            channel_id,
            session_id,
        },
        VoiceGateawayStatus::AwaitingSession { channel_id, endpoint } => VoiceGateawayStatus::Ready {
            channel_id,
            endpoint,
            session_id: id,
        },
        VoiceGateawayStatus::Ready { channel_id, endpoint, session_id } => VoiceGateawayStatus::Ready {
            channel_id,
            endpoint,
            session_id,
        },
    }
}

impl VoiceGateawayStatus {
    /// Records a voice server endpoint, as in [`with_endpoint`].
    pub fn insert_endpoint(&mut self, endpoint: Endpoint)
        ensures
            *final(self) == with_endpoint(*old(self), endpoint),
    {
        let mut current = VoiceGateawayStatus::Closed;
        std::mem::swap(self, &mut current);
        *self = match current {
            VoiceGateawayStatus::Closed => VoiceGateawayStatus::Closed,
            VoiceGateawayStatus::AwaitingData { channel_id } => VoiceGateawayStatus::AwaitingSession {
                channel_id,
                endpoint,
            },
            VoiceGateawayStatus::AwaitingEndpoint { channel_id, session_id } => VoiceGateawayStatus::Ready {
                channel_id,
                endpoint,
                session_id,
            },
            VoiceGateawayStatus::AwaitingSession { channel_id, .. } => VoiceGateawayStatus::AwaitingSession {
                channel_id,
                endpoint,
            },
            VoiceGateawayStatus::Ready { channel_id, endpoint, session_id } => VoiceGateawayStatus::Ready {
                channel_id,
                endpoint,
                session_id,
            },
        };
    }

    /// Records a session id, as in [`with_session`].
    pub fn insert_session_id(&mut self, session_id: SessionId)
        ensures
            *final(self) == with_session(*old(self), session_id),
    {
        let mut current = VoiceGateawayStatus::Closed;
        std::mem::swap(self, &mut current);
        *self = match current {
            VoiceGateawayStatus::Closed => VoiceGateawayStatus::Closed,
            VoiceGateawayStatus::AwaitingData { channel_id } => VoiceGateawayStatus::AwaitingEndpoint {
                channel_id,
                session_id,
            },
            VoiceGateawayStatus::AwaitingEndpoint { channel_id, session_id } => VoiceGateawayStatus::AwaitingEndpoint {
                channel_id,
                session_id,
            },
            VoiceGateawayStatus::AwaitingSession { channel_id, endpoint } => VoiceGateawayStatus::Ready {
                channel_id,
                endpoint,
                session_id,
            },
            VoiceGateawayStatus::Ready { channel_id, endpoint, session_id } => VoiceGateawayStatus::Ready {
                channel_id,
                endpoint,
                session_id,
            },
        };
    }
}

/// Session id and endpoint may arrive in either order: both orders take a
/// status waiting for them to the same ready status.
pub proof fn law_join_data_in_either_order(channel_id: ChannelID, e: Endpoint, id: SessionId)
    ensures
        with_session(with_endpoint(VoiceGateawayStatus::AwaitingData { channel_id }, e), id)
            == with_endpoint(with_session(VoiceGateawayStatus::AwaitingData { channel_id }, id), e),
        with_session(with_endpoint(VoiceGateawayStatus::AwaitingData { channel_id }, e), id)
            == (VoiceGateawayStatus::Ready { channel_id, endpoint: e, session_id: id }),
{
}

/// Once ready, neither a later endpoint nor a later session id changes the
/// status.
pub proof fn law_ready_is_stable(s: VoiceGateawayStatus, e: Endpoint, id: SessionId)
    requires
        s is Ready,
    ensures
        with_endpoint(s, e) == s,
        with_session(s, id) == s,
{
}

// === DAVE transitions ===
/// Why a voice gateway message could not be acted on.
#[derive(Clone, Copy, Debug, PartialEq, Eq)]
pub enum VoiceGatewayError {
    /// The server does not offer the one mode this client implements.
    RequiredModeUnavailable,
    /// A DAVE protocol version of zero.
    ZeroDaveVersion,
}

/// The server's Ready offers the XChaCha20 mode; otherwise the call cannot
/// proceed.
pub fn check_offered_modes(modes: &Vec<EncryptionMode>) -> (r: Result<(), VoiceGatewayError>)
    ensures
        r is Ok <==> exists|i: int| 0 <= i < modes@.len() && is_xchacha(#[trigger] modes@[i]),
        r is Err ==> r->Err_0 == VoiceGatewayError::RequiredModeUnavailable,
{
    let mut i: usize = 0;
    while i < modes.len()
        invariant
            i <= modes@.len(),
            forall|j: int| 0 <= j < i ==> !is_xchacha(#[trigger] modes@[j]),
        decreases modes@.len() - i,
    {
        if modes[i] == EncryptionMode::aead_xchacha20_poly1305_rtpsize {
            return Ok(());
        }
        i = i + 1;
    }
    Err(VoiceGatewayError::RequiredModeUnavailable)
}

/// A DAVE protocol version must be nonzero.
pub fn nonzero_dave_version(version: u16) -> (r: Result<u16, VoiceGatewayError>)
    ensures
        version == 0 ==> r == Err::<u16, VoiceGatewayError>(VoiceGatewayError::ZeroDaveVersion),
        version != 0 ==> r == Ok::<u16, VoiceGatewayError>(version),
{
    if version == 0 {
        Err(VoiceGatewayError::ZeroDaveVersion)
    } else {
        Ok(version)
    }
}

/// What executing a transition found.
#[derive(Clone, Copy, Debug, PartialEq, Eq)]
pub enum TransitionOutcome {
    /// No transition with that id was pending.
    NotPending,
    /// The pending version is the session's.
    Applied,
    /// The pending version differs from the session's; it is dropped
    /// without being applied.
    VersionMismatch { old: u16, new: u16 },
}

/// The reply owed to the server after processing an MLS commit or welcome.
#[derive(Clone, Copy, Debug, PartialEq, Eq)]
pub enum MlsReply {
    /// Opcode 31: the commit or welcome could not be processed.
    InvalidCommitWelcome { transition_id: u16 },
    /// Opcode 23: ready for the announced transition.
    TransitionReady { transition_id: u16 },
}

/// What executing `transition_id` finds among `pending` transitions for a
/// session at `session_version`.
pub open spec fn execution_outcome(pending: Map<u16, u16>, session_version: u16, transition_id: u16) -> TransitionOutcome {
    if !pending.contains_key(transition_id) {
        TransitionOutcome::NotPending
    } else if pending[transition_id] == session_version {
        TransitionOutcome::Applied
    } else {
        TransitionOutcome::VersionMismatch { old: session_version, new: pending[transition_id] }
    }
}

/// Protocol versions of DAVE transitions announced but not yet executed,
/// by transition id.
#[derive(Debug)]
pub struct DaveTransitions {
    pending: HashMap<u16, u16>,
}

impl DaveTransitions {
    /// The pending transitions.
    pub closed spec fn pending_spec(&self) -> Map<u16, u16> {
        self.pending@
    }

    /// No pending transition.
    pub fn new() -> (r: Self)
        ensures
            r.pending_spec() == Map::<u16, u16>::empty(),
    {
        DaveTransitions { pending: HashMap::new() }
    }

    /// Records that transition `transition_id` moves to `version`.
    pub fn insert(&mut self, transition_id: u16, version: u16)
        ensures
            final(self).pending_spec() == old(self).pending_spec().insert(transition_id, version),
    {
        self.pending.insert(transition_id, version);
    }

    /// Executes transition `transition_id` for a session at `session_version`:
    /// the pending entry is removed and compared with the session's version.
    pub fn execute_pending_transition(&mut self, session_version: u16, transition_id: u16) -> (r: TransitionOutcome)
        ensures
            final(self).pending_spec() == old(self).pending_spec().remove(transition_id),
            r == execution_outcome(old(self).pending_spec(), session_version, transition_id),
    {
        match self.pending.remove(&transition_id) {
            None => TransitionOutcome::NotPending,
            Some(new_version) => {
                if new_version == session_version {
                    TransitionOutcome::Applied
                } else {
                    TransitionOutcome::VersionMismatch { old: session_version, new: new_version }
                }
            },
        }
    }

    /// Prepare-transition (opcode 21): records the session's current version
    /// for the transition; transition 0 is executed at once.
    pub fn prepare_transition(&mut self, session_version: u16, transition_id: u16) -> (r: Option<TransitionOutcome>)
        ensures
            transition_id != 0 ==> r is None && final(self).pending_spec() == old(self).pending_spec().insert(
                transition_id,
                session_version,
            ),
            transition_id == 0 ==> r == Some(TransitionOutcome::Applied) && final(self).pending_spec()
                == old(self).pending_spec().remove(0),
    {
        self.insert(transition_id, session_version);
        if transition_id == 0 {
            let outcome = self.execute_pending_transition(session_version, transition_id);
            proof {
                assert(old(self).pending_spec().insert(0, session_version).remove(0) =~= old(self).pending_spec().remove(0));
            }
            Some(outcome)
        } else {
            None
        }
    }

    /// The reply to an MLS commit (opcode 29) or welcome (opcode 30) for
    /// `transition_id`: a failure is reported as invalid; a success for a
    /// nonzero transition records the protocol version as pending and
    /// announces readiness; a success for transition 0 needs no reply.
    pub fn respond_to_mls_transition(&mut self, protocol_version: u16, transition_id: u16, processed: bool) -> (r: Option<MlsReply>)
        ensures
            !processed ==> r == Some(MlsReply::InvalidCommitWelcome { transition_id })
                && final(self).pending_spec() == old(self).pending_spec(),
            processed && transition_id != 0 ==> r == Some(MlsReply::TransitionReady { transition_id })
                && final(self).pending_spec() == old(self).pending_spec().insert(transition_id, protocol_version),
            processed && transition_id == 0 ==> r is None && final(self).pending_spec() == old(self).pending_spec(),
    {
        if !processed {
            Some(MlsReply::InvalidCommitWelcome { transition_id })
        } else if transition_id != 0 {
            self.insert(transition_id, protocol_version);
            Some(MlsReply::TransitionReady { transition_id })
        } else {
            None
        }
    }
}

/// A transition this client announced as ready, executed while the session
/// is still at the announced version, applies cleanly and is then no longer
/// pending; the other pending transitions are untouched.
pub proof fn law_announced_transition_applies(pending: Map<u16, u16>, id: u16, version: u16)
    ensures
        execution_outcome(pending.insert(id, version), version, id) == TransitionOutcome::Applied,
        pending.insert(id, version).remove(id) == pending.remove(id),
{
    assert(pending.insert(id, version).remove(id) =~= pending.remove(id));
}

/// Executing a transition that is not pending reports so and changes
/// nothing.
pub proof fn law_unknown_transition_is_noop(pending: Map<u16, u16>, version: u16, id: u16)
    requires
        !pending.contains_key(id),
    ensures
        execution_outcome(pending, version, id) == TransitionOutcome::NotPending,
        pending.remove(id) == pending,
{
    assert(pending.remove(id) =~= pending);
}

} // verus!
