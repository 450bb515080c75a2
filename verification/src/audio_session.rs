//! Decisions of a call's audio loop: acquiring the microphone, announcing
//! speaking only on transitions, and what each unit of outgoing work does
//! to the session. The loop itself (awaiting the mic, the socket and the
//! timers) runs outside the library and reports back here.

use vstd::prelude::*;
use vstd::string::StringExecFns;

use crate::cdn::dec;
use crate::text::push_decimal;
use crate::voice_state::{voice_opcode_code, VoiceOpcode};

verus! {

/// How often acquiring the microphone may fail before the call continues
/// receive-only.
pub const MAX_MICROPHONE_RETRIES: u8 = 3;

/// Samples in one outgoing frame (20 ms of 48 kHz stereo).
pub const VOICE_FRAME_SAMPLES: usize = 1920;

/// Microphone acquisition state, kept across audio sessions.
#[derive(Clone, Copy, Debug, PartialEq, Eq)]
pub struct MicState {
    pub has_mic: bool,
    pub request_pending: bool,
    pub retries: u8,
}

/// What preparing an audio session does next.
#[derive(Clone, Copy, Debug, PartialEq, Eq, Structural)]
pub enum MicStep {
    /// Ask the interface for a microphone and come back later.
    RequestMicrophone,
    /// Await the pending microphone request.
    AwaitMicrophone,
    /// Go on to the call (with a microphone, or receive-only).
    Proceed,
}

/// The next step of preparing a session: a missing microphone is requested,
/// or its pending request awaited, while retries remain.
pub open spec fn mic_step_spec(s: MicState) -> MicStep {
    if !s.has_mic && s.retries < MAX_MICROPHONE_RETRIES {
        if s.request_pending {
            MicStep::AwaitMicrophone
        } else {
            MicStep::RequestMicrophone
        }
    } else {
        MicStep::Proceed
    }
}

impl MicState {
    /// No microphone, nothing requested.
    pub fn new() -> (r: Self)
        ensures
            r == (MicState { has_mic: false, request_pending: false, retries: 0 }),
    {
        MicState { has_mic: false, request_pending: false, retries: 0 }
    }

    /// Decides the next step; a new request is recorded as pending.
    pub fn step(&mut self) -> (r: MicStep)
        ensures
            r == mic_step_spec(*old(self)),
            r == MicStep::RequestMicrophone ==> *final(self) == (MicState { request_pending: true, ..*old(self) }),
            r != MicStep::RequestMicrophone ==> *final(self) == *old(self),
    {
        let r = if !self.has_mic && self.retries < MAX_MICROPHONE_RETRIES {
            if self.request_pending {
                MicStep::AwaitMicrophone
            } else {
                MicStep::RequestMicrophone
            }
        } else {
            MicStep::Proceed
        };
        if r == MicStep::RequestMicrophone {
            self.request_pending = true;
        }
        r
    }

    /// Records the outcome of an awaited request: a microphone resets the
    /// retry count; a dropped request counts one retry. Returns whether the
    /// session can proceed now (only with a microphone).
    pub fn received(&mut self, got_microphone: bool) -> (r: bool)
        requires
            old(self).retries < MAX_MICROPHONE_RETRIES,
        ensures
            r == got_microphone,
            !final(self).request_pending,
            got_microphone ==> final(self).has_mic && final(self).retries == 0,
            !got_microphone ==> final(self).has_mic == old(self).has_mic && final(self).retries == old(self).retries
                + 1,
    {
        self.request_pending = false;
        if got_microphone {
            self.has_mic = true;
            self.retries = 0;
            true
        } else {
            self.retries = self.retries + 1;
            false
        }
    }
}

/// With a microphone the session always proceeds; without one and with
/// retries left, a microphone is requested once and the next step awaits
/// that request instead of asking again.
pub proof fn law_mic_requested_once(s: MicState)
    ensures
        s.has_mic ==> mic_step_spec(s) == MicStep::Proceed,
        !s.has_mic && s.retries < MAX_MICROPHONE_RETRIES && !s.request_pending ==> mic_step_spec(s)
            == MicStep::RequestMicrophone && mic_step_spec(MicState { request_pending: true, ..s })
            == MicStep::AwaitMicrophone,
{
}

/// Requests stop once the retry budget is spent: the session then proceeds
/// receive-only.
pub proof fn law_mic_retries_are_bounded(s: MicState)
    requires
        s.retries >= MAX_MICROPHONE_RETRIES,
    ensures
        mic_step_spec(s) == MicStep::Proceed,
{
}

/// Outgoing work of one loop turn.
#[derive(Clone, Copy, Debug, PartialEq, Eq)]
pub enum AudioWork {
    /// A whole frame is buffered: encode and send it.
    SendMic,
    /// The microphone has been silent long enough: stop speaking.
    StopSpeaking,
}

/// The per-session state outgoing work changes.
#[derive(Clone, Copy, Debug, PartialEq, Eq)]
pub struct SendState {
    /// Whether the server was last told we are speaking.
    pub is_speaking: bool,
    /// Samples of the next frame already buffered.
    pub frame_filled: usize,
    /// Whether the stop-speaking timer is running.
    pub stop_timer_armed: bool,
}

/// What the loop must do for one unit of work.
#[derive(Clone, Copy, Debug, PartialEq, Eq)]
pub struct WorkActions {
    /// A speaking update to send (only on a transition).
    pub speaking_update: Option<bool>,
    /// Whether to encode and send the buffered frame.
    pub send_frame: bool,
}

/// Sets the speaking state; an update is owed only when it changes.
pub fn speaking_transition(is_speaking: &mut bool, speaking: bool) -> (r: Option<bool>)
    ensures
        *final(is_speaking) == speaking,
        r == (if *old(is_speaking) == speaking {
            None
        } else {
            Some(speaking)
        }),
{
    let previous = *is_speaking;
    *is_speaking = speaking;
    if previous == speaking {
        None
    } else {
        Some(speaking)
    }
}

/// Carries out one unit of work: sending a frame makes us speaking, sends
/// the frame when a send codec exists, empties the frame buffer and
/// (re)arms the stop timer; stopping makes us silent and disarms it.
pub fn process_work(state: &mut SendState, work: AudioWork, has_send_codec: bool) -> (r: WorkActions)
    ensures
        work == AudioWork::SendMic ==> {
            &&& *final(state) == (SendState { is_speaking: true, frame_filled: 0, stop_timer_armed: true })
            &&& r.speaking_update == (if old(state).is_speaking {
                None
            } else {
                Some(true)
            })
            &&& r.send_frame == has_send_codec
        },
        work == AudioWork::StopSpeaking ==> {
            &&& *final(state) == (SendState { is_speaking: false, stop_timer_armed: false, ..*old(state) })
            &&& r.speaking_update == (if old(state).is_speaking {
                Some(false)
            } else {
                None
            })
            &&& !r.send_frame
        },
{
    match work {
        AudioWork::SendMic => {
            let update = speaking_transition(&mut state.is_speaking, true);
            state.frame_filled = 0;
            state.stop_timer_armed = true;
            WorkActions { speaking_update: update, send_frame: has_send_codec }
        },
        AudioWork::StopSpeaking => {
            let update = speaking_transition(&mut state.is_speaking, false);
            state.stop_timer_armed = false;
            WorkActions { speaking_update: update, send_frame: false }
        },
    }
}

/// A speaking update is never sent twice in a row with the same value: after
/// any work, the next update (if any) differs from the state it left.
pub proof fn law_speaking_updates_alternate(before: bool, speaking: bool)
    ensures
        (if before == speaking {
            None
        } else {
            Some(speaking)
        }) matches Some(v) ==> v != before,
{
}

/// Records `popped` more buffered samples; the frame is complete once it
/// holds a whole frame.
pub fn record_filled(state: &mut SendState, popped: usize) -> (r: bool)
    requires
        old(state).frame_filled + popped <= VOICE_FRAME_SAMPLES,
    ensures
        final(state).frame_filled == old(state).frame_filled + popped,
        final(state).is_speaking == old(state).is_speaking,
        final(state).stop_timer_armed == old(state).stop_timer_armed,
        r == (final(state).frame_filled == VOICE_FRAME_SAMPLES),
{
    state.frame_filled = state.frame_filled + popped;
    state.frame_filled == VOICE_FRAME_SAMPLES
}

// === first-generation loop ===
/// One turn of the first-generation send loop: with a frame ready we speak
/// (announcing it when we were silent) and send it; without one, once the
/// last frame is older than the silence threshold, a speaking client
/// announces that it stopped.
pub fn legacy_speaking_step(is_speaking: &mut bool, frame_ready: bool, silent_too_long: bool) -> (r: WorkActions)
    ensures
        frame_ready ==> *final(is_speaking) && r.send_frame && r.speaking_update == (if *old(is_speaking) {
            None
        } else {
            Some(true)
        }),
        !frame_ready && silent_too_long ==> !*final(is_speaking) && !r.send_frame && r.speaking_update == (
        if *old(is_speaking) {
            Some(false)
        } else {
            None
        }),
        !frame_ready && !silent_too_long ==> *final(is_speaking) == *old(is_speaking) && !r.send_frame
            && r.speaking_update is None,
{
    if frame_ready {
        let update = speaking_transition(is_speaking, true);
        WorkActions { speaking_update: update, send_frame: true }
    } else if silent_too_long {
        let update = speaking_transition(is_speaking, false);
        WorkActions { speaking_update: update, send_frame: false }
    } else {
        WorkActions { speaking_update: None, send_frame: false }
    }
}

/// The shape of a voice heartbeat: before gateway version 8 it carries only
/// the time; from version 8 on the time and the last sequence acknowledged.
#[derive(Clone, Copy, Debug, PartialEq, Eq)]
pub enum VoiceHeartbeat {
    Time { t: u64 },
    TimeAndAck { t: u64, seq_ack: Option<u64> },
}

/// The voice heartbeat for gateway `version` at `time`.
pub fn voice_heartbeat(version: u8, time: u64, seq_ack: Option<u64>) -> (r: VoiceHeartbeat)
    ensures
        version < 8 ==> r == (VoiceHeartbeat::Time { t: time }),
        version >= 8 ==> r == (VoiceHeartbeat::TimeAndAck { t: time, seq_ack }),
{
    if version < 8 {
        VoiceHeartbeat::Time { t: time }
    } else {
        VoiceHeartbeat::TimeAndAck { t: time, seq_ack }
    }
}

/// The speaking update sent on the voice gateway, as serialized JSON
/// (object keys in sorted order).
pub open spec fn speaking_payload_text(ssrc: u32, speaking: bool) -> Seq<char> {
    "{\"d\":{\"delay\":0,\"speaking\":"@ + (if speaking {
        "1"@
    } else {
        "0"@
    }) + ",\"ssrc\":"@ + dec(ssrc as u64) + "},\"op\":"@ + dec(voice_opcode_code(VoiceOpcode::Speaking) as u64)
        + "}"@
}

fn append(out: &mut String, s: &str)
    ensures
        final(out)@ == old(out)@ + s@,
{
    out.append(s);
}

/// Serializes a speaking update (opcode `Speaking`) for `ssrc`.
pub fn speaking_payload(ssrc: u32, speaking: bool) -> (r: String)
    ensures
        r@ == speaking_payload_text(ssrc, speaking),
{
    let mut r = String::from_str("{\"d\":{\"delay\":0,\"speaking\":");
    append(&mut r, if speaking {
        "1"
    } else {
        "0"
    });
    append(&mut r, ",\"ssrc\":");
    push_decimal(&mut r, ssrc as u64);
    append(&mut r, "},\"op\":");
    push_decimal(&mut r, VoiceOpcode::Speaking.code() as u64);
    append(&mut r, "}");
    r
}

} // verus!
