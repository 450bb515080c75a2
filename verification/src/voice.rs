//! The voice UDP path: opening received datagrams (classification, RTP
//! header geometry, transport decryption, RFC 5285 extensions, RFC 3550
//! padding) and sealing outgoing Opus frames (RTP header, wrapping
//! counters, nonce, transport encryption).
//!
//! Opus coding and the end-to-end (DAVE) layer are not part of this crate: a
//! received payload is handed out still Opus-coded (and, on a DAVE call,
//! still end-to-end encrypted), and an outgoing payload is sealed as the
//! caller hands it over.

use vstd::prelude::*;

use crate::crypto::{
    xchacha20poly1305_decrypt, xchacha20poly1305_encrypt, xchacha20poly1305_opened,
    xchacha20poly1305_sealed,
};
use crate::encryption::{is_xchacha, EncryptionMode};
use crate::rtp::{
    be16, be16_bytes, be32, be32_at, be32_bytes, classify_spec, extension_bit, has_extension,
    has_padding, padding_bit, parse_extensions, parse_extensions_spec, rtp_header_len,
    rtp_header_len_spec, u16_from_be_bytes, u16_to_be_bytes, u32_from_be_slice, u32_to_be_bytes,
    PacketClass, RtcpType, RtpExtensions, Ssrc, WrapU16, WrapU32, wrap16, wrap32,
    OPUS_PAYLOAD_TYPE, RTP_HEADER_LEN,
};

verus! {

/// Size of the buffer an outgoing packet is assembled in.
pub const PACKET_BUFFER_LEN: usize = 1024;

/// Why a datagram could not be opened or a frame not be sent.
#[derive(Clone, Copy, Debug, PartialEq, Eq)]
pub enum VoiceError {
    /// Fewer than two bytes arrived.
    PacketTooShort,
    /// An Opus datagram shorter than the fixed RTP header.
    MalformedRtp,
    /// No encryption mode was negotiated.
    MissingMode,
    /// No secret key was received.
    MissingKey,
    /// The transport tag did not authenticate.
    DecryptionFailed,
    /// The decrypted payload is shorter than the extension block its header declares.
    ExtensionOverrun { decrypted: usize, declared: usize },
    /// The padding count exceeds the voice data it should be cut from.
    PaddingOverrun,
    /// Samples are not interleaved stereo.
    OddSampleCount,
    /// The negotiated mode has no sending path.
    UnsupportedMode(EncryptionMode),
    /// The transport encryption failed.
    EncryptionFailed,
}

/// A classified datagram; voice is handed out still Opus-coded.
#[derive(Debug)]
pub enum UdpPacket {
    /// Opus voice (possibly end-to-end encrypted) from `ssrc`.
    Voice { ssrc: Ssrc, extensions: RtpExtensions, payload: Vec<u8> },
    /// RTCP control packet.
    Rtcp(RtcpType),
    /// RTP packet with an unhandled payload type (e.g. video).
    UnhandledRtp { ssrc: Ssrc, payload_type: u8 },
}

/// The content of a [`UdpPacket`].
pub enum UdpPacketView {
    Voice { ssrc: Ssrc, extensions: RtpExtensions, payload: Seq<u8> },
    Rtcp(RtcpType),
    UnhandledRtp { ssrc: Ssrc, payload_type: u8 },
}

impl View for UdpPacket {
    type V = UdpPacketView;

    open spec fn view(&self) -> UdpPacketView {
        match self {
            UdpPacket::Voice { ssrc, extensions, payload } => UdpPacketView::Voice {
                ssrc: *ssrc,
                extensions: *extensions,
                payload: payload@,
            },
            UdpPacket::Rtcp(t) => UdpPacketView::Rtcp(*t),
            UdpPacket::UnhandledRtp { ssrc, payload_type } => UdpPacketView::UnhandledRtp {
                ssrc: *ssrc,
                payload_type: *payload_type,
            },
        }
    }
}

pub open spec fn packet_result_view(r: Result<UdpPacket, VoiceError>) -> Result<UdpPacketView, VoiceError> {
    match r {
        Ok(p) => Ok(p@),
        Err(e) => Err(e),
    }
}

pub open spec fn key_view(k: Option<&Vec<u8>>) -> Option<Seq<u8>> {
    match k {
        Some(v) => Some(v@),
        None => None,
    }
}

// === receiving ===
/// The 24-byte AEAD nonce of a received packet: its last four bytes, then zeros.
pub open spec fn packet_nonce(p: Seq<u8>) -> Seq<u8> {
    p.subrange(p.len() - 4, p.len() as int) + Seq::new(20, |i: int| 0u8)
}

/// Bytes of RFC 5285 extension data at the front of the decrypted payload:
/// four times the length word of the extension preamble (the last two
/// header bytes) when the X bit is set.
pub open spec fn extension_block_len(p: Seq<u8>) -> int {
    let hl = rtp_header_len_spec(p);
    if extension_bit(p[0]) {
        4 * be16(p[hl - 2], p[hl - 1])
    } else {
        0
    }
}

/// The padding count (last byte) fits in the voice data after the
/// extension block.
pub open spec fn padding_fits(p: Seq<u8>, dec: Seq<u8>) -> bool {
    let ext = extension_block_len(p);
    (ext <= dec.len() && padding_bit(p[0]) && dec.len() > ext) ==> dec.last() <= dec.len() - ext
}

/// Extensions and voice data of a decrypted payload: the extension block is
/// parsed, and with the P bit set the last byte counts padding bytes
/// (itself included) cut from the end.
pub open spec fn voice_payload_spec(p: Seq<u8>, dec: Seq<u8>) -> Result<(RtpExtensions, Seq<u8>), VoiceError> {
    let ext = extension_block_len(p);
    if dec.len() < ext {
        Err(VoiceError::ExtensionOverrun { decrypted: dec.len() as usize, declared: ext as usize })
    } else {
        let voice = dec.subrange(ext, dec.len() as int);
        let kept = if padding_bit(p[0]) && voice.len() > 0 {
            voice.subrange(0, voice.len() - voice.last())
        } else {
            voice
        };
        Ok((parse_extensions_spec(dec.subrange(0, ext), RtpExtensions::empty_spec()), kept))
    }
}

/// Padding (RFC 3550 §5.1): without an extension block, a decrypted payload
/// is the voice data as it is when the P bit is clear, and loses exactly as
/// many trailing bytes as its last byte counts when the P bit is set.
pub proof fn law_padding_strips_counted_bytes(p: Seq<u8>, dec: Seq<u8>)
    requires
        p.len() >= 12,
        !extension_bit(p[0]),
    ensures
        !padding_bit(p[0]) ==> (voice_payload_spec(p, dec) matches Ok((_, v)) && v == dec),
        padding_bit(p[0]) && dec.len() > 0 && dec.last() <= dec.len() ==> (voice_payload_spec(p, dec) matches Ok(
            (_, v),
        ) && v.len() == dec.len() - dec.last() && v == dec.take(v.len() as int)),
{
    assert(extension_block_len(p) == 0);
    assert(dec.subrange(0, dec.len() as int) =~= dec);
    if padding_bit(p[0]) && dec.len() > 0 && dec.last() <= dec.len() {
        let v = dec.subrange(0, dec.len() - dec.last());
        assert(v =~= dec.take(v.len() as int));
    }
}

/// The inputs on which opening a datagram is defined: an Opus packet's
/// header fits in it, and with a mode negotiated, the mode is XChaCha20,
/// the packet carries its 4-byte nonce and a received key is 32 bytes.
pub open spec fn recv_defined(p: Seq<u8>, mode: Option<EncryptionMode>, key: Option<Seq<u8>>) -> bool {
    (p.len() >= 12 && classify_spec(p[1]) == (PacketClass::Rtp {
        marker: p[1] >= 128,
        payload_type: OPUS_PAYLOAD_TYPE,
    })) ==> {
        &&& rtp_header_len_spec(p) <= p.len()
        &&& mode is Some ==> {
            &&& is_xchacha(mode->0)
            &&& p.len() - rtp_header_len_spec(p) >= 4
            &&& key is Some ==> key->0.len() == 32
        }
    }
}

/// What opening a datagram yields.
pub open spec fn recv_spec(p: Seq<u8>, mode: Option<EncryptionMode>, key: Option<Seq<u8>>) -> Result<UdpPacketView, VoiceError> {
    if p.len() < 2 {
        Err(VoiceError::PacketTooShort)
    } else {
        match classify_spec(p[1]) {
            PacketClass::Rtcp(t) => Ok(UdpPacketView::Rtcp(t)),
            PacketClass::Rtp { marker, payload_type } => if payload_type != OPUS_PAYLOAD_TYPE {
                Ok(
                    UdpPacketView::UnhandledRtp {
                        ssrc: if p.len() >= 12 {
                            be32_at(p, 8) as u32
                        } else {
                            0
                        },
                        payload_type,
                    },
                )
            } else if p.len() < 12 {
                Err(VoiceError::MalformedRtp)
            } else if mode is None {
                Err(VoiceError::MissingMode)
            } else if key is None {
                Err(VoiceError::MissingKey)
            } else {
                let hl = rtp_header_len_spec(p);
                match xchacha20poly1305_opened(
                    p.subrange(hl, p.len() - 4),
                    p.subrange(0, hl),
                    packet_nonce(p),
                    key->0,
                ) {
                    None => Err(VoiceError::DecryptionFailed),
                    Some(dec) => if !padding_fits(p, dec) {
                        Err(VoiceError::PaddingOverrun)
                    } else {
                        match voice_payload_spec(p, dec) {
                            Ok(ev) => Ok(
                                UdpPacketView::Voice {
                                    ssrc: be32_at(p, 8) as u32,
                                    extensions: ev.0,
                                    payload: ev.1,
                                },
                            ),
                            Err(e) => Err(e),
                        }
                    },
                }
            },
        }
    }
}

/// `p` is a packet this client's sender sealed around the voice payload `m`
/// under `key` (see [`AudioSender::seal_frame`]).
pub open spec fn seals_payload(p: Seq<u8>, key: Seq<u8>, m: Seq<u8>) -> bool {
    &&& p.len() >= 16
    &&& p[0] == 0x80
    &&& p[1] == OPUS_PAYLOAD_TYPE
    &&& xchacha20poly1305_sealed(m, p.subrange(0, 12), packet_nonce(p), key) == Some(
        p.subrange(12, p.len() - 4),
    )
}

/// `s[from..to]` as a vector.
pub fn copy_bytes(s: &[u8], from: usize, to: usize) -> (r: Vec<u8>)
    requires
        from <= to <= s@.len(),
    ensures
        r@ == s@.subrange(from as int, to as int),
{
    let mut r: Vec<u8> = Vec::new();
    let mut i = from;
    while i < to
        invariant
            from <= i <= to <= s@.len(),
            r@ == s@.subrange(from as int, i as int),
        decreases to - i,
    {
        r.push(s[i]);
        proof {
            assert(r@ =~= s@.subrange(from as int, i + 1));
        }
        i = i + 1;
    }
    r
}

/// A 32-byte key as an array.
fn key_array(k: &Vec<u8>) -> (r: [u8; 32])
    requires
        k@.len() == 32,
    ensures
        r@ == k@,
{
    let mut r = [0u8; 32];
    let mut i: usize = 0;
    while i < 32
        invariant
            i <= 32,
            k@.len() == 32,
            r@.len() == 32,
            forall|j: int| 0 <= j < i ==> r@[j] == k@[j],
        decreases 32 - i,
    {
        r[i] = k[i];
        i = i + 1;
    }
    proof {
        assert(r@ =~= k@);
    }
    r
}

/// The extension block length of a packet, as in [`extension_block_len`].
fn extension_block_len_exec(p: &[u8]) -> (r: usize)
    requires
        p@.len() >= 12,
        rtp_header_len_spec(p@) <= p@.len(),
    ensures
        r == extension_block_len(p@),
{
    let hl = rtp_header_len(p);
    if has_extension(p[0]) {
        let words = u16_from_be_bytes(p[hl - 2], p[hl - 1]);
        4 * (words as usize)
    } else {
        0
    }
}

/// Splits a decrypted payload into its extensions and voice data.
pub fn open_voice_payload(p: &[u8], dec: &[u8]) -> (r: Result<(RtpExtensions, Vec<u8>), VoiceError>)
    requires
        p@.len() >= 12,
        rtp_header_len_spec(p@) <= p@.len(),
        padding_fits(p@, dec@),
    ensures
        match voice_payload_spec(p@, dec@) {
            Ok(ev) => r is Ok && r->Ok_0.0 == ev.0 && r->Ok_0.1@ == ev.1,
            Err(e) => r == Err::<(RtpExtensions, Vec<u8>), VoiceError>(e),
        },
{
    let ext = extension_block_len_exec(p);
    let dl = dec.len();
    if dl < ext {
        return Err(VoiceError::ExtensionOverrun { decrypted: dl, declared: ext });
    }
    let block = copy_bytes(dec, 0, ext);
    let extensions = parse_extensions(block.as_slice());
    let end = if has_padding(p[0]) && dl > ext {
        dl - (dec[dl - 1] as usize)
    } else {
        dl
    };
    let payload = copy_bytes(dec, ext, end);
    proof {
        let voice = dec@.subrange(ext as int, dl as int);
        if padding_bit(p@[0]) && voice.len() > 0 {
            assert(voice.last() == dec@.last());
            assert(voice.subrange(0, voice.len() - voice.last()) =~= dec@.subrange(
                ext as int,
                end as int,
            ));
        } else {
            assert(voice =~= dec@.subrange(ext as int, end as int));
        }
    }
    Ok((extensions, payload))
}

/// Opens a received datagram. A padding count larger than the voice data
/// is reported as `PaddingOverrun`.
///
/// A packet that [`AudioSender::seal_frame`] sealed around a payload under
/// the same key opens, with the XChaCha20 mode, to that payload.
#[verifier::rlimit(50)]
pub fn recv_packet(p: &[u8], mode: Option<EncryptionMode>, secret_key: Option<&Vec<u8>>) -> (r: Result<UdpPacket, VoiceError>)
    requires
        recv_defined(p@, mode, key_view(secret_key)),
    ensures
        packet_result_view(r) == recv_spec(p@, mode, key_view(secret_key)),
        forall|m: Seq<u8>|
            mode == Some(EncryptionMode::aead_xchacha20_poly1305_rtpsize) && secret_key is Some
                && #[trigger] seals_payload(p@, secret_key->0@, m) ==> packet_result_view(r) == Ok::<
                UdpPacketView,
                VoiceError,
            >(
                UdpPacketView::Voice {
                    ssrc: be32_at(p@, 8) as u32,
                    extensions: RtpExtensions::empty_spec(),
                    payload: m,
                },
            ),
{
    let n = p.len();
    if n < 2 {
        return Err(VoiceError::PacketTooShort);
    }
    match PacketClass::classify(p[1]) {
        PacketClass::Rtcp(t) => {
            return Ok(UdpPacket::Rtcp(t));
        },
        PacketClass::Rtp { marker, payload_type } => {
            if payload_type != OPUS_PAYLOAD_TYPE {
                let ssrc = if n >= RTP_HEADER_LEN {
                    u32_from_be_slice(p, 8)
                } else {
                    0
                };
                return Ok(UdpPacket::UnhandledRtp { ssrc, payload_type });
            }
        },
    }
    if n < RTP_HEADER_LEN {
        return Err(VoiceError::MalformedRtp);
    }
    let hl = rtp_header_len(p);
    if mode.is_none() {
        return Err(VoiceError::MissingMode);
    }
    let key = match secret_key {
        Some(k) => k,
        None => {
            return Err(VoiceError::MissingKey);
        },
    };
    let header = copy_bytes(p, 0, hl);
    let ciphertext = copy_bytes(p, hl, n - 4);
    let mut nonce = [0u8; 24];
    nonce[0] = p[n - 4];
    nonce[1] = p[n - 3];
    nonce[2] = p[n - 2];
    nonce[3] = p[n - 1];
    proof {
        assert(nonce@ =~= packet_nonce(p@));
    }
    let key_bytes = key_array(key);
    let decrypted = match xchacha20poly1305_decrypt(
        ciphertext.as_slice(),
        header.as_slice(),
        nonce,
        key_bytes,
    ) {
        Some(d) => d,
        None => {
            return Err(VoiceError::DecryptionFailed);
        },
    };
    let ext = extension_block_len_exec(p);
    let dl = decrypted.len();
    if ext <= dl && has_padding(p[0]) && dl > ext && (decrypted[dl - 1] as usize) > dl - ext {
        return Err(VoiceError::PaddingOverrun);
    }
    let ssrc = u32_from_be_slice(p, 8);
    match open_voice_payload(p, decrypted.as_slice()) {
        Ok(ev) => {
            let (extensions, payload) = ev;
            proof {
                assert(parse_extensions_spec(Seq::<u8>::empty(), RtpExtensions::empty_spec())
                    == RtpExtensions::empty_spec());
                assert(decrypted@.subrange(0, 0) =~= Seq::<u8>::empty());
                assert(decrypted@.subrange(0, dl as int) =~= decrypted@);
            }
            Ok(UdpPacket::Voice { ssrc, extensions, payload })
        },
        Err(e) => Err(e),
    }
}

// === sending ===
/// The 12-byte RTP header of an outgoing Opus frame: version 2, no padding,
/// extension or CSRCs, payload type 120, then sequence, timestamp and SSRC.
pub open spec fn outgoing_header_spec(sequence: u16, timestamp: u32, ssrc: u32) -> Seq<u8> {
    seq![0x80u8, OPUS_PAYLOAD_TYPE] + be16_bytes(sequence) + be32_bytes(timestamp) + be32_bytes(ssrc)
}

/// The 24-byte AEAD nonce of an outgoing frame: the counter's big-endian
/// bytes, then zeros.
pub open spec fn outgoing_nonce_spec(nonce: u32) -> Seq<u8> {
    be32_bytes(nonce) + Seq::new(20, |i: int| 0u8)
}

/// An outgoing header reads back as what it was made from: twelve bytes
/// of an RTP packet (version 2, no padding, extension or CSRCs, no marker)
/// of the Opus payload type, carrying the sequence number, timestamp and
/// SSRC in network order.
pub proof fn law_outgoing_header_reads_back(sequence: u16, timestamp: u32, ssrc: u32)
    ensures
        ({
            let h = outgoing_header_spec(sequence, timestamp, ssrc);
            &&& h.len() == 12
            &&& h[0] / 64 == 2
            &&& !padding_bit(h[0]) && !extension_bit(h[0])
            &&& rtp_header_len_spec(h) == 12
            &&& classify_spec(h[1]) == (PacketClass::Rtp { marker: false, payload_type: 120 })
            &&& be16(h[2], h[3]) == sequence
            &&& be32_at(h, 4) == timestamp
            &&& be32_at(h, 8) == ssrc
        }),
{
    let h = outgoing_header_spec(sequence, timestamp, ssrc);
    assert(h[2] == (sequence / 256) as u8 && h[3] == (sequence % 256) as u8);
    assert(((sequence / 256) as u8) as int * 256 + ((sequence % 256) as u8) as int == sequence) by (nonlinear_arith);
    lemma_be32_bytes(timestamp);
    lemma_be32_bytes(ssrc);
    assert(h[4] == be32_bytes(timestamp)[0] && h[5] == be32_bytes(timestamp)[1] && h[6] == be32_bytes(timestamp)[2]
        && h[7] == be32_bytes(timestamp)[3]);
    assert(h[8] == be32_bytes(ssrc)[0] && h[9] == be32_bytes(ssrc)[1] && h[10] == be32_bytes(ssrc)[2]
        && h[11] == be32_bytes(ssrc)[3]);
}

proof fn lemma_be32_bytes(v: u32)
    ensures
        be32(be32_bytes(v)[0], be32_bytes(v)[1], be32_bytes(v)[2], be32_bytes(v)[3]) == v,
{
    let b = be32_bytes(v);
    assert(b[0] == (v / 16777216) as u8);
    assert(b[1] == ((v / 65536) % 256) as u8);
    assert(b[2] == ((v / 256) % 256) as u8);
    assert(b[3] == (v % 256) as u8);
    assert(((((v / 16777216) as u8) as int * 256 + (((v / 65536) % 256) as u8) as int) * 256 + (((v / 256)
        % 256) as u8) as int) * 256 + ((v % 256) as u8) as int == v) by (nonlinear_arith);
}

/// What `prepare_frame` needs to know of a frame before it is sealed.
#[derive(Clone, Copy, Debug, PartialEq, Eq)]
pub struct PreparedFrame {
    pub header: [u8; 12],
    pub nonce: u32,
}

/// Per-connection sending state: the counters RTP and the transport nonce
/// advance with every frame.
#[derive(Debug)]
pub struct AudioSender {
    ssrc: Ssrc,
    nonce: u32,
    timestamp: WrapU32,
    sequence: WrapU16,
}

impl AudioSender {
    pub closed spec fn ssrc_spec(&self) -> u32 {
        self.ssrc
    }

    pub closed spec fn nonce_spec(&self) -> u32 {
        self.nonce
    }

    pub closed spec fn timestamp_spec(&self) -> u32 {
        self.timestamp.0
    }

    pub closed spec fn sequence_spec(&self) -> u16 {
        self.sequence.0
    }

    /// A sender for `ssrc` with all counters at zero.
    pub fn new(ssrc: Ssrc) -> (r: Self)
        ensures
            r.ssrc_spec() == ssrc,
            r.nonce_spec() == 0,
            r.timestamp_spec() == 0,
            r.sequence_spec() == 0,
    {
        AudioSender { ssrc, nonce: 0, timestamp: WrapU32(0), sequence: WrapU16(0) }
    }

    /// The synchronization source frames are sent from.
    pub fn ssrc(&self) -> (r: u32)
        ensures
            r == self.ssrc_spec(),
    {
        self.ssrc
    }

    /// Checks a frame of `n_samples` interleaved stereo samples before it is
    /// encoded: `Ok(None)` when there is nothing to send, else the samples
    /// per channel (the count halved, truncated to 32 bits).
    pub fn check_frame(n_samples: usize, mode: Option<EncryptionMode>, has_key: bool) -> (r: Result<Option<u32>, VoiceError>)
        ensures
            r == (if n_samples == 0 {
                Ok(None)
            } else if n_samples % 2 != 0 {
                Err(VoiceError::OddSampleCount)
            } else if mode is None {
                Err(VoiceError::MissingMode)
            } else if !has_key {
                Err(VoiceError::MissingKey)
            } else {
                Ok(Some((n_samples / 2) as u32))
            }),
    {
        if n_samples == 0 {
            return Ok(None);
        }
        if n_samples % 2 != 0 {
            return Err(VoiceError::OddSampleCount);
        }
        if mode.is_none() {
            return Err(VoiceError::MissingMode);
        }
        if !has_key {
            return Err(VoiceError::MissingKey);
        }
        let per_channel = n_samples / 2;
        Ok(Some(per_channel as u32))
    }

    /// Advances the counters for one encoded frame. A silence gap, in
    /// samples, first moves the timestamp on; the frame then takes the
    /// current sequence number and timestamp, which advance by one and by
    /// the samples per channel. With the XChaCha20 mode the frame takes the
    /// current nonce, which advances by one; any other mode is refused after
    /// the counters have moved.
    pub fn prepare_frame(&mut self, samples_per_channel: u32, silence_samples: Option<u32>, mode: EncryptionMode) -> (r: Result<PreparedFrame, VoiceError>)
        ensures
            ({
                let ts0 = match silence_samples {
                    Some(s) => wrap32(old(self).timestamp_spec() + s),
                    None => old(self).timestamp_spec(),
                };
                &&& final(self).ssrc_spec() == old(self).ssrc_spec()
                &&& final(self).timestamp_spec() == wrap32(ts0 + samples_per_channel)
                &&& final(self).sequence_spec() == wrap16(old(self).sequence_spec() + 1)
                &&& is_xchacha(mode) ==> {
                    &&& r is Ok
                    &&& r->Ok_0.header@ == outgoing_header_spec(
                        old(self).sequence_spec(),
                        ts0,
                        old(self).ssrc_spec(),
                    )
                    &&& r->Ok_0.nonce == old(self).nonce_spec()
                    &&& final(self).nonce_spec() == wrap32(old(self).nonce_spec() + 1)
                }
                &&& !is_xchacha(mode) ==> {
                    &&& r == Err::<PreparedFrame, VoiceError>(VoiceError::UnsupportedMode(mode))
                    &&& final(self).nonce_spec() == old(self).nonce_spec()
                }
            }),
    {
        if let Some(s) = silence_samples {
            self.timestamp.advance(s);
        }
        let timestamp = self.timestamp;
        let sequence = self.sequence;
        self.timestamp.advance(samples_per_channel);
        self.sequence.advance(1);
        let seq_bytes = u16_to_be_bytes(sequence.0);
        let ts_bytes = u32_to_be_bytes(timestamp.0);
        let ssrc_bytes = u32_to_be_bytes(self.ssrc);
        let header: [u8; 12] = [
            0x80,
            OPUS_PAYLOAD_TYPE,
            seq_bytes[0],
            seq_bytes[1],
            ts_bytes[0],
            ts_bytes[1],
            ts_bytes[2],
            ts_bytes[3],
            ssrc_bytes[0],
            ssrc_bytes[1],
            ssrc_bytes[2],
            ssrc_bytes[3],
        ];
        proof {
            assert(header@ =~= outgoing_header_spec(sequence.0, timestamp.0, self.ssrc));
        }
        match mode {
            EncryptionMode::aead_xchacha20_poly1305_rtpsize => {
                let nonce = self.nonce;
                self.nonce = self.nonce.wrapping_add(1);
                Ok(PreparedFrame { header, nonce })
            },
            _ => Err(VoiceError::UnsupportedMode(mode)),
        }
    }

    /// Seals a prepared frame around its (possibly end-to-end encrypted)
    /// Opus payload: header, then the transport ciphertext with the header as
    /// additional data, then the four nonce bytes.
    pub fn seal_frame(frame: &PreparedFrame, payload: &[u8], secret_key: &Vec<u8>) -> (r: Result<Vec<u8>, VoiceError>)
        requires
            secret_key@.len() == 32,
            payload@.len() + 32 <= PACKET_BUFFER_LEN,
        ensures
            match xchacha20poly1305_sealed(
                payload@,
                frame.header@,
                outgoing_nonce_spec(frame.nonce),
                secret_key@,
            ) {
                Some(c) => r is Ok && r->Ok_0@ == frame.header@ + c + be32_bytes(frame.nonce),
                None => r == Err::<Vec<u8>, VoiceError>(VoiceError::EncryptionFailed),
            },
            (r is Ok && frame.header@[0] == 0x80 && frame.header@[1] == OPUS_PAYLOAD_TYPE)
                ==> seals_payload(r->Ok_0@, secret_key@, payload@),
    {
        let nonce_bytes = u32_to_be_bytes(frame.nonce);
        let mut nonce = [0u8; 24];
        nonce[0] = nonce_bytes[0];
        nonce[1] = nonce_bytes[1];
        nonce[2] = nonce_bytes[2];
        nonce[3] = nonce_bytes[3];
        proof {
            assert(nonce@ =~= outgoing_nonce_spec(frame.nonce));
        }
        let key_bytes = key_array(secret_key);
        let header = frame.header;
        let encrypted = match xchacha20poly1305_encrypt(payload, header.as_slice(), nonce, key_bytes) {
            Some(c) => c,
            None => {
                return Err(VoiceError::EncryptionFailed);
            },
        };
        let mut packet: Vec<u8> = Vec::new();
        let mut i: usize = 0;
        while i < 12
            invariant
                i <= 12,
                packet@ == header@.subrange(0, i as int),
            decreases 12 - i,
        {
            packet.push(header[i]);
            proof {
                assert(packet@ =~= header@.subrange(0, i + 1));
            }
            i = i + 1;
        }
        let cl = encrypted.len();
        let mut j: usize = 0;
        while j < cl
            invariant
                j <= cl == encrypted@.len(),
                packet@ == header@ + encrypted@.subrange(0, j as int),
            decreases cl - j,
        {
            packet.push(encrypted[j]);
            proof {
                assert(packet@ =~= header@ + encrypted@.subrange(0, j + 1));
            }
            j = j + 1;
        }
        let mut k: usize = 0;
        while k < 4
            invariant
                k <= 4,
                packet@ == header@ + encrypted@ + nonce_bytes@.subrange(0, k as int),
            decreases 4 - k,
        {
            packet.push(nonce_bytes[k]);
            proof {
                assert(packet@ =~= header@ + encrypted@ + nonce_bytes@.subrange(0, k + 1));
            }
            k = k + 1;
        }
        proof {
            assert(encrypted@.subrange(0, cl as int) =~= encrypted@);
            assert(nonce_bytes@.subrange(0, 4) =~= nonce_bytes@);
            let pk = packet@;
            assert(pk.subrange(0, 12) =~= header@);
            assert(pk.subrange(12, pk.len() - 4) =~= encrypted@);
            assert(pk.subrange(pk.len() - 4, pk.len() as int) =~= be32_bytes(frame.nonce));
            assert(packet_nonce(pk) =~= outgoing_nonce_spec(frame.nonce));
        }
        Ok(packet)
    }
}

} // verus!
