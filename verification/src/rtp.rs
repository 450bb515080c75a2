//! RTP (RFC 3550) as Discord voice uses it: wrapping counters, payload-type
//! codes, first-byte classification of UDP datagrams, header geometry and
//! RFC 5285 one-byte header extensions.

use vstd::prelude::*;

verus! {

/// RTP synchronization source identifier.
pub type Ssrc = u32;

/// Payload type Discord assigns to Opus voice.
pub const OPUS_PAYLOAD_TYPE: u8 = 120;

/// Length of the fixed RTP header (no CSRC list, no extension).
pub const RTP_HEADER_LEN: usize = 12;

/// Big-endian value of two bytes.
pub open spec fn be16(hi: u8, lo: u8) -> int {
    hi as int * 256 + lo as int
}

/// Big-endian value of four bytes.
pub open spec fn be32(b0: u8, b1: u8, b2: u8, b3: u8) -> int {
    ((b0 as int * 256 + b1 as int) * 256 + b2 as int) * 256 + b3 as int
}

/// Big-endian value of the four bytes of `s` starting at `at`.
pub open spec fn be32_at(s: Seq<u8>, at: int) -> int {
    be32(s[at], s[at + 1], s[at + 2], s[at + 3])
}

/// Reads a big-endian `u16` from two bytes.
pub fn u16_from_be_bytes(hi: u8, lo: u8) -> (r: u16)
    ensures
        r == be16(hi, lo),
{
    (hi as u16) * 256 + (lo as u16)
}

/// Reads a big-endian `u32` from `s[at..at + 4]`.
pub fn u32_from_be_slice(s: &[u8], at: usize) -> (r: u32)
    requires
        at + 4 <= s@.len(),
    ensures
        r == be32_at(s@, at as int),
{
    let b0 = s[at] as u32;
    let b1 = s[at + 1] as u32;
    let b2 = s[at + 2] as u32;
    let b3 = s[at + 3] as u32;
    ((b0 * 256 + b1) * 256 + b2) * 256 + b3
}

/// The two big-endian bytes of a `u16`.
pub open spec fn be16_bytes(v: u16) -> Seq<u8> {
    seq![(v / 256) as u8, (v % 256) as u8]
}

/// The four big-endian bytes of a `u32`.
pub open spec fn be32_bytes(v: u32) -> Seq<u8> {
    seq![(v / 16777216) as u8, ((v / 65536) % 256) as u8, ((v / 256) % 256) as u8, (v % 256) as u8]
}

/// The big-endian bytes of a `u16`.
pub fn u16_to_be_bytes(v: u16) -> (r: [u8; 2])
    ensures
        r@ == be16_bytes(v),
        be16(r@[0], r@[1]) == v,
{
    let r = [(v / 256) as u8, (v % 256) as u8];
    proof {
        assert(r@ =~= be16_bytes(v));
    }
    r
}

/// The big-endian bytes of a `u32`.
pub fn u32_to_be_bytes(v: u32) -> (r: [u8; 4])
    ensures
        r@ == be32_bytes(v),
        be32(r@[0], r@[1], r@[2], r@[3]) == v,
{
    let b0 = (v / 16777216) as u8;
    let b1 = ((v / 65536) % 256) as u8;
    let b2 = ((v / 256) % 256) as u8;
    let b3 = (v % 256) as u8;
    let r = [b0, b1, b2, b3];
    proof {
        assert(r@ =~= be32_bytes(v));
    }
    r
}

// === wrapping counters ===
/// A 16-bit counter that wraps around (RTP sequence numbers).
#[derive(Clone, Copy, Debug, Default, PartialEq, Eq)]
pub struct WrapU16(pub u16);

/// A 32-bit counter that wraps around (RTP timestamps).
#[derive(Clone, Copy, Debug, Default, PartialEq, Eq)]
pub struct WrapU32(pub u32);

/// `(a + b) mod 2^16`.
pub open spec fn wrap16(v: int) -> u16 {
    (v % 0x1_0000) as u16
}

/// `(a + b) mod 2^32`.
pub open spec fn wrap32(v: int) -> u32 {
    (v % 0x1_0000_0000) as u32
}

impl WrapU16 {
    /// A counter holding `v`.
    pub fn new(v: u16) -> (r: Self)
        ensures
            r.0 == v,
    {
        WrapU16(v)
    }

    /// The counter plus `other`, modulo 2^16.
    pub fn wrapping_plus(self, other: u16) -> (r: Self)
        ensures
            r.0 == wrap16(self.0 + other),
    {
        WrapU16(self.0.wrapping_add(other))
    }

    /// The counter minus `other`, modulo 2^16.
    pub fn wrapping_minus(self, other: u16) -> (r: Self)
        ensures
            r.0 == wrap16(self.0 - other + 0x1_0000),
    {
        WrapU16(self.0.wrapping_sub(other))
    }

    /// Advances the counter by `other`, modulo 2^16.
    pub fn advance(&mut self, other: u16)
        ensures
            final(self).0 == wrap16(old(self).0 + other),
    {
        self.0 = self.0.wrapping_add(other);
    }

    /// Moves the counter back by `other`, modulo 2^16.
    pub fn rewind(&mut self, other: u16)
        ensures
            final(self).0 == wrap16(old(self).0 - other + 0x1_0000),
    {
        self.0 = self.0.wrapping_sub(other);
    }

    /// The wire value (`PrimitiveValues` in the packet layout).
    pub fn to_primitive_values(&self) -> (r: (u16,))
        ensures
            r.0 == self.0,
    {
        (self.0,)
    }
}

impl WrapU32 {
    /// A counter holding `v`.
    pub fn new(v: u32) -> (r: Self)
        ensures
            r.0 == v,
    {
        WrapU32(v)
    }

    /// The counter plus `other`, modulo 2^32.
    pub fn wrapping_plus(self, other: u32) -> (r: Self)
        ensures
            r.0 == wrap32(self.0 + other),
    {
        WrapU32(self.0.wrapping_add(other))
    }

    /// The counter minus `other`, modulo 2^32.
    pub fn wrapping_minus(self, other: u32) -> (r: Self)
        ensures
            r.0 == wrap32(self.0 - other + 0x1_0000_0000),
    {
        WrapU32(self.0.wrapping_sub(other))
    }

    /// Advances the counter by `other`, modulo 2^32.
    pub fn advance(&mut self, other: u32)
        ensures
            final(self).0 == wrap32(old(self).0 + other),
    {
        self.0 = self.0.wrapping_add(other);
    }

    /// Moves the counter back by `other`, modulo 2^32.
    pub fn rewind(&mut self, other: u32)
        ensures
            final(self).0 == wrap32(old(self).0 - other + 0x1_0000_0000),
    {
        self.0 = self.0.wrapping_sub(other);
    }

    /// The wire value (`PrimitiveValues` in the packet layout).
    pub fn to_primitive_values(&self) -> (r: (u32,))
        ensures
            r.0 == self.0,
    {
        (self.0,)
    }
}

impl From<WrapU16> for u16 {
    fn from(val: WrapU16) -> (r: u16)
        ensures
            r == val.0,
    {
        val.0
    }
}

impl From<u16> for WrapU16 {
    fn from(val: u16) -> (r: WrapU16)
        ensures
            r.0 == val,
    {
        WrapU16(val)
    }
}

impl From<WrapU32> for u32 {
    fn from(val: WrapU32) -> (r: u32)
        ensures
            r == val.0,
    {
        val.0
    }
}

impl From<u32> for WrapU32 {
    fn from(val: u32) -> (r: WrapU32)
        ensures
            r.0 == val,
    {
        WrapU32(val)
    }
}

impl vstd::std_specs::convert::FromSpecImpl<WrapU16> for u16 {
    open spec fn obeys_from_spec() -> bool {
        true
    }

    open spec fn from_spec(v: WrapU16) -> u16 {
        v.0
    }
}

impl vstd::std_specs::convert::FromSpecImpl<u16> for WrapU16 {
    open spec fn obeys_from_spec() -> bool {
        true
    }

    open spec fn from_spec(v: u16) -> WrapU16 {
        WrapU16(v)
    }
}

impl vstd::std_specs::convert::FromSpecImpl<WrapU32> for u32 {
    open spec fn obeys_from_spec() -> bool {
        true
    }

    open spec fn from_spec(v: WrapU32) -> u32 {
        v.0
    }
}

impl vstd::std_specs::convert::FromSpecImpl<u32> for WrapU32 {
    open spec fn obeys_from_spec() -> bool {
        true
    }

    open spec fn from_spec(v: u32) -> WrapU32 {
        WrapU32(v)
    }
}

/// Adding then subtracting the same amount leaves a wrapping counter
/// unchanged, and so does subtracting then adding.
pub proof fn law_wrap_u16_add_sub_inverse(c: u16, d: u16)
    ensures
        wrap16(wrap16(c + d) - d + 0x1_0000) == c,
        wrap16(wrap16(c - d + 0x1_0000) + d) == c,
{
}

/// Adding then subtracting the same amount leaves a wrapping counter
/// unchanged, and so does subtracting then adding.
pub proof fn law_wrap_u32_add_sub_inverse(c: u32, d: u32)
    ensures
        wrap32(wrap32(c + d) - d + 0x1_0000_0000) == c,
        wrap32(wrap32(c - d + 0x1_0000_0000) + d) == c,
{
}

// === payload types ===
/// RTP payload types as registered with IANA.
#[derive(Clone, Copy, Debug, PartialEq, Eq)]
pub enum RtpType {
    /// Code 0.
    Pcmu,
    /// Code 3.
    Gsm,
    /// Code 4.
    G723,
    /// Code 5--6, 16--17.
    Dvi4(u8),
    /// Code 7.
    Lpc,
    /// Code 8.
    Pcma,
    /// Code 9.
    G722,
    /// Code 10.
    L16Stereo,
    /// Code 11.
    L16Mono,
    /// Code 12.
    Qcelp,
    /// Code 13.
    Cn,
    /// Code 14.
    Mpa,
    /// Code 15.
    G728,
    /// Code 18.
    G729,
    /// Code 25.
    CelB,
    /// Code 26.
    Jpeg,
    /// Code 28.
    Nv,
    /// Code 31.
    H261,
    /// Code 32.
    Mpv,
    /// Code 33.
    Mp2t,
    /// Code 34.
    H263,
    /// Dynamically assigned payload type (codes >= 96).
    Dynamic(u8),
    /// Reserved payload types (1--2, 19, 72--76).
    Reserved(u8),
    /// Unassigned payload type (all remaining < 128).
    Unassigned(u8),
    /// Code point too high for seven bits.
    Illegal(u8),
}

/// The payload type a code stands for.
pub open spec fn rtp_type_of(v: u8) -> RtpType {
    if v == 0 {
        RtpType::Pcmu
    } else if v == 3 {
        RtpType::Gsm
    } else if v == 4 {
        RtpType::G723
    } else if v == 5 || v == 6 || v == 16 || v == 17 {
        RtpType::Dvi4(v)
    } else if v == 7 {
        RtpType::Lpc
    } else if v == 8 {
        RtpType::Pcma
    } else if v == 9 {
        RtpType::G722
    } else if v == 10 {
        RtpType::L16Stereo
    } else if v == 11 {
        RtpType::L16Mono
    } else if v == 12 {
        RtpType::Qcelp
    } else if v == 13 {
        RtpType::Cn
    } else if v == 14 {
        RtpType::Mpa
    } else if v == 15 {
        RtpType::G728
    } else if v == 18 {
        RtpType::G729
    } else if v == 25 {
        RtpType::CelB
    } else if v == 26 {
        RtpType::Jpeg
    } else if v == 28 {
        RtpType::Nv
    } else if v == 31 {
        RtpType::H261
    } else if v == 32 {
        RtpType::Mpv
    } else if v == 33 {
        RtpType::Mp2t
    } else if v == 34 {
        RtpType::H263
    } else if (1 <= v <= 2) || v == 19 || (72 <= v <= 76) {
        RtpType::Reserved(v)
    } else if 96 <= v <= 127 {
        RtpType::Dynamic(v)
    } else if 128 <= v {
        RtpType::Illegal(v)
    } else {
        RtpType::Unassigned(v)
    }
}

/// The code a payload type is written as.
pub open spec fn rtp_type_code(t: RtpType) -> u8 {
    match t {
        RtpType::Pcmu => 0,
        RtpType::Gsm => 3,
        RtpType::G723 => 4,
        RtpType::Lpc => 7,
        RtpType::Pcma => 8,
        RtpType::G722 => 9,
        RtpType::L16Stereo => 10,
        RtpType::L16Mono => 11,
        RtpType::Qcelp => 12,
        RtpType::Cn => 13,
        RtpType::Mpa => 14,
        RtpType::G728 => 15,
        RtpType::G729 => 18,
        RtpType::CelB => 25,
        RtpType::Jpeg => 26,
        RtpType::Nv => 28,
        RtpType::H261 => 31,
        RtpType::Mpv => 32,
        RtpType::Mp2t => 33,
        RtpType::H263 => 34,
        RtpType::Dvi4(v) => v,
        RtpType::Dynamic(v) => v,
        RtpType::Unassigned(v) => v,
        RtpType::Reserved(v) => v,
        RtpType::Illegal(v) => v,
    }
}

impl RtpType {
    /// Classifies a payload-type code.
    pub fn new(val: u8) -> (r: Self)
        ensures
            r == rtp_type_of(val),
    {
        match val {
            0 => RtpType::Pcmu,
            3 => RtpType::Gsm,
            4 => RtpType::G723,
            5 | 6 | 16 | 17 => RtpType::Dvi4(val),
            7 => RtpType::Lpc,
            8 => RtpType::Pcma,
            9 => RtpType::G722,
            10 => RtpType::L16Stereo,
            11 => RtpType::L16Mono,
            12 => RtpType::Qcelp,
            13 => RtpType::Cn,
            14 => RtpType::Mpa,
            15 => RtpType::G728,
            18 => RtpType::G729,
            25 => RtpType::CelB,
            26 => RtpType::Jpeg,
            28 => RtpType::Nv,
            31 => RtpType::H261,
            32 => RtpType::Mpv,
            33 => RtpType::Mp2t,
            34 => RtpType::H263,
            1..=2 | 19 | 72..=76 => RtpType::Reserved(val),
            96..=127 => RtpType::Dynamic(val),
            128..=255 => RtpType::Illegal(val),
            _ => RtpType::Unassigned(val),
        }
    }

    /// The code this payload type is written as.
    pub fn to_primitive_values(&self) -> (r: (u8,))
        ensures
            r.0 == rtp_type_code(*self),
    {
        match self {
            RtpType::Pcmu => (0,),
            RtpType::Gsm => (3,),
            RtpType::G723 => (4,),
            RtpType::Lpc => (7,),
            RtpType::Pcma => (8,),
            RtpType::G722 => (9,),
            RtpType::L16Stereo => (10,),
            RtpType::L16Mono => (11,),
            RtpType::Qcelp => (12,),
            RtpType::Cn => (13,),
            RtpType::Mpa => (14,),
            RtpType::G728 => (15,),
            RtpType::G729 => (18,),
            RtpType::CelB => (25,),
            RtpType::Jpeg => (26,),
            RtpType::Nv => (28,),
            RtpType::H261 => (31,),
            RtpType::Mpv => (32,),
            RtpType::Mp2t => (33,),
            RtpType::H263 => (34,),
            RtpType::Dvi4(val) => (*val,),
            RtpType::Dynamic(val) => (*val,),
            RtpType::Unassigned(val) => (*val,),
            RtpType::Reserved(val) => (*val,),
            RtpType::Illegal(val) => (*val,),
        }
    }
}

/// Classifying a code and writing the result back gives the code again.
pub proof fn law_rtp_type_code_roundtrip(v: u8)
    ensures
        rtp_type_code(rtp_type_of(v)) == v,
{
}

// === datagram classification ===
/// Packet types Discord sends on the voice UDP socket.
#[derive(Clone, Copy, Debug, PartialEq, Eq)]
pub enum DiscordPacketType {
    /// Opus voice (RTP payload type 0x78).
    Voice,
    /// RTCP Sender Report.
    RtcpSenderReport,
    /// RTCP Receiver Report.
    RtcpReceiverReport,
}

impl DiscordPacketType {
    /// The packet type written as `code` in the second byte of a datagram.
    pub fn try_from_byte(code: u8) -> (r: Option<Self>)
        ensures
            r == (if code == 0x78 {
                Some(DiscordPacketType::Voice)
            } else if code == 200 {
                Some(DiscordPacketType::RtcpSenderReport)
            } else if code == 201 {
                Some(DiscordPacketType::RtcpReceiverReport)
            } else {
                None::<DiscordPacketType>
            }),
    {
        if code == 0x78 {
            Some(DiscordPacketType::Voice)
        } else if code == 200 {
            Some(DiscordPacketType::RtcpSenderReport)
        } else if code == 201 {
            Some(DiscordPacketType::RtcpReceiverReport)
        } else {
            None
        }
    }
}

/// RTCP packet types (RFC 3550 §12.1).
#[derive(Clone, Copy, Debug, PartialEq, Eq)]
pub enum RtcpType {
    /// 200.
    SenderReport,
    /// 201.
    ReceiverReport,
    /// Any other code in the RTCP range.
    Other(u8),
}

/// What the second byte of a datagram says it carries.
#[derive(Clone, Copy, Debug, PartialEq, Eq)]
pub enum PacketClass {
    Rtcp(RtcpType),
    Rtp { marker: bool, payload_type: u8 },
}

/// RFC 5761 §4: a second byte in 192..=223 is an RTCP packet type; any
/// other value is an RTP marker bit followed by a seven-bit payload type.
pub open spec fn classify_spec(b: u8) -> PacketClass {
    if 192 <= b <= 223 {
        PacketClass::Rtcp(
            if b == 200 {
                RtcpType::SenderReport
            } else if b == 201 {
                RtcpType::ReceiverReport
            } else {
                RtcpType::Other(b)
            },
        )
    } else {
        PacketClass::Rtp { marker: b >= 128, payload_type: (b % 128) as u8 }
    }
}

impl PacketClass {
    /// Classifies a datagram by its second byte.
    pub fn classify(b: u8) -> (r: Self)
        ensures
            r == classify_spec(b),
    {
        if 192 <= b && b <= 223 {
            let t = if b == 200 {
                RtcpType::SenderReport
            } else if b == 201 {
                RtcpType::ReceiverReport
            } else {
                RtcpType::Other(b)
            };
            PacketClass::Rtcp(t)
        } else {
            PacketClass::Rtp { marker: b >= 128, payload_type: b % 128 }
        }
    }
}

// === header geometry ===
/// Padding (P) bit of the first header byte.
pub open spec fn padding_bit(b0: u8) -> bool {
    (b0 / 32) % 2 == 1
}

/// Extension (X) bit of the first header byte.
pub open spec fn extension_bit(b0: u8) -> bool {
    (b0 / 16) % 2 == 1
}

/// CSRC count of the first header byte.
pub open spec fn csrc_count(b0: u8) -> int {
    (b0 % 16) as int
}

/// Length of the header of a packet of at least twelve bytes: the fixed
/// part and the CSRC list (cut at the end of the packet), plus the four
/// bytes of the extension preamble when the X bit is set.
pub open spec fn rtp_header_len_spec(p: Seq<u8>) -> int {
    let fixed = 12 + 4 * csrc_count(p[0]);
    let cut = if fixed < p.len() { fixed } else { p.len() as int };
    cut + if extension_bit(p[0]) { 4int } else { 0int }
}

/// Header length of an RTP packet, as in [`rtp_header_len_spec`].
pub fn rtp_header_len(p: &[u8]) -> (r: usize)
    requires
        p@.len() >= RTP_HEADER_LEN,
    ensures
        r == rtp_header_len_spec(p@),
{
    let n = p.len();
    let b0 = p[0];
    let fixed: usize = 12 + 4 * ((b0 % 16) as usize);
    let cut = if fixed < n { fixed } else { n };
    if (b0 / 16) % 2 == 1 {
        cut + 4
    } else {
        cut
    }
}

/// Whether the packet's padding bit is set.
pub fn has_padding(b0: u8) -> (r: bool)
    ensures
        r == padding_bit(b0),
{
    (b0 / 32) % 2 == 1
}

/// Whether the packet's extension bit is set.
pub fn has_extension(b0: u8) -> (r: bool)
    ensures
        r == extension_bit(b0),
{
    (b0 / 16) % 2 == 1
}

/// The header bits of the first byte, as RFC 3550 lays them out: P is bit
/// 5 (0x20), X is bit 4 (0x10), and CC the low four bits.
pub proof fn law_header_bits(b0: u8)
    ensures
        padding_bit(b0) <==> (b0 & 0x20u8 != 0),
        extension_bit(b0) <==> (b0 & 0x10u8 != 0),
        csrc_count(b0) == ((b0 & 0x0fu8) as int),
{
    assert(((b0 / 32) % 2 == 1) <==> (b0 & 0x20u8 != 0)) by (bit_vector);
    assert(((b0 / 16) % 2 == 1) <==> (b0 & 0x10u8 != 0)) by (bit_vector);
    assert(b0 % 16 == b0 & 0x0fu8) by (bit_vector);
}

/// Outside the RTCP range the second byte splits into the marker bit (the
/// top bit) and the seven-bit payload type; inside it, codes 200 and 201
/// are sender and receiver reports.
pub proof fn law_second_byte_split(b: u8)
    ensures
        !(192 <= b <= 223) ==> classify_spec(b) == (PacketClass::Rtp {
            marker: b & 0x80u8 != 0,
            payload_type: b & 0x7fu8,
        }),
        classify_spec(200) == PacketClass::Rtcp(RtcpType::SenderReport),
        classify_spec(201) == PacketClass::Rtcp(RtcpType::ReceiverReport),
        192 <= b <= 223 && b != 200 && b != 201 ==> classify_spec(b) == PacketClass::Rtcp(RtcpType::Other(b)),
{
    assert((b >= 128) <==> (b & 0x80u8 != 0)) by (bit_vector);
    assert(b % 128 == b & 0x7fu8) by (bit_vector);
}

// === RFC 5285 one-byte header extensions ===
/// Extension elements Discord emits on Opus voice packets, by element ID.
#[derive(Clone, Copy, Debug, PartialEq, Eq)]
pub enum RtpExtension {
    /// RFC 6464 audio level indication (ID 1).
    AudioLevel,
    /// Discord-specific, ID 3.
    Timecode,
    /// Discord-specific, ID 9.
    Channels,
}

pub open spec fn extension_of_id(id: u8) -> Option<RtpExtension> {
    if id == 1 {
        Some(RtpExtension::AudioLevel)
    } else if id == 3 {
        Some(RtpExtension::Timecode)
    } else if id == 9 {
        Some(RtpExtension::Channels)
    } else {
        None
    }
}

pub open spec fn extension_data_len(e: RtpExtension) -> int {
    match e {
        RtpExtension::AudioLevel => 1,
        RtpExtension::Timecode => 3,
        RtpExtension::Channels => 1,
    }
}

impl RtpExtension {
    /// The element with RFC 5285 ID `id`, if Discord uses it.
    pub fn from_id(id: u8) -> (r: Option<Self>)
        ensures
            r == extension_of_id(id),
    {
        if id == 1 {
            Some(RtpExtension::AudioLevel)
        } else if id == 3 {
            Some(RtpExtension::Timecode)
        } else if id == 9 {
            Some(RtpExtension::Channels)
        } else {
            None
        }
    }

    /// Expected size of the data portion (without the sub-header byte).
    pub fn expected_data_len(self) -> (r: usize)
        ensures
            r == extension_data_len(self),
    {
        match self {
            RtpExtension::AudioLevel => 1,
            RtpExtension::Timecode => 3,
            RtpExtension::Channels => 1,
        }
    }
}

/// The extension elements found in a packet.
#[derive(Clone, Copy, Debug, PartialEq, Eq)]
pub struct RtpExtensions {
    /// RFC 6464: voice-activity bit and level.
    pub audio_level: Option<u8>,
    pub timecode: Option<(u8, u8, u8)>,
    pub channels: Option<u8>,
}

impl RtpExtensions {
    pub open spec fn empty_spec() -> RtpExtensions {
        RtpExtensions { audio_level: None, timecode: None, channels: None }
    }
}

/// Records one well-sized element (`data` starts at `c[1]`).
pub open spec fn record_extension(acc: RtpExtensions, id: u8, data_len: int, c: Seq<u8>) -> RtpExtensions {
    match extension_of_id(id) {
        Some(e) => if extension_data_len(e) == data_len {
            match e {
                RtpExtension::AudioLevel => RtpExtensions { audio_level: Some(c[1]), ..acc },
                RtpExtension::Timecode => RtpExtensions { timecode: Some((c[1], c[2], c[3])), ..acc },
                RtpExtension::Channels => RtpExtensions { channels: Some(c[1]), ..acc },
            }
        } else {
            acc
        },
        None => acc,
    }
}

/// RFC 5285 §4.2: each element is a sub-header byte `ID:4 | (len-1):4`
/// followed by `len` data bytes; ID 0 is one byte of padding, ID 15 ends
/// the block, and an element that runs past the block ends it too. Later
/// elements of the same kind replace earlier ones.
pub open spec fn parse_extensions_spec(c: Seq<u8>, acc: RtpExtensions) -> RtpExtensions
    decreases c.len(),
{
    if c.len() == 0 {
        acc
    } else {
        let id = (c[0] / 16) as u8;
        if id == 0 {
            parse_extensions_spec(c.drop_first(), acc)
        } else if id == 15 {
            acc
        } else {
            let data_len = (c[0] % 16) as int + 1;
            if 1 + data_len > c.len() {
                acc
            } else {
                parse_extensions_spec(
                    c.subrange(1 + data_len, c.len() as int),
                    record_extension(acc, id, data_len, c),
                )
            }
        }
    }
}

/// Parses an RFC 5285 one-byte extension block.
pub fn parse_extensions(c: &[u8]) -> (r: RtpExtensions)
    ensures
        r == parse_extensions_spec(c@, RtpExtensions::empty_spec()),
{
    let n = c.len();
    let mut acc = RtpExtensions { audio_level: None, timecode: None, channels: None };
    let mut pos: usize = 0;
    proof {
        assert(c@.subrange(0, n as int) =~= c@);
    }
    while pos < n
        invariant
            n == c@.len(),
            pos <= n,
            parse_extensions_spec(c@, RtpExtensions::empty_spec()) == parse_extensions_spec(
                c@.subrange(pos as int, n as int),
                acc,
            ),
        decreases n - pos,
    {
        let rest = Ghost(c@.subrange(pos as int, n as int));
        let sub = c[pos];
        let id = sub / 16;
        if id == 0 {
            proof {
                assert(rest@.drop_first() =~= c@.subrange(pos + 1, n as int));
            }
            pos = pos + 1;
        } else if id == 15 {
            proof {
                assert(c@.subrange(n as int, n as int).len() == 0);
            }
            pos = n;
        } else {
            let data_len: usize = (sub % 16) as usize + 1;
            let total = 1 + data_len;
            if total > n - pos {
                proof {
                    assert(c@.subrange(n as int, n as int).len() == 0);
                }
                pos = n;
            } else {
                let ghost old_acc = acc;
                match RtpExtension::from_id(id) {
                    Some(ext) => {
                        if ext.expected_data_len() == data_len {
                            match ext {
                                RtpExtension::AudioLevel => {
                                    acc.audio_level = Some(c[pos + 1]);
                                },
                                RtpExtension::Timecode => {
                                    acc.timecode = Some((c[pos + 1], c[pos + 2], c[pos + 3]));
                                },
                                RtpExtension::Channels => {
                                    acc.channels = Some(c[pos + 1]);
                                },
                            }
                        }
                    },
                    None => {},
                }
                proof {
                    assert(acc == record_extension(old_acc, id, data_len as int, rest@));
                    assert(rest@.subrange(1 + data_len as int, rest@.len() as int) =~= c@.subrange(
                        pos + total,
                        n as int,
                    ));
                }
                pos = pos + total;
            }
        }
    }
    proof {
        assert(c@.subrange(n as int, n as int).len() == 0);
    }
    acc
}

} // verus!
