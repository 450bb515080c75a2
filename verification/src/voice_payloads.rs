//! Binary payloads of the voice gateway: the UDP IP-discovery exchange and
//! the MLS (DAVE) messages that carry an operation or transition prefix.

use vstd::prelude::*;
use vstd::string::StringSliceAdditionalSpecFns;

use crate::rtp::{be16, be16_bytes, be32, be32_bytes, u16_to_be_bytes, u32_to_be_bytes};
use crate::voice::copy_bytes;

verus! {

/// A `u16` stored in network byte order (most significant byte first).
#[allow(non_camel_case_types)]
#[derive(Clone, Copy, Debug, PartialEq, Eq)]
pub struct u16be(pub u8, pub u8);

/// A `u32` stored in network byte order (most significant byte first).
#[allow(non_camel_case_types)]
#[derive(Clone, Copy, Debug, PartialEq, Eq)]
pub struct u32be(pub u8, pub u8, pub u8, pub u8);

impl u16be {
    /// The bytes as stored.
    pub open spec fn bytes(self) -> Seq<u8> {
        seq![self.0, self.1]
    }

    /// The stored value in host order.
    pub fn get(self) -> (r: u16)
        ensures
            r == be16(self.0, self.1),
    {
        (self.0 as u16) * 256 + (self.1 as u16)
    }
}

impl u32be {
    /// The bytes as stored.
    pub open spec fn bytes(self) -> Seq<u8> {
        seq![self.0, self.1, self.2, self.3]
    }

    /// The stored value in host order.
    pub fn get(self) -> (r: u32)
        ensures
            r == be32(self.0, self.1, self.2, self.3),
    {
        (((self.0 as u32) * 256 + (self.1 as u32)) * 256 + (self.2 as u32)) * 256 + (self.3 as u32)
    }
}

impl From<u16> for u16be {
    fn from(value: u16) -> (r: Self)
        ensures
            r.bytes() == be16_bytes(value),
    {
        let b = u16_to_be_bytes(value);
        let r = u16be(b[0], b[1]);
        proof {
            assert(r.bytes() =~= be16_bytes(value));
        }
        r
    }
}

impl vstd::std_specs::convert::FromSpecImpl<u16> for u16be {
    open spec fn obeys_from_spec() -> bool {
        true
    }

    open spec fn from_spec(v: u16) -> u16be {
        u16be(be16_bytes(v)[0], be16_bytes(v)[1])
    }
}

impl From<u32> for u32be {
    fn from(value: u32) -> (r: Self)
        ensures
            r.bytes() == be32_bytes(value),
    {
        let b = u32_to_be_bytes(value);
        let r = u32be(b[0], b[1], b[2], b[3]);
        proof {
            assert(r.bytes() =~= be32_bytes(value));
        }
        r
    }
}

impl vstd::std_specs::convert::FromSpecImpl<u32> for u32be {
    open spec fn obeys_from_spec() -> bool {
        true
    }

    open spec fn from_spec(v: u32) -> u32be {
        u32be(be32_bytes(v)[0], be32_bytes(v)[1], be32_bytes(v)[2], be32_bytes(v)[3])
    }
}

/// Storing a value in network order and reading it back gives the value.
pub proof fn law_be_roundtrip(a: u16, b: u32)
    ensures
        be16(be16_bytes(a)[0], be16_bytes(a)[1]) == a,
        be32(be32_bytes(b)[0], be32_bytes(b)[1], be32_bytes(b)[2], be32_bytes(b)[3]) == b,
{
}

// === IP discovery ===
/// Size of an IP-discovery datagram.
pub const IP_DISCOVERY_LEN: usize = 74;

/// Bytes of the address field.
pub const IP_ADDRESS_LEN: usize = 64;

/// `n` zero bytes.
pub open spec fn zeros(n: int) -> Seq<u8> {
    Seq::new(n as nat, |i: int| 0u8)
}

/// The discovery request for `ssrc`: type 1, length 70, the SSRC, the
/// address bytes padded with zeros to 64, and the port.
pub open spec fn ip_discovery_request_spec(ssrc: u32, address: Seq<u8>, port: u16) -> Seq<u8> {
    be16_bytes(1) + be16_bytes(70) + be32_bytes(ssrc) + address + zeros(64 - address.len())
        + be16_bytes(port)
}

/// Encodes the IP-discovery request sent to the voice server's UDP endpoint.
pub fn ip_discovery_request(ssrc: u32, ip: &str, port: u16) -> (r: Vec<u8>)
    requires
        ip.spec_bytes().len() <= IP_ADDRESS_LEN,
    ensures
        r@ == ip_discovery_request_spec(ssrc, ip.spec_bytes(), port),
        r@.len() == IP_DISCOVERY_LEN,
{
    let address = ip.as_bytes();
    let al = address.len();
    let mut r: Vec<u8> = Vec::new();
    let t = u16_to_be_bytes(1);
    let l = u16_to_be_bytes(70);
    let s = u32_to_be_bytes(ssrc);
    let pb = u16_to_be_bytes(port);
    r.push(t[0]);
    r.push(t[1]);
    r.push(l[0]);
    r.push(l[1]);
    r.push(s[0]);
    r.push(s[1]);
    r.push(s[2]);
    r.push(s[3]);
    let ghost head = r@;
    proof {
        assert(head =~= be16_bytes(1) + be16_bytes(70) + be32_bytes(ssrc));
    }
    let mut i: usize = 0;
    while i < IP_ADDRESS_LEN
        invariant
            i <= IP_ADDRESS_LEN,
            al == address@.len() <= IP_ADDRESS_LEN,
            r@ == head + (if i <= al {
                address@.subrange(0, i as int)
            } else {
                address@ + zeros(i - al)
            }),
        decreases IP_ADDRESS_LEN - i,
    {
        if i < al {
            r.push(address[i]);
            proof {
                assert(address@.subrange(0, i + 1) =~= address@.subrange(0, i as int).push(
                    address@[i as int],
                ));
            }
        } else {
            r.push(0);
            proof {
                if i == al {
                    assert(address@.subrange(0, i as int) =~= address@);
                }
                assert(zeros(i + 1 - al) =~= zeros(i - al).push(0u8));
            }
        }
        i = i + 1;
    }
    r.push(pb[0]);
    r.push(pb[1]);
    proof {
        if al == IP_ADDRESS_LEN {
            assert(address@.subrange(0, al as int) =~= address@);
            assert(zeros(0) =~= Seq::<u8>::empty());
        }
        assert(r@ =~= ip_discovery_request_spec(ssrc, address@, port));
    }
    r
}

/// What the server's discovery response tells: our external SSRC, address
/// and port.
#[derive(Debug)]
pub struct IpDiscovery {
    pub ssrc: u32,
    /// The address bytes up to the first NUL.
    pub address: Vec<u8>,
    pub port: u16,
}

/// The address field: bytes 8..72, cut at the first zero byte.
pub open spec fn discovered_address(buf: Seq<u8>) -> Seq<u8> {
    let field = buf.subrange(8, 72);
    if exists|i: int| 0 <= i < 64 && field[i] == 0 {
        field.subrange(0, first_zero(field))
    } else {
        field
    }
}

/// Index of the first zero byte of `s` (`s.len()` when there is none).
pub open spec fn first_zero(s: Seq<u8>) -> int
    decreases s.len(),
{
    if s.len() == 0 {
        0
    } else if s[0] == 0 {
        0
    } else {
        1 + first_zero(s.drop_first())
    }
}

/// A discovery datagram laid out as the request is read back as what it
/// was made from: the SSRC, the address (free of zero bytes, at most 64 of
/// them) and the port.
pub proof fn law_discovery_layout_reads_back(ssrc: u32, address: Seq<u8>, port: u16)
    requires
        address.len() <= 64,
        forall|i: int| 0 <= i < address.len() ==> #[trigger] address[i] != 0,
    ensures
        ({
            let buf = ip_discovery_request_spec(ssrc, address, port);
            &&& buf.len() == 74
            &&& be32(buf[4], buf[5], buf[6], buf[7]) == ssrc
            &&& be16(buf[72], buf[73]) == port
            &&& discovered_address(buf) == address
        }),
{
    let buf = ip_discovery_request_spec(ssrc, address, port);
    let n = address.len() as int;
    law_be_roundtrip(port, ssrc);
    assert(buf[4] == be32_bytes(ssrc)[0] && buf[5] == be32_bytes(ssrc)[1] && buf[6] == be32_bytes(ssrc)[2]
        && buf[7] == be32_bytes(ssrc)[3]);
    assert(buf[72] == be16_bytes(port)[0] && buf[73] == be16_bytes(port)[1]);
    let field = buf.subrange(8, 72);
    assert(field =~= address + zeros(64 - n));
    lemma_first_zero(field);
    if n < 64 {
        assert(field[n] == 0);
        assert forall|j: int| 0 <= j < n implies field[j] != 0 by {
            assert(field[j] == address[j]);
        }
        assert(first_zero(field) == n) by {
            let f = first_zero(field);
            if f < n {
                assert(field[f] == address[f]);
            }
        }
        assert(field.subrange(0, n) =~= address);
    } else {
        assert(field =~= address);
        assert forall|i: int| 0 <= i < 64 implies field[i] != 0 by {
            assert(field[i] == address[i]);
        }
    }
}

proof fn lemma_first_zero(s: Seq<u8>)
    ensures
        0 <= first_zero(s) <= s.len(),
        forall|j: int| 0 <= j < first_zero(s) ==> s[j] != 0,
        first_zero(s) < s.len() ==> s[first_zero(s)] == 0,
    decreases s.len(),
{
    if s.len() > 0 && s[0] != 0 {
        lemma_first_zero(s.drop_first());
        assert forall|j: int| 0 <= j < first_zero(s) implies s[j] != 0 by {
            if j > 0 {
                assert(s[j] == s.drop_first()[j - 1]);
            }
        }
    }
}

/// Why a discovery response was not accepted.
#[derive(Clone, Copy, Debug, PartialEq, Eq)]
pub enum DiscoveryError {
    /// The address field is not UTF-8.
    AddressNotUtf8,
}

/// `std::str::from_utf8`, reduced to whether it accepts the bytes. Claimed
/// (std's documentation: an error exactly when the slice is not UTF-8):
/// the result is `true` exactly for valid UTF-8, as vstd's `valid_utf8`
/// states it.
#[verifier::external_body]
fn is_utf8(bytes: &[u8]) -> (r: bool)
    ensures
        r == vstd::utf8::valid_utf8(bytes@),
{
    std::str::from_utf8(bytes).is_ok()
}

/// Decodes the server's IP-discovery response.
pub fn parse_ip_discovery(buf: &[u8]) -> (r: Result<IpDiscovery, DiscoveryError>)
    requires
        buf@.len() == IP_DISCOVERY_LEN,
    ensures
        vstd::utf8::valid_utf8(buf@.subrange(8, 72)) <==> r is Ok,
        r is Ok ==> {
            &&& r->Ok_0.ssrc == be32(buf@[4], buf@[5], buf@[6], buf@[7])
            &&& r->Ok_0.port == be16(buf@[72], buf@[73])
            &&& r->Ok_0.address@ == discovered_address(buf@)
        },
{
    let field = copy_bytes(buf, 8, 72);
    if !is_utf8(field.as_slice()) {
        return Err(DiscoveryError::AddressNotUtf8);
    }
    let mut end: usize = 0;
    while end < 64 && field[end] != 0
        invariant
            end <= 64,
            field@.len() == 64,
            forall|j: int| 0 <= j < end ==> field@[j] != 0,
        decreases 64 - end,
    {
        end = end + 1;
    }
    let address = copy_bytes(field.as_slice(), 0, end);
    let ssrc = u32be(buf[4], buf[5], buf[6], buf[7]).get();
    let port = u16be(buf[72], buf[73]).get();
    proof {
        let f = buf@.subrange(8, 72);
        assert(field@ =~= f);
        lemma_first_zero(f);
        if end < 64 {
            assert(first_zero(f) == end as int) by {
                if first_zero(f) < end {
                    assert(f[first_zero(f)] == 0);
                }
            }
            assert(f[end as int] == 0);
        } else {
            assert(!(exists|i: int| 0 <= i < 64 && f[i] == 0));
            assert(f.subrange(0, 64) =~= f);
        }
    }
    Ok(IpDiscovery { ssrc, address, port })
}

// === MLS payloads ===
/// Which way an MLS proposals message changes the group.
#[derive(Clone, Copy, Debug, PartialEq, Eq)]
pub enum ProposalsOperationType {
    Append,
    Revoke,
}

/// Why a binary MLS payload was not accepted.
#[derive(Clone, Copy, Debug, PartialEq, Eq)]
pub enum PayloadError {
    /// An MLS proposals payload without its operation byte.
    EmptyProposals,
    /// An MLS transition payload shorter than its 2-byte transition ID.
    TruncatedTransition,
}

/// MLS proposals (opcode 27): `[operation_type: u8][proposals: ...]`.
#[derive(Debug)]
pub struct MlsProposalsPayload {
    pub operation_type: ProposalsOperationType,
    pub data: Vec<u8>,
}

impl MlsProposalsPayload {
    /// Splits the operation byte (0 appends, anything else revokes) from the
    /// proposals.
    pub fn try_from_bytes(bytes: Vec<u8>) -> (r: Result<Self, PayloadError>)
        ensures
            bytes@.len() == 0 <==> r is Err,
            r is Err ==> r->Err_0 == PayloadError::EmptyProposals,
            r is Ok ==> {
                &&& r->Ok_0.operation_type == (if bytes@[0] == 0 {
                    ProposalsOperationType::Append
                } else {
                    ProposalsOperationType::Revoke
                })
                &&& r->Ok_0.data@ == bytes@.subrange(1, bytes@.len() as int)
            },
    {
        if bytes.len() == 0 {
            return Err(PayloadError::EmptyProposals);
        }
        let operation_type = if bytes[0] == 0 {
            ProposalsOperationType::Append
        } else {
            ProposalsOperationType::Revoke
        };
        let data = copy_bytes(bytes.as_slice(), 1, bytes.len());
        Ok(MlsProposalsPayload { operation_type, data })
    }
}

/// A payload with a transition prefix (opcodes 29 and 30):
/// `[transition_id: u16 BE][data: ...]`.
#[derive(Debug)]
pub struct MlsTransitionPayload {
    pub transition_id: u16,
    pub data: Vec<u8>,
}

impl MlsTransitionPayload {
    /// Splits the big-endian transition ID from the data.
    pub fn try_from_bytes(bytes: Vec<u8>) -> (r: Result<Self, PayloadError>)
        ensures
            bytes@.len() < 2 <==> r is Err,
            r is Err ==> r->Err_0 == PayloadError::TruncatedTransition,
            r is Ok ==> {
                &&& r->Ok_0.transition_id == be16(bytes@[0], bytes@[1])
                &&& r->Ok_0.data@ == bytes@.subrange(2, bytes@.len() as int)
            },
    {
        if bytes.len() < 2 {
            return Err(PayloadError::TruncatedTransition);
        }
        let transition_id = u16be(bytes[0], bytes[1]).get();
        let data = copy_bytes(bytes.as_slice(), 2, bytes.len());
        Ok(MlsTransitionPayload { transition_id, data })
    }
}

} // verus!
