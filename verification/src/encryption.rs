//! Voice transport encryption modes and the session description the voice
//! gateway sends once a protocol has been selected.

use vstd::prelude::*;

use crate::text::chars_of;

verus! {

/// Transport encryption modes a Discord voice server may offer.
#[allow(non_camel_case_types)]
#[derive(Clone, Copy, Debug, PartialEq, Eq, Structural)]
pub enum EncryptionMode {
    aead_aes256_gcm,
    aead_aes256_gcm_rtpsize,
    aead_xchacha20_poly1305_rtpsize,
    xsalsa20_poly1305,
    xsalsa20_poly1305_suffix,
    xsalsa20_poly1305_lite,
    xsalsa20_poly1305_lite_rtpsize,
}

/// The name a mode is negotiated under.
pub open spec fn mode_name(m: EncryptionMode) -> Seq<char> {
    match m {
        EncryptionMode::aead_aes256_gcm => "aead_aes256_gcm"@,
        EncryptionMode::aead_aes256_gcm_rtpsize => "aead_aes256_gcm_rtpsize"@,
        EncryptionMode::aead_xchacha20_poly1305_rtpsize => "aead_xchacha20_poly1305_rtpsize"@,
        EncryptionMode::xsalsa20_poly1305 => "xsalsa20_poly1305"@,
        EncryptionMode::xsalsa20_poly1305_suffix => "xsalsa20_poly1305_suffix"@,
        EncryptionMode::xsalsa20_poly1305_lite => "xsalsa20_poly1305_lite"@,
        EncryptionMode::xsalsa20_poly1305_lite_rtpsize => "xsalsa20_poly1305_lite_rtpsize"@,
    }
}

/// Whether the AEAD tag length of the mode is known to this client.
pub open spec fn has_tag_len(m: EncryptionMode) -> bool {
    m == EncryptionMode::aead_aes256_gcm || m == EncryptionMode::aead_xchacha20_poly1305_rtpsize
}

/// Whether the mode is the one this client implements end to end.
pub open spec fn is_xchacha(m: EncryptionMode) -> bool {
    m == EncryptionMode::aead_xchacha20_poly1305_rtpsize
}

impl EncryptionMode {
    /// The name the mode is negotiated under.
    pub fn as_str(&self) -> (r: &'static str)
        ensures
            r@ == mode_name(*self),
    {
        match self {
            EncryptionMode::aead_aes256_gcm => "aead_aes256_gcm",
            EncryptionMode::aead_aes256_gcm_rtpsize => "aead_aes256_gcm_rtpsize",
            EncryptionMode::aead_xchacha20_poly1305_rtpsize => "aead_xchacha20_poly1305_rtpsize",
            EncryptionMode::xsalsa20_poly1305 => "xsalsa20_poly1305",
            EncryptionMode::xsalsa20_poly1305_lite_rtpsize => "xsalsa20_poly1305_lite_rtpsize",
            EncryptionMode::xsalsa20_poly1305_suffix => "xsalsa20_poly1305_suffix",
            EncryptionMode::xsalsa20_poly1305_lite => "xsalsa20_poly1305_lite",
        }
    }

    /// Length of the authentication tag; only the two AEAD modes this client
    /// knows have one.
    pub fn tag_len(&self) -> (r: usize)
        requires
            has_tag_len(*self),
        ensures
            r == 16,
    {
        16
    }

    /// Bytes of nonce carried at the end of each packet; only the XChaCha20
    /// mode is implemented.
    pub fn nonce_size(&self) -> (r: usize)
        requires
            is_xchacha(*self),
        ensures
            r == 4,
    {
        4
    }

    /// The mode named `value`. A name that is none of the seven gives
    /// `None`: the library does not stop on it, and the caller decides (the
    /// client treats such a name as a fatal protocol error).
    pub fn from_name(value: &str) -> (r: Option<EncryptionMode>)
        ensures
            r matches Some(m) ==> mode_name(m) == value@,
            r is None ==> forall|m: EncryptionMode| mode_name(m) != value@,
    {
        let v = chars_of(value);
        let modes = [
            EncryptionMode::aead_aes256_gcm_rtpsize,
            EncryptionMode::aead_xchacha20_poly1305_rtpsize,
            EncryptionMode::xsalsa20_poly1305_lite_rtpsize,
            EncryptionMode::aead_aes256_gcm,
            EncryptionMode::xsalsa20_poly1305,
            EncryptionMode::xsalsa20_poly1305_suffix,
            EncryptionMode::xsalsa20_poly1305_lite,
        ];
        let mut i: usize = 0;
        while i < 7
            invariant
                i <= 7,
                modes@.len() == 7,
                forall|m: EncryptionMode| modes@.contains(m),
                forall|j: int| 0 <= j < i ==> mode_name(#[trigger] modes@[j]) != v@,
                v@ == value@,
            decreases 7 - i,
        {
            let m = modes[i];
            let name = chars_of(m.as_str());
            if same_chars(&name, &v) {
                return Some(m);
            }
            i = i + 1;
        }
        proof {
            assert forall|m: EncryptionMode| mode_name(m) != value@ by {
                assert(modes@.contains(m));
                let j = choose|j: int| 0 <= j < 7 && modes@[j] == m;
                assert(mode_name(modes@[j]) != v@);
            }
        }
        None
    }
}

/// Whether two character vectors are equal.
pub fn same_chars(a: &Vec<char>, b: &Vec<char>) -> (r: bool)
    ensures
        r == (a@ == b@),
{
    if a.len() != b.len() {
        return false;
    }
    let mut i: usize = 0;
    while i < a.len()
        invariant
            a@.len() == b@.len(),
            i <= a@.len(),
            forall|j: int| 0 <= j < i ==> a@[j] == b@[j],
        decreases a@.len() - i,
    {
        if a[i] != b[i] {
            return false;
        }
        i = i + 1;
    }
    proof {
        assert(a@ =~= b@);
    }
    true
}

/// Each mode's name is read back as that mode.
pub proof fn law_mode_name_roundtrip(m: EncryptionMode, n: EncryptionMode)
    ensures
        mode_name(m) == mode_name(n) ==> m == n,
{
    reveal_strlit("aead_aes256_gcm");
    reveal_strlit("aead_aes256_gcm_rtpsize");
    reveal_strlit("aead_xchacha20_poly1305_rtpsize");
    reveal_strlit("xsalsa20_poly1305");
    reveal_strlit("xsalsa20_poly1305_suffix");
    reveal_strlit("xsalsa20_poly1305_lite");
    reveal_strlit("xsalsa20_poly1305_lite_rtpsize");
    if mode_name(m) == mode_name(n) && m != n {
        let a = mode_name(m);
        let b = mode_name(n);
        assert(a.len() != b.len() || exists|i: int| 0 <= i < a.len() && a[i] != b[i]);
    }
}

/// The session description the voice gateway sends after protocol selection.
#[derive(Debug)]
pub struct SessionDescription {
    audio_codec: String,
    video_codec: String,
    media_session_id: String,
    mode: Option<EncryptionMode>,
    secret_key: Option<Vec<u8>>,
    keyframe_interval: Option<u32>,
    dave_protocol_version: u16,
}

impl SessionDescription {
    /// A description with the given fields, as decoded from the gateway.
    pub fn new(
        audio_codec: String,
        video_codec: String,
        media_session_id: String,
        mode: Option<EncryptionMode>,
        secret_key: Option<Vec<u8>>,
        keyframe_interval: Option<u32>,
        dave_protocol_version: u16,
    ) -> (r: Self)
        ensures
            r.mode_spec() == mode,
            r.secret_key_spec() == secret_key,
            r.dave_protocol_version_spec() == dave_protocol_version,
            r.audio_codec_spec() == audio_codec@,
            r.video_codec_spec() == video_codec@,
            r.media_session_id_spec() == media_session_id@,
            r.keyframe_interval_spec() == keyframe_interval,
    {
        SessionDescription {
            audio_codec,
            video_codec,
            media_session_id,
            mode,
            secret_key,
            keyframe_interval,
            dave_protocol_version,
        }
    }

    pub closed spec fn mode_spec(&self) -> Option<EncryptionMode> {
        self.mode
    }

    pub closed spec fn secret_key_spec(&self) -> Option<Vec<u8>> {
        self.secret_key
    }

    pub closed spec fn dave_protocol_version_spec(&self) -> u16 {
        self.dave_protocol_version
    }

    pub closed spec fn audio_codec_spec(&self) -> Seq<char> {
        self.audio_codec@
    }

    pub closed spec fn video_codec_spec(&self) -> Seq<char> {
        self.video_codec@
    }

    pub closed spec fn media_session_id_spec(&self) -> Seq<char> {
        self.media_session_id@
    }

    pub closed spec fn keyframe_interval_spec(&self) -> Option<u32> {
        self.keyframe_interval
    }

    /// The negotiated encryption mode.
    pub fn mode(&self) -> (r: Option<&EncryptionMode>)
        ensures
            match r {
                Some(m) => self.mode_spec() == Some(*m),
                None => self.mode_spec() is None,
            },
    {
        self.mode.as_ref()
    }

    /// The shared transport key.
    pub fn secret_key(&self) -> (r: Option<&Vec<u8>>)
        ensures
            match r {
                Some(k) => self.secret_key_spec() == Some(*k),
                None => self.secret_key_spec() is None,
            },
    {
        self.secret_key.as_ref()
    }

    /// The DAVE (end-to-end encryption) protocol version.
    pub fn dave_protocol_version(&self) -> (r: u16)
        ensures
            r == self.dave_protocol_version_spec(),
    {
        self.dave_protocol_version
    }
}

} // verus!
