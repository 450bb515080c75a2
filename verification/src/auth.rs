//! Logging in with credentials and addressing the REST API: the steps of
//! the password (and two-factor) login, the explanations shown for
//! rejected logins, request bodies and headers, and endpoint URLs.

use vstd::prelude::*;
use vstd::string::{StringExecFns, StringSliceAdditionalSpecFns};

use base64::Engine;
use percent_encoding::{utf8_percent_encode, NON_ALPHANUMERIC};

use crate::api::{CreateMessage, LoginRequest, LoginResponse, MfaResponse, MfaTotpRequest, Snowflake};
use crate::cdn::dec;
use crate::text::{chars_of, push_decimal};

verus! {

/// Base URL of the REST API.
pub const DISCORD_API: &'static str = "https://discord.com/api/v10";

/// `User-Agent` advertised on the login calls.
pub const LOGIN_USER_AGENT: &'static str = "Mozilla/5.0 (X11; Linux x86_64; rv:124.0) Gecko/20100101 Firefox/124.0";

// === outside helpers ===
/// Unicode's `White_Space` property: tab through carriage return, space,
/// next line, no-break space, ogham space mark, the spaces U+2000 to U+200A,
/// line and paragraph separators, narrow no-break space, medium
/// mathematical space and ideographic space.
pub open spec fn is_white_space(c: char) -> bool {
    let u = c as u32;
    ||| 0x9 <= u <= 0xD
    ||| u == 0x20
    ||| u == 0x85
    ||| u == 0xA0
    ||| u == 0x1680
    ||| 0x2000 <= u <= 0x200A
    ||| u == 0x2028
    ||| u == 0x2029
    ||| u == 0x202F
    ||| u == 0x205F
    ||| u == 0x3000
}

/// `s` without its leading white space.
pub open spec fn trim_start_spec(s: Seq<char>) -> Seq<char>
    decreases s.len(),
{
    if s.len() > 0 && is_white_space(s[0]) {
        trim_start_spec(s.drop_first())
    } else {
        s
    }
}

/// `s` without its trailing white space.
pub open spec fn trim_end_spec(s: Seq<char>) -> Seq<char>
    decreases s.len(),
{
    if s.len() > 0 && is_white_space(s.last()) {
        trim_end_spec(s.drop_last())
    } else {
        s
    }
}

/// What `str::trim` leaves of a string: the string without leading and
/// trailing white space.
pub open spec fn trimmed(s: Seq<char>) -> Seq<char> {
    trim_end_spec(trim_start_spec(s))
}

/// `str::trim`. Claimed: the result is [`trimmed`] of the argument (std
/// documents `trim` as removing leading and trailing white space as
/// Unicode's `White_Space` property defines it).
#[verifier::external_body]
fn trim(s: &str) -> (r: &str)
    ensures
        r@ == trimmed(s@),
{
    s.trim()
}

/// The base64 digit for a six-bit value (standard alphabet).
pub open spec fn b64_digit(v: int) -> char {
    if v < 26 {
        (65 + v) as char
    } else if v < 52 {
        (97 + v - 26) as char
    } else if v < 62 {
        (48 + v - 52) as char
    } else if v == 62 {
        '+'
    } else {
        '/'
    }
}

/// Standard base64 with `=` padding (RFC 4648 §4): each three bytes become
/// four digits; a final one or two bytes become two or three digits and
/// padding.
pub open spec fn base64_standard(b: Seq<u8>) -> Seq<char>
    decreases b.len(),
{
    if b.len() == 0 {
        Seq::empty()
    } else {
        let x0 = b[0] as int;
        if b.len() == 1 {
            seq![b64_digit(x0 / 4), b64_digit((x0 % 4) * 16), '=', '=']
        } else {
            let x1 = b[1] as int;
            if b.len() == 2 {
                seq![b64_digit(x0 / 4), b64_digit((x0 % 4) * 16 + x1 / 16), b64_digit((x1 % 16) * 4), '=']
            } else {
                let x2 = b[2] as int;
                seq![
                    b64_digit(x0 / 4),
                    b64_digit((x0 % 4) * 16 + x1 / 16),
                    b64_digit((x1 % 16) * 4 + x2 / 64),
                    b64_digit(x2 % 64),
                ] + base64_standard(b.subrange(3, b.len() as int))
            }
        }
    }
}

/// `base64::engine::general_purpose::STANDARD.encode`. Claimed: standard
/// base64 with padding, as [`base64_standard`] states it (the engine is
/// documented as the RFC 4648 standard alphabet with padding).
#[verifier::external_body]
fn base64_encode(bytes: &[u8]) -> (r: String)
    requires
        bytes@.len() <= 0x3fff_ffff,
    ensures
        r@ == base64_standard(bytes@),
{
    base64::engine::general_purpose::STANDARD.encode(bytes)
}

/// Whether a byte stays as it is under `NON_ALPHANUMERIC` percent-encoding.
pub open spec fn is_ascii_alnum_byte(b: u8) -> bool {
    (48 <= b <= 57) || (65 <= b <= 90) || (97 <= b <= 122)
}

/// An uppercase hexadecimal digit.
pub open spec fn hex_upper(v: int) -> char {
    if v < 10 {
        (48 + v) as char
    } else {
        (55 + v) as char
    }
}

/// Percent-encoding of bytes with the `NON_ALPHANUMERIC` set: ASCII letters
/// and digits are kept, every other byte becomes `%` and two uppercase hex
/// digits.
pub open spec fn percent_encoded(b: Seq<u8>) -> Seq<char>
    decreases b.len(),
{
    if b.len() == 0 {
        Seq::empty()
    } else {
        let head = if is_ascii_alnum_byte(b[0]) {
            seq![b[0] as char]
        } else {
            seq!['%', hex_upper(b[0] as int / 16), hex_upper(b[0] as int % 16)]
        };
        head + percent_encoded(b.drop_first())
    }
}

/// `percent_encoding::utf8_percent_encode(s, NON_ALPHANUMERIC)`, displayed.
/// Claimed: the UTF-8 bytes of `s` encoded as [`percent_encoded`] states
/// (the crate encodes every byte outside ASCII and every byte of the set,
/// as `%` and two digits from its uppercase table).
#[verifier::external_body]
fn percent_encode_non_alphanumeric(s: &str) -> (r: String)
    ensures
        r@ == percent_encoded(s.spec_bytes()),
{
    utf8_percent_encode(s, NON_ALPHANUMERIC).to_string()
}

fn append(out: &mut String, s: &str)
    ensures
        final(out)@ == old(out)@ + s@,
{
    out.append(s);
}

// === text search ===
/// `pat` occurs in `s`.
pub open spec fn contains_seq(s: Seq<char>, pat: Seq<char>) -> bool {
    exists|i: int| 0 <= i <= s.len() - pat.len() && #[trigger] s.subrange(i, i + pat.len()) == pat
}

/// Whether `pat` occurs in `s` (`str::contains`).
pub fn contains_text(s: &str, pat: &str) -> (r: bool)
    ensures
        r == contains_seq(s@, pat@),
{
    let sc = chars_of(s);
    let pc = chars_of(pat);
    let n = sc.len();
    let m = pc.len();
    if m > n {
        proof {
            assert forall|i: int| 0 <= i <= s@.len() - pat@.len() implies #[trigger] s@.subrange(i, i + pat@.len()) != pat@ by {}
        }
        return false;
    }
    let mut i: usize = 0;
    while i <= n - m
        invariant
            sc@ == s@,
            pc@ == pat@,
            n == sc@.len(),
            m == pc@.len(),
            m <= n,
            i <= n - m + 1,
            forall|k: int| 0 <= k < i ==> #[trigger] s@.subrange(k, k + m) != pat@,
        decreases n - m + 1 - i,
    {
        let mut j: usize = 0;
        let mut same = true;
        while j < m
            invariant
                sc@ == s@,
                pc@ == pat@,
                n == sc@.len(),
                m == pc@.len(),
                i + m <= n,
                j <= m,
                same == (forall|t: int| 0 <= t < j ==> sc@[i + t] == pc@[t]),
            decreases m - j,
        {
            if sc[i + j] != pc[j] {
                same = false;
            }
            j = j + 1;
        }
        if same {
            proof {
                assert(s@.subrange(i as int, i + m) =~= pat@);
            }
            return true;
        }
        proof {
            assert forall|k: int| 0 <= k < i + 1 implies #[trigger] s@.subrange(k, k + m) != pat@ by {
                if k == i {
                    let t = choose|t: int| 0 <= t < m && sc@[i + t] != pc@[t];
                    assert(s@.subrange(k, k + m)[t] != pat@[t]);
                }
            }
        }
        i = i + 1;
    }
    false
}

// === rejected logins ===
/// Shown when Discord demands a CAPTCHA.
pub const CAPTCHA_EXPLANATION: &'static str = "Discord requires a CAPTCHA for this login, which this app cannot solve. Log in once in the official Discord client or browser (same network if possible) to clear the challenge, then try again.";

/// Shown when an email login is rejected.
pub const EMAIL_REJECTED_EXPLANATION: &'static str = "Discord rejected the email/password. Double-check the password, and note that accounts using Google/Apple/passkey sign-in have no password to use here.";

/// Shown when a non-email login is rejected.
pub const HANDLE_REJECTED_EXPLANATION: &'static str = "Discord rejected the login. The username field must be your account's email or phone number — not your Discord username/handle.";

/// The explanation for a failed login whose error text is `body`; `None`
/// keeps the error as it is.
pub open spec fn login_explanation(body: Seq<char>, login: Seq<char>) -> Option<Seq<char>> {
    if contains_seq(body, "captcha"@) {
        Some(CAPTCHA_EXPLANATION@)
    } else if contains_seq(body, "INVALID_LOGIN"@) {
        Some(
            if contains_seq(login, "@"@) {
                EMAIL_REJECTED_EXPLANATION@
            } else {
                HANDLE_REJECTED_EXPLANATION@
            },
        )
    } else {
        None
    }
}

/// Turns the text of a failed login into an actionable message: a CAPTCHA
/// cannot be solved here, and `INVALID_LOGIN` gets a hint that depends on
/// whether the login looks like an email address.
pub fn explain_login_error(body: &str, login: &str) -> (r: Option<&'static str>)
    ensures
        match login_explanation(body@, login@) {
            Some(m) => r matches Some(t) && t@ == m,
            None => r is None,
        },
{
    if contains_text(body, "captcha") {
        return Some(CAPTCHA_EXPLANATION);
    }
    if contains_text(body, "INVALID_LOGIN") {
        if contains_text(login, "@") {
            return Some(EMAIL_REJECTED_EXPLANATION);
        } else {
            return Some(HANDLE_REJECTED_EXPLANATION);
        }
    }
    None
}

// === login steps ===
/// Why a credential login did not produce a token.
#[derive(Debug, Clone, Copy, PartialEq, Eq)]
pub enum LoginError {
    /// Neither a token nor an MFA ticket: bad credentials or a CAPTCHA.
    NoTokenReturned,
    /// Two-factor is enabled but no code was given.
    MfaCodeRequired,
    /// The two-factor exchange returned no token.
    MfaNoToken,
}

/// What follows the first login response.
#[derive(Debug)]
pub enum LoginStep {
    /// Logged in.
    Token(String),
    /// Redeem the ticket with this request.
    Mfa(MfaTotpRequest),
}

/// The body of the login request: the identifier trimmed, the password
/// verbatim.
pub fn login_request(login: &str, password: &str) -> (r: LoginRequest)
    ensures
        r.login@ == trimmed(login@),
        r.password@ == password@,
        !r.undelete,
{
    LoginRequest { login: String::from_str(trim(login)), password: String::from_str(password), undelete: false }
}

/// The next step after the login response: its token, or an MFA request
/// with its ticket, the trimmed code and the login instance.
pub fn after_login(response: LoginResponse, mfa_code: Option<&str>) -> (r: Result<LoginStep, LoginError>)
    ensures
        response.token matches Some(t) ==> (r matches Ok(LoginStep::Token(u)) && u@ == t@),
        response.token is None && response.ticket is None ==> r == Err::<LoginStep, LoginError>(
            LoginError::NoTokenReturned,
        ),
        response.token is None && response.ticket is Some ==> match mfa_code {
            Some(c) if trimmed(c@).len() > 0 => r matches Ok(LoginStep::Mfa(req)) && req.ticket
                == response.ticket->0 && req.code@ == trimmed(c@) && req.login_instance_id
                == response.login_instance_id,
            _ => r == Err::<LoginStep, LoginError>(LoginError::MfaCodeRequired),
        },
{
    match response.token {
        Some(t) => {
            return Ok(LoginStep::Token(t));
        },
        None => {},
    }
    let ticket = match response.ticket {
        Some(t) => t,
        None => {
            return Err(LoginError::NoTokenReturned);
        },
    };
    let code = match mfa_code {
        Some(c) => trim(c),
        None => {
            return Err(LoginError::MfaCodeRequired);
        },
    };
    if code.is_empty() {
        return Err(LoginError::MfaCodeRequired);
    }
    Ok(
        LoginStep::Mfa(
            MfaTotpRequest {
                ticket,
                code: String::from_str(code),
                login_instance_id: response.login_instance_id,
            },
        ),
    )
}

/// The token of the two-factor response.
pub fn after_mfa(response: MfaResponse) -> (r: Result<String, LoginError>)
    ensures
        match response.token {
            Some(t) => r matches Ok(u) && u@ == t@,
            None => r == Err::<String, LoginError>(LoginError::MfaNoToken),
        },
{
    match response.token {
        Some(t) => Ok(t),
        None => Err(LoginError::MfaNoToken),
    }
}

/// A two-factor code kept for a credential login: blank codes count as none.
pub fn kept_mfa_code(code: Option<String>) -> (r: Option<String>)
    ensures
        match code {
            Some(c) => if trimmed(c@).len() > 0 {
                r == Some(c)
            } else {
                r is None
            },
            None => r is None,
        },
{
    match code {
        Some(c) => {
            if trim(c.as_str()).is_empty() {
                None
            } else {
                Some(c)
            }
        },
        None => None,
    }
}

/// The headers of the unauthenticated login calls: the browser user agent
/// and the base64 of the client-properties JSON.
pub fn login_headers(super_properties: &str) -> (r: Vec<(&'static str, String)>)
    requires
        super_properties.spec_bytes().len() <= 0x3fff_ffff,
    ensures
        r@.len() == 2,
        r@[0].0@ == "User-Agent"@,
        r@[0].1@ == LOGIN_USER_AGENT@,
        r@[1].0@ == "X-Super-Properties"@,
        r@[1].1@ == base64_standard(super_properties.spec_bytes()),
{
    let mut r = Vec::new();
    r.push(("User-Agent", String::from_str(LOGIN_USER_AGENT)));
    r.push(("X-Super-Properties", base64_encode(super_properties.as_bytes())));
    r
}

/// The authorization header for a token (trimmed).
pub fn auth_header(token: &str) -> (r: (&'static str, String))
    ensures
        r.0@ == "Authorization"@,
        r.1@ == trimmed(token@),
{
    ("Authorization", String::from_str(trim(token)))
}

/// The body of a message sent as plain, non-TTS content.
pub fn create_message_body(content: String) -> (r: CreateMessage)
    ensures
        r.content == Some(content),
        r.nonce is None,
        r.enforce_nonce is None,
        r.tts == Some(false),
        r.flags == Some(0u32),
{
    CreateMessage { content: Some(content), nonce: None, enforce_nonce: None, tts: Some(false), flags: Some(0) }
}

// === endpoints ===
/// The messages of a channel, optionally only those before a message.
pub fn messages_url(channel_id: Snowflake, before: Option<Snowflake>) -> (r: String)
    ensures
        r@ == DISCORD_API@ + "/channels/"@ + dec(channel_id) + "/messages"@ + match before {
            Some(b) => "?before="@ + dec(b),
            None => Seq::<char>::empty(),
        },
{
    let mut r = String::from_str(DISCORD_API);
    append(&mut r, "/channels/");
    push_decimal(&mut r, channel_id);
    append(&mut r, "/messages");
    match before {
        Some(b) => {
            append(&mut r, "?before=");
            push_decimal(&mut r, b);
        },
        None => {
            proof {
                assert(r@ =~= r@ + Seq::<char>::empty());
            }
        },
    }
    r
}

/// The channels of a guild.
pub fn guild_channels_url(guild_id: Snowflake) -> (r: String)
    ensures
        r@ == DISCORD_API@ + "/guilds/"@ + dec(guild_id) + "/channels"@,
{
    let mut r = String::from_str(DISCORD_API);
    append(&mut r, "/guilds/");
    push_decimal(&mut r, guild_id);
    append(&mut r, "/channels");
    r
}

/// Where a message is sent to.
pub fn send_message_url(channel_id: Snowflake) -> (r: String)
    ensures
        r@ == DISCORD_API@ + "/channels/"@ + dec(channel_id) + "/messages"@,
{
    messages_url(channel_id, None)
}

/// Our own reaction with `emoji` (percent-encoded) on a message.
pub fn own_reaction_url(channel_id: Snowflake, message_id: Snowflake, emoji: &str) -> (r: String)
    ensures
        r@ == DISCORD_API@ + "/channels/"@ + dec(channel_id) + "/messages/"@ + dec(message_id)
            + "/reactions/"@ + percent_encoded(emoji.spec_bytes()) + "/@me"@,
{
    let encoded = percent_encode_non_alphanumeric(emoji);
    let mut r = String::from_str(DISCORD_API);
    append(&mut r, "/channels/");
    push_decimal(&mut r, channel_id);
    append(&mut r, "/messages/");
    push_decimal(&mut r, message_id);
    append(&mut r, "/reactions/");
    append(&mut r, encoded.as_str());
    append(&mut r, "/@me");
    r
}

} // verus!
