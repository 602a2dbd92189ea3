use vstd::prelude::*;
use vstd::string::*;
use crate::digest::{hex_decode, hex_decode_spec, hex_lower, sha256, sha256_hex, sha256_of};
use crate::models::{AuthProvider, PlayerAccount, QrChallenge, SessionClaims, UserProfile};
use crate::text::{
    chars_vec, concat2, concat3, contains_str, contains_seq, decimal_spec, decimal_string,
    lowercase_of, starts_with, str_eq, string_from_char_range, string_of, to_lowercase,
    to_uppercase, trim, trim_spec, uppercase_of,
};
use crate::web3::{
    begins_with, ed25519_key_ok, ed25519_valid, strip_prefix_all, strip_prefix_repeated,
};

verus! {

/// Seconds a QR sign-in challenge lives.
pub const QR_TTL_SECONDS: u64 = 300;

/// Seconds an approved QR session waits for the polling desktop.
pub const QR_DELIVERY_TTL_SECONDS: u64 = 60;

/// SHA-256 of a QR secret, as stored.
pub fn hash_secret(secret: &str) -> (r: Vec<u8>)
    ensures
        r@ == sha256_of(secret.spec_bytes()),
        r@.len() == 32,
{
    sha256(secret.as_bytes())
}

/// Lower-case hex of the SHA-256 of a QR secret.
pub fn hash_secret_hex(secret: &str) -> (r: String)
    ensures
        r@ == hex_lower(sha256_of(secret.spec_bytes())),
{
    sha256_hex(secret.as_bytes())
}

/// Constant-time equality of two 32-byte strings: no early exit, no branch on content.
pub fn ct_eq_bytes(a: &[u8], b: &[u8]) -> (r: bool)
    requires
        a@.len() == 32,
        b@.len() == 32,
    ensures
        r == (a@ == b@),
{
    let mut diff: u8 = 0;
    let mut i: usize = 0;
    while i < 32
        invariant
            i <= 32,
            a@.len() == 32,
            b@.len() == 32,
            (diff == 0) == (forall|j: int| 0 <= j < i ==> a@[j] == b@[j]),
        decreases 32 - i,
    {
        let x = a[i];
        let y = b[i];
        let d = diff;
        assert((d | (x ^ y)) == 0 <==> (d == 0 && x == y)) by (bit_vector);
        diff = d | (x ^ y);
        i = i + 1;
    }
    if diff == 0 {
        assert(a@ =~= b@);
    }
    diff == 0
}

/// Whether a secret answers a QR challenge: the stored hash decodes to 32 bytes equal to
/// the SHA-256 of the secret (compared in constant time).
pub fn check_secret(ch: &QrChallenge, secret: &str) -> (b: bool)
    ensures
        b == (hex_decode_spec(vstd::utf8::encode_utf8(ch.secret_hash@)) matches Some(h) && h == sha256_of(
            secret.spec_bytes(),
        )),
{
    let stored = match hex_decode(ch.secret_hash.as_str()) {
        Ok(v) => v,
        Err(_) => {
            return false;
        },
    };
    let h = hash_secret(secret);
    if stored.len() != 32 {
        assert(stored@ != h@);
        return false;
    }
    ct_eq_bytes(stored.as_slice(), h.as_slice())
}

/// The token of an `Authorization` header: after `Bearer ` or `bearer ` (else the whole
/// value), trimmed.
pub open spec fn bearer_token(header: Seq<char>) -> Seq<char> {
    if begins_with(header, "Bearer "@) {
        trim_spec(header.subrange(7, header.len() as int))
    } else if begins_with(header, "bearer "@) {
        trim_spec(header.subrange(7, header.len() as int))
    } else {
        trim_spec(header)
    }
}

/// Extracts the session token of an `Authorization` header (see `bearer_token`).
pub fn session_token_of(header: &str) -> (r: String)
    ensures
        r@ == bearer_token(header@),
{
    proof {
        reveal_strlit("Bearer ");
        reveal_strlit("bearer ");
    }
    let v = chars_vec(header);
    if starts_with(header, "Bearer ") || starts_with(header, "bearer ") {
        let rest = string_from_char_range(&v, 7, v.len());
        trim(rest.as_str())
    } else {
        trim(header)
    }
}

/// A signed-in caller: the account of a verified session and its claims.
pub struct AuthSession {
    pub account_id: String,
    pub claims: SessionClaims,
}

/// Why a request carries no usable session token.
pub enum SessionRefusal {
    MissingHeader,
    EmptyToken,
}

/// The session token of an `Authorization` header (see `bearer_token`): refused when the
/// header is missing or the token empty.
pub fn bearer_session_token(header: Option<&str>) -> (r: Result<String, SessionRefusal>)
    ensures
        header is None ==> r matches Err(SessionRefusal::MissingHeader),
        header matches Some(h) ==> (if bearer_token(h@).len() == 0 {
            r matches Err(SessionRefusal::EmptyToken)
        } else {
            r matches Ok(t) && t@ == bearer_token(h@)
        }),
{
    match header {
        None => Err(SessionRefusal::MissingHeader),
        Some(h) => {
            let t = session_token_of(h);
            if chars_vec(t.as_str()).len() == 0 {
                Err(SessionRefusal::EmptyToken)
            } else {
                Ok(t)
            }
        },
    }
}

/// The session of verified claims: its account is the claims' subject.
pub fn auth_session(claims: SessionClaims) -> (r: AuthSession)
    ensures
        r.account_id == claims.sub,
        r.claims == claims,
{
    let account_id = claims.sub.clone();
    AuthSession { account_id, claims }
}

/// Service-to-service check: a secret is configured and the header is `Bearer ` followed
/// by it (surrounding spaces ignored).
pub fn authorized(header: Option<&str>, secret: Option<&str>) -> (b: bool)
    ensures
        b == (secret matches Some(s) && header matches Some(h) && begins_with(h@, "Bearer "@)
            && trim_spec(h@.subrange(7, h@.len() as int)) == s@),
{
    proof {
        reveal_strlit("Bearer ");
    }
    let s = match secret {
        Some(s) => s,
        None => {
            return false;
        },
    };
    let h = match header {
        Some(h) => h,
        None => {
            return false;
        },
    };
    if !starts_with(h, "Bearer ") {
        return false;
    }
    let v = chars_vec(h);
    let rest = string_from_char_range(&v, 7, v.len());
    str_eq(trim(rest.as_str()).as_str(), s)
}

/// The game-platform wire names the identity bridge accepts.
pub open spec fn wire_known(t: Seq<char>) -> bool {
    t == "crazygames"@ || t == "poki"@ || t == "gamecenter"@ || t == "playgames"@ || t == "steam"@
        || t == "epic"@
}

/// `p` is the provider of the wire name `t`: CrazyGames and Poki by their variants, the
/// other platforms as custom providers named by their wire name.
pub open spec fn wire_provider_is(t: Seq<char>, p: AuthProvider) -> bool {
    if t == "crazygames"@ {
        p == AuthProvider::CrazyGames
    } else if t == "poki"@ {
        p == AuthProvider::Poki
    } else {
        p matches AuthProvider::Custom(c) && c@ == t
    }
}

/// Provider of a game-platform identity by its trimmed wire name: `crazygames`, `poki`,
/// or the custom platforms `gamecenter`, `playgames`, `steam`, `epic`.
pub fn provider_from_wire(value: &str) -> (r: Option<AuthProvider>)
    ensures
        r is Some <==> wire_known(trim_spec(value@)),
        r matches Some(p) ==> wire_provider_is(trim_spec(value@), p),
{
    proof {
        reveal_strlit("crazygames");
        reveal_strlit("poki");
        reveal_strlit("gamecenter");
        reveal_strlit("playgames");
        reveal_strlit("steam");
        reveal_strlit("epic");
    }
    let t = trim(value);
    let s = t.as_str();
    assert("poki"@.len() == 4 && "epic"@.len() == 4 && "steam"@.len() == 5);
    assert("poki"@ != "epic"@) by {
        assert("poki"@[0] != "epic"@[0]);
    }
    assert("crazygames"@ != "gamecenter"@) by {
        assert("crazygames"@[0] != "gamecenter"@[0]);
    }
    if str_eq(s, "crazygames") {
        Some(AuthProvider::CrazyGames)
    } else if str_eq(s, "gamecenter") {
        Some(AuthProvider::Custom(string_of("gamecenter")))
    } else if str_eq(s, "playgames") {
        Some(AuthProvider::Custom(string_of("playgames")))
    } else if str_eq(s, "poki") {
        Some(AuthProvider::Poki)
    } else if str_eq(s, "steam") {
        Some(AuthProvider::Custom(string_of("steam")))
    } else if str_eq(s, "epic") {
        Some(AuthProvider::Custom(string_of("epic")))
    } else {
        None
    }
}

/// Clans listed when a request names no limit.
pub fn default_list_limit() -> (r: usize)
    ensures
        r == 20,
{
    20
}

/// Feed entries returned when a request names no limit.
pub fn default_limit() -> (r: usize)
    ensures
        r == 20,
{
    20
}

/// Search results returned when a request names no limit.
pub fn default_search_limit() -> (r: usize)
    ensures
        r == 10,
{
    10
}

/// A bulk reset is a dry run unless the request says otherwise.
pub fn default_dry_run() -> (r: bool)
    ensures
        r,
{
    true
}

/// Newsletter opt-in is off unless the request asks for it.
pub fn default_opt_in() -> (r: bool)
    ensures
        !r,
{
    false
}

/// A bot button press: approve (`qr:ok:`) or deny (`qr:no:`) the named challenge.
pub fn parse_qr_action(data: &str) -> (r: Option<(bool, String)>)
    ensures
        begins_with(data@, "qr:ok:"@) ==> (r matches Some((a, c)) && a && c@ == data@.subrange(
            6,
            data@.len() as int,
        )),
        !begins_with(data@, "qr:ok:"@) && begins_with(data@, "qr:no:"@) ==> (r matches Some((a, c))
            && !a && c@ == data@.subrange(6, data@.len() as int)),
        !begins_with(data@, "qr:ok:"@) && !begins_with(data@, "qr:no:"@) ==> r is None,
{
    proof {
        reveal_strlit("qr:ok:");
        reveal_strlit("qr:no:");
    }
    let v = chars_vec(data);
    if starts_with(data, "qr:ok:") {
        Some((true, string_from_char_range(&v, 6, v.len())))
    } else if starts_with(data, "qr:no:") {
        Some((false, string_from_char_range(&v, 6, v.len())))
    } else {
        None
    }
}

/// The code of a `/link CODE` chat message: trimmed, `/link` stripped, trimmed again and
/// upper-cased.
pub fn link_command_code(text: &str) -> (r: String)
    ensures
        r@ == uppercase_of(trim_spec(strip_prefix_all(trim_spec(text@), "/link"@))),
{
    let t = trim(text);
    let s = strip_prefix_repeated(t.as_str(), "/link");
    let u = trim(s.as_str());
    to_uppercase(u.as_str())
}

/// Attempts allowed per link code within its window.
pub const LINK_TRIES_MAX: u64 = 10;

/// Key of the attempt counter of a link code.
pub fn link_try_key(code: &str) -> (r: String)
    ensures
        r@ == "wou_link_try:"@ + uppercase_of(trim_spec(code@)),
{
    let t = trim(code);
    concat2("wou_link_try:", to_uppercase(t.as_str()).as_str())
}

/// Whether a link code has used up its attempts.
pub fn link_tries_exhausted(count: u64) -> (b: bool)
    ensures
        b == (count >= LINK_TRIES_MAX),
{
    count >= LINK_TRIES_MAX
}

/// Provider under which a bot chat is mirrored into the account: Telegram chats (`tg`) as
/// the custom provider `telegram`, Discord otherwise.
pub fn bot_provider(ns: &str) -> (r: AuthProvider)
    ensures
        ns@ == "tg"@ ==> (r matches AuthProvider::Custom(c) && c@ == "telegram"@),
        ns@ != "tg"@ ==> r == AuthProvider::Discord,
{
    if str_eq(ns, "tg") {
        AuthProvider::Custom(string_of("telegram"))
    } else {
        AuthProvider::Discord
    }
}

/// Whether a Discord interaction is authentic: the hex public key (32 bytes) and hex
/// signature (64 bytes) decode, the key is accepted, and the signature verifies over the
/// timestamp followed by the body.
pub fn verify_discord_sig(public_key_hex: &str, timestamp: &str, body: &[u8], sig_hex: &str) -> (b: bool)
    ensures
        b == (hex_decode_spec(public_key_hex.spec_bytes()) matches Some(pk) && hex_decode_spec(
            sig_hex.spec_bytes(),
        ) matches Some(sig) && pk.len() == 32 && sig.len() == 64 && ed25519_key_ok(pk)
            && ed25519_valid(pk, timestamp.spec_bytes() + body@, sig)),
{
    let pk = match hex_decode(public_key_hex) {
        Ok(v) => v,
        Err(_) => {
            return false;
        },
    };
    let sig = match hex_decode(sig_hex) {
        Ok(v) => v,
        Err(_) => {
            return false;
        },
    };
    if pk.len() != 32 || sig.len() != 64 {
        return false;
    }
    if crate::web3::ed25519_key_check(pk.as_slice()).is_err() {
        return false;
    }
    let msg = crate::web3::concat_bytes(timestamp.as_bytes(), body);
    crate::web3::ed25519_verify(pk.as_slice(), msg.as_slice(), sig.as_slice())
}

/// Largest accepted upload, in bytes (2 MiB).
pub const MAX_UPLOAD_BYTES: usize = 2097152;

/// Whether an upload's media type names the banner (trimmed, case-insensitive); anything
/// else is the avatar.
pub fn media_is_banner(text: &str) -> (b: bool)
    ensures
        b == (lowercase_of(trim_spec(text@)) == "banner"@),
{
    let t = trim(text);
    str_eq(to_lowercase(t.as_str()).as_str(), "banner")
}

/// File extension for an upload's content type: `png`, `jpg` for JPEG, `webp` otherwise.
pub fn upload_extension(content_type: &str) -> (r: &'static str)
    ensures
        contains_seq(content_type@, "png"@) ==> r@ == "png"@,
        !contains_seq(content_type@, "png"@) && (contains_seq(content_type@, "jpeg"@) || contains_seq(
            content_type@,
            "jpg"@,
        )) ==> r@ == "jpg"@,
        !contains_seq(content_type@, "png"@) && !contains_seq(content_type@, "jpeg"@)
            && !contains_seq(content_type@, "jpg"@) ==> r@ == "webp"@,
{
    if contains_str(content_type, "png") {
        "png"
    } else if contains_str(content_type, "jpeg") || contains_str(content_type, "jpg") {
        "jpg"
    } else {
        "webp"
    }
}

/// Stored file name of an upload: `<account>_<media>_<time>.<ext>`.
pub fn upload_file_name(account_id: &str, media_type: &str, timestamp: u64, ext: &str) -> (r: String)
    ensures
        r@ == account_id@ + "_"@ + media_type@ + "_"@ + decimal_spec(timestamp as nat) + "."@ + ext@,
{
    let mut r = concat3(account_id, "_", media_type);
    r.append("_");
    r.append(decimal_string(timestamp).as_str());
    r.append(".");
    r.append(ext);
    r
}

/// Records an uploaded image on the profile at `now`: the banner or the avatar.
pub fn apply_uploaded_media(account: &mut PlayerAccount, banner: bool, url: String, now: u64)
    ensures
        banner ==> final(account).profile.banner_url == Some(url) && final(account).profile.avatar_url
            == old(account).profile.avatar_url,
        !banner ==> final(account).profile.avatar_url == Some(url) && final(account).profile.banner_url
            == old(account).profile.banner_url,
        final(account).updated_at == now,
        final(account).id == old(account).id,
        final(account).profile == (if banner {
            (UserProfile { banner_url: Some(url), ..old(account).profile })
        } else {
            (UserProfile { avatar_url: Some(url), ..old(account).profile })
        }),
        *final(account) == (PlayerAccount { profile: final(account).profile, updated_at: now, ..*old(account) }),
{
    if banner {
        account.profile.banner_url = Some(url);
    } else {
        account.profile.avatar_url = Some(url);
    }
    account.updated_at = now;
}

/// The client address text our proxy reports: the trimmed `x-real-ip` header, or `local`
/// when it is missing or blank.
pub fn real_ip_text(header: Option<&str>) -> (r: String)
    ensures
        match header {
            Some(h) => if trim_spec(h@).len() > 0 {
                r@ == trim_spec(h@)
            } else {
                r@ == "local"@
            },
            None => r@ == "local"@,
        },
{
    match header {
        Some(h) => {
            let t = trim(h);
            if chars_vec(t.as_str()).len() > 0 {
                t
            } else {
                string_of("local")
            }
        },
        None => string_of("local"),
    }
}

/// Lower-case hexadecimal text of `n`, no leading zeros (what `{:x}` gives).
pub open spec fn hex_spec(n: nat) -> Seq<char>
    decreases n,
{
    if n < 16 {
        seq![crate::digest::hex_digit(n as u8)]
    } else {
        hex_spec(n / 16).push(crate::digest::hex_digit((n % 16) as u8))
    }
}

/// Lower-case hexadecimal text of `n`, no leading zeros.
pub fn hex_string(n: u16) -> (r: String)
    ensures
        r@ == hex_spec(n as nat),
    decreases n,
{
    let d = (n % 16) as u8;
    let c = if d < 10 {
        (d + 48u8) as char
    } else {
        (d + 87u8) as char
    };
    if n < 16 {
        let mut r = String::new();
        crate::text::push_char(&mut r, c);
        assert(r@ =~= hex_spec(n as nat));
        r
    } else {
        let mut r = hex_string(n / 16);
        crate::text::push_char(&mut r, c);
        r
    }
}

/// Abuse bucket of an IPv6 client: its /64 prefix, from the first four segments.
pub fn v6_bucket(segments: &[u16]) -> (r: String)
    requires
        segments@.len() >= 4,
    ensures
        r@ == hex_spec(segments@[0] as nat) + ":"@ + hex_spec(segments@[1] as nat) + ":"@ + hex_spec(
            segments@[2] as nat,
        ) + ":"@ + hex_spec(segments@[3] as nat) + "::/64"@,
{
    let mut r = hex_string(segments[0]);
    r.append(":");
    r.append(hex_string(segments[1]).as_str());
    r.append(":");
    r.append(hex_string(segments[2]).as_str());
    r.append(":");
    r.append(hex_string(segments[3]).as_str());
    r.append("::/64");
    r
}

} // verus!
