use vstd::prelude::*;
use vstd::string::*;
use crate::digest::{hex_lower, sha256_hex, sha256_of};
use crate::error::WouError;
use crate::email::{canonical_email, canonical_email_spec};
use crate::models::{AuthProvider, GameContext};
use crate::text::{
    chars_vec, concat2, concat3, find_char, find_char_spec, lowercase_of, matches_at, str_eq,
    string_from_char_range, string_of, to_lowercase, to_uppercase, trim, trim_spec, uppercase_of,
};

verus! {

/// A byte that URL encoding leaves as is: ASCII letters, digits, `-`, `.`, `_`, `~`.
pub open spec fn url_unreserved(b: u8) -> bool {
    (48 <= b && b <= 57) || (65 <= b && b <= 90) || (97 <= b && b <= 122) || b == 45 || b == 46
        || b == 95 || b == 126
}

/// Upper-case hexadecimal digit for a nibble.
pub open spec fn hex_upper_digit(n: u8) -> char {
    if n < 10 {
        ((n + 48) as u8) as char
    } else {
        ((n + 55) as u8) as char
    }
}

/// Percent-encoding of a byte string: unreserved bytes as themselves, every other byte as
/// `%` and two upper-case hex digits.
pub open spec fn url_encode_bytes(b: Seq<u8>) -> Seq<char>
    decreases b.len(),
{
    if b.len() == 0 {
        Seq::empty()
    } else {
        let c = b.last();
        url_encode_bytes(b.drop_last()) + if url_unreserved(c) {
            seq![c as char]
        } else {
            seq!['%', hex_upper_digit(c / 16), hex_upper_digit(c % 16)]
        }
    }
}

/// Calls `urlencoding::encode`, which percent-encodes the UTF-8 bytes of its input as
/// `url_encode_bytes` states.
#[verifier::external_body]
fn url_encode(s: &str) -> (r: String)
    ensures
        r@ == url_encode_bytes(s.spec_bytes()),
{
    urlencoding::encode(s).into_owned()
}

/// Builds provider authorization URLs for the social sign-in flow.
pub struct OAuthManager {}

/// The authorization URL for `provider`, or none for a provider without OAuth2 sign-in.
pub open spec fn authorization_url(
    provider: AuthProvider,
    client_id: Seq<char>,
    redirect_uri: Seq<char>,
    state: Seq<char>,
) -> Option<Seq<char>> {
    let r = url_encode_bytes(vstd::utf8::encode_utf8(redirect_uri));
    let s = url_encode_bytes(vstd::utf8::encode_utf8(state));
    match provider {
        AuthProvider::Discord => Some("https://discord.com/api/oauth2/authorize?client_id="@ + client_id
            + "&redirect_uri="@ + r + "&response_type=code&scope=identify%20email&state="@ + s),
        AuthProvider::Google => Some("https://accounts.google.com/o/oauth2/v2/auth?client_id="@
            + client_id + "&redirect_uri="@ + r
            + "&response_type=code&scope=openid%20profile%20email&state="@ + s),
        AuthProvider::Twitter => Some("https://twitter.com/i/oauth2/authorize?client_id="@ + client_id
            + "&redirect_uri="@ + r + "&response_type=code&scope=users.read%20tweet.read&state="@ + s
            + "&code_challenge=challenge&code_challenge_method=plain"@),
        AuthProvider::Meta => Some("https://www.facebook.com/v19.0/dialog/oauth?client_id="@ + client_id
            + "&redirect_uri="@ + r + "&state="@ + s + "&scope=public_profile,email"@),
        _ => None,
    }
}

/// The authorization URL for `provider` carrying an S256 PKCE challenge: the URL without
/// any challenge, then `&code_challenge=` with the percent-encoded challenge and
/// `&code_challenge_method=S256`; none for a provider without OAuth2 sign-in.
pub open spec fn authorization_url_s256(
    provider: AuthProvider,
    client_id: Seq<char>,
    redirect_uri: Seq<char>,
    state: Seq<char>,
    challenge: Seq<char>,
) -> Option<Seq<char>> {
    let r = url_encode_bytes(vstd::utf8::encode_utf8(redirect_uri));
    let s = url_encode_bytes(vstd::utf8::encode_utf8(state));
    let pkce = "&code_challenge="@ + url_encode_bytes(vstd::utf8::encode_utf8(challenge))
        + "&code_challenge_method=S256"@;
    match provider {
        AuthProvider::Discord => Some("https://discord.com/api/oauth2/authorize?client_id="@ + client_id
            + "&redirect_uri="@ + r + "&response_type=code&scope=identify%20email&state="@ + s + pkce),
        AuthProvider::Google => Some("https://accounts.google.com/o/oauth2/v2/auth?client_id="@
            + client_id + "&redirect_uri="@ + r
            + "&response_type=code&scope=openid%20profile%20email&state="@ + s + pkce),
        AuthProvider::Twitter => Some("https://twitter.com/i/oauth2/authorize?client_id="@ + client_id
            + "&redirect_uri="@ + r + "&response_type=code&scope=users.read%20tweet.read&state="@ + s
            + pkce),
        AuthProvider::Meta => Some("https://www.facebook.com/v19.0/dialog/oauth?client_id="@ + client_id
            + "&redirect_uri="@ + r + "&state="@ + s + "&scope=public_profile,email"@ + pkce),
        _ => None,
    }
}

impl OAuthManager {
    pub fn new() -> (r: OAuthManager) {
        OAuthManager {  }
    }

    /// Authorization redirect URL for a social provider (Discord, Google, X, Meta), with
    /// the redirect URI and state percent-encoded. Other providers are refused.
    pub fn build_authorization_url(
        &self,
        provider: &AuthProvider,
        client_id: &str,
        redirect_uri: &str,
        state: &str,
    ) -> (r: Result<String, WouError>)
        ensures
            match authorization_url(*provider, client_id@, redirect_uri@, state@) {
                Some(u) => r matches Ok(x) && x@ == u,
                None => r matches Err(WouError::ProviderVerificationFailed(m)) && m@ == "Provider "@
                    + provider.spec_as_str() + " does not support OAuth2 authorization URL"@,
            },
    {
        proof {
            reveal_strlit("https://discord.com/api/oauth2/authorize?client_id=");
            reveal_strlit("https://accounts.google.com/o/oauth2/v2/auth?client_id=");
            reveal_strlit("https://twitter.com/i/oauth2/authorize?client_id=");
            reveal_strlit("https://www.facebook.com/v19.0/dialog/oauth?client_id=");
            reveal_strlit("&redirect_uri=");
            reveal_strlit("&response_type=code&scope=identify%20email&state=");
            reveal_strlit("&response_type=code&scope=openid%20profile%20email&state=");
            reveal_strlit("&response_type=code&scope=users.read%20tweet.read&state=");
            reveal_strlit("&code_challenge=challenge&code_challenge_method=plain");
            reveal_strlit("&state=");
            reveal_strlit("&scope=public_profile,email");
            reveal_strlit("Provider ");
            reveal_strlit(" does not support OAuth2 authorization URL");
        }
        let r = url_encode(redirect_uri);
        let s = url_encode(state);
        let (head, mid, tail) = match provider {
            AuthProvider::Discord => (
                "https://discord.com/api/oauth2/authorize?client_id=",
                "&response_type=code&scope=identify%20email&state=",
                "",
            ),
            AuthProvider::Google => (
                "https://accounts.google.com/o/oauth2/v2/auth?client_id=",
                "&response_type=code&scope=openid%20profile%20email&state=",
                "",
            ),
            AuthProvider::Twitter => (
                "https://twitter.com/i/oauth2/authorize?client_id=",
                "&response_type=code&scope=users.read%20tweet.read&state=",
                "&code_challenge=challenge&code_challenge_method=plain",
            ),
            AuthProvider::Meta => (
                "https://www.facebook.com/v19.0/dialog/oauth?client_id=",
                "&state=",
                "&scope=public_profile,email",
            ),
            _ => {
                return Err(
                    WouError::ProviderVerificationFailed(
                        concat3("Provider ", provider.as_str(), " does not support OAuth2 authorization URL"),
                    ),
                );
            },
        };
        let mut u = concat3(head, client_id, "&redirect_uri=");
        u.append(r.as_str());
        u.append(mid);
        u.append(s.as_str());
        u.append(tail);
        proof {
            reveal_strlit("");
            assert(u@ =~= authorization_url(*provider, client_id@, redirect_uri@, state@).unwrap());
        }
        Ok(u)
    }

    /// Authorization redirect URL for a sign-in that may carry a PKCE challenge: with a
    /// challenge, the URL asks for it with method S256 (see `authorization_url_s256`);
    /// without one, as `build_authorization_url`. Other providers are refused.
    pub fn build_authorization_url_with_challenge(
        &self,
        provider: &AuthProvider,
        client_id: &str,
        redirect_uri: &str,
        state: &str,
        code_challenge: Option<&str>,
    ) -> (r: Result<String, WouError>)
        ensures
            match code_challenge {
                None => match authorization_url(*provider, client_id@, redirect_uri@, state@) {
                    Some(u) => r matches Ok(x) && x@ == u,
                    None => r matches Err(WouError::ProviderVerificationFailed(m)) && m@ == "Provider "@
                        + provider.spec_as_str() + " does not support OAuth2 authorization URL"@,
                },
                Some(c) => match authorization_url_s256(*provider, client_id@, redirect_uri@, state@, c@) {
                    Some(u) => r matches Ok(x) && x@ == u,
                    None => r matches Err(WouError::ProviderVerificationFailed(m)) && m@ == "Provider "@
                        + provider.spec_as_str() + " does not support OAuth2 authorization URL"@,
                },
            },
    {
        let c = match code_challenge {
            None => {
                return self.build_authorization_url(provider, client_id, redirect_uri, state);
            },
            Some(c) => c,
        };
        proof {
            reveal_strlit("https://discord.com/api/oauth2/authorize?client_id=");
            reveal_strlit("https://accounts.google.com/o/oauth2/v2/auth?client_id=");
            reveal_strlit("https://twitter.com/i/oauth2/authorize?client_id=");
            reveal_strlit("https://www.facebook.com/v19.0/dialog/oauth?client_id=");
            reveal_strlit("&redirect_uri=");
            reveal_strlit("&response_type=code&scope=identify%20email&state=");
            reveal_strlit("&response_type=code&scope=openid%20profile%20email&state=");
            reveal_strlit("&response_type=code&scope=users.read%20tweet.read&state=");
            reveal_strlit("&state=");
            reveal_strlit("&scope=public_profile,email");
            reveal_strlit("&code_challenge=");
            reveal_strlit("&code_challenge_method=S256");
            reveal_strlit("Provider ");
            reveal_strlit(" does not support OAuth2 authorization URL");
        }
        let r = url_encode(redirect_uri);
        let s = url_encode(state);
        let e = url_encode(c);
        let (head, mid, tail) = match provider {
            AuthProvider::Discord => (
                "https://discord.com/api/oauth2/authorize?client_id=",
                "&response_type=code&scope=identify%20email&state=",
                "",
            ),
            AuthProvider::Google => (
                "https://accounts.google.com/o/oauth2/v2/auth?client_id=",
                "&response_type=code&scope=openid%20profile%20email&state=",
                "",
            ),
            AuthProvider::Twitter => (
                "https://twitter.com/i/oauth2/authorize?client_id=",
                "&response_type=code&scope=users.read%20tweet.read&state=",
                "",
            ),
            AuthProvider::Meta => (
                "https://www.facebook.com/v19.0/dialog/oauth?client_id=",
                "&state=",
                "&scope=public_profile,email",
            ),
            _ => {
                return Err(
                    WouError::ProviderVerificationFailed(
                        concat3("Provider ", provider.as_str(), " does not support OAuth2 authorization URL"),
                    ),
                );
            },
        };
        let mut u = concat3(head, client_id, "&redirect_uri=");
        u.append(r.as_str());
        u.append(mid);
        u.append(s.as_str());
        u.append(tail);
        u.append("&code_challenge=");
        u.append(e.as_str());
        u.append("&code_challenge_method=S256");
        proof {
            reveal_strlit("");
            assert(u@ =~= authorization_url_s256(*provider, client_id@, redirect_uri@, state@, c@).unwrap());
        }
        Ok(u)
    }
}

/// The central sign-in callback.
pub const OAUTH_HUB_CALLBACK: &'static str = "https://worldofunreal.com/auth/callback";

/// The one direct game callback registered with the providers.
pub const OAUTH_GAME_CALLBACK: &'static str = "https://shadowsofwar.io/auth/callback";

/// Seconds an OAuth state record lives.
pub const OAUTH_STATE_TTL_SECONDS: u64 = 600;

/// First position where `p` occurs in `s`.
pub open spec fn find_sub(s: Seq<char>, p: Seq<char>) -> Option<nat>
    decreases s.len(),
{
    if s.len() < p.len() {
        None
    } else if s.subrange(0, p.len() as int) == p {
        Some(0)
    } else if s.len() == 0 {
        None
    } else {
        match find_sub(s.drop_first(), p) {
            Some(k) => Some(k + 1),
            None => None,
        }
    }
}

proof fn lemma_find_sub_at(s: Seq<char>, p: Seq<char>, i: int)
    requires
        0 <= i,
        i + p.len() <= s.len() + 1,
        forall|j: int| 0 <= j < i ==> #[trigger] s.subrange(j, j + p.len()) != p,
        i + p.len() > s.len() || s.subrange(i, i + p.len()) == p,
    ensures
        find_sub(s, p) == (if i + p.len() <= s.len() { Some(i as nat) } else { None::<nat> }),
    decreases i,
{
    if i > 0 {
        if s.len() == 0 {
            assert(s.subrange(0int, 0int + p.len()) =~= p);
        }
        let d = s.drop_first();
        assert forall|j: int| 0 <= j < i - 1 implies #[trigger] d.subrange(j, j + p.len()) != p by {
            assert(d.subrange(j, j + p.len()) =~= s.subrange(j + 1, j + 1 + p.len()));
        }
        if i + p.len() <= s.len() {
            assert(d.subrange(i - 1, i - 1 + p.len()) =~= s.subrange(i, i + p.len()));
            assert(d.subrange(i - 1, i - 1 + p.len()) == p);
        }
        assert(s.subrange(0int, 0int + p.len()) != p);
        assert(s.subrange(0, p.len() as int) != p);
        lemma_find_sub_at(d, p, i - 1);
    } else if p.len() <= s.len() {
        assert(s.subrange(0, p.len() as int) == p);
    }
}

/// Position of the first occurrence of `p` in `v`.
pub fn find_sub_exec(v: &Vec<char>, p: &Vec<char>) -> (r: Option<usize>)
    ensures
        match r {
            Some(k) => find_sub(v@, p@) == Some(k as nat) && k + p@.len() <= v@.len(),
            None => find_sub(v@, p@) is None,
        },
{
    if p.len() > v.len() {
        assert(find_sub(v@, p@) is None);
        return None;
    }
    if p.len() == 0 {
        assert(v@.subrange(0, 0) =~= p@);
        return Some(0);
    }
    let last = v.len() - p.len();
    let mut i: usize = 0;
    while i <= last
        invariant
            last + p@.len() == v@.len(),
            last < usize::MAX,
            i <= last + 1,
            forall|j: int| 0 <= j < i ==> #[trigger] v@.subrange(j, j + p@.len()) != p@,
        decreases last + 1 - i,
    {
        if matches_at(v, p, i) {
            proof {
                lemma_find_sub_at(v@, p@, i as int);
            }
            return Some(i);
        }
        i = i + 1;
    }
    proof {
        lemma_find_sub_at(v@, p@, i as int);
    }
    None
}

/// `s` up to (not including) the first `c`, or all of `s`.
pub open spec fn before_char(s: Seq<char>, c: char) -> Seq<char> {
    match find_char_spec(s, c) {
        Some(k) => s.subrange(0, k as int),
        None => s,
    }
}

/// `s` after its last `c` (all of `s` when there is none).
pub open spec fn after_last_char(s: Seq<char>, c: char) -> Seq<char>
    decreases s.len(),
{
    if s.len() == 0 {
        s
    } else if s.last() == c {
        Seq::empty()
    } else {
        after_last_char(s.drop_last(), c).push(s.last())
    }
}

proof fn lemma_after_last_char(s: Seq<char>, c: char, k: int)
    requires
        0 <= k <= s.len(),
        k == 0 || s[k - 1] == c,
        forall|j: int| k <= j < s.len() ==> #[trigger] s[j] != c,
    ensures
        after_last_char(s, c) == s.subrange(k, s.len() as int),
    decreases s.len() - k,
{
    if s.len() > k {
        let d = s.drop_last();
        assert forall|j: int| k <= j < d.len() implies #[trigger] d[j] != c by {
            assert(d[j] == s[j]);
        }
        if k > 0 {
            assert(d[k - 1] == s[k - 1]);
        }
        lemma_after_last_char(d, c, k);
        assert(s.subrange(k, s.len() as int) =~= d.subrange(k, d.len() as int).push(s.last()));
    } else if k > 0 {
        assert(s.last() == c);
        assert(s.subrange(k, s.len() as int) =~= Seq::<char>::empty());
    } else {
        assert(s.subrange(k, s.len() as int) =~= s);
    }
}

fn after_last_char_str(s: &str, c: char) -> (r: String)
    ensures
        r@ == after_last_char(s@, c),
{
    let v = chars_vec(s);
    let mut k: usize = v.len();
    while k > 0 && v[k - 1] != c
        invariant
            k <= v@.len(),
            forall|j: int| k <= j < v@.len() ==> #[trigger] v@[j] != c,
        decreases k,
    {
        k = k - 1;
    }
    proof {
        lemma_after_last_char(v@, c, k as int);
    }
    string_from_char_range(&v, k, v.len())
}

/// Host part of a URI as the redirect check reads it: the second `://`-separated segment
/// (the whole URI when there is none), up to the first `/` (the authority), without any
/// user information (everything up to the last `@`), then up to the first `:` (no port).
pub open spec fn redirect_host(uri: Seq<char>) -> Seq<char> {
    let seg = match find_sub(uri, "://"@) {
        None => uri,
        Some(k) => {
            let rest = uri.subrange(k + 3 as int, uri.len() as int);
            match find_sub(rest, "://"@) {
                None => rest,
                Some(j) => rest.subrange(0, j as int),
            }
        },
    };
    before_char(after_last_char(before_char(seg, '/'), '@'), ':')
}

/// Redirect targets are pinned: the hub callback, the registered game callback, or a
/// loopback host (`localhost`, `127.0.0.1`) for development.
pub open spec fn redirect_allowed_spec(uri: Seq<char>) -> bool {
    uri == OAUTH_HUB_CALLBACK@ || uri == OAUTH_GAME_CALLBACK@ || redirect_host(uri) == "localhost"@
        || redirect_host(uri) == "127.0.0.1"@
}

fn before_char_str(s: &str, c: char) -> (r: String)
    ensures
        r@ == before_char(s@, c),
{
    let v = chars_vec(s);
    match find_char(&v, c) {
        Some(k) => string_from_char_range(&v, 0, k),
        None => string_of(s),
    }
}

/// Whether an OAuth redirect target is allowed (see `redirect_allowed_spec`).
pub fn redirect_allowed(uri: &str) -> (b: bool)
    ensures
        b == redirect_allowed_spec(uri@),
{
    proof {
        reveal_strlit("://");
    }
    if str_eq(uri, OAUTH_HUB_CALLBACK) || str_eq(uri, OAUTH_GAME_CALLBACK) {
        return true;
    }
    let v = chars_vec(uri);
    let sep = chars_vec("://");
    assert(sep@.len() == 3);
    let seg = match find_sub_exec(&v, &sep) {
        None => string_of(uri),
        Some(k) => {
            let vl = v.len();
            assert(k + 3 <= vl);
            let rest = string_from_char_range(&v, k + 3, vl);
            let rv = chars_vec(rest.as_str());
            match find_sub_exec(&rv, &sep) {
                None => rest,
                Some(j) => string_from_char_range(&rv, 0, j),
            }
        },
    };
    let authority = before_char_str(seg.as_str(), '/');
    let host = before_char_str(after_last_char_str(authority.as_str(), '@').as_str(), ':');
    str_eq(host.as_str(), "localhost") || str_eq(host.as_str(), "127.0.0.1")
}

/// Key of the single-use OAuth state record: `wou_oauth_state:` and the hex SHA-256 of the
/// state (the raw state never lands in storage).
pub fn oauth_state_key(state: &str) -> (r: String)
    ensures
        r@ == "wou_oauth_state:"@ + hex_lower(sha256_of(state.spec_bytes())),
{
    concat2("wou_oauth_state:", sha256_hex(state.as_bytes()).as_str())
}

/// Provider named in a sign-in path, by its lower-cased text: `discord`, `google`,
/// `twitter` or `x`, `meta` or `facebook`.
pub open spec fn oauth_provider_spec(lower: Seq<char>) -> Option<AuthProvider> {
    if lower == "discord"@ {
        Some(AuthProvider::Discord)
    } else if lower == "google"@ {
        Some(AuthProvider::Google)
    } else if lower == "twitter"@ || lower == "x"@ {
        Some(AuthProvider::Twitter)
    } else if lower == "meta"@ || lower == "facebook"@ {
        Some(AuthProvider::Meta)
    } else {
        None
    }
}

/// Social provider of a sign-in path segment (case-insensitive); refused otherwise.
pub fn oauth_provider(provider_str: &str) -> (r: Result<AuthProvider, WouError>)
    ensures
        match oauth_provider_spec(lowercase_of(provider_str@)) {
            Some(p) => r == Ok::<AuthProvider, WouError>(p),
            None => r matches Err(WouError::ProviderVerificationFailed(m)) && m@
                == "Unsupported OAuth provider: "@ + provider_str@,
        },
{
    proof {
        reveal_strlit("discord");
        reveal_strlit("google");
        reveal_strlit("twitter");
        reveal_strlit("x");
        reveal_strlit("meta");
        reveal_strlit("facebook");
    }
    let l = to_lowercase(provider_str);
    let s = l.as_str();
    if str_eq(s, "discord") {
        Ok(AuthProvider::Discord)
    } else if str_eq(s, "google") {
        Ok(AuthProvider::Google)
    } else if str_eq(s, "twitter") || str_eq(s, "x") {
        Ok(AuthProvider::Twitter)
    } else if str_eq(s, "meta") || str_eq(s, "facebook") {
        Ok(AuthProvider::Meta)
    } else {
        Err(WouError::ProviderVerificationFailed(concat2("Unsupported OAuth provider: ", provider_str)))
    }
}

/// Why a sign-in request or callback is refused before any provider call.
#[derive(Debug)]
pub enum OAuthRefusal {
    UnsupportedRedirect,
    StateRequired,
    PkceRequired,
    StateMismatch,
    VerifierRequired,
}

/// Text that is present and not blank.
pub open spec fn present(o: Option<String>) -> bool {
    o matches Some(s) && trim_spec(s@).len() > 0
}

fn is_present(o: &Option<String>) -> (b: bool)
    ensures
        b == present(*o),
{
    match o {
        Some(s) => chars_vec(trim(s.as_str()).as_str()).len() > 0,
        None => false,
    }
}

/// The redirect target a request names: `redirect_uri`, else `redirect_url`, else the hub.
pub open spec fn chosen_redirect(redirect_uri: Option<String>, redirect_url: Option<String>) -> Seq<char> {
    match redirect_uri {
        Some(u) => u@,
        None => match redirect_url {
            Some(u) => u@,
            None => OAUTH_HUB_CALLBACK@,
        },
    }
}

/// The redirect target a request names (see `chosen_redirect`).
pub fn choose_redirect(redirect_uri: Option<String>, redirect_url: Option<String>) -> (r: String)
    ensures
        r@ == chosen_redirect(redirect_uri, redirect_url),
{
    match redirect_uri {
        Some(u) => u,
        None => match redirect_url {
            Some(u) => u,
            None => string_of(OAUTH_HUB_CALLBACK),
        },
    }
}

/// What a sign-in redirect carries forward: the redirect target, the state and the PKCE
/// challenge, if any.
pub struct OAuthLoginPlan {
    pub redirect_uri: String,
    pub state: String,
    pub code_challenge: Option<String>,
}

/// Checks a sign-in request: the redirect target must be allowed, a non-blank state is
/// required, and X requires an S256 PKCE challenge (checked in that order). A blank
/// challenge counts as none.
pub fn plan_oauth_login(
    provider: &AuthProvider,
    redirect_uri: Option<String>,
    redirect_url: Option<String>,
    state: Option<String>,
    code_challenge: Option<String>,
    code_challenge_method: Option<String>,
) -> (r: Result<OAuthLoginPlan, OAuthRefusal>)
    ensures
        !redirect_allowed_spec(chosen_redirect(redirect_uri, redirect_url)) ==> r matches Err(
            OAuthRefusal::UnsupportedRedirect,
        ),
        redirect_allowed_spec(chosen_redirect(redirect_uri, redirect_url)) && !present(state) ==> r
            matches Err(OAuthRefusal::StateRequired),
        redirect_allowed_spec(chosen_redirect(redirect_uri, redirect_url)) && present(state)
            && *provider == AuthProvider::Twitter && (!present(code_challenge) || !(
        code_challenge_method matches Some(m) && m@ == "S256"@)) ==> r matches Err(
            OAuthRefusal::PkceRequired,
        ),
        r is Ok <==> redirect_allowed_spec(chosen_redirect(redirect_uri, redirect_url)) && present(
            state,
        ) && !(*provider == AuthProvider::Twitter && (!present(code_challenge) || !(
        code_challenge_method matches Some(m) && m@ == "S256"@))),
        r matches Ok(p) ==> {
            &&& p.redirect_uri@ == chosen_redirect(redirect_uri, redirect_url)
            &&& Some(p.state) == state
            &&& p.code_challenge == if present(code_challenge) { code_challenge } else { None }
        },
{
    proof {
        reveal_strlit("S256");
    }
    let uri = choose_redirect(redirect_uri, redirect_url);
    if !redirect_allowed(uri.as_str()) {
        return Err(OAuthRefusal::UnsupportedRedirect);
    }
    if !is_present(&state) {
        return Err(OAuthRefusal::StateRequired);
    }
    let challenge_present = is_present(&code_challenge);
    let s256 = match &code_challenge_method {
        Some(m) => str_eq(m.as_str(), "S256"),
        None => false,
    };
    let is_x = match provider {
        AuthProvider::Twitter => true,
        _ => false,
    };
    if is_x && (!challenge_present || !s256) {
        return Err(OAuthRefusal::PkceRequired);
    }
    let challenge = if challenge_present {
        code_challenge
    } else {
        None
    };
    match state {
        Some(s) => Ok(OAuthLoginPlan { redirect_uri: uri, state: s, code_challenge: challenge }),
        None => Err(OAuthRefusal::StateRequired),
    }
}

/// The single-use record kept between a sign-in redirect and its callback.
pub struct OAuthStateRecord {
    pub provider: String,
    pub redirect_uri: String,
    pub code_challenge: Option<String>,
}

/// Checks a callback against the state record its redirect stored: same provider, same
/// redirect target, and a PKCE verifier when a challenge was sent.
pub fn check_oauth_state(
    record: &OAuthStateRecord,
    provider: &AuthProvider,
    redirect_uri: &str,
    code_verifier: &Option<String>,
) -> (r: Result<(), OAuthRefusal>)
    ensures
        (record.provider@ != provider.spec_as_str() || record.redirect_uri@ != redirect_uri@) ==> r
            matches Err(OAuthRefusal::StateMismatch),
        (record.provider@ == provider.spec_as_str() && record.redirect_uri@ == redirect_uri@
            && record.code_challenge is Some && code_verifier is None) ==> r matches Err(
            OAuthRefusal::VerifierRequired,
        ),
        r is Ok <==> record.provider@ == provider.spec_as_str() && record.redirect_uri@
            == redirect_uri@ && !(record.code_challenge is Some && code_verifier is None),
{
    if !str_eq(record.provider.as_str(), provider.as_str()) || !str_eq(
        record.redirect_uri.as_str(),
        redirect_uri,
    ) {
        return Err(OAuthRefusal::StateMismatch);
    }
    if record.code_challenge.is_some() && code_verifier.is_none() {
        return Err(OAuthRefusal::VerifierRequired);
    }
    Ok(())
}

/// The redirect targets a client may use: the hub and the direct game callbacks.
pub struct OAuthCallbackConfig {
    pub hub_callback: &'static str,
    pub game_callbacks: Vec<&'static str>,
}

/// The pinned redirect targets.
pub fn oauth_callback_config() -> (r: OAuthCallbackConfig)
    ensures
        r.hub_callback@ == OAUTH_HUB_CALLBACK@,
        r.game_callbacks@.len() == 1,
        r.game_callbacks@[0]@ == OAUTH_GAME_CALLBACK@,
{
    let mut game_callbacks: Vec<&'static str> = Vec::new();
    game_callbacks.push(OAUTH_GAME_CALLBACK);
    OAuthCallbackConfig { hub_callback: OAUTH_HUB_CALLBACK, game_callbacks }
}

/// A sign-in redirect request.
pub struct OAuthLoginQuery {
    pub redirect_uri: Option<String>,
    pub redirect_url: Option<String>,
    pub state: Option<String>,
    pub code_challenge: Option<String>,
    pub code_challenge_method: Option<String>,
}

impl OAuthLoginQuery {
    /// Checks this request for `provider` (see `plan_oauth_login`).
    pub fn plan(self, provider: &AuthProvider) -> (r: Result<OAuthLoginPlan, OAuthRefusal>)
        ensures
            r is Ok <==> redirect_allowed_spec(chosen_redirect(self.redirect_uri, self.redirect_url))
                && present(self.state) && !(*provider == AuthProvider::Twitter && (!present(
                self.code_challenge,
            ) || !(self.code_challenge_method matches Some(m) && m@ == "S256"@))),
            !redirect_allowed_spec(chosen_redirect(self.redirect_uri, self.redirect_url)) ==> r
                matches Err(OAuthRefusal::UnsupportedRedirect),
            redirect_allowed_spec(chosen_redirect(self.redirect_uri, self.redirect_url)) && !present(
                self.state,
            ) ==> r matches Err(OAuthRefusal::StateRequired),
            redirect_allowed_spec(chosen_redirect(self.redirect_uri, self.redirect_url)) && present(
                self.state,
            ) && *provider == AuthProvider::Twitter && (!present(self.code_challenge) || !(
            self.code_challenge_method matches Some(m) && m@ == "S256"@)) ==> r matches Err(
                OAuthRefusal::PkceRequired,
            ),
            r is Err ==> !(r matches Err(OAuthRefusal::StateMismatch) || r matches Err(
                OAuthRefusal::VerifierRequired,
            )),
            r matches Ok(p) ==> {
                &&& p.redirect_uri@ == chosen_redirect(self.redirect_uri, self.redirect_url)
                &&& Some(p.state) == self.state
                &&& p.code_challenge == if present(self.code_challenge) {
                    self.code_challenge
                } else {
                    None
                }
            },
    {
        plan_oauth_login(
            provider,
            self.redirect_uri,
            self.redirect_url,
            self.state,
            self.code_challenge,
            self.code_challenge_method,
        )
    }
}

/// A provider callback carrying the authorization code.
pub struct OAuthCallbackPayload {
    pub code: String,
    pub redirect_uri: Option<String>,
    pub redirect_url: Option<String>,
    pub account_id: Option<String>,
    pub state: Option<String>,
    pub code_verifier: Option<String>,
    pub context: GameContext,
}

/// Checks a callback before its state record is taken: the redirect target must be
/// allowed and a non-blank state given. Gives the redirect target and the state.
pub fn plan_oauth_callback(payload: &OAuthCallbackPayload) -> (r: Result<(String, String), OAuthRefusal>)
    ensures
        !redirect_allowed_spec(chosen_redirect(payload.redirect_uri, payload.redirect_url)) ==> r
            matches Err(OAuthRefusal::UnsupportedRedirect),
        redirect_allowed_spec(chosen_redirect(payload.redirect_uri, payload.redirect_url)) && !present(
            payload.state,
        ) ==> r matches Err(OAuthRefusal::StateRequired),
        r is Ok <==> redirect_allowed_spec(chosen_redirect(payload.redirect_uri, payload.redirect_url))
            && present(payload.state),
        r matches Ok((u, s)) ==> u@ == chosen_redirect(payload.redirect_uri, payload.redirect_url)
            && Some(s) == payload.state,
{
    let uri = choose_redirect(copy_opt(&payload.redirect_uri), copy_opt(&payload.redirect_url));
    if !redirect_allowed(uri.as_str()) {
        return Err(OAuthRefusal::UnsupportedRedirect);
    }
    if !is_present(&payload.state) {
        return Err(OAuthRefusal::StateRequired);
    }
    match &payload.state {
        Some(s) => Ok((uri, s.clone())),
        None => Err(OAuthRefusal::StateRequired),
    }
}

fn copy_opt(o: &Option<String>) -> (r: Option<String>)
    ensures
        r == *o,
{
    match o {
        Some(s) => Some(s.clone()),
        None => None,
    }
}

/// What a provider tells about the signed-in user.
pub struct OAuthUserInfo {
    pub provider: AuthProvider,
    pub external_id: String,
    pub display_name: Option<String>,
    pub email: Option<String>,
    pub avatar_url: Option<String>,
}

impl OAuthUserInfo {
    /// The canonical email the provider vouches for: only when it marks it verified.
    pub fn verified_email(&self, email_verified: bool) -> (r: Option<String>)
        ensures
            (email_verified && self.email is Some) <==> r is Some,
            r matches Some(v) ==> (self.email matches Some(e) && v@ == canonical_email_spec(e@)),
    {
        if !email_verified {
            return None;
        }
        match &self.email {
            Some(e) => Some(canonical_email(e.as_str())),
            None => None,
        }
    }
}

/// Account details of a Discord user: the display name is the global name, else the
/// username; the avatar, when set, is served from Discord's CDN as
/// `https://cdn.discordapp.com/avatars/<id>/<hash>.png`.
pub fn discord_user_info(
    id: String,
    username: String,
    global_name: Option<String>,
    email: Option<String>,
    avatar: Option<String>,
) -> (r: OAuthUserInfo)
    ensures
        r.provider == AuthProvider::Discord,
        r.external_id == id,
        r.display_name == match global_name {
            Some(g) => Some(g),
            None => Some(username),
        },
        r.email == email,
        match avatar {
            Some(h) => r.avatar_url matches Some(u) && u@ == "https://cdn.discordapp.com/avatars/"@ + id@
                + "/"@ + h@ + ".png"@,
            None => r.avatar_url is None,
        },
{
    let avatar_url = match avatar {
        Some(h) => {
            let mut u = concat3("https://cdn.discordapp.com/avatars/", id.as_str(), "/");
            u.append(h.as_str());
            u.append(".png");
            Some(u)
        },
        None => None,
    };
    let display_name = match global_name {
        Some(g) => Some(g),
        None => Some(username),
    };
    OAuthUserInfo { provider: AuthProvider::Discord, external_id: id, display_name, email, avatar_url }
}

/// Name of the environment variable that holds a provider's OAuth client id.
pub fn client_id_var(provider: &AuthProvider) -> (r: String)
    ensures
        r@ == "WOU_"@ + uppercase_of(provider.spec_as_str()) + "_CLIENT_ID"@,
{
    concat3("WOU_", to_uppercase(provider.as_str()).as_str(), "_CLIENT_ID")
}

/// Name of the environment variable that holds a provider's OAuth client secret.
pub fn client_secret_var(provider: &AuthProvider) -> (r: String)
    ensures
        r@ == "WOU_"@ + uppercase_of(provider.spec_as_str()) + "_CLIENT_SECRET"@,
{
    concat3("WOU_", to_uppercase(provider.as_str()).as_str(), "_CLIENT_SECRET")
}

/// The account a first provider sign-in merges into: the caller's own account when it
/// exists and the caller proved ownership with its session; otherwise none, and a fresh
/// account is minted (a client-supplied id alone is never adopted).
pub fn adopted_account(account_id: Option<String>, exists: bool, owner_verified: bool) -> (r: Option<
    String,
>)
    ensures
        r == (if exists && owner_verified { account_id } else { None }),
{
    if exists && owner_verified {
        account_id
    } else {
        None
    }
}

} // verus!
