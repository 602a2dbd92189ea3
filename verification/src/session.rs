use vstd::prelude::*;
use vstd::string::*;
use crate::account::unix_now;
use crate::error::WouError;
use crate::ledger::opt_view;
use crate::models::{game_from_wire_name, GameContext, SessionClaims};
use crate::players::session_claims;
use crate::text::{concat2, string_of};
use crate::web3::begins_with;

verus! {

/// Name for the token that `jsonwebtoken::encode` produces with the default header (HS256)
/// and `secret` as the HMAC key, over the JSON object of these claims.
pub uninterp spec fn hs256_session_token(
    secret: Seq<u8>,
    sub: Seq<char>,
    name: Seq<char>,
    email: Option<Seq<char>>,
    context: Seq<char>,
    iat: u64,
    exp: u64,
) -> Seq<char>;

/// Name for whether `token` passes `jsonwebtoken`'s signature stage for HS256 under
/// `secret`: three dot-separated parts, a header that reads and names HS256, and a
/// signature equal to the HMAC-SHA256 of the header and payload parts under `secret`.
pub uninterp spec fn hs256_signed(secret: Seq<u8>, token: Seq<char>) -> bool;

/// A token's claims as plain values: whether `jsonwebtoken` reads the payload at all (see
/// `decodes`), each claim as found in the payload (a field that is missing or of another
/// JSON type is `None`), and whether `email` is missing, `null` or a string (any other JSON
/// type fails to read as session claims).
pub struct ClaimsView {
    /// The payload is base64url of a JSON object that reads as claims, with a numeric
    /// `exp` and no `aud` (what the default validation asks before the clock).
    pub decodes: bool,
    pub sub: Option<Seq<char>>,
    pub name: Option<Seq<char>>,
    pub email: Option<Seq<char>>,
    pub email_ok: bool,
    pub context: Option<Seq<char>>,
    pub iat: Option<u64>,
    pub exp: Option<u64>,
}

/// Name for the claims that `jsonwebtoken` reads from the payload part of `token` (the
/// JSON object that the base64url text between its last two dots decodes to).
pub uninterp spec fn jwt_claims_of(token: Seq<char>) -> ClaimsView;

/// The claims view of a token issued with these session claims.
pub open spec fn issued_claims(
    sub: Seq<char>,
    name: Seq<char>,
    email: Option<Seq<char>>,
    context: Seq<char>,
    iat: u64,
    exp: u64,
) -> ClaimsView {
    ClaimsView {
        decodes: true,
        sub: Some(sub),
        name: Some(name),
        email,
        email_ok: true,
        context: Some(context),
        iat: Some(iat),
        exp: Some(exp),
    }
}

/// Calls `jsonwebtoken::encode` with the default header and `secret` as the HMAC key over a
/// JSON object of the claims `sub`, `name`, `email` (null when absent), `context`, `iat` and
/// `exp`, in that order (the map keeps insertion order). Claims: it succeeds (an HMAC key matches the default HS256 header, and a JSON map
/// of strings and numbers always serialises); the token is the named token of these
/// arguments, passes the HS256 signature check under `secret`, and its payload reads back
/// as exactly these claims.
#[verifier::external_body]
fn jwt_encode(secret: &[u8], sub: &str, name: &str, email: &Option<String>, context: &str, iat: u64, exp: u64)
    -> (r: Result<String, String>)
    ensures
        r is Ok,
        r matches Ok(t) ==> t@ == hs256_session_token(secret@, sub@, name@, opt_view(*email), context@, iat, exp),
        r matches Ok(t) ==> hs256_signed(secret@, t@),
        r matches Ok(t) ==> jwt_claims_of(t@) == issued_claims(sub@, name@, opt_view(*email), context@, iat, exp),
{
    let mut claims = serde_json::Map::new();
    claims.insert("sub".to_string(), sub.into());
    claims.insert("name".to_string(), name.into());
    claims.insert("email".to_string(), email.clone().into());
    claims.insert("context".to_string(), context.into());
    claims.insert("iat".to_string(), iat.into());
    claims.insert("exp".to_string(), exp.into());
    let key = jsonwebtoken::EncodingKey::from_secret(secret);
    jsonwebtoken::encode(&jsonwebtoken::Header::default(), &claims, &key).map_err(|e| e.to_string())
}

/// The claims a token carried, each as found: a field that is missing or of another JSON
/// type is `None`; `email_ok` tells whether `email` was missing, `null` or a string.
pub struct DecodedClaims {
    pub sub: Option<String>,
    pub name: Option<String>,
    pub email: Option<String>,
    pub email_ok: bool,
    pub context: Option<String>,
    pub iat: Option<u64>,
    pub exp: Option<u64>,
}

impl View for DecodedClaims {
    type V = ClaimsView;

    open spec fn view(&self) -> ClaimsView {
        ClaimsView {
            decodes: true,
            sub: opt_view(self.sub),
            name: opt_view(self.name),
            email: opt_view(self.email),
            email_ok: self.email_ok,
            context: opt_view(self.context),
            iat: self.iat,
            exp: self.exp,
        }
    }
}

/// Calls `jsonwebtoken::decode` with `secret` as the HMAC key and the default validation
/// (HS256 only, `exp` required, no `aud` allowed) with its expiry check turned off, so that
/// nothing depends on the clock, and reads the claims back from the JSON object. Claimed:
/// it succeeds exactly for a token that passes the HS256 signature stage under `secret` and
/// whose payload decodes (the crate checks the signature first, then reads and validates
/// the payload), and what it returns are the named claims of the token's payload.
#[verifier::external_body]
fn jwt_decode(secret: &[u8], token: &str) -> (r: Result<DecodedClaims, String>)
    ensures
        r is Ok <==> (hs256_signed(secret@, token@) && jwt_claims_of(token@).decodes),
        r matches Ok(d) ==> d@ == jwt_claims_of(token@),
{
    let mut rules = jsonwebtoken::Validation::default();
    rules.validate_exp = false;
    let key = jsonwebtoken::DecodingKey::from_secret(secret);
    let c = jsonwebtoken::decode::<serde_json::Map<_, _>>(token, &key, &rules).map_err(|e| e.to_string())?.claims;
    let text = |k| c.get(k).and_then(|v| v.as_str()).map(String::from);
    let number = |k| c.get(k).and_then(|v| v.as_u64());
    let email_ok = c.get("email").map_or(true, |v| v.is_null() || v.is_string());
    Ok(DecodedClaims { sub: text("sub"), name: text("name"), email: text("email"), email_ok, context: text("context"), iat: number("iat"), exp: number("exp") })
}

/// Session claims as plain values.
pub struct SessionView {
    pub sub: Seq<char>,
    pub name: Seq<char>,
    pub email: Option<Seq<char>>,
    pub context: GameContext,
    pub iat: u64,
    pub exp: u64,
}

/// The plain values of session claims.
pub open spec fn session_view(c: SessionClaims) -> SessionView {
    SessionView { sub: c.sub@, name: c.name@, email: opt_view(c.email), context: c.context, iat: c.iat, exp: c.exp }
}

/// Session claims read back from a token's claims: `sub`, `name`, a known `context`, `iat`
/// and `exp` are required, `email` may be absent or `null` but not of another type.
pub open spec fn claims_of(v: ClaimsView) -> Option<SessionView> {
    match (v.sub, v.name, v.context, v.iat, v.exp) {
        (Some(sub), Some(name), Some(ctx), Some(iat), Some(exp)) => if v.email_ok && exists|c: GameContext|
            c.spec_wire_name() == ctx {
            Some(
                SessionView {
                    sub,
                    name,
                    email: v.email,
                    context: choose|c: GameContext| c.spec_wire_name() == ctx,
                    iat,
                    exp,
                },
            )
        } else {
            None
        },
        _ => None,
    }
}

/// Two game contexts with one wire name are the same.
pub proof fn lemma_wire_name_unique(a: GameContext, b: GameContext)
    requires
        a.spec_wire_name() == b.spec_wire_name(),
    ensures
        a == b,
{
    reveal_strlit("shadows_of_war");
    reveal_strlit("cosmicrafts");
    reveal_strlit("nftropoly");
    reveal_strlit("darkrift");
    reveal_strlit("world_of_unreal");
    assert("shadows_of_war"@.len() == 14);
    assert("cosmicrafts"@.len() == 11);
    assert("nftropoly"@.len() == 9);
    assert("darkrift"@.len() == 8);
    assert("world_of_unreal"@.len() == 15);
    assert(a.spec_wire_name().len() == b.spec_wire_name().len());
    match a {
        GameContext::ShadowsOfWar => assert(b is ShadowsOfWar),
        GameContext::Cosmicrafts => assert(b is Cosmicrafts),
        GameContext::Nftropoly => assert(b is Nftropoly),
        GameContext::Darkrift => assert(b is Darkrift),
        GameContext::WorldOfUnreal => assert(b is WorldOfUnreal),
    }
}

/// The claims of an issued token read back as exactly the session they were issued with.
pub proof fn lemma_issued_claims_read_back(
    sub: Seq<char>,
    name: Seq<char>,
    email: Option<Seq<char>>,
    context: GameContext,
    iat: u64,
    exp: u64,
)
    ensures
        claims_of(issued_claims(sub, name, email, context.spec_wire_name(), iat, exp)) == Some(
            SessionView { sub, name, email, context, iat, exp },
        ),
{
    let w = choose|c: GameContext| c.spec_wire_name() == context.spec_wire_name();
    assert(w.spec_wire_name() == context.spec_wire_name());
    lemma_wire_name_unique(w, context);
}

/// Session claims read back from a token (see `claims_of`).
pub fn claims_from_decoded(d: DecodedClaims) -> (r: Option<SessionClaims>)
    ensures
        match r {
            Some(c) => claims_of(d@) == Some(session_view(c)),
            None => claims_of(d@) is None,
        },
{
    if !d.email_ok {
        return None;
    }
    match (d.sub, d.name, d.context, d.iat, d.exp) {
        (Some(sub), Some(name), Some(ctx), Some(iat), Some(exp)) => match game_from_wire_name(ctx.as_str()) {
            Some(context) => {
                proof {
                    let w = choose|c: GameContext| c.spec_wire_name() == ctx@;
                    assert(context.spec_wire_name() == ctx@);
                    assert(w.spec_wire_name() == ctx@);
                    lemma_wire_name_unique(w, context);
                }
                Some(SessionClaims { sub, name, email: d.email, context, iat, exp })
            },
            None => None,
        },
        _ => None,
    }
}

/// What issuing a session token for `sub` at `now`, valid `validity` seconds, under `key`
/// answers: refused as `Internal` exactly when the expiry passes `u64::MAX`; otherwise the
/// named HS256 token of those claims, signed under `key`, whose claims read back as the
/// session issued.
pub open spec fn issue_done(
    key: Seq<u8>,
    sub: Seq<char>,
    name: Seq<char>,
    email: Option<Seq<char>>,
    context: GameContext,
    now: u64,
    validity: u64,
    r: Result<String, WouError>,
) -> bool {
    &&& now + validity > u64::MAX ==> (r matches Err(WouError::Internal(m)) && m@
        == "Session validity overflows the clock"@)
    &&& now + validity <= u64::MAX ==> r is Ok
    &&& r matches Ok(t) ==> {
        &&& now + validity <= u64::MAX
        &&& t@ == hs256_session_token(key, sub, name, email, context.spec_wire_name(), now, (now
            + validity) as u64)
        &&& hs256_signed(key, t@)
        &&& jwt_claims_of(t@).decodes
        &&& claims_of(jwt_claims_of(t@)) == Some(
            SessionView { sub, name, email, context, iat: now, exp: (now + validity) as u64 },
        )
    }
}

/// A token issued under `key` (see `issue_done`) that is later accepted as session claims
/// `c` (see `JwtManager::verify_token`) gives back exactly the session it was issued with.
pub proof fn law_session_round_trip(
    key: Seq<u8>,
    sub: Seq<char>,
    name: Seq<char>,
    email: Option<Seq<char>>,
    context: GameContext,
    now: u64,
    validity: u64,
    token: String,
    c: SessionClaims,
)
    requires
        issue_done(key, sub, name, email, context, now, validity, Ok(token)),
        claims_of(jwt_claims_of(token@)) == Some(session_view(c)),
    ensures
        session_view(c) == (SessionView { sub, name, email, context, iat: now, exp: (now + validity) as u64 }),
{
}

/// Signs and checks session tokens (HS256) with one shared secret.
pub struct JwtManager {
    secret: Vec<u8>,
}

impl JwtManager {
    /// The HMAC key bytes.
    pub closed spec fn key(&self) -> Seq<u8> {
        self.secret@
    }

    /// A manager keyed by the UTF-8 bytes of `secret`.
    pub fn new(secret: &str) -> (r: JwtManager)
        ensures
            r.key() == secret.spec_bytes(),
    {
        JwtManager { secret: vstd::slice::slice_to_vec(secret.as_bytes()) }
    }

    /// Signs the session claims of an account issued at `now` and valid `validity_seconds`
    /// (see `session_claims`). Refused when the expiry passes `u64::MAX` or signing fails.
    pub fn issue_token_at(
        &self,
        account_id: &str,
        name: &str,
        email: Option<String>,
        context: GameContext,
        now: u64,
        validity_seconds: u64,
    ) -> (r: Result<String, WouError>)
        ensures
            issue_done(self.key(), account_id@, name@, opt_view(email), context, now, validity_seconds, r),
    {
        if now > u64::MAX - validity_seconds {
            return Err(WouError::Internal(string_of("Session validity overflows the clock")));
        }
        let c = session_claims(account_id, name, email, context, now, validity_seconds);
        proof {
            lemma_issued_claims_read_back(c.sub@, c.name@, opt_view(c.email), c.context, c.iat, c.exp);
        }
        match jwt_encode(self.secret.as_slice(), c.sub.as_str(), c.name.as_str(), &c.email, c.context.wire_name(), c.iat, c.exp) {
            Ok(t) => Ok(t),
            Err(e) => Err(WouError::Internal(concat2("Failed to encode JWT: ", e.as_str()))),
        }
    }

    /// Signs a session for an account, issued now (see `issue_token_at`).
    pub fn issue_token(
        &self,
        account_id: &str,
        name: &str,
        email: Option<String>,
        context: GameContext,
        validity_seconds: u64,
    ) -> (r: Result<String, WouError>)
        ensures
            exists|now: u64| #[trigger] issue_done(self.key(), account_id@, name@, opt_view(email), context, now, validity_seconds, r),
    {
        let now = unix_now();
        let ghost ev = opt_view(email);
        let r = self.issue_token_at(account_id, name, email, context, now, validity_seconds);
        assert(issue_done(self.key(), account_id@, name@, ev, context, now, validity_seconds, r));
        r
    }

    /// Checks a session token at time `now` and reads its claims (see `verify_done`).
    pub fn verify_token_at(&self, token: &str, now: u64) -> (r: Result<SessionClaims, WouError>)
        ensures
            verify_done(self.key(), token@, now, r),
    {
        proof {
            reveal_strlit("Invalid token: ");
            reveal_strlit("Invalid token: claims of the wrong shape");
            reveal_strlit("Invalid token: ExpiredSignature");
        }
        match jwt_decode(self.secret.as_slice(), token) {
            Ok(d) => {
                let shaped = match claims_from_decoded(d) {
                    Some(c) => Ok(c),
                    None => {
                        let m = string_of("Invalid token: claims of the wrong shape");
                        assert(m@.subrange(0, "Invalid token: "@.len() as int) =~= "Invalid token: "@);
                        Err(WouError::Unauthorized(m))
                    },
                };
                match shaped {
                    Ok(c) => if now > 60 && c.exp < now - 60 {
                        let m = string_of("Invalid token: ExpiredSignature");
                        assert(m@.subrange(0, "Invalid token: "@.len() as int) =~= "Invalid token: "@);
                        Err(WouError::Unauthorized(m))
                    } else {
                        Ok(c)
                    },
                    Err(e) => Err(e),
                }
            },
            Err(e) => {
                let m = concat2("Invalid token: ", e.as_str());
                assert(m@.subrange(0, "Invalid token: "@.len() as int) =~= "Invalid token: "@);
                Err(WouError::Unauthorized(m))
            },
        }
    }

    /// Checks a session token now and reads its claims (see `verify_token_at`). Only a token
    /// signed under this manager's key is accepted, only with a full set of claims (see
    /// `claims_of`), and only until 60 seconds past its expiry; every refusal is
    /// `Unauthorized` with a text starting `Invalid token: `.
    pub fn verify_token(&self, token: &str) -> (r: Result<SessionClaims, WouError>)
        ensures
            r is Ok ==> hs256_signed(self.key(), token@),
            r matches Ok(c) ==> claims_of(jwt_claims_of(token@)) == Some(session_view(c)),
            r is Err ==> (r matches Err(WouError::Unauthorized(m)) && begins_with(m@, "Invalid token: "@)),
            exists|now: u64| #[trigger] verify_done(self.key(), token@, now, r),
    {
        let now = unix_now();
        let r = self.verify_token_at(token, now);
        assert(verify_done(self.key(), token@, now, r));
        r
    }
}

/// What checking `token` under `key` at time `now` answers: the session claims exactly when
/// the token passes the signature stage, its payload decodes with a full set of claims, and
/// `now` is at most 60 seconds past its expiry; otherwise `Unauthorized` with a text starting
/// `Invalid token: ` (`claims of the wrong shape` for a full-shape failure, `ExpiredSignature`
/// for an expired token).
pub open spec fn verify_done(key: Seq<u8>, token: Seq<char>, now: u64, r: Result<SessionClaims, WouError>) -> bool {
    let v = jwt_claims_of(token);
    &&& r is Ok <==> (hs256_signed(key, token) && v.decodes && claims_of(v) is Some
        && now <= claims_of(v).unwrap().exp + 60)
    &&& r matches Ok(c) ==> claims_of(v) == Some(session_view(c))
    &&& r is Err ==> (r matches Err(WouError::Unauthorized(m)) && begins_with(m@, "Invalid token: "@))
    &&& (hs256_signed(key, token) && v.decodes && claims_of(v) is None) ==> (r matches Err(
        WouError::Unauthorized(m)) && m@ == "Invalid token: claims of the wrong shape"@)
    &&& (hs256_signed(key, token) && v.decodes && claims_of(v) is Some && now > claims_of(v).unwrap().exp
        + 60) ==> (r matches Err(WouError::Unauthorized(m)) && m@ == "Invalid token: ExpiredSignature"@)
}

/// A token issued under a manager's key (see `issue_done`) is accepted by that manager
/// until 60 seconds past its expiry, whatever the validity length, and gives back exactly
/// the session issued; later it is refused as expired.
pub proof fn law_issued_token_verifies(
    key: Seq<u8>,
    sub: Seq<char>,
    name: Seq<char>,
    email: Option<Seq<char>>,
    context: GameContext,
    issued_at: u64,
    validity: u64,
    token: String,
    now: u64,
    r: Result<SessionClaims, WouError>,
)
    requires
        issue_done(key, sub, name, email, context, issued_at, validity, Ok(token)),
        verify_done(key, token@, now, r),
    ensures
        now <= issued_at + validity + 60 ==> (r matches Ok(c) && session_view(c) == (SessionView {
            sub,
            name,
            email,
            context,
            iat: issued_at,
            exp: (issued_at + validity) as u64,
        })),
        now > issued_at + validity + 60 ==> r is Err,
{
}

} // verus!
