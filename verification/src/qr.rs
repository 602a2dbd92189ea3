use vstd::prelude::*;
use vstd::string::*;
use crate::access::{hash_secret_hex, QR_TTL_SECONDS};
use crate::clans::ascii_alnum;
use crate::digest::{hex_decode_spec, hex_lower, law_hex_round_trip, sha256_of};
use crate::models::{GameContext, PlayerAccount, QrChallenge};
use crate::players::{clean_handle, clean_handle_spec};
use crate::text::{chars_vec, concat2, concat3, lowercase_of, to_lowercase, trim, trim_spec};

verus! {

/// A desktop starts a QR sign-in, optionally naming who it is for.
pub struct QrStartPayload {
    pub context: GameContext,
    pub account_id: Option<String>,
    pub username: Option<String>,
}

/// The started challenge: its id, the approval link (the secret rides in the fragment), the
/// secret, its lifetime, and the bot channels that were pushed.
pub struct QrStartResponse {
    pub id: String,
    pub approve_url: String,
    pub secret: String,
    pub expires_in_seconds: u64,
    pub notified: Vec<&'static str>,
}

/// The challenge secret, which proves the desktop (or the phone) saw the QR.
pub struct QrSecretPayload {
    pub secret: String,
}

/// What a polling desktop learns: `pending`, or `approved` with the account and session.
pub struct QrStatusResponse {
    pub status: &'static str,
    pub account: Option<PlayerAccount>,
    pub session_token: Option<String>,
}

/// Whom a QR start names, for pushing the approval to their bots.
pub enum QrRequester {
    ById(String),
    ByHandle(String),
    Nobody,
}

/// A new challenge under `id` for `secret` (only its hash is kept), created at `now`.
pub fn new_qr_challenge(id: String, secret: &str, context: GameContext, now: u64) -> (ch: QrChallenge)
    ensures
        ch.id == id,
        ch.secret_hash@ == hex_lower(sha256_of(secret.spec_bytes())),
        ch.context == context,
        ch.created_at == now,
        ch.approved_account_id is None,
        ch.session_token is None,
{
    QrChallenge {
        id,
        secret_hash: hash_secret_hex(secret),
        context,
        created_at: now,
        approved_account_id: None,
        session_token: None,
    }
}

/// Length of a QR secret.
pub const QR_SECRET_LEN: usize = 48;

/// `len` characters drawn from `rand`'s `Alphanumeric` distribution over `rand::thread_rng()`.
/// Claims that the text has `len` characters, each an ASCII letter or digit; which ones is left
/// to chance.
#[verifier::external_body]
pub(crate) fn random_alphanumeric(len: usize) -> (r: String)
    ensures
        r@.len() == len,
        forall|i: int| 0 <= i < r@.len() ==> ascii_alnum(#[trigger] r@[i]),
{
    rand::Rng::sample_iter(rand::thread_rng(), &rand::distributions::Alphanumeric)
        .take(len)
        .map(char::from)
        .collect()
}

/// Opens a QR sign-in under `id` at `now`: draws a fresh 48-character alphanumeric secret and
/// gives the pending challenge, which keeps only the secret's hash, with the secret itself.
pub fn start_qr_challenge(id: String, context: GameContext, now: u64) -> (r: (QrChallenge, String))
    ensures
        r.1@.len() == QR_SECRET_LEN,
        forall|i: int| 0 <= i < r.1@.len() ==> ascii_alnum(#[trigger] r.1@[i]),
        r.0.id == id,
        r.0.secret_hash@ == hex_lower(sha256_of(vstd::utf8::encode_utf8(r.1@))),
        r.0.context == context,
        r.0.created_at == now,
        r.0.approved_account_id is None,
        r.0.session_token is None,
{
    let secret = random_alphanumeric(QR_SECRET_LEN);
    let ch = new_qr_challenge(id, secret.as_str(), context, now);
    (ch, secret)
}

/// Rate key of a start that names a non-blank username (such starts push to bots);
/// anonymous starts have none.
pub fn qr_start_rate_key(payload: &QrStartPayload) -> (r: Option<String>)
    ensures
        match payload.username {
            Some(u) => if trim_spec(u@).len() > 0 {
                r matches Some(k) && k@ == "wou_qr_start_rate:"@ + lowercase_of(u@)
            } else {
                r is None
            },
            None => r is None,
        },
{
    match &payload.username {
        Some(u) => if chars_vec(trim(u.as_str()).as_str()).len() > 0 {
            Some(concat2("wou_qr_start_rate:", to_lowercase(u.as_str()).as_str()))
        } else {
            None
        },
        None => None,
    }
}

/// Whom a start names: a non-empty account id first, else a non-empty username by its
/// cleaned handle, else nobody.
pub fn qr_requester(payload: &QrStartPayload) -> (r: QrRequester)
    ensures
        match payload.account_id {
            Some(a) if a@.len() > 0 => r matches QrRequester::ById(x) && x@ == a@,
            _ => match payload.username {
                Some(u) if u@.len() > 0 => r matches QrRequester::ByHandle(h) && h@
                    == clean_handle_spec(u@),
                _ => r is Nobody,
            },
        },
{
    match &payload.account_id {
        Some(a) if chars_vec(a.as_str()).len() > 0 => {
            return QrRequester::ById(crate::text::string_of(a.as_str()));
        },
        _ => {},
    }
    match &payload.username {
        Some(u) if chars_vec(u.as_str()).len() > 0 => QrRequester::ByHandle(clean_handle(u.as_str())),
        _ => QrRequester::Nobody,
    }
}

/// At most the first `n` chat ids: a start pushes to no more than three chats per channel.
pub fn first_n(v: Vec<String>, n: usize) -> (r: Vec<String>)
    ensures
        r@ == v@.take(if n < v@.len() { n as int } else { v@.len() as int }),
{
    let mut v = v;
    if n < v.len() {
        v.truncate(n);
    }
    proof {
        assert(v@ =~= v@.take(v@.len() as int));
    }
    v
}

/// Chats pushed per channel on a QR start.
pub const QR_PUSH_LIMIT: usize = 3;

/// The answer to a start under `id` with `secret`, naming the channels that got a push
/// (Telegram before Discord).
pub fn qr_start_response(id: String, secret: String, telegram: bool, discord: bool) -> (r:
    QrStartResponse)
    ensures
        r.approve_url@ == "https://hyper.worldofunreal.com/approve.html#id="@ + id@ + "&secret="@
            + secret@,
        r.id == id,
        r.secret == secret,
        r.expires_in_seconds == QR_TTL_SECONDS,
        r.notified@.len() == (if telegram { 1int } else { 0int }) + (if discord { 1int } else { 0int }),
        telegram ==> r.notified@[0]@ == "telegram"@,
        discord ==> r.notified@[r.notified@.len() - 1]@ == "discord"@,
{
    let mut approve_url = concat3("https://hyper.worldofunreal.com/approve.html#id=", id.as_str(), "&secret=");
    approve_url.append(secret.as_str());
    let mut notified: Vec<&'static str> = Vec::new();
    if telegram {
        notified.push("telegram");
    }
    if discord {
        notified.push("discord");
    }
    QrStartResponse { id, approve_url, secret, expires_in_seconds: QR_TTL_SECONDS, notified }
}

/// The account and session of an approved challenge, when both are there.
pub fn qr_delivery(ch: &QrChallenge) -> (r: Option<(String, String)>)
    ensures
        match (ch.approved_account_id, ch.session_token) {
            (Some(a), Some(t)) => r == Some((a, t)),
            _ => r is None,
        },
{
    match (&ch.approved_account_id, &ch.session_token) {
        (Some(a), Some(t)) => Some((a.clone(), t.clone())),
        _ => None,
    }
}

/// A poll answer: `approved` with the account found and the session when one is
/// delivered, else `pending`.
pub fn qr_status_response(delivered: Option<(Option<PlayerAccount>, String)>) -> (r: QrStatusResponse)
    ensures
        match delivered {
            Some((a, t)) => r.status@ == "approved"@ && r.account == a && r.session_token == Some(t),
            None => r.status@ == "pending"@ && r.account is None && r.session_token is None,
        },
{
    match delivered {
        Some((account, token)) => QrStatusResponse {
            status: "approved",
            account,
            session_token: Some(token),
        },
        None => QrStatusResponse { status: "pending", account: None, session_token: None },
    }
}

/// Approves a challenge for an account with its new session; a challenge that already
/// carries a session is used and stays as it was.
pub fn approve_qr(ch: &mut QrChallenge, account_id: String, token: String) -> (ok: bool)
    ensures
        ok == old(ch).session_token is None,
        ok ==> final(ch).approved_account_id == Some(account_id) && final(ch).session_token == Some(
            token,
        ) && final(ch).id == old(ch).id && final(ch).secret_hash == old(ch).secret_hash
            && final(ch).context == old(ch).context && final(ch).created_at == old(ch).created_at,
        !ok ==> *final(ch) == *old(ch),
{
    if ch.session_token.is_some() {
        return false;
    }
    ch.approved_account_id = Some(account_id);
    ch.session_token = Some(token);
    true
}

/// `ch` is `before` as a successful `approve_qr` leaves it.
pub open spec fn approved_from(ch: QrChallenge, before: QrChallenge, account_id: String, token: String) -> bool {
    &&& before.session_token is None
    &&& ch.approved_account_id == Some(account_id)
    &&& ch.session_token == Some(token)
    &&& ch.id == before.id
    &&& ch.secret_hash == before.secret_hash
}

/// A QR challenge is approved at most once: after a successful approval it carries a
/// session, so any further `approve_qr` is refused and leaves it as it was, and a poll
/// delivers exactly the approved account and session.
pub proof fn law_qr_single_approval(ch: QrChallenge, before: QrChallenge, account_id: String, token: String)
    requires
        approved_from(ch, before, account_id, token),
    ensures
        !(ch.session_token is None),
        match (ch.approved_account_id, ch.session_token) {
            (Some(a), Some(t)) => a == account_id && t == token,
            _ => false,
        },
{
}

/// The secret handed out with a QR challenge opens it: the stored hash decodes to the
/// SHA-256 of the secret, which is what `check_secret` asks of a secret.
pub proof fn law_qr_secret_opens_challenge(ch: QrChallenge, secret: Seq<char>)
    requires
        ch.secret_hash@ == hex_lower(sha256_of(vstd::utf8::encode_utf8(secret))),
    ensures
        hex_decode_spec(vstd::utf8::encode_utf8(ch.secret_hash@)) == Some(
            sha256_of(vstd::utf8::encode_utf8(secret)),
        ),
{
    law_hex_round_trip(sha256_of(vstd::utf8::encode_utf8(secret)));
}

} // verus!
