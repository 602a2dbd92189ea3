use vstd::prelude::*;
use vstd::string::*;
use crate::access::{wire_known, wire_provider_is};
use crate::account::{has_link, noble_display_name, noble_username};
use crate::email::{canonical_email, canonical_email_spec};
use crate::error::{error_message, WouError};
use crate::flows::{web3_challenge_message, web3_nonce_key, web3_provider, web3_provider_spec};
use crate::models::{AuthProvider, EmbeddedWallets, GameContext, LinkedIdentity, PendingOtp, PlayerAccount};
use crate::text::{
    chars_vec, concat2, contains_seq, decimal_spec, lowercase_of, occurs_at, str_eq, string_of, trim,
    trim_spec,
};
use crate::web3::{
    ethereum_verdict, icp_principal_ok, solana_verdict, validate_icp_principal,
    verify_ethereum_signature, verify_solana_signature,
};

verus! {

/// A wallet asks for a sign-in challenge.
pub struct Web3ChallengeRequest {
    pub chain: String,
    pub public_address: String,
}

/// The challenge a wallet signs.
pub struct Web3ChallengeResponse {
    pub nonce: String,
    pub message: String,
}

/// A wallet answers its challenge.
pub struct Web3VerifyRequest {
    pub chain: String,
    pub public_address: String,
    pub signature: String,
    pub message: String,
    pub account_id: Option<String>,
    pub context: GameContext,
}

/// The challenge for `req` under a fresh `nonce` at `timestamp`, with the key that keeps the
/// nonce until it is answered.
pub fn web3_challenge(req: &Web3ChallengeRequest, nonce: String, timestamp: u64) -> (r: (
    Web3ChallengeResponse,
    String,
))
    ensures
        r.0.nonce == nonce,
        r.0.message@ == "Sign this message to authenticate with World of Unreal Identity Engine.\n\nAddress: "@
            + req.public_address@ + "\nNonce: "@ + nonce@ + "\nTimestamp: "@ + decimal_spec(
            timestamp as nat,
        ),
        r.1@ == "wou_web3_nonce:"@ + lowercase_of(req.chain@) + ":"@ + lowercase_of(
            req.public_address@,
        ),
{
    let message = web3_challenge_message(req.public_address.as_str(), nonce.as_str(), timestamp);
    let key = web3_nonce_key(req.chain.as_str(), req.public_address.as_str());
    (Web3ChallengeResponse { nonce, message }, key)
}

/// A wallet that signs the challenge it was given answers it: the challenge message holds
/// the nonce stored for it, so a stored nonce and that message pass `challenge_answered`.
pub proof fn law_challenge_message_answers(address: Seq<char>, nonce: Seq<char>, timestamp: u64)
    ensures
        contains_seq(
            "Sign this message to authenticate with World of Unreal Identity Engine.\n\nAddress: "@
                + address + "\nNonce: "@ + nonce + "\nTimestamp: "@ + decimal_spec(timestamp as nat),
            nonce,
        ),
{
    let head = "Sign this message to authenticate with World of Unreal Identity Engine.\n\nAddress: "@
        + address + "\nNonce: "@;
    let tail = "\nTimestamp: "@ + decimal_spec(timestamp as nat);
    let m = "Sign this message to authenticate with World of Unreal Identity Engine.\n\nAddress: "@
        + address + "\nNonce: "@ + nonce + "\nTimestamp: "@ + decimal_spec(timestamp as nat);
    assert(m =~= head + nonce + tail);
    assert(m.subrange(head.len() as int, (head.len() + nonce.len()) as int) =~= nonce);
    assert(occurs_at(m, nonce, head.len() as int));
}

/// Why a wallet sign-in is refused.
pub enum Web3Refusal {
    /// The chain name is not one of the supported ones; carries the message.
    UnsupportedChain(String),
    /// Internet Identity sign-in is switched off.
    IdentityDisabled,
    /// No stored challenge, or the signed message does not contain it.
    ChallengeExpired,
    /// The signature does not match the address.
    BadSignature,
    /// The signature could not be checked; carries the message.
    VerificationFailed(String),
}

impl Web3Refusal {
    /// HTTP status of the refusal.
    pub fn status(&self) -> (s: u16)
        ensures
            s == match *self {
                Web3Refusal::UnsupportedChain(_) => 400u16,
                Web3Refusal::IdentityDisabled => 503u16,
                Web3Refusal::ChallengeExpired => 401u16,
                Web3Refusal::BadSignature => 401u16,
                Web3Refusal::VerificationFailed(_) => 400u16,
            },
    {
        match self {
            Web3Refusal::UnsupportedChain(_) => 400,
            Web3Refusal::IdentityDisabled => 503,
            Web3Refusal::ChallengeExpired => 401,
            Web3Refusal::BadSignature => 401,
            Web3Refusal::VerificationFailed(_) => 400,
        }
    }
}

/// Provider a wallet sign-in uses: Solana or Ethereum under their aliases. Unknown chains
/// are refused, and Internet Identity is switched off (a principal's text proves nothing).
pub fn web3_login_provider(chain: &str) -> (r: Result<AuthProvider, Web3Refusal>)
    ensures
        match web3_provider_spec(lowercase_of(chain@)) {
            None => r matches Err(Web3Refusal::UnsupportedChain(m)) && m@
                == "Unsupported Web3 chain: "@ + lowercase_of(chain@),
            Some(AuthProvider::InternetIdentity) => r matches Err(Web3Refusal::IdentityDisabled),
            Some(p) => r == Ok::<AuthProvider, Web3Refusal>(p),
        },
{
    match web3_provider(chain) {
        Ok(AuthProvider::InternetIdentity) => Err(Web3Refusal::IdentityDisabled),
        Ok(p) => Ok(p),
        Err(WouError::ProviderVerificationFailed(m)) => Err(Web3Refusal::UnsupportedChain(m)),
        Err(_) => Err(Web3Refusal::UnsupportedChain(string_of(""))),
    }
}

/// What checking a wallet signature gives for each provider: the Solana and Ethereum
/// checks, the principal format for Internet Identity, and `false` for any other.
pub open spec fn wallet_verdict(
    r: Result<bool, WouError>,
    provider: AuthProvider,
    address: &str,
    message: &str,
    signature: &str,
) -> bool {
    match provider {
        AuthProvider::Solana => solana_verdict(r, address, message, signature),
        AuthProvider::Ethereum => ethereum_verdict(r, address, message, signature),
        AuthProvider::InternetIdentity => r == Ok::<bool, WouError>(icp_principal_ok(address@)),
        _ => r == Ok::<bool, WouError>(false),
    }
}

/// Checks a wallet's signature of `message` with the check of its provider.
pub fn wallet_signature_valid(provider: &AuthProvider, address: &str, message: &str, signature: &str)
    -> (r: Result<bool, WouError>)
    ensures
        wallet_verdict(r, *provider, address, message, signature),
{
    match provider {
        AuthProvider::Solana => verify_solana_signature(address, message, signature),
        AuthProvider::Ethereum => verify_ethereum_signature(address, message, signature),
        AuthProvider::InternetIdentity => validate_icp_principal(address),
        _ => Ok(false),
    }
}

/// Turns a signature check into the sign-in answer: a valid signature passes, an invalid
/// one is refused as such, a check that failed is refused with its error.
pub fn web3_signature_outcome(v: Result<bool, WouError>) -> (r: Result<(), Web3Refusal>)
    ensures
        v == Ok::<bool, WouError>(true) ==> r is Ok,
        v == Ok::<bool, WouError>(false) ==> r matches Err(Web3Refusal::BadSignature),
        v matches Err(e) ==> (r matches Err(Web3Refusal::VerificationFailed(m)) && m@
            == "Signature verification failed: "@ + error_message(e)),
{
    match v {
        Ok(true) => Ok(()),
        Ok(false) => Err(Web3Refusal::BadSignature),
        Err(e) => {
            let m = e.message();
            Err(Web3Refusal::VerificationFailed(concat2("Signature verification failed: ", m.as_str())))
        },
    }
}

/// A request for a one-time sign-in code.
pub struct OtpRequestPayload {
    pub email: String,
    pub account_id: Option<String>,
    pub context: GameContext,
    pub newsletter_opt_in: bool,
}

/// Answer of an accepted code request.
pub struct OtpRequestResponse {
    pub status: &'static str,
    pub message: &'static str,
    pub expires_in_seconds: u64,
}

/// A code entered to sign in.
pub struct OtpVerifyPayload {
    pub email: String,
    pub code: String,
    pub account_id: Option<String>,
    pub context: GameContext,
}

/// The pending code of an accepted request for the canonical address, issued at `now`.
pub fn pending_otp(payload: OtpRequestPayload, clean_email: String, code: String, now: u64) -> (p:
    PendingOtp)
    ensures
        p.code == code,
        p.account_id == payload.account_id,
        p.email == clean_email,
        p.context == payload.context,
        p.newsletter_opt_in == payload.newsletter_opt_in,
        p.requested_at == now,
{
    PendingOtp {
        code,
        account_id: payload.account_id,
        email: clean_email,
        context: payload.context,
        newsletter_opt_in: payload.newsletter_opt_in,
        requested_at: now,
    }
}

/// The answer once a code is on its way, valid for `expiry_seconds`.
pub fn otp_sent(expiry_seconds: u64) -> (r: OtpRequestResponse)
    ensures
        r.status@ == "success"@,
        r.message@ == "Verification code sent to your email."@,
        r.expires_in_seconds == expiry_seconds,
{
    OtpRequestResponse {
        status: "success",
        message: "Verification code sent to your email.",
        expires_in_seconds: expiry_seconds,
    }
}

/// A newsletter subscription.
pub struct NewsletterSubscribePayload {
    pub email: String,
    pub context: GameContext,
}

/// A one-click newsletter unsubscription.
pub struct NewsletterUnsubscribePayload {
    pub email: String,
    pub token: Option<String>,
}

/// Answer of a newsletter change.
pub struct NewsletterResponse {
    pub status: &'static str,
    pub message: &'static str,
}

/// Records a newsletter choice on an account at `now`.
pub fn set_newsletter(account: &mut PlayerAccount, subscribed: bool, now: u64)
    ensures
        final(account).newsletter_opt_in == subscribed,
        final(account).updated_at == now,
        final(account).id == old(account).id,
        final(account).email == old(account).email,
        final(account).linked_identities == old(account).linked_identities,
{
    account.newsletter_opt_in = subscribed;
    account.updated_at = now;
}

/// The answer of a subscription (`subscribed`) or an unsubscription.
pub fn newsletter_response(subscribed: bool) -> (r: NewsletterResponse)
    ensures
        subscribed ==> r.status@ == "subscribed"@ && r.message@
            == "Successfully subscribed to newsletter updates."@,
        !subscribed ==> r.status@ == "unsubscribed"@ && r.message@
            == "You have been successfully removed from our mailing list."@,
{
    if subscribed {
        NewsletterResponse {
            status: "subscribed",
            message: "Successfully subscribed to newsletter updates.",
        }
    } else {
        NewsletterResponse {
            status: "unsubscribed",
            message: "You have been successfully removed from our mailing list.",
        }
    }
}

/// A guest session request, possibly resuming an account.
pub struct AnonymousRequest {
    pub account_id: Option<String>,
    pub display_name: Option<String>,
    pub context: GameContext,
}

/// What a guest session request leads to.
pub enum AnonymousDecision {
    /// Resume the named account: it exists and the caller proved ownership.
    Resume,
    /// The named account exists but the caller did not prove ownership.
    Forbidden,
    /// Mint a fresh account under a server-chosen id.
    Fresh,
}

/// Decides a guest session request, given whether the named account exists and whether
/// the caller holds a valid session for it. A bare id never resumes an account.
pub fn anonymous_decision(req: &AnonymousRequest, exists: bool, owner_verified: bool) -> (r:
    AnonymousDecision)
    ensures
        (req.account_id is Some && exists && owner_verified) <==> r is Resume,
        (req.account_id is Some && exists && !owner_verified) <==> r is Forbidden,
        (req.account_id is None || !exists) <==> r is Fresh,
{
    match &req.account_id {
        Some(_) => if exists {
            if owner_verified {
                AnonymousDecision::Resume
            } else {
                AnonymousDecision::Forbidden
            }
        } else {
            AnonymousDecision::Fresh
        },
        None => AnonymousDecision::Fresh,
    }
}

/// A request to link a CrazyGames identity, proven by its token.
pub struct LinkCrazyGamesPayload {
    pub account_id: String,
    pub token: String,
    pub context: GameContext,
}

/// A request to link a wallet, proven by a signed message.
pub struct LinkWeb3Payload {
    pub account_id: String,
    pub address_or_pubkey: String,
    pub message: String,
    pub signature: String,
    pub context: GameContext,
}

/// A game server resolves a platform identity to an account.
pub struct ResolveIdentityRequest {
    pub provider: String,
    pub external_id: String,
    pub display_name: Option<String>,
    pub email: Option<String>,
    pub email_verified: bool,
}

/// Why an identity resolution is refused.
pub enum ResolveRefusal {
    UnsupportedProvider,
    InvalidExternalIdentity,
}

/// Optional text kept only when it is not blank.
pub open spec fn nonblank(o: Option<String>) -> Option<String> {
    match o {
        Some(s) => if trim_spec(s@).len() > 0 {
            Some(s)
        } else {
            None
        },
        None => None,
    }
}

/// The account a resolution would create under `account_id` at `now`: a new account with
/// the non-blank display name, the canonical email when verified and not blank, and the
/// platform identity (trimmed id, 1 to 256 bytes) linked. Refused for an unknown platform
/// or a bad id.
pub fn service_identity_account(
    req: ResolveIdentityRequest,
    account_id: String,
    wallets: EmbeddedWallets,
    now: u64,
) -> (r: Result<(AuthProvider, String, PlayerAccount), ResolveRefusal>)
    ensures
        !wire_known(trim_spec(req.provider@)) ==> r matches Err(
            ResolveRefusal::UnsupportedProvider,
        ),
        wire_known(trim_spec(req.provider@)) && (trim_spec(
            req.external_id@,
        ).len() == 0 || vstd::utf8::encode_utf8(trim_spec(req.external_id@)).len() > 256)
            ==> r matches Err(ResolveRefusal::InvalidExternalIdentity),
        r matches Ok((p, x, a)) ==> {
            &&& wire_known(trim_spec(req.provider@)) && wire_provider_is(trim_spec(req.provider@), p)
            &&& x@ == trim_spec(req.external_id@)
            &&& 0 < x@.len()
            &&& vstd::utf8::encode_utf8(x@).len() <= 256
            &&& a.id == account_id
            &&& a.username@ == noble_username(account_id@)
            &&& a.display_name@ == match nonblank(req.display_name) {
                Some(d) => d@,
                None => noble_display_name(account_id@),
            }
            &&& (a.email is Some <==> (req.email_verified && nonblank(req.email) is Some))
            &&& (a.email matches Some(e) ==> (req.email matches Some(x) && e@ == canonical_email_spec(
                x@,
            )))
            &&& a.linked_identities@.len() == 1
            &&& a.linked_identities@[0].provider == p
            &&& a.linked_identities@[0].external_id@ == x@
            &&& a.linked_identities@[0].linked_at == now
            &&& a.embedded_wallets == wallets
            &&& a.created_at == now
        },
        r is Err ==> (!wire_known(trim_spec(req.provider@)) || trim_spec(
            req.external_id@,
        ).len() == 0 || vstd::utf8::encode_utf8(trim_spec(req.external_id@)).len() > 256),
{
    let provider = match crate::access::provider_from_wire(req.provider.as_str()) {
        Some(p) => p,
        None => {
            return Err(ResolveRefusal::UnsupportedProvider);
        },
    };
    let external = trim(req.external_id.as_str());
    if chars_vec(external.as_str()).len() == 0 || external.as_str().as_bytes().len() > 256 {
        return Err(ResolveRefusal::InvalidExternalIdentity);
    }
    let display = match req.display_name {
        Some(d) => if chars_vec(trim(d.as_str()).as_str()).len() > 0 {
            Some(d)
        } else {
            None
        },
        None => None,
    };
    let mut account = PlayerAccount::new_with_wallets_at(account_id, None, display, wallets, now);
    if req.email_verified {
        match &req.email {
            Some(e) => {
                if chars_vec(trim(e.as_str()).as_str()).len() > 0 {
                    account.email = Some(canonical_email(e.as_str()));
                }
            },
            None => {},
        }
    }
    let ghost before = account;
    account.link_identity_at(provider.duplicate(), string_of(external.as_str()), now);
    proof {
        assert(!has_link(before.linked_identities@, provider, external@));
    }
    Ok((provider, external, account))
}

/// An operator asks to wipe human test accounts.
pub struct ResetHumanAccountsRequest {
    pub confirmation: String,
    pub dry_run: bool,
}

impl ResetHumanAccountsRequest {
    /// The wipe goes ahead only on the exact confirmation phrase.
    pub fn confirmed(&self) -> (b: bool)
        ensures
            b == (self.confirmation@ == "RESET_HUMAN_TEST_DATA"@),
    {
        str_eq(self.confirmation.as_str(), "RESET_HUMAN_TEST_DATA")
    }
}

} // verus!
