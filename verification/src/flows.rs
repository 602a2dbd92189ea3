use vstd::prelude::*;
use vstd::string::*;
use crate::account::{has_link, links_after, same_but_links};
use crate::email::{canonical_email, canonical_email_spec, key_tag_spec, log_tag};
use crate::error::WouError;
use crate::models::{AuthProvider, PlayerAccount};
use crate::oauth::before_char;
use crate::text::{
    chars_vec, concat2, concat3, contains_char, contains_str, contains_seq, decimal_spec,
    decimal_string, find_char, lowercase_of, starts_with, str_eq, string_from_char_range,
    string_of, to_lowercase,
};

verus! {

/// Why an account merge during sign-in is refused.
#[derive(Debug)]
pub enum MergeRefusal {
    /// The verified email and the provider identity belong to different accounts.
    SplitIdentity,
    /// The account already holds a different verified email.
    EmailConflict,
}

/// Both lookups found an account, and not the same one.
pub fn accounts_conflict(by_identity: &Option<PlayerAccount>, by_email: &Option<PlayerAccount>) -> (b: bool)
    ensures
        b == (by_identity matches Some(a) && by_email matches Some(e) && a.id@ != e.id@),
{
    match (by_identity, by_email) {
        (Some(a), Some(e)) => !str_eq(a.id.as_str(), e.id.as_str()),
        _ => false,
    }
}

/// The account a provider sign-in lands on.
pub enum SignInTarget {
    /// The account already linked to the provider identity.
    Linked(PlayerAccount),
    /// The account holding the verified email, to which the identity is attached.
    EmailMatch(PlayerAccount),
    /// Neither: a new or adopted account.
    Fresh,
}

/// Chooses the account a provider sign-in lands on from the identity lookup and the
/// verified-email lookup: refused (none) when both found different accounts; otherwise the
/// identity's account first, then the email's, else a fresh one.
pub fn sign_in_target(by_identity: Option<PlayerAccount>, by_email: Option<PlayerAccount>) -> (r: Option<
    SignInTarget,
>)
    ensures
        r is None <==> (by_identity matches Some(a) && by_email matches Some(e) && a.id@ != e.id@),
        r is Some ==> match by_identity {
            Some(a) => r == Some(SignInTarget::Linked(a)),
            None => match by_email {
                Some(e) => r == Some(SignInTarget::EmailMatch(e)),
                None => r == Some(SignInTarget::Fresh),
            },
        },
{
    if accounts_conflict(&by_identity, &by_email) {
        return None;
    }
    match by_identity {
        Some(a) => Some(SignInTarget::Linked(a)),
        None => match by_email {
            Some(e) => Some(SignInTarget::EmailMatch(e)),
            None => Some(SignInTarget::Fresh),
        },
    }
}

/// The account's email may take `verified`: it has none, or the same one canonically.
pub open spec fn email_compatible(account_email: Option<String>, verified: Seq<char>) -> bool {
    match account_email {
        None => true,
        Some(e) => canonical_email_spec(e@) == verified,
    }
}

fn check_email(account_email: &Option<String>, verified: &str) -> (b: bool)
    ensures
        b == email_compatible(*account_email, verified@),
{
    match account_email {
        None => true,
        Some(e) => str_eq(canonical_email(e.as_str()).as_str(), verified),
    }
}

/// Whether a display name is still a generated placeholder (`Commander_...`).
pub open spec fn placeholder_name(name: Seq<char>) -> bool {
    "Commander_"@.len() <= name.len() && name.subrange(0, "Commander_"@.len() as int) == "Commander_"@
}

/// Returning sign-in through a linked provider, at `now`: a verified email (if any) is
/// recorded unless the account already holds a different one (refused, account
/// unchanged); a provider avatar replaces the profile avatar; the account is stamped.
pub fn refresh_linked_account(
    account: &mut PlayerAccount,
    verified_email: &Option<String>,
    avatar: &Option<String>,
    now: u64,
) -> (r: Result<(), MergeRefusal>)
    ensures
        (verified_email matches Some(v) && !email_compatible(old(account).email, v@)) ==> {
            &&& r matches Err(MergeRefusal::EmailConflict)
            &&& *final(account) == *old(account)
        },
        r is Ok <==> !(verified_email matches Some(v) && !email_compatible(old(account).email, v@)),
        r is Ok ==> {
            &&& final(account).email == match verified_email {
                Some(v) => Some(*v),
                None => old(account).email,
            }
            &&& final(account).profile.avatar_url == match avatar {
                Some(a) => Some(*a),
                None => old(account).profile.avatar_url,
            }
            &&& final(account).updated_at == now
            &&& final(account).id == old(account).id
            &&& final(account).display_name == old(account).display_name
            &&& final(account).linked_identities == old(account).linked_identities
        },
{
    if let Some(v) = verified_email {
        if !check_email(&account.email, v.as_str()) {
            return Err(MergeRefusal::EmailConflict);
        }
        account.email = Some(v.clone());
    }
    if let Some(a) = avatar {
        account.profile.avatar_url = Some(a.clone());
    }
    account.updated_at = now;
    Ok(())
}

/// Sign-in through a new provider on an account found by its verified email, at `now`:
/// the identity is linked, a provider avatar replaces the profile avatar, and a provider
/// name replaces a placeholder display name.
pub fn attach_provider(
    account: &mut PlayerAccount,
    provider: AuthProvider,
    external_id: String,
    avatar: &Option<String>,
    display_name: &Option<String>,
    now: u64,
)
    ensures
        has_link(final(account).linked_identities@, provider, external_id@),
        final(account).profile.avatar_url == match avatar {
            Some(a) => Some(*a),
            None => old(account).profile.avatar_url,
        },
        final(account).display_name == match display_name {
            Some(n) => if placeholder_name(old(account).display_name@) {
                *n
            } else {
                old(account).display_name
            },
            None => old(account).display_name,
        },
        final(account).id == old(account).id,
        final(account).email == old(account).email,
        final(account).linked_identities@ == links_after(old(account).linked_identities@, provider, external_id, now),
{
    account.link_identity_at(provider, external_id, now);
    if let Some(a) = avatar {
        account.profile.avatar_url = Some(a.clone());
    }
    if let Some(n) = display_name {
        if starts_with(account.display_name.as_str(), "Commander_") {
            account.display_name = n.clone();
        }
    }
    proof {
        reveal_strlit("Commander_");
    }
}

/// A first sign-in through a provider on a fresh or anonymous account, at `now`: a
/// verified email is recorded unless the account holds a different one (refused, account
/// unchanged); avatar and placeholder name are taken from the provider; the identity is
/// linked.
pub fn complete_provider_account(
    account: &mut PlayerAccount,
    verified_email: Option<String>,
    avatar: &Option<String>,
    display_name: &Option<String>,
    provider: AuthProvider,
    external_id: String,
    now: u64,
) -> (r: Result<(), MergeRefusal>)
    ensures
        (verified_email matches Some(v) && !email_compatible(old(account).email, v@)) ==> {
            &&& r matches Err(MergeRefusal::EmailConflict)
            &&& *final(account) == *old(account)
        },
        r is Ok <==> !(verified_email matches Some(v) && !email_compatible(old(account).email, v@)),
        r is Ok ==> {
            &&& final(account).email == match verified_email {
                Some(v) => Some(v),
                None => old(account).email,
            }
            &&& has_link(final(account).linked_identities@, provider, external_id@)
            &&& final(account).linked_identities@ == links_after(old(account).linked_identities@, provider, external_id, now)
            &&& final(account).profile.avatar_url == match avatar {
                Some(a) => Some(*a),
                None => old(account).profile.avatar_url,
            }
            &&& final(account).display_name == match display_name {
                Some(n) => if placeholder_name(old(account).display_name@) {
                    *n
                } else {
                    old(account).display_name
                },
                None => old(account).display_name,
            }
            &&& final(account).id == old(account).id
        },
{
    if let Some(v) = &verified_email {
        if !check_email(&account.email, v.as_str()) {
            return Err(MergeRefusal::EmailConflict);
        }
    }
    if let Some(v) = verified_email {
        account.email = Some(v);
    }
    if let Some(a) = avatar {
        account.profile.avatar_url = Some(a.clone());
    }
    if let Some(n) = display_name {
        if starts_with(account.display_name.as_str(), "Commander_") {
            account.display_name = n.clone();
        }
    }
    proof {
        reveal_strlit("Commander_");
    }
    account.link_identity_at(provider, external_id, now);
    Ok(())
}

/// A one-time welcome mail is due: the account is new, holds an email, and has had none.
pub fn welcome_due(is_new: bool, account: &PlayerAccount) -> (b: bool)
    ensures
        b == (is_new && !account.welcome_sent && account.email is Some),
{
    is_new && !account.welcome_sent && account.email.is_some()
}

/// Marks the welcome mail as sent at `now`.
pub fn mark_welcome_sent(account: &mut PlayerAccount, now: u64)
    ensures
        final(account).welcome_sent,
        final(account).updated_at == now,
        final(account).id == old(account).id,
        final(account).email == old(account).email,
        final(account).linked_identities == old(account).linked_identities,
{
    account.welcome_sent = true;
    account.updated_at = now;
}

/// The local part of an address: everything before its first `@` (all of it without one).
pub fn email_local_part(email: &str) -> (r: String)
    ensures
        r@ == before_char(email@, '@'),
{
    let v = chars_vec(email);
    match find_char(&v, '@') {
        Some(k) => string_from_char_range(&v, 0, k),
        None => string_of(email),
    }
}

/// A returning sign-in at `now`: the account is kept as it is, only its `updated_at` moves.
pub fn touch_account(account: &mut PlayerAccount, now: u64)
    ensures
        *final(account) == (PlayerAccount { updated_at: now, ..*old(account) }),
{
    account.updated_at = now;
}

/// A verified email promoted onto a new or anonymous account at `now`: the email and the
/// newsletter choice of the pending code are recorded and the email identity linked.
pub fn complete_email_account(account: &mut PlayerAccount, clean_email: &str, newsletter_opt_in: bool, now: u64)
    ensures
        final(account).email matches Some(e) && e@ == clean_email@,
        final(account).newsletter_opt_in == newsletter_opt_in,
        has_link(final(account).linked_identities@, AuthProvider::Email, clean_email@),
        final(account).updated_at == now,
        final(account).id == old(account).id,
        final(account).display_name == old(account).display_name,
{
    account.email = Some(string_of(clean_email));
    account.newsletter_opt_in = newsletter_opt_in;
    account.link_identity_at(AuthProvider::Email, string_of(clean_email), now);
    account.updated_at = now;
}

/// The address shape accepted for a one-time code: an `@` and a `.`.
pub fn email_shape_ok(clean_email: &str) -> (b: bool)
    ensures
        b == (clean_email@.contains('@') && clean_email@.contains('.')),
{
    contains_char(clean_email, '@') && contains_char(clean_email, '.')
}

/// HTTP status that answers a refused code request: 403 for a ban, 429 otherwise.
pub fn otp_refusal_status(e: &WouError) -> (s: u16)
    ensures
        s == (if *e is EmailBanned { 403u16 } else { 429u16 }),
{
    match e {
        WouError::EmailBanned => 403,
        _ => 429,
    }
}

/// Seconds a refused client is told to wait: those of a throttle or penalty.
pub fn retry_after_seconds(e: &WouError) -> (r: Option<u64>)
    ensures
        r == match *e {
            WouError::OtpThrottled(s) => Some(s),
            WouError::OtpPenalized(s) => Some(s),
            _ => None::<u64>,
        },
{
    match e {
        WouError::OtpThrottled(s) => Some(*s),
        WouError::OtpPenalized(s) => Some(*s),
        _ => None,
    }
}

/// An operator alert, sent at most once per key.
pub struct AlertPlan {
    pub key: String,
    pub subject: String,
    pub body: String,
}

/// The alert a refused code request raises: a ban or a penalty alerts once per address
/// tag, with the tag and the error in the body; a throttle raises none.
pub fn otp_refusal_alert(e: &WouError, email: &str) -> (r: Option<AlertPlan>)
    ensures
        match *e {
            WouError::EmailBanned => r matches Some(a) && a.key@ == "ban:"@ + key_tag_spec(email@)
                && a.subject@ == "Email banned for OTP abuse"@ && a.body@ == "tag="@ + key_tag_spec(
                email@,
            ) + " error="@ + crate::error::error_message(*e),
            WouError::OtpPenalized(_) => r matches Some(a) && a.key@ == "penalty:"@ + key_tag_spec(
                email@,
            ) && a.subject@ == "Email penalized 24h for OTP abuse"@ && a.body@ == "tag="@
                + key_tag_spec(email@) + " error="@ + crate::error::error_message(*e),
            _ => r is None,
        },
{
    let is_ban = match e {
        WouError::EmailBanned => true,
        _ => false,
    };
    let is_penalty = match e {
        WouError::OtpPenalized(_) => true,
        _ => false,
    };
    if !is_ban && !is_penalty {
        return None;
    }
    let tag = log_tag(email);
    let msg = e.message();
    let mut body = concat3("tag=", tag.as_str(), " error=");
    body.append(msg.as_str());
    if is_ban {
        Some(AlertPlan { key: concat2("ban:", tag.as_str()), subject: string_of("Email banned for OTP abuse"), body })
    } else {
        Some(
            AlertPlan {
                key: concat2("penalty:", tag.as_str()),
                subject: string_of("Email penalized 24h for OTP abuse"),
                body,
            },
        )
    }
}

/// The alert an IP block raises, once per IP.
pub fn ip_block_alert(ip: &str, e: &WouError) -> (r: AlertPlan)
    ensures
        r.key@ == "ip:"@ + ip@,
        r.subject@ == "IP blocked for OTP abuse"@,
        r.body@ == "ip="@ + ip@ + " error="@ + crate::error::error_message(*e),
{
    let msg = e.message();
    let mut body = concat3("ip=", ip, " error=");
    body.append(msg.as_str());
    AlertPlan { key: concat2("ip:", ip), subject: string_of("IP blocked for OTP abuse"), body }
}

/// Global intake per minute above which the operators are alerted (never a block).
pub const OTP_SPIKE_PER_MINUTE: u64 = 100;

/// The spike alert for `count` requests in the last minute at `now`: once per hour, when
/// the count exceeds the threshold.
pub fn spike_alert(count: u64, now: u64) -> (r: Option<AlertPlan>)
    ensures
        count <= OTP_SPIKE_PER_MINUTE ==> r is None,
        count > OTP_SPIKE_PER_MINUTE ==> (r matches Some(a) && a.key@ == "spike:"@ + decimal_spec(
            (now / 3600) as nat,
        ) && a.subject@ == "OTP intake spike"@ && a.body@ == decimal_spec(count as nat)
            + " OTP requests in the last minute"@),
{
    if count <= OTP_SPIKE_PER_MINUTE {
        return None;
    }
    Some(
        AlertPlan {
            key: concat2("spike:", decimal_string(now / 3600).as_str()),
            subject: string_of("OTP intake spike"),
            body: concat2(decimal_string(count).as_str(), " OTP requests in the last minute"),
        },
    )
}

/// Provider of a wallet sign-in chain name (case-insensitive): Solana, Ethereum or
/// Internet Identity under their aliases.
pub open spec fn web3_provider_spec(lower: Seq<char>) -> Option<AuthProvider> {
    if lower == "solana"@ || lower == "sol"@ {
        Some(AuthProvider::Solana)
    } else if lower == "ethereum"@ || lower == "evm"@ || lower == "eth"@ {
        Some(AuthProvider::Ethereum)
    } else if lower == "icp"@ || lower == "internet_identity"@ || lower == "id_ai"@ {
        Some(AuthProvider::InternetIdentity)
    } else {
        None
    }
}

/// Provider of a wallet sign-in chain name; unknown chains are refused.
pub fn web3_provider(chain: &str) -> (r: Result<AuthProvider, WouError>)
    ensures
        match web3_provider_spec(lowercase_of(chain@)) {
            Some(p) => r == Ok::<AuthProvider, WouError>(p),
            None => r matches Err(WouError::ProviderVerificationFailed(m)) && m@
                == "Unsupported Web3 chain: "@ + lowercase_of(chain@),
        },
{
    proof {
        reveal_strlit("solana");
        reveal_strlit("sol");
        reveal_strlit("ethereum");
        reveal_strlit("evm");
        reveal_strlit("eth");
        reveal_strlit("icp");
        reveal_strlit("internet_identity");
        reveal_strlit("id_ai");
    }
    let l = to_lowercase(chain);
    let s = l.as_str();
    if str_eq(s, "solana") || str_eq(s, "sol") {
        Ok(AuthProvider::Solana)
    } else if str_eq(s, "ethereum") || str_eq(s, "evm") || str_eq(s, "eth") {
        Ok(AuthProvider::Ethereum)
    } else if str_eq(s, "icp") || str_eq(s, "internet_identity") || str_eq(s, "id_ai") {
        Ok(AuthProvider::InternetIdentity)
    } else {
        Err(WouError::ProviderVerificationFailed(concat2("Unsupported Web3 chain: ", s)))
    }
}

/// Key of a wallet challenge nonce: chain and address, both lower-cased.
pub fn web3_nonce_key(chain: &str, address: &str) -> (r: String)
    ensures
        r@ == "wou_web3_nonce:"@ + lowercase_of(chain@) + ":"@ + lowercase_of(address@),
{
    let mut r = concat3("wou_web3_nonce:", to_lowercase(chain).as_str(), ":");
    r.append(to_lowercase(address).as_str());
    r
}

/// Text a wallet signs to sign in.
pub fn web3_challenge_message(address: &str, nonce: &str, timestamp: u64) -> (r: String)
    ensures
        r@ == "Sign this message to authenticate with World of Unreal Identity Engine.\n\nAddress: "@
            + address@ + "\nNonce: "@ + nonce@ + "\nTimestamp: "@ + decimal_spec(timestamp as nat),
{
    let mut r = concat3(
        "Sign this message to authenticate with World of Unreal Identity Engine.\n\nAddress: ",
        address,
        "\nNonce: ",
    );
    r.append(nonce);
    r.append("\nTimestamp: ");
    r.append(decimal_string(timestamp).as_str());
    r
}

/// A signed message answers the stored challenge only if the challenge nonce was there
/// (single use) and the message contains it.
pub fn challenge_answered(stored_nonce: &Option<String>, message: &str) -> (b: bool)
    ensures
        b == (stored_nonce matches Some(n) && contains_seq(message@, n@)),
{
    match stored_nonce {
        Some(n) => contains_str(message, n.as_str()),
        None => false,
    }
}

} // verus!
