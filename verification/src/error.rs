use vstd::prelude::*;
use crate::text::{concat2, concat3, decimal_spec, decimal_string, string_of};

verus! {

/// Errors surfaced by the identity engine.
#[derive(Debug)]
pub enum WouError {
    AccountNotFound(String),
    EmailAlreadyLinked(String),
    InvalidOrExpiredOtp,
    RateLimitExceeded(u64),
    InvalidEmail(String),
    InvalidSignature(String, String),
    ProviderVerificationFailed(String),
    DatabaseError(String),
    MailError(String),
    Unauthorized(String),
    Internal(String),
    /// Too many OTP requests in the short window; seconds until the window resets.
    OtpThrottled(u64),
    /// Abuse threshold crossed: email locked for the given number of seconds.
    OtpPenalized(u64),
    /// Email banned after reoffending during a penalty.
    EmailBanned,
    /// Client IP exceeded its intake ceilings.
    IpBlocked,
    CollectionExists(String),
    TokenExists(String),
    AssetNotFound(String),
    SupplyExhausted(String),
    NotAssetOwner,
    AssetFrozen(String),
    ListingNotOpen(String),
    InsufficientBalance,
}

/// Failure modes of an atomic card-for-card trade settlement.
#[derive(Debug)]
pub enum SettleTradeError {
    NotOpen,
    OwnershipChanged,
    Db(WouError),
}

} // verus!

verus! {

/// Human-readable text of an error.
pub open spec fn error_message(e: WouError) -> Seq<char> {
    match e {
        WouError::AccountNotFound(s) => "Account not found: "@ + s@,
        WouError::EmailAlreadyLinked(s) => "Email already linked to another account: "@ + s@,
        WouError::InvalidOrExpiredOtp => "Invalid or expired OTP code"@,
        WouError::RateLimitExceeded(n) => "Rate limit exceeded: please wait "@ + decimal_spec(n as nat)
            + " seconds before requesting a new code"@,
        WouError::InvalidEmail(s) => "Invalid email address: "@ + s@,
        WouError::InvalidSignature(p, m) => "Invalid signature for provider "@ + p@ + ": "@ + m@,
        WouError::ProviderVerificationFailed(s) => "Provider verification failed: "@ + s@,
        WouError::DatabaseError(s) => "Database error: "@ + s@,
        WouError::MailError(s) => "Mail dispatch error: "@ + s@,
        WouError::Unauthorized(s) => "Unauthorized: "@ + s@,
        WouError::Internal(s) => "Internal server error: "@ + s@,
        WouError::OtpThrottled(n) => "Too many code requests: retry in "@ + decimal_spec(n as nat)
            + " seconds"@,
        WouError::OtpPenalized(n) => "Too many code requests: email locked for "@ + decimal_spec(
            n as nat,
        ) + " seconds"@,
        WouError::EmailBanned => "Email banned for abuse"@,
        WouError::IpBlocked => "Too many requests from this network"@,
        WouError::CollectionExists(s) => "Collection already exists: "@ + s@,
        WouError::TokenExists(s) => "Token already exists: "@ + s@,
        WouError::AssetNotFound(s) => "Asset not found: "@ + s@,
        WouError::SupplyExhausted(s) => "Supply exhausted: "@ + s@,
        WouError::NotAssetOwner => "Not the asset owner"@,
        WouError::AssetFrozen(s) => "Asset is frozen: "@ + s@,
        WouError::ListingNotOpen(s) => "Listing not open: "@ + s@,
        WouError::InsufficientBalance => "Insufficient SPIRAL balance"@,
    }
}

impl WouError {
    /// Human-readable text of the error (see `error_message`).
    pub fn message(&self) -> (r: String)
        ensures
            r@ == error_message(*self),
    {
        match self {
            WouError::AccountNotFound(s) => concat2("Account not found: ", s.as_str()),
            WouError::EmailAlreadyLinked(s) => concat2("Email already linked to another account: ", s.as_str()),
            WouError::InvalidOrExpiredOtp => string_of("Invalid or expired OTP code"),
            WouError::RateLimitExceeded(n) => concat3(
                "Rate limit exceeded: please wait ",
                decimal_string(*n).as_str(),
                " seconds before requesting a new code",
            ),
            WouError::InvalidEmail(s) => concat2("Invalid email address: ", s.as_str()),
            WouError::InvalidSignature(p, m) => {
                let mut r = concat3("Invalid signature for provider ", p.as_str(), ": ");
                r.append(m.as_str());
                r
            },
            WouError::ProviderVerificationFailed(s) => concat2("Provider verification failed: ", s.as_str()),
            WouError::DatabaseError(s) => concat2("Database error: ", s.as_str()),
            WouError::MailError(s) => concat2("Mail dispatch error: ", s.as_str()),
            WouError::Unauthorized(s) => concat2("Unauthorized: ", s.as_str()),
            WouError::Internal(s) => concat2("Internal server error: ", s.as_str()),
            WouError::OtpThrottled(n) => concat3(
                "Too many code requests: retry in ",
                decimal_string(*n).as_str(),
                " seconds",
            ),
            WouError::OtpPenalized(n) => concat3(
                "Too many code requests: email locked for ",
                decimal_string(*n).as_str(),
                " seconds",
            ),
            WouError::EmailBanned => string_of("Email banned for abuse"),
            WouError::IpBlocked => string_of("Too many requests from this network"),
            WouError::CollectionExists(s) => concat2("Collection already exists: ", s.as_str()),
            WouError::TokenExists(s) => concat2("Token already exists: ", s.as_str()),
            WouError::AssetNotFound(s) => concat2("Asset not found: ", s.as_str()),
            WouError::SupplyExhausted(s) => concat2("Supply exhausted: ", s.as_str()),
            WouError::NotAssetOwner => string_of("Not the asset owner"),
            WouError::AssetFrozen(s) => concat2("Asset is frozen: ", s.as_str()),
            WouError::ListingNotOpen(s) => concat2("Listing not open: ", s.as_str()),
            WouError::InsufficientBalance => string_of("Insufficient SPIRAL balance"),
        }
    }
}

/// HTTP status of an asset ledger refusal: 404 for a missing asset, 403 for a caller that
/// does not own it, 409 for a frozen asset, an exhausted supply or an id already taken, 402
/// for a short balance, 500 otherwise.
pub fn asset_error_status(e: &WouError) -> (s: u16)
    ensures
        s == match *e {
            WouError::AssetNotFound(_) => 404u16,
            WouError::NotAssetOwner => 403u16,
            WouError::AssetFrozen(_) | WouError::SupplyExhausted(_) => 409u16,
            WouError::CollectionExists(_) | WouError::TokenExists(_) => 409u16,
            WouError::InsufficientBalance => 402u16,
            _ => 500u16,
        },
{
    match e {
        WouError::AssetNotFound(_) => 404,
        WouError::NotAssetOwner => 403,
        WouError::AssetFrozen(_) | WouError::SupplyExhausted(_) => 409,
        WouError::CollectionExists(_) | WouError::TokenExists(_) => 409,
        WouError::InsufficientBalance => 402,
        _ => 500,
    }
}

} // verus!
