use wou_id::access::check_secret;
use wou_id::botlinks::new_link_code;
use wou_id::contact::{contact_challenge, contact_work_ok};
use wou_id::digest::{hex_decode, hex_encode, sha256_hex};
use wou_id::error::{asset_error_status, WouError};
use wou_id::feed::newest_first;
use wou_id::models::SocialActivity;
use wou_id::interactions::{
    approval_reply, deny_reply, discord_step, qr_button_data, link_refusal_text, linked_reply, login_match_reply,
    telegram_callback_step, telegram_message_step, ApprovalOutcome, BotStep, LinkRefusal,
};
use wou_id::models::{AuthProvider, GameContext};
use wou_id::oauth::discord_user_info;
use wou_id::qr::{start_qr_challenge, QR_SECRET_LEN};
use wou_id::text::strip_trailing;

#[test]
fn qr_start_draws_a_secret_that_opens_its_challenge() {
    let (ch, secret) = start_qr_challenge("qr-1".into(), GameContext::ShadowsOfWar, 1_700_000_000);
    assert_eq!(secret.chars().count(), QR_SECRET_LEN);
    assert!(secret.chars().all(|c| c.is_ascii_alphanumeric()));
    assert_eq!(ch.id, "qr-1");
    assert_eq!(ch.created_at, 1_700_000_000);
    assert!(ch.approved_account_id.is_none() && ch.session_token.is_none());
    assert!(check_secret(&ch, &secret));
    assert!(!check_secret(&ch, "not-the-secret"));
    let (_, other) = start_qr_challenge("qr-2".into(), GameContext::WorldOfUnreal, 0);
    assert_ne!(secret, other);
}

#[test]
fn link_codes_are_eight_upper_case_characters() {
    let code = new_link_code();
    assert_eq!(code.len(), 8);
    assert!(code.chars().all(|c| c.is_ascii_digit() || c.is_ascii_uppercase()));
    assert_ne!(code, new_link_code());
}

#[test]
fn asset_refusals_map_to_statuses() {
    assert_eq!(asset_error_status(&WouError::AssetNotFound("a".into())), 404);
    assert_eq!(asset_error_status(&WouError::NotAssetOwner), 403);
    assert_eq!(asset_error_status(&WouError::AssetFrozen("a".into())), 409);
    assert_eq!(asset_error_status(&WouError::SupplyExhausted("t".into())), 409);
    assert_eq!(asset_error_status(&WouError::CollectionExists("c".into())), 409);
    assert_eq!(asset_error_status(&WouError::TokenExists("t".into())), 409);
    assert_eq!(asset_error_status(&WouError::InsufficientBalance), 402);
    assert_eq!(asset_error_status(&WouError::DatabaseError("x".into())), 500);
}

#[test]
fn discord_accounts_take_cdn_avatars_and_global_names() {
    let u = discord_user_info("42".into(), "falcon".into(), Some("Falcon Prime".into()), Some("f@x.io".into()), Some("abc".into()));
    assert!(u.provider == AuthProvider::Discord);
    assert_eq!(u.external_id, "42");
    assert_eq!(u.display_name.as_deref(), Some("Falcon Prime"));
    assert_eq!(u.email.as_deref(), Some("f@x.io"));
    assert_eq!(u.avatar_url.as_deref(), Some("https://cdn.discordapp.com/avatars/42/abc.png"));
    let v = discord_user_info("7".into(), "owl".into(), None, None, None);
    assert_eq!(v.display_name.as_deref(), Some("owl"));
    assert!(v.avatar_url.is_none());
}

#[test]
fn base_urls_lose_trailing_slashes() {
    assert_eq!(strip_trailing("https://id.worldofunreal.com///", '/'), "https://id.worldofunreal.com");
    assert_eq!(strip_trailing("https://id.worldofunreal.com", '/'), "https://id.worldofunreal.com");
    assert_eq!(strip_trailing("///", '/'), "");
    assert_eq!(strip_trailing("", '/'), "");
}

fn said(step: BotStep) -> String {
    match step {
        BotStep::Say(t) => t.to_string(),
        _ => panic!("expected a fixed answer"),
    }
}

#[test]
fn telegram_buttons_and_messages() {
    assert!(matches!(telegram_callback_step("", "private", "qr:ok:abc"), BotStep::Ignore));
    assert!(matches!(telegram_callback_step("55", "private", "qr:ok:"), BotStep::Ignore));
    assert!(matches!(telegram_callback_step("55", "private", "hello"), BotStep::Ignore));
    assert_eq!(said(telegram_callback_step("55", "group", "qr:ok:abc")), "Use a private chat.");
    assert!(matches!(telegram_callback_step("55", "private", "qr:ok:abc"), BotStep::Approve(ref c) if c == "abc"));
    assert!(matches!(telegram_callback_step("55", "private", "qr:no:abc"), BotStep::Deny(ref c) if c == "abc"));
    assert!(matches!(telegram_message_step("55", "group", "/link X"), BotStep::Ignore));
    assert!(matches!(telegram_message_step("", "private", "/link X"), BotStep::Ignore));
    assert_eq!(said(telegram_message_step("55", "private", " /link ")), "Send /link YOURCODE from Hyper to connect this chat.");
    assert!(matches!(telegram_message_step("55", "private", "/link ab12cd34"), BotStep::Link(ref c) if c == "AB12CD34"));
}

#[test]
fn discord_interactions_route_by_kind() {
    assert!(matches!(discord_step(Some(1), "", "", false, ""), BotStep::Pong));
    assert_eq!(said(discord_step(Some(2), "", "abc", false, "")), "Unknown user.");
    assert!(matches!(discord_step(Some(2), "9", "abc", true, ""), BotStep::Link(ref c) if c == "ABC"));
    assert!(matches!(discord_step(Some(2), "9", "", false, ""), BotStep::MatchLogin));
    assert_eq!(said(discord_step(Some(2), "9", "", true, "")), "Give me a code: Hyper \u{2192} link Discord (DMs only without a code).");
    assert!(matches!(discord_step(Some(3), "9", "", true, "qr:ok:zz"), BotStep::Approve(ref c) if c == "zz"));
    assert!(matches!(discord_step(Some(3), "9", "", true, "qr:no:zz"), BotStep::Deny(ref c) if c == "zz"));
    assert_eq!(said(discord_step(Some(3), "9", "", true, "other")), "Unknown button.");
    assert_eq!(said(discord_step(Some(5), "9", "", true, "")), "?");
    assert_eq!(said(discord_step(None, "9", "", true, "")), "?");
}

#[test]
fn bot_answers() {
    assert_eq!(approval_reply(false, ApprovalOutcome::Approved), "Approved");
    assert_eq!(approval_reply(true, ApprovalOutcome::Approved), "Approved.");
    assert_eq!(approval_reply(false, ApprovalOutcome::Spent), "Already used or expired");
    assert_eq!(approval_reply(true, ApprovalOutcome::NotLinked), "This Discord is not linked. Use /link CODE first.");
    assert_eq!(approval_reply(false, ApprovalOutcome::NotLinked), "Chat not linked. Send /link CODE first.");
    assert_eq!(deny_reply(true), "Denied.");
    assert_eq!(deny_reply(false), "Denied");
    assert_eq!(linked_reply(false), "Chat linked. Hyper will now offer push approval here.");
    assert_eq!(login_match_reply(false), "Give me a code: Hyper \u{2192} link Discord.");
    assert_eq!(link_refusal_text(LinkRefusal::TooManyTries), "Too many attempts. Get a fresh code from Hyper.");
}

fn activity(id: &str, at: u64) -> SocialActivity {
    SocialActivity {
        id: id.into(),
        account_id: "acc".into(),
        username: "falcon".into(),
        display_name: "Falcon".into(),
        avatar_url: None,
        activity_type: "match".into(),
        title: "Won".into(),
        description: "".into(),
        game: GameContext::ShadowsOfWar,
        timestamp: at,
    }
}

#[test]
fn feed_is_newest_first_and_stable() {
    let feed = newest_first(vec![activity("a", 10), activity("b", 30), activity("c", 10), activity("d", 20)]);
    let ids: Vec<&str> = feed.iter().map(|a| a.id.as_str()).collect();
    assert_eq!(ids, vec!["b", "d", "a", "c"]);
    assert!(newest_first(vec![]).is_empty());
}

#[test]
fn button_payloads_read_back() {
    assert_eq!(qr_button_data(true, "ch-1"), "qr:ok:ch-1");
    assert_eq!(qr_button_data(false, "ch-1"), "qr:no:ch-1");
    assert!(matches!(telegram_callback_step("5", "private", &qr_button_data(true, "ch-1")), BotStep::Approve(ref c) if c == "ch-1"));
    assert!(matches!(discord_step(Some(3), "9", "", false, &qr_button_data(false, "ch-1")), BotStep::Deny(ref c) if c == "ch-1"));
}

#[test]
fn hex_reads_back_what_it_wrote() {
    let bytes = vec![0u8, 1, 0x0f, 0xab, 0xff];
    assert_eq!(hex_encode(&bytes), "00010fabff");
    assert_eq!(hex_decode(&hex_encode(&bytes)).unwrap(), bytes);
    assert!(hex_decode("0g").is_err());
}

#[test]
fn contact_record_reads_back() {
    let (ch, record) = contact_challenge("id-1".into(), "abc123".into(), 0);
    assert_eq!(ch.difficulty, 8);
    assert_eq!(record, "abc123:8");
    let mut counter = 0u64;
    while !sha256_hex(format!("abc123:{counter}").as_bytes()).starts_with("00") {
        counter += 1;
    }
    assert_eq!(contact_work_ok(&record, counter), Some(true));
    assert_eq!(contact_work_ok("no-colon", counter), None);
}
