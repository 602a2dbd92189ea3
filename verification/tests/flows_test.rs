use wou_id::access::{
    authorized, bot_provider, link_command_code, link_try_key, media_is_banner, parse_qr_action,
    provider_from_wire, session_token_of, upload_extension, upload_file_name,
};
use wou_id::clans::{validate_clan, ClanBook};
use wou_id::contact::{check_contact, contact_challenge_record, contact_difficulty, contact_work_ok, ContactCheck};
use wou_id::error::WouError;
use wou_id::flows::{
    accounts_conflict, attach_provider, challenge_answered, complete_email_account,
    complete_provider_account, email_local_part, otp_refusal_alert, otp_refusal_status,
    refresh_linked_account, retry_after_seconds, sign_in_target, spike_alert, touch_account, web3_challenge_message,
    web3_nonce_key, web3_provider, welcome_due, MergeRefusal, SignInTarget,
};
use wou_id::interactions::telegram_secret_ok;
use wou_id::models::{AuthProvider, Clan, ClanMember, ClanRole, EmbeddedWallets, PlayerAccount};
use wou_id::oauth::{check_oauth_state, oauth_provider, plan_oauth_login, OAuthRefusal, OAuthStateRecord};
use wou_id::players::{
    account_index_keys, clean_handle, identity_index_key, is_username_available, search_players,
};

fn wallets() -> EmbeddedWallets {
    EmbeddedWallets {
        evm_address: "0x111".into(),
        solana_address: "Sol111".into(),
        icp_principal: "icp111".into(),
        bitcoin_address: "bc1111".into(),
    }
}

fn account(id: &str, user: &str, name: &str) -> PlayerAccount {
    PlayerAccount::new_with_wallets(id.to_string(), Some(user.to_string()), Some(name.to_string()), wallets())
}

#[test]
fn oauth_login_plan_rules() {
    let hub = "https://worldofunreal.com/auth/callback".to_string();
    let p = plan_oauth_login(&AuthProvider::Google, None, None, Some("st".into()), None, None).unwrap();
    assert_eq!(p.redirect_uri, hub);
    assert_eq!(p.state, "st");
    assert!(matches!(
        plan_oauth_login(&AuthProvider::Google, Some("https://evil.com".into()), None, Some("st".into()), None, None),
        Err(OAuthRefusal::UnsupportedRedirect)
    ));
    assert!(matches!(
        plan_oauth_login(&AuthProvider::Google, None, None, Some("  ".into()), None, None),
        Err(OAuthRefusal::StateRequired)
    ));
    assert!(matches!(
        plan_oauth_login(&AuthProvider::Twitter, None, None, Some("st".into()), Some("ch".into()), Some("plain".into())),
        Err(OAuthRefusal::PkceRequired)
    ));
    let x = plan_oauth_login(&AuthProvider::Twitter, None, Some(hub.clone()), Some("st".into()), Some("ch".into()), Some("S256".into())).unwrap();
    assert_eq!(x.code_challenge.as_deref(), Some("ch"));
    let g = plan_oauth_login(&AuthProvider::Google, None, None, Some("st".into()), Some(" ".into()), None).unwrap();
    assert!(g.code_challenge.is_none());
}

#[test]
fn oauth_provider_names() {
    assert_eq!(oauth_provider("X").unwrap(), AuthProvider::Twitter);
    assert_eq!(oauth_provider("Facebook").unwrap(), AuthProvider::Meta);
    match oauth_provider("myspace") {
        Err(WouError::ProviderVerificationFailed(m)) => assert_eq!(m, "Unsupported OAuth provider: myspace"),
        other => panic!("unexpected {:?}", other),
    }
}

#[test]
fn oauth_state_record_checks() {
    let rec = OAuthStateRecord {
        provider: "google".into(),
        redirect_uri: "https://worldofunreal.com/auth/callback".into(),
        code_challenge: Some("c".into()),
    };
    assert!(matches!(
        check_oauth_state(&rec, &AuthProvider::Discord, "https://worldofunreal.com/auth/callback", &Some("v".into())),
        Err(OAuthRefusal::StateMismatch)
    ));
    assert!(matches!(
        check_oauth_state(&rec, &AuthProvider::Google, "https://worldofunreal.com/auth/callback", &None),
        Err(OAuthRefusal::VerifierRequired)
    ));
    assert!(check_oauth_state(&rec, &AuthProvider::Google, "https://worldofunreal.com/auth/callback", &Some("v".into())).is_ok());
}

#[test]
fn merge_rules_for_social_sign_in() {
    let a = Some(account("a", "alpha", "Alpha"));
    let b = Some(account("b", "beta", "Beta"));
    assert!(accounts_conflict(&a, &b));
    assert!(!accounts_conflict(&a, &a.clone()));
    assert!(!accounts_conflict(&a, &None));

    let mut acc = account("a", "alpha", "Commander_Alpha");
    acc.email = Some("Me+x@Mail.com".into());
    let before = acc.clone();
    assert!(matches!(
        refresh_linked_account(&mut acc, &Some("other@mail.com".into()), &None, 5),
        Err(MergeRefusal::EmailConflict)
    ));
    assert_eq!(acc, before);
    refresh_linked_account(&mut acc, &Some("me@mail.com".into()), &Some("pic".into()), 7).unwrap();
    assert_eq!(acc.email.as_deref(), Some("me@mail.com"));
    assert_eq!(acc.profile.avatar_url.as_deref(), Some("pic"));
    assert_eq!(acc.updated_at, 7);

    attach_provider(&mut acc, AuthProvider::Discord, "d1".into(), &None, &Some("Real Name".into()), 8);
    assert_eq!(acc.display_name, "Real Name");
    assert!(acc.has_link(&AuthProvider::Discord, "d1"));

    let mut fresh = account("n", "nu", "Nu");
    complete_provider_account(&mut fresh, Some("n@x.io".into()), &None, &Some("New".into()), AuthProvider::Google, "g".into(), 9).unwrap();
    assert_eq!(fresh.display_name, "Nu");
    assert_eq!(fresh.email.as_deref(), Some("n@x.io"));
    assert!(welcome_due(true, &fresh));
    assert!(!welcome_due(false, &fresh));
}

#[test]
fn email_promotion() {
    let mut acc = account("z", "zed", "Zed");
    complete_email_account(&mut acc, "zed@x.io", true, 11);
    assert!(acc.newsletter_opt_in);
    assert!(acc.has_link(&AuthProvider::Email, "zed@x.io"));
    assert_eq!(email_local_part("zed@x.io"), "zed");
    assert_eq!(email_local_part("nobody"), "nobody");
}

#[test]
fn otp_refusal_answers() {
    assert_eq!(otp_refusal_status(&WouError::EmailBanned), 403);
    assert_eq!(otp_refusal_status(&WouError::OtpThrottled(3)), 429);
    assert_eq!(retry_after_seconds(&WouError::OtpPenalized(86400)), Some(86400));
    assert_eq!(retry_after_seconds(&WouError::EmailBanned), None);
    let a = otp_refusal_alert(&WouError::EmailBanned, "x@y.z").unwrap();
    assert!(a.key.starts_with("ban:"));
    assert!(otp_refusal_alert(&WouError::OtpThrottled(1), "x@y.z").is_none());
    assert!(spike_alert(100, 7200).is_none());
    let s = spike_alert(101, 7200).unwrap();
    assert_eq!(s.key, "spike:2");
    assert_eq!(s.body, "101 OTP requests in the last minute");
}

#[test]
fn wallet_sign_in_helpers() {
    assert_eq!(web3_provider("SOL").unwrap(), AuthProvider::Solana);
    assert_eq!(web3_provider("evm").unwrap(), AuthProvider::Ethereum);
    assert_eq!(web3_provider("id_ai").unwrap(), AuthProvider::InternetIdentity);
    assert!(web3_provider("doge").is_err());
    assert_eq!(web3_nonce_key("Solana", "ABC"), "wou_web3_nonce:solana:abc");
    let m = web3_challenge_message("addr", "n1", 5);
    assert!(m.ends_with("Address: addr\nNonce: n1\nTimestamp: 5"));
    assert!(challenge_answered(&Some("n1".into()), &m));
    assert!(!challenge_answered(&None, &m));
    assert!(!challenge_answered(&Some("n2".into()), &m));
}

#[test]
fn contact_form_checks() {
    assert!(matches!(check_contact("a", "a@b.c", "m", "http://spam"), ContactCheck::Honeypot));
    match check_contact(" <Bob> ", "Bob+x@Mail.COM", " hi <there> ", "") {
        ContactCheck::Accepted { name, email, message } => {
            assert_eq!(name, "Bob");
            assert_eq!(email, "bob@mail.com");
            assert_eq!(message, "hi there");
        }
        _ => panic!("expected accepted"),
    }
    assert!(matches!(check_contact("<>", "a@b.c", "m", ""), ContactCheck::Rejected(_)));
    assert!(matches!(check_contact("n", "nope", "m", ""), ContactCheck::Rejected(_)));
    assert!(matches!(check_contact("n", "a@b.c", &"x".repeat(2001), ""), ContactCheck::Rejected(_)));
    assert_eq!(contact_difficulty(3), 8);
    assert_eq!(contact_difficulty(40), 28);
    assert_eq!(contact_challenge_record("abc", 18), "abc:18");
    assert_eq!(contact_work_ok("nocolon", 1), None);
    assert_eq!(contact_work_ok("n:0", 1), Some(true));
}

#[test]
fn test_clan_lifecycle_and_search() {
    let p1 = account("user_101", "falcon382", "Falcon 382");
    let p2 = account("user_102", "panther901", "Panther 901");
    let accounts = vec![p1.clone(), p2.clone()];
    let r = search_players(&accounts, "falcon", 10);
    assert_eq!(r.len(), 1);
    assert_eq!(r[0].id, "user_101");
    let r = search_players(&accounts, "@901", 10);
    assert_eq!(r.len(), 1);
    assert_eq!(r[0].username, "panther901");
    assert!(search_players(&accounts, "   ", 10).is_empty());

    let (tag, name) = validate_clan("sow", "Shadows Vanguard").unwrap_or_else(|_| panic!("valid"));
    assert_eq!(tag, "SOW");
    let clan = Clan {
        tag: tag.clone(),
        name,
        description: "Official Shadows of War Competitive Guild".into(),
        leader_id: "user_101".into(),
        leader_username: "falcon382".into(),
        avatar_url: None,
        banner_url: None,
        member_count: 1,
        created_at: 1787400000,
    };
    let leader = ClanMember {
        account_id: "user_101".into(),
        username: "falcon382".into(),
        display_name: "Falcon 382".into(),
        avatar_url: None,
        animal_emoji: None,
        role: ClanRole::Leader,
        joined_at: 1787400000,
    };
    let mut book = ClanBook::new();
    book.create_clan(clan.clone(), leader.clone()).unwrap();
    assert!(book.create_clan(clan, leader).is_err());
    assert_eq!(book.get_clan(" sow ").unwrap().member_count, 1);
    let m2 = ClanMember {
        account_id: "user_102".into(),
        username: "panther901".into(),
        display_name: "Panther 901".into(),
        avatar_url: None,
        animal_emoji: None,
        role: ClanRole::Member,
        joined_at: 1787400100,
    };
    book.join_clan("SOW", m2).unwrap();
    assert_eq!(book.get_clan("SOW").unwrap().member_count, 2);
    assert_eq!(book.get_clan_members("sow").len(), 2);
    book.leave_clan("SOW", "user_102");
    assert_eq!(book.get_clan("SOW").unwrap().member_count, 1);
    assert_eq!(book.get_clan_members("SOW").len(), 1);
    book.leave_clan("SOW", "user_999");
    assert_eq!(book.get_clan("SOW").unwrap().member_count, 1);
    assert_eq!(book.get_clan_members("SOW").len(), 1);
    book.leave_clan("SOW", "user_101");
    assert!(book.get_clan("SOW").is_none());
    assert!(book.join_clan("SOW", ClanMember {
        account_id: "x".into(),
        username: "x".into(),
        display_name: "x".into(),
        avatar_url: None,
        animal_emoji: None,
        role: ClanRole::Member,
        joined_at: 0,
    }).is_err());
}

#[test]
fn clan_validation() {
    assert!(validate_clan("x", "Name").is_err());
    assert!(validate_clan("TOOLONG", "Name").is_err());
    assert!(validate_clan("a-b", "Name").is_err());
    assert!(validate_clan("ok1", "ab").is_err());
    assert!(validate_clan("ok1", "abc").is_ok());
}

#[test]
fn handles_and_index_keys() {
    assert_eq!(clean_handle("  @@Hero_1 "), "hero_1");
    assert!(is_username_available("@new_name", "me", None));
    assert!(is_username_available("mine", "me", Some("me")));
    assert!(!is_username_available("mine", "me", Some("you")));
    assert!(!is_username_available("ab", "me", None));
    assert!(!is_username_available("bad-name", "me", None));
    assert!(!is_username_available(&"a".repeat(25), "me", None));
    assert_eq!(identity_index_key(&AuthProvider::Google, "ABC"), "google:abc");
    let mut acc = account("k", "kay", "Kay");
    acc.email = Some("K@X.io".into());
    acc.link_identity(AuthProvider::Discord, "D1".into());
    assert_eq!(account_index_keys(&acc), vec!["email:k@x.io".to_string(), "discord:d1".to_string()]);
}

#[test]
fn bot_and_upload_helpers() {
    let (ok, ch) = parse_qr_action("qr:ok:abc").unwrap();
    assert!(ok);
    assert_eq!(ch, "abc");
    let (ok, ch) = parse_qr_action("qr:no:z").unwrap();
    assert!(!ok);
    assert_eq!(ch, "z");
    assert!(parse_qr_action("other").is_none());
    assert_eq!(link_command_code("  /link  abc12 "), "ABC12");
    assert_eq!(link_try_key(" ab "), "wou_link_try:AB");
    assert_eq!(bot_provider("tg").as_str(), "telegram");
    assert_eq!(bot_provider("dc"), AuthProvider::Discord);
    assert!(media_is_banner(" Banner "));
    assert!(!media_is_banner("../etc"));
    assert_eq!(upload_extension("image/png"), "png");
    assert_eq!(upload_extension("image/jpeg"), "jpg");
    assert_eq!(upload_extension("image/gif"), "webp");
    assert_eq!(upload_file_name("acc", "avatar", 12, "png"), "acc_avatar_12.png");
    assert_eq!(session_token_of("Bearer  tok "), "tok");
    assert_eq!(session_token_of("tok2"), "tok2");
    assert!(authorized(Some("Bearer s3"), Some("s3")));
    assert!(!authorized(Some("bearer s3"), Some("s3")));
    assert!(!authorized(Some("Bearer s3"), None));
    assert_eq!(provider_from_wire(" steam "), Some(AuthProvider::Custom("steam".into())));
    assert_eq!(provider_from_wire("poki"), Some(AuthProvider::Poki));
    assert_eq!(provider_from_wire("nope"), None);
}

#[test]
fn returning_sign_in_only_moves_updated_at() {
    let mut a = account("acc-9", "hero", "Hero");
    a.email = Some("h@x.io".into());
    let before = a.clone();
    touch_account(&mut a, 1787409999);
    assert_eq!(a.updated_at, 1787409999);
    a.updated_at = before.updated_at;
    assert_eq!(a, before);
}

#[test]
fn telegram_webhook_secret() {
    assert!(telegram_secret_ok("s3cret", "s3cret"));
    assert!(!telegram_secret_ok("s3cret", "s3cret "));
    assert!(!telegram_secret_ok("", ""));
}

#[test]
fn sign_in_target_prefers_linked_then_email() {
    let a = account("acc-a", "alpha", "Alpha");
    let b = account("acc-b", "beta", "Beta");
    assert!(sign_in_target(Some(a.clone()), Some(b.clone())).is_none());
    assert!(matches!(sign_in_target(Some(a.clone()), Some(a.clone())), Some(SignInTarget::Linked(x)) if x.id == "acc-a"));
    assert!(matches!(sign_in_target(None, Some(b)), Some(SignInTarget::EmailMatch(x)) if x.id == "acc-b"));
    assert!(matches!(sign_in_target(None, None), Some(SignInTarget::Fresh)));
}
