use wou_id::access::{auth_session, bearer_session_token, hex_string, real_ip_text, v6_bucket, SessionRefusal};
use wou_id::assets::{Collection, TokenMetadata, TokenType};
use wou_id::botlinks::{discord_chat_ids, forget_link, linked_response, unlink_allowed, unlink_namespace_ok};
use wou_id::clans::{found_clan, ClanBook, ClanRefusal, CreateClanPayload, ListClansQuery};
use wou_id::contact::{contact_challenge, contact_challenge_key, contact_notice, contact_slot_key};
use wou_id::error::WouError;
use wou_id::ledger::{is_producer, AssetBook, CreateCollectionPayload, SeedFailure};
use wou_id::mailer::{from_header, game_from_header, StalwartMailerConfig};
use wou_id::models::{AuthProvider, ClanRole, EmbeddedWallets, GameContext, PlayerAccount, QrChallenge, SessionClaims};
use wou_id::oauth::{
    adopted_account, client_id_var, client_secret_var, oauth_callback_config, plan_oauth_callback, OAuthCallbackPayload, OAuthLoginQuery, OAuthRefusal,
    OAuthUserInfo,
};
use wou_id::players::{
    activity_from_payload, activity_from_request, followed_in_edge, follower_in_edge, activity_request_valid, apply_profile_edit,
    check_username, follow_response, CheckUsernameQuery, ProfileRefusal, RecordActivityPayload,
    RecordActivityRequest, SearchPlayersQuery, UpdateProfilePayload,
};
use wou_id::qr::{
    approve_qr, first_n, new_qr_challenge, qr_delivery, qr_requester, qr_start_rate_key,
    qr_start_response, qr_status_response, QrRequester, QrStartPayload,
};
use wou_id::requests::{
    anonymous_decision, newsletter_response, otp_sent, pending_otp, service_identity_account,
    set_newsletter, wallet_signature_valid, web3_challenge, web3_login_provider,
    web3_signature_outcome, AnonymousDecision, AnonymousRequest, OtpRequestPayload,
    ResetHumanAccountsRequest, ResolveIdentityRequest, ResolveRefusal, Web3ChallengeRequest,
    Web3Refusal,
};
use wou_id::trades::{
    accept_trade, cancel_trade, collect_size_ok, first_unowned, open_trade, open_trade_with, open_trades,
    TradeCreatePayload, TradeOffer, TradeRefusal,
};

fn wallets() -> EmbeddedWallets {
    EmbeddedWallets {
        evm_address: String::new(),
        solana_address: String::new(),
        icp_principal: String::new(),
        bitcoin_address: String::new(),
    }
}

fn account(id: &str, user: &str, name: &str) -> PlayerAccount {
    PlayerAccount::new_with_wallets(id.to_string(), Some(user.to_string()), Some(name.to_string()), wallets())
}

fn strings(v: &[&str]) -> Vec<String> {
    v.iter().map(|s| s.to_string()).collect()
}

fn trade(from: &str, to: Option<&str>, offered: &[&str], requested: &[&str]) -> TradeOffer {
    open_trade_with(
        from.to_string(),
        TradeCreatePayload {
            offered: strings(offered),
            requested: strings(requested),
            to_account_id: to.map(|s| s.to_string()),
        },
        &strings(offered),
        "t-1".to_string(),
        1000,
    )
    .ok()
    .unwrap()
}

#[test]
fn trade_open_rules() {
    let inv = strings(&["a", "b"]);
    let empty = open_trade_with(
        "alice".into(),
        TradeCreatePayload { offered: vec![], requested: strings(&["x"]), to_account_id: None },
        &inv,
        "id".into(),
        5,
    );
    assert!(matches!(empty, Err(TradeRefusal::EmptySides)));
    let missing = open_trade_with(
        "alice".into(),
        TradeCreatePayload { offered: strings(&["a", "zz", "yy"]), requested: strings(&["x"]), to_account_id: None },
        &inv,
        "id".into(),
        5,
    );
    assert!(matches!(missing, Err(TradeRefusal::NotOwned(ref c)) if c == "zz"));
    let ok = open_trade_with(
        "alice".into(),
        TradeCreatePayload { offered: strings(&["b"]), requested: strings(&["x"]), to_account_id: Some("bob".into()) },
        &inv,
        "id-9".into(),
        77,
    )
    .ok()
    .unwrap();
    assert_eq!(ok.id, "id-9");
    assert_eq!(ok.status, "open");
    assert_eq!(ok.created_at, 77);
    assert_eq!(ok.to_account.as_deref(), Some("bob"));
    assert_eq!(first_unowned(&inv, &strings(&["b", "q"])), Some(1));
    assert_eq!(first_unowned(&inv, &strings(&["b", "a"])), None);
}

#[test]
fn trade_open_draws_url_safe_id() {
    let t = open_trade(
        "alice".into(),
        TradeCreatePayload { offered: strings(&["a"]), requested: strings(&["b"]), to_account_id: None },
        &strings(&["a"]),
    )
    .ok()
    .unwrap();
    assert_eq!(t.id.chars().count(), 12);
    assert!(t.id.chars().all(|c| c.is_ascii_alphanumeric() || c == '_' || c == '-'));
    assert_eq!(t.status, "open");
}

#[test]
fn trade_accept_swaps_cards() {
    let t = trade("alice", None, &["a"], &["x"]);
    let s = accept_trade(t, "bob", &strings(&["x", "y"]), &strings(&["a", "b"])).ok().unwrap();
    assert_eq!(s.trade.status, "accepted");
    assert_eq!(s.offerer_inventory, strings(&["b", "x"]));
    assert_eq!(s.acceptor_inventory, strings(&["a", "y"]));
}

#[test]
fn trade_accept_refusals_in_order() {
    let mut closed = trade("alice", None, &["a"], &["x"]);
    closed.status = "cancelled".into();
    assert!(matches!(accept_trade(closed, "bob", &[], &[]), Err(TradeRefusal::NotOpen)));
    let addressed = trade("alice", Some("carol"), &["a"], &["x"]);
    assert!(matches!(accept_trade(addressed, "bob", &[], &[]), Err(TradeRefusal::NotAddressed)));
    assert_eq!(TradeRefusal::NotAddressed.status(), 403);
    let own = trade("alice", None, &["a"], &["x"]);
    assert!(matches!(accept_trade(own, "alice", &[], &[]), Err(TradeRefusal::OwnTrade)));
    let lacks = trade("alice", None, &["a"], &["x", "w"]);
    let r = accept_trade(lacks, "bob", &strings(&["x"]), &strings(&["a"]));
    assert!(matches!(r, Err(TradeRefusal::AcceptorLacks(ref c)) if c == "w"));
    let gone = trade("alice", None, &["a"], &["x"]);
    let r = accept_trade(gone, "bob", &strings(&["x"]), &strings(&[]));
    assert!(matches!(r, Err(TradeRefusal::OffererLacks(ref c)) if c == "a"));
}

#[test]
fn trade_cancel_only_by_offerer() {
    let t = trade("alice", None, &["a"], &["x"]);
    assert!(matches!(cancel_trade(t, "bob"), Err(TradeRefusal::NotOfferer)));
    let t = trade("alice", None, &["a"], &["x"]);
    let c = cancel_trade(t, "alice").ok().unwrap();
    assert_eq!(c.status, "cancelled");
    assert!(matches!(accept_trade(c, "bob", &strings(&["x"]), &strings(&["a"])), Err(TradeRefusal::NotOpen)));
    assert!(collect_size_ok(1) && collect_size_ok(50));
    assert!(!collect_size_ok(0) && !collect_size_ok(51));
}

#[test]
fn clan_founding_listing_and_details() {
    let leader = account("acc-1", "neo", "Neo");
    let (clan, member) = found_clan(
        &leader,
        CreateClanPayload { tag: " sow ".into(), name: " Shadows ".into(), description: Some("  elite ".into()) },
        42,
    )
    .ok()
    .unwrap();
    assert_eq!(clan.tag, "SOW");
    assert_eq!(clan.name, "Shadows");
    assert_eq!(clan.description, "elite");
    assert_eq!(clan.member_count, 1);
    assert_eq!(member.role, ClanRole::Leader);
    assert!(matches!(
        found_clan(&leader, CreateClanPayload { tag: "S".into(), name: "Name".into(), description: None }, 1),
        Err(ClanRefusal::BadTag)
    ));
    let mut book = ClanBook::new();
    book.create_clan(clan, member).unwrap();
    let (c2, m2) = found_clan(&leader, CreateClanPayload { tag: "VOID".into(), name: "Void".into(), description: None }, 43)
        .ok()
        .unwrap();
    assert_eq!(c2.description, "");
    book.create_clan(c2, m2).unwrap();
    let joiner = account("acc-2", "tri", "Trinity");
    book.join_clan("void", wou_id::clans::member_from_account(&joiner, ClanRole::Member, 44)).unwrap();
    let listed = book.list_clans(10);
    assert_eq!(listed.iter().map(|c| c.tag.as_str()).collect::<Vec<_>>(), vec!["VOID", "SOW"]);
    assert_eq!(book.list_clans(1).len(), 1);
    assert_eq!(book.list_clans(1)[0].tag, "SOW");
    let d = book.clan_details(" void ").unwrap();
    assert_eq!(d.clan.member_count, 2);
    assert_eq!(d.members.len(), 2);
    assert!(book.clan_details("nope").is_none());
    assert_eq!(ListClansQuery { limit: 500 }.capped_limit(), 50);
    assert_eq!(ListClansQuery { limit: 7 }.capped_limit(), 7);
}

fn token(id: &str, supply: u64) -> TokenType {
    TokenType {
        id: id.to_string(),
        collection: "ignored".to_string(),
        metadata: TokenMetadata {
            name: id.to_string(),
            description: String::new(),
            image: String::new(),
            attributes: vec![],
            collection: "ignored".to_string(),
        },
        max_supply: supply,
        minted: 0,
        created_at: 0,
    }
}

fn seed_payload(id: &str, tokens: Vec<TokenType>) -> CreateCollectionPayload {
    CreateCollectionPayload {
        id: id.to_string(),
        name: "Genesis".to_string(),
        symbol: "GEN".to_string(),
        description: String::new(),
        image: String::new(),
        tokens,
    }
}

#[test]
fn seeding_a_collection() {
    let mut book = AssetBook::new();
    assert!(matches!(book.seed_collection_at(seed_payload("  ", vec![token("a", 1)]), 9), Err(SeedFailure::IdAndTokensRequired)));
    assert!(matches!(book.seed_collection_at(seed_payload("gen", vec![]), 9), Err(SeedFailure::IdAndTokensRequired)));
    assert_eq!(book.collections.len(), 0);
    let sc = book
        .seed_collection_at(seed_payload(" gen ", vec![token("a", 1), token("b", 2)]), 9)
        .ok()
        .unwrap();
    assert_eq!(sc.collection.id, "gen");
    assert_eq!(sc.collection.created_at, 9);
    assert_eq!(sc.tokens, 2);
    assert_eq!(book.tokens.len(), 2);
    assert!(book.tokens.iter().all(|t| t.collection == "gen" && t.created_at == 9));
    assert!(matches!(
        book.seed_collection_at(seed_payload("gen", vec![token("c", 1)]), 9),
        Err(SeedFailure::Refused(WouError::CollectionExists(_)))
    ));
    let r = book.seed_collection_at(seed_payload("gen2", vec![token("c", 1), token("a", 1), token("d", 1)]), 10);
    assert!(matches!(r, Err(SeedFailure::Refused(WouError::TokenExists(ref x))) if x == "a"));
    assert_eq!(book.collections.len(), 2);
    assert_eq!(book.tokens.len(), 3);
    let r = book.seed_collection_at(seed_payload("gen3", vec![token("z", 0)]), 10);
    assert!(matches!(r, Err(SeedFailure::Refused(WouError::Internal(ref m))) if m == "max_supply must be > 0"));
    assert!(is_producer(&strings(&["p1", "p2"]), "p2"));
    assert!(!is_producer(&strings(&["p1"]), "p3"));
    book.faucet_spiral("acc", 40).unwrap();
    let b = book.balance_response("acc".to_string());
    assert_eq!(b.spiral, 40);
    assert_eq!(book.balance_response("nobody".to_string()).spiral, 0);
}

#[test]
fn profile_edit_rules() {
    let mut acc = account("acc-1", "neo", "Neo");
    let before = acc.clone();
    let payload = UpdateProfilePayload {
        display_name: Some("  Morpheus ".into()),
        username: Some(" @Morpheus ".into()),
        bio: Some(" hi ".into()),
        avatar_url: None,
        banner_url: None,
        country: Some(" NZ".into()),
    };
    assert!(matches!(apply_profile_edit(&mut acc, "other", payload, None, 5), Err(ProfileRefusal::Forbidden)));
    assert_eq!(acc, before);
    let taken = UpdateProfilePayload {
        display_name: Some("X".into()),
        username: Some("@Trinity".into()),
        bio: None,
        avatar_url: None,
        banner_url: None,
        country: None,
    };
    let r = apply_profile_edit(&mut acc, "acc-1", taken, Some("acc-2"), 5);
    assert!(matches!(r, Err(ProfileRefusal::UsernameTaken(ref h)) if h == "trinity"));
    assert_eq!(acc, before);
    let ok = UpdateProfilePayload {
        display_name: Some("  Morpheus ".into()),
        username: Some(" @Morpheus ".into()),
        bio: Some(" hi ".into()),
        avatar_url: None,
        banner_url: None,
        country: Some(" NZ".into()),
    };
    apply_profile_edit(&mut acc, "acc-1", ok, None, 6).ok().unwrap();
    assert_eq!(acc.username, "morpheus");
    assert_eq!(acc.display_name, "Morpheus");
    assert_eq!(acc.profile.bio.as_deref(), Some("hi"));
    assert_eq!(acc.profile.country.as_deref(), Some("NZ"));
    assert_eq!(acc.updated_at, 6);
}

#[test]
fn username_checks_and_social_answers() {
    let r = check_username("@Neo_1".into(), CheckUsernameQuery { current_id: Some("acc-1".into()) }, Some("acc-1"));
    assert!(r.available);
    let r = check_username("Neo_1".into(), CheckUsernameQuery { current_id: None }, Some("acc-1"));
    assert!(!r.available);
    assert!(!check_username("ab".into(), CheckUsernameQuery { current_id: None }, None).available);
    assert_eq!(SearchPlayersQuery { q: String::new(), limit: 99 }.capped_limit(), 50);
    assert!(follow_response("a".into(), "a".into(), true).is_none());
    assert_eq!(follow_response("a".into(), "a".into(), false).unwrap().status, "unfollowed");
    assert_eq!(follow_response("a".into(), "b".into(), true).unwrap().status, "following");
    let acc = account("acc-1", "neo", "Neo");
    let act = activity_from_payload(
        &acc,
        RecordActivityPayload {
            account_id: None,
            activity_type: "win".into(),
            title: "Won".into(),
            description: "gg".into(),
            game: GameContext::Cosmicrafts,
        },
        "act-1".into(),
        12,
    );
    assert_eq!(act.account_id, "acc-1");
    assert_eq!(act.username, "neo");
    assert_eq!(act.timestamp, 12);
    let req = RecordActivityRequest {
        account_id: "acc-1".into(),
        activity_type: "  rank_up ".into(),
        title: "Gold".into(),
        description: String::new(),
        game: GameContext::ShadowsOfWar,
    };
    assert!(activity_request_valid(&req));
    let act = activity_from_request(&acc, req, "act-2".into(), 13);
    assert_eq!(act.activity_type, "rank_up");
    let bad = RecordActivityRequest {
        account_id: "acc-1".into(),
        activity_type: " ".into(),
        title: "Gold".into(),
        description: String::new(),
        game: GameContext::ShadowsOfWar,
    };
    assert!(!activity_request_valid(&bad));
}

#[test]
fn wallet_challenge_and_gate() {
    let req = Web3ChallengeRequest { chain: "SOL".into(), public_address: "AbC".into() };
    let (resp, key) = web3_challenge(&req, "n-1".into(), 1700000000);
    assert_eq!(key, "wou_web3_nonce:sol:abc");
    assert!(resp.message.contains("Nonce: n-1"));
    assert!(resp.message.ends_with("Timestamp: 1700000000"));
    assert_eq!(web3_login_provider("Ethereum").ok().unwrap(), AuthProvider::Ethereum);
    let r = web3_login_provider("icp");
    assert!(matches!(r, Err(Web3Refusal::IdentityDisabled)));
    let r = web3_login_provider("Doge");
    assert!(matches!(r, Err(Web3Refusal::UnsupportedChain(ref m)) if m == "Unsupported Web3 chain: doge"));
    assert_eq!(Web3Refusal::IdentityDisabled.status(), 503);
    assert!(web3_signature_outcome(Ok(true)).is_ok());
    assert!(matches!(web3_signature_outcome(Ok(false)), Err(Web3Refusal::BadSignature)));
    let r = web3_signature_outcome(Err(WouError::Internal("x".into())));
    assert!(matches!(r, Err(Web3Refusal::VerificationFailed(ref m)) if m.starts_with("Signature verification failed: ")));
    assert_eq!(wallet_signature_valid(&AuthProvider::Google, "a", "m", "s").unwrap(), false);
    assert_eq!(wallet_signature_valid(&AuthProvider::InternetIdentity, "aaaaa-aa", "m", "s").unwrap(), true);
    assert!(wallet_signature_valid(&AuthProvider::Ethereum, "0xabc", "m", "zz").is_err());
}

#[test]
fn otp_newsletter_and_guest_requests() {
    let p = pending_otp(
        OtpRequestPayload {
            email: "Raw@X.com".into(),
            account_id: Some("acc".into()),
            context: GameContext::Darkrift,
            newsletter_opt_in: true,
        },
        "raw@x.com".into(),
        "123456".into(),
        99,
    );
    assert_eq!(p.email, "raw@x.com");
    assert_eq!(p.code, "123456");
    assert!(p.newsletter_opt_in);
    assert_eq!(p.requested_at, 99);
    let s = otp_sent(600);
    assert_eq!(s.status, "success");
    assert_eq!(s.expires_in_seconds, 600);
    let mut acc = account("acc-1", "neo", "Neo");
    set_newsletter(&mut acc, true, 7);
    assert!(acc.newsletter_opt_in);
    assert_eq!(acc.updated_at, 7);
    assert_eq!(newsletter_response(true).status, "subscribed");
    assert_eq!(newsletter_response(false).status, "unsubscribed");
    let named = AnonymousRequest { account_id: Some("acc".into()), display_name: None, context: GameContext::WorldOfUnreal };
    assert!(matches!(anonymous_decision(&named, true, true), AnonymousDecision::Resume));
    assert!(matches!(anonymous_decision(&named, true, false), AnonymousDecision::Forbidden));
    assert!(matches!(anonymous_decision(&named, false, false), AnonymousDecision::Fresh));
    let bare = AnonymousRequest { account_id: None, display_name: None, context: GameContext::WorldOfUnreal };
    assert!(matches!(anonymous_decision(&bare, true, true), AnonymousDecision::Fresh));
    assert!(ResetHumanAccountsRequest { confirmation: "RESET_HUMAN_TEST_DATA".into(), dry_run: true }.confirmed());
    assert!(!ResetHumanAccountsRequest { confirmation: "reset".into(), dry_run: false }.confirmed());
}

#[test]
fn service_identity_resolution() {
    let req = ResolveIdentityRequest {
        provider: " steam ".into(),
        external_id: "  7656 ".into(),
        display_name: Some("  ".into()),
        email: Some(" Ann+x@Mail.com ".into()),
        email_verified: true,
    };
    let (p, x, acc) = service_identity_account(req, "svc-1".into(), wallets(), 50).ok().unwrap();
    assert_eq!(p, AuthProvider::Custom("steam".into()));
    assert_eq!(x, "7656");
    assert_eq!(acc.email.as_deref(), Some("ann@mail.com"));
    assert_eq!(acc.linked_identities.len(), 1);
    assert_eq!(acc.linked_identities[0].external_id, "7656");
    assert!(acc.display_name.len() > 0);
    let unverified = ResolveIdentityRequest {
        provider: "poki".into(),
        external_id: "u1".into(),
        display_name: Some("Pat".into()),
        email: Some("a@b.c".into()),
        email_verified: false,
    };
    let (p, _, acc) = service_identity_account(unverified, "svc-2".into(), wallets(), 50).ok().unwrap();
    assert_eq!(p, AuthProvider::Poki);
    assert!(acc.email.is_none());
    assert_eq!(acc.display_name, "Pat");
    let bad = ResolveIdentityRequest {
        provider: "myspace".into(),
        external_id: "u1".into(),
        display_name: None,
        email: None,
        email_verified: false,
    };
    assert!(matches!(service_identity_account(bad, "s".into(), wallets(), 1), Err(ResolveRefusal::UnsupportedProvider)));
    let blank = ResolveIdentityRequest {
        provider: "epic".into(),
        external_id: "   ".into(),
        display_name: None,
        email: None,
        email_verified: false,
    };
    assert!(matches!(service_identity_account(blank, "s".into(), wallets(), 1), Err(ResolveRefusal::InvalidExternalIdentity)));
}

#[test]
fn bot_links_views() {
    let mut acc = account("acc-1", "neo", "Neo");
    acc.link_identity(AuthProvider::Discord, "d-2".into());
    acc.link_identity(AuthProvider::Google, "g-1".into());
    acc.link_identity(AuthProvider::Discord, "d-1".into());
    let ids = discord_chat_ids(strings(&["d-1"]), &Some(acc.clone()));
    assert_eq!(ids, strings(&["d-1", "d-2"]));
    assert_eq!(discord_chat_ids(strings(&["x"]), &None), strings(&["x"]));
    let r = linked_response(vec![], ids);
    assert!(!r.telegram && r.discord);
    assert!(unlink_namespace_ok("tg") && unlink_namespace_ok("dc") && !unlink_namespace_ok("xx"));
    assert!(unlink_allowed(Some("acc-1"), "acc-1"));
    assert!(!unlink_allowed(Some("acc-2"), "acc-1"));
    assert!(!unlink_allowed(None, "acc-1"));
    forget_link(&mut acc, &AuthProvider::Discord, "d-2", 77);
    assert_eq!(acc.linked_identities.len(), 2);
    assert!(acc.linked_identities.iter().all(|l| l.external_id != "d-2"));
    assert_eq!(acc.updated_at, 77);
}

#[test]
fn qr_sign_in_steps() {
    let mut ch: QrChallenge = new_qr_challenge("q-1".into(), "secret", GameContext::Cosmicrafts, 10);
    assert_eq!(ch.secret_hash.len(), 64);
    assert!(wou_id::access::check_secret(&ch, "secret"));
    assert!(qr_delivery(&ch).is_none());
    let pending = qr_status_response(None);
    assert_eq!(pending.status, "pending");
    assert!(approve_qr(&mut ch, "acc-1".into(), "tok".into()));
    assert!(!approve_qr(&mut ch, "acc-2".into(), "tok2".into()));
    assert_eq!(ch.approved_account_id.as_deref(), Some("acc-1"));
    let (a, t) = qr_delivery(&ch).unwrap();
    assert_eq!((a.as_str(), t.as_str()), ("acc-1", "tok"));
    let approved = qr_status_response(Some((None, t)));
    assert_eq!(approved.status, "approved");
    assert_eq!(approved.session_token.as_deref(), Some("tok"));
    let resp = qr_start_response("q-1".into(), "s3".into(), true, true);
    assert_eq!(resp.approve_url, "https://hyper.worldofunreal.com/approve.html#id=q-1&secret=s3");
    assert_eq!(resp.notified, vec!["telegram", "discord"]);
    assert_eq!(resp.expires_in_seconds, 300);
    assert!(qr_start_response("i".into(), "s".into(), false, false).notified.is_empty());
    let p = QrStartPayload { context: GameContext::WorldOfUnreal, account_id: Some(String::new()), username: Some(" @Neo ".into()) };
    assert!(matches!(qr_requester(&p), QrRequester::ByHandle(ref h) if h == "neo"));
    assert_eq!(qr_start_rate_key(&p).unwrap(), "wou_qr_start_rate: @neo ");
    let blank = QrStartPayload { context: GameContext::WorldOfUnreal, account_id: None, username: Some("  ".into()) };
    assert!(qr_start_rate_key(&blank).is_none());
    let by_id = QrStartPayload { context: GameContext::WorldOfUnreal, account_id: Some("acc-9".into()), username: None };
    assert!(matches!(qr_requester(&by_id), QrRequester::ById(ref a) if a == "acc-9"));
    assert_eq!(first_n(strings(&["1", "2", "3", "4"]), 3), strings(&["1", "2", "3"]));
    assert_eq!(first_n(strings(&["1"]), 3), strings(&["1"]));
}

#[test]
fn sessions_contact_mail_and_oauth_shapes() {
    assert!(matches!(bearer_session_token(None), Err(SessionRefusal::MissingHeader)));
    assert!(matches!(bearer_session_token(Some("Bearer   ")), Err(SessionRefusal::EmptyToken)));
    assert_eq!(bearer_session_token(Some("bearer abc ")).ok().unwrap(), "abc");
    let claims = SessionClaims {
        sub: "acc-1".into(),
        name: "Neo".into(),
        email: None,
        context: GameContext::ShadowsOfWar,
        iat: 1,
        exp: 2,
    };
    let s = auth_session(claims);
    assert_eq!(s.account_id, "acc-1");
    let (ch, record) = contact_challenge("c-1".into(), "abc".into(), 40);
    assert_eq!(ch.difficulty, 28);
    assert_eq!(ch.expires_in_seconds, 300);
    assert_eq!(record, "abc:28");
    let cfg = StalwartMailerConfig {
        smtp_host: "mail".into(),
        smtp_port: 465,
        domain_passwords: vec![("no-reply@worldofunreal.com".into(), "pw".into())],
    };
    assert!(cfg.ready());
    assert!(cfg.implicit_tls());
    assert_eq!(cfg.password_for("no-reply@worldofunreal.com").as_deref(), Some("pw"));
    assert!(cfg.password_for("x@y").is_none());
    let empty = StalwartMailerConfig { smtp_host: "mail".into(), smtp_port: 587, domain_passwords: vec![] };
    assert!(!empty.ready() && !empty.implicit_tls());
    assert_eq!(from_header("WouID Security", "a@b"), "WouID Security <a@b>");
    assert_eq!(game_from_header(GameContext::Darkrift), "Darkrift AI <no-reply@worldofunreal.com>");
    let c = oauth_callback_config();
    assert_eq!(c.hub_callback, "https://worldofunreal.com/auth/callback");
    assert_eq!(c.game_callbacks, vec!["https://shadowsofwar.io/auth/callback"]);
    let q = OAuthLoginQuery {
        redirect_uri: None,
        redirect_url: Some("http://localhost:3000/cb".into()),
        state: Some("st".into()),
        code_challenge: None,
        code_challenge_method: None,
    };
    assert_eq!(q.plan(&AuthProvider::Google).ok().unwrap().redirect_uri, "http://localhost:3000/cb");
    let cb = OAuthCallbackPayload {
        code: "c".into(),
        redirect_uri: None,
        redirect_url: None,
        account_id: None,
        state: None,
        code_verifier: None,
        context: GameContext::WorldOfUnreal,
    };
    assert!(matches!(plan_oauth_callback(&cb), Err(OAuthRefusal::StateRequired)));
    let cb2 = OAuthCallbackPayload { state: Some("s".into()), ..cb };
    let (u, st) = plan_oauth_callback(&cb2).ok().unwrap();
    assert_eq!(u, "https://worldofunreal.com/auth/callback");
    assert_eq!(st, "s");
    let info = OAuthUserInfo {
        provider: AuthProvider::Google,
        external_id: "g".into(),
        display_name: None,
        email: Some(" Bob+news@Gmail.com".into()),
        avatar_url: None,
    };
    assert_eq!(info.verified_email(true).as_deref(), Some("bob@gmail.com"));
    assert!(info.verified_email(false).is_none());
}

#[test]
fn catalog_queries_sort_by_id() {
    let mut book = AssetBook::new();
    for id in ["zeta", "alpha", "mid"] {
        book.create_collection(Collection {
            id: id.to_string(),
            name: id.to_string(),
            symbol: "S".to_string(),
            description: String::new(),
            image: String::new(),
            created_at: 0,
        })
        .unwrap();
    }
    let ids: Vec<String> = book.list_collections().into_iter().map(|c| c.id).collect();
    assert_eq!(ids, strings(&["alpha", "mid", "zeta"]));
    assert!(book.get_collection("mid").is_some());
    assert!(book.get_collection("nope").is_none());
    for (id, col) in [("t-3", "mid"), ("t-1", "mid"), ("t-2", "alpha")] {
        let mut t = token(id, 5);
        t.collection = col.to_string();
        book.register_token(t).unwrap();
    }
    let mid: Vec<String> = book.tokens_of_collection("mid").into_iter().map(|t| t.id).collect();
    assert_eq!(mid, strings(&["t-1", "t-3"]));
    assert!(book.tokens_of_collection("zeta").is_empty());
    assert_eq!(book.get_token("t-2").unwrap().collection, "alpha");
    assert!(book.get_token("t-9").is_none());
}

#[test]
fn open_trade_listing_and_follow_edges() {
    let mut a = trade("alice", None, &["a"], &["x"]);
    a.id = "t-a".into();
    let mut b = trade("bob", None, &["b"], &["y"]);
    b.id = "t-b".into();
    b.status = "accepted".into();
    let mut c = trade("carol", None, &["c"], &["z"]);
    c.id = "t-c".into();
    let all = vec![a, b, c];
    let open: Vec<String> = open_trades(&all, 50).into_iter().map(|t| t.id).collect();
    assert_eq!(open, strings(&["t-a", "t-c"]));
    assert_eq!(open_trades(&all, 1).len(), 1);
    assert_eq!(follower_in_edge("follow:ann:bob", "bob").as_deref(), Some("ann"));
    assert!(follower_in_edge("follow:ann:bobby", "bob").is_none());
    assert!(follower_in_edge("follow:bob", "bob").is_none());
    assert_eq!(followed_in_edge("follow:ann:bob", "ann").as_deref(), Some("bob"));
    assert!(followed_in_edge("follow:annie:bob", "ann").is_none());
}

#[test]
fn oauth_and_contact_keys() {
    assert_eq!(client_id_var(&AuthProvider::Discord), "WOU_DISCORD_CLIENT_ID");
    assert_eq!(client_secret_var(&AuthProvider::Google), "WOU_GOOGLE_CLIENT_SECRET");
    assert_eq!(adopted_account(Some("acc".into()), true, true).as_deref(), Some("acc"));
    assert!(adopted_account(Some("acc".into()), true, false).is_none());
    assert!(adopted_account(Some("acc".into()), false, true).is_none());
    assert_eq!(contact_challenge_key("c1"), "wou_contact_ch:c1");
    assert_eq!(contact_slot_key("1.2.3.4", 470000, 2), "wou_contact_hr:1.2.3.4:470000:2");
    let n = contact_notice("Ann", "a@b.co", "Hi", "1.2.3.4", "2024-01-01T00:00:00Z");
    assert_eq!(n, "**New inquiry**\n**Name:** Ann\n**Email:** a@b.co\n**Message:**\nHi\n\u{2014}\nIP: 1.2.3.4 \u{b7} 2024-01-01T00:00:00Z");
}

#[test]
fn test_client_ip_v4_local_v6() {
    assert_eq!(real_ip_text(None), "local");
    assert_eq!(real_ip_text(Some("   ")), "local");
    assert_eq!(real_ip_text(Some(" 203.0.113.7 ")), "203.0.113.7");
    // 2806:2f0:5240:fc65:216:ebff:fe87:ff41 as parsed segments.
    let segments: [u16; 8] = [0x2806, 0x02f0, 0x5240, 0xfc65, 0x0216, 0xebff, 0xfe87, 0xff41];
    assert_eq!(v6_bucket(&segments), "2806:2f0:5240:fc65::/64");
    assert_eq!(hex_string(0), "0");
    assert_eq!(hex_string(0xffff), "ffff");
}
