use ed25519_dalek::{Signer, SigningKey};
use sha3::Digest;
use wou_id::access::{check_secret, hash_secret_hex, verify_discord_sig};
use wou_id::b64::{base64_custom_decode, base64_url_decode, crazygames_payload, select_crazygames_user_id, verify_crazygames_token};
use wou_id::contact::{meets_difficulty, parse_u32};
use wou_id::digest::ct_eq;
use wou_id::error::WouError;
use wou_id::models::{AuthProvider, GameContext, QrChallenge};
use wou_id::oauth::{oauth_state_key, redirect_allowed, OAuthManager};
use wou_id::otp::generate_secure_otp;
use wou_id::session::{claims_from_decoded, DecodedClaims, JwtManager};
use wou_id::web3::{validate_icp_principal, verify_ethereum_signature, verify_solana_signature};

#[test]
fn test_validate_icp_principal() {
    assert!(validate_icp_principal("2vxsx-fae").unwrap());
    assert!(validate_icp_principal("aaaaa-aa").unwrap());
    assert!(validate_icp_principal("yrm6q-yyaaa-aaaap-qb6ka-cai").unwrap());
    assert!(!validate_icp_principal("Invalid Principal!@#").unwrap());
}

#[test]
fn icp_principal_length_and_blank() {
    assert!(!validate_icp_principal("   ").unwrap());
    assert!(validate_icp_principal(&"a".repeat(64)).unwrap());
    assert!(!validate_icp_principal(&"a".repeat(65)).unwrap());
    assert!(validate_icp_principal("  aaaaa-aa \n").unwrap());
}

#[test]
fn test_solana_signature_base58_and_hex() {
    let signing_key = SigningKey::from_bytes(&[7u8; 32]);
    let verifying_key = signing_key.verifying_key();
    let pubkey_base58 = bs58::encode(verifying_key.as_bytes()).into_string();

    let message = "Sign this message to authenticate with World of Unreal Identity Engine.";
    let signature = signing_key.sign(message.as_bytes());

    let sig_base58 = bs58::encode(signature.to_bytes()).into_string();
    let result_b58 = verify_solana_signature(&pubkey_base58, message, &sig_base58);
    assert!(result_b58.is_ok());
    assert!(result_b58.unwrap());

    let sig_hex = format!("0x{}", hex::encode(signature.to_bytes()));
    let result_hex = verify_solana_signature(&pubkey_base58, message, &sig_hex);
    assert!(result_hex.is_ok());
    assert!(result_hex.unwrap());
}

#[test]
fn test_solana_signature_verification() {
    let signing_key = SigningKey::from_bytes(&[42u8; 32]);
    let verifying_key = signing_key.verifying_key();

    let message = "Sign in to World of Unreal ID with Solana: nonce=981247";
    let signature = signing_key.sign(message.as_bytes());

    let pubkey_base58 = bs58::encode(verifying_key.as_bytes()).into_string();
    let signature_base58 = bs58::encode(signature.to_bytes()).into_string();

    let result = verify_solana_signature(&pubkey_base58, message, &signature_base58).unwrap();
    assert!(result, "Valid Solana signature should verify as true");

    let tampered_result = verify_solana_signature(&pubkey_base58, "tampered message", &signature_base58).unwrap();
    assert!(!tampered_result, "Tampered message should fail verification");
}

#[test]
fn solana_signature_errors() {
    let signing_key = SigningKey::from_bytes(&[9u8; 32]);
    let pk = bs58::encode(signing_key.verifying_key().as_bytes()).into_string();
    match verify_solana_signature("0OIl", "m", "x") {
        Err(WouError::InvalidSignature(c, m)) => {
            assert_eq!(c, "solana");
            assert!(m.starts_with("Invalid pubkey base58: "));
        }
        other => panic!("unexpected {:?}", other),
    }
    match verify_solana_signature(&bs58::encode([1u8; 5]).into_string(), "m", "x") {
        Err(WouError::InvalidSignature(_, m)) => {
            assert_eq!(m, "Invalid Solana pubkey length (expected 32 bytes, got 5)")
        }
        other => panic!("unexpected {:?}", other),
    }
    match verify_solana_signature(&pk, "m", "0xzz") {
        Err(WouError::InvalidSignature(_, m)) => assert!(m.starts_with("Hex decode failed: ")),
        other => panic!("unexpected {:?}", other),
    }
    match verify_solana_signature(&pk, "m", "0xabcd") {
        Err(WouError::InvalidSignature(_, m)) => {
            assert_eq!(m, "Invalid Solana signature length (expected 64 bytes, got 2)")
        }
        other => panic!("unexpected {:?}", other),
    }
}

fn eth_address(key: &k256::ecdsa::SigningKey) -> String {
    let point = key.verifying_key().to_encoded_point(false);
    let h = sha3::Keccak256::digest(&point.as_bytes()[1..]);
    format!("0x{}", hex::encode(&h[12..32]))
}

fn eth_sign(key: &k256::ecdsa::SigningKey, message: &str) -> String {
    let prefix = format!("\x19Ethereum Signed Message:\n{}", message.len());
    let mut k = sha3::Keccak256::new();
    k.update(prefix.as_bytes());
    k.update(message.as_bytes());
    let hash = k.finalize();
    let (signature, recid) = key.sign_prehash_recoverable(&hash).unwrap();
    let mut sig_bytes = Vec::new();
    sig_bytes.extend_from_slice(&signature.to_bytes());
    sig_bytes.push(recid.to_byte() + 27);
    format!("0x{}", hex::encode(&sig_bytes))
}

#[test]
fn test_ethereum_eip191_signature_verification() {
    let signing_key = k256::ecdsa::SigningKey::from_slice(&[0x11u8; 32]).unwrap();
    let expected_address = eth_address(&signing_key);
    let message = "Test Ethereum personal sign message";
    let sig_hex = eth_sign(&signing_key, message);
    let is_valid = verify_ethereum_signature(&expected_address, message, &sig_hex).unwrap();
    assert!(is_valid);
}

#[test]
fn ethereum_signature_case_and_mismatch() {
    let key = k256::ecdsa::SigningKey::from_slice(&[0x22u8; 32]).unwrap();
    let addr = eth_address(&key);
    let sig = eth_sign(&key, "hello");
    assert!(verify_ethereum_signature(&addr.to_uppercase().replace("0X", "0x"), "hello", &sig).unwrap());
    assert!(!verify_ethereum_signature(&addr, "hello!", &sig).unwrap());
    match verify_ethereum_signature(&addr, "hello", "0xabcd") {
        Err(WouError::InvalidSignature(c, m)) => {
            assert_eq!(c, "ethereum");
            assert_eq!(m, "Signature must be exactly 65 bytes, got 2");
        }
        other => panic!("unexpected {:?}", other),
    }
    match verify_ethereum_signature(&addr, "hello", "zz") {
        Err(WouError::InvalidSignature(_, m)) => assert!(m.starts_with("Hex decode failed: ")),
        other => panic!("unexpected {:?}", other),
    }
    let zero_sig = format!("0x{}", "00".repeat(65));
    match verify_ethereum_signature(&addr, "hello", &zero_sig) {
        Err(WouError::InvalidSignature(_, m)) => assert!(m.starts_with("Invalid signature format: ")),
        other => panic!("unexpected {:?}", other),
    }
}

#[test]
fn test_otp_length_and_range() {
    for _ in 0..100 {
        let code = generate_secure_otp();
        assert_eq!(code.len(), 6);
        let val: u32 = code.parse().unwrap();
        assert!(val >= 100_000 && val <= 999_999);
    }
}

#[test]
fn test_secure_otp_distribution_and_uniqueness() {
    let mut otps = std::collections::HashSet::new();
    for _ in 0..100 {
        let code = generate_secure_otp();
        assert_eq!(code.len(), 6);
        let num: u32 = code.parse().unwrap();
        assert!((100_000..=999_999).contains(&num));
        otps.insert(code);
    }
    assert!(otps.len() > 90);
}

#[test]
fn test_oauth_authorization_url_building() {
    let oauth = OAuthManager::new();

    let discord_url = oauth
        .build_authorization_url(
            &AuthProvider::Discord,
            "123456789",
            "https://id.worldofunreal.com/auth/callback",
            "test_state_123",
        )
        .unwrap();
    assert!(discord_url.starts_with("https://discord.com/api/oauth2/authorize"));
    assert!(discord_url.contains("client_id=123456789"));
    assert!(discord_url.contains("scope=identify%20email"));
    assert!(discord_url.contains("state=test_state_123"));

    let google_url = oauth
        .build_authorization_url(
            &AuthProvider::Google,
            "google_client_id_999",
            "https://id.worldofunreal.com/auth/callback",
            "state_google",
        )
        .unwrap();
    assert!(google_url.starts_with("https://accounts.google.com/o/oauth2/v2/auth"));
    assert!(google_url.contains("client_id=google_client_id_999"));
    assert!(google_url.contains("scope=openid%20profile%20email"));

    let twitter_url = oauth
        .build_authorization_url(
            &AuthProvider::Twitter,
            "twitter_client_id",
            "https://id.worldofunreal.com/auth/callback",
            "state_twitter",
        )
        .unwrap();
    assert!(twitter_url.starts_with("https://twitter.com/i/oauth2/authorize"));
    assert!(twitter_url.contains("code_challenge=challenge"));

    let meta_url = oauth
        .build_authorization_url(
            &AuthProvider::Meta,
            "meta_app_id",
            "https://id.worldofunreal.com/auth/callback",
            "state_meta",
        )
        .unwrap();
    assert!(meta_url.starts_with("https://www.facebook.com/v19.0/dialog/oauth"));
    assert!(meta_url.contains("client_id=meta_app_id"));
}

#[test]
fn oauth_url_exact_and_refused() {
    let oauth = OAuthManager::new();
    let u = oauth.build_authorization_url(&AuthProvider::Discord, "c", "https://a.b/cb?x=1", "s t").unwrap();
    assert_eq!(
        u,
        "https://discord.com/api/oauth2/authorize?client_id=c&redirect_uri=https%3A%2F%2Fa.b%2Fcb%3Fx%3D1&response_type=code&scope=identify%20email&state=s%20t"
    );
    match oauth.build_authorization_url(&AuthProvider::Email, "c", "r", "s") {
        Err(WouError::ProviderVerificationFailed(m)) => {
            assert_eq!(m, "Provider email does not support OAuth2 authorization URL")
        }
        other => panic!("unexpected {:?}", other),
    }
}

#[test]
fn redirect_targets() {
    assert!(redirect_allowed("https://worldofunreal.com/auth/callback"));
    assert!(redirect_allowed("https://shadowsofwar.io/auth/callback"));
    assert!(redirect_allowed("http://localhost:5173/auth/callback"));
    assert!(redirect_allowed("http://127.0.0.1/cb"));
    assert!(!redirect_allowed("https://evil.com/auth/callback"));
    assert!(!redirect_allowed("https://localhost.evil.com/cb"));
    assert!(!redirect_allowed("https://worldofunreal.com/auth/callback/"));
    assert!(!redirect_allowed("http://localhost:1@evil.com/auth/callback"));
    assert!(redirect_allowed("http://user@localhost:3000/cb"));
}

#[test]
fn oauth_url_with_s256_challenge() {
    let oauth = OAuthManager::new();
    let u = oauth
        .build_authorization_url_with_challenge(&AuthProvider::Twitter, "c", "https://a.b/cb", "s", Some("ab+c"))
        .unwrap();
    assert_eq!(
        u,
        "https://twitter.com/i/oauth2/authorize?client_id=c&redirect_uri=https%3A%2F%2Fa.b%2Fcb&response_type=code&scope=users.read%20tweet.read&state=s&code_challenge=ab%2Bc&code_challenge_method=S256"
    );
    let plain = oauth.build_authorization_url_with_challenge(&AuthProvider::Twitter, "c", "r", "s", None).unwrap();
    assert_eq!(plain, oauth.build_authorization_url(&AuthProvider::Twitter, "c", "r", "s").unwrap());
    assert!(oauth.build_authorization_url_with_challenge(&AuthProvider::Email, "c", "r", "s", Some("x")).is_err());
}

#[test]
fn oauth_state_key_hashes_state() {
    let k = oauth_state_key("abc");
    assert_eq!(k, format!("wou_oauth_state:{}", hex::encode(sha2::Sha256::digest(b"abc"))));
}

#[test]
fn base64_decoders() {
    assert_eq!(base64_custom_decode("aGVsbG8=").unwrap(), b"hello".to_vec());
    assert_eq!(base64_custom_decode("aGk=").unwrap(), b"hi".to_vec());
    assert_eq!(base64_custom_decode("").unwrap(), Vec::<u8>::new());
    assert_eq!(base64_custom_decode("a*==").unwrap_err(), "Invalid char");
    assert_eq!(base64_url_decode("aGVsbG8").unwrap(), b"hello".to_vec());
    assert_eq!(base64_url_decode("-_-_").unwrap(), vec![0xfb, 0xff, 0xbf]);
    assert_eq!(base64_url_decode("a$").unwrap_err(), "Invalid char");
}

#[test]
fn crazygames_token_payload() {
    let token = "eyJhbGciOiJSUzI1NiJ9.eyJ1c2VySWQiOiJjZ18xIn0.sig";
    let payload = crazygames_payload(token).unwrap();
    assert_eq!(payload, br#"{"userId":"cg_1"}"#.to_vec());
    match crazygames_payload("no-dots") {
        Err(WouError::ProviderVerificationFailed(m)) => assert_eq!(m, "Invalid JWT format from CrazyGames"),
        other => panic!("unexpected {:?}", other),
    }
    match crazygames_payload("a.b$c.d") {
        Err(WouError::ProviderVerificationFailed(m)) => assert_eq!(m, "Base64 decode failed: Invalid char"),
        other => panic!("unexpected {:?}", other),
    }
    assert_eq!(select_crazygames_user_id(None, Some("u".into()), Some("s".into())).unwrap(), "u");
    assert!(select_crazygames_user_id(None, None, None).is_err());
}

#[test]
fn constant_time_compare_and_qr_secret() {
    let a = [1u8; 32];
    let mut b = [1u8; 32];
    assert!(ct_eq(&a, &b));
    b[31] = 2;
    assert!(!ct_eq(&a, &b));
    let ch = QrChallenge {
        id: "q".into(),
        secret_hash: hash_secret_hex("s3cret"),
        context: GameContext::WorldOfUnreal,
        created_at: 0,
        approved_account_id: None,
        session_token: None,
    };
    assert!(check_secret(&ch, "s3cret"));
    assert!(!check_secret(&ch, "other"));
}

#[test]
fn proof_of_work_difficulty() {
    assert!(meets_difficulty("00ff", 8));
    assert!(meets_difficulty("000f", 12));
    assert!(!meets_difficulty("001f", 12));
    assert!(!meets_difficulty("00", 9));
    assert!(!meets_difficulty("zz", 0));
    assert_eq!(parse_u32("18"), Some(18));
    assert_eq!(parse_u32("+7"), Some(7));
    assert_eq!(parse_u32("4294967296"), None);
    assert_eq!(parse_u32(""), None);
}

#[test]
fn discord_interaction_signature() {
    let key = SigningKey::from_bytes(&[3u8; 32]);
    let pk_hex = hex::encode(key.verifying_key().as_bytes());
    let body = br#"{"type":1}"#;
    let mut msg = b"1700000000".to_vec();
    msg.extend_from_slice(body);
    let sig_hex = hex::encode(key.sign(&msg).to_bytes());
    assert!(verify_discord_sig(&pk_hex, "1700000000", body, &sig_hex));
    assert!(!verify_discord_sig(&pk_hex, "1700000001", body, &sig_hex));
    assert!(!verify_discord_sig("abcd", "1700000000", body, &sig_hex));
}

#[test]
fn test_jwt_issue_and_verify() {
    let mgr = JwtManager::new("super_secret_test_key_for_wou_id_testing_purposes_12345");
    let token = mgr
        .issue_token(
            "usr_12345",
            "Commander_Alpha",
            Some("alpha@shadowsofwar.io".to_string()),
            GameContext::ShadowsOfWar,
            3600,
        )
        .unwrap();

    let claims = mgr.verify_token(&token).unwrap();
    assert_eq!(claims.sub, "usr_12345");
    assert_eq!(claims.name, "Commander_Alpha");
    assert_eq!(claims.email, Some("alpha@shadowsofwar.io".to_string()));
    assert_eq!(claims.context, GameContext::ShadowsOfWar);
}

#[test]
fn test_jwt_session_claims_roundtrip() {
    let jwt = JwtManager::new("production_quality_secret_key_testing_1234567890");
    let token = jwt
        .issue_token(
            "usr_test_123",
            "Commander_Alpha",
            Some("alpha@worldofunreal.com".into()),
            GameContext::ShadowsOfWar,
            86400,
        )
        .unwrap();

    let claims = jwt.verify_token(&token).unwrap();
    assert_eq!(claims.sub, "usr_test_123");
    assert_eq!(claims.name, "Commander_Alpha");
    assert_eq!(claims.email, Some("alpha@worldofunreal.com".into()));
    assert_eq!(claims.context, GameContext::ShadowsOfWar);
}

#[test]
fn jwt_refusals() {
    let jwt = JwtManager::new("k1");
    let other = JwtManager::new("k2");
    let token = jwt.issue_token("u", "n", None, GameContext::Darkrift, 600).unwrap();
    assert!(matches!(other.verify_token(&token), Err(WouError::Unauthorized(ref m)) if m.starts_with("Invalid token: ")));
    assert!(matches!(jwt.verify_token("not-a-token"), Err(WouError::Unauthorized(_))));
    let expired = jwt.issue_token_at("u", "n", None, GameContext::Darkrift, 1000, 10).unwrap();
    assert!(matches!(jwt.verify_token(&expired), Err(WouError::Unauthorized(_))));
    assert!(matches!(
        jwt.issue_token_at("u", "n", None, GameContext::Darkrift, u64::MAX, 1),
        Err(WouError::Internal(ref m)) if m == "Session validity overflows the clock"
    ));
    let back = jwt.verify_token(&token).unwrap();
    assert_eq!(back.context, GameContext::Darkrift);
    assert_eq!(back.email, None);
    assert_eq!(back.exp, back.iat + 600);
}

#[test]
fn decoded_claims_need_every_required_field() {
    let full = || DecodedClaims {
        sub: Some("u".into()),
        name: Some("n".into()),
        email: None,
        email_ok: true,
        context: Some("world_of_unreal".into()),
        iat: Some(1),
        exp: Some(2),
    };
    let c = claims_from_decoded(full()).unwrap();
    assert_eq!(c.context, GameContext::WorldOfUnreal);
    assert_eq!((c.iat, c.exp), (1, 2));
    let mut d = full();
    d.context = Some("worldofunreal".into());
    assert!(claims_from_decoded(d).is_none());
    let mut d = full();
    d.sub = None;
    assert!(claims_from_decoded(d).is_none());
    let mut d = full();
    d.exp = None;
    assert!(claims_from_decoded(d).is_none());
    let mut d = full();
    d.email_ok = false;
    assert!(claims_from_decoded(d).is_none());
    let mut d = full();
    d.email = Some("a@b.io".into());
    assert_eq!(claims_from_decoded(d).unwrap().email.as_deref(), Some("a@b.io"));
}

#[test]
fn crazygames_token_user_id() {
    assert_eq!(verify_crazygames_token("h.eyJ1c2VySWQiOiJjZy00MiIsInN1YiI6InMifQ.sig").unwrap(), "cg-42");
    assert_eq!(verify_crazygames_token("h.eyJ1c2VyX2lkIjoidTcifQ").unwrap(), "u7");
    match verify_crazygames_token("h.eyJleHAiOjF9.sig") {
        Err(WouError::ProviderVerificationFailed(m)) => assert_eq!(m, "CrazyGames token missing user ID"),
        other => panic!("unexpected {other:?}"),
    }
    match verify_crazygames_token("h.eyJ1c2VySWQiOjV9.sig") {
        Err(WouError::ProviderVerificationFailed(m)) => assert!(m.starts_with("Payload parse failed: ")),
        other => panic!("unexpected {other:?}"),
    }
    match verify_crazygames_token("nodots") {
        Err(WouError::ProviderVerificationFailed(m)) => assert_eq!(m, "Invalid JWT format from CrazyGames"),
        other => panic!("unexpected {other:?}"),
    }
}

#[test]
fn crazygames_payload_as_array() {
    assert_eq!(verify_crazygames_token("h.WyJjZy0xIixudWxsLG51bGxd.sig").unwrap(), "cg-1");
    match verify_crazygames_token("h.W251bGwsInUyIl0.sig") {
        Err(WouError::ProviderVerificationFailed(m)) => assert!(m.starts_with("Payload parse failed: ")),
        other => panic!("unexpected {other:?}"),
    }
}

#[test]
fn session_token_claims_in_declared_order() {
    let jwt = JwtManager::new("order-secret");
    let token = jwt.issue_token("u1", "Name", Some("a@b.io".into()), GameContext::Cosmicrafts, 60).unwrap();
    let payload = token.split('.').nth(1).unwrap();
    let json = String::from_utf8(base64_url_decode(payload).unwrap()).unwrap();
    assert!(json.starts_with("{\"sub\":\"u1\",\"name\":\"Name\",\"email\":\"a@b.io\",\"context\":\"cosmicrafts\",\"iat\":"));
    let e = json.find("\"exp\"").unwrap();
    assert!(json.find("\"iat\"").unwrap() < e);
}

#[test]
fn difficulty_counts_bits() {
    assert!(meets_difficulty("00ff", 8));
    assert!(!meets_difficulty("00ff", 9));
    assert!(meets_difficulty("0fff", 4));
    assert!(!meets_difficulty("00", 9));
    assert!(!meets_difficulty("0g", 1));
}
