use sha2::Digest;
use wou_id::account::{generate_noble_animal_identity, noble_animal, NOBLE_ANIMAL_COUNT};
use wou_id::email::{canonical_email, key_tag, log_tag};
use wou_id::error::WouError;
use wou_id::models::{AuthProvider, EmbeddedWallets, GameContext, PlayerAccount};
use wou_id::templates::{html_escape, render_admin_alert, render_otp_email, render_welcome_email};

fn wallets() -> EmbeddedWallets {
    EmbeddedWallets {
        evm_address: String::new(),
        solana_address: String::new(),
        icp_principal: String::new(),
        bitcoin_address: String::new(),
    }
}

#[test]
fn test_canonical_and_tags() {
    assert_eq!(canonical_email("Victim+1@X.com "), "victim@x.com");
    assert_eq!(canonical_email("a@b"), "a@b");
    let t1 = key_tag("Victim@X.com");
    let t2 = key_tag("victim@x.com");
    assert_eq!(t1, t2);
    assert_eq!(t1.len(), 12);
    assert!(!t1.contains('@'));
}

#[test]
fn test_security_templates() {
    let w = render_welcome_email(GameContext::Cosmicrafts, "Commander X");
    assert!(w.subject.contains("Cosmicrafts"));
    assert!(w.html_body.contains("Commander X"));
    assert!(w.html_body.contains("security@worldofunreal.com"));
    assert!(w.html_body.contains("one-time"));
    let a = render_admin_alert("Email banned", "tag=abc error=x");
    assert!(a.subject.starts_with("[WOU-ALERT]"));
}

#[test]
fn test_noble_animal_identity_format() {
    let (username, _display_name, profile) = generate_noble_animal_identity("test_account_uuid_12345", None);
    assert!(!username.contains('_'), "Username should not contain an underscore: {}", username);

    let valid_animals: Vec<&str> = (0..NOBLE_ANIMAL_COUNT).map(|i| noble_animal(i).0).collect();
    let matched = valid_animals.iter().any(|animal| username.starts_with(animal));
    assert!(matched, "Username {} must start with a valid noble animal", username);

    let digits: String = username.chars().filter(|c| c.is_ascii_digit()).collect();
    assert_eq!(digits.len(), 3, "Username must end with 3 digits: {}", username);
    let num: u32 = digits.parse().expect("3 digits suffix must parse");
    assert!(num >= 100 && num <= 999, "Number must be between 100 and 999: {}", num);

    assert!(profile.custom_attribute("animal_emoji").is_some());
    assert!(profile.custom_attribute("animal_theme").is_some());
}

#[test]
fn canonical_email_keeps_domain_plus_and_trims() {
    assert_eq!(canonical_email("  Some.One+tag+more@Example.ORG"), "some.one@example.org");
    assert_eq!(canonical_email("no-at-sign+x"), "no-at-sign+x");
    assert_eq!(canonical_email("a@b+c.com"), "a@b+c.com");
}

#[test]
fn plus_addresses_share_one_tag() {
    let base = "plustest@worldofunreal.com";
    let t = key_tag(base);
    assert_eq!(key_tag("plustest+1@worldofunreal.com"), t);
    assert_eq!(key_tag("PlusTest+2@WorldOfUnreal.com"), t);
    assert_eq!(log_tag(base), t);
    assert!(t.chars().all(|c| c.is_ascii_hexdigit() && !c.is_ascii_uppercase()));
    assert_ne!(key_tag("other@worldofunreal.com"), t);
}

#[test]
fn key_tag_is_sha256_prefix_of_canonical_form() {
    let full = hex::encode(sha2::Sha256::digest(b"victim@x.com"));
    assert_eq!(key_tag("Victim+spam@X.com"), full[..12].to_string());
}

#[test]
fn otp_email_carries_code_and_expiry() {
    let e = render_otp_email(GameContext::ShadowsOfWar, "582914", 10);
    assert!(e.subject.contains("582914"));
    assert!(e.html_body.contains("582914"));
    assert!(e.html_body.contains("10 minutes"));
    assert!(e.text_body.contains("582914"));
}

#[test]
fn welcome_email_escapes_display_name() {
    let w = render_welcome_email(GameContext::WorldOfUnreal, "<b>Bob</b> & \"Co\"");
    assert!(!w.html_body.contains("<b>Bob</b>"));
    assert!(w.html_body.contains("&lt;b&gt;Bob&lt;/b&gt; &amp;"));
    assert_eq!(html_escape("a<b>&'\""), "a&lt;b&gt;&amp;&#39;&quot;");
}

#[test]
fn game_context_names() {
    assert_eq!(GameContext::ShadowsOfWar.as_str(), "shadowsofwar");
    assert_eq!(GameContext::Cosmicrafts.display_name(), "Cosmicrafts");
    assert_eq!(AuthProvider::InternetIdentity.as_str(), "internet_identity");
    assert_eq!(AuthProvider::Custom("steam".to_string()).as_str(), "steam");
}

#[test]
fn new_account_and_identity_linking() {
    let mut acc = PlayerAccount::new_with_wallets("acc-1".to_string(), None, None, wallets());
    assert!(acc.linked_identities.is_empty());
    assert!(!acc.username.is_empty());
    assert!(!acc.has_provider(&AuthProvider::Google));
    acc.link_identity(AuthProvider::Google, "g-1".to_string());
    acc.link_identity(AuthProvider::Google, "g-1".to_string());
    assert_eq!(acc.linked_identities.len(), 1);
    assert!(acc.has_provider(&AuthProvider::Google));
    assert!(acc.has_link(&AuthProvider::Google, "g-1"));
    assert!(!acc.has_link(&AuthProvider::Google, "g-2"));
    let named = PlayerAccount::new_with_wallets("acc-2".to_string(), Some("hero".to_string()), Some("Hero".to_string()), wallets());
    assert_eq!(named.username, "hero");
    assert_eq!(named.display_name, "Hero");
}

#[test]
fn error_messages() {
    assert_eq!(WouError::InvalidOrExpiredOtp.message(), "Invalid or expired OTP code");
    assert_eq!(WouError::OtpThrottled(42).message(), "Too many code requests: retry in 42 seconds");
    assert_eq!(
        WouError::InvalidSignature("solana".to_string(), "bad".to_string()).message(),
        "Invalid signature for provider solana: bad"
    );
    assert_eq!(WouError::Internal("x".to_string()).message(), "Internal server error: x");
}
