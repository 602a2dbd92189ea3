use wou_id::email::key_tag;
use wou_id::error::WouError;
use wou_id::ladder::{IpGate, OtpLadder, OtpSlot};
use wou_id::models::{GameContext, PendingOtp};

fn pending(code: &str) -> PendingOtp {
    PendingOtp {
        code: code.to_string(),
        account_id: None,
        email: "guess@worldofunreal.com".to_string(),
        context: GameContext::WorldOfUnreal,
        newsletter_opt_in: false,
        requested_at: 0,
    }
}

#[test]
fn otp_ladder_three_then_throttle() {
    let mut l = OtpLadder::fresh();
    for _ in 0..3 {
        l.tally_otp_request(600).unwrap();
    }
    assert!(matches!(l.tally_otp_request(600), Err(WouError::OtpThrottled(600))));
}

#[test]
fn test_otp_abuse_ladder() {
    let mut first = OtpLadder::fresh();
    for _ in 0..3 {
        first.tally_otp_request(900).unwrap();
    }
    assert!(matches!(first.tally_otp_request(900), Err(WouError::OtpThrottled(_))));

    let mut l = OtpLadder::fresh();
    for _ in 0..3 {
        l.tally_otp_request(100).unwrap();
    }
    for _ in 0..3 {
        assert!(matches!(l.tally_otp_request(100), Err(WouError::OtpThrottled(_))));
    }
    assert!(matches!(l.tally_otp_request(100), Err(WouError::OtpPenalized(86400))));
    assert!(matches!(l.tally_otp_request(100), Err(WouError::EmailBanned)));
    assert!(matches!(l.tally_otp_request(100), Err(WouError::EmailBanned)));
    assert!(l.banned);
}

#[test]
fn throttle_reports_at_least_one_second() {
    let mut l = OtpLadder { banned: false, penalized: false, abuse: 0, window: 3 };
    assert!(matches!(l.tally_otp_request(-2), Err(WouError::OtpThrottled(1))));
}

#[test]
fn test_guess_burn() {
    let mut slot = OtpSlot { pending: Some(pending("123456")), fails: 0, abuse: 0 };
    for _ in 0..5 {
        assert!(slot.get_and_consume_otp("000000").is_err());
    }
    assert!(slot.pending.is_none());
    assert!(slot.get_and_consume_otp("123456").is_err());
    assert_eq!(slot.abuse, 5);

    let mut slot2 = OtpSlot { pending: Some(pending("654321")), fails: 0, abuse: 0 };
    assert!(slot2.get_and_consume_otp("000000").is_err());
    let consumed = slot2.get_and_consume_otp("654321").unwrap();
    assert_eq!(consumed.code, "654321");
    assert_eq!(slot2.fails, 0);
    assert!(slot2.get_and_consume_otp("654321").is_err());
}

#[test]
fn test_ip_throttle() {
    let mut g = IpGate::fresh();
    for _ in 0..100 {
        g.tally_ip().unwrap();
    }
    assert!(matches!(g.tally_ip(), Err(WouError::IpBlocked)));
    assert!(matches!(g.tally_ip(), Err(WouError::IpBlocked)));
}

#[test]
fn ip_daily_ceiling() {
    let mut g = IpGate { blocked: false, hour: 0, day: 300 };
    assert!(matches!(g.tally_ip(), Err(WouError::IpBlocked)));
}

#[test]
fn test_plus_address_sharing() {
    let base = "plustest_1@worldofunreal.com";
    let variants = ["plustest_1+1@worldofunreal.com", "plustest_1+2@worldofunreal.com", "plustest_1+3@worldofunreal.com"];
    let mut buckets: Vec<(String, OtpLadder)> = Vec::new();
    for v in variants.iter().chain(std::iter::once(&base)) {
        let tag = key_tag(v);
        if !buckets.iter().any(|(t, _)| *t == tag) {
            buckets.push((tag.clone(), OtpLadder::fresh()));
        }
        let ladder = &mut buckets.iter_mut().find(|(t, _)| *t == tag).unwrap().1;
        let r = ladder.tally_otp_request(900);
        if *v == base {
            assert!(matches!(r, Err(WouError::OtpThrottled(_))));
        } else {
            assert!(r.is_ok());
        }
    }
    assert_eq!(buckets.len(), 1);
}
