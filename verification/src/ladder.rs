use vstd::prelude::*;
use crate::error::WouError;
use crate::models::PendingOtp;
use crate::text::str_eq;

verus! {

/// OTP requests allowed per address in one short window.
pub const OTP_REQ_MAX: u64 = 3;
/// Length of the short request window, in seconds.
pub const OTP_REQ_WINDOW_SECS: u64 = 900;
/// Requests allowed per address in one abuse window before a penalty.
pub const OTP_ABUSE_MAX: u64 = 6;
/// Length of the abuse window, in seconds.
pub const OTP_ABUSE_WINDOW_SECS: u64 = 1800;
/// Length of a penalty, in seconds.
pub const OTP_PENALTY_SECS: u64 = 86400;
/// Length of a ban (ninety days), in seconds.
pub const OTP_BAN_SECS: u64 = 7776000;
/// Wrong guesses that burn a pending code.
pub const OTP_GUESS_MAX: u64 = 5;
/// Lifetime of the wrong-guess counter, in seconds.
pub const OTP_FAIL_WINDOW_SECS: u64 = 600;
/// Intake requests allowed per client IP per hour.
pub const IP_REQ_HR_MAX: u64 = 100;
/// Length of the hourly IP window, in seconds.
pub const IP_REQ_HR_WINDOW_SECS: u64 = 3600;
/// Intake requests allowed per client IP per day.
pub const IP_REQ_DAY_MAX: u64 = 300;
/// Length of the daily IP window, in seconds.
pub const IP_REQ_DAY_WINDOW_SECS: u64 = 86400;

/// Abuse state of one (canonical) email address while its counters are live: the ban and
/// penalty flags and the request counts of the abuse window and the short window.
#[derive(Clone, Copy, Debug, PartialEq, Eq, Structural)]
pub struct OtpLadder {
    pub banned: bool,
    pub penalized: bool,
    pub abuse: u64,
    pub window: u64,
}

/// How one OTP request is answered.
#[derive(Clone, Copy, Debug, PartialEq, Eq, Structural)]
pub enum LadderVerdict {
    Allowed,
    Throttled,
    Penalized,
    Banned,
}

/// One OTP request against the ladder: a ban refuses; a penalty turns into a ban; else the
/// request is counted in the abuse window (over the maximum: penalty) and then in the short
/// window (over the maximum: throttled).
pub open spec fn ladder_step(s: OtpLadder) -> (OtpLadder, LadderVerdict) {
    if s.banned {
        (s, LadderVerdict::Banned)
    } else if s.penalized {
        (OtpLadder { banned: true, penalized: true, abuse: s.abuse, window: s.window }, LadderVerdict::Banned)
    } else if s.abuse + 1 > OTP_ABUSE_MAX {
        (
            OtpLadder { banned: false, penalized: true, abuse: (s.abuse + 1) as u64, window: s.window },
            LadderVerdict::Penalized,
        )
    } else if s.window + 1 > OTP_REQ_MAX {
        (
            OtpLadder { banned: false, penalized: false, abuse: (s.abuse + 1) as u64, window: (s.window + 1) as u64 },
            LadderVerdict::Throttled,
        )
    } else {
        (
            OtpLadder { banned: false, penalized: false, abuse: (s.abuse + 1) as u64, window: (s.window + 1) as u64 },
            LadderVerdict::Allowed,
        )
    }
}

/// Seconds reported to a throttled client: the window's remaining lifetime, at least one.
pub open spec fn retry_secs(window_ttl: i64) -> u64 {
    if window_ttl < 1 {
        1
    } else {
        window_ttl as u64
    }
}

/// The error (or success) that answers an OTP request with the given verdict.
pub open spec fn ladder_answer(v: LadderVerdict, window_ttl: i64, r: Result<(), WouError>) -> bool {
    match v {
        LadderVerdict::Allowed => r is Ok,
        LadderVerdict::Throttled => r matches Err(WouError::OtpThrottled(t)) && t == retry_secs(window_ttl),
        LadderVerdict::Penalized => r matches Err(WouError::OtpPenalized(t)) && t == OTP_PENALTY_SECS,
        LadderVerdict::Banned => r matches Err(WouError::EmailBanned),
    }
}

/// State after `n` requests.
pub open spec fn ladder_run(s: OtpLadder, n: nat) -> OtpLadder
    decreases n,
{
    if n == 0 {
        s
    } else {
        ladder_run(ladder_step(s).0, (n - 1) as nat)
    }
}

/// An address with no live counters.
pub open spec fn fresh_ladder() -> OtpLadder {
    OtpLadder { banned: false, penalized: false, abuse: 0, window: 0 }
}

impl OtpLadder {
    /// State of an address with no live counters.
    pub fn fresh() -> (r: OtpLadder)
        ensures
            r == fresh_ladder(),
    {
        OtpLadder { banned: false, penalized: false, abuse: 0, window: 0 }
    }

    /// Gates one OTP request through the abuse ladder and counts it. `window_ttl` is the
    /// remaining lifetime of the short window, reported to a throttled client.
    pub fn tally_otp_request(&mut self, window_ttl: i64) -> (r: Result<(), WouError>)
        requires
            old(self).abuse < u64::MAX,
            old(self).window < u64::MAX,
        ensures
            *final(self) == ladder_step(*old(self)).0,
            ladder_answer(ladder_step(*old(self)).1, window_ttl, r),
    {
        if self.banned {
            return Err(WouError::EmailBanned);
        }
        if self.penalized {
            self.banned = true;
            return Err(WouError::EmailBanned);
        }
        self.abuse = self.abuse + 1;
        if self.abuse > OTP_ABUSE_MAX {
            self.penalized = true;
            return Err(WouError::OtpPenalized(OTP_PENALTY_SECS));
        }
        self.window = self.window + 1;
        if self.window > OTP_REQ_MAX {
            let t: u64 = if window_ttl < 1 {
                1
            } else {
                window_ttl as u64
            };
            return Err(WouError::OtpThrottled(t));
        }
        Ok(())
    }
}

proof fn lemma_ladder_run_fresh(n: nat)
    ensures
        n <= 6 ==> ladder_run(fresh_ladder(), n) == (OtpLadder {
            banned: false,
            penalized: false,
            abuse: n as u64,
            window: n as u64,
        }),
        n == 7 ==> ladder_run(fresh_ladder(), n) == (OtpLadder {
            banned: false,
            penalized: true,
            abuse: 7,
            window: 6,
        }),
        n >= 8 ==> ladder_run(fresh_ladder(), n) == (OtpLadder {
            banned: true,
            penalized: true,
            abuse: 7,
            window: 6,
        }),
    decreases n,
{
    if n > 0 {
        lemma_ladder_run_fresh((n - 1) as nat);
        lemma_ladder_run_split(fresh_ladder(), (n - 1) as nat);
    }
}

proof fn lemma_ladder_run_split(s: OtpLadder, n: nat)
    ensures
        ladder_run(s, n + 1) == ladder_step(ladder_run(s, n)).0,
    decreases n,
{
    reveal_with_fuel(ladder_run, 2);
    if n > 0 {
        lemma_ladder_run_split(ladder_step(s).0, (n - 1) as nat);
        assert(ladder_run(s, n + 1) == ladder_run(ladder_step(s).0, n));
        assert(ladder_run(s, n) == ladder_run(ladder_step(s).0, (n - 1) as nat));
    }
}

/// The ladder from a clean address: the first three requests pass, the fourth to sixth are
/// throttled, the seventh earns a penalty and every later one is refused as banned.
pub proof fn law_ladder_from_fresh(n: nat)
    ensures
        ladder_step(ladder_run(fresh_ladder(), n)).1 == (if n < 3 {
            LadderVerdict::Allowed
        } else if n < 6 {
            LadderVerdict::Throttled
        } else if n == 6 {
            LadderVerdict::Penalized
        } else {
            LadderVerdict::Banned
        }),
{
    lemma_ladder_run_fresh(n);
}

/// A ban is absorbing: a banned address stays banned and every request is refused.
pub proof fn law_ban_absorbing(s: OtpLadder, n: nat)
    requires
        s.banned,
    ensures
        ladder_run(s, n) == s,
        ladder_step(ladder_run(s, n)).1 == LadderVerdict::Banned,
    decreases n,
{
    if n > 0 {
        law_ban_absorbing(ladder_step(s).0, (n - 1) as nat);
    }
}

/// Intake state of one client IP while its counters are live.
#[derive(Clone, Copy, Debug, PartialEq, Eq, Structural)]
pub struct IpGate {
    pub blocked: bool,
    pub hour: u64,
    pub day: u64,
}

/// One intake request from an IP: a block refuses; else the request is counted in both
/// windows, and crossing either ceiling blocks the IP.
pub open spec fn ip_step(s: IpGate) -> (IpGate, bool) {
    if s.blocked {
        (s, false)
    } else {
        let h = (s.hour + 1) as u64;
        let d = (s.day + 1) as u64;
        if h > IP_REQ_HR_MAX || d > IP_REQ_DAY_MAX {
            (IpGate { blocked: true, hour: h, day: d }, false)
        } else {
            (IpGate { blocked: false, hour: h, day: d }, true)
        }
    }
}

/// State after `n` requests.
pub open spec fn ip_run(s: IpGate, n: nat) -> IpGate
    decreases n,
{
    if n == 0 {
        s
    } else {
        ip_run(ip_step(s).0, (n - 1) as nat)
    }
}

impl IpGate {
    /// State of an IP with no live counters.
    pub fn fresh() -> (r: IpGate)
        ensures
            r == (IpGate { blocked: false, hour: 0, day: 0 }),
    {
        IpGate { blocked: false, hour: 0, day: 0 }
    }

    /// Gates one intake request by client IP and counts it.
    pub fn tally_ip(&mut self) -> (r: Result<(), WouError>)
        requires
            old(self).hour < u64::MAX,
            old(self).day < u64::MAX,
        ensures
            *final(self) == ip_step(*old(self)).0,
            ip_step(*old(self)).1 ==> r is Ok,
            !ip_step(*old(self)).1 ==> r matches Err(WouError::IpBlocked),
    {
        if self.blocked {
            return Err(WouError::IpBlocked);
        }
        self.hour = self.hour + 1;
        self.day = self.day + 1;
        if self.hour > IP_REQ_HR_MAX || self.day > IP_REQ_DAY_MAX {
            self.blocked = true;
            return Err(WouError::IpBlocked);
        }
        Ok(())
    }
}

proof fn lemma_ip_run_fresh(n: nat)
    ensures
        n <= 100 ==> ip_run(IpGate { blocked: false, hour: 0, day: 0 }, n) == (IpGate {
            blocked: false,
            hour: n as u64,
            day: n as u64,
        }),
        n > 100 ==> ip_run(IpGate { blocked: false, hour: 0, day: 0 }, n) == (IpGate {
            blocked: true,
            hour: 101,
            day: 101,
        }),
    decreases n,
{
    if n > 0 {
        lemma_ip_run_fresh((n - 1) as nat);
        lemma_ip_run_split(IpGate { blocked: false, hour: 0, day: 0 }, (n - 1) as nat);
    }
}

proof fn lemma_ip_run_split(s: IpGate, n: nat)
    ensures
        ip_run(s, n + 1) == ip_step(ip_run(s, n)).0,
    decreases n,
{
    reveal_with_fuel(ip_run, 2);
    if n > 0 {
        lemma_ip_run_split(ip_step(s).0, (n - 1) as nat);
        assert(ip_run(s, n + 1) == ip_run(ip_step(s).0, n));
        assert(ip_run(s, n) == ip_run(ip_step(s).0, (n - 1) as nat));
    }
}

/// A fresh IP gets one hundred requests through; the next and every later one is blocked.
pub proof fn law_ip_ceiling(n: nat)
    ensures
        ip_step(ip_run(IpGate { blocked: false, hour: 0, day: 0 }, n)).1 == (n < 100),
{
    lemma_ip_run_fresh(n);
}

/// The pending code of one address, its wrong-guess counter and the address's abuse count.
pub struct OtpSlot {
    pub pending: Option<PendingOtp>,
    pub fails: u64,
    pub abuse: u64,
}

impl OtpSlot {
    /// Checks a guess against the pending code. A right guess consumes the code and clears
    /// the guess counter. A wrong guess counts against the guess counter and the abuse
    /// count, and the fifth wrong guess burns the code.
    pub fn get_and_consume_otp(&mut self, code: &str) -> (r: Result<PendingOtp, WouError>)
        requires
            old(self).fails < u64::MAX,
            old(self).abuse < u64::MAX,
        ensures
            match old(self).pending {
                None => r matches Err(WouError::InvalidOrExpiredOtp) && *final(self) == *old(self),
                Some(p) => if p.code@ == code@ {
                    &&& r == Ok::<PendingOtp, WouError>(p)
                    &&& final(self).pending is None
                    &&& final(self).fails == 0
                    &&& final(self).abuse == old(self).abuse
                } else {
                    &&& r matches Err(WouError::InvalidOrExpiredOtp)
                    &&& *final(self) == wrong_guess(*old(self))
                    &&& final(self).abuse == old(self).abuse + 1
                    &&& if old(self).fails + 1 >= OTP_GUESS_MAX {
                        final(self).pending is None && final(self).fails == 0
                    } else {
                        final(self).pending == old(self).pending && final(self).fails == old(self).fails + 1
                    }
                },
            },
    {
        match self.pending.take() {
            None => Err(WouError::InvalidOrExpiredOtp),
            Some(p) => {
                if str_eq(p.code.as_str(), code) {
                    self.fails = 0;
                    Ok(p)
                } else {
                    self.fails = self.fails + 1;
                    self.abuse = self.abuse + 1;
                    if self.fails >= OTP_GUESS_MAX {
                        self.fails = 0;
                    } else {
                        self.pending = Some(p);
                    }
                    Err(WouError::InvalidOrExpiredOtp)
                }
            },
        }
    }
}

/// The slot after one wrong guess: the guess counts against the abuse count, and against
/// the guess counter until the fifth, which burns the code. Without a code nothing changes.
pub open spec fn wrong_guess(s: OtpSlot) -> OtpSlot {
    match s.pending {
        None => s,
        Some(_) => if s.fails + 1 >= OTP_GUESS_MAX {
            OtpSlot { pending: None, fails: 0, abuse: (s.abuse + 1) as u64 }
        } else {
            OtpSlot { pending: s.pending, fails: (s.fails + 1) as u64, abuse: (s.abuse + 1) as u64 }
        },
    }
}

/// The slot after `n` wrong guesses.
pub open spec fn wrong_guesses(s: OtpSlot, n: nat) -> OtpSlot
    decreases n,
{
    if n == 0 {
        s
    } else {
        wrong_guesses(wrong_guess(s), (n - 1) as nat)
    }
}

proof fn lemma_wrong_guesses_split(s: OtpSlot, n: nat)
    ensures
        wrong_guesses(s, n + 1) == wrong_guess(wrong_guesses(s, n)),
    decreases n,
{
    reveal_with_fuel(wrong_guesses, 2);
    if n > 0 {
        lemma_wrong_guesses_split(wrong_guess(s), (n - 1) as nat);
    }
}

/// Guess burn: a code with no wrong guesses yet survives four wrong guesses and is burnt by
/// the fifth; every wrong guess while the code lives counts once against the abuse count.
pub proof fn law_guess_burn(s: OtpSlot, n: nat)
    requires
        s.pending is Some,
        s.fails == 0,
        s.abuse + OTP_GUESS_MAX <= u64::MAX,
    ensures
        n < OTP_GUESS_MAX ==> wrong_guesses(s, n) == (OtpSlot {
            pending: s.pending,
            fails: n as u64,
            abuse: (s.abuse + n) as u64,
        }),
        n >= OTP_GUESS_MAX ==> wrong_guesses(s, n).pending is None && wrong_guesses(s, n).abuse
            == s.abuse + OTP_GUESS_MAX,
    decreases n,
{
    if n > 0 {
        law_guess_burn(s, (n - 1) as nat);
        lemma_wrong_guesses_split(s, (n - 1) as nat);
    }
}

} // verus!
