use vstd::prelude::*;
use vstd::string::*;
use crate::access::{link_command_code, parse_qr_action};
use crate::text::{chars_vec, concat2, str_eq, to_uppercase, trim_spec, uppercase_of};
use crate::web3::{begins_with, strip_prefix_all};

verus! {

/// What a bot does with an incoming update, before any storage is touched.
pub enum BotStep {
    /// Nothing to do (acknowledge silently).
    Ignore,
    /// Answer a Discord ping.
    Pong,
    /// Answer with this fixed text.
    Say(&'static str),
    /// Redeem this link code for the sender.
    Link(String),
    /// Link the sender by the Discord login already on an account.
    MatchLogin,
    /// Refuse (and drop) this QR challenge.
    Deny(String),
    /// Approve this QR challenge for the sender's linked account.
    Approve(String),
}

/// The challenge a button names after its `qr:ok:` / `qr:no:` prefix.
pub open spec fn button_challenge(data: Seq<char>) -> Seq<char> {
    data.subrange(6, data.len() as int)
}

/// A button press that approves (`qr:ok:`) or denies (`qr:no:`) a non-empty challenge, as
/// the step it asks for; `None` for anything else.
pub open spec fn button_step(data: Seq<char>) -> Option<(bool, Seq<char>)> {
    if begins_with(data, "qr:ok:"@) && button_challenge(data).len() > 0 {
        Some((true, button_challenge(data)))
    } else if !begins_with(data, "qr:ok:"@) && begins_with(data, "qr:no:"@) && button_challenge(data).len() > 0 {
        Some((false, button_challenge(data)))
    } else {
        None
    }
}

fn button(data: &str) -> (r: Option<(bool, String)>)
    ensures
        match button_step(data@) {
            Some((a, c)) => r matches Some((x, y)) && x == a && y@ == c,
            None => r is None,
        },
{
    match parse_qr_action(data) {
        Some((a, c)) => if chars_vec(c.as_str()).len() > 0 {
            Some((a, c))
        } else {
            None
        },
        None => None,
    }
}

/// Payload of a QR approval button: `qr:ok:` or `qr:no:` followed by the challenge id.
pub open spec fn button_data(approve: bool, challenge: Seq<char>) -> Seq<char> {
    (if approve { "qr:ok:"@ } else { "qr:no:"@ }) + challenge
}

/// Payload of a QR approval button (see `button_data`).
pub fn qr_button_data(approve: bool, challenge_id: &str) -> (r: String)
    ensures
        r@ == button_data(approve, challenge_id@),
{
    if approve {
        concat2("qr:ok:", challenge_id)
    } else {
        concat2("qr:no:", challenge_id)
    }
}

/// What a push writes into a button is what a press of it asks for: the same verdict on the
/// same challenge (for any non-empty challenge id).
pub proof fn law_button_round_trip(approve: bool, challenge: Seq<char>)
    requires
        challenge.len() > 0,
    ensures
        button_step(button_data(approve, challenge)) == Some((approve, challenge)),
{
    reveal_strlit("qr:ok:");
    reveal_strlit("qr:no:");
    let d = button_data(approve, challenge);
    assert(button_challenge(d) =~= challenge);
    if approve {
        assert(d.subrange(0, 6) =~= "qr:ok:"@);
    } else {
        assert(d.subrange(0, 6) =~= "qr:no:"@);
        assert(d.subrange(0, 6)[3] != "qr:ok:"@[3]);
    }
}

/// A Telegram button press in chat `chat_id` of type `chat_type`: ignored without a chat or
/// a valid button; refused outside private chats; otherwise a deny or an approve.
pub fn telegram_callback_step(chat_id: &str, chat_type: &str, data: &str) -> (r: BotStep)
    ensures
        (chat_id@.len() == 0 || button_step(data@) is None) ==> r is Ignore,
        chat_id@.len() > 0 && button_step(data@) is Some && chat_type@ != "private"@ ==> (r matches BotStep::Say(
            t,
        ) && t@ == "Use a private chat."@),
        chat_id@.len() > 0 && chat_type@ == "private"@ ==> match button_step(data@) {
            Some((true, c)) => r matches BotStep::Approve(x) && x@ == c,
            Some((false, c)) => r matches BotStep::Deny(x) && x@ == c,
            None => r is Ignore,
        },
{
    if chars_vec(chat_id).len() == 0 {
        return BotStep::Ignore;
    }
    match button(data) {
        None => BotStep::Ignore,
        Some((approve, c)) => {
            if !str_eq(chat_type, "private") {
                BotStep::Say("Use a private chat.")
            } else if approve {
                BotStep::Approve(c)
            } else {
                BotStep::Deny(c)
            }
        },
    }
}

/// The code a `/link CODE` text carries (see `link_command_code`).
pub open spec fn command_code(text: Seq<char>) -> Seq<char> {
    uppercase_of(trim_spec(strip_prefix_all(trim_spec(text), "/link"@)))
}

/// A Telegram text message: ignored outside private chats; without a code the bot explains
/// how to link; otherwise it redeems the code.
pub fn telegram_message_step(chat_id: &str, chat_type: &str, text: &str) -> (r: BotStep)
    ensures
        (chat_id@.len() == 0 || chat_type@ != "private"@) ==> r is Ignore,
        chat_id@.len() > 0 && chat_type@ == "private"@ ==> if command_code(text@).len() == 0 {
            r matches BotStep::Say(t) && t@ == "Send /link YOURCODE from Hyper to connect this chat."@
        } else {
            r matches BotStep::Link(c) && c@ == command_code(text@)
        },
{
    if chars_vec(chat_id).len() == 0 || !str_eq(chat_type, "private") {
        return BotStep::Ignore;
    }
    let code = link_command_code(text);
    if chars_vec(code.as_str()).len() == 0 {
        BotStep::Say("Send /link YOURCODE from Hyper to connect this chat.")
    } else {
        BotStep::Link(code)
    }
}

/// A Discord interaction of type `kind` from `user_id`: a ping is answered; an unknown user
/// is told so; a slash command (type 2) redeems its upper-cased `code` option, or without one
/// matches the Discord login in a DM and asks for a code in a server; a button (type 3)
/// approves or denies its challenge; anything else gets `?`.
pub fn discord_step(kind: Option<u64>, user_id: &str, code: &str, in_guild: bool, custom_id: &str) -> (r: BotStep)
    ensures
        kind == Some(1u64) ==> r is Pong,
        kind != Some(1u64) && user_id@.len() == 0 ==> (r matches BotStep::Say(t) && t@ == "Unknown user."@),
        kind == Some(2u64) && user_id@.len() > 0 ==> if uppercase_of(code@).len() > 0 {
            r matches BotStep::Link(c) && c@ == uppercase_of(code@)
        } else if !in_guild {
            r is MatchLogin
        } else {
            r matches BotStep::Say(t) && t@ == "Give me a code: Hyper \u{2192} link Discord (DMs only without a code)."@
        },
        kind == Some(3u64) && user_id@.len() > 0 ==> match button_step(custom_id@) {
            Some((true, c)) => r matches BotStep::Approve(x) && x@ == c,
            Some((false, c)) => r matches BotStep::Deny(x) && x@ == c,
            None => r matches BotStep::Say(t) && t@ == "Unknown button."@,
        },
        kind != Some(1u64) && kind != Some(2u64) && kind != Some(3u64) && user_id@.len() > 0 ==> (
        r matches BotStep::Say(t) && t@ == "?"@),
{
    if kind == Some(1u64) {
        return BotStep::Pong;
    }
    if chars_vec(user_id).len() == 0 {
        return BotStep::Say("Unknown user.");
    }
    if kind == Some(2u64) {
        let c = to_uppercase(code);
        if chars_vec(c.as_str()).len() > 0 {
            return BotStep::Link(c);
        }
        if !in_guild {
            return BotStep::MatchLogin;
        }
        return BotStep::Say("Give me a code: Hyper \u{2192} link Discord (DMs only without a code).");
    }
    if kind == Some(3u64) {
        return match button(custom_id) {
            Some((true, c)) => BotStep::Approve(c),
            Some((false, c)) => BotStep::Deny(c),
            None => BotStep::Say("Unknown button."),
        };
    }
    BotStep::Say("?")
}

/// How a QR approval from a bot ended.
pub enum ApprovalOutcome {
    /// The sender's chat is not linked to an account.
    NotLinked,
    /// The challenge was gone, already used, or could not be approved.
    Spent,
    /// The challenge now carries a session for the linked account.
    Approved,
}

/// The bot's answer to an approval and to a deny; Discord's answers end with a full stop.
pub fn approval_reply(discord: bool, outcome: ApprovalOutcome) -> (t: &'static str)
    ensures
        !discord ==> t@ == match outcome {
            ApprovalOutcome::NotLinked => "Chat not linked. Send /link CODE first."@,
            ApprovalOutcome::Spent => "Already used or expired"@,
            ApprovalOutcome::Approved => "Approved"@,
        },
        discord ==> t@ == match outcome {
            ApprovalOutcome::NotLinked => "This Discord is not linked. Use /link CODE first."@,
            ApprovalOutcome::Spent => "Already used or expired."@,
            ApprovalOutcome::Approved => "Approved."@,
        },
{
    match (discord, outcome) {
        (false, ApprovalOutcome::NotLinked) => "Chat not linked. Send /link CODE first.",
        (false, ApprovalOutcome::Spent) => "Already used or expired",
        (false, ApprovalOutcome::Approved) => "Approved",
        (true, ApprovalOutcome::NotLinked) => "This Discord is not linked. Use /link CODE first.",
        (true, ApprovalOutcome::Spent) => "Already used or expired.",
        (true, ApprovalOutcome::Approved) => "Approved.",
    }
}

/// The bot's answer to a deny.
pub fn deny_reply(discord: bool) -> (t: &'static str)
    ensures
        t@ == (if discord { "Denied."@ } else { "Denied"@ }),
{
    if discord {
        "Denied."
    } else {
        "Denied"
    }
}

/// The bot's answer to a redeemed link code; a refused one is answered with its reason.
pub fn linked_reply(discord: bool) -> (t: &'static str)
    ensures
        t@ == (if discord {
            "Account linked. Hyper will now offer push approval here."@
        } else {
            "Chat linked. Hyper will now offer push approval here."@
        }),
{
    if discord {
        "Account linked. Hyper will now offer push approval here."
    } else {
        "Chat linked. Hyper will now offer push approval here."
    }
}

/// The bot's answer to a Discord DM without a code, by whether an account carries the
/// sender's Discord login.
pub fn login_match_reply(matched: bool) -> (t: &'static str)
    ensures
        t@ == (if matched {
            "Account matched by your Discord login. Push approval on."@
        } else {
            "Give me a code: Hyper \u{2192} link Discord."@
        }),
{
    if matched {
        "Account matched by your Discord login. Push approval on."
    } else {
        "Give me a code: Hyper \u{2192} link Discord."
    }
}

/// Why a link code is refused, as the bot says it.
pub enum LinkRefusal {
    TooManyTries,
    UnknownCode,
}

pub fn link_refusal_text(r: LinkRefusal) -> (t: &'static str)
    ensures
        t@ == match r {
            LinkRefusal::TooManyTries => "Too many attempts. Get a fresh code from Hyper."@,
            LinkRefusal::UnknownCode => "Unknown or expired code. Get a fresh one from Hyper."@,
        },
{
    match r {
        LinkRefusal::TooManyTries => "Too many attempts. Get a fresh code from Hyper.",
        LinkRefusal::UnknownCode => "Unknown or expired code. Get a fresh one from Hyper.",
    }
}

/// A Telegram webhook call is let in only when a secret is configured and the call's
/// secret header carries exactly it.
pub fn telegram_secret_ok(expected: &str, got: &str) -> (r: bool)
    ensures
        r == (expected@.len() > 0 && got@ == expected@),
{
    chars_vec(expected).len() > 0 && str_eq(got, expected)
}

} // verus!
