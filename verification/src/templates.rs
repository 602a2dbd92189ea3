use vstd::prelude::*;
use vstd::string::*;
use crate::models::GameContext;
use crate::text::{decimal_spec, decimal_string, push_char, chars_vec};

verus! {

/// A rendered email: subject, HTML body and plain-text body.
#[derive(Debug)]
pub struct EmailContent {
    pub subject: String,
    pub html_body: String,
    pub text_body: String,
}

pub const OTP_HTML_0: &'static str = "<!DOCTYPE html>\n<html lang=\"en\">\n<head>\n  <meta charset=\"utf-8\">\n  <meta name=\"viewport\" content=\"width=device-width, initial-scale=1.0\">\n  <title>";
pub const OTP_HTML_1: &'static str = "</title>\n  <style>\n    body { font-family: -apple-system, BlinkMacSystemFont, 'Segoe UI', Roboto, Helvetica, Arial, sans-serif; background-color: #0f172a; margin: 0; padding: 24px; color: #f8fafc; }\n    .container { max-width: 520px; margin: 0 auto; background-color: #1e293b; border-radius: 12px; overflow: hidden; border: 1px solid #334155; box-shadow: 0 10px 25px rgba(0,0,0,0.5); }\n    .header { background-color: #0f172a; padding: 24px; text-align: center; border-bottom: 2px solid ";
pub const OTP_HTML_2: &'static str = "; }\n    .header h1 { margin: 0; font-size: 20px; font-weight: 700; letter-spacing: 0.5px; color: #ffffff; }\n    .content { padding: 32px 24px; text-align: center; }\n    .title { font-size: 18px; font-weight: 600; margin-bottom: 12px; color: #f1f5f9; }\n    .subtitle { font-size: 14px; color: #94a3b8; line-height: 1.5; margin-bottom: 24px; }\n    .code-box { background-color: #0f172a; border: 2px dashed ";
pub const OTP_HTML_3: &'static str = "; border-radius: 8px; padding: 18px; font-size: 32px; font-weight: 800; letter-spacing: 8px; color: #ffffff; margin: 0 auto 24px auto; display: inline-block; font-family: 'Courier New', Courier, monospace; }\n    .note { font-size: 12px; color: #64748b; margin-top: 16px; }\n    .footer { background-color: #0f172a; padding: 18px; text-align: center; font-size: 11px; color: #475569; border-top: 1px solid #334155; }\n  </style>\n</head>\n<body>\n  <div class=\"container\">\n    <div class=\"header\">\n      <h1>";
pub const OTP_HTML_4: &'static str = "</h1>\n    </div>\n    <div class=\"content\">\n      <div class=\"title\">Verify Your Player Account</div>\n      <div class=\"subtitle\">Enter the 6-digit code below to link your email, save your game progress, and claim your rewards.</div>\n      <div class=\"code-box\">";
pub const OTP_HTML_5: &'static str = "</div>\n      <div class=\"note\">This code will expire in <strong>";
pub const OTP_HTML_6: &'static str = " minutes</strong>. If you did not request this code, you can safely ignore this email.</div>\n    </div>\n    <div class=\"footer\">\n      Powered by World of Unreal Identity &bull; Security &bull; Zero Spam\n    </div>\n  </div>\n</body>\n</html>";
pub const WELCOME_HTML_0: &'static str = "<!DOCTYPE html>\n<html lang=\"en\">\n<head>\n  <meta charset=\"utf-8\">\n  <meta name=\"viewport\" content=\"width=device-width, initial-scale=1.0\">\n  <title>";
pub const WELCOME_HTML_1: &'static str = "</title>\n</head>\n<body style=\"font-family: -apple-system, BlinkMacSystemFont, 'Segoe UI', Roboto, Helvetica, Arial, sans-serif; background-color: #0f172a; margin: 0; padding: 24px; color: #f8fafc;\">\n  <div style=\"max-width: 520px; margin: 0 auto; background-color: #1e293b; border-radius: 12px; border: 1px solid #334155; overflow: hidden;\">\n    <div style=\"background-color: #0f172a; padding: 24px; text-align: center; border-bottom: 2px solid ";
pub const WELCOME_HTML_2: &'static str = ";\">\n      <h1 style=\"margin: 0; font-size: 20px; color: #ffffff;\">";
pub const WELCOME_HTML_3: &'static str = "</h1>\n    </div>\n    <div style=\"padding: 32px 24px; text-align: center;\">\n      <div style=\"font-size: 18px; font-weight: 600; margin-bottom: 12px;\">Welcome, ";
pub const WELCOME_HTML_4: &'static str = "!</div>\n      <div style=\"font-size: 14px; color: #94a3b8; line-height: 1.5;\">Your account is verified and your progress is saved. You can sign in to every World of Unreal game with this email.</div>\n      <div style=\"font-size: 12px; color: #64748b; margin-top: 16px;\">This is a one-time welcome message. Questions, appeals or anything that looks wrong: security@worldofunreal.com</div>\n    </div>\n    <div style=\"background-color: #0f172a; padding: 18px; text-align: center; font-size: 11px; color: #475569; border-top: 1px solid #334155;\">\n      Powered by World of Unreal Identity &bull; Security &bull; Zero Spam\n    </div>\n  </div>\n</body>\n</html>";
pub const ALERT_HTML_0: &'static str = "<!DOCTYPE html>\n<html lang=\"en\">\n<head><meta charset=\"utf-8\"><title>";
pub const ALERT_HTML_1: &'static str = "</title></head>\n<body style=\"font-family: monospace; background-color: #0f172a; color: #f8fafc; padding: 24px;\">\n  <h2 style=\"color: #f59e0b;\">";
pub const ALERT_HTML_2: &'static str = "</h2>\n  <pre style=\"white-space: pre-wrap;\">";
pub const ALERT_HTML_3: &'static str = "</pre>\n  <p style=\"font-size: 11px; color: #64748b;\">WouID Security &bull; automated alert</p>\n</body>\n</html>";

/// Accent colour of each game's mail theme.
pub open spec fn theme_color(context: GameContext) -> Seq<char> {
    match context {
        GameContext::ShadowsOfWar => "#e11d48"@,
        GameContext::Cosmicrafts => "#0284c7"@,
        GameContext::Nftropoly => "#8b5cf6"@,
        GameContext::Darkrift => "#10b981"@,
        GameContext::WorldOfUnreal => "#f59e0b"@,
    }
}

fn theme_color_of(context: GameContext) -> (r: &'static str)
    ensures
        r@ == theme_color(context),
{
    match context {
        GameContext::ShadowsOfWar => "#e11d48",
        GameContext::Cosmicrafts => "#0284c7",
        GameContext::Nftropoly => "#8b5cf6",
        GameContext::Darkrift => "#10b981",
        GameContext::WorldOfUnreal => "#f59e0b",
    }
}

pub open spec fn otp_subject(context: GameContext, code: Seq<char>) -> Seq<char> {
    "🛡️ Your "@ + context.spec_display_name() + " Verification Code: "@ + code
}

pub open spec fn otp_html(context: GameContext, code: Seq<char>, minutes: nat) -> Seq<char> {
    OTP_HTML_0@ + otp_subject(context, code) + OTP_HTML_1@ + theme_color(context) + OTP_HTML_2@
        + theme_color(context) + OTP_HTML_3@ + context.spec_display_name() + OTP_HTML_4@ + code
        + OTP_HTML_5@ + decimal_spec(minutes) + OTP_HTML_6@
}

pub open spec fn otp_text(context: GameContext, code: Seq<char>, minutes: nat) -> Seq<char> {
    "Your "@ + context.spec_display_name() + " verification code is: "@ + code
        + "\n\nThis code expires in "@ + decimal_spec(minutes)
        + " minutes.\nIf you did not request this, you can safely ignore this message."@
}

/// Branded HTML and plain-text mail carrying a 6-digit verification code.
pub fn render_otp_email(context: GameContext, code: &str, expires_in_minutes: u64) -> (r: EmailContent)
    ensures
        r.subject@ == otp_subject(context, code@),
        r.html_body@ == otp_html(context, code@, expires_in_minutes as nat),
        r.text_body@ == otp_text(context, code@, expires_in_minutes as nat),
{
    let game_name = context.display_name();
    let theme = theme_color_of(context);
    let minutes = decimal_string(expires_in_minutes);
    let mut subject = String::from_str("🛡️ Your ");
    subject.append(game_name);
    subject.append(" Verification Code: ");
    subject.append(code);

    let mut html = String::from_str(OTP_HTML_0);
    html.append(subject.as_str());
    html.append(OTP_HTML_1);
    html.append(theme);
    html.append(OTP_HTML_2);
    html.append(theme);
    html.append(OTP_HTML_3);
    html.append(game_name);
    html.append(OTP_HTML_4);
    html.append(code);
    html.append(OTP_HTML_5);
    html.append(minutes.as_str());
    html.append(OTP_HTML_6);

    let mut text = String::from_str("Your ");
    text.append(game_name);
    text.append(" verification code is: ");
    text.append(code);
    text.append("\n\nThis code expires in ");
    text.append(minutes.as_str());
    text.append(" minutes.\nIf you did not request this, you can safely ignore this message.");
    EmailContent { subject, html_body: html, text_body: text }
}

/// HTML entity for one character (`&`, `<`, `>`, `"`, `'`), or the character itself.
pub open spec fn escape_char(c: char) -> Seq<char> {
    if c == '&' {
        "&amp;"@
    } else if c == '<' {
        "&lt;"@
    } else if c == '>' {
        "&gt;"@
    } else if c == '"' {
        "&quot;"@
    } else if c == '\'' {
        "&#39;"@
    } else {
        seq![c]
    }
}

/// `s` with HTML special characters replaced by entities.
pub open spec fn html_escape_spec(s: Seq<char>) -> Seq<char>
    decreases s.len(),
{
    if s.len() == 0 {
        Seq::empty()
    } else {
        html_escape_spec(s.drop_last()) + escape_char(s.last())
    }
}

/// HTML-escaped copy of `s`.
pub fn html_escape(s: &str) -> (r: String)
    ensures
        r@ == html_escape_spec(s@),
{
    let v = chars_vec(s);
    let mut r = String::new();
    let mut i: usize = 0;
    while i < v.len()
        invariant
            i <= v@.len(),
            v@ == s@,
            r@ == html_escape_spec(v@.subrange(0, i as int)),
        decreases v@.len() - i,
    {
        let c = v[i];
        if c == '&' {
            r.append("&amp;");
        } else if c == '<' {
            r.append("&lt;");
        } else if c == '>' {
            r.append("&gt;");
        } else if c == '"' {
            r.append("&quot;");
        } else if c == '\'' {
            r.append("&#39;");
        } else {
            push_char(&mut r, c);
        }
        assert(v@.subrange(0, i + 1).drop_last() =~= v@.subrange(0, i as int));
        i = i + 1;
    }
    assert(v@.subrange(0, v@.len() as int) =~= v@);
    r
}

pub open spec fn welcome_subject(context: GameContext) -> Seq<char> {
    "Welcome to "@ + context.spec_display_name()
}

pub open spec fn welcome_html(context: GameContext, display_name: Seq<char>) -> Seq<char> {
    WELCOME_HTML_0@ + welcome_subject(context) + WELCOME_HTML_1@ + theme_color(context)
        + WELCOME_HTML_2@ + context.spec_display_name() + WELCOME_HTML_3@ + html_escape_spec(
        display_name,
    ) + WELCOME_HTML_4@
}

pub open spec fn welcome_text(context: GameContext, display_name: Seq<char>) -> Seq<char> {
    "Welcome, "@ + display_name + "!\n\nYour "@ + context.spec_display_name()
        + " account is verified and your progress is saved.\nThis is a one-time welcome message. Questions or appeals: security@worldofunreal.com"@
}

/// One-time welcome mail for a newly verified account. The subject names only the game;
/// the player's name appears (escaped) in the body.
pub fn render_welcome_email(context: GameContext, display_name: &str) -> (r: EmailContent)
    ensures
        r.subject@ == welcome_subject(context),
        r.html_body@ == welcome_html(context, display_name@),
        r.text_body@ == welcome_text(context, display_name@),
{
    let game_name = context.display_name();
    let mut subject = String::from_str("Welcome to ");
    subject.append(game_name);
    let escaped = html_escape(display_name);
    let mut html = String::from_str(WELCOME_HTML_0);
    html.append(subject.as_str());
    html.append(WELCOME_HTML_1);
    html.append(theme_color_of(context));
    html.append(WELCOME_HTML_2);
    html.append(game_name);
    html.append(WELCOME_HTML_3);
    html.append(escaped.as_str());
    html.append(WELCOME_HTML_4);
    let mut text = String::from_str("Welcome, ");
    text.append(display_name);
    text.append("!\n\nYour ");
    text.append(game_name);
    text.append(" account is verified and your progress is saved.\nThis is a one-time welcome message. Questions or appeals: security@worldofunreal.com");
    EmailContent { subject, html_body: html, text_body: text }
}

pub open spec fn alert_subject(subject: Seq<char>) -> Seq<char> {
    "[WOU-ALERT] "@ + subject
}

pub open spec fn alert_html(subject: Seq<char>, body: Seq<char>) -> Seq<char> {
    ALERT_HTML_0@ + html_escape_spec(alert_subject(subject)) + ALERT_HTML_1@ + html_escape_spec(
        subject,
    ) + ALERT_HTML_2@ + html_escape_spec(body) + ALERT_HTML_3@
}

/// Internal security alert for the operations inbox; the subject is tagged `[WOU-ALERT]`.
pub fn render_admin_alert(subject: &str, body: &str) -> (r: EmailContent)
    ensures
        r.subject@ == alert_subject(subject@),
        r.html_body@ == alert_html(subject@, body@),
        r.text_body@ == body@,
{
    let mut full_subject = String::from_str("[WOU-ALERT] ");
    full_subject.append(subject);
    let mut html = String::from_str(ALERT_HTML_0);
    let e0 = html_escape(full_subject.as_str());
    html.append(e0.as_str());
    html.append(ALERT_HTML_1);
    let e1 = html_escape(subject);
    html.append(e1.as_str());
    html.append(ALERT_HTML_2);
    let e2 = html_escape(body);
    html.append(e2.as_str());
    html.append(ALERT_HTML_3);
    EmailContent { subject: full_subject, html_body: html, text_body: String::from_str(body) }
}

} // verus!
