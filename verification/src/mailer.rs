use vstd::prelude::*;
use vstd::string::*;
use crate::models::GameContext;
use crate::text::{concat3, str_eq, string_of};

verus! {

/// Sender that carries mail when a sender has no transport of its own.
pub const DEFAULT_SENDER: &'static str = "no-reply@worldofunreal.com";

/// SMTP port on which the relay speaks implicit TLS; other ports upgrade with STARTTLS.
pub const IMPLICIT_TLS_PORT: u16 = 465;

/// SMTP settings: the relay and the password of each sender address.
pub struct StalwartMailerConfig {
    pub smtp_host: String,
    pub smtp_port: u16,
    pub domain_passwords: Vec<(String, String)>,
}

/// Password recorded for `sender` among `pairs`: the first entry for it.
pub open spec fn password_of(pairs: Seq<(String, String)>, sender: Seq<char>) -> Option<Seq<char>>
    decreases pairs.len(),
{
    if pairs.len() == 0 {
        None
    } else if pairs[0].0@ == sender {
        Some(pairs[0].1@)
    } else {
        password_of(pairs.drop_first(), sender)
    }
}

impl StalwartMailerConfig {
    /// The password of a sender address, if configured.
    pub fn password_for(&self, sender: &str) -> (r: Option<String>)
        ensures
            match r {
                Some(p) => password_of(self.domain_passwords@, sender@) == Some(p@),
                None => password_of(self.domain_passwords@, sender@) is None,
            },
    {
        let mut i: usize = 0;
        assert(self.domain_passwords@.skip(0) =~= self.domain_passwords@);
        while i < self.domain_passwords.len()
            invariant
                i <= self.domain_passwords@.len(),
                password_of(self.domain_passwords@, sender@) == password_of(
                    self.domain_passwords@.skip(i as int),
                    sender@,
                ),
            decreases self.domain_passwords@.len() - i,
        {
            let ghost rest = self.domain_passwords@.skip(i as int);
            assert(rest[0] == self.domain_passwords@[i as int]);
            assert(rest.drop_first() =~= self.domain_passwords@.skip(i + 1));
            if str_eq(self.domain_passwords[i].0.as_str(), sender) {
                return Some(self.domain_passwords[i].1.clone());
            }
            i = i + 1;
        }
        None
    }

    /// The relay can be built only when the default sender has a password.
    pub fn ready(&self) -> (b: bool)
        ensures
            b == (password_of(self.domain_passwords@, DEFAULT_SENDER@) is Some),
    {
        self.password_for(DEFAULT_SENDER).is_some()
    }

    /// Whether the relay is reached over implicit TLS (else STARTTLS).
    pub fn implicit_tls(&self) -> (b: bool)
        ensures
            b == (self.smtp_port == IMPLICIT_TLS_PORT),
    {
        self.smtp_port == IMPLICIT_TLS_PORT
    }
}

/// A `From` header: `name <address>`.
pub fn from_header(name: &str, address: &str) -> (r: String)
    ensures
        r@ == name@ + " <"@ + address@ + ">"@,
{
    let mut r = concat3(name, " <", address);
    r.append(">");
    r
}

/// The `From` header a game's mail goes out under: its display name and sender.
pub fn game_from_header(context: GameContext) -> (r: String)
    ensures
        r@ == context.spec_display_name() + " <"@ + DEFAULT_SENDER@ + ">"@,
{
    from_header(context.display_name(), context.default_sender())
}

} // verus!
