use vstd::prelude::*;
use vstd::string::*;
use crate::account::records_link;
use crate::models::{same_provider, AuthProvider, LinkedIdentity, PlayerAccount};
use crate::clans::ascii_alnum;
use crate::qr::random_alphanumeric;
use crate::text::{str_eq, string_of, to_uppercase, uppercase_of};

verus! {

/// Length of a bot link code before it is upper-cased.
pub const LINK_CODE_LEN: usize = 8;

/// A fresh bot link code: eight random ASCII letters and digits, upper-cased.
pub fn new_link_code() -> (r: String)
    ensures
        exists|s: Seq<char>|
            s.len() == LINK_CODE_LEN && (forall|i: int| 0 <= i < s.len() ==> ascii_alnum(#[trigger] s[i]))
                && r@ == #[trigger] uppercase_of(s),
{
    let raw = random_alphanumeric(LINK_CODE_LEN);
    let r = to_uppercase(raw.as_str());
    proof {
        assert(r@ == uppercase_of(raw@));
    }
    r
}

/// Which bot channels an account has linked, with their chat ids.
pub struct LinkedResponse {
    pub telegram: bool,
    pub discord: bool,
    pub telegram_ids: Vec<String>,
    pub discord_ids: Vec<String>,
}

/// A request to unlink one bot chat.
pub struct UnlinkPayload {
    pub external_id: String,
}

/// Texts of a list of strings.
pub open spec fn texts(s: Seq<String>) -> Seq<Seq<char>> {
    s.map_values(|x: String| x@)
}

/// Ids of the Discord identities among `links`, in order.
pub open spec fn discord_ids_of(links: Seq<LinkedIdentity>) -> Seq<Seq<char>>
    decreases links.len(),
{
    if links.len() == 0 {
        Seq::empty()
    } else {
        let rest = discord_ids_of(links.drop_last());
        if same_provider(links.last().provider, AuthProvider::Discord) {
            rest.push(links.last().external_id@)
        } else {
            rest
        }
    }
}

/// `cur` followed by each id of `extra` that is not already there (checked against what
/// was added so far).
pub open spec fn add_missing(cur: Seq<Seq<char>>, extra: Seq<Seq<char>>) -> Seq<Seq<char>>
    decreases extra.len(),
{
    if extra.len() == 0 {
        cur
    } else {
        let prev = add_missing(cur, extra.drop_last());
        if prev.contains(extra.last()) {
            prev
        } else {
            prev.push(extra.last())
        }
    }
}

/// Whether some element of `v` has the text `s`.
fn has_id(v: &Vec<String>, s: &str) -> (b: bool)
    ensures
        b == texts(v@).contains(s@),
{
    let mut i: usize = 0;
    while i < v.len()
        invariant
            i <= v@.len(),
            forall|j: int| 0 <= j < i ==> v@[j]@ != s@,
        decreases v@.len() - i,
    {
        if str_eq(v[i].as_str(), s) {
            assert(texts(v@)[i as int] == s@);
            return true;
        }
        i = i + 1;
    }
    proof {
        if texts(v@).contains(s@) {
            let j = choose|j: int| 0 <= j < texts(v@).len() && texts(v@)[j] == s@;
            assert(v@[j]@ == s@);
        }
    }
    false
}

/// The Discord chat ids of an account: those linked through the bot, then the ids of
/// Discord identities linked through sign-in that are not among them yet.
pub fn discord_chat_ids(bot_ids: Vec<String>, account: &Option<PlayerAccount>) -> (r: Vec<String>)
    ensures
        texts(r@) == match account {
            Some(a) => add_missing(texts(bot_ids@), discord_ids_of(a.linked_identities@)),
            None => texts(bot_ids@),
        },
{
    let mut out = bot_ids;
    let ghost base = texts(out@);
    match account {
        None => {},
        Some(a) => {
            let links = &a.linked_identities;
            let mut i: usize = 0;
            while i < links.len()
                invariant
                    i <= links@.len(),
                    texts(out@) == add_missing(base, discord_ids_of(links@.subrange(0, i as int))),
                decreases links@.len() - i,
            {
                let ghost sub = links@.subrange(0, i + 1);
                assert(sub.drop_last() =~= links@.subrange(0, i as int));
                assert(sub.last() == links@[i as int]);
                let li = &links[i];
                let is_discord = match li.provider {
                    AuthProvider::Discord => true,
                    _ => false,
                };
                if is_discord {
                    let ghost ids = discord_ids_of(sub);
                    assert(ids.drop_last() =~= discord_ids_of(links@.subrange(0, i as int)));
                    assert(ids.last() == li.external_id@);
                    if !has_id(&out, li.external_id.as_str()) {
                        out.push(li.external_id.clone());
                        assert(texts(out@) =~= add_missing(base, ids));
                    }
                } else {
                    assert(discord_ids_of(sub) == discord_ids_of(links@.subrange(0, i as int)));
                }
                i = i + 1;
            }
            assert(links@.subrange(0, links@.len() as int) =~= links@);
        },
    }
    out
}

/// What the linked-channels view answers for the Telegram chats and Discord ids found.
pub fn linked_response(telegram_ids: Vec<String>, discord_ids: Vec<String>) -> (r: LinkedResponse)
    ensures
        r.telegram == (telegram_ids@.len() > 0),
        r.discord == (discord_ids@.len() > 0),
        r.telegram_ids == telegram_ids,
        r.discord_ids == discord_ids,
{
    LinkedResponse {
        telegram: telegram_ids.len() > 0,
        discord: discord_ids.len() > 0,
        telegram_ids,
        discord_ids,
    }
}

/// Bot namespaces that can be unlinked: `tg` and `dc`.
pub fn unlink_namespace_ok(ns: &str) -> (b: bool)
    ensures
        b == (ns@ == "tg"@ || ns@ == "dc"@),
{
    str_eq(ns, "tg") || str_eq(ns, "dc")
}

/// Only the account a chat is linked to may unlink it.
pub fn unlink_allowed(owner: Option<&str>, caller: &str) -> (b: bool)
    ensures
        b == (owner matches Some(o) && o@ == caller@),
{
    match owner {
        Some(o) => str_eq(o, caller),
        None => false,
    }
}

/// The identities that stay when `provider`/`external_id` is unlinked, in order.
pub open spec fn without_link(s: Seq<LinkedIdentity>, provider: AuthProvider, external_id: Seq<char>)
    -> Seq<LinkedIdentity>
    decreases s.len(),
{
    if s.len() == 0 {
        s
    } else {
        let rest = without_link(s.drop_last(), provider, external_id);
        if records_link(s.last(), provider, external_id) {
            rest
        } else {
            rest.push(s.last())
        }
    }
}

/// Drops every identity recording `provider`/`external_id` from the account at `now`.
pub fn forget_link(account: &mut PlayerAccount, provider: &AuthProvider, external_id: &str, now: u64)
    ensures
        final(account).linked_identities@ == without_link(
            old(account).linked_identities@,
            *provider,
            external_id@,
        ),
        final(account).updated_at == now,
        final(account).id == old(account).id,
        final(account).email == old(account).email,
{
    let mut kept: Vec<LinkedIdentity> = Vec::new();
    let n = account.linked_identities.len();
    let ghost links = account.linked_identities@;
    let mut i: usize = 0;
    while i < n
        invariant
            n == links.len(),
            i <= n,
            account.linked_identities@ == links,
            kept@ == without_link(links.subrange(0, i as int), *provider, external_id@),
        decreases n - i,
    {
        let ghost sub = links.subrange(0, i + 1);
        assert(sub.drop_last() =~= links.subrange(0, i as int));
        assert(sub.last() == links[i as int]);
        let li = &account.linked_identities[i];
        if !(li.provider.same_as(provider) && str_eq(li.external_id.as_str(), external_id)) {
            kept.push(li.duplicate());
        }
        i = i + 1;
    }
    assert(links.subrange(0, n as int) =~= links);
    account.linked_identities = kept;
    account.updated_at = now;
}

} // verus!
