use vstd::prelude::*;
use vstd::string::*;
use crate::account::{generate_noble_animal_identity, noble_display_name, noble_username};
use crate::clans::ascii_alnum;
use crate::web3::begins_with;
use crate::models::{
    attribute_value, AuthProvider, GameContext, LinkedIdentity, PlayerAccount, PlayerSearchResult,
    SessionClaims, SocialActivity,
};
use crate::text::{
    chars_vec, concat2, concat3, contains_seq, contains_str, ends_with, lowercase_of, starts_with,
    str_eq, string_from_char_range, string_of, strip_leading, strip_leading_spec, to_lowercase,
    trim, trim_spec,
};

verus! {

/// A handle or search text as looked up: trimmed, leading `@`s dropped, lower-cased.
pub open spec fn clean_handle_spec(s: Seq<char>) -> Seq<char> {
    lowercase_of(strip_leading_spec(trim_spec(s), '@'))
}

/// Cleans a handle or search text (see `clean_handle_spec`).
pub fn clean_handle(s: &str) -> (r: String)
    ensures
        r@ == clean_handle_spec(s@),
{
    let t = trim(s);
    let u = strip_leading(t.as_str(), '@');
    to_lowercase(u.as_str())
}

/// A character allowed in a handle: ASCII letter, digit or `_`.
pub open spec fn handle_char(c: char) -> bool {
    ascii_alnum(c) || c == '_'
}

/// Handle syntax: 3 to 24 bytes of ASCII letters, digits and `_`.
pub open spec fn handle_syntax_ok(h: Seq<char>) -> bool {
    3 <= vstd::utf8::encode_utf8(h).len() <= 24 && forall|i: int| 0 <= i < h.len() ==> handle_char(#[trigger] h[i])
}

/// Whether a cleaned handle has valid syntax.
pub fn handle_syntax_valid(h: &str) -> (b: bool)
    ensures
        b == handle_syntax_ok(h@),
{
    let n = h.as_bytes().len();
    if n < 3 || n > 24 {
        return false;
    }
    let v = chars_vec(h);
    let mut i: usize = 0;
    while i < v.len()
        invariant
            i <= v@.len(),
            v@ == h@,
            3 <= vstd::utf8::encode_utf8(h@).len() <= 24,
            forall|j: int| 0 <= j < i ==> handle_char(#[trigger] v@[j]),
        decreases v@.len() - i,
    {
        let c = v[i];
        if !(('a' <= c && c <= 'z') || ('A' <= c && c <= 'Z') || ('0' <= c && c <= '9') || c == '_') {
            assert(!handle_char(v@[i as int]));
            return false;
        }
        i = i + 1;
    }
    true
}

/// Whether a handle is free for an account: its cleaned form has valid syntax, and the
/// account that holds it (as the handle index says) is none or this one.
pub fn is_username_available(username: &str, current_account_id: &str, holder: Option<&str>) -> (b: bool)
    ensures
        b == (handle_syntax_ok(clean_handle_spec(username@)) && match holder {
            Some(h) => h@ == current_account_id@,
            None => true,
        }),
{
    let clean = clean_handle(username);
    if !handle_syntax_valid(clean.as_str()) {
        return false;
    }
    match holder {
        Some(h) => str_eq(h, current_account_id),
        None => true,
    }
}

/// Username index key of an account: its lower-cased handle, none for an empty handle.
pub fn username_index_key(account: &PlayerAccount) -> (r: Option<String>)
    ensures
        account.username@.len() == 0 ==> r is None,
        account.username@.len() > 0 ==> (r matches Some(k) && k@ == lowercase_of(account.username@)),
{
    if chars_vec(account.username.as_str()).len() == 0 {
        None
    } else {
        Some(to_lowercase(account.username.as_str()))
    }
}

/// Identity index key of a provider identity: `provider:external_id`, the id lower-cased.
pub fn identity_index_key(provider: &AuthProvider, external_id: &str) -> (r: String)
    ensures
        r@ == provider.spec_as_str() + ":"@ + lowercase_of(external_id@),
{
    concat3(provider.as_str(), ":", to_lowercase(external_id).as_str())
}

/// Position of the first identity key: after the email key, when there is one.
pub open spec fn first_identity_slot(a: PlayerAccount) -> int {
    if a.email is Some {
        1
    } else {
        0
    }
}

/// Identity index keys that point at an account: its email (`email:` and the lower-cased
/// address), then every linked identity, in order.
pub fn account_index_keys(account: &PlayerAccount) -> (r: Vec<String>)
    ensures
        r@.len() == first_identity_slot(*account) + account.linked_identities@.len(),
        account.email matches Some(e) ==> r@[0]@ == "email:"@ + lowercase_of(e@),
        forall|i: int| 0 <= i < account.linked_identities@.len() ==> (#[trigger] r@[first_identity_slot(*account) + i])@
            == account.linked_identities@[i].provider.spec_as_str() + ":"@ + lowercase_of(
            account.linked_identities@[i].external_id@,
        ),
{
    let mut out: Vec<String> = Vec::new();
    match &account.email {
        Some(e) => {
            out.push(concat2("email:", to_lowercase(e.as_str()).as_str()));
        },
        None => {},
    }
    let mut i: usize = 0;
    while i < account.linked_identities.len()
        invariant
            i <= account.linked_identities@.len(),
            out@.len() == first_identity_slot(*account) + i,
            account.email matches Some(e) ==> out@[0]@ == "email:"@ + lowercase_of(e@),
            forall|j: int| 0 <= j < i ==> (#[trigger] out@[first_identity_slot(*account) + j])@
                == account.linked_identities@[j].provider.spec_as_str() + ":"@ + lowercase_of(
                account.linked_identities@[j].external_id@,
            ),
        decreases account.linked_identities@.len() - i,
    {
        let li = &account.linked_identities[i];
        let k = identity_index_key(&li.provider, li.external_id.as_str());
        let ghost before = out@;
        out.push(k);
        proof {
            assert forall|j: int| 0 <= j < i + 1 implies (#[trigger] out@[first_identity_slot(*account) + j])@
                == account.linked_identities@[j].provider.spec_as_str() + ":"@ + lowercase_of(
                account.linked_identities@[j].external_id@,
            ) by {
                if j < i {
                    assert(out@[first_identity_slot(*account) + j] == before[first_identity_slot(*account) + j]);
                }
            }
        }
        i = i + 1;
    }
    out
}

/// Gives an account with no handle its noble identity: the generated handle, the generated
/// name when it has none, the generated profile when it has no attributes. Says whether it
/// changed anything.
pub fn backfill_noble_identity(account: &mut PlayerAccount) -> (changed: bool)
    ensures
        changed == (old(account).username@.len() == 0),
        !changed ==> *final(account) == *old(account),
        changed ==> {
            &&& final(account).username@ == noble_username(old(account).id@)
            &&& old(account).display_name@.len() == 0 ==> final(account).display_name@ == noble_display_name(old(account).id@)
            &&& old(account).display_name@.len() > 0 ==> final(account).display_name == old(account).display_name
            &&& final(account).id == old(account).id
            &&& final(account).email == old(account).email
            &&& final(account).linked_identities == old(account).linked_identities
        },
{
    if chars_vec(account.username.as_str()).len() != 0 {
        return false;
    }
    let has_name = chars_vec(account.display_name.as_str()).len() > 0;
    let name_arg = if has_name {
        Some(account.display_name.clone())
    } else {
        None
    };
    let (gen_user, gen_name, gen_profile) = generate_noble_animal_identity(account.id.as_str(), name_arg);
    account.username = gen_user;
    if !has_name {
        account.display_name = gen_name;
    }
    if account.profile.custom_attributes.len() == 0 {
        account.profile = gen_profile;
    }
    true
}

/// What a search result shows of an account.
pub open spec fn result_of(a: PlayerAccount, r: PlayerSearchResult) -> bool {
    &&& r.id == a.id
    &&& r.username == a.username
    &&& r.display_name == a.display_name
    &&& r.avatar_url == a.profile.avatar_url
    &&& r.clan_tag == a.clan_tag
    &&& match r.animal_emoji {
        Some(e) => attribute_value(a.profile.custom_attributes@, "animal_emoji"@) == Some(e@),
        None => attribute_value(a.profile.custom_attributes@, "animal_emoji"@) is None,
    }
}

/// The account's handle or display name contains the cleaned query (both lower-cased).
pub open spec fn account_matches(a: PlayerAccount, q: Seq<char>) -> bool {
    contains_seq(lowercase_of(a.username@), q) || contains_seq(lowercase_of(a.display_name@), q)
}

/// Accounts of `s` that match `q`, in order.
pub open spec fn matching(s: Seq<PlayerAccount>, q: Seq<char>) -> Seq<PlayerAccount>
    decreases s.len(),
{
    if s.len() == 0 {
        Seq::empty()
    } else if account_matches(s.last(), q) {
        matching(s.drop_last(), q).push(s.last())
    } else {
        matching(s.drop_last(), q)
    }
}

/// Search matches by handle or by display name: an account of the table is among the
/// matches of a cleaned query exactly when its lower-cased handle or its lower-cased display
/// name contains the query, and every match is an account of the table.
pub proof fn law_search_matches_handle_or_name(s: Seq<PlayerAccount>, q: Seq<char>)
    ensures
        forall|i: int| 0 <= i < s.len() && (contains_seq(lowercase_of(s[i].username@), q) || contains_seq(
            lowercase_of(s[i].display_name@),
            q,
        )) ==> matching(s, q).contains(#[trigger] s[i]),
        forall|j: int| 0 <= j < matching(s, q).len() ==> (contains_seq(
            lowercase_of((#[trigger] matching(s, q)[j]).username@),
            q,
        ) || contains_seq(lowercase_of(matching(s, q)[j].display_name@), q)) && s.contains(matching(s, q)[j]),
    decreases s.len(),
{
    if s.len() > 0 {
        let d = s.drop_last();
        law_search_matches_handle_or_name(d, q);
        let md = matching(d, q);
        assert forall|i: int| 0 <= i < s.len() && (contains_seq(lowercase_of(s[i].username@), q) || contains_seq(
            lowercase_of(s[i].display_name@),
            q,
        )) implies matching(s, q).contains(#[trigger] s[i]) by {
            if i < s.len() - 1 {
                assert(d[i] == s[i]);
                assert(md.contains(d[i]));
                let k = choose|k: int| 0 <= k < md.len() && md[k] == d[i];
                if account_matches(s.last(), q) {
                    assert(matching(s, q)[k] == s[i]);
                }
            } else {
                assert(matching(s, q)[md.len() as int] == s[i]);
            }
        }
        assert forall|j: int| 0 <= j < matching(s, q).len() implies (contains_seq(
            lowercase_of((#[trigger] matching(s, q)[j]).username@),
            q,
        ) || contains_seq(lowercase_of(matching(s, q)[j].display_name@), q)) && s.contains(matching(s, q)[j]) by {
            if j < md.len() {
                assert(matching(s, q)[j] == md[j]);
                let i = choose|i: int| 0 <= i < d.len() && d[i] == md[j];
                assert(s[i] == d[i]);
            } else {
                assert(s[s.len() - 1] == matching(s, q)[j]);
            }
        }
    }
}

fn copy_text(o: &Option<String>) -> (r: Option<String>)
    ensures
        r == *o,
{
    match o {
        Some(s) => Some(s.clone()),
        None => None,
    }
}

/// Player discovery over accounts in table order: the cleaned query (see
/// `clean_handle_spec`) is matched against handles and display names; an empty query finds
/// nothing; the scan stops once `limit` results are in (at least one is returned when any
/// account matches).
pub fn search_players(accounts: &[PlayerAccount], query: &str, limit: usize) -> (r: Vec<PlayerSearchResult>)
    ensures
        clean_handle_spec(query@).len() == 0 ==> r@.len() == 0,
        clean_handle_spec(query@).len() > 0 ==> {
            let m = matching(accounts@, clean_handle_spec(query@));
            let cap = if limit == 0 { 1 } else { limit as int };
            &&& r@.len() == (if m.len() < cap { m.len() as int } else { cap })
            &&& forall|i: int| 0 <= i < r@.len() ==> result_of(m[i], #[trigger] r@[i])
        },
{
    let clean = clean_handle(query);
    if chars_vec(clean.as_str()).len() == 0 {
        return Vec::new();
    }
    let ghost q = clean@;
    let mut out: Vec<PlayerSearchResult> = Vec::new();
    let mut i: usize = 0;
    while i < accounts.len()
        invariant
            i <= accounts@.len(),
            q == clean@,
            q == clean_handle_spec(query@),
            q.len() > 0,
            out@.len() == matching(accounts@.subrange(0, i as int), q).len(),
            forall|k: int| 0 <= k < out@.len() ==> result_of(matching(accounts@.subrange(0, i as int), q)[k], #[trigger] out@[k]),
            out@.len() < (if limit == 0 { 1 } else { limit as int }),
        decreases accounts@.len() - i,
    {
        let a = &accounts[i];
        let ghost sub = accounts@.subrange(0, i + 1);
        assert(sub.drop_last() =~= accounts@.subrange(0, i as int));
        assert(sub.last() == accounts@[i as int]);
        let lu = to_lowercase(a.username.as_str());
        let ld = to_lowercase(a.display_name.as_str());
        if contains_str(lu.as_str(), clean.as_str()) || contains_str(ld.as_str(), clean.as_str()) {
            out.push(PlayerSearchResult {
                id: a.id.clone(),
                username: a.username.clone(),
                display_name: a.display_name.clone(),
                avatar_url: copy_text(&a.profile.avatar_url),
                animal_emoji: a.profile.custom_attribute("animal_emoji"),
                clan_tag: copy_text(&a.clan_tag),
            });
            proof {
                let ms = matching(sub, q);
                assert(ms == matching(accounts@.subrange(0, i as int), q).push(accounts@[i as int]));
                assert forall|k: int| 0 <= k < out@.len() implies result_of(ms[k], #[trigger] out@[k]) by {
                    if k < out@.len() - 1 {
                        assert(ms[k] == matching(accounts@.subrange(0, i as int), q)[k]);
                    }
                }
            }
            if out.len() >= limit {
                proof {
                    lemma_matching_prefix(accounts@, i + 1, q);
                }
                return out;
            }
        }
        i = i + 1;
    }
    assert(accounts@.subrange(0, accounts@.len() as int) =~= accounts@);
    out
}

proof fn lemma_matching_prefix(s: Seq<PlayerAccount>, i: int, q: Seq<char>)
    requires
        0 <= i <= s.len(),
    ensures
        matching(s.subrange(0, i), q).len() <= matching(s, q).len(),
        forall|k: int| 0 <= k < matching(s.subrange(0, i), q).len() ==> #[trigger] matching(s, q)[k]
            == matching(s.subrange(0, i), q)[k],
    decreases s.len() - i,
{
    if i < s.len() {
        let d = s.drop_last();
        lemma_matching_prefix(d, i, q);
        assert(d.subrange(0, i) =~= s.subrange(0, i));
    } else {
        assert(s.subrange(0, i) =~= s);
    }
}

/// A profile update request; absent fields stay as they are.
pub struct UpdateProfilePayload {
    pub display_name: Option<String>,
    pub username: Option<String>,
    pub bio: Option<String>,
    pub avatar_url: Option<String>,
    pub banner_url: Option<String>,
    pub country: Option<String>,
}

/// Why a profile update is refused.
pub enum ProfileRefusal {
    /// The caller is not the account's owner.
    Forbidden,
    /// The cleaned handle is taken by another account or is not a valid handle.
    UsernameTaken(String),
}

/// Trimmed optional text.
pub open spec fn trimmed_opt(o: Option<String>, old_value: Option<String>) -> Option<Seq<char>> {
    match o {
        Some(s) => Some(trim_spec(s@)),
        None => match old_value {
            Some(v) => Some(v@),
            None => None,
        },
    }
}

/// View of optional text.
pub open spec fn opt_text(o: Option<String>) -> Option<Seq<char>> {
    match o {
        Some(s) => Some(s@),
        None => None,
    }
}

/// The payload asks for a handle different (ignoring case) from the current one.
pub open spec fn handle_change_requested(account: PlayerAccount, payload: UpdateProfilePayload) -> bool {
    payload.username matches Some(u) && clean_handle_spec(u@) != lowercase_of(account.username@)
}

/// The requested handle change can be made: the cleaned handle, cleaned once more as the
/// handle index does, is available to this account given who holds it.
pub open spec fn handle_change_allowed(
    account: PlayerAccount,
    payload: UpdateProfilePayload,
    holder: Option<Seq<char>>,
) -> bool {
    match payload.username {
        Some(u) => handle_syntax_ok(clean_handle_spec(clean_handle_spec(u@))) && match holder {
            Some(h) => h == account.id@,
            None => true,
        },
        None => true,
    }
}

/// Applies a profile update by `caller` at `now`. `holder` is the account that the handle
/// index names for the cleaned requested handle, if any. Refused when the caller is not the
/// owner, and when a new handle is requested that is not available; a refused update leaves
/// the account as it was. Otherwise the handle becomes the cleaned one; a display name is
/// taken trimmed when 1 to 40 bytes; bio, avatar, banner and country are taken trimmed.
pub fn apply_profile_edit(
    account: &mut PlayerAccount,
    caller: &str,
    payload: UpdateProfilePayload,
    holder: Option<&str>,
    now: u64,
) -> (r: Result<(), ProfileRefusal>)
    ensures
        r matches Err(ProfileRefusal::Forbidden) <==> caller@ != old(account).id@,
        r matches Err(ProfileRefusal::UsernameTaken(_)) <==> (caller@ == old(account).id@
            && handle_change_requested(*old(account), payload) && !handle_change_allowed(
            *old(account),
            payload,
            opt_str(holder),
        )),
        r matches Err(ProfileRefusal::UsernameTaken(h)) ==> (payload.username matches Some(u)
            ==> h@ == clean_handle_spec(u@)),
        r is Err ==> *final(account) == *old(account),
        r is Ok ==> {
            &&& caller@ == old(account).id@
            &&& (handle_change_requested(*old(account), payload) ==> handle_change_allowed(
                *old(account),
                payload,
                opt_str(holder),
            ))
            &&& match payload.username {
                Some(u) => if handle_change_requested(*old(account), payload) {
                    final(account).username@ == clean_handle_spec(u@)
                } else {
                    final(account).username == old(account).username
                },
                None => final(account).username == old(account).username,
            }
            &&& match payload.display_name {
                Some(n) => if trim_spec(n@).len() > 0 && vstd::utf8::encode_utf8(trim_spec(n@)).len()
                    <= 40 {
                    final(account).display_name@ == trim_spec(n@)
                } else {
                    final(account).display_name == old(account).display_name
                },
                None => final(account).display_name == old(account).display_name,
            }
            &&& opt_text(final(account).profile.bio) == trimmed_opt(payload.bio, old(account).profile.bio)
            &&& opt_text(final(account).profile.avatar_url) == trimmed_opt(
                payload.avatar_url,
                old(account).profile.avatar_url,
            )
            &&& opt_text(final(account).profile.banner_url) == trimmed_opt(
                payload.banner_url,
                old(account).profile.banner_url,
            )
            &&& opt_text(final(account).profile.country) == trimmed_opt(
                payload.country,
                old(account).profile.country,
            )
            &&& final(account).updated_at == now
            &&& final(account).id == old(account).id
        },
{
    if !str_eq(caller, account.id.as_str()) {
        return Err(ProfileRefusal::Forbidden);
    }
    let mut new_handle: Option<String> = None;
    if let Some(u) = &payload.username {
        let clean = clean_handle(u.as_str());
        let current = to_lowercase(account.username.as_str());
        if !str_eq(clean.as_str(), current.as_str()) {
            if !is_username_available(clean.as_str(), account.id.as_str(), holder) {
                return Err(ProfileRefusal::UsernameTaken(clean));
            }
            new_handle = Some(clean);
        }
    }
    if let Some(h) = new_handle {
        account.username = h;
    }
    if let Some(n) = payload.display_name {
        let t = trim(n.as_str());
        if chars_vec(t.as_str()).len() > 0 && t.as_str().as_bytes().len() <= 40 {
            account.display_name = t;
        }
    }
    if let Some(b) = payload.bio {
        account.profile.bio = Some(trim(b.as_str()));
    }
    if let Some(a) = payload.avatar_url {
        account.profile.avatar_url = Some(trim(a.as_str()));
    }
    if let Some(b) = payload.banner_url {
        account.profile.banner_url = Some(trim(b.as_str()));
    }
    if let Some(c) = payload.country {
        account.profile.country = Some(trim(c.as_str()));
    }
    account.updated_at = now;
    Ok(())
}

/// View of an optional string slice.
pub open spec fn opt_str(o: Option<&str>) -> Option<Seq<char>> {
    match o {
        Some(s) => Some(s@),
        None => None,
    }
}

/// Query of a handle availability check: the account asking, if any.
pub struct CheckUsernameQuery {
    pub current_id: Option<String>,
}

/// Answer of a handle availability check.
pub struct CheckUsernameResponse {
    pub username: String,
    pub available: bool,
}

/// Query of a player search.
pub struct SearchPlayersQuery {
    pub q: String,
    pub limit: usize,
}

/// Most results one search or listing returns.
pub const MAX_PAGE: usize = 50;

impl SearchPlayersQuery {
    /// The requested limit, capped at `MAX_PAGE`.
    pub fn capped_limit(&self) -> (r: usize)
        ensures
            r == (if self.limit < MAX_PAGE { self.limit } else { MAX_PAGE }),
    {
        if self.limit < MAX_PAGE {
            self.limit
        } else {
            MAX_PAGE
        }
    }
}

/// Answers whether `username` is free for the asking account (none asking counts as the
/// empty id), given the account that the handle index names for its cleaned form.
pub fn check_username(username: String, query: CheckUsernameQuery, holder: Option<&str>) -> (r:
    CheckUsernameResponse)
    ensures
        r.username == username,
        r.available == (handle_syntax_ok(clean_handle_spec(username@)) && match holder {
            Some(h) => match query.current_id {
                Some(c) => h@ == c@,
                None => h@.len() == 0,
            },
            None => true,
        }),
{
    let current = match &query.current_id {
        Some(c) => string_of(c.as_str()),
        None => string_of(""),
    };
    proof {
        reveal_strlit("");
        if let Some(h) = holder {
            if h@.len() == 0 {
                assert(h@ =~= ""@);
            }
        }
    }
    let available = is_username_available(username.as_str(), current.as_str(), holder);
    CheckUsernameResponse { username, available }
}

/// Query of the global activity feed.
pub struct FeedQuery {
    pub limit: usize,
}

/// An activity a signed-in player records.
pub struct RecordActivityPayload {
    pub account_id: Option<String>,
    pub activity_type: String,
    pub title: String,
    pub description: String,
    pub game: GameContext,
}

/// An activity a game server records for one of its players.
pub struct RecordActivityRequest {
    pub account_id: String,
    pub activity_type: String,
    pub title: String,
    pub description: String,
    pub game: GameContext,
}

/// Answer of a follow or unfollow.
pub struct FollowResponse {
    pub status: &'static str,
    pub follower_id: String,
    pub target_id: String,
}

/// Followers and followed accounts of an account.
pub struct SocialCountsResponse {
    pub account_id: String,
    pub followers: Vec<String>,
    pub following: Vec<String>,
}

/// `a` is the activity of `account` with the given kind, texts, game, id and time.
pub open spec fn activity_by(
    a: SocialActivity,
    account: PlayerAccount,
    activity_type: Seq<char>,
    title: Seq<char>,
    description: Seq<char>,
    game: GameContext,
    id: Seq<char>,
    now: u64,
) -> bool {
    &&& a.id@ == id
    &&& a.account_id@ == account.id@
    &&& a.username@ == account.username@
    &&& a.display_name@ == account.display_name@
    &&& opt_text(a.avatar_url) == opt_text(account.profile.avatar_url)
    &&& a.activity_type@ == activity_type
    &&& a.title@ == title
    &&& a.description@ == description
    &&& a.game == game
    &&& a.timestamp == now
}

fn activity_of(
    account: &PlayerAccount,
    activity_type: String,
    title: String,
    description: String,
    game: GameContext,
    id: String,
    now: u64,
) -> (a: SocialActivity)
    ensures
        activity_by(a, *account, activity_type@, title@, description@, game, id@, now),
{
    let avatar_url = match &account.profile.avatar_url {
        Some(u) => Some(string_of(u.as_str())),
        None => None,
    };
    SocialActivity {
        id,
        account_id: string_of(account.id.as_str()),
        username: string_of(account.username.as_str()),
        display_name: string_of(account.display_name.as_str()),
        avatar_url,
        activity_type,
        title,
        description,
        game,
        timestamp: now,
    }
}

/// The activity a signed-in player records, under the given id and time.
pub fn activity_from_payload(
    account: &PlayerAccount,
    payload: RecordActivityPayload,
    id: String,
    now: u64,
) -> (a: SocialActivity)
    ensures
        activity_by(
            a,
            *account,
            payload.activity_type@,
            payload.title@,
            payload.description@,
            payload.game,
            id@,
            now,
        ),
{
    activity_of(account, payload.activity_type, payload.title, payload.description, payload.game, id, now)
}

/// A server-reported activity is accepted when its trimmed kind is 1 to 64 bytes, its
/// trimmed title is not empty, its title at most 140 bytes and its description at most 280.
pub open spec fn activity_request_ok(req: RecordActivityRequest) -> bool {
    let kind = trim_spec(req.activity_type@);
    &&& kind.len() > 0
    &&& vstd::utf8::encode_utf8(kind).len() <= 64
    &&& trim_spec(req.title@).len() > 0
    &&& vstd::utf8::encode_utf8(req.title@).len() <= 140
    &&& vstd::utf8::encode_utf8(req.description@).len() <= 280
}

/// Whether a server-reported activity is acceptable (see `activity_request_ok`).
pub fn activity_request_valid(req: &RecordActivityRequest) -> (b: bool)
    ensures
        b == activity_request_ok(*req),
{
    let kind = trim(req.activity_type.as_str());
    let title = trim(req.title.as_str());
    chars_vec(kind.as_str()).len() > 0 && kind.as_str().as_bytes().len() <= 64 && chars_vec(
        title.as_str(),
    ).len() > 0 && req.title.as_str().as_bytes().len() <= 140
        && req.description.as_str().as_bytes().len() <= 280
}

/// The activity a game server records for `account`, its kind trimmed.
pub fn activity_from_request(
    account: &PlayerAccount,
    req: RecordActivityRequest,
    id: String,
    now: u64,
) -> (a: SocialActivity)
    ensures
        activity_by(
            a,
            *account,
            trim_spec(req.activity_type@),
            req.title@,
            req.description@,
            req.game,
            id@,
            now,
        ),
{
    let kind = trim(req.activity_type.as_str());
    activity_of(account, kind, req.title, req.description, req.game, id, now)
}

/// Answer of a follow (`follow`) or unfollow by `follower` of `target`. Following oneself
/// is refused (`None`); unfollowing always answers.
pub fn follow_response(follower: String, target: String, follow: bool) -> (r: Option<FollowResponse>)
    ensures
        r is None <==> (follow && follower@ == target@),
        r matches Some(f) ==> {
            &&& f.follower_id == follower
            &&& f.target_id == target
            &&& f.status@ == (if follow { "following"@ } else { "unfollowed"@ })
        },
{
    if follow {
        if str_eq(follower.as_str(), target.as_str()) {
            return None;
        }
        Some(FollowResponse { status: "following", follower_id: follower, target_id: target })
    } else {
        Some(FollowResponse { status: "unfollowed", follower_id: follower, target_id: target })
    }
}

/// Followers gained or lost: counts move by one, never past their bounds.
pub fn note_follow(follower: &mut PlayerAccount, target: &mut PlayerAccount, follow: bool)
    ensures
        follow ==> final(follower).following_count == (if old(follower).following_count == u32::MAX {
            u32::MAX
        } else {
            (old(follower).following_count + 1) as u32
        }) && final(target).followers_count == (if old(target).followers_count == u32::MAX {
            u32::MAX
        } else {
            (old(target).followers_count + 1) as u32
        }),
        !follow ==> final(follower).following_count == (if old(follower).following_count == 0 {
            0
        } else {
            (old(follower).following_count - 1) as u32
        }) && final(target).followers_count == (if old(target).followers_count == 0 {
            0
        } else {
            (old(target).followers_count - 1) as u32
        }),
        final(follower).id == old(follower).id,
        final(target).id == old(target).id,
{
    if follow {
        follower.following_count = follower.following_count.saturating_add(1);
        target.followers_count = target.followers_count.saturating_add(1);
    } else {
        follower.following_count = follower.following_count.saturating_sub(1);
        target.followers_count = target.followers_count.saturating_sub(1);
    }
}

/// Key of a follow edge.
pub fn follow_edge_key(follower_id: &str, target_id: &str) -> (r: String)
    ensures
        r@ == "follow:"@ + follower_id@ + ":"@ + target_id@,
{
    let mut r = concat3("follow:", follower_id, ":");
    r.append(target_id);
    r
}

/// `s` ends with `p`.
pub open spec fn finishes_with(s: Seq<char>, p: Seq<char>) -> bool {
    p.len() <= s.len() && s.subrange(s.len() - p.len(), s.len() as int) == p
}

/// The follower a follow edge key names for `target`: the key is `follow:` then the
/// follower then `:` and the target.
pub open spec fn edge_follower(key: Seq<char>, target: Seq<char>) -> Option<Seq<char>> {
    let suffix = ":"@ + target;
    let rest = key.subrange(7, key.len() as int);
    if begins_with(key, "follow:"@) && finishes_with(key, suffix) && finishes_with(rest, suffix) {
        Some(rest.subrange(0, rest.len() - suffix.len()))
    } else {
        None
    }
}

/// The follower a follow edge key names for `target` (see `edge_follower`).
pub fn follower_in_edge(key: &str, target: &str) -> (r: Option<String>)
    ensures
        match edge_follower(key@, target@) {
            Some(f) => r matches Some(x) && x@ == f,
            None => r is None,
        },
{
    proof {
        reveal_strlit("follow:");
        reveal_strlit(":");
    }
    let suffix = concat2(":", target);
    if !starts_with(key, "follow:") || !ends_with(key, suffix.as_str()) {
        return None;
    }
    let v = chars_vec(key);
    let rest = string_from_char_range(&v, 7, v.len());
    if !ends_with(rest.as_str(), suffix.as_str()) {
        return None;
    }
    let w = chars_vec(rest.as_str());
    let n = w.len() - chars_vec(suffix.as_str()).len();
    Some(string_from_char_range(&w, 0, n))
}

/// The followed account a follow edge key names for `follower`: what follows
/// `follow:{follower}:`.
pub fn followed_in_edge(key: &str, follower: &str) -> (r: Option<String>)
    ensures
        ({
            let prefix = "follow:"@ + follower@ + ":"@;
            if begins_with(key@, prefix) {
                r matches Some(x) && x@ == key@.subrange(prefix.len() as int, key@.len() as int)
            } else {
                r is None
            }
        }),
{
    let prefix = concat3("follow:", follower, ":");
    if !starts_with(key, prefix.as_str()) {
        return None;
    }
    let v = chars_vec(key);
    let n = chars_vec(prefix.as_str()).len();
    Some(string_from_char_range(&v, n, v.len()))
}

/// Claims of a session issued at `now` for `validity` seconds.
pub fn session_claims(
    account_id: &str,
    name: &str,
    email: Option<String>,
    context: GameContext,
    now: u64,
    validity_seconds: u64,
) -> (c: SessionClaims)
    requires
        now + validity_seconds <= u64::MAX,
    ensures
        c.sub@ == account_id@,
        c.name@ == name@,
        c.email == email,
        c.context == context,
        c.iat == now,
        c.exp == now + validity_seconds,
{
    SessionClaims {
        sub: string_of(account_id),
        name: string_of(name),
        email,
        context,
        iat: now,
        exp: now + validity_seconds,
    }
}

} // verus!
