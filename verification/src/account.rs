use vstd::prelude::*;
use vstd::string::*;
use crate::models::{
    same_provider, AccountKind, AuthProvider, CrossGameProfile, EmbeddedWallets, LinkedIdentity,
    PlayerAccount, ProfileAttribute, UserProfile,
};
use crate::text::{concat2, concat3, decimal_spec, decimal_string, push_char, string_of, str_eq};

verus! {

/// Name for the 64-bit value that `DefaultHasher::new()` produces after hashing a string slice.
pub uninterp spec fn default_hash_of(s: Seq<char>) -> u64;

/// Hashes a string slice with a fresh `std::collections::hash_map::DefaultHasher`
/// (fixed keys, the same result for the same text); the value is named by `default_hash_of`.
#[verifier::external_body]
fn default_hash(s: &str) -> (h: u64)
    ensures
        h == default_hash_of(s@),
{
    let mut hasher = std::collections::hash_map::DefaultHasher::new();
    std::hash::Hash::hash(&s, &mut hasher);
    std::hash::Hasher::finish(&hasher)
}

/// Reads the wall clock through `chrono::Utc::now()`, in whole seconds since the epoch.
/// Nothing is claimed about the value.
#[verifier::external_body]
pub fn unix_now() -> (t: u64) {
    chrono::Utc::now().timestamp() as u64
}

/// Number of curated noble animals.
pub const NOBLE_ANIMAL_COUNT: usize = 18;

pub open spec fn animal_name(i: nat) -> Seq<char> {
    if i == 0 { "falcon"@ }
    else if i == 1 { "panther"@ }
    else if i == 2 { "wolf"@ }
    else if i == 3 { "lynx"@ }
    else if i == 4 { "phoenix"@ }
    else if i == 5 { "dragon"@ }
    else if i == 6 { "tiger"@ }
    else if i == 7 { "eagle"@ }
    else if i == 8 { "raven"@ }
    else if i == 9 { "otter"@ }
    else if i == 10 { "fox"@ }
    else if i == 11 { "jaguar"@ }
    else if i == 12 { "hawk"@ }
    else if i == 13 { "bear"@ }
    else if i == 14 { "cheetah"@ }
    else if i == 15 { "owl"@ }
    else if i == 16 { "orca"@ }
    else { "bison"@ }
}

pub open spec fn animal_emoji(i: nat) -> Seq<char> {
    if i == 0 { "🦅"@ }
    else if i == 1 { "🐆"@ }
    else if i == 2 { "🐺"@ }
    else if i == 3 { "🐱"@ }
    else if i == 4 { "🔥"@ }
    else if i == 5 { "🐉"@ }
    else if i == 6 { "🐯"@ }
    else if i == 7 { "🦅"@ }
    else if i == 8 { "🦅"@ }
    else if i == 9 { "🦦"@ }
    else if i == 10 { "🦊"@ }
    else if i == 11 { "🐆"@ }
    else if i == 12 { "🦅"@ }
    else if i == 13 { "🐻"@ }
    else if i == 14 { "🐆"@ }
    else if i == 15 { "🦉"@ }
    else if i == 16 { "🐋"@ }
    else { "🦬"@ }
}

pub open spec fn animal_theme(i: nat) -> Seq<char> {
    if i == 0 { "from-sky-500 to-indigo-900"@ }
    else if i == 1 { "from-purple-700 to-slate-950"@ }
    else if i == 2 { "from-slate-600 to-cyan-700"@ }
    else if i == 3 { "from-amber-600 to-amber-950"@ }
    else if i == 4 { "from-red-600 to-orange-600"@ }
    else if i == 5 { "from-emerald-600 to-teal-950"@ }
    else if i == 6 { "from-amber-500 to-orange-900"@ }
    else if i == 7 { "from-yellow-600 to-stone-900"@ }
    else if i == 8 { "from-purple-900 to-slate-950"@ }
    else if i == 9 { "from-teal-600 to-cyan-900"@ }
    else if i == 10 { "from-orange-600 to-rose-900"@ }
    else if i == 11 { "from-yellow-500 to-amber-950"@ }
    else if i == 12 { "from-amber-700 to-stone-900"@ }
    else if i == 13 { "from-amber-900 to-emerald-950"@ }
    else if i == 14 { "from-yellow-400 to-amber-800"@ }
    else if i == 15 { "from-indigo-600 to-slate-950"@ }
    else if i == 16 { "from-blue-600 to-slate-950"@ }
    else { "from-amber-800 to-stone-950"@ }
}

/// The `i`-th curated noble animal: (name, emoji, colour theme).
pub fn noble_animal(i: usize) -> (r: (&'static str, &'static str, &'static str))
    requires
        i < NOBLE_ANIMAL_COUNT,
    ensures
        r.0@ == animal_name(i as nat),
        r.1@ == animal_emoji(i as nat),
        r.2@ == animal_theme(i as nat),
{
    if i == 0 { ("falcon", "🦅", "from-sky-500 to-indigo-900") }
    else if i == 1 { ("panther", "🐆", "from-purple-700 to-slate-950") }
    else if i == 2 { ("wolf", "🐺", "from-slate-600 to-cyan-700") }
    else if i == 3 { ("lynx", "🐱", "from-amber-600 to-amber-950") }
    else if i == 4 { ("phoenix", "🔥", "from-red-600 to-orange-600") }
    else if i == 5 { ("dragon", "🐉", "from-emerald-600 to-teal-950") }
    else if i == 6 { ("tiger", "🐯", "from-amber-500 to-orange-900") }
    else if i == 7 { ("eagle", "🦅", "from-yellow-600 to-stone-900") }
    else if i == 8 { ("raven", "🦅", "from-purple-900 to-slate-950") }
    else if i == 9 { ("otter", "🦦", "from-teal-600 to-cyan-900") }
    else if i == 10 { ("fox", "🦊", "from-orange-600 to-rose-900") }
    else if i == 11 { ("jaguar", "🐆", "from-yellow-500 to-amber-950") }
    else if i == 12 { ("hawk", "🦅", "from-amber-700 to-stone-900") }
    else if i == 13 { ("bear", "🐻", "from-amber-900 to-emerald-950") }
    else if i == 14 { ("cheetah", "🐆", "from-yellow-400 to-amber-800") }
    else if i == 15 { ("owl", "🦉", "from-indigo-600 to-slate-950") }
    else if i == 16 { ("orca", "🐋", "from-blue-600 to-slate-950") }
    else { ("bison", "🦬", "from-amber-800 to-stone-950") }
}

/// Upper-case form of an ASCII lower-case letter; other characters are kept.
pub open spec fn ascii_upper(c: char) -> char {
    if 'a' <= c && c <= 'z' {
        ((c as u32) - 32) as char
    } else {
        c
    }
}

/// `s` with its first character upper-cased (ASCII letters).
pub open spec fn capitalize_spec(s: Seq<char>) -> Seq<char> {
    if s.len() == 0 {
        s
    } else {
        seq![ascii_upper(s[0])] + s.drop_first()
    }
}

fn capitalize(s: &str) -> (r: String)
    ensures
        r@ == capitalize_spec(s@),
{
    let n = s.unicode_len();
    let mut r = String::new();
    if n == 0 {
        return r;
    }
    let c = s.get_char(0);
    let u = if 'a' <= c && c <= 'z' {
        (((c as u32) - 32) as u8) as char
    } else {
        c
    };
    assert(u == ascii_upper(c));
    push_char(&mut r, u);
    let mut i: usize = 1;
    while i < n
        invariant
            1 <= i <= n,
            n == s@.len(),
            r@ == seq![ascii_upper(s@[0])] + s@.subrange(1, i as int),
        decreases n - i,
    {
        let d = s.get_char(i);
        push_char(&mut r, d);
        i = i + 1;
        assert(r@ =~= seq![ascii_upper(s@[0])] + s@.subrange(1, i as int));
    }
    assert(s@.subrange(1, n as int) =~= s@.drop_first());
    r
}

/// Index of the noble animal that an account id maps to.
pub open spec fn noble_index(id: Seq<char>) -> nat {
    (default_hash_of(id) % 18) as nat
}

/// Three-digit suffix (100..=999) that an account id maps to.
pub open spec fn noble_number(id: Seq<char>) -> nat {
    (100 + ((default_hash_of(id) / 18) % 900)) as nat
}

/// Generated handle: animal name followed by the three-digit suffix.
pub open spec fn noble_username(id: Seq<char>) -> Seq<char> {
    animal_name(noble_index(id)) + decimal_spec(noble_number(id))
}

/// Generated display name: "Animal NNN".
pub open spec fn noble_display_name(id: Seq<char>) -> Seq<char> {
    capitalize_spec(animal_name(noble_index(id))) + " "@ + decimal_spec(noble_number(id))
}

/// The profile that goes with a generated identity.
pub open spec fn is_noble_profile(p: UserProfile, id: Seq<char>) -> bool {
    let i = noble_index(id);
    &&& p.avatar_url is None
    &&& p.banner_url is None
    &&& p.country is None
    &&& p.bio matches Some(b) && b@ == "Player · "@ + animal_emoji(i)
    &&& !p.is_verified
    &&& p.custom_attributes@.len() == 2
    &&& p.custom_attributes@[0].key@ == "animal_emoji"@
    &&& p.custom_attributes@[0].value@ == animal_emoji(i)
    &&& p.custom_attributes@[1].key@ == "animal_theme"@
    &&& p.custom_attributes@[1].value@ == animal_theme(i)
}

/// Generates a noble animal identity (handle like `falcon382`, display name, profile with emoji).
/// A supplied display name is kept as is.
pub fn generate_noble_animal_identity(account_id: &str, display_name: Option<String>) -> (r: (
    String,
    String,
    UserProfile,
))
    ensures
        r.0@ == noble_username(account_id@),
        match display_name {
            Some(d) => r.1@ == d@,
            None => r.1@ == noble_display_name(account_id@),
        },
        is_noble_profile(r.2, account_id@),
{
    let h = default_hash(account_id);
    let idx = (h % 18) as usize;
    let num = 100 + (h / 18) % 900;
    let (animal, emoji, theme) = noble_animal(idx);
    let digits = decimal_string(num);
    let username = concat2(animal, digits.as_str());
    let final_display_name = match display_name {
        Some(d) => d,
        None => {
            let cap = capitalize(animal);
            concat3(cap.as_str(), " ", digits.as_str())
        },
    };
    let mut custom: Vec<ProfileAttribute> = Vec::new();
    custom.push(ProfileAttribute { key: string_of("animal_emoji"), value: string_of(emoji) });
    custom.push(ProfileAttribute { key: string_of("animal_theme"), value: string_of(theme) });
    let profile = UserProfile {
        avatar_url: None,
        banner_url: None,
        country: None,
        bio: Some(concat2("Player · ", emoji)),
        is_verified: false,
        custom_attributes: custom,
    };
    (username, final_display_name, profile)
}

/// Default cross-game statistics of a freshly created account.
pub open spec fn is_starting_stats(g: CrossGameProfile) -> bool {
    &&& g.sow_rank@ == "Bronze I"@
    &&& g.sow_elo == 1000
    &&& g.sow_matches == 0
    &&& g.sow_wins == 0
    &&& g.sow_faction@ == "Solar Dominion"@
    &&& g.cosmicrafts_level == 1
    &&& g.cosmicrafts_fleet_power == 100
    &&& g.nftropoly_net_worth == 50000
    &&& g.nftropoly_titles == 0
}

/// `li` records `provider`/`external_id` (by value).
pub open spec fn records_link(li: LinkedIdentity, provider: AuthProvider, external_id: Seq<char>) -> bool {
    same_provider(li.provider, provider) && li.external_id@ == external_id
}

/// Some linked identity of `links` records `provider`/`external_id`.
pub open spec fn has_link(links: Seq<LinkedIdentity>, provider: AuthProvider, external_id: Seq<char>) -> bool {
    exists|i: int| 0 <= i < links.len() && records_link(#[trigger] links[i], provider, external_id)
}

/// The linked identities after linking `provider`/`external_id` at `now`: unchanged when
/// that exact pair is already linked, else with the new link appended.
pub open spec fn links_after(
    links: Seq<LinkedIdentity>,
    provider: AuthProvider,
    external_id: String,
    now: u64,
) -> Seq<LinkedIdentity> {
    if has_link(links, provider, external_id@) {
        links
    } else {
        links.push(LinkedIdentity { provider, external_id, linked_at: now })
    }
}

/// Linking never loses a link: every identity linked before stays linked at its place, the
/// new pair is linked afterwards, and at most that one link, stamped `now`, is added at the
/// end.
pub proof fn law_linking_keeps_links(
    links: Seq<LinkedIdentity>,
    provider: AuthProvider,
    external_id: String,
    now: u64,
)
    ensures
        links.len() <= links_after(links, provider, external_id, now).len() <= links.len() + 1,
        forall|i: int| 0 <= i < links.len() ==> #[trigger] links_after(links, provider, external_id, now)[i]
            == links[i],
        has_link(links_after(links, provider, external_id, now), provider, external_id@),
        links_after(links, provider, external_id, now).len() == links.len() + 1 ==> links_after(
            links,
            provider,
            external_id,
            now,
        ).last() == (LinkedIdentity { provider, external_id, linked_at: now }),
{
    let r = links_after(links, provider, external_id, now);
    if !has_link(links, provider, external_id@) {
        assert(records_link(r[links.len() as int], provider, external_id@));
    }
}

/// Some linked identity of `links` uses `provider`.
pub open spec fn has_provider_spec(links: Seq<LinkedIdentity>, provider: AuthProvider) -> bool {
    exists|i: int| 0 <= i < links.len() && same_provider(#[trigger] links[i].provider, provider)
}

/// All fields but the linked identities and the update time agree.
pub open spec fn same_but_links(a: PlayerAccount, b: PlayerAccount) -> bool {
    &&& a.id == b.id
    &&& a.username == b.username
    &&& a.display_name == b.display_name
    &&& a.email == b.email
    &&& a.newsletter_opt_in == b.newsletter_opt_in
    &&& a.welcome_sent == b.welcome_sent
    &&& a.kind == b.kind
    &&& a.embedded_wallets == b.embedded_wallets
    &&& a.game_stats == b.game_stats
    &&& a.followers_count == b.followers_count
    &&& a.following_count == b.following_count
    &&& a.clan_tag == b.clan_tag
    &&& a.clan_name == b.clan_name
    &&& a.profile == b.profile
    &&& a.created_at == b.created_at
}

impl PlayerAccount {
    /// New account at time `now`: generated noble identity, starting statistics, no links.
    /// A supplied username replaces the generated handle; a supplied display name is kept.
    pub fn new_with_wallets_at(
        id: String,
        username: Option<String>,
        display_name: Option<String>,
        wallets: EmbeddedWallets,
        now: u64,
    ) -> (a: PlayerAccount)
        ensures
            a.id == id,
            match username {
                Some(u) => a.username == u,
                None => a.username@ == noble_username(id@),
            },
            match display_name {
                Some(d) => a.display_name@ == d@,
                None => a.display_name@ == noble_display_name(id@),
            },
            a.email is None,
            !a.newsletter_opt_in,
            !a.welcome_sent,
            a.kind == AccountKind::Human,
            a.embedded_wallets == wallets,
            is_starting_stats(a.game_stats),
            a.followers_count == 0,
            a.following_count == 0,
            a.clan_tag is None,
            a.clan_name is None,
            a.linked_identities@.len() == 0,
            is_noble_profile(a.profile, id@),
            a.created_at == now,
            a.updated_at == now,
    {
        let (gen_user, gen_name, gen_profile) = generate_noble_animal_identity(id.as_str(), display_name);
        let final_user = match username {
            Some(u) => u,
            None => gen_user,
        };
        PlayerAccount {
            id,
            username: final_user,
            display_name: gen_name,
            email: None,
            newsletter_opt_in: false,
            welcome_sent: false,
            kind: AccountKind::Human,
            embedded_wallets: wallets,
            game_stats: CrossGameProfile {
                sow_rank: string_of("Bronze I"),
                sow_elo: 1000,
                sow_matches: 0,
                sow_wins: 0,
                sow_faction: string_of("Solar Dominion"),
                cosmicrafts_level: 1,
                cosmicrafts_fleet_power: 100,
                nftropoly_net_worth: 50000,
                nftropoly_titles: 0,
            },
            followers_count: 0,
            following_count: 0,
            clan_tag: None,
            clan_name: None,
            linked_identities: Vec::new(),
            profile: gen_profile,
            created_at: now,
            updated_at: now,
        }
    }

    /// New account stamped with the current time (see `new_with_wallets_at`).
    pub fn new_with_wallets(
        id: String,
        username: Option<String>,
        display_name: Option<String>,
        wallets: EmbeddedWallets,
    ) -> (a: PlayerAccount)
        ensures
            a.id == id,
            match username {
                Some(u) => a.username == u,
                None => a.username@ == noble_username(id@),
            },
            match display_name {
                Some(d) => a.display_name@ == d@,
                None => a.display_name@ == noble_display_name(id@),
            },
            a.email is None,
            !a.newsletter_opt_in,
            !a.welcome_sent,
            a.kind == AccountKind::Human,
            a.embedded_wallets == wallets,
            is_starting_stats(a.game_stats),
            a.followers_count == 0,
            a.following_count == 0,
            a.clan_tag is None,
            a.clan_name is None,
            a.linked_identities@.len() == 0,
            is_noble_profile(a.profile, id@),
            a.created_at == a.updated_at,
    {
        let now = unix_now();
        Self::new_with_wallets_at(id, username, display_name, wallets, now)
    }

    /// Whether some linked identity uses `provider`.
    pub fn has_provider(&self, provider: &AuthProvider) -> (b: bool)
        ensures
            b == has_provider_spec(self.linked_identities@, *provider),
    {
        let mut i: usize = 0;
        while i < self.linked_identities.len()
            invariant
                i <= self.linked_identities@.len(),
                forall|j: int|
                    0 <= j < i ==> !same_provider(
                        #[trigger] self.linked_identities@[j].provider,
                        *provider,
                    ),
            decreases self.linked_identities@.len() - i,
        {
            if self.linked_identities[i].provider.same_as(provider) {
                return true;
            }
            i = i + 1;
        }
        false
    }

    /// Whether `provider`/`external_id` is already linked.
    pub fn has_link(&self, provider: &AuthProvider, external_id: &str) -> (b: bool)
        ensures
            b == has_link(self.linked_identities@, *provider, external_id@),
    {
        let mut i: usize = 0;
        while i < self.linked_identities.len()
            invariant
                i <= self.linked_identities@.len(),
                forall|j: int|
                    0 <= j < i ==> !records_link(
                        #[trigger] self.linked_identities@[j],
                        *provider,
                        external_id@,
                    ),
            decreases self.linked_identities@.len() - i,
        {
            let li = &self.linked_identities[i];
            if li.provider.same_as(provider) && str_eq(li.external_id.as_str(), external_id) {
                return true;
            }
            i = i + 1;
        }
        false
    }

    /// Links `provider`/`external_id` at time `now` unless that exact pair is already linked.
    pub fn link_identity_at(&mut self, provider: AuthProvider, external_id: String, now: u64)
        ensures
            has_link(final(self).linked_identities@, provider, external_id@),
            final(self).linked_identities@ == links_after(old(self).linked_identities@, provider, external_id, now),
            if has_link(old(self).linked_identities@, provider, external_id@) {
                *final(self) == *old(self)
            } else {
                &&& final(self).linked_identities@ == old(self).linked_identities@.push(
                    LinkedIdentity { provider, external_id, linked_at: now },
                )
                &&& final(self).updated_at == now
                &&& same_but_links(*final(self), *old(self))
            },
    {
        if !self.has_link(&provider, external_id.as_str()) {
            let ghost p = provider;
            let ghost e = external_id@;
            self.linked_identities.push(LinkedIdentity { provider, external_id, linked_at: now });
            self.updated_at = now;
            proof {
                let n = self.linked_identities@.len() - 1;
                assert(records_link(self.linked_identities@[n], p, e));
            }
        }
    }

    /// Links `provider`/`external_id` stamped with the current time (see `link_identity_at`).
    pub fn link_identity(&mut self, provider: AuthProvider, external_id: String)
        ensures
            has_link(final(self).linked_identities@, provider, external_id@),
            has_link(old(self).linked_identities@, provider, external_id@) ==> *final(self)
                == *old(self),
            !has_link(old(self).linked_identities@, provider, external_id@) ==> {
                &&& final(self).linked_identities@.len() == old(self).linked_identities@.len() + 1
                &&& final(self).linked_identities@.subrange(
                    0,
                    old(self).linked_identities@.len() as int,
                ) == old(self).linked_identities@
                &&& same_but_links(*final(self), *old(self))
                &&& exists|now: u64| #[trigger] final(self).linked_identities@ == old(self).linked_identities@.push(
                    (LinkedIdentity { provider, external_id, linked_at: now }),
                ) && final(self).updated_at == now
            },
    {
        let now = unix_now();
        let ghost p = provider;
        let ghost e = external_id@;
        let ghost eid = external_id;
        self.link_identity_at(provider, external_id, now);
        proof {
            let n = old(self).linked_identities@.len();
            if !has_link(old(self).linked_identities@, p, e) {
                assert(self.linked_identities@ == old(self).linked_identities@.push(
                    LinkedIdentity { provider: p, external_id: eid, linked_at: now },
                ) && self.updated_at == now);
                let li = self.linked_identities@[n as int];
                assert(records_link(li, p, e));
                assert(self.linked_identities@.subrange(0, n as int) =~= old(self).linked_identities@);
            }
        }
    }
}

} // verus!
