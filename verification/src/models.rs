use vstd::prelude::*;
use vstd::string::*;
use crate::table::Keyed;
use crate::text::str_eq;

verus! {

/// Game or app of the World of Unreal ecosystem that a request comes from.
#[derive(Clone, Copy, Debug, PartialEq, Eq, Structural)]
pub enum GameContext {
    ShadowsOfWar,
    Cosmicrafts,
    Nftropoly,
    Darkrift,
    WorldOfUnreal,
}

impl Default for GameContext {
    fn default() -> (r: Self)
        ensures
            r == GameContext::ShadowsOfWar,
    {
        GameContext::ShadowsOfWar
    }
}

impl GameContext {
    pub open spec fn spec_as_str(self) -> Seq<char> {
        match self {
            GameContext::ShadowsOfWar => "shadowsofwar"@,
            GameContext::Cosmicrafts => "cosmicrafts"@,
            GameContext::Nftropoly => "nftropoly"@,
            GameContext::Darkrift => "darkrift"@,
            GameContext::WorldOfUnreal => "worldofunreal"@,
        }
    }

    /// Wire identifier of the game.
    pub fn as_str(&self) -> (r: &'static str)
        ensures
            r@ == self.spec_as_str(),
    {
        match self {
            GameContext::ShadowsOfWar => "shadowsofwar",
            GameContext::Cosmicrafts => "cosmicrafts",
            GameContext::Nftropoly => "nftropoly",
            GameContext::Darkrift => "darkrift",
            GameContext::WorldOfUnreal => "worldofunreal",
        }
    }

    pub open spec fn spec_display_name(self) -> Seq<char> {
        match self {
            GameContext::ShadowsOfWar => "Shadows of War"@,
            GameContext::Cosmicrafts => "Cosmicrafts"@,
            GameContext::Nftropoly => "Nftropoly"@,
            GameContext::Darkrift => "Darkrift AI"@,
            GameContext::WorldOfUnreal => "World of Unreal"@,
        }
    }

    /// Human-readable game name used in mail branding.
    pub fn display_name(&self) -> (r: &'static str)
        ensures
            r@ == self.spec_display_name(),
    {
        match self {
            GameContext::ShadowsOfWar => "Shadows of War",
            GameContext::Cosmicrafts => "Cosmicrafts",
            GameContext::Nftropoly => "Nftropoly",
            GameContext::Darkrift => "Darkrift AI",
            GameContext::WorldOfUnreal => "World of Unreal",
        }
    }

    pub open spec fn spec_default_domain(self) -> Seq<char> {
        match self {
            GameContext::ShadowsOfWar => "shadowsofwar.io"@,
            GameContext::Cosmicrafts => "cosmicrafts.com"@,
            GameContext::Nftropoly => "nftropoly.com"@,
            GameContext::Darkrift => "darkrift.ai"@,
            GameContext::WorldOfUnreal => "worldofunreal.com"@,
        }
    }

    /// Web domain of the game.
    pub fn default_domain(&self) -> (r: &'static str)
        ensures
            r@ == self.spec_default_domain(),
    {
        match self {
            GameContext::ShadowsOfWar => "shadowsofwar.io",
            GameContext::Cosmicrafts => "cosmicrafts.com",
            GameContext::Nftropoly => "nftropoly.com",
            GameContext::Darkrift => "darkrift.ai",
            GameContext::WorldOfUnreal => "worldofunreal.com",
        }
    }

    /// Single sender for the whole organisation, whatever the game.
    pub fn default_sender(&self) -> (r: &'static str)
        ensures
            r@ == "no-reply@worldofunreal.com"@,
    {
        "no-reply@worldofunreal.com"
    }

    /// Name of the game in serialized records and session claims (snake case).
    pub open spec fn spec_wire_name(self) -> Seq<char> {
        match self {
            GameContext::ShadowsOfWar => "shadows_of_war"@,
            GameContext::Cosmicrafts => "cosmicrafts"@,
            GameContext::Nftropoly => "nftropoly"@,
            GameContext::Darkrift => "darkrift"@,
            GameContext::WorldOfUnreal => "world_of_unreal"@,
        }
    }

    /// Name of the game in serialized records and session claims.
    pub fn wire_name(&self) -> (r: &'static str)
        ensures
            r@ == self.spec_wire_name(),
    {
        match self {
            GameContext::ShadowsOfWar => "shadows_of_war",
            GameContext::Cosmicrafts => "cosmicrafts",
            GameContext::Nftropoly => "nftropoly",
            GameContext::Darkrift => "darkrift",
            GameContext::WorldOfUnreal => "world_of_unreal",
        }
    }
}

/// The game a serialized name denotes, if any.
pub fn game_from_wire_name(s: &str) -> (r: Option<GameContext>)
    ensures
        match r {
            Some(c) => c.spec_wire_name() == s@,
            None => forall|c: GameContext| c.spec_wire_name() != s@,
        },
{
    proof {
        reveal_strlit("shadows_of_war");
        reveal_strlit("cosmicrafts");
        reveal_strlit("nftropoly");
        reveal_strlit("darkrift");
        reveal_strlit("world_of_unreal");
    }
    if str_eq(s, "shadows_of_war") {
        Some(GameContext::ShadowsOfWar)
    } else if str_eq(s, "cosmicrafts") {
        Some(GameContext::Cosmicrafts)
    } else if str_eq(s, "nftropoly") {
        Some(GameContext::Nftropoly)
    } else if str_eq(s, "darkrift") {
        Some(GameContext::Darkrift)
    } else if str_eq(s, "world_of_unreal") {
        Some(GameContext::WorldOfUnreal)
    } else {
        None
    }
}

/// Authentication providers that an account can link.
#[derive(Clone, Debug, PartialEq, Eq)]
pub enum AuthProvider {
    Email,
    CrazyGames,
    Poki,
    Google,
    Apple,
    Discord,
    Twitter,
    Meta,
    Ethereum,
    Solana,
    InternetIdentity,
    Custom(String),
}

/// Provider equality by value (custom providers compare by their text).
pub open spec fn same_provider(a: AuthProvider, b: AuthProvider) -> bool {
    match (a, b) {
        (AuthProvider::Custom(x), AuthProvider::Custom(y)) => x@ == y@,
        (AuthProvider::Custom(_), _) => false,
        (_, AuthProvider::Custom(_)) => false,
        _ => a == b,
    }
}

impl AuthProvider {
    pub open spec fn spec_as_str(self) -> Seq<char> {
        match self {
            AuthProvider::Email => "email"@,
            AuthProvider::CrazyGames => "crazygames"@,
            AuthProvider::Poki => "poki"@,
            AuthProvider::Google => "google"@,
            AuthProvider::Apple => "apple"@,
            AuthProvider::Discord => "discord"@,
            AuthProvider::Twitter => "twitter"@,
            AuthProvider::Meta => "meta"@,
            AuthProvider::Ethereum => "ethereum"@,
            AuthProvider::Solana => "solana"@,
            AuthProvider::InternetIdentity => "internet_identity"@,
            AuthProvider::Custom(s) => s@,
        }
    }

    /// Wire name of the provider (custom providers use their own text).
    pub fn as_str(&self) -> (r: &str)
        ensures
            r@ == self.spec_as_str(),
    {
        match self {
            AuthProvider::Email => "email",
            AuthProvider::CrazyGames => "crazygames",
            AuthProvider::Poki => "poki",
            AuthProvider::Google => "google",
            AuthProvider::Apple => "apple",
            AuthProvider::Discord => "discord",
            AuthProvider::Twitter => "twitter",
            AuthProvider::Meta => "meta",
            AuthProvider::Ethereum => "ethereum",
            AuthProvider::Solana => "solana",
            AuthProvider::InternetIdentity => "internet_identity",
            AuthProvider::Custom(s) => s.as_str(),
        }
    }

    pub open spec fn spec_tag(self) -> u8 {
        match self {
            AuthProvider::Email => 0,
            AuthProvider::CrazyGames => 1,
            AuthProvider::Poki => 2,
            AuthProvider::Google => 3,
            AuthProvider::Apple => 4,
            AuthProvider::Discord => 5,
            AuthProvider::Twitter => 6,
            AuthProvider::Meta => 7,
            AuthProvider::Ethereum => 8,
            AuthProvider::Solana => 9,
            AuthProvider::InternetIdentity => 10,
            AuthProvider::Custom(_) => 11,
        }
    }

    fn tag(&self) -> (r: u8)
        ensures
            r == self.spec_tag(),
    {
        match self {
            AuthProvider::Email => 0,
            AuthProvider::CrazyGames => 1,
            AuthProvider::Poki => 2,
            AuthProvider::Google => 3,
            AuthProvider::Apple => 4,
            AuthProvider::Discord => 5,
            AuthProvider::Twitter => 6,
            AuthProvider::Meta => 7,
            AuthProvider::Ethereum => 8,
            AuthProvider::Solana => 9,
            AuthProvider::InternetIdentity => 10,
            AuthProvider::Custom(_) => 11,
        }
    }

    /// Value equality of two providers.
    pub fn same_as(&self, other: &AuthProvider) -> (r: bool)
        ensures
            r == same_provider(*self, *other),
    {
        match (self, other) {
            (AuthProvider::Custom(x), AuthProvider::Custom(y)) => str_eq(x.as_str(), y.as_str()),
            _ => {
                let t = self.tag();
                let u = other.tag();
                proof {
                    if t == u && t != 11 {
                        lemma_tag_determines_provider(*self, *other);
                    }
                }
                t == u && t != 11
            },
        }
    }

    /// Copy of the provider with the same value.
    pub fn duplicate(&self) -> (r: AuthProvider)
        ensures
            r == *self,
    {
        match self {
            AuthProvider::Email => AuthProvider::Email,
            AuthProvider::CrazyGames => AuthProvider::CrazyGames,
            AuthProvider::Poki => AuthProvider::Poki,
            AuthProvider::Google => AuthProvider::Google,
            AuthProvider::Apple => AuthProvider::Apple,
            AuthProvider::Discord => AuthProvider::Discord,
            AuthProvider::Twitter => AuthProvider::Twitter,
            AuthProvider::Meta => AuthProvider::Meta,
            AuthProvider::Ethereum => AuthProvider::Ethereum,
            AuthProvider::Solana => AuthProvider::Solana,
            AuthProvider::InternetIdentity => AuthProvider::InternetIdentity,
            AuthProvider::Custom(s) => AuthProvider::Custom(s.clone()),
        }
    }
}

proof fn lemma_tag_determines_provider(a: AuthProvider, b: AuthProvider)
    requires
        a.spec_tag() == b.spec_tag(),
        a.spec_tag() != 11,
    ensures
        a == b,
{
    match a {
        AuthProvider::Email => {},
        AuthProvider::CrazyGames => {},
        AuthProvider::Poki => {},
        AuthProvider::Google => {},
        AuthProvider::Apple => {},
        AuthProvider::Discord => {},
        AuthProvider::Twitter => {},
        AuthProvider::Meta => {},
        AuthProvider::Ethereum => {},
        AuthProvider::Solana => {},
        AuthProvider::InternetIdentity => {},
        AuthProvider::Custom(_) => {},
    }
    match b {
        AuthProvider::Email => {},
        AuthProvider::CrazyGames => {},
        AuthProvider::Poki => {},
        AuthProvider::Google => {},
        AuthProvider::Apple => {},
        AuthProvider::Discord => {},
        AuthProvider::Twitter => {},
        AuthProvider::Meta => {},
        AuthProvider::Ethereum => {},
        AuthProvider::Solana => {},
        AuthProvider::InternetIdentity => {},
        AuthProvider::Custom(_) => {},
    }
}

/// Human players versus bot accounts.
#[derive(Clone, Copy, Debug, PartialEq, Eq, Structural)]
pub enum AccountKind {
    Human,
    Bot,
}

impl Default for AccountKind {
    fn default() -> (r: Self)
        ensures
            r == AccountKind::Human,
    {
        AccountKind::Human
    }
}

/// Deterministic embedded multi-chain wallet addresses of an account.
#[derive(Clone, Debug, PartialEq, Eq)]
pub struct EmbeddedWallets {
    pub evm_address: String,
    pub solana_address: String,
    pub icp_principal: String,
    pub bitcoin_address: String,
}

/// Cross-game statistics of a player.
#[derive(Clone, Debug, PartialEq, Eq)]
pub struct CrossGameProfile {
    pub sow_rank: String,
    pub sow_elo: u32,
    pub sow_matches: u32,
    pub sow_wins: u32,
    pub sow_faction: String,
    pub cosmicrafts_level: u32,
    pub cosmicrafts_fleet_power: u32,
    pub nftropoly_net_worth: u64,
    pub nftropoly_titles: u32,
}

/// A social timeline event.
#[derive(Clone, Debug, PartialEq, Eq)]
pub struct SocialActivity {
    pub id: String,
    pub account_id: String,
    pub username: String,
    pub display_name: String,
    pub avatar_url: Option<String>,
    pub activity_type: String,
    pub title: String,
    pub description: String,
    pub game: GameContext,
    pub timestamp: u64,
}

/// An external identity linked to an account.
#[derive(Clone, Debug, PartialEq, Eq)]
pub struct LinkedIdentity {
    pub provider: AuthProvider,
    pub external_id: String,
    pub linked_at: u64,
}

impl LinkedIdentity {
    /// Field-for-field copy.
    pub fn duplicate(&self) -> (r: LinkedIdentity)
        ensures
            r == *self,
    {
        LinkedIdentity {
            provider: self.provider.duplicate(),
            external_id: self.external_id.clone(),
            linked_at: self.linked_at,
        }
    }
}

/// A text-valued custom profile attribute (such as `animal_emoji`).
#[derive(Clone, Debug, PartialEq, Eq)]
pub struct ProfileAttribute {
    pub key: String,
    pub value: String,
}

impl Keyed for ProfileAttribute {
    open spec fn key_view(&self) -> Seq<char> {
        self.key@
    }

    fn key_str(&self) -> (r: &str) {
        self.key.as_str()
    }
}

/// Public profile metadata of a player.
#[derive(Clone, Debug, PartialEq, Eq)]
pub struct UserProfile {
    pub avatar_url: Option<String>,
    pub banner_url: Option<String>,
    pub country: Option<String>,
    pub bio: Option<String>,
    pub is_verified: bool,
    pub custom_attributes: Vec<ProfileAttribute>,
}

/// Value of the first custom attribute named `key`, if any.
pub open spec fn attribute_value(attrs: Seq<ProfileAttribute>, key: Seq<char>) -> Option<Seq<char>>
    decreases attrs.len(),
{
    if attrs.len() == 0 {
        None
    } else if attrs[0].key@ == key {
        Some(attrs[0].value@)
    } else {
        attribute_value(attrs.drop_first(), key)
    }
}

impl UserProfile {
    /// Text value stored under `key` in the custom attributes.
    pub fn custom_attribute(&self, key: &str) -> (r: Option<String>)
        ensures
            match r {
                Some(v) => attribute_value(self.custom_attributes@, key@) == Some(v@),
                None => attribute_value(self.custom_attributes@, key@) is None,
            },
    {
        let mut i: usize = 0;
        assert(self.custom_attributes@.skip(0) =~= self.custom_attributes@);
        while i < self.custom_attributes.len()
            invariant
                i <= self.custom_attributes@.len(),
                attribute_value(self.custom_attributes@, key@) == attribute_value(
                    self.custom_attributes@.skip(i as int),
                    key@,
                ),
            decreases self.custom_attributes@.len() - i,
        {
            let a = &self.custom_attributes[i];
            let ghost rest = self.custom_attributes@.skip(i as int);
            assert(rest[0] == *a);
            if str_eq(a.key.as_str(), key) {
                return Some(a.value.clone());
            }
            assert(rest.drop_first() =~= self.custom_attributes@.skip(i + 1));
            i = i + 1;
        }
        None
    }
}

/// Master player account.
#[derive(Clone, Debug, PartialEq, Eq)]
pub struct PlayerAccount {
    pub id: String,
    pub username: String,
    pub display_name: String,
    pub email: Option<String>,
    pub newsletter_opt_in: bool,
    pub welcome_sent: bool,
    pub kind: AccountKind,
    pub embedded_wallets: EmbeddedWallets,
    pub game_stats: CrossGameProfile,
    pub followers_count: u32,
    pub following_count: u32,
    pub clan_tag: Option<String>,
    pub clan_name: Option<String>,
    pub linked_identities: Vec<LinkedIdentity>,
    pub profile: UserProfile,
    pub created_at: u64,
    pub updated_at: u64,
}

/// Session token claims.
#[derive(Clone, Debug, PartialEq, Eq)]
pub struct SessionClaims {
    pub sub: String,
    pub name: String,
    pub email: Option<String>,
    pub context: GameContext,
    pub iat: u64,
    pub exp: u64,
}

/// OTP state kept during the verification window.
#[derive(Clone, Debug, PartialEq, Eq)]
pub struct PendingOtp {
    pub code: String,
    pub account_id: Option<String>,
    pub email: String,
    pub context: GameContext,
    pub newsletter_opt_in: bool,
    pub requested_at: u64,
}

/// QR login challenge (only the secret's hash is stored).
#[derive(Clone, Debug, PartialEq, Eq)]
pub struct QrChallenge {
    pub id: String,
    pub secret_hash: String,
    pub context: GameContext,
    pub created_at: u64,
    pub approved_account_id: Option<String>,
    pub session_token: Option<String>,
}

/// A clan (guild).
#[derive(Clone, Debug, PartialEq, Eq)]
pub struct Clan {
    pub tag: String,
    pub name: String,
    pub description: String,
    pub leader_id: String,
    pub leader_username: String,
    pub avatar_url: Option<String>,
    pub banner_url: Option<String>,
    pub member_count: u32,
    pub created_at: u64,
}

/// Role of a player inside a clan.
#[derive(Clone, Copy, Debug, PartialEq, Eq, Structural)]
pub enum ClanRole {
    Leader,
    Officer,
    Member,
}

/// A roster entry of a clan.
#[derive(Clone, Debug, PartialEq, Eq)]
pub struct ClanMember {
    pub account_id: String,
    pub username: String,
    pub display_name: String,
    pub avatar_url: Option<String>,
    pub animal_emoji: Option<String>,
    pub role: ClanRole,
    pub joined_at: u64,
}

/// Player discovery result.
#[derive(Clone, Debug, PartialEq, Eq)]
pub struct PlayerSearchResult {
    pub id: String,
    pub username: String,
    pub display_name: String,
    pub avatar_url: Option<String>,
    pub animal_emoji: Option<String>,
    pub clan_tag: Option<String>,
}

fn copy_text_opt(s: &Option<String>) -> (r: Option<String>)
    ensures
        r == *s,
{
    match s {
        Some(x) => Some(x.clone()),
        None => None,
    }
}

impl Clan {
    /// Field-for-field copy.
    pub fn duplicate(&self) -> (r: Clan)
        ensures
            r == *self,
    {
        Clan {
            tag: self.tag.clone(),
            name: self.name.clone(),
            description: self.description.clone(),
            leader_id: self.leader_id.clone(),
            leader_username: self.leader_username.clone(),
            avatar_url: copy_text_opt(&self.avatar_url),
            banner_url: copy_text_opt(&self.banner_url),
            member_count: self.member_count,
            created_at: self.created_at,
        }
    }
}

impl ClanMember {
    /// Field-for-field copy.
    pub fn duplicate(&self) -> (r: ClanMember)
        ensures
            r == *self,
    {
        ClanMember {
            account_id: self.account_id.clone(),
            username: self.username.clone(),
            display_name: self.display_name.clone(),
            avatar_url: copy_text_opt(&self.avatar_url),
            animal_emoji: copy_text_opt(&self.animal_emoji),
            role: self.role,
            joined_at: self.joined_at,
        }
    }
}

/// Lifetime of an issued session token, in seconds (30 days).
pub const SESSION_TTL_SECONDS: u64 = 2592000;

} // verus!
