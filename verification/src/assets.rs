use vstd::prelude::*;
use vstd::string::*;
use crate::account::unix_now;
use crate::digest::{hex_lower, sha256_hex, sha256_of};
use crate::error::WouError;
use crate::table::{find_key, first_index, get_key, lookup, upsert, upsert_all, upsert_spec, Keyed};
use crate::text::{concat2, concat3, decimal_spec, decimal_string, push_char, str_eq, string_of};

verus! {

/// A producer's collection of token designs.
#[derive(Debug)]
pub struct Collection {
    pub id: String,
    pub name: String,
    pub symbol: String,
    pub description: String,
    pub image: String,
    pub created_at: u64,
}

/// One trait of a token design (`trait_type` = `value`).
#[derive(Debug)]
pub struct TokenAttribute {
    pub trait_type: String,
    pub value: String,
}

/// Display metadata of a token design, copied into every minted instance.
#[derive(Debug)]
pub struct TokenMetadata {
    pub name: String,
    pub description: String,
    pub image: String,
    pub attributes: Vec<TokenAttribute>,
    pub collection: String,
}

/// A token design with a capped supply; `minted` counts the serials handed out.
#[derive(Debug)]
pub struct TokenType {
    pub id: String,
    pub collection: String,
    pub metadata: TokenMetadata,
    pub max_supply: u64,
    pub minted: u64,
    pub created_at: u64,
}

/// Custody state of an instance: movable, frozen by a producer, or reserved by a listing.
#[derive(Clone, Copy, Debug, PartialEq, Eq, Structural)]
pub enum AssetStatus {
    Active,
    Frozen,
    Listed,
}

/// One minted serial of a token design.
#[derive(Debug)]
pub struct AssetInstance {
    pub id: String,
    pub token: String,
    pub collection: String,
    pub serial: u64,
    pub owner: String,
    pub status: AssetStatus,
    pub metadata: TokenMetadata,
    pub metadata_digest: String,
    pub minted_at: u64,
}

/// One entry of an instance's custody history.
#[derive(Debug)]
pub struct AssetEvent {
    pub id: String,
    pub asset: String,
    pub kind: String,
    pub from: Option<String>,
    pub to: Option<String>,
    pub by: String,
    pub at: u64,
}

/// A fixed-price sale offer for one instance.
#[derive(Debug)]
pub struct Listing {
    pub id: String,
    pub asset: String,
    pub seller: String,
    pub price: u64,
    pub status: String,
    pub created_at: u64,
}

/// SPIRAL balance of one account.
#[derive(Debug)]
pub struct SpiralBalance {
    pub account: String,
    pub amount: u64,
}

impl Keyed for Collection {
    open spec fn key_view(&self) -> Seq<char> {
        self.id@
    }

    fn key_str(&self) -> (r: &str) {
        self.id.as_str()
    }
}

impl Keyed for TokenType {
    open spec fn key_view(&self) -> Seq<char> {
        self.id@
    }

    fn key_str(&self) -> (r: &str) {
        self.id.as_str()
    }
}

impl Keyed for AssetInstance {
    open spec fn key_view(&self) -> Seq<char> {
        self.id@
    }

    fn key_str(&self) -> (r: &str) {
        self.id.as_str()
    }
}

impl Keyed for AssetEvent {
    open spec fn key_view(&self) -> Seq<char> {
        self.id@
    }

    fn key_str(&self) -> (r: &str) {
        self.id.as_str()
    }
}

impl Keyed for Listing {
    open spec fn key_view(&self) -> Seq<char> {
        self.id@
    }

    fn key_str(&self) -> (r: &str) {
        self.id.as_str()
    }
}

impl Keyed for SpiralBalance {
    open spec fn key_view(&self) -> Seq<char> {
        self.account@
    }

    fn key_str(&self) -> (r: &str) {
        self.account.as_str()
    }
}

/// Copy of an optional string.
pub fn copy_opt_string(s: &Option<String>) -> (r: Option<String>)
    ensures
        r == *s,
{
    match s {
        Some(x) => Some(x.clone()),
        None => None,
    }
}

/// Abstract value of token metadata: its texts, attribute pairs in order.
pub struct MetadataView {
    pub name: Seq<char>,
    pub description: Seq<char>,
    pub image: Seq<char>,
    pub attributes: Seq<(Seq<char>, Seq<char>)>,
    pub collection: Seq<char>,
}

impl View for TokenMetadata {
    type V = MetadataView;

    open spec fn view(&self) -> MetadataView {
        MetadataView {
            name: self.name@,
            description: self.description@,
            image: self.image@,
            attributes: self.attributes@.map_values(|a: TokenAttribute| (a.trait_type@, a.value@)),
            collection: self.collection@,
        }
    }
}

/// Abstract value of a token design.
pub struct TokenTypeView {
    pub id: Seq<char>,
    pub collection: Seq<char>,
    pub metadata: MetadataView,
    pub max_supply: u64,
    pub minted: u64,
    pub created_at: u64,
}

impl View for TokenType {
    type V = TokenTypeView;

    open spec fn view(&self) -> TokenTypeView {
        TokenTypeView {
            id: self.id@,
            collection: self.collection@,
            metadata: self.metadata@,
            max_supply: self.max_supply,
            minted: self.minted,
            created_at: self.created_at,
        }
    }
}

/// Abstract value of a minted instance.
pub struct InstanceView {
    pub id: Seq<char>,
    pub token: Seq<char>,
    pub collection: Seq<char>,
    pub serial: u64,
    pub owner: Seq<char>,
    pub status: AssetStatus,
    pub metadata: MetadataView,
    pub metadata_digest: Seq<char>,
    pub minted_at: u64,
}

impl View for AssetInstance {
    type V = InstanceView;

    open spec fn view(&self) -> InstanceView {
        InstanceView {
            id: self.id@,
            token: self.token@,
            collection: self.collection@,
            serial: self.serial,
            owner: self.owner@,
            status: self.status,
            metadata: self.metadata@,
            metadata_digest: self.metadata_digest@,
            minted_at: self.minted_at,
        }
    }
}

impl TokenMetadata {
    /// Field-for-field copy.
    pub fn duplicate(&self) -> (r: TokenMetadata)
        ensures
            r@ == self@,
            metadata_json(r) == metadata_json(*self),
    {
        let mut attrs: Vec<TokenAttribute> = Vec::new();
        let mut i: usize = 0;
        while i < self.attributes.len()
            invariant
                i <= self.attributes@.len(),
                attrs@ == self.attributes@.subrange(0, i as int),
            decreases self.attributes@.len() - i,
        {
            let a = &self.attributes[i];
            attrs.push(TokenAttribute { trait_type: a.trait_type.clone(), value: a.value.clone() });
            i = i + 1;
            assert(attrs@ =~= self.attributes@.subrange(0, i as int));
        }
        assert(self.attributes@.subrange(0, self.attributes@.len() as int) =~= self.attributes@);
        let r = TokenMetadata {
            name: self.name.clone(),
            description: self.description.clone(),
            image: self.image.clone(),
            attributes: attrs,
            collection: self.collection.clone(),
        };
        assert(r@.attributes =~= self@.attributes);
        r
    }
}

impl Collection {
    /// Field-for-field copy.
    pub fn duplicate(&self) -> (r: Collection)
        ensures
            r == *self,
    {
        Collection {
            id: self.id.clone(),
            name: self.name.clone(),
            symbol: self.symbol.clone(),
            description: self.description.clone(),
            image: self.image.clone(),
            created_at: self.created_at,
        }
    }
}

impl TokenType {
    /// Field-for-field copy.
    pub fn duplicate(&self) -> (r: TokenType)
        ensures
            r@ == self@,
    {
        TokenType {
            id: self.id.clone(),
            collection: self.collection.clone(),
            metadata: self.metadata.duplicate(),
            max_supply: self.max_supply,
            minted: self.minted,
            created_at: self.created_at,
        }
    }
}

impl AssetInstance {
    /// Field-for-field copy.
    pub fn duplicate(&self) -> (r: AssetInstance)
        ensures
            r@ == self@,
    {
        AssetInstance {
            id: self.id.clone(),
            token: self.token.clone(),
            collection: self.collection.clone(),
            serial: self.serial,
            owner: self.owner.clone(),
            status: self.status,
            metadata: self.metadata.duplicate(),
            metadata_digest: self.metadata_digest.clone(),
            minted_at: self.minted_at,
        }
    }
}

impl AssetEvent {
    /// Field-for-field copy.
    pub fn duplicate(&self) -> (r: AssetEvent)
        ensures
            r == *self,
    {
        AssetEvent {
            id: self.id.clone(),
            asset: self.asset.clone(),
            kind: self.kind.clone(),
            from: copy_opt_string(&self.from),
            to: copy_opt_string(&self.to),
            by: self.by.clone(),
            at: self.at,
        }
    }
}

impl Listing {
    /// Field-for-field copy.
    pub fn duplicate(&self) -> (r: Listing)
        ensures
            r == *self,
    {
        Listing {
            id: self.id.clone(),
            asset: self.asset.clone(),
            seller: self.seller.clone(),
            price: self.price,
            status: self.status.clone(),
            created_at: self.created_at,
        }
    }
}

/// Text of `s` as a JSON string literal, escaped the way `serde_json` writes it: quote and
/// backslash escaped, `\b \t \n \f \r` for those controls, `\u00xx` (lower-case hex) for the
/// other characters below U+0020, everything else as is.
pub open spec fn json_escape_char(c: char) -> Seq<char> {
    let u = c as u32;
    if c == '"' {
        seq!['\\', '"']
    } else if c == '\\' {
        seq!['\\', '\\']
    } else if u == 8 {
        seq!['\\', 'b']
    } else if u == 9 {
        seq!['\\', 't']
    } else if u == 10 {
        seq!['\\', 'n']
    } else if u == 12 {
        seq!['\\', 'f']
    } else if u == 13 {
        seq!['\\', 'r']
    } else if u < 32 {
        seq!['\\', 'u', '0', '0', crate::digest::hex_digit((u / 16) as u8), crate::digest::hex_digit((u % 16) as u8)]
    } else {
        seq![c]
    }
}

/// Escaped body of a JSON string literal.
pub open spec fn json_escape(s: Seq<char>) -> Seq<char>
    decreases s.len(),
{
    if s.len() == 0 {
        Seq::empty()
    } else {
        json_escape(s.drop_last()) + json_escape_char(s.last())
    }
}

/// `s` as a JSON string literal, quotes included.
pub open spec fn json_string(s: Seq<char>) -> Seq<char> {
    seq!['"'] + json_escape(s) + seq!['"']
}

fn hex_char(n: u32) -> (c: char)
    requires
        n < 16,
    ensures
        c == crate::digest::hex_digit(n as u8),
{
    if n < 10 {
        ((n as u8) + 48u8) as char
    } else {
        ((n as u8) + 87u8) as char
    }
}

/// Appends `s` to `out` as a JSON string literal.
pub fn push_json_string(out: &mut String, s: &str)
    ensures
        final(out)@ == old(out)@ + json_string(s@),
{
    let v = crate::text::chars_vec(s);
    push_char(out, '"');
    let ghost start = out@;
    let mut i: usize = 0;
    while i < v.len()
        invariant
            i <= v@.len(),
            v@ == s@,
            out@ == start + json_escape(v@.subrange(0, i as int)),
        decreases v@.len() - i,
    {
        let c = v[i];
        let u = c as u32;
        let ghost before = out@;
        if c == '"' {
            push_char(out, '\\');
            push_char(out, '"');
        } else if c == '\\' {
            push_char(out, '\\');
            push_char(out, '\\');
        } else if u == 8 {
            push_char(out, '\\');
            push_char(out, 'b');
        } else if u == 9 {
            push_char(out, '\\');
            push_char(out, 't');
        } else if u == 10 {
            push_char(out, '\\');
            push_char(out, 'n');
        } else if u == 12 {
            push_char(out, '\\');
            push_char(out, 'f');
        } else if u == 13 {
            push_char(out, '\\');
            push_char(out, 'r');
        } else if u < 32 {
            push_char(out, '\\');
            push_char(out, 'u');
            push_char(out, '0');
            push_char(out, '0');
            push_char(out, hex_char(u / 16));
            push_char(out, hex_char(u % 16));
        } else {
            push_char(out, c);
        }
        proof {
            let sub = v@.subrange(0, i + 1);
            assert(sub.drop_last() =~= v@.subrange(0, i as int));
            assert(sub.last() == c);
            assert(out@ =~= before + json_escape_char(c));
        }
        i = i + 1;
    }
    assert(v@.subrange(0, v@.len() as int) =~= v@);
    push_char(out, '"');
}

/// JSON object for one attribute, fields in declaration order.
pub open spec fn attribute_json(a: TokenAttribute) -> Seq<char> {
    "{\"trait_type\":"@ + json_string(a.trait_type@) + ",\"value\":"@ + json_string(a.value@) + "}"@
}

/// JSON array of attributes.
pub open spec fn attributes_json_body(s: Seq<TokenAttribute>) -> Seq<char>
    decreases s.len(),
{
    if s.len() == 0 {
        Seq::empty()
    } else if s.len() == 1 {
        attribute_json(s[0])
    } else {
        attributes_json_body(s.drop_last()) + ","@ + attribute_json(s.last())
    }
}

/// JSON object of token metadata as `serde_json` writes it: compact, fields in
/// declaration order.
pub open spec fn metadata_json(m: TokenMetadata) -> Seq<char> {
    "{\"name\":"@ + json_string(m.name@) + ",\"description\":"@ + json_string(m.description@)
        + ",\"image\":"@ + json_string(m.image@) + ",\"attributes\":["@ + attributes_json_body(
        m.attributes@,
    ) + "],\"collection\":"@ + json_string(m.collection@) + "}"@
}

/// Canonical JSON text of token metadata (see `metadata_json`).
pub fn metadata_to_json(m: &TokenMetadata) -> (r: String)
    ensures
        r@ == metadata_json(*m),
{
    proof {
        reveal_strlit("{\"name\":");
        reveal_strlit(",\"description\":");
        reveal_strlit(",\"image\":");
        reveal_strlit(",\"attributes\":[");
        reveal_strlit("],\"collection\":");
        reveal_strlit("}");
        reveal_strlit(",");
        reveal_strlit("{\"trait_type\":");
        reveal_strlit(",\"value\":");
    }
    let mut out = string_of("{\"name\":");
    push_json_string(&mut out, m.name.as_str());
    out.append(",\"description\":");
    push_json_string(&mut out, m.description.as_str());
    out.append(",\"image\":");
    push_json_string(&mut out, m.image.as_str());
    out.append(",\"attributes\":[");
    let ghost head = out@;
    let mut i: usize = 0;
    while i < m.attributes.len()
        invariant
            i <= m.attributes@.len(),
            out@ == head + attributes_json_body(m.attributes@.subrange(0, i as int)),
        decreases m.attributes@.len() - i,
    {
        let a = &m.attributes[i];
        let ghost before = out@;
        if i > 0 {
            out.append(",");
        }
        out.append("{\"trait_type\":");
        push_json_string(&mut out, a.trait_type.as_str());
        out.append(",\"value\":");
        push_json_string(&mut out, a.value.as_str());
        out.append("}");
        proof {
            let sub = m.attributes@.subrange(0, i + 1);
            assert(sub.drop_last() =~= m.attributes@.subrange(0, i as int));
            assert(sub.last() == m.attributes@[i as int]);
            if i == 0 {
                assert(out@ =~= head + attributes_json_body(sub));
            } else {
                assert(out@ =~= head + attributes_json_body(sub));
            }
        }
        i = i + 1;
    }
    assert(m.attributes@.subrange(0, m.attributes@.len() as int) =~= m.attributes@);
    out.append("],\"collection\":");
    push_json_string(&mut out, m.collection.as_str());
    out.append("}");
    assert(out@ =~= metadata_json(*m));
    out
}

/// Canonical digest of token metadata: lower-case hex SHA-256 of its JSON text. Frontends
/// must serve metadata that hashes to the stored digest.
pub fn metadata_digest(meta: &TokenMetadata) -> (r: String)
    ensures
        r@ == hex_lower(sha256_of(vstd::utf8::encode_utf8(metadata_json(*meta)))),
{
    let j = metadata_to_json(meta);
    sha256_hex(j.as_str().as_bytes())
}

} // verus!
