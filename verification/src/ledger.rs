use vstd::prelude::*;
use vstd::string::*;
use crate::account::unix_now;
use crate::assets::{
    metadata_digest, metadata_json, AssetEvent, AssetInstance, AssetStatus, Collection,
    InstanceView, Listing, SpiralBalance, TokenMetadata, TokenType, TokenTypeView,
};
use crate::digest::{hex_lower, sha256_of};
use crate::error::WouError;
use crate::table::{
    by_key, find_key, first_index, key_slot, lemma_first_index, lemma_key_slot_range, lemma_lookup_push,
    lemma_lookup_update, lookup, lemma_upsert_all_push, sort_by_key, upsert, upsert_all,
    upsert_spec, Keyed,
};
use crate::inventory::{has_text, lemma_has_text_extend};
use crate::text::{
    chars_vec, concat2, concat3, decimal_spec, decimal_string, str_eq, string_of, trim, trim_spec,
};

verus! {

/// Draws a fresh random identifier through `uuid::Uuid::new_v4()`, in its hyphenated text
/// form. Nothing is claimed about the value.
#[verifier::external_body]
pub fn new_record_id() -> (r: String) {
    uuid::Uuid::new_v4().to_string()
}

/// The custodial asset registry: collections, token designs, minted instances, their
/// custody history, SPIRAL balances and sale listings, each a table keyed by id (balances by
/// account).
pub struct AssetBook {
    pub collections: Vec<Collection>,
    pub tokens: Vec<TokenType>,
    pub instances: Vec<AssetInstance>,
    pub events: Vec<AssetEvent>,
    pub balances: Vec<SpiralBalance>,
    pub listings: Vec<Listing>,
}

/// Optional text as its view.
pub open spec fn opt_view(o: Option<String>) -> Option<Seq<char>> {
    match o {
        Some(s) => Some(s@),
        None => None,
    }
}

/// `e` is the custody event with these fields.
pub open spec fn event_is(
    e: AssetEvent,
    id: Seq<char>,
    asset: Seq<char>,
    kind: Seq<char>,
    from: Option<Seq<char>>,
    to: Option<Seq<char>>,
    by: Seq<char>,
    at: u64,
) -> bool {
    &&& e.id@ == id
    &&& e.asset@ == asset
    &&& e.kind@ == kind
    &&& opt_view(e.from) == from
    &&& opt_view(e.to) == to
    &&& e.by@ == by
    &&& e.at == at
}

/// An instance view with another owner.
pub open spec fn owned_by(v: InstanceView, owner: Seq<char>) -> InstanceView {
    InstanceView {
        id: v.id,
        token: v.token,
        collection: v.collection,
        serial: v.serial,
        owner,
        status: v.status,
        metadata: v.metadata,
        metadata_digest: v.metadata_digest,
        minted_at: v.minted_at,
    }
}

/// An instance view with another status.
pub open spec fn with_status(v: InstanceView, status: AssetStatus) -> InstanceView {
    InstanceView {
        id: v.id,
        token: v.token,
        collection: v.collection,
        serial: v.serial,
        owner: v.owner,
        status,
        metadata: v.metadata,
        metadata_digest: v.metadata_digest,
        minted_at: v.minted_at,
    }
}

/// The instance table changed only at key `id`, whose record now has view `v`.
pub open spec fn instance_set(
    new: Seq<AssetInstance>,
    old: Seq<AssetInstance>,
    id: Seq<char>,
    v: InstanceView,
) -> bool {
    &&& new.len() == old.len()
    &&& lookup(new, id) matches Some(a) && a@ == v
    &&& forall|k: Seq<char>| k != id ==> #[trigger] lookup(new, k) == lookup(old, k)
}

/// Instance view held under `id`.
pub open spec fn inst_at(s: Seq<AssetInstance>, id: Seq<char>) -> InstanceView {
    lookup(s, id).unwrap()@
}

/// A producer's request to create a collection with its first token designs.
pub struct CreateCollectionPayload {
    pub id: String,
    pub name: String,
    pub symbol: String,
    pub description: String,
    pub image: String,
    pub tokens: Vec<TokenType>,
}

/// A created collection and how many designs were registered in it.
pub struct SeededCollection {
    pub collection: Collection,
    pub tokens: usize,
}

/// A request to mint the next serial of a token design.
pub struct ClaimPayload {
    pub token: String,
}

/// A request to move an instance to another account.
pub struct TransferPayload {
    pub to: String,
}

/// A producer's request to credit SPIRAL to an account.
pub struct FaucetPayload {
    pub to: String,
    pub amount: u64,
}

/// An account's SPIRAL balance.
pub struct BalanceResponse {
    pub account: String,
    pub spiral: u64,
}

/// A request to list an owned instance for sale.
pub struct CreateListingPayload {
    pub asset: String,
    pub price: u64,
}

/// A bridge request to maintain the catalog: an optional collection, then token designs.
pub struct UpsertTokensRequest {
    pub collection: Option<Collection>,
    pub tokens: Vec<TokenType>,
}

/// Why seeding a collection failed.
pub enum SeedFailure {
    /// The trimmed id is empty or no token design was given.
    IdAndTokensRequired,
    /// The registry refused the collection or a design.
    Refused(WouError),
}

/// Token designs as seeded into collection `col` at `now`.
pub open spec fn seeded(toks: Seq<TokenType>, col: String, now: u64) -> Seq<TokenType> {
    toks.map_values(
        |t: TokenType|
            TokenType {
                id: t.id,
                collection: col,
                metadata: t.metadata,
                max_supply: t.max_supply,
                minted: t.minted,
                created_at: now,
            },
    )
}

/// Design `k` of `toks` can be registered after those before it, on top of `tokens`: its
/// cap is not zero and its id is neither registered nor used by an earlier design.
pub open spec fn seedable_at(tokens: Seq<TokenType>, toks: Seq<TokenType>, k: int) -> bool {
    &&& toks[k].max_supply > 0
    &&& lookup(tokens, toks[k].id@) is None
    &&& forall|j: int| 0 <= j < k ==> (#[trigger] toks[j]).id@ != toks[k].id@
}

/// The error registering design `k` meets when it is not seedable.
pub open spec fn seed_error(toks: Seq<TokenType>, k: int, e: WouError) -> bool {
    if toks[k].max_supply == 0 {
        e matches WouError::Internal(m) && m@ == "max_supply must be > 0"@
    } else {
        e matches WouError::TokenExists(x) && x@ == toks[k].id@
    }
}

/// Whether `account` is one of the producers.
pub fn is_producer(producer_ids: &[String], account: &str) -> (b: bool)
    ensures
        b == has_text(producer_ids@, account@),
{
    crate::inventory::has_str(producer_ids, account)
}

/// The book's tables, as sequences.
pub open spec fn tables(
    b: AssetBook,
) -> (Seq<Collection>, Seq<TokenType>, Seq<AssetInstance>, Seq<AssetEvent>, Seq<SpiralBalance>, Seq<Listing>) {
    (b.collections@, b.tokens@, b.instances@, b.events@, b.balances@, b.listings@)
}

/// A collection stamped with its creation time.
pub open spec fn collection_created(c: Collection, now: u64) -> Collection {
    Collection {
        id: c.id,
        name: c.name,
        symbol: c.symbol,
        description: c.description,
        image: c.image,
        created_at: now,
    }
}

/// A token design stamped with its creation time.
pub open spec fn token_created(t: TokenType, now: u64) -> TokenType {
    TokenType {
        id: t.id,
        collection: t.collection,
        metadata: t.metadata,
        max_supply: t.max_supply,
        minted: t.minted,
        created_at: now,
    }
}

/// A token view with one more serial handed out.
pub open spec fn token_bumped(t: TokenTypeView) -> TokenTypeView {
    TokenTypeView {
        id: t.id,
        collection: t.collection,
        metadata: t.metadata,
        max_supply: t.max_supply,
        minted: (t.minted + 1) as u64,
        created_at: t.created_at,
    }
}

/// Id of serial `serial` of token `token`: `token#serial`.
pub open spec fn instance_id(token: Seq<char>, serial: nat) -> Seq<char> {
    token + seq!['#'] + decimal_spec(serial)
}

/// The instance minted as serial `minted + 1` of `t` for `owner` at `now`.
pub open spec fn minted_view(t: TokenType, token_id: Seq<char>, owner: Seq<char>, now: u64) -> InstanceView {
    InstanceView {
        id: instance_id(token_id, (t.minted + 1) as nat),
        token: token_id,
        collection: t.collection@,
        serial: (t.minted + 1) as u64,
        owner,
        status: AssetStatus::Active,
        metadata: t.metadata@,
        metadata_digest: hex_lower(sha256_of(vstd::utf8::encode_utf8(metadata_json(t.metadata)))),
        minted_at: now,
    }
}

/// Event kind logged when a producer sets a status.
pub open spec fn status_kind(s: AssetStatus) -> Seq<char> {
    match s {
        AssetStatus::Frozen => "freeze"@,
        AssetStatus::Active => "restore"@,
        AssetStatus::Listed => "list"@,
    }
}

fn status_kind_str(s: AssetStatus) -> (r: &'static str)
    ensures
        r@ == status_kind(s),
{
    match s {
        AssetStatus::Frozen => "freeze",
        AssetStatus::Active => "restore",
        AssetStatus::Listed => "list",
    }
}

/// The event table after logging one event that `event_is` describes.
pub open spec fn logged_one(
    new: Seq<AssetEvent>,
    old: Seq<AssetEvent>,
    id: Seq<char>,
    asset: Seq<char>,
    kind: Seq<char>,
    from: Option<Seq<char>>,
    to: Option<Seq<char>>,
    by: Seq<char>,
    at: u64,
) -> bool {
    exists|e: AssetEvent| new == upsert_spec(old, e) && event_is(e, id, asset, kind, from, to, by, at)
}

fn opt_string(s: &str) -> (r: Option<String>)
    ensures
        opt_view(r) == Some(s@),
{
    Some(string_of(s))
}

/// Sets the owner of the record held under `id`.
fn set_owner(v: &mut Vec<AssetInstance>, id: &str, owner: &str)
    requires
        lookup(old(v)@, id@) is Some,
    ensures
        instance_set(final(v)@, old(v)@, id@, owned_by(inst_at(old(v)@, id@), owner@)),
{
    let i = find_key(v, id).unwrap();
    proof {
        lemma_first_index(v@, id@);
    }
    let mut rec = v.remove(i);
    let ghost old_v = old(v)@;
    rec.owner = string_of(owner);
    v.insert(i, rec);
    proof {
        assert(v@ =~= old_v.update(i as int, rec));
        lemma_lookup_update(old_v, i as int, rec);
    }
}

/// Sets the status of the record held under `id`.
fn set_status(v: &mut Vec<AssetInstance>, id: &str, status: AssetStatus)
    requires
        lookup(old(v)@, id@) is Some,
    ensures
        instance_set(final(v)@, old(v)@, id@, with_status(inst_at(old(v)@, id@), status)),
{
    let i = find_key(v, id).unwrap();
    proof {
        lemma_first_index(v@, id@);
    }
    let mut rec = v.remove(i);
    let ghost old_v = old(v)@;
    rec.status = status;
    v.insert(i, rec);
    proof {
        assert(v@ =~= old_v.update(i as int, rec));
        lemma_lookup_update(old_v, i as int, rec);
    }
}

/// Appends one custody event.
fn log_event(
    events: &mut Vec<AssetEvent>,
    id: String,
    asset: &str,
    kind: &str,
    from: Option<String>,
    to: Option<String>,
    by: &str,
    at: u64,
)
    ensures
        logged_one(final(events)@, old(events)@, id@, asset@, kind@, opt_view(from), opt_view(to), by@, at),
{
    let e = AssetEvent {
        id,
        asset: string_of(asset),
        kind: string_of(kind),
        from,
        to,
        by: string_of(by),
        at,
    };
    upsert(events, e);
}

impl AssetBook {
    /// An empty registry.
    pub fn new() -> (r: AssetBook)
        ensures
            r.collections@.len() == 0,
            r.tokens@.len() == 0,
            r.instances@.len() == 0,
            r.events@.len() == 0,
            r.balances@.len() == 0,
            r.listings@.len() == 0,
    {
        AssetBook {
            collections: Vec::new(),
            tokens: Vec::new(),
            instances: Vec::new(),
            events: Vec::new(),
            balances: Vec::new(),
            listings: Vec::new(),
        }
    }

    /// Registers a collection stamped `now`; an id already taken is refused.
    pub fn create_collection_at(&mut self, col: Collection, now: u64) -> (r: Result<Collection, WouError>)
        ensures
            collection_done(*old(self), *final(self), col, r, now),
    {
        let mut col = col;
        col.created_at = now;
        if find_key(&self.collections, col.id.as_str()).is_some() {
            return Err(WouError::CollectionExists(col.id));
        }
        let out = col.duplicate();
        self.collections.push(col);
        Ok(out)
    }

    /// Registers a collection stamped with the current time (see `create_collection_at`).
    pub fn create_collection(&mut self, col: Collection) -> (r: Result<Collection, WouError>)
        ensures
            lookup(old(self).collections@, col.id@) is Some <==> r is Err,
            r is Err ==> tables(*final(self)) == tables(*old(self)),
            r matches Ok(c) ==> c.id@ == col.id@ && final(self).collections@ == old(
                self,
            ).collections@.push(c),
            exists|now: u64| #[trigger] collection_done(*old(self), *final(self), col, r, now),
    {
        let now = unix_now();
        let ghost c = col;
        let r = self.create_collection_at(col, now);
        assert(collection_done(*old(self), *self, c, r, now));
        r
    }

    /// Registers a token design stamped `now`. Refused: an unknown collection, a zero
    /// supply cap, an id already taken (checked in that order).
    pub fn register_token_at(&mut self, tok: TokenType, now: u64) -> (r: Result<TokenType, WouError>)
        ensures
            register_done(*old(self), *final(self), tok, r, now),
    {
        proof {
            reveal_strlit("Unknown collection ");
            reveal_strlit("max_supply must be > 0");
        }
        if find_key(&self.collections, tok.collection.as_str()).is_none() {
            return Err(WouError::Internal(concat2("Unknown collection ", tok.collection.as_str())));
        }
        if tok.max_supply == 0 {
            return Err(WouError::Internal(string_of("max_supply must be > 0")));
        }
        let mut tok = tok;
        tok.created_at = now;
        if find_key(&self.tokens, tok.id.as_str()).is_some() {
            return Err(WouError::TokenExists(tok.id));
        }
        let out = tok.duplicate();
        self.tokens.push(tok);
        Ok(out)
    }

    /// Registers a token design stamped with the current time (see `register_token_at`).
    pub fn register_token(&mut self, tok: TokenType) -> (r: Result<TokenType, WouError>)
        ensures
            r is Ok <==> lookup(old(self).collections@, tok.collection@) is Some && tok.max_supply > 0
                && lookup(old(self).tokens@, tok.id@) is None,
            r is Err ==> tables(*final(self)) == tables(*old(self)),
            r matches Ok(t) ==> t.id@ == tok.id@ && t.minted == tok.minted && t.max_supply
                == tok.max_supply,
            exists|now: u64| #[trigger] register_done(*old(self), *final(self), tok, r, now),
    {
        let now = unix_now();
        let ghost t = tok;
        let r = self.register_token_at(tok, now);
        assert(register_done(*old(self), *self, t, r, now));
        r
    }

    /// Mints the next serial of a token to `owner`, stamped `now`, logging a `mint` event
    /// under `event_id`. Refused: an unknown token, an exhausted supply.
    pub fn claim_token_at(&mut self, token_id: &str, owner: &str, by: &str, now: u64, event_id: String)
        -> (r: Result<AssetInstance, WouError>)
        ensures
            claim_done(*old(self), *final(self), token_id@, owner@, by@, r, now, event_id@),
    {
        proof {
            reveal_strlit("mint");
            reveal_strlit("#");
        }
        let found = find_key(&self.tokens, token_id);
        proof {
            lemma_first_index(self.tokens@, token_id@);
        }
        let i = match found {
            None => {
                return Err(WouError::AssetNotFound(string_of(token_id)));
            },
            Some(i) => i,
        };
        if self.tokens[i].minted >= self.tokens[i].max_supply {
            return Err(WouError::SupplyExhausted(string_of(token_id)));
        }
        let ghost old_tokens = self.tokens@;
        let mut tok = self.tokens.remove(i);
        tok.minted = tok.minted + 1;
        let serial = tok.minted;
        let id = concat3(token_id, "#", decimal_string(serial).as_str());
        assert(id@ =~= instance_id(token_id@, serial as nat));
        assert(old_tokens[i as int] == lookup(old_tokens, token_id@).unwrap());
        let metadata = tok.metadata.duplicate();
        let digest = metadata_digest(&tok.metadata);
        let collection = tok.collection.clone();
        self.tokens.insert(i, tok);
        proof {
            assert(self.tokens@ =~= old_tokens.update(i as int, tok));
            lemma_lookup_update(old_tokens, i as int, tok);
        }
        let inst = AssetInstance {
            id,
            token: string_of(token_id),
            collection,
            serial,
            owner: string_of(owner),
            status: AssetStatus::Active,
            metadata,
            metadata_digest: digest,
            minted_at: now,
        };
        let out = inst.duplicate();
        upsert(&mut self.instances, inst);
        log_event(&mut self.events, event_id, out.id.as_str(), "mint", None, opt_string(owner), by, now);
        Ok(out)
    }

    /// Mints the next serial of a token to `owner` now (see `claim_token_at`).
    pub fn claim_token(&mut self, token_id: &str, owner: &str, by: &str) -> (r: Result<AssetInstance, WouError>)
        ensures
            r is Err ==> tables(*final(self)) == tables(*old(self)),
            r is Ok <==> (lookup(old(self).tokens@, token_id@) matches Some(t) && t.minted < t.max_supply),
            r matches Ok(inst) ==> inst.owner@ == owner@ && inst.serial == lookup(old(self).tokens@, token_id@).unwrap().minted + 1,
            exists|now: u64, e0: Seq<char>| #[trigger] claim_done(*old(self), *final(self), token_id@, owner@, by@, r, now, e0),
    {
        let now = unix_now();
        let ev = new_record_id();
        let ghost evv = ev@;
        let r = self.claim_token_at(token_id, owner, by, now, ev);
        assert(claim_done(*old(self), *self, token_id@, owner@, by@, r, now, evv));
        r
    }


    /// Moves an instance from `expected_owner` to `to`, stamped `now`, logging a `transfer`
    /// event under `event_id`. Refused: an unknown instance, another owner, a status other
    /// than `Active` (checked in that order).
    pub fn transfer_asset_at(
        &mut self,
        id: &str,
        expected_owner: &str,
        to: &str,
        by: &str,
        now: u64,
        event_id: String,
    ) -> (r: Result<AssetInstance, WouError>)
        ensures
            transfer_done(*old(self), *final(self), id@, expected_owner@, to@, by@, r, now, event_id@),
    {
        proof {
            reveal_strlit("transfer");
        }
        let found = find_key(&self.instances, id);
        proof {
            lemma_first_index(self.instances@, id@);
        }
        let i = match found {
            None => {
                return Err(WouError::AssetNotFound(string_of(id)));
            },
            Some(i) => i,
        };
        if !str_eq(self.instances[i].owner.as_str(), expected_owner) {
            return Err(WouError::NotAssetOwner);
        }
        if self.instances[i].status != AssetStatus::Active {
            return Err(WouError::AssetFrozen(string_of(id)));
        }
        set_owner(&mut self.instances, id, to);
        let j = find_key(&self.instances, id).unwrap();
        let out = self.instances[j].duplicate();
        log_event(&mut self.events, event_id, id, "transfer", opt_string(expected_owner), opt_string(to), by, now);
        Ok(out)
    }

    /// Moves an instance now (see `transfer_asset_at`).
    pub fn transfer_asset(&mut self, id: &str, expected_owner: &str, to: &str, by: &str)
        -> (r: Result<AssetInstance, WouError>)
        ensures
            r is Err ==> tables(*final(self)) == tables(*old(self)),
            r is Ok <==> (lookup(old(self).instances@, id@) matches Some(a) && a.owner@
                == expected_owner@ && a.status == AssetStatus::Active),
            r matches Ok(a) ==> a@ == owned_by(inst_at(old(self).instances@, id@), to@)
                && instance_set(final(self).instances@, old(self).instances@, id@, a@),
            exists|now: u64, e0: Seq<char>| #[trigger] transfer_done(*old(self), *final(self), id@, expected_owner@, to@, by@, r, now, e0),
    {
        let now = unix_now();
        let ev = new_record_id();
        let ghost evv = ev@;
        let r = self.transfer_asset_at(id, expected_owner, to, by, now, ev);
        assert(transfer_done(*old(self), *self, id@, expected_owner@, to@, by@, r, now, evv));
        r
    }

    /// Producer repair path: sets an instance's status, stamped `now`, logging a
    /// `freeze`/`restore`/`list` event under `event_id`. Refused: an unknown instance, a
    /// listed instance (its listing must be cancelled first).
    pub fn set_asset_status_at(&mut self, id: &str, status: AssetStatus, by: &str, now: u64, event_id: String)
        -> (r: Result<AssetInstance, WouError>)
        ensures
            status_done(*old(self), *final(self), id@, by@, status, r, now, event_id@),
    {
        proof {
            reveal_strlit("Asset is listed; cancel the listing first");
        }
        let found = find_key(&self.instances, id);
        proof {
            lemma_first_index(self.instances@, id@);
        }
        let i = match found {
            None => {
                return Err(WouError::AssetNotFound(string_of(id)));
            },
            Some(i) => i,
        };
        if self.instances[i].status == AssetStatus::Listed {
            return Err(WouError::Internal(string_of("Asset is listed; cancel the listing first")));
        }
        set_status(&mut self.instances, id, status);
        let j = find_key(&self.instances, id).unwrap();
        let out = self.instances[j].duplicate();
        log_event(&mut self.events, event_id, id, status_kind_str(status), None, opt_string(out.owner.as_str()), by, now);
        Ok(out)
    }

    /// Sets an instance's status now (see `set_asset_status_at`).
    pub fn set_asset_status(&mut self, id: &str, status: AssetStatus, by: &str) -> (r: Result<AssetInstance, WouError>)
        ensures
            r is Err ==> tables(*final(self)) == tables(*old(self)),
            r is Ok <==> (lookup(old(self).instances@, id@) matches Some(a) && a.status
                != AssetStatus::Listed),
            r matches Ok(a) ==> a@ == with_status(inst_at(old(self).instances@, id@), status)
                && instance_set(final(self).instances@, old(self).instances@, id@, a@),
            exists|now: u64, e0: Seq<char>| #[trigger] status_done(*old(self), *final(self), id@, by@, status, r, now, e0),
    {
        let now = unix_now();
        let ev = new_record_id();
        let ghost evv = ev@;
        let r = self.set_asset_status_at(id, status, by, now, ev);
        assert(status_done(*old(self), *self, id@, by@, status, r, now, evv));
        r
    }


    /// Swaps the owners of two instances for a trade, stamped `now`, logging a `trade` event
    /// for each under `event_a` and `event_b`. Refused: an unknown instance (first `a`, then
    /// `b`), an owner other than expected, an instance that is not `Active`.
    pub fn swap_instances_at(
        &mut self,
        a_id: &str,
        a_owner: &str,
        b_id: &str,
        b_owner: &str,
        by: &str,
        now: u64,
        event_a: String,
        event_b: String,
    ) -> (r: Result<(), WouError>)
        ensures
            swap_done(*old(self), *final(self), a_id@, a_owner@, b_id@, b_owner@, by@, r, now, event_a@, event_b@),
    {
        let fa = find_key(&self.instances, a_id);
        proof {
            lemma_first_index(self.instances@, a_id@);
        }
        let ia = match fa {
            None => {
                return Err(WouError::AssetNotFound(string_of(a_id)));
            },
            Some(i) => i,
        };
        let fb = find_key(&self.instances, b_id);
        proof {
            lemma_first_index(self.instances@, b_id@);
        }
        let ib = match fb {
            None => {
                return Err(WouError::AssetNotFound(string_of(b_id)));
            },
            Some(i) => i,
        };
        if !str_eq(self.instances[ia].owner.as_str(), a_owner) || !str_eq(
            self.instances[ib].owner.as_str(),
            b_owner,
        ) {
            return Err(WouError::NotAssetOwner);
        }
        if self.instances[ia].status != AssetStatus::Active || self.instances[ib].status
            != AssetStatus::Active {
            return Err(WouError::AssetFrozen(string_of(a_id)));
        }
        let ghost old_inst = self.instances@;
        set_owner(&mut self.instances, a_id, b_owner);
        let ghost mid = self.instances@;
        set_owner(&mut self.instances, b_id, a_owner);
        proof {
            if a_id@ == b_id@ {
                assert(inst_at(mid, b_id@) == owned_by(inst_at(old_inst, a_id@), b_owner@));
            } else {
                assert(lookup(mid, b_id@) == lookup(old_inst, b_id@));
            }
        }
        proof {
            reveal_strlit("trade");
        }
        let ghost ev0 = self.events@;
        log_event(&mut self.events, event_a, a_id, "trade", opt_string(a_owner), opt_string(b_owner), by, now);
        let ghost ev1 = self.events@;
        log_event(&mut self.events, event_b, b_id, "trade", opt_string(b_owner), opt_string(a_owner), by, now);
        proof {
            let e1 = choose|e: AssetEvent| ev1 == upsert_spec(ev0, e) && event_is(e, event_a@, a_id@, "trade"@, Some(a_owner@), Some(b_owner@), by@, now);
            let e2 = choose|e: AssetEvent| self.events@ == upsert_spec(ev1, e) && event_is(e, event_b@, b_id@, "trade"@, Some(b_owner@), Some(a_owner@), by@, now);
            assert(self.events@ == upsert_spec(upsert_spec(ev0, e1), e2));
        }
        Ok(())
    }

    /// Swaps the owners of two instances now (see `swap_instances_at`).
    pub fn swap_instances(&mut self, a_id: &str, a_owner: &str, b_id: &str, b_owner: &str, by: &str)
        -> (r: Result<(), WouError>)
        ensures
            r is Err ==> tables(*final(self)) == tables(*old(self)),
            r is Ok <==> (lookup(old(self).instances@, a_id@) matches Some(a) && lookup(
                old(self).instances@,
                b_id@,
            ) matches Some(b) && a.owner@ == a_owner@ && b.owner@ == b_owner@ && a.status
                == AssetStatus::Active && b.status == AssetStatus::Active),
            r is Ok ==> (lookup(final(self).instances@, b_id@) matches Some(x) && x@ == owned_by(
                inst_at(old(self).instances@, b_id@),
                a_owner@,
            )),
            r is Ok && a_id@ != b_id@ ==> (lookup(final(self).instances@, a_id@) matches Some(x)
                && x@ == owned_by(inst_at(old(self).instances@, a_id@), b_owner@)),
            exists|now: u64, e0: Seq<char>, e1: Seq<char>| #[trigger] swap_done(*old(self), *final(self), a_id@, a_owner@, b_id@, b_owner@, by@, r, now, e0, e1),
    {
        let now = unix_now();
        let ea = new_record_id();
        let eb = new_record_id();
        let ghost (ga, gb) = (ea@, eb@);
        let r = self.swap_instances_at(a_id, a_owner, b_id, b_owner, by, now, ea, eb);
        assert(swap_done(*old(self), *self, a_id@, a_owner@, b_id@, b_owner@, by@, r, now, ga, gb));
        r
    }

    /// Creates a collection under the trimmed payload id, stamped `now`, then registers each
    /// design in it in order, stamped `now`. Refused before anything changes when the
    /// trimmed id is empty or no design is given, or when the id is taken. A design that
    /// cannot be registered stops the run with its error; the collection and the designs
    /// before it stay registered.
    #[verifier::loop_isolation(false)]
    pub fn seed_collection_at(&mut self, payload: CreateCollectionPayload, now: u64) -> (r: Result<
        SeededCollection,
        SeedFailure,
    >)
        ensures
            (trim_spec(payload.id@).len() == 0 || payload.tokens@.len() == 0) ==> (r matches Err(
                SeedFailure::IdAndTokensRequired) && tables(*final(self)) == tables(*old(self))),
            trim_spec(payload.id@).len() > 0 && payload.tokens@.len() > 0 && lookup(
                old(self).collections@,
                trim_spec(payload.id@),
            ) is Some ==> (r matches Err(SeedFailure::Refused(WouError::CollectionExists(x))) && x@
                == trim_spec(payload.id@) && tables(*final(self)) == tables(*old(self))),
            trim_spec(payload.id@).len() > 0 && payload.tokens@.len() > 0 && lookup(
                old(self).collections@,
                trim_spec(payload.id@),
            ) is None ==> {
                &&& final(self).collections@.len() == old(self).collections@.len() + 1
                &&& final(self).collections@.drop_last() == old(self).collections@
                &&& final(self).collections@.last().id@ == trim_spec(payload.id@)
                &&& final(self).collections@.last().name == payload.name
                &&& final(self).collections@.last().symbol == payload.symbol
                &&& final(self).collections@.last().description == payload.description
                &&& final(self).collections@.last().image == payload.image
                &&& final(self).collections@.last().created_at == now
                &&& final(self).instances@ == old(self).instances@
                &&& final(self).events@ == old(self).events@
                &&& final(self).balances@ == old(self).balances@
                &&& final(self).listings@ == old(self).listings@
                &&& (r is Ok <==> forall|k: int| 0 <= k < payload.tokens@.len() ==> seedable_at(
                    old(self).tokens@,
                    payload.tokens@,
                    k,
                ))
                &&& r matches Ok(sc) ==> {
                    &&& sc.collection == final(self).collections@.last()
                    &&& sc.tokens == payload.tokens@.len()
                    &&& final(self).tokens@ == old(self).tokens@ + seeded(
                        payload.tokens@,
                        final(self).collections@.last().id,
                        now,
                    )
                }
                &&& r matches Err(f) ==> exists|k: int| {
                    &&& 0 <= k < payload.tokens@.len()
                    &&& !#[trigger] seedable_at(old(self).tokens@, payload.tokens@, k)
                    &&& forall|j: int| 0 <= j < k ==> seedable_at(old(self).tokens@, payload.tokens@, j)
                    &&& f matches SeedFailure::Refused(e) && seed_error(payload.tokens@, k, e)
                    &&& final(self).tokens@ == old(self).tokens@ + seeded(
                        payload.tokens@.take(k),
                        final(self).collections@.last().id,
                        now,
                    )
                }
            },
    {
        proof {
            reveal_strlit("max_supply must be > 0");
        }
        let id = trim(payload.id.as_str());
        if chars_vec(id.as_str()).len() == 0 || payload.tokens.len() == 0 {
            return Err(SeedFailure::IdAndTokensRequired);
        }
        let col = Collection {
            id,
            name: payload.name,
            symbol: payload.symbol,
            description: payload.description,
            image: payload.image,
            created_at: 0,
        };
        let created = match self.create_collection_at(col, now) {
            Ok(c) => c,
            Err(e) => {
                return Err(SeedFailure::Refused(e));
            },
        };
        proof {
            lemma_lookup_push(old(self).collections@, created);
        }
        let ghost old_tokens = old(self).tokens@;
        let ghost all = payload.tokens@;
        let mut rest = payload.tokens;
        let n = rest.len();
        let mut i: usize = 0;
        while i < n
            invariant
                i <= n,
                n == all.len(),
                rest@ == all.skip(i as int),
                lookup(self.collections@, created.id@) is Some,
                self.tokens@ == old_tokens + seeded(all.take(i as int), created.id, now),
                forall|k: int| 0 <= k < i ==> seedable_at(old_tokens, all, k),
                forall|key: Seq<char>| #[trigger] lookup(self.tokens@, key) is None <==> (lookup(
                    old_tokens,
                    key,
                ) is None && forall|j: int| 0 <= j < i ==> (#[trigger] all[j]).id@ != key),
                self.collections@ == old(self).collections@.push(created),
                self.instances@ == old(self).instances@,
                self.events@ == old(self).events@,
                self.balances@ == old(self).balances@,
                self.listings@ == old(self).listings@,
            decreases n - i,
        {
            let mut tok = rest.remove(0);
            assert(tok == all[i as int]);
            tok.collection = created.id.clone();
            let ghost placed = tok;
            let ghost before = self.tokens@;
            match self.register_token_at(tok, now) {
                Ok(_) => {},
                Err(e) => {
                    proof {
                        assert(!seedable_at(old_tokens, all, i as int));
                        assert(seed_error(all, i as int, e));
                    }
                    return Err(SeedFailure::Refused(e));
                },
            }
            proof {
                assert(seedable_at(old_tokens, all, i as int));
                lemma_first_index(before, placed.id@);
                assert(first_index(before, placed.id@) is None);
                lemma_lookup_push(before, token_created(placed, now));
                assert(all.take(i + 1) =~= all.take(i as int).push(all[i as int]));
                assert(seeded(all.take(i + 1), created.id, now) =~= seeded(
                    all.take(i as int),
                    created.id,
                    now,
                ).push(token_created(placed, now)));
                assert(rest@ =~= all.skip(i + 1));
            }
            i = i + 1;
        }
        assert(all.take(n as int) =~= all);
        Ok(SeededCollection { collection: created, tokens: n })
    }

    /// The SPIRAL balance of `account`, as answered to a client.
    pub fn balance_response(&self, account: String) -> (r: BalanceResponse)
        ensures
            r.account == account,
            r.spiral == balance_of(self.balances@, account@),
    {
        let spiral = self.spiral_balance(account.as_str());
        BalanceResponse { account, spiral }
    }

    /// SPIRAL balance of an account (zero when it has none).
    pub fn spiral_balance(&self, account: &str) -> (r: u64)
        ensures
            r == balance_of(self.balances@, account@),
    {
        match find_key(&self.balances, account) {
            Some(i) => self.balances[i].amount,
            None => 0,
        }
    }

    /// Producer faucet: credits `amount` (1 to 1,000,000) to `to`, saturating at the
    /// largest balance, and returns the new balance.
    pub fn faucet_spiral(&mut self, to: &str, amount: u64) -> (r: Result<u64, WouError>)
        ensures
            (amount == 0 || amount > 1000000) ==> {
                &&& r matches Err(WouError::Internal(m)) && m@ == "amount must be 1..1000000"@
                &&& tables(*final(self)) == tables(*old(self))
            },
            (1 <= amount <= 1000000) ==> {
                let next = if balance_of(old(self).balances@, to@) + amount > u64::MAX {
                    u64::MAX
                } else {
                    (balance_of(old(self).balances@, to@) + amount) as u64
                };
                &&& r == Ok::<u64, WouError>(next)
                &&& balances_set(final(self).balances@, old(self).balances@, to@, next)
                &&& final(self).collections@ == old(self).collections@
                &&& final(self).tokens@ == old(self).tokens@
                &&& final(self).instances@ == old(self).instances@
                &&& final(self).events@ == old(self).events@
                &&& final(self).listings@ == old(self).listings@
            },
    {
        proof {
            reveal_strlit("amount must be 1..1000000");
        }
        if amount == 0 || amount > 1000000 {
            return Err(WouError::Internal(string_of("amount must be 1..1000000")));
        }
        let cur = self.spiral_balance(to);
        let next = cur.saturating_add(amount);
        set_balance(&mut self.balances, to, next);
        Ok(next)
    }

    /// Lists an owned `Active` instance for sale at `price` under `listing_id`, stamped
    /// `now`; the instance turns `Listed` so moves refuse it. Logs a `list` event under
    /// `event_id`. Refused: a zero price, an unknown instance, another owner, a status other
    /// than `Active` (checked in that order).
    pub fn create_listing_at(
        &mut self,
        asset_id: &str,
        seller: &str,
        price: u64,
        now: u64,
        listing_id: String,
        event_id: String,
    ) -> (r: Result<Listing, WouError>)
        ensures
            listing_done(*old(self), *final(self), asset_id@, seller@, price, r, now, listing_id@, event_id@),
    {
        proof {
            reveal_strlit("price must be > 0");
            reveal_strlit("open");
            reveal_strlit("list");
        }
        if price == 0 {
            return Err(WouError::Internal(string_of("price must be > 0")));
        }
        let found = find_key(&self.instances, asset_id);
        proof {
            lemma_first_index(self.instances@, asset_id@);
        }
        let i = match found {
            None => {
                return Err(WouError::AssetNotFound(string_of(asset_id)));
            },
            Some(i) => i,
        };
        if !str_eq(self.instances[i].owner.as_str(), seller) {
            return Err(WouError::NotAssetOwner);
        }
        if self.instances[i].status != AssetStatus::Active {
            return Err(WouError::AssetFrozen(string_of(asset_id)));
        }
        set_status(&mut self.instances, asset_id, AssetStatus::Listed);
        let listing = Listing {
            id: listing_id,
            asset: string_of(asset_id),
            seller: string_of(seller),
            price,
            status: string_of("open"),
            created_at: now,
        };
        let out = listing.duplicate();
        upsert(&mut self.listings, listing);
        log_event(&mut self.events, event_id, asset_id, "list", opt_string(seller), None, seller, now);
        Ok(out)
    }

    /// Lists an instance for sale now (see `create_listing_at`).
    pub fn create_listing(&mut self, asset_id: &str, seller: &str, price: u64) -> (r: Result<Listing, WouError>)
        ensures
            r is Err ==> tables(*final(self)) == tables(*old(self)),
            r is Ok <==> (lookup(old(self).instances@, asset_id@) matches Some(a) && price > 0
                && a.owner@ == seller@ && a.status == AssetStatus::Active),
            r matches Ok(l) ==> l.asset@ == asset_id@ && l.seller@ == seller@ && l.price == price
                && l.status@ == "open"@,
            exists|now: u64, e0: Seq<char>, e1: Seq<char>| #[trigger] listing_done(*old(self), *final(self), asset_id@, seller@, price, r, now, e0, e1),
    {
        let now = unix_now();
        let lid = new_record_id();
        let ev = new_record_id();
        let ghost (gl, ge) = (lid@, ev@);
        let r = self.create_listing_at(asset_id, seller, price, now, lid, ev);
        assert(listing_done(*old(self), *self, asset_id@, seller@, price, r, now, gl, ge));
        r
    }

    /// Seller-only cancel, stamped `now`: the listing turns `cancelled` and a still listed
    /// instance turns `Active` again; logs an `unlist` event under `event_id`. Refused: an
    /// unknown listing, another caller than the seller, a listing that is not open.
    pub fn cancel_listing_at(&mut self, id: &str, caller: &str, now: u64, event_id: String)
        -> (r: Result<Listing, WouError>)
        ensures
            cancel_done(*old(self), *final(self), id@, caller@, r, now, event_id@),
    {
        proof {
            reveal_strlit("open");
            reveal_strlit("cancelled");
            reveal_strlit("unlist");
        }
        let found = find_key(&self.listings, id);
        proof {
            lemma_first_index(self.listings@, id@);
        }
        let i = match found {
            None => {
                return Err(WouError::ListingNotOpen(string_of(id)));
            },
            Some(i) => i,
        };
        if !str_eq(self.listings[i].seller.as_str(), caller) {
            return Err(WouError::NotAssetOwner);
        }
        if !str_eq(self.listings[i].status.as_str(), "open") {
            return Err(WouError::ListingNotOpen(string_of(id)));
        }
        let mut l = self.listings[i].duplicate();
        l.status = string_of("cancelled");
        let out = l.duplicate();
        upsert(&mut self.listings, l);
        let fa = find_key(&self.instances, out.asset.as_str());
        proof {
            lemma_first_index(self.instances@, out.asset@);
        }
        match fa {
            Some(j) => {
                if self.instances[j].status == AssetStatus::Listed {
                    set_status(&mut self.instances, out.asset.as_str(), AssetStatus::Active);
                }
            },
            None => {},
        }
        log_event(&mut self.events, event_id, out.asset.as_str(), "unlist", opt_string(caller), None, caller, now);
        Ok(out)
    }

    /// Cancels a listing now (see `cancel_listing_at`).
    pub fn cancel_listing(&mut self, id: &str, caller: &str) -> (r: Result<Listing, WouError>)
        ensures
            r is Err ==> tables(*final(self)) == tables(*old(self)),
            r is Ok <==> (lookup(old(self).listings@, id@) matches Some(l) && l.seller@ == caller@
                && l.status@ == "open"@),
            r matches Ok(nl) ==> nl.status@ == "cancelled"@ && final(self).listings@ == upsert_spec(
                old(self).listings@,
                nl,
            ),
            exists|now: u64, e0: Seq<char>| #[trigger] cancel_done(*old(self), *final(self), id@, caller@, r, now, e0),
    {
        let now = unix_now();
        let ev = new_record_id();
        let ghost ge = ev@;
        let r = self.cancel_listing_at(id, caller, now, ev);
        assert(cancel_done(*old(self), *self, id@, caller@, r, now, ge));
        r
    }

    /// Atomic buy, stamped `now`: the price moves from the buyer's SPIRAL to the seller's
    /// (the seller's saturating), the instance moves to the buyer as `Active`, the listing
    /// turns `sold`; logs a `trade` event under `event_id`. Refused: an unknown or closed
    /// listing, a buyer who is the seller, a balance below the price, an unknown instance,
    /// an instance no longer listed by the seller (checked in that order).
    pub fn buy_listing_at(&mut self, id: &str, buyer: &str, now: u64, event_id: String)
        -> (r: Result<Listing, WouError>)
        ensures
            buy_done(*old(self), *final(self), id@, buyer@, r, now, event_id@),

    {
        proof {
            reveal_strlit("open");
            reveal_strlit("sold");
            reveal_strlit("trade");
            reveal_strlit("Cannot buy your own listing");
        }
        let found = find_key(&self.listings, id);
        proof {
            lemma_first_index(self.listings@, id@);
        }
        let i = match found {
            None => {
                return Err(WouError::ListingNotOpen(string_of(id)));
            },
            Some(i) => i,
        };
        if !str_eq(self.listings[i].status.as_str(), "open") {
            return Err(WouError::ListingNotOpen(string_of(id)));
        }
        if str_eq(self.listings[i].seller.as_str(), buyer) {
            return Err(WouError::Internal(string_of("Cannot buy your own listing")));
        }
        let price = self.listings[i].price;
        let buyer_bal = self.spiral_balance(buyer);
        if buyer_bal < price {
            return Err(WouError::InsufficientBalance);
        }
        let mut l = self.listings[i].duplicate();
        let seller_bal = self.spiral_balance(l.seller.as_str());
        let fa = find_key(&self.instances, l.asset.as_str());
        proof {
            lemma_first_index(self.instances@, l.asset@);
        }
        let j = match fa {
            None => {
                return Err(WouError::AssetNotFound(l.asset.clone()));
            },
            Some(j) => j,
        };
        if !str_eq(self.instances[j].owner.as_str(), l.seller.as_str()) || self.instances[j].status
            != AssetStatus::Listed {
            return Err(WouError::NotAssetOwner);
        }
        set_balance(&mut self.balances, buyer, buyer_bal - price);
        set_balance(&mut self.balances, l.seller.as_str(), seller_bal.saturating_add(price));
        set_status(&mut self.instances, l.asset.as_str(), AssetStatus::Active);
        set_owner(&mut self.instances, l.asset.as_str(), buyer);
        l.status = string_of("sold");
        let out = l.duplicate();
        let asset = l.asset.clone();
        let seller = l.seller.clone();
        upsert(&mut self.listings, l);
        log_event(&mut self.events, event_id, asset.as_str(), "trade", Some(seller), opt_string(buyer), buyer, now);
        Ok(out)
    }

    /// Buys a listing now (see `buy_listing_at`).
    pub fn buy_listing(&mut self, id: &str, buyer: &str) -> (r: Result<Listing, WouError>)
        ensures
            r is Err ==> tables(*final(self)) == tables(*old(self)),
            r is Ok <==> (lookup(old(self).listings@, id@) matches Some(l) && l.status@ == "open"@
                && l.seller@ != buyer@ && balance_of(old(self).balances@, buyer@) >= l.price
                && (lookup(old(self).instances@, l.asset@) matches Some(a) && a.owner@ == l.seller@
                && a.status == AssetStatus::Listed)),
            r matches Ok(nl) ==> nl.status@ == "sold"@ && inst_at(final(self).instances@, nl.asset@).owner
                == buyer@,
            exists|now: u64, ev: Seq<char>| #[trigger] buy_done(*old(self), *final(self), id@, buyer@, r, now, ev),
    {
        let now = unix_now();
        let ev = new_record_id();
        let ghost evv = ev@;
        let r = self.buy_listing_at(id, buyer, now, ev);
        assert(buy_done(*old(self), *self, id@, buyer@, r, now, evv));
        r
    }

    /// Multi-instance card-for-card swap, stamped `now`: every offered instance moves from
    /// `offered_owner` to `requested_owner` and every requested one the other way, with one
    /// `trade` event each, under `event_ids` in that order. Refused as a whole: an empty
    /// side, an unknown instance (the first, offered before requested), an instance held by
    /// another owner or not `Active` (the first, offered before requested).
    pub fn swap_instance_lists_at(
        &mut self,
        offered: &[String],
        offered_owner: &str,
        requested: &[String],
        requested_owner: &str,
        by: &str,
        now: u64,
        event_ids: &[String],
    ) -> (r: Result<(), WouError>)
        requires
            event_ids@.len() == offered@.len() + requested@.len(),
        ensures
            r is Err ==> tables(*final(self)) == tables(*old(self)),
            (offered@.len() == 0 || requested@.len() == 0) ==> (r matches Err(WouError::Internal(m))
                && m@ == "offered and requested must be non-empty"@),
            (offered@.len() > 0 && requested@.len() > 0) ==> {
                let t = old(self).instances@;
                &&& (first_missing(t, offered@) matches Some(x) ==> (r matches Err(
                    WouError::AssetNotFound(e)) && e@ == x))
                &&& first_missing(t, offered@) is None ==> (first_missing(t, requested@) matches Some(x)
                    ==> (r matches Err(WouError::AssetNotFound(e)) && e@ == x))
                &&& (first_missing(t, offered@) is None && first_missing(t, requested@) is None) ==> {
                    &&& side_fault(t, offered@, offered_owner@) == Some(SideFault::WrongOwner) ==> (r matches Err(WouError::NotAssetOwner))
                    &&& (side_fault(t, offered@, offered_owner@) matches Some(SideFault::NotActive(x))
                        ==> (r matches Err(WouError::AssetFrozen(e)) && e@ == x))
                    &&& (side_fault(t, offered@, offered_owner@) is None && side_fault(
                        t,
                        requested@,
                        requested_owner@,
                    ) == Some(SideFault::WrongOwner)) ==> (r matches Err(WouError::NotAssetOwner))
                    &&& side_fault(t, offered@, offered_owner@) is None ==> (side_fault(
                        t,
                        requested@,
                        requested_owner@,
                    ) matches Some(SideFault::NotActive(x)) ==> (r matches Err(
                        WouError::AssetFrozen(e)) && e@ == x))
                    &&& r is Ok <==> (side_fault(t, offered@, offered_owner@) is None && side_fault(
                        t,
                        requested@,
                        requested_owner@,
                    ) is None)
                }
            },
            r is Ok ==> {
                &&& final(self).instances@.len() == old(self).instances@.len()
                &&& forall|k: Seq<char>| #[trigger] opt_inst_view(lookup(final(self).instances@, k))
                    == after_swap_view(old(self).instances@, offered@, offered_owner@, requested@,
                    requested_owner@, k)
                &&& exists|evs: Seq<AssetEvent>| {
                    &&& final(self).events@ == upsert_all(old(self).events@, evs)
                    &&& evs.len() == event_ids@.len()
                    &&& forall|j: int| 0 <= j < offered@.len() ==> event_is(#[trigger] evs[j],
                        event_ids@[j]@, offered@[j]@, "trade"@, Some(offered_owner@),
                        Some(requested_owner@), by@, now)
                    &&& forall|j: int| offered@.len() <= j < evs.len() ==> event_is(#[trigger] evs[j],
                        event_ids@[j]@, requested@[j - offered@.len()]@, "trade"@, Some(requested_owner@),
                        Some(offered_owner@), by@, now)
                }
                &&& final(self).collections@ == old(self).collections@
                &&& final(self).tokens@ == old(self).tokens@
                &&& final(self).balances@ == old(self).balances@
                &&& final(self).listings@ == old(self).listings@
            },
    {
        proof {
            reveal_strlit("offered and requested must be non-empty");
            reveal_strlit("trade");
        }
        if offered.len() == 0 || requested.len() == 0 {
            return Err(WouError::Internal(string_of("offered and requested must be non-empty")));
        }
        if let Some(x) = find_missing(&self.instances, offered) {
            return Err(WouError::AssetNotFound(x));
        }
        if let Some(x) = find_missing(&self.instances, requested) {
            return Err(WouError::AssetNotFound(x));
        }
        proof {
            lemma_first_missing_none(self.instances@, offered@);
            lemma_first_missing_none(self.instances@, requested@);
        }
        match find_side_fault(&self.instances, offered, offered_owner) {
            Some(true) => {
                return Err(WouError::NotAssetOwner);
            },
            Some(false) => {
                let x = side_fault_id(&self.instances, offered, offered_owner);
                return Err(WouError::AssetFrozen(x));
            },
            None => {},
        }
        match find_side_fault(&self.instances, requested, requested_owner) {
            Some(true) => {
                return Err(WouError::NotAssetOwner);
            },
            Some(false) => {
                let x = side_fault_id(&self.instances, requested, requested_owner);
                return Err(WouError::AssetFrozen(x));
            },
            None => {},
        }
        let ghost t0 = self.instances@;
        let ghost e0 = self.events@;
        let ghost mut evs: Seq<AssetEvent> = Seq::empty();
        let mut i: usize = 0;
        while i < offered.len()
            invariant
                i <= offered@.len(),
                event_ids@.len() == offered@.len() + requested@.len(),
                self.instances@.len() == t0.len(),
                forall|j: int| 0 <= j < offered@.len() ==> lookup(t0, #[trigger] offered@[j]@) is Some,
                forall|j: int| 0 <= j < requested@.len() ==> lookup(t0, #[trigger] requested@[j]@) is Some,
                forall|k: Seq<char>| #[trigger] opt_inst_view(lookup(self.instances@, k))
                    == after_swap_view(t0, offered@.subrange(0, i as int), offered_owner@,
                    Seq::<String>::empty(), requested_owner@, k),
                self.events@ == upsert_all(e0, evs),
                evs.len() == i,
                forall|j: int| 0 <= j < i ==> event_is(#[trigger] evs[j], event_ids@[j]@,
                    offered@[j]@, "trade"@, Some(offered_owner@), Some(requested_owner@), by@, now),
                self.collections@ == old(self).collections@,
                self.tokens@ == old(self).tokens@,
                self.balances@ == old(self).balances@,
                self.listings@ == old(self).listings@,
            decreases offered@.len() - i,
        {
            let ghost cur = self.instances@;
            let id = offered[i].as_str();
            proof {
                assert(opt_inst_view(lookup(cur, id@)) is Some);
            }
            set_owner(&mut self.instances, id, requested_owner);
            proof {
                lemma_has_text_extend(offered@, i as int);
                assert forall|k: Seq<char>| #[trigger] opt_inst_view(lookup(self.instances@, k))
                    == after_swap_view(t0, offered@.subrange(0, i + 1), offered_owner@,
                    Seq::<String>::empty(), requested_owner@, k) by {
                    if k != id@ {
                        assert(opt_inst_view(lookup(cur, k)) == after_swap_view(t0, offered@.subrange(0, i as int), offered_owner@,
                            Seq::<String>::empty(), requested_owner@, k));
                    }
                }
            }
            let ghost ev_before = self.events@;
            log_event(&mut self.events, event_ids[i].clone(), id, "trade", opt_string(offered_owner), opt_string(requested_owner), by, now);
            proof {
                let e = choose|e: AssetEvent| self.events@ == upsert_spec(ev_before, e) && event_is(e, event_ids@[i as int]@, id@, "trade"@, Some(offered_owner@), Some(requested_owner@), by@, now);
                lemma_upsert_all_push(e0, evs, e);
                evs = evs.push(e);
            }
            i = i + 1;
        }
        assert(offered@.subrange(0, offered@.len() as int) =~= offered@);
        let n = offered.len();
        let m = event_ids.len();
        let mut i: usize = 0;
        while i < requested.len()
            invariant
                i <= requested@.len(),
                n == offered@.len(),
                m == event_ids@.len(),
                event_ids@.len() == offered@.len() + requested@.len(),
                self.instances@.len() == t0.len(),
                forall|j: int| 0 <= j < offered@.len() ==> lookup(t0, #[trigger] offered@[j]@) is Some,
                forall|j: int| 0 <= j < requested@.len() ==> lookup(t0, #[trigger] requested@[j]@) is Some,
                forall|k: Seq<char>| #[trigger] opt_inst_view(lookup(self.instances@, k))
                    == after_swap_view(t0, offered@, offered_owner@,
                    requested@.subrange(0, i as int), requested_owner@, k),
                self.events@ == upsert_all(e0, evs),
                evs.len() == n + i,
                forall|j: int| 0 <= j < n ==> event_is(#[trigger] evs[j], event_ids@[j]@,
                    offered@[j]@, "trade"@, Some(offered_owner@), Some(requested_owner@), by@, now),
                forall|j: int| n <= j < n + i ==> event_is(#[trigger] evs[j], event_ids@[j]@,
                    requested@[j - n]@, "trade"@, Some(requested_owner@), Some(offered_owner@), by@, now),
                self.collections@ == old(self).collections@,
                self.tokens@ == old(self).tokens@,
                self.balances@ == old(self).balances@,
                self.listings@ == old(self).listings@,
            decreases requested@.len() - i,
        {
            let ghost cur = self.instances@;
            let id = requested[i].as_str();
            proof {
                assert(opt_inst_view(lookup(cur, id@)) is Some);
            }
            set_owner(&mut self.instances, id, offered_owner);
            proof {
                lemma_has_text_extend(requested@, i as int);
                assert forall|k: Seq<char>| #[trigger] opt_inst_view(lookup(self.instances@, k))
                    == after_swap_view(t0, offered@, offered_owner@,
                    requested@.subrange(0, i + 1), requested_owner@, k) by {
                    if k != id@ {
                        assert(opt_inst_view(lookup(cur, k)) == after_swap_view(t0, offered@, offered_owner@,
                            requested@.subrange(0, i as int), requested_owner@, k));
                    }
                }
            }
            let ghost ev_before = self.events@;
            log_event(&mut self.events, event_ids[n + i].clone(), id, "trade", opt_string(requested_owner), opt_string(offered_owner), by, now);
            proof {
                let e = choose|e: AssetEvent| self.events@ == upsert_spec(ev_before, e) && event_is(e, event_ids@[n + i]@, id@, "trade"@, Some(requested_owner@), Some(offered_owner@), by@, now);
                lemma_upsert_all_push(e0, evs, e);
                evs = evs.push(e);
            }
            i = i + 1;
        }
        assert(requested@.subrange(0, requested@.len() as int) =~= requested@);
        Ok(())
    }

    /// Multi-instance swap now (see `swap_instance_lists_at`).
    pub fn swap_instance_lists(
        &mut self,
        offered: &[String],
        offered_owner: &str,
        requested: &[String],
        requested_owner: &str,
        by: &str,
    ) -> (r: Result<(), WouError>)
        ensures
            r is Err ==> tables(*final(self)) == tables(*old(self)),
            swap_lists_verdict(old(self).instances@, offered@, offered_owner@, requested@, requested_owner@, r),
            r is Ok ==> {
                &&& final(self).instances@.len() == old(self).instances@.len()
                &&& forall|k: Seq<char>| #[trigger] opt_inst_view(lookup(final(self).instances@, k))
                    == after_swap_view(old(self).instances@, offered@, offered_owner@, requested@,
                    requested_owner@, k)
                &&& exists|evs: Seq<AssetEvent>| {
                    &&& final(self).events@ == upsert_all(old(self).events@, evs)
                    &&& evs.len() == offered@.len() + requested@.len()
                    &&& forall|j: int| 0 <= j < offered@.len() ==> trade_event_of(#[trigger] evs[j],
                        offered@[j]@, offered_owner@, requested_owner@, by@)
                    &&& forall|j: int| offered@.len() <= j < evs.len() ==> trade_event_of(#[trigger] evs[j],
                        requested@[j - offered@.len()]@, requested_owner@, offered_owner@, by@)
                }
                &&& final(self).collections@ == old(self).collections@
                &&& final(self).tokens@ == old(self).tokens@
                &&& final(self).balances@ == old(self).balances@
                &&& final(self).listings@ == old(self).listings@
            },
    {
        let now = unix_now();
        let mut ids: Vec<String> = Vec::new();
        let mut c: usize = 0;
        while c < offered.len()
            invariant
                c <= offered@.len(),
                ids@.len() == c,
            decreases offered@.len() - c,
        {
            ids.push(new_record_id());
            c = c + 1;
        }
        let mut c: usize = 0;
        while c < requested.len()
            invariant
                c <= requested@.len(),
                ids@.len() == offered@.len() + c,
            decreases requested@.len() - c,
        {
            ids.push(new_record_id());
            c = c + 1;
        }
        let r = self.swap_instance_lists_at(offered, offered_owner, requested, requested_owner, by, now, ids.as_slice());
        proof {
            if r is Ok {
                let evs = choose|evs: Seq<AssetEvent>| {
                    &&& self.events@ == upsert_all(old(self).events@, evs)
                    &&& evs.len() == ids@.len()
                    &&& forall|j: int| 0 <= j < offered@.len() ==> event_is(#[trigger] evs[j],
                        ids@[j]@, offered@[j]@, "trade"@, Some(offered_owner@),
                        Some(requested_owner@), by@, now)
                    &&& forall|j: int| offered@.len() <= j < evs.len() ==> event_is(#[trigger] evs[j],
                        ids@[j]@, requested@[j - offered@.len()]@, "trade"@, Some(requested_owner@),
                        Some(offered_owner@), by@, now)
                };
                assert forall|j: int| 0 <= j < offered@.len() implies trade_event_of(#[trigger] evs[j],
                    offered@[j]@, offered_owner@, requested_owner@, by@) by {
                    assert(event_is(evs[j], ids@[j]@, offered@[j]@, "trade"@, Some(offered_owner@),
                        Some(requested_owner@), by@, now));
                }
                assert forall|j: int| offered@.len() <= j < evs.len() implies trade_event_of(#[trigger] evs[j],
                    requested@[j - offered@.len()]@, requested_owner@, offered_owner@, by@) by {
                    assert(event_is(evs[j], ids@[j]@, requested@[j - offered@.len()]@, "trade"@,
                        Some(requested_owner@), Some(offered_owner@), by@, now));
                }
            }
        }
        r
    }
}

/// `e` is a `trade` custody event moving `asset` from `from` to `to`, recorded by `by`.
pub open spec fn trade_event_of(e: AssetEvent, asset: Seq<char>, from: Seq<char>, to: Seq<char>, by: Seq<char>) -> bool {
    &&& e.asset@ == asset
    &&& e.kind@ == "trade"@
    &&& opt_view(e.from) == Some(from)
    &&& opt_view(e.to) == Some(to)
    &&& e.by@ == by
}

/// The answer a multi-instance swap owes on instance table `t`: refused with an internal
/// error when a side is empty; then for the first id of either side (offered first) with no
/// instance; then for a side (offered first) holding an instance of another owner or not
/// `Active`; accepted otherwise.
pub open spec fn swap_lists_verdict(
    t: Seq<AssetInstance>,
    offered: Seq<String>,
    offered_owner: Seq<char>,
    requested: Seq<String>,
    requested_owner: Seq<char>,
    r: Result<(), WouError>,
) -> bool {
    if offered.len() == 0 || requested.len() == 0 {
        r matches Err(WouError::Internal(m)) && m@ == "offered and requested must be non-empty"@
    } else if first_missing(t, offered) is Some {
        r matches Err(WouError::AssetNotFound(e)) && Some(e@) == first_missing(t, offered)
    } else if first_missing(t, requested) is Some {
        r matches Err(WouError::AssetNotFound(e)) && Some(e@) == first_missing(t, requested)
    } else {
        match side_fault(t, offered, offered_owner) {
            Some(SideFault::WrongOwner) => r matches Err(WouError::NotAssetOwner),
            Some(SideFault::NotActive(x)) => r matches Err(WouError::AssetFrozen(e)) && e@ == x,
            None => match side_fault(t, requested, requested_owner) {
                Some(SideFault::WrongOwner) => r matches Err(WouError::NotAssetOwner),
                Some(SideFault::NotActive(x)) => r matches Err(WouError::AssetFrozen(e)) && e@ == x,
                None => r is Ok,
            },
        }
    }
}

/// What a buy of listing `id` by `buyer`, stamped `now` with event id `event_id`, answers
/// and does to the book (`o` before, `f` after); see `AssetBook::buy_listing_at`.
pub open spec fn buy_done(
    o: AssetBook,
    f: AssetBook,
    id: Seq<char>,
    buyer: Seq<char>,
    r: Result<Listing, WouError>,
    now: u64,
    event_id: Seq<char>,
) -> bool {
    &&& r is Err ==> tables(f) == tables(o)
    &&& lookup(o.listings@, id) is None ==> (r matches Err(WouError::ListingNotOpen(x)) && x@ == id)
    &&& (lookup(o.listings@, id) matches Some(l) && l.status@ != "open"@) ==> (r matches Err(
        WouError::ListingNotOpen(x)) && x@ == id)
    &&& (lookup(o.listings@, id) matches Some(l) && l.status@ == "open"@ && l.seller@ == buyer) ==> (
    r matches Err(WouError::Internal(m)) && m@ == "Cannot buy your own listing"@)
    &&& (lookup(o.listings@, id) matches Some(l) && l.status@ == "open"@ && l.seller@ != buyer
        && balance_of(o.balances@, buyer) < l.price) ==> (r matches Err(WouError::InsufficientBalance))
    &&& (lookup(o.listings@, id) matches Some(l) && l.status@ == "open"@ && l.seller@ != buyer
        && balance_of(o.balances@, buyer) >= l.price && lookup(o.instances@, l.asset@) is None) ==> (
    r matches Err(WouError::AssetNotFound(x)) && x@ == lookup(o.listings@, id).unwrap().asset@)
    &&& (lookup(o.listings@, id) matches Some(l) && l.status@ == "open"@ && l.seller@ != buyer
        && balance_of(o.balances@, buyer) >= l.price && (lookup(o.instances@, l.asset@) matches Some(a)
        && (a.owner@ != l.seller@ || a.status != AssetStatus::Listed))) ==> (r matches Err(
        WouError::NotAssetOwner))
    &&& r is Ok <==> (lookup(o.listings@, id) matches Some(l) && l.status@ == "open"@ && l.seller@
        != buyer && balance_of(o.balances@, buyer) >= l.price && (lookup(o.instances@, l.asset@) matches Some(
        a) && a.owner@ == l.seller@ && a.status == AssetStatus::Listed))
    &&& r matches Ok(nl) ==> {
        let l = lookup(o.listings@, id).unwrap();
        let bb = balance_of(o.balances@, buyer);
        let sb = balance_of(o.balances@, l.seller@);
        &&& nl.id == l.id && nl.asset == l.asset && nl.seller == l.seller
        &&& nl.price == l.price && nl.created_at == l.created_at && nl.status@ == "sold"@
        &&& f.listings@ == upsert_spec(o.listings@, nl)
        &&& balance_of(f.balances@, buyer) == bb - l.price
        &&& balance_of(f.balances@, l.seller@) == (if sb + l.price > u64::MAX {
            u64::MAX
        } else {
            (sb + l.price) as u64
        })
        &&& sb + l.price <= u64::MAX ==> balance_of(f.balances@, buyer) + balance_of(
            f.balances@,
            l.seller@,
        ) == bb + sb
        &&& forall|k: Seq<char>| k != buyer && k != l.seller@ ==> #[trigger] lookup(f.balances@, k)
            == lookup(o.balances@, k)
        &&& instance_set(f.instances@, o.instances@, l.asset@, owned_by(
            with_status(inst_at(o.instances@, l.asset@), AssetStatus::Active),
            buyer,
        ))
        &&& logged_one(f.events@, o.events@, event_id, l.asset@, "trade"@, Some(l.seller@), Some(buyer),
            buyer, now)
        &&& f.collections@ == o.collections@
        &&& f.tokens@ == o.tokens@
    }
}

/// First id of `ids` with no instance in `t`.
pub open spec fn first_missing(t: Seq<AssetInstance>, ids: Seq<String>) -> Option<Seq<char>>
    decreases ids.len(),
{
    if ids.len() == 0 {
        None
    } else if lookup(t, ids[0]@) is None {
        Some(ids[0]@)
    } else {
        first_missing(t, ids.drop_first())
    }
}

proof fn lemma_first_missing_none(t: Seq<AssetInstance>, ids: Seq<String>)
    requires
        first_missing(t, ids) is None,
    ensures
        forall|j: int| 0 <= j < ids.len() ==> lookup(t, #[trigger] ids[j]@) is Some,
    decreases ids.len(),
{
    if ids.len() > 0 {
        lemma_first_missing_none(t, ids.drop_first());
        assert forall|j: int| 0 <= j < ids.len() implies lookup(t, #[trigger] ids[j]@) is Some by {
            if j > 0 {
                assert(ids[j] == ids.drop_first()[j - 1]);
            }
        }
    }
}

fn find_missing(t: &Vec<AssetInstance>, ids: &[String]) -> (r: Option<String>)
    ensures
        match r {
            Some(x) => first_missing(t@, ids@) == Some(x@),
            None => first_missing(t@, ids@) is None,
        },
{
    assert(ids@.subrange(0, ids@.len() as int) =~= ids@);
    let mut i: usize = 0;
    while i < ids.len()
        invariant
            i <= ids@.len(),
            first_missing(t@, ids@) == first_missing(t@, ids@.subrange(i as int, ids@.len() as int)),
        decreases ids@.len() - i,
    {
        proof {
            let s = ids@.subrange(i as int, ids@.len() as int);
            assert(s.drop_first() =~= ids@.subrange(i + 1, ids@.len() as int));
            assert(s[0] == ids@[i as int]);
        }
        if find_key(t, ids[i].as_str()).is_none() {
            return Some(ids[i].clone());
        }
        i = i + 1;
    }
    None
}

/// What is wrong with one side of a swap: an instance held by another owner, or one that
/// is not `Active` (with its id).
pub enum SideFault {
    WrongOwner,
    NotActive(Seq<char>),
}

/// The first fault among the instances of `ids` held for `owner`, in order.
pub open spec fn side_fault(t: Seq<AssetInstance>, ids: Seq<String>, owner: Seq<char>) -> Option<SideFault>
    decreases ids.len(),
{
    if ids.len() == 0 {
        None
    } else {
        let a = lookup(t, ids[0]@).unwrap();
        if a.owner@ != owner {
            Some(SideFault::WrongOwner)
        } else if a.status != AssetStatus::Active {
            Some(SideFault::NotActive(a.id@))
        } else {
            side_fault(t, ids.drop_first(), owner)
        }
    }
}

fn find_side_fault(t: &Vec<AssetInstance>, ids: &[String], owner: &str) -> (r: Option<bool>)
    requires
        forall|j: int| 0 <= j < ids@.len() ==> lookup(t@, #[trigger] ids@[j]@) is Some,
    ensures
        match r {
            Some(true) => side_fault(t@, ids@, owner@) == Some(SideFault::WrongOwner),
            Some(false) => side_fault(t@, ids@, owner@) matches Some(SideFault::NotActive(_)),
            None => side_fault(t@, ids@, owner@) is None,
        },
{
    assert(ids@.subrange(0, ids@.len() as int) =~= ids@);
    let mut i: usize = 0;
    while i < ids.len()
        invariant
            i <= ids@.len(),
            forall|j: int| 0 <= j < ids@.len() ==> lookup(t@, #[trigger] ids@[j]@) is Some,
            side_fault(t@, ids@, owner@) == side_fault(t@, ids@.subrange(i as int, ids@.len() as int), owner@),
        decreases ids@.len() - i,
    {
        proof {
            let s = ids@.subrange(i as int, ids@.len() as int);
            assert(s.drop_first() =~= ids@.subrange(i + 1, ids@.len() as int));
            assert(s[0] == ids@[i as int]);
            assert(lookup(t@, ids@[i as int]@) is Some);
        }
        let k = find_key(t, ids[i].as_str()).unwrap();
        if !str_eq(t[k].owner.as_str(), owner) {
            return Some(true);
        }
        if t[k].status != AssetStatus::Active {
            return Some(false);
        }
        i = i + 1;
    }
    None
}

fn side_fault_id(t: &Vec<AssetInstance>, ids: &[String], owner: &str) -> (r: String)
    requires
        forall|j: int| 0 <= j < ids@.len() ==> lookup(t@, #[trigger] ids@[j]@) is Some,
        side_fault(t@, ids@, owner@) matches Some(SideFault::NotActive(_)),
    ensures
        side_fault(t@, ids@, owner@) == Some(SideFault::NotActive(r@)),
{
    assert(ids@.subrange(0, ids@.len() as int) =~= ids@);
    let mut i: usize = 0;
    while i < ids.len()
        invariant
            i <= ids@.len(),
            forall|j: int| 0 <= j < ids@.len() ==> lookup(t@, #[trigger] ids@[j]@) is Some,
            side_fault(t@, ids@, owner@) == side_fault(t@, ids@.subrange(i as int, ids@.len() as int), owner@),
            side_fault(t@, ids@, owner@) matches Some(SideFault::NotActive(_)),
        decreases ids@.len() - i,
    {
        proof {
            let s = ids@.subrange(i as int, ids@.len() as int);
            assert(s.drop_first() =~= ids@.subrange(i + 1, ids@.len() as int));
            assert(s[0] == ids@[i as int]);
            assert(lookup(t@, ids@[i as int]@) is Some);
        }
        let k = find_key(t, ids[i].as_str()).unwrap();
        if str_eq(t[k].owner.as_str(), owner) && t[k].status != AssetStatus::Active {
            return t[k].id.clone();
        }
        i = i + 1;
    }
    proof {
        assert(ids@.subrange(i as int, ids@.len() as int).len() == 0);
    }
    string_of("")
}

/// An optional instance, by view.
pub open spec fn opt_inst_view(o: Option<AssetInstance>) -> Option<InstanceView> {
    match o {
        Some(a) => Some(a@),
        None => None,
    }
}

/// What a swap of lists leaves under key `k`: requested instances owned by the offering
/// side, offered ones by the requesting side, the rest as it was.
pub open spec fn after_swap_view(
    t: Seq<AssetInstance>,
    off: Seq<String>,
    oo: Seq<char>,
    req: Seq<String>,
    ro: Seq<char>,
    k: Seq<char>,
) -> Option<InstanceView> {
    if has_text(req, k) {
        Some(owned_by(inst_at(t, k), oo))
    } else if has_text(off, k) {
        Some(owned_by(inst_at(t, k), ro))
    } else {
        opt_inst_view(lookup(t, k))
    }
}

/// Token designs of collection `c`, in table order.
pub open spec fn tokens_in(s: Seq<TokenType>, c: Seq<char>) -> Seq<TokenType>
    decreases s.len(),
{
    if s.len() == 0 {
        s
    } else {
        let rest = tokens_in(s.drop_last(), c);
        if s.last().collection@ == c {
            rest.push(s.last())
        } else {
            rest
        }
    }
}

/// Abstract values of token designs.
pub open spec fn token_views(s: Seq<TokenType>) -> Seq<TokenTypeView> {
    s.map_values(|t: TokenType| t@)
}

proof fn lemma_key_slot_views(a: Seq<TokenType>, b: Seq<TokenType>, x: TokenType, y: TokenType)
    requires
        token_views(a) == token_views(b),
        x@ == y@,
    ensures
        key_slot(a, x) == key_slot(b, y),
    decreases a.len(),
{
    assert(a.len() == token_views(a).len() && b.len() == token_views(b).len());
    if a.len() > 0 {
        assert(token_views(a)[0] == a[0]@ && token_views(b)[0] == b[0]@);
        assert(token_views(a.drop_first()) =~= token_views(b.drop_first())) by {
            assert forall|j: int| 0 <= j < a.len() - 1 implies token_views(a.drop_first())[j]
                == token_views(b.drop_first())[j] by {
                assert(token_views(a)[j + 1] == token_views(b)[j + 1]);
                assert(a.drop_first()[j] == a[j + 1] && b.drop_first()[j] == b[j + 1]);
                assert(token_views(a.drop_first())[j] == a.drop_first()[j]@);
                assert(token_views(b.drop_first())[j] == b.drop_first()[j]@);
                assert(token_views(a)[j + 1] == a[j + 1]@);
                assert(token_views(b)[j + 1] == b[j + 1]@);
            }
        }
        lemma_key_slot_views(a.drop_first(), b.drop_first(), x, y);
    }
}

proof fn lemma_by_key_views(a: Seq<TokenType>, b: Seq<TokenType>)
    requires
        token_views(a) == token_views(b),
    ensures
        token_views(by_key(a)) == token_views(by_key(b)),
    decreases a.len(),
{
    assert(a.len() == token_views(a).len() && b.len() == token_views(b).len());
    if a.len() > 0 {
        assert(token_views(a.drop_last()) =~= token_views(b.drop_last())) by {
            assert forall|j: int| 0 <= j < a.len() - 1 implies token_views(a.drop_last())[j]
                == token_views(b.drop_last())[j] by {
                assert(token_views(a)[j] == token_views(b)[j]);
                assert(a.drop_last()[j] == a[j] && b.drop_last()[j] == b[j]);
                assert(token_views(a.drop_last())[j] == a.drop_last()[j]@);
                assert(token_views(b.drop_last())[j] == b.drop_last()[j]@);
                assert(token_views(a)[j] == a[j]@);
                assert(token_views(b)[j] == b[j]@);
            }
        }
        assert(token_views(a)[a.len() - 1] == token_views(b)[b.len() - 1]);
        lemma_by_key_views(a.drop_last(), b.drop_last());
        let ra = by_key(a.drop_last());
        let rb = by_key(b.drop_last());
        lemma_key_slot_views(ra, rb, a.last(), b.last());
        let k = key_slot(ra, a.last());
        lemma_key_slot_range(ra, a.last());
        assert(token_views(ra).len() == ra.len() && token_views(rb).len() == rb.len());
        assert(token_views(ra.insert(k, a.last())) =~= token_views(rb.insert(k, b.last()))) by {
            assert forall|j: int| 0 <= j < ra.len() + 1 implies token_views(ra.insert(k, a.last()))[j]
                == token_views(rb.insert(k, b.last()))[j] by {
                ra.insert_ensures(k, a.last());
                rb.insert_ensures(k, b.last());
                if j < k {
                    assert(token_views(ra)[j] == token_views(rb)[j]);
                    assert(ra.insert(k, a.last())[j] == ra[j] && rb.insert(k, b.last())[j] == rb[j]);
                } else if j > k {
                    assert(token_views(ra)[j - 1] == token_views(rb)[j - 1]);
                    assert(ra.insert(k, a.last())[j] == ra[j - 1] && rb.insert(k, b.last())[j] == rb[j
                        - 1]);
                } else {
                    assert(ra.insert(k, a.last())[j] == a.last() && rb.insert(k, b.last())[j] == b.last());
                    assert(token_views(a)[a.len() - 1] == a.last()@);
                    assert(token_views(b)[b.len() - 1] == b.last()@);
                }
            }
        }
    }
}

impl AssetBook {
    /// Every collection, ordered by id.
    pub fn list_collections(&self) -> (r: Vec<Collection>)
        ensures
            r@ == by_key(self.collections@),
    {
        let mut all: Vec<Collection> = Vec::new();
        let mut i: usize = 0;
        while i < self.collections.len()
            invariant
                i <= self.collections@.len(),
                all@ == self.collections@.take(i as int),
            decreases self.collections@.len() - i,
        {
            all.push(self.collections[i].duplicate());
            i = i + 1;
            assert(all@ =~= self.collections@.take(i as int));
        }
        assert(self.collections@.take(self.collections@.len() as int) =~= self.collections@);
        sort_by_key(all)
    }

    /// The collection held under `id`.
    pub fn get_collection(&self, id: &str) -> (r: Option<Collection>)
        ensures
            r == lookup(self.collections@, id@),
    {
        match find_key(&self.collections, id) {
            Some(i) => Some(self.collections[i].duplicate()),
            None => None,
        }
    }

    /// The token design held under `id`.
    pub fn get_token(&self, id: &str) -> (r: Option<TokenType>)
        ensures
            match r {
                Some(t) => lookup(self.tokens@, id@) matches Some(u) && t@ == u@,
                None => lookup(self.tokens@, id@) is None,
            },
    {
        match find_key(&self.tokens, id) {
            Some(i) => Some(self.tokens[i].duplicate()),
            None => None,
        }
    }

    /// The token designs of a collection, ordered by id.
    pub fn tokens_of_collection(&self, collection: &str) -> (r: Vec<TokenType>)
        ensures
            token_views(r@) == token_views(by_key(tokens_in(self.tokens@, collection@))),
    {
        let mut picked: Vec<TokenType> = Vec::new();
        let mut i: usize = 0;
        while i < self.tokens.len()
            invariant
                i <= self.tokens@.len(),
                token_views(picked@) == token_views(tokens_in(self.tokens@.take(i as int), collection@)),
            decreases self.tokens@.len() - i,
        {
            let ghost sub = self.tokens@.take(i + 1);
            assert(sub.drop_last() =~= self.tokens@.take(i as int));
            assert(sub.last() == self.tokens@[i as int]);
            if str_eq(self.tokens[i].collection.as_str(), collection) {
                let ghost before = picked@;
                let t = self.tokens[i].duplicate();
                picked.push(t);
                assert(token_views(picked@) =~= token_views(tokens_in(sub, collection@))) by {
                    assert(token_views(picked@) =~= token_views(before).push(t@));
                    assert(token_views(tokens_in(sub, collection@)) =~= token_views(
                        tokens_in(self.tokens@.take(i as int), collection@),
                    ).push(self.tokens@[i as int]@));
                }
            }
            i = i + 1;
        }
        assert(self.tokens@.take(self.tokens@.len() as int) =~= self.tokens@);
        let ghost p = picked@;
        let r = sort_by_key(picked);
        proof {
            lemma_by_key_views(p, tokens_in(self.tokens@, collection@));
        }
        r
    }

    /// The instance held under `id`.
    pub fn get_asset(&self, id: &str) -> (r: Option<AssetInstance>)
        ensures
            opt_inst_view(r) == opt_inst_view(lookup(self.instances@, id@)),
    {
        match find_key(&self.instances, id) {
            Some(i) => Some(self.instances[i].duplicate()),
            None => None,
        }
    }

    /// The listing held under `id`.
    pub fn get_listing(&self, id: &str) -> (r: Option<Listing>)
        ensures
            r == lookup(self.listings@, id@),
    {
        match find_key(&self.listings, id) {
            Some(i) => Some(self.listings[i].duplicate()),
            None => None,
        }
    }

    /// Instances held by `owner`, in table order.
    pub fn assets_of_owner(&self, owner: &str) -> (r: Vec<AssetInstance>)
        ensures
            r@.map_values(|a: AssetInstance| a@) == owned_views(self.instances@, owner@),
    {
        let mut out: Vec<AssetInstance> = Vec::new();
        let mut i: usize = 0;
        while i < self.instances.len()
            invariant
                i <= self.instances@.len(),
                out@.map_values(|a: AssetInstance| a@) == owned_views(self.instances@.subrange(0, i as int), owner@),
            decreases self.instances@.len() - i,
        {
            let ghost sub = self.instances@.subrange(0, i + 1);
            assert(sub.drop_last() =~= self.instances@.subrange(0, i as int));
            if str_eq(self.instances[i].owner.as_str(), owner) {
                let a = self.instances[i].duplicate();
                let ghost before = out@;
                out.push(a);
                assert(out@.map_values(|a: AssetInstance| a@) =~= before.map_values(|a: AssetInstance| a@).push(a@));
            }
            i = i + 1;
        }
        assert(self.instances@.subrange(0, self.instances@.len() as int) =~= self.instances@);
        out
    }

    /// Up to `limit` open listings, in table order.
    pub fn list_open_listings(&self, limit: usize) -> (r: Vec<Listing>)
        ensures
            r@ == open_listings(self.listings@, limit as nat),
    {
        proof {
            reveal_strlit("open");
        }
        let mut out: Vec<Listing> = Vec::new();
        let mut i: usize = 0;
        while i < self.listings.len() && out.len() < limit
            invariant
                i <= self.listings@.len(),
                out@ == open_of(self.listings@.subrange(0, i as int)),
                out@.len() <= limit,
            decreases self.listings@.len() - i,
        {
            let ghost sub = self.listings@.subrange(0, i + 1);
            assert(sub.drop_last() =~= self.listings@.subrange(0, i as int));
            assert(sub.last() == self.listings@[i as int]);
            if str_eq(self.listings[i].status.as_str(), "open") {
                out.push(self.listings[i].duplicate());
            }
            i = i + 1;
        }
        proof {
            lemma_open_of_prefix(self.listings@, i as int);
            if out@.len() < limit {
                assert(self.listings@.subrange(0, i as int) =~= self.listings@);
            } else {
                assert(open_of(self.listings@).subrange(0, out@.len() as int) == out@);
            }
        }
        out
    }

    /// Custody history of one instance, ordered by time (equal times keep table order).
    pub fn asset_events(&self, asset: &str) -> (r: Vec<AssetEvent>)
        ensures
            r@.to_multiset() == events_of(self.events@, asset@).to_multiset(),
            forall|i: int, j: int| 0 <= i < j < r@.len() ==> (#[trigger] r@[i]).at <= (#[trigger] r@[j]).at,
    {
        let mut out: Vec<AssetEvent> = Vec::new();
        let mut i: usize = 0;
        while i < self.events.len()
            invariant
                i <= self.events@.len(),
                out@.to_multiset() == events_of(self.events@.subrange(0, i as int), asset@).to_multiset(),
                forall|p: int, q: int| 0 <= p < q < out@.len() ==> (#[trigger] out@[p]).at <= (#[trigger] out@[q]).at,
            decreases self.events@.len() - i,
        {
            let ghost sub = self.events@.subrange(0, i + 1);
            assert(sub.drop_last() =~= self.events@.subrange(0, i as int));
            assert(sub.last() == self.events@[i as int]);
            if str_eq(self.events[i].asset.as_str(), asset) {
                let e = self.events[i].duplicate();
                let n = out.len();
                let mut p: usize = n;
                while p > 0 && out[p - 1].at > e.at
                    invariant
                        p <= n == out@.len(),
                        forall|q: int| p <= q < n ==> (#[trigger] out@[q]).at > e.at,
                    decreases p,
                {
                    p = p - 1;
                }
                let ghost before = out@;
                let ghost ev = e;
                out.insert(p, e);
                proof {
                    assert(out@ == before.insert(p as int, ev));
                    vstd::seq_lib::to_multiset_insert(before, p as int, ev);
                    assert(ev == self.events@[i as int]);
                    assert(events_of(sub, asset@) == events_of(self.events@.subrange(0, i as int), asset@).push(ev));
                    vstd::seq_lib::to_multiset_build(events_of(self.events@.subrange(0, i as int), asset@), ev);
                    assert forall|a: int, b: int| 0 <= a < b < out@.len() implies (#[trigger] out@[a]).at
                        <= (#[trigger] out@[b]).at by {
                        if b < p {
                            assert(out@[a] == before[a] && out@[b] == before[b]);
                        } else if b == p {
                            assert(out@[a] == before[a]);
                            if p > 0 {
                                assert(before[p - 1].at <= e.at);
                                if a < p - 1 {
                                    assert(before[a].at <= before[p - 1].at);
                                }
                            }
                        } else if a < p {
                            assert(out@[a] == before[a] && out@[b] == before[b - 1]);
                        } else if a == p {
                            assert(out@[b] == before[b - 1]);
                        } else {
                            assert(out@[a] == before[a - 1] && out@[b] == before[b - 1]);
                        }
                    }
                }
            }
            i = i + 1;
        }
        assert(self.events@.subrange(0, self.events@.len() as int) =~= self.events@);
        out
    }
}

/// Views of the instances of `s` held by `owner`, in order.
pub open spec fn owned_views(s: Seq<AssetInstance>, owner: Seq<char>) -> Seq<InstanceView>
    decreases s.len(),
{
    if s.len() == 0 {
        Seq::empty()
    } else if s.last().owner@ == owner {
        owned_views(s.drop_last(), owner).push(s.last()@)
    } else {
        owned_views(s.drop_last(), owner)
    }
}

/// An owner's assets are exactly the instances of the table that they own, whatever the
/// status (`Active`, `Listed` or `Frozen`): every instance held by `owner` is among them, and
/// each of them is an instance of the table held by `owner`.
pub proof fn law_owner_assets_complete(s: Seq<AssetInstance>, owner: Seq<char>)
    ensures
        forall|i: int| 0 <= i < s.len() && s[i].owner@ == owner ==> owned_views(s, owner).contains(
            #[trigger] s[i]@,
        ),
        forall|j: int| 0 <= j < owned_views(s, owner).len() ==> (#[trigger] owned_views(s, owner)[j]).owner
            == owner && exists|i: int| 0 <= i < s.len() && s[i]@ == owned_views(s, owner)[j],
    decreases s.len(),
{
    if s.len() > 0 {
        let d = s.drop_last();
        law_owner_assets_complete(d, owner);
        let od = owned_views(d, owner);
        assert forall|i: int| 0 <= i < s.len() && s[i].owner@ == owner implies owned_views(s, owner).contains(
            #[trigger] s[i]@,
        ) by {
            if i < s.len() - 1 {
                assert(d[i] == s[i]);
                assert(od.contains(d[i]@));
                let k = choose|k: int| 0 <= k < od.len() && od[k] == d[i]@;
                if s.last().owner@ == owner {
                    assert(owned_views(s, owner)[k] == s[i]@);
                }
            } else {
                assert(owned_views(s, owner)[od.len() as int] == s[i]@);
            }
        }
        assert forall|j: int| 0 <= j < owned_views(s, owner).len() implies (#[trigger] owned_views(
            s,
            owner,
        )[j]).owner == owner && exists|i: int| 0 <= i < s.len() && s[i]@ == owned_views(s, owner)[j] by {
            if j < od.len() {
                assert(owned_views(s, owner)[j] == od[j]);
                let i = choose|i: int| 0 <= i < d.len() && d[i]@ == od[j];
                assert(s[i] == d[i]);
            } else {
                assert(s[s.len() - 1]@ == owned_views(s, owner)[j]);
            }
        }
    }
}

/// Events of `s` about `asset`, in order.
pub open spec fn events_of(s: Seq<AssetEvent>, asset: Seq<char>) -> Seq<AssetEvent>
    decreases s.len(),
{
    if s.len() == 0 {
        Seq::empty()
    } else if s.last().asset@ == asset {
        events_of(s.drop_last(), asset).push(s.last())
    } else {
        events_of(s.drop_last(), asset)
    }
}

/// The open listings of `s`, in order.
pub open spec fn open_of(s: Seq<Listing>) -> Seq<Listing>
    decreases s.len(),
{
    if s.len() == 0 {
        Seq::empty()
    } else if s.last().status@ == "open"@ {
        open_of(s.drop_last()).push(s.last())
    } else {
        open_of(s.drop_last())
    }
}

/// The first `limit` open listings of `s`, in order.
pub open spec fn open_listings(s: Seq<Listing>, limit: nat) -> Seq<Listing> {
    let o = open_of(s);
    if o.len() <= limit {
        o
    } else {
        o.subrange(0, limit as int)
    }
}

proof fn lemma_open_of_prefix(s: Seq<Listing>, i: int)
    requires
        0 <= i <= s.len(),
    ensures
        open_of(s.subrange(0, i)).len() <= open_of(s).len(),
        open_of(s).subrange(0, open_of(s.subrange(0, i)).len() as int) == open_of(s.subrange(0, i)),
    decreases s.len(),
{
    if i == s.len() {
        assert(s.subrange(0, i) =~= s);
        assert(open_of(s).subrange(0, open_of(s).len() as int) =~= open_of(s));
    } else {
        let d = s.drop_last();
        lemma_open_of_prefix(d, i);
        assert(d.subrange(0, i) =~= s.subrange(0, i));
        let k = open_of(s.subrange(0, i)).len() as int;
        assert(open_of(s).subrange(0, k) =~= open_of(d).subrange(0, k));
    }
}

/// SPIRAL held by an account: its stored balance, or zero.
pub open spec fn balance_of(t: Seq<SpiralBalance>, account: Seq<char>) -> u64 {
    match lookup(t, account) {
        Some(b) => b.amount,
        None => 0,
    }
}

/// The balance table changed only at `account`, which now holds `amount`.
pub open spec fn balances_set(new: Seq<SpiralBalance>, old: Seq<SpiralBalance>, account: Seq<char>, amount: u64) -> bool {
    &&& balance_of(new, account) == amount
    &&& forall|k: Seq<char>| k != account ==> #[trigger] lookup(new, k) == lookup(old, k)
    &&& exists|x: SpiralBalance| new == upsert_spec(old, x) && x.account@ == account && x.amount == amount
}

/// Stores the balance of one account.
fn set_balance(v: &mut Vec<SpiralBalance>, account: &str, amount: u64)
    ensures
        balances_set(final(v)@, old(v)@, account@, amount),
{
    let b = SpiralBalance { account: string_of(account), amount };
    upsert(v, b);
    assert(final(v)@ == upsert_spec(old(v)@, b));
}

/// Freezing an active instance and then restoring it gives back exactly the instance that
/// was there before (same owner, serial and metadata); every other instance is untouched.
/// While frozen, the instance is present and not `Active`, so a transfer is refused.
pub proof fn law_freeze_then_restore(
    s0: Seq<AssetInstance>,
    s1: Seq<AssetInstance>,
    s2: Seq<AssetInstance>,
    id: Seq<char>,
)
    requires
        lookup(s0, id) matches Some(a) && a.status == AssetStatus::Active,
        instance_set(s1, s0, id, with_status(inst_at(s0, id), AssetStatus::Frozen)),
        instance_set(s2, s1, id, with_status(inst_at(s1, id), AssetStatus::Active)),
    ensures
        lookup(s1, id) matches Some(f) && f.status == AssetStatus::Frozen,
        inst_at(s2, id) == inst_at(s0, id),
        forall|k: Seq<char>| k != id ==> #[trigger] lookup(s2, k) == lookup(s0, k),
{
}

/// Transferring an instance from `x` to `y` and back from `y` to `x` restores it exactly;
/// every other instance is untouched.
pub proof fn law_transfer_round_trip(
    s0: Seq<AssetInstance>,
    s1: Seq<AssetInstance>,
    s2: Seq<AssetInstance>,
    id: Seq<char>,
    x: Seq<char>,
    y: Seq<char>,
)
    requires
        lookup(s0, id) matches Some(a) && a.owner@ == x,
        instance_set(s1, s0, id, owned_by(inst_at(s0, id), y)),
        instance_set(s2, s1, id, owned_by(inst_at(s1, id), x)),
    ensures
        lookup(s1, id) matches Some(b) && b.owner@ == y,
        inst_at(s2, id) == inst_at(s0, id),
        forall|k: Seq<char>| k != id ==> #[trigger] lookup(s2, k) == lookup(s0, k),
{
}

/// What a mint of the next serial of `token_id` to `owner` by `by`, stamped `now` with event
/// id `event_id`, answers and does to the book (`o` before, `f` after); see
/// `AssetBook::claim_token_at`.
pub open spec fn claim_done(
    o: AssetBook,
    f: AssetBook,
    token_id: Seq<char>,
    owner: Seq<char>,
    by: Seq<char>,
    r: Result<AssetInstance, WouError>,
    now: u64,
    event_id: Seq<char>,
) -> bool {
    &&& r is Err ==> tables(f) == tables(o)
    &&& lookup(o.tokens@, token_id) is None ==> (r matches Err(WouError::AssetNotFound(x))
        && x@ == token_id)
    &&& (lookup(o.tokens@, token_id) matches Some(t) && t.minted >= t.max_supply)
        ==> (r matches Err(WouError::SupplyExhausted(x)) && x@ == token_id)
    &&& r is Ok <==> (lookup(o.tokens@, token_id) matches Some(t) && t.minted < t.max_supply)
    &&& r matches Ok(inst) ==> {
        let t = lookup(o.tokens@, token_id).unwrap();
        &&& inst@ == minted_view(t, token_id, owner, now)
        &&& inst.serial <= t.max_supply
        &&& f.tokens@.len() == o.tokens@.len()
        &&& lookup(f.tokens@, token_id) matches Some(nt) && nt@ == token_bumped(t@)
        &&& forall|k: Seq<char>| k != token_id ==> #[trigger] lookup(f.tokens@, k)
            == lookup(o.tokens@, k)
        &&& exists|x: AssetInstance| f.instances@ == upsert_spec(o.instances@, x) && x@ == inst@
        &&& logged_one(f.events@, o.events@, event_id, inst.id@, "mint"@,
            None, Some(owner), by, now)
        &&& f.collections@ == o.collections@
        &&& f.balances@ == o.balances@
        &&& f.listings@ == o.listings@
    }
}

/// What a move of instance `id` from `expected_owner` to `to` by `by`, stamped `now` with
/// event id `event_id`, answers and does to the book; see `AssetBook::transfer_asset_at`.
pub open spec fn transfer_done(
    o: AssetBook,
    f: AssetBook,
    id: Seq<char>,
    expected_owner: Seq<char>,
    to: Seq<char>,
    by: Seq<char>,
    r: Result<AssetInstance, WouError>,
    now: u64,
    event_id: Seq<char>,
) -> bool {
    &&& r is Err ==> tables(f) == tables(o)
    &&& lookup(o.instances@, id) is None ==> (r matches Err(WouError::AssetNotFound(x))
        && x@ == id)
    &&& (lookup(o.instances@, id) matches Some(a) && a.owner@ != expected_owner) ==> (r
        matches Err(WouError::NotAssetOwner))
    &&& (lookup(o.instances@, id) matches Some(a) && a.owner@ == expected_owner
        && a.status != AssetStatus::Active) ==> (r matches Err(WouError::AssetFrozen(x))
        && x@ == id)
    &&& r is Ok <==> (lookup(o.instances@, id) matches Some(a) && a.owner@
        == expected_owner && a.status == AssetStatus::Active)
    &&& r matches Ok(a) ==> {
        &&& a@ == owned_by(inst_at(o.instances@, id), to)
        &&& instance_set(f.instances@, o.instances@, id, a@)
        &&& logged_one(f.events@, o.events@, event_id, id, "transfer"@,
            Some(expected_owner), Some(to), by, now)
        &&& f.collections@ == o.collections@
        &&& f.tokens@ == o.tokens@
        &&& f.balances@ == o.balances@
        &&& f.listings@ == o.listings@
    }
}

/// What setting instance `id` to `status` by `by`, stamped `now` with event id `event_id`,
/// answers and does to the book; see `AssetBook::set_asset_status_at`.
pub open spec fn status_done(
    o: AssetBook,
    f: AssetBook,
    id: Seq<char>,
    by: Seq<char>,
    status: AssetStatus,
    r: Result<AssetInstance, WouError>,
    now: u64,
    event_id: Seq<char>,
) -> bool {
    &&& r is Err ==> tables(f) == tables(o)
    &&& lookup(o.instances@, id) is None ==> (r matches Err(WouError::AssetNotFound(x))
        && x@ == id)
    &&& (lookup(o.instances@, id) matches Some(a) && a.status == AssetStatus::Listed)
        ==> (r matches Err(WouError::Internal(m)) && m@
        == "Asset is listed; cancel the listing first"@)
    &&& r is Ok <==> (lookup(o.instances@, id) matches Some(a) && a.status
        != AssetStatus::Listed)
    &&& r matches Ok(a) ==> {
        &&& a@ == with_status(inst_at(o.instances@, id), status)
        &&& instance_set(f.instances@, o.instances@, id, a@)
        &&& logged_one(f.events@, o.events@, event_id, id, status_kind(status),
            None, Some(a.owner@), by, now)
        &&& f.collections@ == o.collections@
        &&& f.tokens@ == o.tokens@
        &&& f.balances@ == o.balances@
        &&& f.listings@ == o.listings@
    }
}

/// What swapping the owners of instances `a_id` (of `a_owner`) and `b_id` (of `b_owner`) by
/// `by`, stamped `now` with event ids `event_a` and `event_b`, answers and does to the book;
/// see `AssetBook::swap_instances_at`.
pub open spec fn swap_done(
    o: AssetBook,
    f: AssetBook,
    a_id: Seq<char>,
    a_owner: Seq<char>,
    b_id: Seq<char>,
    b_owner: Seq<char>,
    by: Seq<char>,
    r: Result<(), WouError>,
    now: u64,
    event_a: Seq<char>,
    event_b: Seq<char>,
) -> bool {
    &&& r is Err ==> tables(f) == tables(o)
    &&& lookup(o.instances@, a_id) is None ==> (r matches Err(WouError::AssetNotFound(x))
        && x@ == a_id)
    &&& (lookup(o.instances@, a_id) is Some && lookup(o.instances@, b_id) is None)
        ==> (r matches Err(WouError::AssetNotFound(x)) && x@ == b_id)
    &&& (lookup(o.instances@, a_id) matches Some(a) && lookup(o.instances@, b_id)
        matches Some(b) && (a.owner@ != a_owner || b.owner@ != b_owner)) ==> (r matches Err(
        WouError::NotAssetOwner))
    &&& (lookup(o.instances@, a_id) matches Some(a) && lookup(o.instances@, b_id)
        matches Some(b) && a.owner@ == a_owner && b.owner@ == b_owner && (a.status
        != AssetStatus::Active || b.status != AssetStatus::Active)) ==> (r matches Err(
        WouError::AssetFrozen(x)) && x@ == a_id)
    &&& r is Ok <==> (lookup(o.instances@, a_id) matches Some(a) && lookup(o.instances@, b_id)
        matches Some(b) && a.owner@ == a_owner && b.owner@ == b_owner && a.status
        == AssetStatus::Active && b.status == AssetStatus::Active)
    &&& r is Ok ==> {
        &&& f.instances@.len() == o.instances@.len()
        &&& (lookup(f.instances@, b_id) matches Some(x) && x@ == owned_by(
            inst_at(o.instances@, b_id),
            a_owner,
        ))
        &&& a_id != b_id ==> (lookup(f.instances@, a_id) matches Some(x) && x@
            == owned_by(inst_at(o.instances@, a_id), b_owner))
        &&& forall|k: Seq<char>| k != a_id && k != b_id ==> #[trigger] lookup(
            f.instances@,
            k,
        ) == lookup(o.instances@, k)
        &&& exists|e1: AssetEvent, e2: AssetEvent| f.events@ == upsert_spec(
            upsert_spec(o.events@, e1),
            e2,
        ) && event_is(e1, event_a, a_id, "trade"@, Some(a_owner), Some(b_owner), by, now)
            && event_is(e2, event_b, b_id, "trade"@, Some(b_owner), Some(a_owner), by, now)
        &&& f.collections@ == o.collections@
        &&& f.tokens@ == o.tokens@
        &&& f.balances@ == o.balances@
        &&& f.listings@ == o.listings@
    }
}

/// What listing instance `asset_id` of `seller` at `price`, stamped `now` under `listing_id`
/// with event id `event_id`, answers and does to the book; see `AssetBook::create_listing_at`.
pub open spec fn listing_done(
    o: AssetBook,
    f: AssetBook,
    asset_id: Seq<char>,
    seller: Seq<char>,
    price: u64,
    r: Result<Listing, WouError>,
    now: u64,
    listing_id: Seq<char>,
    event_id: Seq<char>,
) -> bool {
    &&& r is Err ==> tables(f) == tables(o)
    &&& price == 0 ==> (r matches Err(WouError::Internal(m)) && m@ == "price must be > 0"@)
    &&& price > 0 && lookup(o.instances@, asset_id) is None ==> (r matches Err(
        WouError::AssetNotFound(x)) && x@ == asset_id)
    &&& (lookup(o.instances@, asset_id) matches Some(a) && price > 0 && a.owner@
        != seller) ==> (r matches Err(WouError::NotAssetOwner))
    &&& (lookup(o.instances@, asset_id) matches Some(a) && price > 0 && a.owner@
        == seller && a.status != AssetStatus::Active) ==> (r matches Err(
        WouError::AssetFrozen(x)) && x@ == asset_id)
    &&& r is Ok <==> (lookup(o.instances@, asset_id) matches Some(a) && price > 0
        && a.owner@ == seller && a.status == AssetStatus::Active)
    &&& r matches Ok(l) ==> {
        &&& l.id@ == listing_id && l.asset@ == asset_id && l.seller@ == seller
        &&& l.price == price && l.status@ == "open"@ && l.created_at == now
        &&& f.listings@ == upsert_spec(o.listings@, l)
        &&& instance_set(f.instances@, o.instances@, asset_id, with_status(
            inst_at(o.instances@, asset_id),
            AssetStatus::Listed,
        ))
        &&& logged_one(f.events@, o.events@, event_id, asset_id, "list"@,
            Some(seller), None, seller, now)
        &&& f.collections@ == o.collections@
        &&& f.tokens@ == o.tokens@
        &&& f.balances@ == o.balances@
    }
}

/// What cancelling listing `id` by `caller`, stamped `now` with event id `event_id`, answers
/// and does to the book; see `AssetBook::cancel_listing_at`.
pub open spec fn cancel_done(
    o: AssetBook,
    f: AssetBook,
    id: Seq<char>,
    caller: Seq<char>,
    r: Result<Listing, WouError>,
    now: u64,
    event_id: Seq<char>,
) -> bool {
    &&& r is Err ==> tables(f) == tables(o)
    &&& lookup(o.listings@, id) is None ==> (r matches Err(WouError::ListingNotOpen(x))
        && x@ == id)
    &&& (lookup(o.listings@, id) matches Some(l) && l.seller@ != caller) ==> (r matches Err(
        WouError::NotAssetOwner))
    &&& (lookup(o.listings@, id) matches Some(l) && l.seller@ == caller && l.status@
        != "open"@) ==> (r matches Err(WouError::ListingNotOpen(x)) && x@ == id)
    &&& r is Ok <==> (lookup(o.listings@, id) matches Some(l) && l.seller@ == caller
        && l.status@ == "open"@)
    &&& r matches Ok(nl) ==> {
        let l = lookup(o.listings@, id).unwrap();
        &&& nl.id == l.id && nl.asset == l.asset && nl.seller == l.seller
        &&& nl.price == l.price && nl.created_at == l.created_at && nl.status@ == "cancelled"@
        &&& f.listings@ == upsert_spec(o.listings@, nl)
        &&& (lookup(o.instances@, l.asset@) matches Some(a) && a.status
            == AssetStatus::Listed) ==> instance_set(
            f.instances@,
            o.instances@,
            l.asset@,
            with_status(inst_at(o.instances@, l.asset@), AssetStatus::Active),
        )
        &&& !(lookup(o.instances@, l.asset@) matches Some(a) && a.status
            == AssetStatus::Listed) ==> f.instances@ == o.instances@
        &&& logged_one(f.events@, o.events@, event_id, l.asset@, "unlist"@,
            Some(caller), None, caller, now)
        &&& f.collections@ == o.collections@
        &&& f.tokens@ == o.tokens@
        &&& f.balances@ == o.balances@
    }
}

/// What registering design `tok`, stamped `now`, answers and does to the book; see
/// `AssetBook::register_token_at`.
pub open spec fn register_done(
    o: AssetBook,
    f: AssetBook,
    tok: TokenType,
    r: Result<TokenType, WouError>,
    now: u64,
) -> bool {
    &&& r is Err ==> tables(f) == tables(o)
    &&& lookup(o.collections@, tok.collection@) is None ==> (r matches Err(
        WouError::Internal(m)) && m@ == "Unknown collection "@ + tok.collection@)
    &&& lookup(o.collections@, tok.collection@) is Some && tok.max_supply == 0
        ==> (r matches Err(WouError::Internal(m)) && m@ == "max_supply must be > 0"@)
    &&& lookup(o.collections@, tok.collection@) is Some && tok.max_supply > 0
        && lookup(o.tokens@, tok.id@) is Some ==> (r matches Err(
        WouError::TokenExists(x)) && x@ == tok.id@)
    &&& r is Ok <==> lookup(o.collections@, tok.collection@) is Some && tok.max_supply > 0
        && lookup(o.tokens@, tok.id@) is None
    &&& r matches Ok(t) ==> {
        &&& t@ == token_created(tok, now)@
        &&& f.tokens@ == o.tokens@.push(token_created(tok, now))
        &&& f.collections@ == o.collections@
        &&& f.instances@ == o.instances@
        &&& f.events@ == o.events@
        &&& f.balances@ == o.balances@
        &&& f.listings@ == o.listings@
    }
}

/// What registering collection `col`, stamped `now`, answers and does to the book; see
/// `AssetBook::create_collection_at`.
pub open spec fn collection_done(
    o: AssetBook,
    f: AssetBook,
    col: Collection,
    r: Result<Collection, WouError>,
    now: u64,
) -> bool {
    &&& lookup(o.collections@, col.id@) is Some ==> {
        &&& r matches Err(WouError::CollectionExists(x)) && x@ == col.id@
        &&& tables(f) == tables(o)
    }
    &&& lookup(o.collections@, col.id@) is None ==> {
        &&& r matches Ok(c) && c == collection_created(col, now)
        &&& f.collections@ == o.collections@.push(collection_created(col, now))
        &&& f.tokens@ == o.tokens@
        &&& f.instances@ == o.instances@
        &&& f.events@ == o.events@
        &&& f.balances@ == o.balances@
        &&& f.listings@ == o.listings@
    }
}

} // verus!
