use wou_id::assets::{AssetStatus, Collection, TokenMetadata, TokenType};
use wou_id::error::{SettleTradeError, WouError};
use wou_id::inventory::{merge_cards, owns_all, remove_cards, settle_trade_plan, swap_apply};
use wou_id::ledger::AssetBook;

fn meta(name: &str) -> TokenMetadata {
    TokenMetadata {
        name: name.to_string(),
        description: "desc".to_string(),
        image: "/img.webp".to_string(),
        attributes: vec![],
        collection: "genesis".to_string(),
    }
}

fn genesis() -> Collection {
    Collection {
        id: "genesis".to_string(),
        name: "Cosmicrafts Genesis".to_string(),
        symbol: "GEN".to_string(),
        description: "".to_string(),
        image: "".to_string(),
        created_at: 0,
    }
}

fn token(id: &str, supply: u64) -> TokenType {
    TokenType {
        id: id.to_string(),
        collection: "genesis".to_string(),
        metadata: meta("Riftcutter"),
        max_supply: supply,
        minted: 0,
        created_at: 0,
    }
}

fn seeded() -> AssetBook {
    let mut book = AssetBook::new();
    book.create_collection(genesis()).unwrap();
    book.register_token(token("genesis-001", 2)).unwrap();
    book
}

fn strings(v: &[&str]) -> Vec<String> {
    v.iter().map(|s| s.to_string()).collect()
}

#[test]
fn registry_rejects_duplicates_and_unknown_collections() {
    let mut book = seeded();
    assert!(matches!(book.create_collection(genesis()), Err(WouError::CollectionExists(_))));
    assert!(matches!(book.register_token(token("genesis-001", 10)), Err(WouError::TokenExists(_))));
    let mut t = token("zzz-001", 10);
    t.collection = "nope".to_string();
    assert!(matches!(book.register_token(t), Err(WouError::Internal(_))));
    assert!(matches!(book.register_token(token("zero", 0)), Err(WouError::Internal(_))));
    assert_eq!(book.tokens.len(), 1);
}

#[test]
fn claim_mints_serials_and_exhausts_supply() {
    let mut book = seeded();
    let a = book.claim_token("genesis-001", "alice", "alice").unwrap();
    assert_eq!(a.id, "genesis-001#1");
    assert_eq!(a.serial, 1);
    assert_eq!(a.owner, "alice");
    assert_eq!(a.status, AssetStatus::Active);
    let b = book.claim_token("genesis-001", "bob", "bob").unwrap();
    assert_eq!(b.id, "genesis-001#2");
    assert!(matches!(book.claim_token("genesis-001", "carol", "carol"), Err(WouError::SupplyExhausted(_))));
    assert!(matches!(book.claim_token("nope", "carol", "carol"), Err(WouError::AssetNotFound(_))));
    assert_eq!(a.metadata_digest.len(), 64);
    assert_eq!(a.metadata_digest, b.metadata_digest);
}

#[test]
fn claim_at_is_exact() {
    let mut book = seeded();
    let a = book.claim_token_at("genesis-001", "alice", "producer", 1234, "ev-1".to_string()).unwrap();
    assert_eq!(a.minted_at, 1234);
    let evs = book.asset_events("genesis-001#1");
    assert_eq!(evs.len(), 1);
    assert_eq!(evs[0].id, "ev-1");
    assert_eq!(evs[0].kind, "mint");
    assert_eq!(evs[0].to.as_deref(), Some("alice"));
    assert_eq!(evs[0].by, "producer");
}

#[test]
fn transfer_freeze_restore_with_events() {
    let mut book = seeded();
    book.claim_token_at("genesis-001", "alice", "alice", 1, "e1".into()).unwrap();
    assert!(matches!(book.transfer_asset("genesis-001#1", "mallory", "bob", "mallory"), Err(WouError::NotAssetOwner)));
    book.set_asset_status_at("genesis-001#1", AssetStatus::Frozen, "producer", 2, "e2".into()).unwrap();
    assert!(matches!(book.transfer_asset("genesis-001#1", "alice", "bob", "alice"), Err(WouError::AssetFrozen(_))));
    book.set_asset_status_at("genesis-001#1", AssetStatus::Active, "producer", 3, "e3".into()).unwrap();
    let moved = book.transfer_asset_at("genesis-001#1", "alice", "bob", "alice", 4, "e4".into()).unwrap();
    assert_eq!(moved.owner, "bob");
    let kinds: Vec<String> = book.asset_events("genesis-001#1").into_iter().map(|e| e.kind).collect();
    assert_eq!(kinds, vec!["mint", "freeze", "restore", "transfer"]);
}

#[test]
fn swap_instance_lists_moves_many_atomically() {
    let mut book = AssetBook::new();
    book.create_collection(genesis()).unwrap();
    book.register_token(token("genesis-001", 10)).unwrap();
    book.claim_token("genesis-001", "alice", "alice").unwrap();
    book.claim_token("genesis-001", "bob", "bob").unwrap();
    let off = strings(&["genesis-001#1"]);
    let missing = strings(&["genesis-001#2", "genesis-001#404"]);
    assert!(matches!(book.swap_instance_lists(&off, "alice", &missing, "bob", "t"), Err(WouError::AssetNotFound(_))));
    assert_eq!(book.get_asset("genesis-001#1").unwrap().owner, "alice");
    let req = strings(&["genesis-001#2"]);
    book.swap_instance_lists(&off, "alice", &req, "bob", "t").unwrap();
    assert_eq!(book.get_asset("genesis-001#1").unwrap().owner, "bob");
    assert_eq!(book.get_asset("genesis-001#2").unwrap().owner, "alice");
    assert!(matches!(book.swap_instance_lists(&[], "alice", &req, "bob", "t"), Err(WouError::Internal(_))));
}

#[test]
fn swap_instances_is_atomic() {
    let mut book = seeded();
    book.claim_token("genesis-001", "alice", "alice").unwrap();
    book.claim_token("genesis-001", "bob", "bob").unwrap();
    assert!(matches!(book.swap_instances("genesis-001#1", "bob", "genesis-001#2", "bob", "x"), Err(WouError::NotAssetOwner)));
    assert_eq!(book.get_asset("genesis-001#1").unwrap().owner, "alice");
    book.swap_instances("genesis-001#1", "alice", "genesis-001#2", "bob", "x").unwrap();
    assert_eq!(book.get_asset("genesis-001#1").unwrap().owner, "bob");
    assert_eq!(book.get_asset("genesis-001#2").unwrap().owner, "alice");
}

#[test]
fn listing_buy_moves_asset_and_spiral() {
    let mut book = seeded();
    book.claim_token("genesis-001", "alice", "alice").unwrap();
    assert!(matches!(book.faucet_spiral("bob", 0), Err(WouError::Internal(_))));
    assert_eq!(book.faucet_spiral("bob", 100).unwrap(), 100);
    assert!(matches!(book.create_listing("genesis-001#1", "alice", 0), Err(WouError::Internal(_))));
    assert!(matches!(book.create_listing("genesis-001#1", "bob", 5), Err(WouError::NotAssetOwner)));
    let l = book.create_listing("genesis-001#1", "alice", 60).unwrap();
    assert_eq!(l.status, "open");
    assert_eq!(book.get_asset("genesis-001#1").unwrap().status, AssetStatus::Listed);
    assert!(matches!(book.transfer_asset("genesis-001#1", "alice", "carol", "alice"), Err(WouError::AssetFrozen(_))));
    assert!(matches!(book.buy_listing(&l.id, "alice"), Err(WouError::Internal(_))));
    assert!(matches!(book.buy_listing(&l.id, "carol"), Err(WouError::InsufficientBalance)));
    assert_eq!(book.faucet_spiral("carol", 7).unwrap(), 7);
    let sold = book.buy_listing(&l.id, "bob").unwrap();
    assert_eq!(sold.status, "sold");
    assert_eq!((sold.id.clone(), sold.price, sold.seller.clone(), sold.asset.clone()), (l.id.clone(), 60, "alice".to_string(), "genesis-001#1".to_string()));
    assert_eq!(book.spiral_balance("carol"), 7);
    assert_eq!(book.spiral_balance("bob"), 40);
    assert_eq!(book.spiral_balance("alice"), 60);
    let a = book.get_asset("genesis-001#1").unwrap();
    assert_eq!(a.owner, "bob");
    assert_eq!(a.status, AssetStatus::Active);
    assert!(matches!(book.buy_listing(&l.id, "bob"), Err(WouError::ListingNotOpen(_))));
    assert_eq!(book.list_open_listings(10).len(), 0);
}

#[test]
fn cancel_listing_restores_asset() {
    let mut book = seeded();
    book.claim_token("genesis-001", "alice", "alice").unwrap();
    let l = book.create_listing("genesis-001#1", "alice", 10).unwrap();
    assert_eq!(book.list_open_listings(10).len(), 1);
    assert!(matches!(book.cancel_listing(&l.id, "bob"), Err(WouError::NotAssetOwner)));
    let c = book.cancel_listing(&l.id, "alice").unwrap();
    assert_eq!(c.status, "cancelled");
    assert_eq!(book.get_asset("genesis-001#1").unwrap().status, AssetStatus::Active);
    assert!(matches!(book.cancel_listing(&l.id, "alice"), Err(WouError::ListingNotOpen(_))));
    assert!(matches!(book.cancel_listing("missing", "alice"), Err(WouError::ListingNotOpen(_))));
}

#[test]
fn faucet_saturates() {
    let mut book = AssetBook::new();
    for _ in 0..3 {
        book.faucet_spiral("whale", 1_000_000).unwrap();
    }
    assert_eq!(book.spiral_balance("whale"), 3_000_000);
    assert_eq!(book.spiral_balance("nobody"), 0);
}

#[test]
fn owner_index_lists_in_order() {
    let mut book = seeded();
    book.claim_token("genesis-001", "alice", "alice").unwrap();
    book.claim_token("genesis-001", "bob", "bob").unwrap();
    let mine = book.assets_of_owner("bob");
    assert_eq!(mine.len(), 1);
    assert_eq!(mine[0].id, "genesis-001#2");
}

#[test]
fn settle_trade_swaps_atomically() {
    let alice = strings(&["genesis-001"]);
    let bob = strings(&["genesis-002"]);
    let (a, b) = settle_trade_plan(true, &alice, &bob, &strings(&["genesis-001"]), &strings(&["genesis-002"])).unwrap();
    assert_eq!(a, strings(&["genesis-002"]));
    assert_eq!(b, strings(&["genesis-001"]));
}

#[test]
fn settle_trade_rejects_double_settle() {
    let alice = strings(&["genesis-001"]);
    let bob = strings(&["genesis-002"]);
    assert!(matches!(
        settle_trade_plan(false, &alice, &bob, &strings(&["genesis-001"]), &strings(&["genesis-002"])),
        Err(SettleTradeError::NotOpen)
    ));
}

#[test]
fn settle_trade_rejects_ownership_change_and_missing() {
    let alice = strings(&["genesis-001"]);
    let bob = strings(&["genesis-002"]);
    assert!(matches!(
        settle_trade_plan(true, &alice, &bob, &strings(&["nope"]), &strings(&["genesis-002"])),
        Err(SettleTradeError::OwnershipChanged)
    ));
    assert!(matches!(
        settle_trade_plan(true, &alice, &bob, &strings(&["genesis-001"]), &strings(&["nope"])),
        Err(SettleTradeError::OwnershipChanged)
    ));
}

#[test]
fn inventory_merge_remove_swap() {
    let merged = merge_cards(&strings(&["b", "a"]), &strings(&["  c ", "", "a", "   "]));
    assert_eq!(merged, strings(&["a", "b", "c"]));
    assert_eq!(remove_cards(&strings(&["c", "a", "b"]), &strings(&["a", "zz"])), strings(&["c", "b"]));
    let mut inv = strings(&["x", "b", "x"]);
    swap_apply(&mut inv, &strings(&["b"]), &strings(&["d", "a"]));
    assert_eq!(inv, strings(&["a", "d", "x"]));
    assert!(owns_all(&strings(&["a", "b"]), &strings(&["b"])));
    assert!(!owns_all(&strings(&["a"]), &strings(&["b"])));
    assert!(owns_all(&strings(&["a"]), &[]));
}

#[test]
fn freeze_then_restore_gives_back_the_instance() {
    let mut book = seeded();
    let a = book.claim_token("genesis-001", "alice", "alice").unwrap();
    let before = book.get_asset(&a.id).unwrap();
    book.set_asset_status(&a.id, AssetStatus::Frozen, "producer").unwrap();
    assert!(matches!(book.transfer_asset(&a.id, "alice", "bob", "alice"), Err(WouError::AssetFrozen(_))));
    book.set_asset_status(&a.id, AssetStatus::Active, "producer").unwrap();
    let after = book.get_asset(&a.id).unwrap();
    assert_eq!(after.owner, before.owner);
    assert_eq!(after.serial, before.serial);
    assert!(after.status == AssetStatus::Active);
}

#[test]
fn transfer_there_and_back_restores_owner() {
    let mut book = seeded();
    let a = book.claim_token("genesis-001", "alice", "alice").unwrap();
    let b = book.claim_token("genesis-001", "carol", "carol").unwrap();
    book.transfer_asset(&a.id, "alice", "bob", "alice").unwrap();
    assert_eq!(book.get_asset(&a.id).unwrap().owner, "bob");
    book.transfer_asset(&a.id, "bob", "alice", "bob").unwrap();
    assert_eq!(book.get_asset(&a.id).unwrap().owner, "alice");
    assert_eq!(book.get_asset(&b.id).unwrap().owner, "carol");
}

#[test]
fn swap_lists_answers_each_refusal() {
    let mut book = seeded();
    let a = book.claim_token("genesis-001", "alice", "alice").unwrap();
    let b = book.claim_token("genesis-001", "bob", "bob").unwrap();
    assert!(matches!(book.swap_instance_lists(&[], "alice", &strings(&[&b.id]), "bob", "x"), Err(WouError::Internal(_))));
    assert!(matches!(book.swap_instance_lists(&strings(&["nope"]), "alice", &strings(&[&b.id]), "bob", "x"), Err(WouError::AssetNotFound(ref m)) if m == "nope"));
    assert!(matches!(book.swap_instance_lists(&strings(&[&a.id]), "bob", &strings(&[&b.id]), "bob", "x"), Err(WouError::NotAssetOwner)));
    let before = book.events.len();
    book.swap_instance_lists(&strings(&[&a.id]), "alice", &strings(&[&b.id]), "bob", "x").unwrap();
    assert_eq!(book.get_asset(&a.id).unwrap().owner, "bob");
    assert_eq!(book.get_asset(&b.id).unwrap().owner, "alice");
    assert_eq!(book.events.len(), before + 2);
}
