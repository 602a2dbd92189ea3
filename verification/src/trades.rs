use vstd::prelude::*;
use crate::account::unix_now;
use crate::inventory::{
    has_clean_id, has_str, has_text, lex_lt, merge_cards, remove_cards, strictly_sorted, without,
};
use crate::text::{str_eq, string_of, trim_spec};

verus! {

/// Longest list of cards one collect request may carry.
pub const MAX_COLLECT_CARDS: usize = 50;

/// Length of a trade id.
pub const TRADE_ID_LEN: usize = 12;

/// Cards a player collects into their inventory.
pub struct CollectPayload {
    pub card_ids: Vec<String>,
}

/// An account's inventory of card ids.
pub struct InventoryResponse {
    pub account_id: String,
    pub card_ids: Vec<String>,
}

/// A request to open a card-for-card trade; `to_account_id` of `None` is an open offer.
pub struct TradeCreatePayload {
    pub offered: Vec<String>,
    pub requested: Vec<String>,
    pub to_account_id: Option<String>,
}

/// A stored trade offer. `status` is `open`, `accepted` or `cancelled`.
pub struct TradeOffer {
    pub id: String,
    pub from_account: String,
    pub to_account: Option<String>,
    pub offered: Vec<String>,
    pub requested: Vec<String>,
    pub status: String,
    pub created_at: u64,
}

/// Why a trade request is refused; the card named is the first one that is missing.
pub enum TradeRefusal {
    EmptySides,
    NotOwned(String),
    NotOpen,
    NotAddressed,
    OwnTrade,
    AcceptorLacks(String),
    OffererLacks(String),
    NotOfferer,
}

/// An accepted trade and both inventories after the swap.
pub struct TradeSettlement {
    pub trade: TradeOffer,
    pub offerer_inventory: Vec<String>,
    pub acceptor_inventory: Vec<String>,
}

/// Every card of `cards` is held in `inv`.
pub open spec fn owns_every(inv: Seq<String>, cards: Seq<String>) -> bool {
    forall|k: int| 0 <= k < cards.len() ==> has_text(inv, #[trigger] cards[k]@)
}

/// `k` is the first position of `cards` whose card `inv` does not hold.
pub open spec fn first_unowned_at(inv: Seq<String>, cards: Seq<String>, k: int) -> bool {
    &&& 0 <= k < cards.len()
    &&& !has_text(inv, cards[k]@)
    &&& forall|j: int| 0 <= j < k ==> has_text(inv, #[trigger] cards[j]@)
}

/// Characters a trade id is made of (the URL-safe alphabet).
pub open spec fn url_safe_char(c: char) -> bool {
    c == '_' || c == '-' || ('0' <= c <= '9') || ('a' <= c <= 'z') || ('A' <= c <= 'Z')
}

/// The trade names a counterpart other than `acceptor`.
pub open spec fn addressed_elsewhere(t: TradeOffer, acceptor: Seq<char>) -> bool {
    match t.to_account {
        Some(to) => to@ != acceptor,
        None => false,
    }
}

/// `t` is `base` with only its status changed to `status`.
pub open spec fn with_status(t: TradeOffer, base: TradeOffer, status: Seq<char>) -> bool {
    &&& t.id == base.id
    &&& t.from_account == base.from_account
    &&& t.to_account == base.to_account
    &&& t.offered == base.offered
    &&& t.requested == base.requested
    &&& t.created_at == base.created_at
    &&& t.status@ == status
}

/// A fresh random trade id from `nanoid::format` with nanoid's default random source and
/// its URL-safe alphabet. The source returns once it has collected `TRADE_ID_LEN` characters,
/// each taken from that alphabet; which ones is left to chance.
#[verifier::external_body]
fn random_trade_id() -> (r: String)
    ensures
        r@.len() == TRADE_ID_LEN,
        forall|i: int| 0 <= i < r@.len() ==> url_safe_char(#[trigger] r@[i]),
{
    nanoid::format(nanoid::rngs::default, &nanoid::alphabet::SAFE, TRADE_ID_LEN)
}

/// Position of the first card of `cards` that `inv` does not hold, if any.
pub fn first_unowned(inv: &[String], cards: &[String]) -> (r: Option<usize>)
    ensures
        r is None <==> owns_every(inv@, cards@),
        r matches Some(k) ==> first_unowned_at(inv@, cards@, k as int),
{
    let mut k: usize = 0;
    while k < cards.len()
        invariant
            k <= cards@.len(),
            forall|j: int| 0 <= j < k ==> has_text(inv@, #[trigger] cards@[j]@),
        decreases cards@.len() - k,
    {
        if !has_str(inv, cards[k].as_str()) {
            return Some(k);
        }
        k = k + 1;
    }
    None
}

/// A collect request may carry 1 to `MAX_COLLECT_CARDS` cards.
pub fn collect_size_ok(count: usize) -> (b: bool)
    ensures
        b == (1 <= count <= MAX_COLLECT_CARDS),
{
    1 <= count && count <= MAX_COLLECT_CARDS
}

/// Opens a trade for `from` with the given id and time: both sides must be non-empty and
/// the offerer must hold every offered card.
pub fn open_trade_with(
    from: String,
    payload: TradeCreatePayload,
    inventory: &[String],
    id: String,
    now: u64,
) -> (r: Result<TradeOffer, TradeRefusal>)
    ensures
        r matches Err(TradeRefusal::EmptySides) <==> (payload.offered@.len() == 0
            || payload.requested@.len() == 0),
        r is Ok <==> (payload.offered@.len() > 0 && payload.requested@.len() > 0 && owns_every(
            inventory@,
            payload.offered@,
        )),
        r matches Err(TradeRefusal::NotOwned(c)) ==> exists|k: int|
            first_unowned_at(inventory@, payload.offered@, k) && c@ == #[trigger] payload.offered@[k]@,
        r is Err ==> (r matches Err(TradeRefusal::EmptySides) || r matches Err(
            TradeRefusal::NotOwned(_),
        )),
        r matches Ok(t) ==> {
            &&& t.id == id
            &&& t.from_account == from
            &&& t.to_account == payload.to_account_id
            &&& t.offered == payload.offered
            &&& t.requested == payload.requested
            &&& t.status@ == "open"@
            &&& t.created_at == now
        },
{
    if payload.offered.len() == 0 || payload.requested.len() == 0 {
        return Err(TradeRefusal::EmptySides);
    }
    match first_unowned(inventory, payload.offered.as_slice()) {
        Some(k) => {
            let c = payload.offered[k].clone();
            Err(TradeRefusal::NotOwned(c))
        },
        None => {
            let status = string_of("open");
            Ok(
                TradeOffer {
                    id,
                    from_account: from,
                    to_account: payload.to_account_id,
                    offered: payload.offered,
                    requested: payload.requested,
                    status,
                    created_at: now,
                },
            )
        },
    }
}

/// Opens a trade for `from` under a fresh random id, stamped with the current time. Refuses
/// exactly as `open_trade_with` does.
pub fn open_trade(from: String, payload: TradeCreatePayload, inventory: &[String]) -> (r: Result<
    TradeOffer,
    TradeRefusal,
>)
    ensures
        r matches Err(TradeRefusal::EmptySides) <==> (payload.offered@.len() == 0
            || payload.requested@.len() == 0),
        r is Ok <==> (payload.offered@.len() > 0 && payload.requested@.len() > 0 && owns_every(
            inventory@,
            payload.offered@,
        )),
        r matches Err(TradeRefusal::NotOwned(c)) ==> exists|k: int|
            first_unowned_at(inventory@, payload.offered@, k) && c@ == #[trigger] payload.offered@[k]@,
        r is Err ==> (r matches Err(TradeRefusal::EmptySides) || r matches Err(
            TradeRefusal::NotOwned(_),
        )),
        r matches Ok(t) ==> {
            &&& t.id@.len() == TRADE_ID_LEN
            &&& forall|i: int| 0 <= i < t.id@.len() ==> url_safe_char(#[trigger] t.id@[i])
            &&& t.from_account == from
            &&& t.to_account == payload.to_account_id
            &&& t.offered == payload.offered
            &&& t.requested == payload.requested
            &&& t.status@ == "open"@
        },
{
    let id = random_trade_id();
    let now = unix_now();
    open_trade_with(from, payload, inventory, id, now)
}

/// `without` keeps a strictly sorted list strictly sorted.
proof fn lemma_without_sorted(cur: Seq<String>, rm: Seq<String>)
    requires
        strictly_sorted(cur),
    ensures
        strictly_sorted(without(cur, rm)),
        forall|y: Seq<char>| has_text(without(cur, rm), y) ==> has_text(cur, y),
    decreases cur.len(),
{
    if cur.len() > 0 {
        let d = cur.drop_last();
        assert(strictly_sorted(d)) by {
            assert forall|i: int, j: int| 0 <= i < j < d.len() implies lex_lt(d[i]@, d[j]@) by {
                assert(d[i] == cur[i] && d[j] == cur[j]);
            }
        }
        lemma_without_sorted(d, rm);
        let w = without(cur, rm);
        let wd = without(d, rm);
        assert forall|y: Seq<char>| has_text(w, y) implies has_text(cur, y) by {
            let k = choose|k: int| #![trigger w[k]] 0 <= k < w.len() && w[k]@ == y;
            if has_text(rm, cur.last()@) || k < wd.len() {
                assert(w[k] == wd[k]);
                assert(has_text(wd, y));
                assert(has_text(d, y));
                let j = choose|j: int| #![trigger d[j]] 0 <= j < d.len() && d[j]@ == y;
                assert(cur[j] == d[j]);
            } else {
                assert(cur[cur.len() - 1] == cur.last());
            }
        }
        if has_text(rm, cur.last()@) {
            assert(w == wd);
        } else {
            assert forall|i: int, j: int| 0 <= i < j < w.len() implies lex_lt(w[i]@, w[j]@) by {
                assert(w[i] == wd[i]);
                if j < wd.len() {
                    assert(w[j] == wd[j]);
                } else {
                    let y = wd[i]@;
                    assert(has_text(wd, y));
                    assert(has_text(d, y));
                    let m = choose|m: int| #![trigger d[m]] 0 <= m < d.len() && d[m]@ == y;
                    assert(cur[m] == d[m]);
                    assert(cur[cur.len() - 1] == cur.last());
                    assert(lex_lt(cur[m]@, cur[cur.len() - 1]@));
                }
            }
        }
    }
}

/// Accepts a trade for `acceptor`, given both inventories as they stand. Refused, in this
/// order: unless the trade is open; when it is addressed to someone else; when the acceptor
/// made it; when the acceptor lacks a requested card; when the offerer no longer holds an
/// offered card. Otherwise the offerer gives the offered cards and receives the requested
/// ones, the acceptor receives the offered cards and then gives the requested ones, and the
/// trade is marked accepted.
pub fn accept_trade(
    trade: TradeOffer,
    acceptor: &str,
    acceptor_inv: &[String],
    offerer_inv: &[String],
) -> (r: Result<TradeSettlement, TradeRefusal>)
    ensures
        r matches Err(TradeRefusal::NotOpen) <==> trade.status@ != "open"@,
        r matches Err(TradeRefusal::NotAddressed) <==> (trade.status@ == "open"@
            && addressed_elsewhere(trade, acceptor@)),
        r matches Err(TradeRefusal::OwnTrade) <==> (trade.status@ == "open"@ && !addressed_elsewhere(trade, acceptor@)
            && trade.from_account@ == acceptor@),
        r matches Err(TradeRefusal::AcceptorLacks(c)) ==> exists|k: int|
            first_unowned_at(acceptor_inv@, trade.requested@, k) && c@
                == #[trigger] trade.requested@[k]@,
        r matches Err(TradeRefusal::OffererLacks(c)) ==> exists|k: int|
            first_unowned_at(offerer_inv@, trade.offered@, k) && c@ == #[trigger] trade.offered@[k]@,
        r is Ok <==> {
            &&& trade.status@ == "open"@
            &&& !addressed_elsewhere(trade, acceptor@)
            &&& trade.from_account@ != acceptor@
            &&& owns_every(acceptor_inv@, trade.requested@)
            &&& owns_every(offerer_inv@, trade.offered@)
        },
        r matches Err(TradeRefusal::AcceptorLacks(_)) <==> {
            &&& trade.status@ == "open"@
            &&& !addressed_elsewhere(trade, acceptor@)
            &&& trade.from_account@ != acceptor@
            &&& !owns_every(acceptor_inv@, trade.requested@)
        },
        r is Err ==> !(r matches Err(TradeRefusal::EmptySides) || r matches Err(
            TradeRefusal::NotOwned(_),
        ) || r matches Err(TradeRefusal::NotOfferer)),
        r matches Ok(s) ==> {
            &&& with_status(s.trade, trade, "accepted"@)
            &&& strictly_sorted(s.offerer_inventory@)
            &&& strictly_sorted(s.acceptor_inventory@)
            &&& forall|y: Seq<char>| has_text(s.offerer_inventory@, y) <==> ((has_text(
                offerer_inv@,
                y,
            ) && !has_text(trade.offered@, y)) || has_clean_id(trade.requested@, y))
            &&& forall|y: Seq<char>| has_text(s.acceptor_inventory@, y) <==> ((has_text(
                acceptor_inv@,
                y,
            ) || has_clean_id(trade.offered@, y)) && !has_text(trade.requested@, y))
        },
{
    proof {
        reveal_strlit("open");
        reveal_strlit("accepted");
    }
    if !str_eq(trade.status.as_str(), "open") {
        return Err(TradeRefusal::NotOpen);
    }
    let addressed_elsewhere = match &trade.to_account {
        Some(to) => !str_eq(to.as_str(), acceptor),
        None => false,
    };
    if addressed_elsewhere {
        return Err(TradeRefusal::NotAddressed);
    }
    if str_eq(trade.from_account.as_str(), acceptor) {
        return Err(TradeRefusal::OwnTrade);
    }
    match first_unowned(acceptor_inv, trade.requested.as_slice()) {
        Some(k) => {
            return Err(TradeRefusal::AcceptorLacks(trade.requested[k].clone()));
        },
        None => {},
    }
    match first_unowned(offerer_inv, trade.offered.as_slice()) {
        Some(k) => {
            return Err(TradeRefusal::OffererLacks(trade.offered[k].clone()));
        },
        None => {},
    }
    let kept = remove_cards(offerer_inv, trade.offered.as_slice());
    let offerer_inventory = merge_cards(kept.as_slice(), trade.requested.as_slice());
    let grown = merge_cards(acceptor_inv, trade.offered.as_slice());
    let acceptor_inventory = remove_cards(grown.as_slice(), trade.requested.as_slice());
    proof {
        lemma_without_sorted(grown@, trade.requested@);
    }
    let status = string_of("accepted");
    let accepted = TradeOffer {
        id: trade.id,
        from_account: trade.from_account,
        to_account: trade.to_account,
        offered: trade.offered,
        requested: trade.requested,
        status,
        created_at: trade.created_at,
    };
    Ok(TradeSettlement { trade: accepted, offerer_inventory, acceptor_inventory })
}

/// An accepted or cancelled trade is closed for good: it is no longer `open`, so a later
/// `accept_trade` on it is refused with `NotOpen`.
pub proof fn law_closed_trade_stays_closed(t: TradeOffer, base: TradeOffer, status: Seq<char>)
    requires
        with_status(t, base, status),
        status == "accepted"@ || status == "cancelled"@,
    ensures
        t.status@ != "open"@,
{
    reveal_strlit("accepted");
    reveal_strlit("cancelled");
    reveal_strlit("open");
    assert("open"@.len() == 4);
    assert("accepted"@.len() == 8);
    assert("cancelled"@.len() == 9);
}

/// A settled trade moves its cards: a card offered (and asked back by no requested id) ends
/// with the acceptor and leaves the offerer; a card requested (and not offered) ends with
/// the offerer and leaves the acceptor. Stated over the inventories `accept_trade` gives,
/// for a card id with no surrounding blanks.
pub proof fn law_trade_moves_cards(
    offerer_inv: Seq<String>,
    acceptor_inv: Seq<String>,
    offered: Seq<String>,
    requested: Seq<String>,
    offerer_new: Seq<String>,
    acceptor_new: Seq<String>,
    y: Seq<char>,
)
    requires
        forall|z: Seq<char>| has_text(offerer_new, z) <==> ((has_text(offerer_inv, z) && !has_text(
            offered,
            z,
        )) || has_clean_id(requested, z)),
        forall|z: Seq<char>| has_text(acceptor_new, z) <==> ((has_text(acceptor_inv, z)
            || has_clean_id(offered, z)) && !has_text(requested, z)),
        trim_spec(y) == y,
        y.len() > 0,
    ensures
        has_text(offered, y) && !has_clean_id(requested, y) ==> has_text(acceptor_new, y) && !has_text(
            offerer_new,
            y,
        ),
        has_text(requested, y) && !has_text(offered, y) ==> has_text(offerer_new, y) && !has_text(
            acceptor_new,
            y,
        ),
{
    if has_text(offered, y) {
        let i = choose|i: int| #![trigger offered[i]] 0 <= i < offered.len() && offered[i]@ == y;
        assert(trim_spec(offered[i]@) == y);
        assert(has_clean_id(offered, y));
        if !has_clean_id(requested, y) {
            if has_text(requested, y) {
                let j = choose|j: int| #![trigger requested[j]] 0 <= j < requested.len()
                    && requested[j]@ == y;
                assert(trim_spec(requested[j]@) == y);
            }
        }
    }
    if has_text(requested, y) {
        let j = choose|j: int| #![trigger requested[j]] 0 <= j < requested.len() && requested[j]@ == y;
        assert(trim_spec(requested[j]@) == y);
        assert(has_clean_id(requested, y));
    }
}

/// Two trades hold the same texts and values.
pub open spec fn same_trade(a: TradeOffer, b: TradeOffer) -> bool {
    &&& a.id@ == b.id@
    &&& a.from_account@ == b.from_account@
    &&& opt_view(a.to_account) == opt_view(b.to_account)
    &&& texts(a.offered@) == texts(b.offered@)
    &&& texts(a.requested@) == texts(b.requested@)
    &&& a.status@ == b.status@
    &&& a.created_at == b.created_at
}

/// Optional text as its view.
pub open spec fn opt_view(o: Option<String>) -> Option<Seq<char>> {
    match o {
        Some(s) => Some(s@),
        None => None,
    }
}

/// Texts of a list of strings.
pub open spec fn texts(s: Seq<String>) -> Seq<Seq<char>> {
    s.map_values(|x: String| x@)
}

/// The open trades of `s`, in order.
pub open spec fn open_trades_of(s: Seq<TradeOffer>) -> Seq<TradeOffer>
    decreases s.len(),
{
    if s.len() == 0 {
        s
    } else {
        let rest = open_trades_of(s.drop_last());
        if s.last().status@ == "open"@ {
            rest.push(s.last())
        } else {
            rest
        }
    }
}

impl TradeOffer {
    /// Field-for-field copy.
    pub fn duplicate(&self) -> (r: TradeOffer)
        ensures
            same_trade(r, *self),
    {
        let offered = crate::inventory::clone_strings(self.offered.as_slice());
        let requested = crate::inventory::clone_strings(self.requested.as_slice());
        TradeOffer {
            id: self.id.clone(),
            from_account: self.from_account.clone(),
            to_account: crate::assets::copy_opt_string(&self.to_account),
            offered,
            requested,
            status: self.status.clone(),
            created_at: self.created_at,
        }
    }
}

/// The first `limit` open trades of the ledger, in its order.
pub fn open_trades(trades: &[TradeOffer], limit: usize) -> (r: Vec<TradeOffer>)
    ensures
        r@.len() == if limit < open_trades_of(trades@).len() {
            limit as int
        } else {
            open_trades_of(trades@).len() as int
        },
        forall|i: int| 0 <= i < r@.len() ==> same_trade(#[trigger] r@[i], open_trades_of(trades@)[i]),
{
    proof {
        reveal_strlit("open");
    }
    let mut out: Vec<TradeOffer> = Vec::new();
    let mut i: usize = 0;
    while i < trades.len() && out.len() < limit
        invariant
            i <= trades@.len(),
            out@.len() <= limit,
            out@.len() == open_trades_of(trades@.take(i as int)).len(),
            forall|j: int| 0 <= j < out@.len() ==> same_trade(
                #[trigger] out@[j],
                open_trades_of(trades@.take(i as int))[j],
            ),
        decreases trades@.len() - i,
    {
        let ghost sub = trades@.take(i + 1);
        assert(sub.drop_last() =~= trades@.take(i as int));
        assert(sub.last() == trades@[i as int]);
        if str_eq(trades[i].status.as_str(), "open") {
            let t = trades[i].duplicate();
            out.push(t);
        }
        i = i + 1;
    }
    proof {
        lemma_open_prefix(trades@, i as int);
        if i == trades@.len() {
            assert(trades@.take(i as int) =~= trades@);
        }
    }
    out
}

/// The open trades of a prefix are a prefix of the open trades.
proof fn lemma_open_prefix(s: Seq<TradeOffer>, i: int)
    requires
        0 <= i <= s.len(),
    ensures
        open_trades_of(s.take(i)).len() <= open_trades_of(s).len(),
        forall|j: int| 0 <= j < open_trades_of(s.take(i)).len() ==> #[trigger] open_trades_of(
            s.take(i),
        )[j] == open_trades_of(s)[j],
    decreases s.len() - i,
{
    if i < s.len() {
        lemma_open_prefix(s, i + 1);
        let a = s.take(i);
        let b = s.take(i + 1);
        assert(b.drop_last() =~= a);
        assert forall|j: int| 0 <= j < open_trades_of(a).len() implies #[trigger] open_trades_of(a)[j]
            == open_trades_of(s)[j] by {
            assert(open_trades_of(a)[j] == open_trades_of(b)[j]);
        }
    } else {
        assert(s.take(i) =~= s);
    }
}

/// Cancels a trade; only its offerer may. The status becomes `cancelled` whatever it was.
pub fn cancel_trade(trade: TradeOffer, caller: &str) -> (r: Result<TradeOffer, TradeRefusal>)
    ensures
        r matches Err(TradeRefusal::NotOfferer) <==> trade.from_account@ != caller@,
        r is Err ==> r matches Err(TradeRefusal::NotOfferer),
        r matches Ok(t) ==> with_status(t, trade, "cancelled"@),
{
    if !str_eq(trade.from_account.as_str(), caller) {
        return Err(TradeRefusal::NotOfferer);
    }
    let status = string_of("cancelled");
    Ok(
        TradeOffer {
            id: trade.id,
            from_account: trade.from_account,
            to_account: trade.to_account,
            offered: trade.offered,
            requested: trade.requested,
            status,
            created_at: trade.created_at,
        },
    )
}

impl TradeRefusal {
    /// HTTP status of the refusal: 403 for a trade addressed elsewhere or a cancel by someone
    /// other than the offerer, 400 otherwise.
    pub fn status(&self) -> (s: u16)
        ensures
            s == (if self is NotAddressed || self is NotOfferer { 403u16 } else { 400u16 }),
    {
        match self {
            TradeRefusal::NotAddressed | TradeRefusal::NotOfferer => 403,
            _ => 400,
        }
    }
}

} // verus!
