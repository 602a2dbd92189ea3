use vstd::prelude::*;
use vstd::string::*;
use crate::error::WouError;
use crate::models::{attribute_value, Clan, ClanMember, ClanRole, PlayerAccount};
use crate::table::{
    find_key, first_index, lemma_first_index, lemma_lookup_update, lookup, upsert, upsert_spec,
    Keyed,
};
use crate::text::{
    chars_vec, concat2, concat3, starts_with, str_eq, string_of, to_uppercase, trim, trim_spec,
    uppercase_of,
};
use crate::web3::begins_with;

verus! {

/// A clan stored under its upper-cased tag.
pub struct ClanRow {
    pub key: String,
    pub clan: Clan,
}

/// A roster entry stored under `TAG:account_id`.
pub struct MemberRow {
    pub key: String,
    pub member: ClanMember,
}

impl Keyed for ClanRow {
    open spec fn key_view(&self) -> Seq<char> {
        self.key@
    }

    fn key_str(&self) -> (r: &str) {
        self.key.as_str()
    }
}

impl Keyed for MemberRow {
    open spec fn key_view(&self) -> Seq<char> {
        self.key@
    }

    fn key_str(&self) -> (r: &str) {
        self.key.as_str()
    }
}

/// Clans and their rosters.
pub struct ClanBook {
    pub clans: Vec<ClanRow>,
    pub members: Vec<MemberRow>,
}

/// Storage key of a clan tag as a request names it: trimmed and upper-cased.
pub open spec fn clan_key(tag: Seq<char>) -> Seq<char> {
    uppercase_of(trim_spec(tag))
}

/// Roster key of a member.
pub open spec fn member_key(tag_key: Seq<char>, account_id: Seq<char>) -> Seq<char> {
    tag_key + ":"@ + account_id
}

/// A clan with another member count.
pub open spec fn with_count(c: Clan, n: u32) -> Clan {
    Clan {
        tag: c.tag,
        name: c.name,
        description: c.description,
        leader_id: c.leader_id,
        leader_username: c.leader_username,
        avatar_url: c.avatar_url,
        banner_url: c.banner_url,
        member_count: n,
        created_at: c.created_at,
    }
}

/// The clan stored under `key`.
pub open spec fn clan_at(rows: Seq<ClanRow>, key: Seq<char>) -> Option<Clan> {
    match lookup(rows, key) {
        Some(r) => Some(r.clan),
        None => None,
    }
}

/// The clan table changed only at `key`, which now holds `c`, or nothing when `c` is none.
pub open spec fn clans_set(new: Seq<ClanRow>, old: Seq<ClanRow>, key: Seq<char>, c: Option<Clan>) -> bool {
    &&& clan_at(new, key) == c
    &&& forall|k: Seq<char>| k != key ==> #[trigger] lookup(new, k) == lookup(old, k)
}

/// Removes the first record stored under `key`.
pub open spec fn remove_spec<T: Keyed>(s: Seq<T>, key: Seq<char>) -> Seq<T> {
    match first_index(s, key) {
        Some(i) => s.remove(i),
        None => s,
    }
}

fn remove_key<T: Keyed>(v: &mut Vec<T>, key: &str)
    ensures
        final(v)@ == remove_spec(old(v)@, key@),
{
    match find_key(v, key) {
        Some(i) => {
            v.remove(i);
        },
        None => {},
    }
}

/// Rows of `s` whose key begins with `prefix`, in order.
pub open spec fn rows_with_prefix(s: Seq<MemberRow>, prefix: Seq<char>) -> Seq<MemberRow>
    decreases s.len(),
{
    if s.len() == 0 {
        Seq::empty()
    } else if begins_with(s.last().key@, prefix) {
        rows_with_prefix(s.drop_last(), prefix).push(s.last())
    } else {
        rows_with_prefix(s.drop_last(), prefix)
    }
}

impl ClanBook {
    /// No clans.
    pub fn new() -> (r: ClanBook)
        ensures
            r.clans@.len() == 0,
            r.members@.len() == 0,
    {
        ClanBook { clans: Vec::new(), members: Vec::new() }
    }

    /// Founds a clan under its upper-cased tag with its leader on the roster; a tag already
    /// taken is refused and nothing changes.
    pub fn create_clan(&mut self, clan: Clan, leader_member: ClanMember) -> (r: Result<(), WouError>)
        ensures
            lookup(old(self).clans@, uppercase_of(clan.tag@)) is Some ==> {
                &&& r matches Err(WouError::Internal(m)) && m@ == "Clan tag ["@ + uppercase_of(
                    clan.tag@,
                ) + "] is already taken"@
                &&& final(self).clans@ == old(self).clans@
                &&& final(self).members@ == old(self).members@
            },
            lookup(old(self).clans@, uppercase_of(clan.tag@)) is None ==> {
                &&& r is Ok
                &&& clans_set(final(self).clans@, old(self).clans@, uppercase_of(clan.tag@), Some(clan))
                &&& exists|row: MemberRow| final(self).members@ == upsert_spec(old(self).members@, row)
                    && row.key@ == member_key(uppercase_of(clan.tag@), leader_member.account_id@)
                    && row.member == leader_member
            },
    {
        let tag = to_uppercase(clan.tag.as_str());
        if find_key(&self.clans, tag.as_str()).is_some() {
            return Err(WouError::Internal(concat3("Clan tag [", tag.as_str(), "] is already taken")));
        }
        let mkey = concat3(tag.as_str(), ":", leader_member.account_id.as_str());
        upsert(&mut self.clans, ClanRow { key: tag, clan });
        upsert(&mut self.members, MemberRow { key: mkey, member: leader_member });
        Ok(())
    }

    /// The clan a tag names (trimmed, case-insensitive).
    pub fn get_clan(&self, tag: &str) -> (r: Option<Clan>)
        ensures
            r == clan_at(self.clans@, clan_key(tag@)),
    {
        let key = to_uppercase(trim(tag).as_str());
        match find_key(&self.clans, key.as_str()) {
            Some(i) => Some(self.clans[i].clan.duplicate()),
            None => None,
        }
    }

    /// Roster of the clan a tag names, in table order.
    pub fn get_clan_members(&self, tag: &str) -> (r: Vec<ClanMember>)
        ensures
            r@ == rows_with_prefix(self.members@, clan_key(tag@) + ":"@).map_values(|m: MemberRow| m.member),
    {
        let key = to_uppercase(trim(tag).as_str());
        let prefix = concat2(key.as_str(), ":");
        let mut out: Vec<ClanMember> = Vec::new();
        let mut i: usize = 0;
        while i < self.members.len()
            invariant
                i <= self.members@.len(),
                prefix@ == clan_key(tag@) + ":"@,
                out@ == rows_with_prefix(self.members@.subrange(0, i as int), prefix@).map_values(
                    |m: MemberRow| m.member,
                ),
            decreases self.members@.len() - i,
        {
            let ghost sub = self.members@.subrange(0, i + 1);
            assert(sub.drop_last() =~= self.members@.subrange(0, i as int));
            assert(sub.last() == self.members@[i as int]);
            let ghost before = out@;
            if starts_with(self.members[i].key.as_str(), prefix.as_str()) {
                out.push(self.members[i].member.duplicate());
                assert(out@ =~= rows_with_prefix(sub, prefix@).map_values(|m: MemberRow| m.member));
            } else {
                assert(out@ =~= rows_with_prefix(sub, prefix@).map_values(|m: MemberRow| m.member));
            }
            i = i + 1;
        }
        assert(self.members@.subrange(0, self.members@.len() as int) =~= self.members@);
        out
    }

    /// Adds a member to the clan a tag names and counts them; an unknown clan is refused
    /// and nothing changes.
    pub fn join_clan(&mut self, tag: &str, member: ClanMember) -> (r: Result<(), WouError>)
        requires
            clan_at(old(self).clans@, clan_key(tag@)) matches Some(c) ==> c.member_count < u32::MAX,
        ensures
            clan_at(old(self).clans@, clan_key(tag@)) is None ==> {
                &&& r matches Err(WouError::Internal(m)) && m@ == "Clan ["@ + clan_key(tag@)
                    + "] not found"@
                &&& final(self).clans@ == old(self).clans@
                &&& final(self).members@ == old(self).members@
            },
            clan_at(old(self).clans@, clan_key(tag@)) matches Some(c) ==> {
                &&& r is Ok
                &&& final(self).clans@.len() == old(self).clans@.len()
                &&& clans_set(final(self).clans@, old(self).clans@, clan_key(tag@), Some(
                    with_count(c, (c.member_count + 1) as u32),
                ))
                &&& exists|row: MemberRow| final(self).members@ == upsert_spec(old(self).members@, row)
                    && row.key@ == member_key(clan_key(tag@), member.account_id@) && row.member
                    == member
            },
    {
        let key = to_uppercase(trim(tag).as_str());
        let i = match find_key(&self.clans, key.as_str()) {
            Some(i) => i,
            None => {
                return Err(WouError::Internal(concat3("Clan [", key.as_str(), "] not found")));
            },
        };
        proof {
            lemma_first_index(self.clans@, key@);
        }
        let ghost old_rows = self.clans@;
        let mut row = self.clans.remove(i);
        row.clan.member_count = row.clan.member_count + 1;
        self.clans.insert(i, row);
        proof {
            assert(self.clans@ =~= old_rows.update(i as int, row));
            lemma_lookup_update(old_rows, i as int, row);
        }
        let mkey = concat3(key.as_str(), ":", member.account_id.as_str());
        upsert(&mut self.members, MemberRow { key: mkey, member });
        Ok(())
    }

    /// Removes a member from the clan a tag names. When the account had a member row there,
    /// the clan's count drops by one, or the clan is removed when it had at most one member;
    /// otherwise (no such row, or an unknown clan) the clan table stays as it was, so the
    /// count keeps matching the roster.
    pub fn leave_clan(&mut self, tag: &str, account_id: &str)
        ensures
            final(self).members@ == remove_spec(old(self).members@, member_key(clan_key(tag@), account_id@)),
            (clan_at(old(self).clans@, clan_key(tag@)) is None || lookup(
                old(self).members@,
                member_key(clan_key(tag@), account_id@),
            ) is None) ==> final(self).clans@ == old(self).clans@,
            lookup(old(self).members@, member_key(clan_key(tag@), account_id@)) is Some ==> (clan_at(
                old(self).clans@,
                clan_key(tag@),
            ) matches Some(c) ==> {
                &&& c.member_count > 1 ==> clans_set(final(self).clans@, old(self).clans@, clan_key(tag@), Some(
                    with_count(c, (c.member_count - 1) as u32),
                ))
                &&& c.member_count <= 1 ==> final(self).clans@ == remove_spec(old(self).clans@, clan_key(tag@))
            }),
    {
        let key = to_uppercase(trim(tag).as_str());
        let mkey = concat3(key.as_str(), ":", account_id);
        let had_row = find_key(&self.members, mkey.as_str()).is_some();
        proof {
            lemma_first_index(self.members@, mkey@);
        }
        remove_key(&mut self.members, mkey.as_str());
        if !had_row {
            return;
        }
        match find_key(&self.clans, key.as_str()) {
            None => {},
            Some(i) => {
                proof {
                    lemma_first_index(self.clans@, key@);
                }
                if self.clans[i].clan.member_count > 1 {
                    let ghost old_rows = self.clans@;
                    let mut row = self.clans.remove(i);
                    row.clan.member_count = row.clan.member_count - 1;
                    self.clans.insert(i, row);
                    proof {
                        assert(self.clans@ =~= old_rows.update(i as int, row));
                        lemma_lookup_update(old_rows, i as int, row);
                    }
                } else {
                    remove_key(&mut self.clans, key.as_str());
                }
            },
        }
    }
}

/// A request to found a clan.
pub struct CreateClanPayload {
    pub tag: String,
    pub name: String,
    pub description: Option<String>,
}

/// Query of the clan listing.
pub struct ListClansQuery {
    pub limit: usize,
}

/// A clan with its roster.
pub struct ClanDetailsResponse {
    pub clan: Clan,
    pub members: Vec<ClanMember>,
}

/// Most clans one listing returns.
pub const MAX_CLAN_PAGE: usize = 50;

impl ListClansQuery {
    /// The requested limit, capped at `MAX_CLAN_PAGE`.
    pub fn capped_limit(&self) -> (r: usize)
        ensures
            r == (if self.limit < MAX_CLAN_PAGE { self.limit } else { MAX_CLAN_PAGE }),
    {
        if self.limit < MAX_CLAN_PAGE {
            self.limit
        } else {
            MAX_CLAN_PAGE
        }
    }
}

/// Position at which `c` enters a list ordered by member count, largest first: after every
/// clan with at least its count.
pub open spec fn count_slot(sorted: Seq<Clan>, c: Clan) -> int
    decreases sorted.len(),
{
    if sorted.len() == 0 {
        0
    } else if sorted[0].member_count < c.member_count {
        0
    } else {
        1 + count_slot(sorted.drop_first(), c)
    }
}

/// The clans ordered by member count, largest first; clans with equal counts keep their
/// order (a stable sort).
pub open spec fn by_members_desc(s: Seq<Clan>) -> Seq<Clan>
    decreases s.len(),
{
    if s.len() == 0 {
        Seq::empty()
    } else {
        let rest = by_members_desc(s.drop_last());
        rest.insert(count_slot(rest, s.last()), s.last())
    }
}

proof fn lemma_count_slot(sorted: Seq<Clan>, c: Clan, k: int)
    requires
        0 <= k <= sorted.len(),
        forall|j: int| 0 <= j < k ==> sorted[j].member_count >= c.member_count,
        k == sorted.len() || sorted[k].member_count < c.member_count,
    ensures
        count_slot(sorted, c) == k,
    decreases sorted.len(),
{
    if sorted.len() > 0 && k > 0 {
        let d = sorted.drop_first();
        assert forall|j: int| 0 <= j < k - 1 implies d[j].member_count >= c.member_count by {
            assert(d[j] == sorted[j + 1]);
        }
        if k < sorted.len() {
            assert(d[k - 1] == sorted[k]);
        }
        lemma_count_slot(d, c, k - 1);
    }
}

/// `count_slot` comes after every clan with at least `c`'s count and before the first with
/// fewer.
proof fn lemma_count_slot_bounds(sorted: Seq<Clan>, c: Clan)
    ensures
        0 <= count_slot(sorted, c) <= sorted.len(),
        forall|j: int| 0 <= j < count_slot(sorted, c) ==> sorted[j].member_count >= c.member_count,
        count_slot(sorted, c) < sorted.len() ==> sorted[count_slot(sorted, c)].member_count
            < c.member_count,
    decreases sorted.len(),
{
    if sorted.len() > 0 && sorted[0].member_count >= c.member_count {
        let d = sorted.drop_first();
        lemma_count_slot_bounds(d, c);
        assert forall|j: int| 0 <= j < count_slot(sorted, c) implies sorted[j].member_count
            >= c.member_count by {
            if j > 0 {
                assert(sorted[j] == d[j - 1]);
            }
        }
        if count_slot(sorted, c) < sorted.len() {
            assert(sorted[count_slot(sorted, c)] == d[count_slot(d, c)]);
        }
    }
}

/// Clans ordered by member count, largest first.
pub open spec fn desc_by_members(s: Seq<Clan>) -> bool {
    forall|i: int, j: int| 0 <= i < j < s.len() ==> s[i].member_count >= s[j].member_count
}

/// A clan listing holds exactly the clans it was given (as a multiset), ordered by member
/// count, largest first.
pub proof fn law_clans_listed_by_size(s: Seq<Clan>)
    ensures
        desc_by_members(by_members_desc(s)),
        by_members_desc(s).to_multiset() =~= s.to_multiset(),
    decreases s.len(),
{
    broadcast use vstd::multiset::group_multiset_axioms;
    broadcast use vstd::seq_lib::to_multiset_build;
    broadcast use vstd::seq_lib::to_multiset_remove;

    if s.len() > 0 {
        let rest = by_members_desc(s.drop_last());
        let c = s.last();
        law_clans_listed_by_size(s.drop_last());
        lemma_count_slot_bounds(rest, c);
        let k = count_slot(rest, c);
        let r = rest.insert(k, c);
        assert(r == by_members_desc(s));
        rest.insert_ensures(k, c);
        assert forall|i: int, j: int| 0 <= i < j < r.len() implies r[i].member_count
            >= r[j].member_count by {
            if j < k {
                assert(r[i] == rest[i] && r[j] == rest[j]);
            } else if j == k {
                assert(r[i] == rest[i]);
            } else if i < k {
                assert(r[i] == rest[i] && r[j] == rest[j - 1]);
            } else if i == k {
                assert(r[j] == rest[j - 1]);
                assert(rest[k].member_count < c.member_count);
            } else {
                assert(r[i] == rest[i - 1] && r[j] == rest[j - 1]);
            }
        }
        assert(r.remove(k) =~= rest);
        assert(r.to_multiset().remove(c) == rest.to_multiset());
        r.to_multiset_ensures();
        assert(r[k] == c);
        assert(r.contains(c));
        assert(r.to_multiset() =~= rest.to_multiset().insert(c));
        assert(s =~= s.drop_last().push(c));
        assert(s.to_multiset() =~= s.drop_last().to_multiset().insert(c));
    } else {
        assert(by_members_desc(s) =~= s);
    }
}

/// Joining a clan (which always has at least one member) and then leaving it undoes the
/// join: the clan's member count is back to
/// what it was (the clan is not removed, having more than one member before the leave),
/// and the roster is what leaving alone would have made of it.
pub proof fn law_join_then_leave(c: Clan, members: Seq<MemberRow>, row: MemberRow)
    requires
        1 <= c.member_count < u32::MAX,
    ensures
        with_count(c, (c.member_count + 1) as u32).member_count > 1,
        with_count(
            with_count(c, (c.member_count + 1) as u32),
            (with_count(c, (c.member_count + 1) as u32).member_count - 1) as u32,
        ) == c,
        remove_spec(upsert_spec(members, row), row.key@) == remove_spec(members, row.key@),
{
    lemma_first_index(members, row.key@);
    match first_index(members, row.key@) {
        Some(i) => {
            let u = members.update(i, row);
            lemma_first_index(u, row.key@);
            assert forall|j: int| 0 <= j < i implies #[trigger] u[j].key_view() != row.key@ by {
                assert(u[j] == members[j]);
            }
            assert(u[i].key_view() == row.key@);
            assert(first_index(u, row.key@) == Some(i));
            assert(u.remove(i) =~= members.remove(i));
        },
        None => {
            let u = members.push(row);
            lemma_first_index(u, row.key@);
            assert forall|j: int| 0 <= j < members.len() implies #[trigger] u[j].key_view()
                != row.key@ by {
                assert(u[j] == members[j]);
            }
            assert(u[members.len() as int].key_view() == row.key@);
            assert(first_index(u, row.key@) == Some(members.len() as int));
            assert(u.remove(members.len() as int) =~= members);
        },
    }
}

impl ClanBook {
    /// The first `limit` clans of the table, ordered by member count, largest first (clans
    /// with equal counts keep their table order).
    pub fn list_clans(&self, limit: usize) -> (r: Vec<Clan>)
        ensures
            r@ == by_members_desc(self.clans@.subrange(
                0,
                if limit < self.clans@.len() { limit as int } else { self.clans@.len() as int },
            ).map_values(|row: ClanRow| row.clan)),
    {
        let n = if limit < self.clans.len() { limit } else { self.clans.len() };
        let ghost src = self.clans@.subrange(0, n as int).map_values(|row: ClanRow| row.clan);
        let mut out: Vec<Clan> = Vec::new();
        let mut i: usize = 0;
        while i < n
            invariant
                n <= self.clans@.len(),
                i <= n,
                src == self.clans@.subrange(0, n as int).map_values(|row: ClanRow| row.clan),
                out@ == by_members_desc(src.subrange(0, i as int)),
            decreases n - i,
        {
            let c = self.clans[i].clan.duplicate();
            let mut k: usize = 0;
            while k < out.len() && out[k].member_count >= c.member_count
                invariant
                    k <= out@.len(),
                    forall|j: int| 0 <= j < k ==> out@[j].member_count >= c.member_count,
                decreases out@.len() - k,
            {
                k = k + 1;
            }
            proof {
                lemma_count_slot(out@, c, k as int);
                let sub = src.subrange(0, i + 1);
                assert(sub.drop_last() =~= src.subrange(0, i as int));
                assert(sub.last() == c);
            }
            out.insert(k, c);
            i = i + 1;
        }
        assert(src.subrange(0, n as int) =~= src);
        out
    }

    /// The clan a tag names with its roster.
    pub fn clan_details(&self, tag: &str) -> (r: Option<ClanDetailsResponse>)
        ensures
            r is None <==> clan_at(self.clans@, clan_key(tag@)) is None,
            r matches Some(d) ==> {
                &&& clan_at(self.clans@, clan_key(tag@)) == Some(d.clan)
                &&& d.members@ == rows_with_prefix(self.members@, clan_key(tag@) + ":"@).map_values(
                    |m: MemberRow| m.member,
                )
            },
    {
        match self.get_clan(tag) {
            Some(clan) => {
                let members = self.get_clan_members(tag);
                Some(ClanDetailsResponse { clan, members })
            },
            None => None,
        }
    }
}

/// A new clan founded by `account` at `now`, with its leader's roster entry: the tag and
/// name must pass `validate_clan`; the description is trimmed (empty when absent).
pub fn found_clan(account: &PlayerAccount, payload: CreateClanPayload, now: u64) -> (r: Result<
    (Clan, ClanMember),
    ClanRefusal,
>)
    ensures
        ({
            let t = uppercase_of(trim_spec(payload.tag@));
            let n = trim_spec(payload.name@);
            let tag_ok = 2 <= vstd::utf8::encode_utf8(t).len() <= 5 && forall|i: int|
                0 <= i < t.len() ==> ascii_alnum(#[trigger] t[i]);
            let name_ok = 3 <= vstd::utf8::encode_utf8(n).len() <= 32;
            &&& !tag_ok ==> (r matches Err(ClanRefusal::BadTag))
            &&& tag_ok && !name_ok ==> (r matches Err(ClanRefusal::BadName))
            &&& tag_ok && name_ok ==> (r matches Ok((c, m)) && {
                &&& c.tag@ == t
                &&& c.name@ == n
                &&& c.description@ == (match payload.description {
                    Some(d) => trim_spec(d@),
                    None => Seq::<char>::empty(),
                })
                &&& c.leader_id == account.id
                &&& c.leader_username == account.username
                &&& c.avatar_url is None
                &&& c.banner_url is None
                &&& c.member_count == 1
                &&& c.created_at == now
                &&& m.account_id == account.id
                &&& m.role == ClanRole::Leader
                &&& m.joined_at == now
            })
        }),
{
    let (tag, name) = match validate_clan(payload.tag.as_str(), payload.name.as_str()) {
        Ok(p) => p,
        Err(e) => {
            return Err(e);
        },
    };
    let description = match &payload.description {
        Some(d) => trim(d.as_str()),
        None => {
            let e = String::new();
            e
        },
    };
    let clan = Clan {
        tag,
        name,
        description,
        leader_id: account.id.clone(),
        leader_username: account.username.clone(),
        avatar_url: None,
        banner_url: None,
        member_count: 1,
        created_at: now,
    };
    let leader = member_from_account(account, ClanRole::Leader, now);
    Ok((clan, leader))
}

/// An account entering a clan records its tag and name at `now`.
pub fn enter_clan(account: &mut PlayerAccount, tag: String, name: String, now: u64)
    ensures
        final(account).clan_tag == Some(tag),
        final(account).clan_name == Some(name),
        final(account).updated_at == now,
        final(account).id == old(account).id,
{
    account.clan_tag = Some(tag);
    account.clan_name = Some(name);
    account.updated_at = now;
}

/// The member entry of an account on joining a clan at `now`.
pub fn member_from_account(account: &PlayerAccount, role: ClanRole, now: u64) -> (m: ClanMember)
    ensures
        m.account_id == account.id,
        m.username == account.username,
        m.display_name == account.display_name,
        m.avatar_url == account.profile.avatar_url,
        match m.animal_emoji {
            Some(e) => attribute_value(account.profile.custom_attributes@, "animal_emoji"@) == Some(e@),
            None => attribute_value(account.profile.custom_attributes@, "animal_emoji"@) is None,
        },
        m.role == role,
        m.joined_at == now,
{
    ClanMember {
        account_id: account.id.clone(),
        username: account.username.clone(),
        display_name: account.display_name.clone(),
        avatar_url: crate::assets::copy_opt_string(&account.profile.avatar_url),
        animal_emoji: account.profile.custom_attribute("animal_emoji"),
        role,
        joined_at: now,
    }
}

/// An ASCII letter or digit.
pub open spec fn ascii_alnum(c: char) -> bool {
    ('a' <= c && c <= 'z') || ('A' <= c && c <= 'Z') || ('0' <= c && c <= '9')
}

/// Why a new clan is refused before storage.
pub enum ClanRefusal {
    BadTag,
    BadName,
}

/// Checks a new clan's tag and name: the upper-cased trimmed tag must be 2 to 5 ASCII
/// letters or digits, the trimmed name 3 to 32 bytes. Gives the clean tag and name.
pub fn validate_clan(tag: &str, name: &str) -> (r: Result<(String, String), ClanRefusal>)
    ensures
        ({
            let t = uppercase_of(trim_spec(tag@));
            let n = trim_spec(name@);
            let tag_ok = 2 <= vstd::utf8::encode_utf8(t).len() <= 5 && forall|i: int| 0 <= i < t.len() ==> ascii_alnum(#[trigger] t[i]);
            let name_ok = 3 <= vstd::utf8::encode_utf8(n).len() <= 32;
            &&& !tag_ok ==> (r matches Err(ClanRefusal::BadTag))
            &&& tag_ok && !name_ok ==> (r matches Err(ClanRefusal::BadName))
            &&& tag_ok && name_ok ==> (r matches Ok((a, b)) && a@ == t && b@ == n)
        }),
{
    let t = to_uppercase(trim(tag).as_str());
    let n = trim(name);
    let tl = t.as_str().as_bytes().len();
    let v = chars_vec(t.as_str());
    let mut all = true;
    let mut i: usize = 0;
    while i < v.len()
        invariant
            i <= v@.len(),
            all == (forall|j: int| 0 <= j < i ==> ascii_alnum(#[trigger] v@[j])),
        decreases v@.len() - i,
    {
        let c = v[i];
        if !(('a' <= c && c <= 'z') || ('A' <= c && c <= 'Z') || ('0' <= c && c <= '9')) {
            all = false;
        }
        i = i + 1;
    }
    if tl < 2 || tl > 5 || !all {
        return Err(ClanRefusal::BadTag);
    }
    let nl = n.as_str().as_bytes().len();
    if nl < 3 || nl > 32 {
        return Err(ClanRefusal::BadName);
    }
    Ok((t, n))
}

/// An account leaving a clan forgets it when it was that clan.
pub fn forget_clan(account: &mut PlayerAccount, tag_key: &str, now: u64)
    ensures
        (old(account).clan_tag matches Some(t) && t@ == tag_key@) ==> final(account).clan_tag is None
            && final(account).clan_name is None && final(account).updated_at == now,
        !(old(account).clan_tag matches Some(t) && t@ == tag_key@) ==> *final(account) == *old(account),
{
    let same = match &account.clan_tag {
        Some(t) => str_eq(t.as_str(), tag_key),
        None => false,
    };
    if same {
        account.clan_tag = None;
        account.clan_name = None;
        account.updated_at = now;
    }
}

} // verus!
