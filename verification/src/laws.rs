//! What holds of the directory across several operations.
//!
//! The laws speak of the functions that the contracts of the store and of
//! the service are written in, so each holds of every run of the code.

use vstd::prelude::*;
use crate::alias::{domain_of, is_disallowed, splits_at, well_formed, SEPARATOR, SIGIL};
use crate::directory::{
    create_spec, delete_spec, resolve_spec, store_after_create, store_after_delete, PolicyView,
    ResolutionView,
};
use crate::error::DirectoryError;
use crate::federation::ResolvedView;
use crate::store::{
    after_create, after_delete, create_result, delete_result, lookup_result, store_inv,
    RoomAliasView,
};

verus! {

/// A string is no alias if it lacks the sigil, has no separator or more than
/// one, has nothing between sigil and separator or nothing after the
/// separator, or holds whitespace or a control character.
pub proof fn law_malformed_shapes(s: Seq<char>)
    ensures
        s.len() == 0 || s[0] != SIGIL ==> !well_formed(s),
        (forall|j: int| 0 <= j < s.len() ==> s[j] != SEPARATOR) ==> !well_formed(s),
        (exists|i: int, j: int| 0 <= i < j < s.len() && s[i] == SEPARATOR && s[j] == SEPARATOR)
            ==> !well_formed(s),
        s.len() >= 2 && s[1] == SEPARATOR ==> !well_formed(s),
        s.len() >= 1 && s[s.len() - 1] == SEPARATOR ==> !well_formed(s),
        (exists|j: int| 0 <= j < s.len() && is_disallowed(s[j])) ==> !well_formed(s),
{
    if well_formed(s) {
        let k = choose|k: int| splits_at(s, k);
        assert(splits_at(s, k));
        assert(s[k] == SEPARATOR);
        if exists|i: int, j: int| 0 <= i < j < s.len() && s[i] == SEPARATOR && s[j] == SEPARATOR {
            let (i, j) = choose|i: int, j: int|
                0 <= i < j < s.len() && s[i] == SEPARATOR && s[j] == SEPARATOR;
            if i != k {
                assert(s[i] != SEPARATOR);
            } else {
                assert(s[j] != SEPARATOR);
            }
        }
        if s.len() >= 2 && s[1] == SEPARATOR {
            assert(s[1] != SEPARATOR);
        }
        if s[s.len() - 1] == SEPARATOR {
            assert(s[s.len() - 1] != SEPARATOR);
        }
        if exists|j: int| 0 <= j < s.len() && is_disallowed(s[j]) {
            let j = choose|j: int| 0 <= j < s.len() && is_disallowed(s[j]);
            assert(!is_disallowed(s[j]));
        }
    }
}

/// A malformed alias fails every operation with `MalformedAlias`, whatever
/// the store holds, and leaves the store as it was.
pub proof fn law_malformed_rejected(
    domains: Seq<Seq<char>>,
    policy: PolicyView,
    timeout_ms: u64,
    m: Map<Seq<char>, RoomAliasView>,
    alias: Seq<char>,
    room_id: Seq<char>,
    requester: Option<Seq<char>>,
    created_at: u64,
)
    requires
        !well_formed(alias),
    ensures
        resolve_spec(domains, timeout_ms, m, alias) == Err::<ResolutionView, DirectoryError>(
            DirectoryError::MalformedAlias,
        ),
        create_spec(domains, m, alias, room_id, requester, created_at) == Err::<
            RoomAliasView,
            DirectoryError,
        >(DirectoryError::MalformedAlias),
        store_after_create(domains, m, alias, room_id, requester, created_at) == m,
        delete_spec(domains, policy, m, alias, requester) == Err::<(), DirectoryError>(
            DirectoryError::MalformedAlias,
        ),
        store_after_delete(domains, policy, m, alias, requester) == m,
{
}

/// Once a record is filed for a well-formed local alias, the alias resolves
/// to the room and the servers of that record.
pub proof fn law_create_then_resolve(
    domains: Seq<Seq<char>>,
    timeout_ms: u64,
    m: Map<Seq<char>, RoomAliasView>,
    rec: RoomAliasView,
)
    requires
        well_formed(rec.alias),
        domains.contains(domain_of(rec.alias)),
        create_result(m, rec) is Ok,
    ensures
        create_result(m, rec) == Ok::<RoomAliasView, DirectoryError>(rec),
        resolve_spec(domains, timeout_ms, after_create(m, rec), rec.alias) == Ok::<
            ResolutionView,
            DirectoryError,
        >(ResolutionView::Local(ResolvedView { room_id: rec.room_id, servers: rec.servers })),
{
}

/// Once the service has created an alias, the alias resolves to the room
/// given and to the domains that the service serves.
pub proof fn law_create_alias_then_resolve(
    domains: Seq<Seq<char>>,
    timeout_ms: u64,
    m: Map<Seq<char>, RoomAliasView>,
    alias: Seq<char>,
    room_id: Seq<char>,
    requester: Option<Seq<char>>,
    created_at: u64,
)
    requires
        create_spec(domains, m, alias, room_id, requester, created_at) is Ok,
    ensures
        resolve_spec(
            domains,
            timeout_ms,
            store_after_create(domains, m, alias, room_id, requester, created_at),
            alias,
        ) == Ok::<ResolutionView, DirectoryError>(
            ResolutionView::Local(ResolvedView { room_id, servers: domains }),
        ),
{
}

/// After an alias was created and then deleted, it resolves to `NotFound`.
/// The deletion succeeds in the store, and in the service too when the
/// creator asks for it, whatever the policy.
pub proof fn law_delete_then_resolve(
    domains: Seq<Seq<char>>,
    policy: PolicyView,
    timeout_ms: u64,
    m: Map<Seq<char>, RoomAliasView>,
    alias: Seq<char>,
    room_id: Seq<char>,
    requester: Option<Seq<char>>,
    created_at: u64,
)
    requires
        create_spec(domains, m, alias, room_id, requester, created_at) is Ok,
    ensures
        ({
            let created = store_after_create(domains, m, alias, room_id, requester, created_at);
            &&& delete_result(created, alias) is Ok
            &&& delete_spec(domains, policy, created, alias, requester) is Ok
            &&& store_after_delete(domains, policy, created, alias, requester) == after_delete(
                created,
                alias,
            )
            &&& resolve_spec(domains, timeout_ms, after_delete(created, alias), alias) == Err::<
                ResolutionView,
                DirectoryError,
            >(DirectoryError::NotFound)
        }),
{
}

/// After any successful deletion by the service, the alias resolves to
/// `NotFound`.
pub proof fn law_deleted_is_gone(
    domains: Seq<Seq<char>>,
    policy: PolicyView,
    timeout_ms: u64,
    m: Map<Seq<char>, RoomAliasView>,
    alias: Seq<char>,
    requester: Option<Seq<char>>,
)
    requires
        delete_spec(domains, policy, m, alias, requester) is Ok,
    ensures
        resolve_spec(
            domains,
            timeout_ms,
            store_after_delete(domains, policy, m, alias, requester),
            alias,
        ) == Err::<ResolutionView, DirectoryError>(DirectoryError::NotFound),
{
}

/// A second deletion of the same alias fails with `NotFound`: in the store
/// always, and in the service when the first deletion succeeded and the
/// second comes with an identity.
pub proof fn law_delete_twice(
    domains: Seq<Seq<char>>,
    policy: PolicyView,
    m: Map<Seq<char>, RoomAliasView>,
    alias: Seq<char>,
    first: Option<Seq<char>>,
    second: Seq<char>,
)
    ensures
        delete_result(after_delete(m, alias), alias) == Err::<(), DirectoryError>(
            DirectoryError::NotFound,
        ),
        delete_spec(domains, policy, m, alias, first) is Ok ==> delete_spec(
            domains,
            policy,
            store_after_delete(domains, policy, m, alias, first),
            alias,
            Some(second),
        ) == Err::<(), DirectoryError>(DirectoryError::NotFound),
{
}

/// A deleted alias is free at once: a record can be filed under it again.
pub proof fn law_recreate_after_delete(m: Map<Seq<char>, RoomAliasView>, rec: RoomAliasView)
    ensures
        create_result(after_delete(m, rec.alias), rec) == Ok::<RoomAliasView, DirectoryError>(rec),
        lookup_result(after_create(after_delete(m, rec.alias), rec), rec.alias) == Ok::<
            RoomAliasView,
            DirectoryError,
        >(rec),
{
}

/// A record is never changed in place: creating over an existing alias
/// fails and leaves the store as it was.
pub proof fn law_records_immutable(m: Map<Seq<char>, RoomAliasView>, rec: RoomAliasView)
    requires
        m.contains_key(rec.alias),
    ensures
        create_result(m, rec) == Err::<RoomAliasView, DirectoryError>(
            DirectoryError::AliasAlreadyExists,
        ),
        after_create(m, rec) == m,
{
}

/// Creation and deletion keep the store's invariant, and a local alias
/// never resolves to an empty list of servers.
pub proof fn law_store_inv_kept(
    domains: Seq<Seq<char>>,
    timeout_ms: u64,
    m: Map<Seq<char>, RoomAliasView>,
    rec: RoomAliasView,
    alias: Seq<char>,
)
    requires
        store_inv(m),
    ensures
        rec.servers.len() > 0 ==> store_inv(after_create(m, rec)),
        store_inv(after_delete(m, alias)),
        resolve_spec(domains, timeout_ms, m, alias) matches Ok(ResolutionView::Local(found))
            ==> found.servers.len() > 0,
{
}

/// The store after the records of `recs` were offered one after another.
pub open spec fn after_creates(m: Map<Seq<char>, RoomAliasView>, recs: Seq<RoomAliasView>) -> Map<
    Seq<char>,
    RoomAliasView,
>
    decreases recs.len(),
{
    if recs.len() == 0 {
        m
    } else {
        after_create(after_creates(m, recs.drop_last()), recs.last())
    }
}

/// What the offer of `recs[i]` returns, after those before it were offered.
pub open spec fn nth_create_result(
    m: Map<Seq<char>, RoomAliasView>,
    recs: Seq<RoomAliasView>,
    i: int,
) -> Result<RoomAliasView, DirectoryError> {
    create_result(after_creates(m, recs.take(i)), recs[i])
}

/// Of any number of creations of one free alias, in whatever order the store
/// takes them, the first succeeds and every other fails with
/// `AliasAlreadyExists`; the record of the first stays.
pub proof fn law_one_creation_wins(
    m: Map<Seq<char>, RoomAliasView>,
    alias: Seq<char>,
    recs: Seq<RoomAliasView>,
)
    requires
        recs.len() > 0,
        forall|i: int| 0 <= i < recs.len() ==> (#[trigger] recs[i]).alias == alias,
        !m.contains_key(alias),
    ensures
        nth_create_result(m, recs, 0) == Ok::<RoomAliasView, DirectoryError>(recs[0]),
        forall|i: int|
            0 < i < recs.len() ==> #[trigger] nth_create_result(m, recs, i) == Err::<
                RoomAliasView,
                DirectoryError,
            >(DirectoryError::AliasAlreadyExists),
        lookup_result(after_creates(m, recs), alias) == Ok::<RoomAliasView, DirectoryError>(
            recs[0],
        ),
        after_creates(m, recs) == m.insert(alias, recs[0]),
    decreases recs.len(),
{
    assert(recs.take(0) =~= Seq::<RoomAliasView>::empty());
    assert(recs[0].alias == alias);
    if recs.len() == 1 {
        assert(recs.drop_last() =~= Seq::<RoomAliasView>::empty());
        assert(after_creates(m, recs.drop_last()) == m);
    } else {
        let front = recs.drop_last();
        law_one_creation_wins(m, alias, front);
        assert(recs.last().alias == alias);
        assert forall|i: int| 0 < i < recs.len() implies #[trigger] nth_create_result(m, recs, i)
            == Err::<RoomAliasView, DirectoryError>(DirectoryError::AliasAlreadyExists) by {
            if i < recs.len() - 1 {
                assert(recs.take(i) =~= front.take(i));
                assert(nth_create_result(m, front, i) == Err::<RoomAliasView, DirectoryError>(
                    DirectoryError::AliasAlreadyExists,
                ));
            } else {
                assert(recs.take(i) =~= front);
            }
        }
    }
}

/// After those creations the alias resolves to the room of the one that won.
pub proof fn law_winner_resolves(
    domains: Seq<Seq<char>>,
    timeout_ms: u64,
    m: Map<Seq<char>, RoomAliasView>,
    alias: Seq<char>,
    recs: Seq<RoomAliasView>,
)
    requires
        recs.len() > 0,
        forall|i: int| 0 <= i < recs.len() ==> (#[trigger] recs[i]).alias == alias,
        !m.contains_key(alias),
        well_formed(alias),
        domains.contains(domain_of(alias)),
    ensures
        resolve_spec(domains, timeout_ms, after_creates(m, recs), alias) == Ok::<
            ResolutionView,
            DirectoryError,
        >(
            ResolutionView::Local(
                ResolvedView { room_id: recs[0].room_id, servers: recs[0].servers },
            ),
        ),
{
    law_one_creation_wins(m, alias, recs);
}

} // verus!
