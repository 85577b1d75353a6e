//! The directory service: create, resolve and delete, over an authority, a
//! deletion policy and an alias store.

use vstd::prelude::*;
use crate::alias::{domain_of, parse, well_formed, Authority};
use crate::error::DirectoryError;
use crate::federation::{FederationQuery, GetDirectoryRoomResponse, ResolvedView};
use crate::store::{
    after_create, after_delete, create_result, delete_result, lookup_result, record_result_view,
    store_inv, AliasStore, RoomAlias, RoomAliasView,
};
use crate::text::{contains_string, strings_view};

verus! {

/// Who may delete an alias.
#[derive(Debug)]
pub enum DeletePolicy {
    /// Anyone whose identity was verified.
    AnyAuthenticated,
    /// The creator of the alias and the administrators named here.
    CreatorOrAdmin { admins: Vec<String> },
}

/// A policy as plain mathematical values.
pub enum PolicyView {
    AnyAuthenticated,
    CreatorOrAdmin { admins: Seq<Seq<char>> },
}

impl View for DeletePolicy {
    type V = PolicyView;

    open spec fn view(&self) -> PolicyView {
        match self {
            DeletePolicy::AnyAuthenticated => PolicyView::AnyAuthenticated,
            DeletePolicy::CreatorOrAdmin { admins } => PolicyView::CreatorOrAdmin {
                admins: strings_view(admins@),
            },
        }
    }
}

/// Whether `policy` lets `requester` delete `rec`.
pub open spec fn permits(policy: PolicyView, requester: Seq<char>, rec: RoomAliasView) -> bool {
    match policy {
        PolicyView::AnyAuthenticated => true,
        PolicyView::CreatorOrAdmin { admins } => rec.creator == requester || admins.contains(
            requester,
        ),
    }
}

impl DeletePolicy {
    /// Whether the policy lets `requester` delete `rec`.
    pub fn permits(&self, requester: &str, rec: &RoomAlias) -> (r: bool)
        ensures
            r == permits(self@, requester@, rec@),
    {
        match self {
            DeletePolicy::AnyAuthenticated => true,
            DeletePolicy::CreatorOrAdmin { admins } => {
                let who = requester.to_owned();
                rec.creator == who || contains_string(admins, &who)
            },
        }
    }
}

/// How an alias resolves: from the local store, or by a question that the
/// caller puts to the authority that owns it.
#[derive(Debug)]
pub enum Resolution {
    Local(GetDirectoryRoomResponse),
    Remote(FederationQuery),
}

/// A resolution as plain mathematical values.
pub enum ResolutionView {
    Local(ResolvedView),
    Remote { domain: Seq<char>, alias: Seq<char>, timeout_ms: u64 },
}

impl View for Resolution {
    type V = ResolutionView;

    open spec fn view(&self) -> ResolutionView {
        match self {
            Resolution::Local(found) => ResolutionView::Local(found@),
            Resolution::Remote(query) => ResolutionView::Remote {
                domain: query.domain@,
                alias: query.alias@,
                timeout_ms: query.timeout_ms,
            },
        }
    }
}

/// The view of what `resolve_alias` returns.
pub open spec fn resolution_result_view(r: Result<Resolution, DirectoryError>) -> Result<
    ResolutionView,
    DirectoryError,
> {
    match r {
        Ok(res) => Ok(res@),
        Err(e) => Err(e),
    }
}

/// What resolving `alias` returns, for a directory that serves `domains`
/// and holds the records `m`.
pub open spec fn resolve_spec(
    domains: Seq<Seq<char>>,
    timeout_ms: u64,
    m: Map<Seq<char>, RoomAliasView>,
    alias: Seq<char>,
) -> Result<ResolutionView, DirectoryError> {
    if !well_formed(alias) {
        Err(DirectoryError::MalformedAlias)
    } else if domains.contains(domain_of(alias)) {
        match lookup_result(m, alias) {
            Ok(rec) => Ok(
                ResolutionView::Local(ResolvedView { room_id: rec.room_id, servers: rec.servers }),
            ),
            Err(e) => Err(e),
        }
    } else {
        Ok(ResolutionView::Remote { domain: domain_of(alias), alias, timeout_ms })
    }
}

/// The record that a directory serving `domains` files for a new alias: the
/// servers named are the domains served.
pub open spec fn new_record(
    domains: Seq<Seq<char>>,
    alias: Seq<char>,
    room_id: Seq<char>,
    creator: Seq<char>,
    created_at: u64,
) -> RoomAliasView {
    RoomAliasView { alias, room_id, servers: domains, creator, created_at }
}

/// What creating `alias` returns.
pub open spec fn create_spec(
    domains: Seq<Seq<char>>,
    m: Map<Seq<char>, RoomAliasView>,
    alias: Seq<char>,
    room_id: Seq<char>,
    requester: Option<Seq<char>>,
    created_at: u64,
) -> Result<RoomAliasView, DirectoryError> {
    if !well_formed(alias) {
        Err(DirectoryError::MalformedAlias)
    } else if !domains.contains(domain_of(alias)) {
        Err(DirectoryError::Forbidden)
    } else {
        match requester {
            None => Err(DirectoryError::Forbidden),
            Some(who) => create_result(m, new_record(domains, alias, room_id, who, created_at)),
        }
    }
}

/// The records held after an attempt to create `alias`.
pub open spec fn store_after_create(
    domains: Seq<Seq<char>>,
    m: Map<Seq<char>, RoomAliasView>,
    alias: Seq<char>,
    room_id: Seq<char>,
    requester: Option<Seq<char>>,
    created_at: u64,
) -> Map<Seq<char>, RoomAliasView> {
    match requester {
        Some(who) if well_formed(alias) && domains.contains(domain_of(alias)) => after_create(
            m,
            new_record(domains, alias, room_id, who, created_at),
        ),
        _ => m,
    }
}

/// What deleting `alias` returns.
///
/// The policy judges the requester against the record, so a missing record
/// is reported before the policy is asked.
pub open spec fn delete_spec(
    domains: Seq<Seq<char>>,
    policy: PolicyView,
    m: Map<Seq<char>, RoomAliasView>,
    alias: Seq<char>,
    requester: Option<Seq<char>>,
) -> Result<(), DirectoryError> {
    if !well_formed(alias) {
        Err(DirectoryError::MalformedAlias)
    } else if !domains.contains(domain_of(alias)) {
        Err(DirectoryError::Forbidden)
    } else {
        match requester {
            None => Err(DirectoryError::Forbidden),
            Some(who) => if !m.contains_key(alias) {
                Err(DirectoryError::NotFound)
            } else if !permits(policy, who, m[alias]) {
                Err(DirectoryError::Forbidden)
            } else {
                delete_result(m, alias)
            },
        }
    }
}

/// The records held after an attempt to delete `alias`.
pub open spec fn store_after_delete(
    domains: Seq<Seq<char>>,
    policy: PolicyView,
    m: Map<Seq<char>, RoomAliasView>,
    alias: Seq<char>,
    requester: Option<Seq<char>>,
) -> Map<Seq<char>, RoomAliasView> {
    if delete_spec(domains, policy, m, alias, requester) is Ok {
        after_delete(m, alias)
    } else {
        m
    }
}

/// The characters of the requester's identity, where there is one.
pub open spec fn requester_view(requester: Option<&str>) -> Option<Seq<char>> {
    match requester {
        Some(who) => Some(who@),
        None => None,
    }
}

/// The directory of one instance.
pub struct DirectoryService {
    /// The domains that the instance serves.
    pub authority: Authority,
    /// Who may delete an alias.
    pub policy: DeletePolicy,
    /// How long a question to a remote authority may take, in milliseconds.
    pub federation_timeout_ms: u64,
    /// The records of the aliases that the instance owns.
    pub store: AliasStore,
}

impl DirectoryService {
    /// A directory over the store given.
    pub fn new(
        authority: Authority,
        policy: DeletePolicy,
        federation_timeout_ms: u64,
        store: AliasStore,
    ) -> (s: DirectoryService)
        ensures
            s.authority == authority,
            s.policy == policy,
            s.federation_timeout_ms == federation_timeout_ms,
            s.store == store,
    {
        DirectoryService { authority, policy, federation_timeout_ms, store }
    }

    /// Resolves an alias.
    ///
    /// A malformed alias fails before the store is read. A local alias is
    /// looked up in the store. For a foreign alias the result is the question
    /// to put to its authority; `conclude` turns the answer into the result.
    pub fn resolve_alias(&self, alias: &str) -> (r: Result<Resolution, DirectoryError>)
        ensures
            resolution_result_view(r) == resolve_spec(
                self.authority.domains(),
                self.federation_timeout_ms,
                self.store@,
                alias@,
            ),
            r matches Ok(Resolution::Local(found)) ==> found.servers@.len() > 0,
    {
        let parsed = match parse(alias) {
            Ok(p) => p,
            Err(e) => {
                return Err(e);
            },
        };
        if self.authority.is_local_authority(parsed.domain.as_str()) {
            match self.store.lookup(alias) {
                Ok(rec) => {
                    assert(strings_view(rec.servers@).len() > 0);
                    Ok(
                        Resolution::Local(
                            GetDirectoryRoomResponse { room_id: rec.room_id, servers: rec.servers },
                        ),
                    )
                },
                Err(e) => Err(e),
            }
        } else {
            Ok(
                Resolution::Remote(
                    FederationQuery {
                        domain: parsed.domain,
                        alias: alias.to_owned(),
                        timeout_ms: self.federation_timeout_ms,
                    },
                ),
            )
        }
    }

    /// Creates an alias for a room, on behalf of `requester`.
    ///
    /// Fails with `MalformedAlias` on a malformed alias, with `Forbidden` on
    /// an alias of another authority or without a requester, and with
    /// `AliasAlreadyExists` where the alias is taken. On failure the store is
    /// unchanged.
    pub fn create_alias(
        &mut self,
        alias: &str,
        room_id: &str,
        requester: Option<&str>,
        created_at: u64,
    ) -> (r: Result<RoomAlias, DirectoryError>)
        ensures
            record_result_view(r) == create_spec(
                old(self).authority.domains(),
                old(self).store@,
                alias@,
                room_id@,
                requester_view(requester),
                created_at,
            ),
            final(self).store@ == store_after_create(
                old(self).authority.domains(),
                old(self).store@,
                alias@,
                room_id@,
                requester_view(requester),
                created_at,
            ),
            store_inv(final(self).store@),
            final(self).authority == old(self).authority,
            final(self).policy == old(self).policy,
            final(self).federation_timeout_ms == old(self).federation_timeout_ms,
    {
        proof {
            use_type_invariant(&self.store);
            self.store.lemma_contents();
        }
        let parsed = match parse(alias) {
            Ok(p) => p,
            Err(e) => {
                return Err(e);
            },
        };
        if !self.authority.is_local_authority(parsed.domain.as_str()) {
            return Err(DirectoryError::Forbidden);
        }
        match requester {
            None => {
                Err(DirectoryError::Forbidden)
            },
            Some(who) => self.store.create(
                alias,
                room_id,
                &self.authority.local_domains,
                who,
                created_at,
            ),
        }
    }

    /// Deletes an alias, on behalf of `requester`.
    ///
    /// Fails with `MalformedAlias` on a malformed alias, with `Forbidden` on
    /// an alias of another authority, without a requester, or where the policy
    /// refuses the requester, and with `NotFound` where no record exists. On
    /// failure the store is unchanged.
    pub fn delete_alias(&mut self, alias: &str, requester: Option<&str>) -> (r: Result<
        (),
        DirectoryError,
    >)
        ensures
            r == delete_spec(
                old(self).authority.domains(),
                old(self).policy@,
                old(self).store@,
                alias@,
                requester_view(requester),
            ),
            final(self).store@ == store_after_delete(
                old(self).authority.domains(),
                old(self).policy@,
                old(self).store@,
                alias@,
                requester_view(requester),
            ),
            store_inv(final(self).store@),
            final(self).authority == old(self).authority,
            final(self).policy == old(self).policy,
            final(self).federation_timeout_ms == old(self).federation_timeout_ms,
    {
        proof {
            use_type_invariant(&self.store);
            self.store.lemma_contents();
        }
        let parsed = match parse(alias) {
            Ok(p) => p,
            Err(e) => {
                return Err(e);
            },
        };
        if !self.authority.is_local_authority(parsed.domain.as_str()) {
            return Err(DirectoryError::Forbidden);
        }
        let who = match requester {
            None => {
                return Err(DirectoryError::Forbidden);
            },
            Some(who) => who,
        };
        let rec = match self.store.lookup(alias) {
            Ok(rec) => rec,
            Err(e) => {
                return Err(e);
            },
        };
        if !self.policy.permits(who, &rec) {
            return Err(DirectoryError::Forbidden);
        }
        self.store.delete(alias)
    }
}

} // verus!
