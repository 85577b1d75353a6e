//! The two endpoints on `/directory/room/{roomAlias}`: lookup and deletion.
//!
//! Each endpoint reads the alias from the parameters that the router took
//! from the request path, and hands it to the directory service.

use vstd::prelude::*;
use router::Params;
use crate::directory::{
    delete_spec, resolution_result_view, resolve_spec, requester_view, store_after_delete,
    DirectoryService, Resolution, ResolutionView,
};
use crate::error::DirectoryError;
use crate::store::RoomAliasView;

verus! {

/// The parameters that the router took from a request path.
#[verifier::external_type_specification]
#[verifier::external_body]
pub struct ExParams(router::Params);

/// The entries of a `router::Params`: each key that was inserted, with the
/// value inserted last under it.
pub uninterp spec fn params_entries(params: Params) -> Map<Seq<char>, Seq<char>>;

/// `router::Params::find`: the value filed under `key`, if there is one.
/// `Params` keeps its entries in a map from string to string and `find`
/// reads that map.
#[verifier::external_body]
fn find_param<'a>(params: &'a Params, key: &str) -> (r: Option<&'a str>)
    ensures
        r is Some <==> params_entries(*params).contains_key(key@),
        r matches Some(value) ==> value@ == params_entries(*params)[key@],
{
    params.find(key)
}

/// The name of the path parameter that holds the alias.
pub open spec fn alias_key() -> Seq<char> {
    "room_alias"@
}

/// What runs before a handler.
#[derive(Clone, Copy, Debug, PartialEq, Eq, Structural)]
pub enum BeforeFilter {
    /// The caller's access token is verified and gives the caller's identity.
    AccessTokenAuth,
}

/// A handler with the filters that run before it, in order.
#[derive(Debug)]
pub struct Chain {
    pub before: Vec<BeforeFilter>,
}

/// The `/directory/room/{roomAlias}` endpoint when using the GET method.
#[derive(Clone, Copy, Debug)]
pub struct GetDirectoryRoom;

/// The `/directory/room/{roomAlias}` endpoint for the DELETE method.
#[derive(Clone, Copy, Debug)]
pub struct DeleteDirectoryRoom;

/// What a lookup returns for the parameters given.
pub open spec fn get_spec(
    domains: Seq<Seq<char>>,
    timeout_ms: u64,
    m: Map<Seq<char>, RoomAliasView>,
    entries: Map<Seq<char>, Seq<char>>,
) -> Result<ResolutionView, DirectoryError> {
    if entries.contains_key(alias_key()) {
        resolve_spec(domains, timeout_ms, m, entries[alias_key()])
    } else {
        Err(DirectoryError::NotFound)
    }
}

impl GetDirectoryRoom {
    /// The lookup is open to everyone: nothing runs before the handler.
    pub fn chain() -> (c: Chain)
        ensures
            c.before@ == Seq::<BeforeFilter>::empty(),
    {
        Chain { before: Vec::new() }
    }

    /// Looks up the alias named by the path parameter `room_alias`.
    ///
    /// Without that parameter the result is `NotFound`; with it, what the
    /// service resolves the alias to.
    pub fn handle(&self, service: &DirectoryService, params: &Params) -> (r: Result<
        Resolution,
        DirectoryError,
    >)
        ensures
            resolution_result_view(r) == get_spec(
                service.authority.domains(),
                service.federation_timeout_ms,
                service.store@,
                params_entries(*params),
            ),
            r matches Ok(Resolution::Local(found)) ==> found.servers@.len() > 0,
    {
        match find_param(params, "room_alias") {
            None => Err(DirectoryError::NotFound),
            Some(room_alias_name) => service.resolve_alias(room_alias_name),
        }
    }
}

impl DeleteDirectoryRoom {
    /// Deletion is for authenticated callers: the access token is verified
    /// before the handler runs.
    pub fn chain() -> (c: Chain)
        ensures
            c.before@ == seq![BeforeFilter::AccessTokenAuth],
    {
        let mut before: Vec<BeforeFilter> = Vec::new();
        before.push(BeforeFilter::AccessTokenAuth);
        Chain { before }
    }

    /// Deletes the alias named by the path parameter `room_alias`, on behalf
    /// of the identity that authentication gave.
    ///
    /// Without that parameter the result is `NotFound` and the store is
    /// unchanged; with it, what the service's deletion returns.
    pub fn handle(
        &self,
        service: &mut DirectoryService,
        params: &Params,
        identity: Option<&str>,
    ) -> (r: Result<(), DirectoryError>)
        ensures
            params_entries(*params).contains_key(alias_key()) ==> r == delete_spec(
                old(service).authority.domains(),
                old(service).policy@,
                old(service).store@,
                params_entries(*params)[alias_key()],
                requester_view(identity),
            ) && final(service).store@ == store_after_delete(
                old(service).authority.domains(),
                old(service).policy@,
                old(service).store@,
                params_entries(*params)[alias_key()],
                requester_view(identity),
            ),
            !params_entries(*params).contains_key(alias_key()) ==> r == Err::<(), DirectoryError>(
                DirectoryError::NotFound,
            ) && final(service).store@ == old(service).store@,
            final(service).authority == old(service).authority,
            final(service).policy == old(service).policy,
            final(service).federation_timeout_ms == old(service).federation_timeout_ms,
    {
        match find_param(params, "room_alias") {
            None => Err(DirectoryError::NotFound),
            Some(room_alias_name) => service.delete_alias(room_alias_name, identity),
        }
    }
}

} // verus!
