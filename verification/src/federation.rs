//! What a remote authority may answer when asked for an alias, and what the
//! directory makes of each answer.

use vstd::prelude::*;
use crate::error::{DirectoryError, RemoteFailure};
use crate::text::strings_view;

verus! {

/// The room that an alias names, with servers through which to join it.
#[derive(Debug)]
pub struct GetDirectoryRoomResponse {
    pub room_id: String,
    pub servers: Vec<String>,
}

/// A resolved alias as plain mathematical values.
pub struct ResolvedView {
    pub room_id: Seq<char>,
    pub servers: Seq<Seq<char>>,
}

impl View for GetDirectoryRoomResponse {
    type V = ResolvedView;

    open spec fn view(&self) -> ResolvedView {
        ResolvedView { room_id: self.room_id@, servers: strings_view(self.servers@) }
    }
}

/// A question to put to the authority that owns a foreign alias.
#[derive(Debug)]
pub struct FederationQuery {
    /// The domain to ask.
    pub domain: String,
    /// The alias to ask for, in full.
    pub alias: String,
    /// How long to wait for the answer, in milliseconds.
    pub timeout_ms: u64,
}

/// How a question to a remote authority ended.
#[derive(Debug)]
pub enum FederationOutcome {
    /// The authority knows the alias.
    Resolved { room_id: String, servers: Vec<String> },
    /// The authority answered that it has no such alias.
    NotFound,
    /// No answer came within the time allowed.
    TimedOut,
    /// The authority could not be reached or refused the connection.
    Refused,
    /// The answer could not be understood.
    MalformedResponse,
}

/// An outcome as plain mathematical values.
pub enum OutcomeView {
    Resolved { room_id: Seq<char>, servers: Seq<Seq<char>> },
    NotFound,
    TimedOut,
    Refused,
    MalformedResponse,
}

impl View for FederationOutcome {
    type V = OutcomeView;

    open spec fn view(&self) -> OutcomeView {
        match self {
            FederationOutcome::Resolved { room_id, servers } => OutcomeView::Resolved {
                room_id: room_id@,
                servers: strings_view(servers@),
            },
            FederationOutcome::NotFound => OutcomeView::NotFound,
            FederationOutcome::TimedOut => OutcomeView::TimedOut,
            FederationOutcome::Refused => OutcomeView::Refused,
            FederationOutcome::MalformedResponse => OutcomeView::MalformedResponse,
        }
    }
}

/// What the directory returns for each outcome.
///
/// Only the authority's own "no such alias" is `NotFound`. An answer without
/// servers cannot be used to join and counts as one that could not be
/// understood.
pub open spec fn conclusion(outcome: OutcomeView) -> Result<ResolvedView, DirectoryError> {
    match outcome {
        OutcomeView::Resolved { room_id, servers } => if servers.len() > 0 {
            Ok(ResolvedView { room_id, servers })
        } else {
            Err(DirectoryError::RemoteUnavailable(RemoteFailure::Protocol))
        },
        OutcomeView::NotFound => Err(DirectoryError::NotFound),
        OutcomeView::TimedOut => Err(DirectoryError::RemoteUnavailable(RemoteFailure::Timeout)),
        OutcomeView::Refused => Err(DirectoryError::RemoteUnavailable(RemoteFailure::Connection)),
        OutcomeView::MalformedResponse => Err(
            DirectoryError::RemoteUnavailable(RemoteFailure::Protocol),
        ),
    }
}

/// The view of what a resolution returns.
pub open spec fn resolved_result_view(r: Result<GetDirectoryRoomResponse, DirectoryError>) -> Result<
    ResolvedView,
    DirectoryError,
> {
    match r {
        Ok(found) => Ok(found@),
        Err(e) => Err(e),
    }
}

/// Turns the outcome of a federation query into the result of the lookup.
pub fn conclude(outcome: FederationOutcome) -> (r: Result<GetDirectoryRoomResponse, DirectoryError>)
    ensures
        resolved_result_view(r) == conclusion(outcome@),
{
    match outcome {
        FederationOutcome::Resolved { room_id, servers } => {
            if servers.len() > 0 {
                Ok(GetDirectoryRoomResponse { room_id, servers })
            } else {
                Err(DirectoryError::RemoteUnavailable(RemoteFailure::Protocol))
            }
        },
        FederationOutcome::NotFound => Err(DirectoryError::NotFound),
        FederationOutcome::TimedOut => Err(DirectoryError::RemoteUnavailable(RemoteFailure::Timeout)),
        FederationOutcome::Refused => Err(DirectoryError::RemoteUnavailable(RemoteFailure::Connection)),
        FederationOutcome::MalformedResponse => Err(
            DirectoryError::RemoteUnavailable(RemoteFailure::Protocol),
        ),
    }
}

} // verus!
