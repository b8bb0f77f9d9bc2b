//! What every request works with: the application's state, the user who is
//! asking, and the errors that a request can end in.

use vstd::prelude::*;

use crate::db::Database;

verus! {

/// Identifier of a ref, the unit to which permissions apply.
#[derive(Clone, Copy, Debug, PartialEq, Eq, Structural, Hash)]
pub struct RefId(pub u128);

/// Ways in which a request can fail.
#[derive(Debug, PartialEq, Eq)]
pub enum AppError {
    /// The ref does not exist.
    NotFound(RefId),
    /// The user may not do to the ref what was asked.
    Forbidden(RefId),
    /// The database failed; the text says how.
    StorageFailure(String),
}

impl AppError {
    /// The HTTP status that reports the error.
    pub open spec fn spec_status(&self) -> u16 {
        match *self {
            AppError::NotFound(_) => 404,
            AppError::Forbidden(_) => 403,
            AppError::StorageFailure(_) => 500,
        }
    }

    /// The HTTP status that reports the error.
    #[verifier::when_used_as_spec(spec_status)]
    pub fn status(&self) -> (code: u16)
        ensures
            code == self.spec_status(),
    {
        match self {
            AppError::NotFound(_) => 404,
            AppError::Forbidden(_) => 403,
            AppError::StorageFailure(_) => 500,
        }
    }
}

/// A user whose identity has been established.
#[derive(Debug, PartialEq, Eq)]
pub struct User {
    /// Identifier of the user.
    pub user_id: String,
}

impl Clone for User {
    fn clone(&self) -> (copy: User)
        ensures
            copy.user_id@ == self.user_id@,
    {
        User { user_id: self.user_id.clone() }
    }
}

/// State shared by all requests.
#[derive(Debug, PartialEq, Eq)]
pub struct AppState {
    /// The tables that permissions are decided from.
    pub db: Database,
}

impl Clone for AppState {
    fn clone(&self) -> (copy: AppState)
        ensures
            copy.db@ == self.db@,
    {
        AppState { db: self.db.clone() }
    }
}

/// What a single request works with.
#[derive(Debug, PartialEq, Eq)]
pub struct AppCtx {
    /// State shared by all requests.
    pub state: AppState,
    /// The user making the request, or nobody for an anonymous request.
    pub user: Option<User>,
}

impl Clone for AppCtx {
    fn clone(&self) -> (copy: AppCtx)
        ensures
            copy.state.db@ == self.state.db@,
            copy.requester() == self.requester(),
    {
        AppCtx {
            state: self.state.clone(),
            user: match &self.user {
                Some(user) => Some(user.clone()),
                None => None,
            },
        }
    }
}

impl AppCtx {
    /// Identifier of the user making the request, if there is one.
    pub open spec fn requester(&self) -> Option<Seq<char>> {
        match self.user {
            Some(user) => Some(user.user_id@),
            None => None,
        }
    }

    /// Identifier of the user making the request, if there is one.
    pub fn user_id(&self) -> (id: Option<String>)
        ensures
            id.deep_view() == self.requester(),
    {
        match &self.user {
            Some(user) => Some(user.user_id.clone()),
            None => None,
        }
    }
}

} // verus!
