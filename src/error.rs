use vstd::prelude::*;

verus! {

/// Failures of the ranking engine that are reported to the caller.
#[derive(Clone, Copy, PartialEq, Eq, Structural, Debug)]
pub enum AppError {
    /// No live category has the requested id.
    CategoryNotFound,
    /// No live thing has the requested id.
    ThingNotFound,
    /// No live rank ties the thing to the category.
    RankNotFound,
    /// The thing or the category of a new rank is not live.
    ThingOrCategoryNotFound,
    /// A record with the same identity already exists.
    DuplicateRecord,
    /// The category has fewer than two live ranks.
    NotEnoughThings,
    /// The account has no pairing to answer.
    NotInPollingState,
    /// A run counter would leave the range of its column; nothing is stored.
    RunOutOfRange,
    /// The authorization header does not carry a bearer token.
    Unauthenticated,
    /// The account's role does not grant the operation.
    Unauthorized,
    /// The role of the root account cannot be changed.
    CannotModifyRootAccountRole,
}

/// Status class of an error as the HTTP layer reports it: 404 for a missing
/// record, 409 for a conflict with the stored state, 401 for failed
/// authentication or authorization, 400 for a request that can never
/// succeed, 500 for a storage failure.
pub open spec fn status_of(e: AppError) -> u16 {
    match e {
        AppError::CategoryNotFound | AppError::ThingNotFound | AppError::RankNotFound
        | AppError::ThingOrCategoryNotFound => 404,
        AppError::DuplicateRecord | AppError::NotEnoughThings | AppError::NotInPollingState => 409,
        AppError::Unauthenticated | AppError::Unauthorized => 401,
        AppError::CannotModifyRootAccountRole => 400,
        AppError::RunOutOfRange => 500,
    }
}

impl AppError {
    /// The HTTP status that reports this error.
    pub fn status_code(&self) -> (r: u16)
        ensures
            r == status_of(*self),
    {
        match self {
            AppError::CategoryNotFound | AppError::ThingNotFound | AppError::RankNotFound
            | AppError::ThingOrCategoryNotFound => 404,
            AppError::DuplicateRecord | AppError::NotEnoughThings | AppError::NotInPollingState => 409,
            AppError::Unauthenticated | AppError::Unauthorized => 401,
            AppError::CannotModifyRootAccountRole => 400,
            AppError::RunOutOfRange => 500,
        }
    }
}

} // verus!
