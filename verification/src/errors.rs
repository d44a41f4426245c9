use vstd::prelude::*;

verus! {

/// Outcome of an account operation. `Nothing` is the success sentinel:
/// it travels in the same response field as the failures.
#[derive(Clone, Copy, Debug, PartialEq, Eq, Structural)]
pub enum AccountError {
    Nothing,
    PassNotMatched,
    UserNotExists,
    DatabaseError,
    UsernameAlreadyExists,
    EmailAlreadyExists,
}

/// Outcome of a blog operation. `Nothing` is the success sentinel.
/// `DatabaseError` doubles as the signal for a post that cannot be
/// read: absent rows and failed visibility checks both report it.
#[derive(Clone, Copy, Debug, PartialEq, Eq, Structural)]
pub enum BlogError {
    Nothing,
    AuthError,
    DatabaseError,
    NetworkError,
    PermissionError,
}

} // verus!
