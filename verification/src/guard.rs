//! Concurrency guard: the process-wide slot holding at most one live
//! session. The host application keeps the slot behind an exclusive lock
//! for the whole of each exported operation, so attempts never interleave
//! mid-stage; this module holds the slot's own rules: only a successful
//! login installs a session, a failure leaves the slot as it was, and a
//! retrieval call requires an installed session.
use vstd::prelude::*;

verus! {

/// A guarded operation needed a session and none is installed.
#[derive(Clone, Copy, Debug, PartialEq, Eq, Structural)]
pub enum GuardError {
    NotLoggedIn,
}

/// What a finished login attempt hands the slot: the new session on
/// success, nothing on failure.
pub open spec fn outcome_session<S>(outcome: Result<S, String>) -> Option<S> {
    match outcome {
        Ok(s) => Some(s),
        Err(_) => None,
    }
}

/// The slot after one attempt's outcome is committed: success replaces the
/// contents, failure leaves them untouched.
pub open spec fn apply_outcome<S>(slot: Option<S>, outcome: Option<S>) -> Option<S> {
    match outcome {
        Some(s) => Some(s),
        None => slot,
    }
}

/// The slot that holds at most one live session.
pub struct SessionSlot<S> {
    session: Option<S>,
}

impl<S> SessionSlot<S> {
    /// The installed session, if any.
    pub closed spec fn stored(&self) -> Option<S> {
        self.session
    }

    /// A fresh slot: empty at process start.
    pub fn new() -> (r: Self)
        ensures
            r.stored() is None,
    {
        SessionSlot { session: None }
    }

    /// Installs a session, replacing any prior one.
    pub fn install(&mut self, session: S)
        ensures
            final(self).stored() == Some(session),
    {
        self.session = Some(session);
    }

    /// Commits a finished login attempt: only success installs its session;
    /// a failure leaves the slot untouched and surfaces the reason.
    pub fn commit_login(&mut self, outcome: Result<S, String>) -> (r: Result<(), String>)
        ensures
            final(self).stored() == apply_outcome(old(self).stored(), outcome_session(outcome)),
            r is Ok <==> outcome is Ok,
            outcome matches Err(reason) ==> (r matches Err(m) && m == reason),
    {
        match outcome {
            Ok(s) => {
                self.session = Some(s);
                Ok(())
            },
            Err(reason) => Err(reason),
        }
    }

    /// Borrows the installed session for one retrieval exchange; every
    /// retrieval fails here when no login has succeeded yet.
    pub fn get(&self) -> (r: Result<&S, GuardError>)
        ensures
            r is Ok <==> self.stored() is Some,
            r matches Ok(s) ==> self.stored() == Some(*s),
            r matches Err(e) ==> e == GuardError::NotLoggedIn,
    {
        match &self.session {
            Some(s) => Ok(s),
            None => Err(GuardError::NotLoggedIn),
        }
    }

    /// Whether a session is installed.
    pub fn is_logged_in(&self) -> (r: bool)
        ensures
            r == (self.stored() is Some),
    {
        match &self.session {
            Some(_) => true,
            None => false,
        }
    }
}

/// Law: serialized login attempts compose. Because the slot is exclusively
/// locked for the whole of each attempt, two concurrent attempts commit one
/// after the other; the slot then holds the session of the later attempt
/// that succeeded, the earlier one's where only it succeeded, and stays as
/// it began — empty for an empty start — where both failed.
pub proof fn lemma_two_serialized_logins<S>(start: Option<S>, first: Option<S>, second: Option<
    S,
>)
    ensures
        apply_outcome(apply_outcome(start, first), second) == (if second is Some {
            second
        } else if first is Some {
            first
        } else {
            start
        }),
        (start is None && first is None && second is None) ==> apply_outcome(
            apply_outcome(start, first),
            second,
        ) is None,
{
}

} // verus!
