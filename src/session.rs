use vstd::prelude::*;

verus! {

/// Where the lock handshake stands.
///
/// It only moves forward: `Idle`, then `Requested`, then `Locked` or
/// `Aborted`, then `Finished` or `Aborted`.
#[derive(Clone, Copy, Debug, PartialEq, Eq, Structural)]
pub enum LockState {
    /// No lock has been requested yet.
    Idle,
    /// The lock request was sent; the compositor has not answered.
    Requested,
    /// The compositor confirmed that the session is locked.
    Locked,
    /// The session was unlocked by the authorised key.
    Finished,
    /// The compositor refused or revoked the lock; the client must exit.
    Aborted,
}

/// The position of a state in the forward order of the handshake.
pub open spec fn rank(s: LockState) -> nat {
    match s {
        LockState::Idle => 0,
        LockState::Requested => 1,
        LockState::Locked => 2,
        LockState::Finished => 3,
        LockState::Aborted => 3,
    }
}

/// A state that is never left once reached.
pub open spec fn is_terminal(s: LockState) -> bool {
    s == LockState::Finished || s == LockState::Aborted
}

/// `b` may follow `a`: the rank does not go down, and a terminal state is kept.
pub open spec fn advances(a: LockState, b: LockState) -> bool {
    &&& rank(a) <= rank(b)
    &&& is_terminal(a) ==> b == a
}

} // verus!
