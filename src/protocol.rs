use vstd::prelude::*;

verus! {

/// A global interface that the lock client knows how to use.
#[derive(Clone, Copy, Debug, PartialEq, Eq, Structural)]
pub enum Interface {
    /// `wl_compositor`, which creates surfaces.
    Compositor,
    /// `wl_seat`, the source of keyboard and pointer input.
    Seat,
    /// `wl_shm`, the shared-memory buffer allocator.
    Shm,
    /// `wl_output`, one physical output.
    Output,
    /// `ext_session_lock_manager_v1`, which locks the session.
    LockManager,
    /// Any other interface: not bound.
    Other,
}

/// One input to the orchestrator: an event of the display connection, or a
/// step of the client's startup sequence.
#[derive(Clone, Copy, Debug, PartialEq, Eq, Structural)]
pub enum Event {
    /// The registry advertised a global.
    Global { name: u32, interface: Interface, version: u32 },
    /// The registry withdrew a global.
    GlobalRemove { name: u32 },
    /// The seat announced its capability bits.
    Capabilities { caps: u32 },
    /// The pointer entered one of the client's surfaces.
    PointerEnter { serial: u32 },
    /// The keyboard announced the format of its keymap.
    Keymap { format: u32 },
    /// A key changed state; `key` is the raw scan code.
    Key { key: u32 },
    /// The compositor confirmed the lock.
    Locked,
    /// The compositor ended the lock without an unlock from the client.
    Finished,
    /// The lock surface of `output` was given a size to use.
    Configure { output: u32, serial: u32, width: u32, height: u32 },
    /// The frame of `output`'s surface was presented at `time` (ms).
    FrameDone { output: u32, time: u32 },
    /// The client asks to lock the session.
    RequestLock,
    /// The client creates a lock surface for each output that has none.
    CreateSurfaces,
    /// Initial setup is over: start the frame loop of each configured output.
    StartRendering,
}

/// A request that the client must issue on the display connection, in order.
#[derive(Clone, Copy, Debug, PartialEq, Eq, Structural)]
pub enum Action {
    /// Bind global `name` with `interface` at `version`.
    Bind { name: u32, interface: Interface, version: u32 },
    /// Round-trip with the server, then feed `Event::CreateSurfaces`; to be
    /// done after the events being dispatched are handled, never during.
    Sync,
    /// Destroy the lock surface (and its surface) of `output`.
    DestroyLockSurface { output: u32 },
    /// Forget the output object of `output`.
    RemoveOutput { output: u32 },
    /// Release the keyboard object.
    ReleaseKeyboard,
    /// Release the pointer object.
    ReleasePointer,
    /// Get a keyboard object from the seat.
    GetKeyboard,
    /// Get a pointer object from the seat.
    GetPointer,
    /// Set an empty cursor image with a zero hotspot for the enter `serial`.
    HideCursor { serial: u32 },
    /// Acknowledge the configure `serial` of `output`'s lock surface.
    AckConfigure { output: u32, serial: u32 },
    /// Create the renderer of `output` at the given size.
    CreateRenderer { output: u32, width: u32, height: u32 },
    /// Resize the drawable of `output`'s renderer, keeping its context.
    ResizeRenderer { output: u32, width: u32, height: u32 },
    /// Commit `output`'s surface.
    Commit { output: u32 },
    /// Draw one frame on `output`, `elapsed_ms` into the animation.
    Render { output: u32, elapsed_ms: u32 },
    /// Ask for a frame-completion notification on `output`'s surface.
    RequestFrame { output: u32 },
    /// Send the lock request to the lock manager.
    Lock,
    /// Create a surface and a lock surface for `output`.
    CreateLockSurface { output: u32 },
    /// Unlock the session and destroy the lock object.
    UnlockAndDestroy,
}

/// Why the client must stop: each of these is fatal.
#[derive(Clone, Copy, Debug, PartialEq, Eq, Structural)]
pub enum LockError {
    /// A global needed to lock was never advertised.
    MissingGlobal { interface: Interface },
    /// A lock was already requested.
    AlreadyRequested,
    /// Lock surfaces were asked for while no lock is requested or held.
    NotLocking,
    /// The compositor answered the lock request with `finished`.
    LockRefused,
    /// The compositor ended a lock that it had confirmed.
    LockRevoked,
    /// `locked` came while no lock request was pending.
    UnexpectedLocked,
    /// `finished` came while no lock was requested or held.
    UnexpectedFinished,
    /// The keyboard's keymap has a format other than xkb v1.
    UnknownKeymap { format: u32 },
    /// A configure came for an output that has no lock surface.
    UnknownLockSurface { output: u32 },
}

/// The outcome of one step, as a value of specification.
pub open spec fn outcome_view(r: Result<Vec<Action>, LockError>) -> Result<Seq<Action>, LockError> {
    match r {
        Ok(v) => Ok(v@),
        Err(e) => Err(e),
    }
}

} // verus!

verus! {

/// The pointer bit of a seat's capabilities.
pub const CAP_POINTER: u32 = 1;

/// The keyboard bit of a seat's capabilities.
pub const CAP_KEYBOARD: u32 = 2;

/// The keymap format `xkb_v1`, the one the client accepts.
pub const KEYMAP_XKB_V1: u32 = 1;

} // verus!
