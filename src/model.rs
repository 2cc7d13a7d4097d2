use vstd::prelude::*;
use crate::output::{fresh_surface, has_output, position, surfaces_wf, Size, Surface};
use crate::protocol::{Action, Event, Interface, LockError, CAP_KEYBOARD, CAP_POINTER, KEYMAP_XKB_V1};
use crate::session::LockState;

verus! {

/// The whole state of the lock client, as a mathematical value.
pub struct AppView {
    /// Where the lock handshake stands.
    pub state: LockState,
    /// Initial setup is over: new outputs need a round-trip, and configured
    /// outputs start their frame loop at once.
    pub running: bool,
    /// `wl_compositor` is bound.
    pub compositor: bool,
    /// `wl_seat` is bound.
    pub seat: bool,
    /// `wl_shm` is bound.
    pub shm: bool,
    /// `ext_session_lock_manager_v1` is bound.
    pub lock_mgr: bool,
    /// A keyboard object is held.
    pub seat_kb: bool,
    /// A pointer object is held.
    pub seat_ptr: bool,
    /// The tracked outputs, in order of advertisement.
    pub surfaces: Seq<Surface>,
    /// The raw scan code that unlocks the session.
    pub unlock_key: u32,
    /// The presentation time of the first frame, origin of the animation.
    pub epoch: Option<u32>,
}

/// The state before any event: nothing bound, nothing tracked.
pub open spec fn initial(unlock_key: u32) -> AppView {
    AppView {
        state: LockState::Idle,
        running: false,
        compositor: false,
        seat: false,
        shm: false,
        lock_mgr: false,
        seat_kb: false,
        seat_ptr: false,
        surfaces: Seq::empty(),
        unlock_key,
        epoch: None,
    }
}

/// The invariant of the client's state: the output entries are well formed.
pub open spec fn app_wf(s: AppView) -> bool {
    surfaces_wf(s.surfaces)
}

/// A step that cannot fail.
pub open spec fn ok(p: (AppView, Seq<Action>)) -> (AppView, Result<Seq<Action>, LockError>) {
    (p.0, Ok(p.1))
}

/// A global is advertised: bind each needed singleton once, track each output
/// once; a new output after setup asks for a round-trip.
pub open spec fn step_global(s: AppView, name: u32, interface: Interface, version: u32) -> (AppView, Seq<Action>) {
    let bind = seq![Action::Bind { name, interface, version }];
    match interface {
        Interface::Compositor => if s.compositor { (s, seq![]) } else { (AppView { compositor: true, ..s }, bind) },
        Interface::Seat => if s.seat { (s, seq![]) } else { (AppView { seat: true, ..s }, bind) },
        Interface::Shm => if s.shm { (s, seq![]) } else { (AppView { shm: true, ..s }, bind) },
        Interface::LockManager => if s.lock_mgr { (s, seq![]) } else { (AppView { lock_mgr: true, ..s }, bind) },
        Interface::Output => if has_output(s.surfaces, name) {
            (s, seq![])
        } else {
            (
                AppView { surfaces: s.surfaces.push(fresh_surface(name)), ..s },
                if s.running { bind.push(Action::Sync) } else { bind },
            )
        },
        Interface::Other => (s, seq![]),
    }
}

/// A global is withdrawn: a tracked output loses its lock surface first, then
/// its entry; any other name changes nothing.
pub open spec fn step_remove(s: AppView, name: u32) -> (AppView, Seq<Action>) {
    match position(s.surfaces, name) {
        Some(i) => (
            AppView { surfaces: s.surfaces.remove(i), ..s },
            if s.surfaces[i].lock_surface {
                seq![Action::DestroyLockSurface { output: name }, Action::RemoveOutput { output: name }]
            } else {
                seq![Action::RemoveOutput { output: name }]
            },
        ),
        None => (s, seq![]),
    }
}

/// The seat announces its capabilities: drop both input objects that are
/// held, then get one for each capability bit that is set.
pub open spec fn step_capabilities(s: AppView, caps: u32) -> (AppView, Seq<Action>) {
    let kb = caps & CAP_KEYBOARD != 0;
    let ptr = caps & CAP_POINTER != 0;
    (
        AppView { seat_kb: kb, seat_ptr: ptr, ..s },
        (if s.seat_kb { seq![Action::ReleaseKeyboard] } else { seq![] })
            + (if s.seat_ptr { seq![Action::ReleasePointer] } else { seq![] })
            + (if kb { seq![Action::GetKeyboard] } else { seq![] })
            + (if ptr { seq![Action::GetPointer] } else { seq![] }),
    )
}

/// A key event: the unlock code while locked finishes the session; anything
/// else is ignored.
pub open spec fn step_key(s: AppView, key: u32) -> (AppView, Seq<Action>) {
    if s.state == LockState::Locked && key == s.unlock_key {
        (AppView { state: LockState::Finished, ..s }, seq![Action::UnlockAndDestroy])
    } else {
        (s, seq![])
    }
}

/// The compositor confirms the lock: legal only while it is requested.
pub open spec fn step_locked(s: AppView) -> (AppView, Result<Seq<Action>, LockError>) {
    if s.state == LockState::Requested {
        (AppView { state: LockState::Locked, ..s }, Ok(seq![]))
    } else {
        (s, Err(LockError::UnexpectedLocked))
    }
}

/// The compositor ends the lock on its own: the session aborts.
pub open spec fn step_finished(s: AppView) -> (AppView, Result<Seq<Action>, LockError>) {
    match s.state {
        LockState::Requested => (AppView { state: LockState::Aborted, ..s }, Err(LockError::LockRefused)),
        LockState::Locked => (AppView { state: LockState::Aborted, ..s }, Err(LockError::LockRevoked)),
        _ => (s, Err(LockError::UnexpectedFinished)),
    }
}

/// The requests that size `e`'s renderer to `size`: create it, resize it, or
/// nothing when it already has that size.
pub open spec fn sizing(e: Surface, size: Size) -> Seq<Action> {
    match e.renderer {
        None => seq![Action::CreateRenderer { output: e.name, width: size.width, height: size.height }],
        Some(old) => if old == size {
            seq![]
        } else {
            seq![Action::ResizeRenderer { output: e.name, width: size.width, height: size.height }]
        },
    }
}

/// A configure on `output`'s lock surface: acknowledge it, size the renderer,
/// commit; after setup, a surface without a frame loop starts one.
pub open spec fn step_configure(s: AppView, output: u32, serial: u32, width: u32, height: u32) -> (AppView, Result<Seq<Action>, LockError>) {
    let size = Size { width, height };
    match position(s.surfaces, output) {
        Some(i) => {
            let e = s.surfaces[i];
            if e.lock_surface {
                let start = s.running && !e.pacing;
                let e2 = Surface { renderer: Some(size), pacing: e.pacing || s.running, ..e };
                (
                    AppView { surfaces: s.surfaces.update(i, e2), ..s },
                    Ok(seq![Action::AckConfigure { output, serial }] + sizing(e, size)
                        + seq![Action::Commit { output }]
                        + (if start {
                            seq![Action::Render { output, elapsed_ms: 0 }, Action::RequestFrame { output }]
                        } else {
                            seq![]
                        })),
                )
            } else {
                (s, Err(LockError::UnknownLockSurface { output }))
            }
        },
        None => (s, Err(LockError::UnknownLockSurface { output })),
    }
}

/// A frame of `output` was presented: draw the next one and ask to be told
/// when it is presented. The first presentation time is the animation's origin.
pub open spec fn step_frame(s: AppView, output: u32, time: u32) -> (AppView, Seq<Action>) {
    let epoch = match s.epoch {
        Some(t) => t,
        None => time,
    };
    match position(s.surfaces, output) {
        Some(i) => if s.surfaces[i].pacing {
            (
                AppView { epoch: Some(epoch), ..s },
                seq![Action::Render { output, elapsed_ms: time.wrapping_sub(epoch) }, Action::RequestFrame { output }],
            )
        } else {
            (s, seq![])
        },
        None => (s, seq![]),
    }
}

/// The first needed global that is not bound, in the order compositor, seat,
/// shared memory, lock manager.
pub open spec fn missing_global(s: AppView) -> Option<Interface> {
    if !s.compositor {
        Some(Interface::Compositor)
    } else if !s.seat {
        Some(Interface::Seat)
    } else if !s.shm {
        Some(Interface::Shm)
    } else if !s.lock_mgr {
        Some(Interface::LockManager)
    } else {
        None
    }
}

/// The client asks to lock: only once, and only with all four needed globals.
pub open spec fn step_request_lock(s: AppView) -> (AppView, Result<Seq<Action>, LockError>) {
    if s.state != LockState::Idle {
        (s, Err(LockError::AlreadyRequested))
    } else {
        match missing_global(s) {
            Some(interface) => (s, Err(LockError::MissingGlobal { interface })),
            None => (AppView { state: LockState::Requested, ..s }, Ok(seq![Action::Lock])),
        }
    }
}

/// The lock-surface requests for the entries that have no lock surface, in order.
pub open spec fn lock_surface_requests(s: Seq<Surface>) -> Seq<Action>
    decreases s.len(),
{
    if s.len() == 0 {
        seq![]
    } else {
        let prev = lock_surface_requests(s.drop_last());
        if s.last().lock_surface {
            prev
        } else {
            prev.push(Action::CreateLockSurface { output: s.last().name })
        }
    }
}

/// The entry once it has a lock surface.
pub open spec fn with_lock_surface(e: Surface) -> Surface {
    Surface { lock_surface: true, ..e }
}

/// While a lock is requested or held, every output without a lock surface gets one.
pub open spec fn step_create_surfaces(s: AppView) -> (AppView, Result<Seq<Action>, LockError>) {
    if s.state == LockState::Requested || s.state == LockState::Locked {
        (
            AppView { surfaces: s.surfaces.map_values(|e: Surface| with_lock_surface(e)), ..s },
            Ok(lock_surface_requests(s.surfaces)),
        )
    } else {
        (s, Err(LockError::NotLocking))
    }
}

/// The first render and frame request of each entry that has a renderer and
/// no frame loop yet, in order.
pub open spec fn frame_kickoffs(s: Seq<Surface>) -> Seq<Action>
    decreases s.len(),
{
    if s.len() == 0 {
        seq![]
    } else {
        let prev = frame_kickoffs(s.drop_last());
        let e = s.last();
        if e.renderer.is_some() && !e.pacing {
            prev + seq![Action::Render { output: e.name, elapsed_ms: 0 }, Action::RequestFrame { output: e.name }]
        } else {
            prev
        }
    }
}

/// The entry once its frame loop runs, if it has a renderer.
pub open spec fn with_pacing(e: Surface) -> Surface {
    Surface { pacing: e.pacing || e.renderer.is_some(), ..e }
}

/// Setup is over: every configured output starts its frame loop.
pub open spec fn step_start_rendering(s: AppView) -> (AppView, Seq<Action>) {
    (
        AppView { running: true, surfaces: s.surfaces.map_values(|e: Surface| with_pacing(e)), ..s },
        frame_kickoffs(s.surfaces),
    )
}

/// What one input does: the next state, and the requests to issue or the
/// fatal error.
pub open spec fn step(s: AppView, e: Event) -> (AppView, Result<Seq<Action>, LockError>) {
    match e {
        Event::Global { name, interface, version } => ok(step_global(s, name, interface, version)),
        Event::GlobalRemove { name } => ok(step_remove(s, name)),
        Event::Capabilities { caps } => ok(step_capabilities(s, caps)),
        Event::PointerEnter { serial } => (s, Ok(seq![Action::HideCursor { serial }])),
        Event::Keymap { format } => if format == KEYMAP_XKB_V1 {
            (s, Ok(seq![]))
        } else {
            (s, Err(LockError::UnknownKeymap { format }))
        },
        Event::Key { key } => ok(step_key(s, key)),
        Event::Locked => step_locked(s),
        Event::Finished => step_finished(s),
        Event::Configure { output, serial, width, height } => step_configure(s, output, serial, width, height),
        Event::FrameDone { output, time } => ok(step_frame(s, output, time)),
        Event::RequestLock => step_request_lock(s),
        Event::CreateSurfaces => step_create_surfaces(s),
        Event::StartRendering => ok(step_start_rendering(s)),
    }
}

/// The state after the inputs `events`, one after the other, from `s`.
pub open spec fn run(s: AppView, events: Seq<Event>) -> AppView
    decreases events.len(),
{
    if events.len() == 0 {
        s
    } else {
        step(run(s, events.drop_last()), events.last()).0
    }
}

} // verus!
