use vstd::prelude::*;
use crate::model::{app_wf, frame_kickoffs, lock_surface_requests, with_lock_surface, with_pacing, missing_global, initial, step, step_capabilities, step_configure, step_create_surfaces, step_finished, step_frame, step_global, step_key, step_locked, step_remove, step_request_lock, step_start_rendering, AppView};
use crate::output::{find_output, lemma_map_wf, lemma_position, lemma_push_fresh_wf, lemma_remove_wf, lemma_update_wf, Size, Surface};
use crate::protocol::{outcome_view, Action, Event, Interface, LockError, CAP_KEYBOARD, CAP_POINTER, KEYMAP_XKB_V1};
use crate::session::LockState;

verus! {

/// The state of the lock client: the bound globals, the seat's input objects,
/// the tracked outputs and the lock handshake.
///
/// Each `on_*` method takes one input and returns the requests that the
/// client must issue for it, in order, or the fatal error that ends it.
pub struct AppData {
    state: LockState,
    running: bool,
    compositor: bool,
    seat: bool,
    shm: bool,
    lock_mgr: bool,
    seat_kb: bool,
    seat_ptr: bool,
    surfaces: Vec<Surface>,
    unlock_key: u32,
    epoch: Option<u32>,
}

impl View for AppData {
    type V = AppView;

    closed spec fn view(&self) -> AppView {
        AppView {
            state: self.state,
            running: self.running,
            compositor: self.compositor,
            seat: self.seat,
            shm: self.shm,
            lock_mgr: self.lock_mgr,
            seat_kb: self.seat_kb,
            seat_ptr: self.seat_ptr,
            surfaces: self.surfaces@,
            unlock_key: self.unlock_key,
            epoch: self.epoch,
        }
    }
}

impl AppData {
    /// The state is well formed.
    pub open spec fn wf(&self) -> bool {
        app_wf(self@)
    }

    /// A client that nothing has happened to yet, unlocked by `unlock_key`.
    pub fn new(unlock_key: u32) -> (r: AppData)
        ensures
            r@ == initial(unlock_key),
            r.wf(),
    {
        let r = AppData {
            state: LockState::Idle,
            running: false,
            compositor: false,
            seat: false,
            shm: false,
            lock_mgr: false,
            seat_kb: false,
            seat_ptr: false,
            surfaces: Vec::new(),
            unlock_key,
            epoch: None,
        };
        assert(r@.surfaces =~= Seq::<Surface>::empty());
        r
    }

    /// Handles the advertisement of global `name`.
    pub fn on_global(&mut self, name: u32, interface: Interface, version: u32) -> (r: Vec<Action>)
        requires
            old(self).wf(),
        ensures
            final(self).wf(),
            (final(self)@, r@) == step_global(old(self)@, name, interface, version),
    {
        let mut r: Vec<Action> = Vec::new();
        match interface {
            Interface::Compositor => {
                if !self.compositor {
                    self.compositor = true;
                    r.push(Action::Bind { name, interface, version });
                }
            },
            Interface::Seat => {
                if !self.seat {
                    self.seat = true;
                    r.push(Action::Bind { name, interface, version });
                }
            },
            Interface::Shm => {
                if !self.shm {
                    self.shm = true;
                    r.push(Action::Bind { name, interface, version });
                }
            },
            Interface::LockManager => {
                if !self.lock_mgr {
                    self.lock_mgr = true;
                    r.push(Action::Bind { name, interface, version });
                }
            },
            Interface::Output => {
                let found = find_output(&self.surfaces, name);
                proof {
                    lemma_position(self.surfaces@, name);
                }
                if found.is_none() {
                    let ghost before = self.surfaces@;
                    self.surfaces.push(Surface { name, lock_surface: false, renderer: None, pacing: false });
                    proof {
                        lemma_push_fresh_wf(before, name);
                    }
                    r.push(Action::Bind { name, interface, version });
                    if self.running {
                        r.push(Action::Sync);
                    }
                }
            },
            Interface::Other => {},
        }
        assert(r@ =~= step_global(old(self)@, name, interface, version).1);
        r
    }

    /// Handles the withdrawal of global `name`.
    pub fn on_global_remove(&mut self, name: u32) -> (r: Vec<Action>)
        requires
            old(self).wf(),
        ensures
            final(self).wf(),
            (final(self)@, r@) == step_remove(old(self)@, name),
    {
        let mut r: Vec<Action> = Vec::new();
        proof {
            lemma_position(self.surfaces@, name);
        }
        match find_output(&self.surfaces, name) {
            Some(i) => {
                if self.surfaces[i].lock_surface {
                    r.push(Action::DestroyLockSurface { output: name });
                }
                let ghost before = self.surfaces@;
                self.surfaces.remove(i);
                proof {
                    lemma_remove_wf(before, i as int);
                }
                r.push(Action::RemoveOutput { output: name });
            },
            None => {},
        }
        assert(r@ =~= step_remove(old(self)@, name).1);
        r
    }

    /// Handles the seat's announcement of its capability bits `caps`.
    pub fn on_capabilities(&mut self, caps: u32) -> (r: Vec<Action>)
        requires
            old(self).wf(),
        ensures
            final(self).wf(),
            (final(self)@, r@) == step_capabilities(old(self)@, caps),
    {
        let mut r: Vec<Action> = Vec::new();
        if self.seat_kb {
            self.seat_kb = false;
            r.push(Action::ReleaseKeyboard);
        }
        if self.seat_ptr {
            self.seat_ptr = false;
            r.push(Action::ReleasePointer);
        }
        if caps & CAP_KEYBOARD != 0 {
            self.seat_kb = true;
            r.push(Action::GetKeyboard);
        }
        if caps & CAP_POINTER != 0 {
            self.seat_ptr = true;
            r.push(Action::GetPointer);
        }
        assert(r@ =~= step_capabilities(old(self)@, caps).1);
        r
    }

    /// Handles the pointer entering a surface with the enter `serial`: the
    /// cursor is hidden.
    pub fn on_pointer_enter(&self, serial: u32) -> (r: Vec<Action>)
        ensures
            r@ == seq![Action::HideCursor { serial }],
    {
        let mut r: Vec<Action> = Vec::new();
        r.push(Action::HideCursor { serial });
        assert(r@ =~= seq![Action::HideCursor { serial }]);
        r
    }

    /// Checks the keymap `format` announced by the keyboard.
    pub fn on_keymap(&self, format: u32) -> (r: Result<(), LockError>)
        ensures
            r == (if format == KEYMAP_XKB_V1 { Ok(()) } else { Err(LockError::UnknownKeymap { format }) }),
    {
        if format == KEYMAP_XKB_V1 {
            Ok(())
        } else {
            Err(LockError::UnknownKeymap { format })
        }
    }

    /// Handles a key event with the raw scan code `key`.
    pub fn on_key(&mut self, key: u32) -> (r: Vec<Action>)
        requires
            old(self).wf(),
        ensures
            final(self).wf(),
            (final(self)@, r@) == step_key(old(self)@, key),
    {
        let mut r: Vec<Action> = Vec::new();
        if self.state == LockState::Locked && key == self.unlock_key {
            self.state = LockState::Finished;
            r.push(Action::UnlockAndDestroy);
        }
        assert(r@ =~= step_key(old(self)@, key).1);
        r
    }

    /// Handles the compositor's confirmation of the lock.
    pub fn on_locked(&mut self) -> (r: Result<(), LockError>)
        requires
            old(self).wf(),
        ensures
            final(self).wf(),
            final(self)@ == step_locked(old(self)@).0,
            r == (if old(self)@.state == LockState::Requested { Ok(()) } else { Err(LockError::UnexpectedLocked) }),
    {
        if self.state == LockState::Requested {
            self.state = LockState::Locked;
            Ok(())
        } else {
            Err(LockError::UnexpectedLocked)
        }
    }

    /// Handles the compositor ending the lock on its own. The lock is gone, so
    /// the result is always the error that the client exits with.
    pub fn on_finished(&mut self) -> (r: LockError)
        requires
            old(self).wf(),
        ensures
            final(self).wf(),
            (final(self)@, Err::<Seq<Action>, LockError>(r)) == step_finished(old(self)@),
    {
        match self.state {
            LockState::Requested => {
                self.state = LockState::Aborted;
                LockError::LockRefused
            },
            LockState::Locked => {
                self.state = LockState::Aborted;
                LockError::LockRevoked
            },
            _ => LockError::UnexpectedFinished,
        }
    }

    /// Checks that each needed global is bound.
    pub fn check_globals(&self) -> (r: Result<(), LockError>)
        ensures
            r == (match missing_global(self@) {
                Some(interface) => Err(LockError::MissingGlobal { interface }),
                None => Ok(()),
            }),
    {
        if !self.compositor {
            Err(LockError::MissingGlobal { interface: Interface::Compositor })
        } else if !self.seat {
            Err(LockError::MissingGlobal { interface: Interface::Seat })
        } else if !self.shm {
            Err(LockError::MissingGlobal { interface: Interface::Shm })
        } else if !self.lock_mgr {
            Err(LockError::MissingGlobal { interface: Interface::LockManager })
        } else {
            Ok(())
        }
    }

    /// Asks to lock the session.
    pub fn request_lock(&mut self) -> (r: Result<Vec<Action>, LockError>)
        requires
            old(self).wf(),
        ensures
            final(self).wf(),
            (final(self)@, outcome_view(r)) == step_request_lock(old(self)@),
    {
        if self.state != LockState::Idle {
            return Err(LockError::AlreadyRequested);
        }
        match self.check_globals() {
            Err(e) => Err(e),
            Ok(()) => {
                self.state = LockState::Requested;
                let mut r: Vec<Action> = Vec::new();
                r.push(Action::Lock);
                assert(r@ =~= seq![Action::Lock]);
                Ok(r)
            },
        }
    }

    /// Handles a configure of `output`'s lock surface to `width` by `height`.
    pub fn on_configure(&mut self, output: u32, serial: u32, width: u32, height: u32) -> (r: Result<Vec<Action>, LockError>)
        requires
            old(self).wf(),
        ensures
            final(self).wf(),
            (final(self)@, outcome_view(r)) == step_configure(old(self)@, output, serial, width, height),
    {
        proof {
            lemma_position(self.surfaces@, output);
        }
        let i = match find_output(&self.surfaces, output) {
            Some(i) => i,
            None => return Err(LockError::UnknownLockSurface { output }),
        };
        let e = self.surfaces[i];
        if !e.lock_surface {
            return Err(LockError::UnknownLockSurface { output });
        }
        let mut r: Vec<Action> = Vec::new();
        r.push(Action::AckConfigure { output, serial });
        match e.renderer {
            None => r.push(Action::CreateRenderer { output, width, height }),
            Some(old) => {
                if old.width != width || old.height != height {
                    r.push(Action::ResizeRenderer { output, width, height });
                }
            },
        }
        r.push(Action::Commit { output });
        if self.running && !e.pacing {
            r.push(Action::Render { output, elapsed_ms: 0 });
            r.push(Action::RequestFrame { output });
        }
        let updated = Surface {
            name: e.name,
            lock_surface: e.lock_surface,
            renderer: Some(Size { width, height }),
            pacing: e.pacing || self.running,
        };
        let ghost before = self.surfaces@;
        self.surfaces.set(i, updated);
        proof {
            lemma_update_wf(before, i as int, updated);
            assert(updated == (Surface { renderer: Some(Size { width, height }), pacing: e.pacing || old(self)@.running, ..e }));
        }
        assert(r@ =~= step_configure(old(self)@, output, serial, width, height).1->Ok_0);
        Ok(r)
    }

    /// Handles the presentation of `output`'s last frame at `time` (ms).
    pub fn on_frame_done(&mut self, output: u32, time: u32) -> (r: Vec<Action>)
        requires
            old(self).wf(),
        ensures
            final(self).wf(),
            (final(self)@, r@) == step_frame(old(self)@, output, time),
    {
        proof {
            lemma_position(self.surfaces@, output);
        }
        let mut r: Vec<Action> = Vec::new();
        if let Some(i) = find_output(&self.surfaces, output) {
            if self.surfaces[i].pacing {
                let epoch = match self.epoch {
                    Some(t) => t,
                    None => time,
                };
                self.epoch = Some(epoch);
                r.push(Action::Render { output, elapsed_ms: time.wrapping_sub(epoch) });
                r.push(Action::RequestFrame { output });
            }
        }
        assert(r@ =~= step_frame(old(self)@, output, time).1);
        r
    }

    /// Creates a lock surface for each output that has none, while a lock is
    /// requested or held.
    pub fn create_surfaces(&mut self) -> (r: Result<Vec<Action>, LockError>)
        requires
            old(self).wf(),
        ensures
            final(self).wf(),
            (final(self)@, outcome_view(r)) == step_create_surfaces(old(self)@),
    {
        if !(self.state == LockState::Requested || self.state == LockState::Locked) {
            return Err(LockError::NotLocking);
        }
        let mut surfaces: Vec<Surface> = Vec::new();
        std::mem::swap(&mut surfaces, &mut self.surfaces);
        let ghost s0 = surfaces@;
        let mut r: Vec<Action> = Vec::new();
        let mut i: usize = 0;
        while i < surfaces.len()
            invariant
                surfaces@.len() == s0.len(),
                0 <= i <= s0.len(),
                forall|k: int| 0 <= k < i ==> #[trigger] surfaces@[k] == with_lock_surface(s0[k]),
                forall|k: int| i <= k < s0.len() ==> #[trigger] surfaces@[k] == s0[k],
                r@ == lock_surface_requests(s0.take(i as int)),
            decreases s0.len() - i,
        {
            let e = surfaces[i];
            assert(s0.take(i + 1).drop_last() =~= s0.take(i as int));
            assert(s0.take(i + 1).last() == s0[i as int]);
            if !e.lock_surface {
                r.push(Action::CreateLockSurface { output: e.name });
                surfaces.set(i, Surface { lock_surface: true, ..e });
            }
            i += 1;
        }
        assert(s0.take(s0.len() as int) =~= s0);
        assert(surfaces@ =~= s0.map_values(|e: Surface| with_lock_surface(e)));
        proof {
            lemma_map_wf(s0, |e: Surface| with_lock_surface(e));
        }
        self.surfaces = surfaces;
        Ok(r)
    }

    /// Ends initial setup: from now on new outputs need a round-trip, and each
    /// configured output without a frame loop starts one.
    pub fn start_rendering(&mut self) -> (r: Vec<Action>)
        requires
            old(self).wf(),
        ensures
            final(self).wf(),
            (final(self)@, r@) == step_start_rendering(old(self)@),
    {
        let mut surfaces: Vec<Surface> = Vec::new();
        std::mem::swap(&mut surfaces, &mut self.surfaces);
        let ghost s0 = surfaces@;
        let mut r: Vec<Action> = Vec::new();
        let mut i: usize = 0;
        while i < surfaces.len()
            invariant
                surfaces@.len() == s0.len(),
                0 <= i <= s0.len(),
                forall|k: int| 0 <= k < i ==> #[trigger] surfaces@[k] == with_pacing(s0[k]),
                forall|k: int| i <= k < s0.len() ==> #[trigger] surfaces@[k] == s0[k],
                r@ == frame_kickoffs(s0.take(i as int)),
            decreases s0.len() - i,
        {
            let e = surfaces[i];
            assert(s0.take(i + 1).drop_last() =~= s0.take(i as int));
            assert(s0.take(i + 1).last() == s0[i as int]);
            if e.renderer.is_some() && !e.pacing {
                r.push(Action::Render { output: e.name, elapsed_ms: 0 });
                r.push(Action::RequestFrame { output: e.name });
                surfaces.set(i, Surface { pacing: true, ..e });
            }
            proof {
                let prev = frame_kickoffs(s0.take(i as int));
                if e.renderer.is_some() && !e.pacing {
                    assert(r@ =~= prev + seq![Action::Render { output: e.name, elapsed_ms: 0 }, Action::RequestFrame { output: e.name }]);
                }
            }
            i += 1;
        }
        assert(s0.take(s0.len() as int) =~= s0);
        assert(surfaces@ =~= s0.map_values(|e: Surface| with_pacing(e)));
        proof {
            lemma_map_wf(s0, |e: Surface| with_pacing(e));
        }
        self.surfaces = surfaces;
        self.running = true;
        r
    }

    /// Handles one input: the next state, and the requests to issue in order
    /// or the fatal error that ends the client.
    pub fn handle(&mut self, event: Event) -> (r: Result<Vec<Action>, LockError>)
        requires
            old(self).wf(),
        ensures
            final(self).wf(),
            (final(self)@, outcome_view(r)) == step(old(self)@, event),
    {
        match event {
            Event::Global { name, interface, version } => Ok(self.on_global(name, interface, version)),
            Event::GlobalRemove { name } => Ok(self.on_global_remove(name)),
            Event::Capabilities { caps } => Ok(self.on_capabilities(caps)),
            Event::PointerEnter { serial } => Ok(self.on_pointer_enter(serial)),
            Event::Keymap { format } => match self.on_keymap(format) {
                Ok(()) => {
                    let r: Vec<Action> = Vec::new();
                    assert(r@ =~= Seq::<Action>::empty());
                    Ok(r)
                },
                Err(e) => Err(e),
            },
            Event::Key { key } => Ok(self.on_key(key)),
            Event::Locked => match self.on_locked() {
                Ok(()) => {
                    let r: Vec<Action> = Vec::new();
                    assert(r@ =~= Seq::<Action>::empty());
                    Ok(r)
                },
                Err(e) => Err(e),
            },
            Event::Finished => Err(self.on_finished()),
            Event::Configure { output, serial, width, height } => self.on_configure(output, serial, width, height),
            Event::FrameDone { output, time } => Ok(self.on_frame_done(output, time)),
            Event::RequestLock => self.request_lock(),
            Event::CreateSurfaces => self.create_surfaces(),
            Event::StartRendering => Ok(self.start_rendering()),
        }
    }

    /// Where the lock handshake stands.
    pub fn state(&self) -> (r: LockState)
        ensures
            r == self@.state,
    {
        self.state
    }

    /// Initial setup is over.
    pub fn is_running(&self) -> (r: bool)
        ensures
            r == self@.running,
    {
        self.running
    }

    /// The tracked outputs, in order of advertisement.
    pub fn surfaces(&self) -> (r: &Vec<Surface>)
        ensures
            r@ == self@.surfaces,
    {
        &self.surfaces
    }
}

} // verus!
