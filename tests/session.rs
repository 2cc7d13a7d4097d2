use lockscreen::{classify_interface, Action, AppData, Event, Interface, LockError, LockState, Size};
use lockscreen::renderer::format_error;

const UNLOCK: u32 = 1;

fn global(app: &mut AppData, name: u32, interface: Interface) -> Vec<Action> {
    app.handle(Event::Global { name, interface, version: 1 }).unwrap()
}

/// Compositor, seat, shm, two outputs and the lock manager, as a compositor
/// advertises them before the lock is requested.
fn advertised() -> AppData {
    let mut app = AppData::new(UNLOCK);
    global(&mut app, 1, Interface::Compositor);
    global(&mut app, 2, Interface::Seat);
    global(&mut app, 3, Interface::Shm);
    global(&mut app, 10, Interface::Output);
    global(&mut app, 11, Interface::Output);
    global(&mut app, 20, Interface::LockManager);
    app
}

/// Both outputs locked, configured and rendering.
fn locked_and_rendering() -> AppData {
    let mut app = advertised();
    app.handle(Event::RequestLock).unwrap();
    app.handle(Event::Locked).unwrap();
    app.handle(Event::CreateSurfaces).unwrap();
    app.handle(Event::Configure { output: 10, serial: 5, width: 1920, height: 1080 }).unwrap();
    app.handle(Event::Configure { output: 11, serial: 6, width: 1280, height: 1024 }).unwrap();
    app.handle(Event::StartRendering).unwrap();
    app
}

#[test]
fn two_outputs_lock_and_configure() {
    let mut app = advertised();
    assert_eq!(app.surfaces().len(), 2);
    assert_eq!(app.surfaces()[0].name, 10);
    assert_eq!(app.surfaces()[1].name, 11);
    assert!(app.surfaces().iter().all(|s| !s.lock_surface && s.renderer.is_none()));

    assert_eq!(app.handle(Event::RequestLock), Ok(vec![Action::Lock]));
    assert_eq!(app.state(), LockState::Requested);
    assert_eq!(app.handle(Event::RequestLock), Err(LockError::AlreadyRequested));

    assert_eq!(app.handle(Event::Locked), Ok(vec![]));
    assert_eq!(app.state(), LockState::Locked);

    assert_eq!(
        app.handle(Event::CreateSurfaces),
        Ok(vec![Action::CreateLockSurface { output: 10 }, Action::CreateLockSurface { output: 11 }])
    );
    assert_eq!(
        app.handle(Event::Configure { output: 10, serial: 5, width: 1920, height: 1080 }),
        Ok(vec![
            Action::AckConfigure { output: 10, serial: 5 },
            Action::CreateRenderer { output: 10, width: 1920, height: 1080 },
            Action::Commit { output: 10 },
        ])
    );
    assert_eq!(
        app.handle(Event::Configure { output: 11, serial: 6, width: 1280, height: 1024 }),
        Ok(vec![
            Action::AckConfigure { output: 11, serial: 6 },
            Action::CreateRenderer { output: 11, width: 1280, height: 1024 },
            Action::Commit { output: 11 },
        ])
    );
    assert_eq!(app.surfaces()[0].renderer, Some(Size { width: 1920, height: 1080 }));
    assert_eq!(app.surfaces()[1].renderer, Some(Size { width: 1280, height: 1024 }));

    assert_eq!(
        app.handle(Event::StartRendering),
        Ok(vec![
            Action::Render { output: 10, elapsed_ms: 0 },
            Action::RequestFrame { output: 10 },
            Action::Render { output: 11, elapsed_ms: 0 },
            Action::RequestFrame { output: 11 },
        ])
    );
    assert!(app.is_running());
}

#[test]
fn output_withdrawn_while_locked() {
    let mut app = locked_and_rendering();
    assert_eq!(
        app.handle(Event::GlobalRemove { name: 10 }),
        Ok(vec![Action::DestroyLockSurface { output: 10 }, Action::RemoveOutput { output: 10 }])
    );
    assert_eq!(app.surfaces().len(), 1);
    assert_eq!(app.surfaces()[0].name, 11);
    // a second withdrawal of the same name destroys nothing
    assert_eq!(app.handle(Event::GlobalRemove { name: 10 }), Ok(vec![]));
    // the remaining output keeps its frame loop; the removed one has none
    assert_eq!(
        app.handle(Event::FrameDone { output: 11, time: 500 }),
        Ok(vec![Action::Render { output: 11, elapsed_ms: 0 }, Action::RequestFrame { output: 11 }])
    );
    assert_eq!(app.handle(Event::FrameDone { output: 10, time: 516 }), Ok(vec![]));
    assert_eq!(app.state(), LockState::Locked);
}

#[test]
fn unlock_key_while_locked_finishes() {
    let mut app = locked_and_rendering();
    assert_eq!(app.handle(Event::Key { key: 30 }), Ok(vec![]));
    assert_eq!(app.state(), LockState::Locked);
    assert_eq!(app.handle(Event::Key { key: UNLOCK }), Ok(vec![Action::UnlockAndDestroy]));
    assert_eq!(app.state(), LockState::Finished);
    // once finished, the key does nothing more
    assert_eq!(app.handle(Event::Key { key: UNLOCK }), Ok(vec![]));
    assert_eq!(app.state(), LockState::Finished);
}

#[test]
fn missing_lock_manager_is_fatal_before_locking() {
    let mut app = AppData::new(UNLOCK);
    global(&mut app, 1, Interface::Compositor);
    global(&mut app, 2, Interface::Seat);
    global(&mut app, 3, Interface::Shm);
    global(&mut app, 10, Interface::Output);
    assert_eq!(
        app.handle(Event::RequestLock),
        Err(LockError::MissingGlobal { interface: Interface::LockManager })
    );
    assert_eq!(app.state(), LockState::Idle);
    assert_eq!(app.handle(Event::CreateSurfaces), Err(LockError::NotLocking));
}

#[test]
fn missing_globals_in_order() {
    let mut app = AppData::new(UNLOCK);
    assert_eq!(app.check_globals(), Err(LockError::MissingGlobal { interface: Interface::Compositor }));
    global(&mut app, 1, Interface::Compositor);
    assert_eq!(app.check_globals(), Err(LockError::MissingGlobal { interface: Interface::Seat }));
    global(&mut app, 2, Interface::Seat);
    assert_eq!(app.check_globals(), Err(LockError::MissingGlobal { interface: Interface::Shm }));
    global(&mut app, 3, Interface::Shm);
    assert_eq!(app.check_globals(), Err(LockError::MissingGlobal { interface: Interface::LockManager }));
    global(&mut app, 4, Interface::LockManager);
    assert_eq!(app.check_globals(), Ok(()));
}

#[test]
fn state_never_goes_back() {
    let mut app = advertised();
    let mut seen = vec![app.state()];
    app.handle(Event::RequestLock).unwrap();
    seen.push(app.state());
    app.handle(Event::Locked).unwrap();
    seen.push(app.state());
    assert_eq!(app.handle(Event::Finished), Err(LockError::LockRevoked));
    seen.push(app.state());
    assert_eq!(app.handle(Event::Locked), Err(LockError::UnexpectedLocked));
    seen.push(app.state());
    assert_eq!(app.handle(Event::RequestLock), Err(LockError::AlreadyRequested));
    seen.push(app.state());
    assert_eq!(app.handle(Event::Key { key: UNLOCK }), Ok(vec![]));
    seen.push(app.state());
    assert_eq!(
        seen,
        vec![
            LockState::Idle,
            LockState::Requested,
            LockState::Locked,
            LockState::Aborted,
            LockState::Aborted,
            LockState::Aborted,
            LockState::Aborted,
        ]
    );
}

#[test]
fn finished_before_locked_is_refusal() {
    let mut app = advertised();
    app.handle(Event::RequestLock).unwrap();
    assert_eq!(app.handle(Event::Finished), Err(LockError::LockRefused));
    assert_eq!(app.state(), LockState::Aborted);
}

#[test]
fn finished_while_idle_is_reported() {
    let mut app = AppData::new(UNLOCK);
    assert_eq!(app.handle(Event::Finished), Err(LockError::UnexpectedFinished));
    assert_eq!(app.state(), LockState::Idle);
    assert_eq!(app.handle(Event::Locked), Err(LockError::UnexpectedLocked));
    assert_eq!(app.state(), LockState::Idle);
}

#[test]
fn unlock_key_before_locked_has_no_effect() {
    let mut app = advertised();
    assert_eq!(app.handle(Event::Key { key: UNLOCK }), Ok(vec![]));
    assert_eq!(app.state(), LockState::Idle);
    app.handle(Event::RequestLock).unwrap();
    assert_eq!(app.handle(Event::Key { key: UNLOCK }), Ok(vec![]));
    assert_eq!(app.state(), LockState::Requested);
}

#[test]
fn configured_size_follows_each_configure() {
    let mut app = locked_and_rendering();
    assert_eq!(
        app.handle(Event::Configure { output: 10, serial: 7, width: 2560, height: 1440 }),
        Ok(vec![
            Action::AckConfigure { output: 10, serial: 7 },
            Action::ResizeRenderer { output: 10, width: 2560, height: 1440 },
            Action::Commit { output: 10 },
        ])
    );
    assert_eq!(app.surfaces()[0].renderer, Some(Size { width: 2560, height: 1440 }));
    assert_eq!(app.surfaces()[1].renderer, Some(Size { width: 1280, height: 1024 }));
}

#[test]
fn repeated_configure_only_acknowledges() {
    let mut app = locked_and_rendering();
    let cfg = Event::Configure { output: 11, serial: 9, width: 800, height: 600 };
    app.handle(cfg).unwrap();
    let before: Vec<_> = app.surfaces().clone();
    assert_eq!(
        app.handle(cfg),
        Ok(vec![Action::AckConfigure { output: 11, serial: 9 }, Action::Commit { output: 11 }])
    );
    assert_eq!(app.surfaces(), &before);
}

#[test]
fn configure_without_lock_surface_is_fatal() {
    let mut app = advertised();
    assert_eq!(
        app.handle(Event::Configure { output: 10, serial: 1, width: 10, height: 10 }),
        Err(LockError::UnknownLockSurface { output: 10 })
    );
    assert_eq!(
        app.handle(Event::Configure { output: 99, serial: 1, width: 10, height: 10 }),
        Err(LockError::UnknownLockSurface { output: 99 })
    );
}

#[test]
fn withdrawn_output_without_lock_surface() {
    let mut app = advertised();
    assert_eq!(app.handle(Event::GlobalRemove { name: 11 }), Ok(vec![Action::RemoveOutput { output: 11 }]));
    assert_eq!(app.surfaces().len(), 1);
    assert_eq!(app.handle(Event::GlobalRemove { name: 3 }), Ok(vec![]));
    assert_eq!(app.surfaces().len(), 1);
}

#[test]
fn hotplugged_output_after_setup() {
    let mut app = locked_and_rendering();
    assert_eq!(
        app.handle(Event::Global { name: 12, interface: Interface::Output, version: 4 }),
        Ok(vec![Action::Bind { name: 12, interface: Interface::Output, version: 4 }, Action::Sync])
    );
    assert_eq!(app.handle(Event::CreateSurfaces), Ok(vec![Action::CreateLockSurface { output: 12 }]));
    assert_eq!(
        app.handle(Event::Configure { output: 12, serial: 3, width: 1024, height: 768 }),
        Ok(vec![
            Action::AckConfigure { output: 12, serial: 3 },
            Action::CreateRenderer { output: 12, width: 1024, height: 768 },
            Action::Commit { output: 12 },
            Action::Render { output: 12, elapsed_ms: 0 },
            Action::RequestFrame { output: 12 },
        ])
    );
}

#[test]
fn singletons_bound_once() {
    let mut app = AppData::new(UNLOCK);
    assert_eq!(
        global(&mut app, 1, Interface::Compositor),
        vec![Action::Bind { name: 1, interface: Interface::Compositor, version: 1 }]
    );
    assert_eq!(global(&mut app, 7, Interface::Compositor), vec![]);
    assert_eq!(global(&mut app, 8, Interface::Other), vec![]);
    global(&mut app, 10, Interface::Output);
    assert_eq!(global(&mut app, 10, Interface::Output), vec![]);
    assert_eq!(app.surfaces().len(), 1);
}

#[test]
fn capabilities_drop_then_recreate() {
    let mut app = AppData::new(UNLOCK);
    assert_eq!(
        app.handle(Event::Capabilities { caps: 3 }),
        Ok(vec![Action::GetKeyboard, Action::GetPointer])
    );
    assert_eq!(
        app.handle(Event::Capabilities { caps: 2 }),
        Ok(vec![Action::ReleaseKeyboard, Action::ReleasePointer, Action::GetKeyboard])
    );
    assert_eq!(app.handle(Event::Capabilities { caps: 0 }), Ok(vec![Action::ReleaseKeyboard]));
    assert_eq!(app.handle(Event::Capabilities { caps: 4 }), Ok(vec![]));
}

#[test]
fn pointer_enter_hides_cursor() {
    let mut app = AppData::new(UNLOCK);
    assert_eq!(app.handle(Event::PointerEnter { serial: 42 }), Ok(vec![Action::HideCursor { serial: 42 }]));
}

#[test]
fn keymap_format_checked() {
    let mut app = AppData::new(UNLOCK);
    assert_eq!(app.handle(Event::Keymap { format: 1 }), Ok(vec![]));
    assert_eq!(app.handle(Event::Keymap { format: 0 }), Err(LockError::UnknownKeymap { format: 0 }));
}

#[test]
fn frame_times_from_first_presentation() {
    let mut app = locked_and_rendering();
    assert_eq!(
        app.handle(Event::FrameDone { output: 10, time: 1000 }),
        Ok(vec![Action::Render { output: 10, elapsed_ms: 0 }, Action::RequestFrame { output: 10 }])
    );
    assert_eq!(
        app.handle(Event::FrameDone { output: 11, time: 1016 }),
        Ok(vec![Action::Render { output: 11, elapsed_ms: 16 }, Action::RequestFrame { output: 11 }])
    );
}

#[test]
fn frame_time_wraps() {
    let mut app = locked_and_rendering();
    app.handle(Event::FrameDone { output: 10, time: u32::MAX - 5 }).unwrap();
    assert_eq!(
        app.handle(Event::FrameDone { output: 10, time: 10 }),
        Ok(vec![Action::Render { output: 10, elapsed_ms: 16 }, Action::RequestFrame { output: 10 }])
    );
}

#[test]
fn frame_before_setup_is_ignored() {
    let mut app = advertised();
    app.handle(Event::RequestLock).unwrap();
    app.handle(Event::CreateSurfaces).unwrap();
    app.handle(Event::Configure { output: 10, serial: 1, width: 640, height: 480 }).unwrap();
    assert_eq!(app.handle(Event::FrameDone { output: 10, time: 5 }), Ok(vec![]));
}

#[test]
fn interface_names() {
    assert_eq!(classify_interface("wl_compositor"), Interface::Compositor);
    assert_eq!(classify_interface("wl_seat"), Interface::Seat);
    assert_eq!(classify_interface("wl_shm"), Interface::Shm);
    assert_eq!(classify_interface("wl_output"), Interface::Output);
    assert_eq!(classify_interface("ext_session_lock_manager_v1"), Interface::LockManager);
    assert_eq!(classify_interface("wl_subcompositor"), Interface::Other);
    assert_eq!(classify_interface(""), Interface::Other);
    assert_eq!(classify_interface("wl_seat2"), Interface::Other);
}

#[test]
fn gl_error_descriptions() {
    assert_eq!(format_error(0), "No error");
    assert_eq!(format_error(0x0500), "Invalid enum");
    assert_eq!(format_error(0x0501), "Invalid value");
    assert_eq!(format_error(0x0502), "Invalid operation");
    assert_eq!(format_error(0x0503), "Stack overflow");
    assert_eq!(format_error(0x0504), "Stack underflow");
    assert_eq!(format_error(0x0505), "Out of memory");
    assert_eq!(format_error(0x0506), "Invalid framebuffer operation");
    assert_eq!(format_error(0x0507), "Unknown error");
}
