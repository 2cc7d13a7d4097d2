use vstd::prelude::*;
use crate::model::{
    app_wf, frame_kickoffs, initial, lock_surface_requests, run, step, step_configure, step_remove, with_lock_surface, with_pacing, AppView,
};
use crate::output::{
    has_output, is_first_index, names_unique, lemma_map_wf, lemma_position, lemma_push_fresh_wf, lemma_remove_wf, lemma_update_wf,
    position, surface_wf, Size, Surface,
};
use crate::protocol::{Action, Event, Interface};
use crate::session::{advances, LockState};

verus! {

/// No input moves the handshake backwards.
pub proof fn lemma_step_advances(s: AppView, e: Event)
    ensures
        advances(s.state, step(s, e).0.state),
{
}

/// Along any sequence of inputs the handshake state never goes back: the
/// state after the first `j` inputs is at least as far as the state after
/// the first `i`, for `i <= j`, and a finished or aborted session stays so.
pub proof fn lemma_state_monotone(s: AppView, events: Seq<Event>, i: int, j: int)
    requires
        0 <= i <= j <= events.len(),
    ensures
        advances(run(s, events.take(i)).state, run(s, events.take(j)).state),
    decreases j - i,
{
    if i < j {
        lemma_state_monotone(s, events, i, j - 1);
        let prefix = events.take(j);
        assert(prefix.drop_last() =~= events.take(j - 1));
        lemma_step_advances(run(s, prefix.drop_last()), prefix.last());
    }
}

/// Only the unlock key, pressed while the session is locked, finishes the
/// session; the unlock key while the session is not locked changes nothing.
pub proof fn lemma_unlock_authorized(s: AppView, e: Event)
    ensures
        step(s, e).0.state == LockState::Finished && s.state != LockState::Finished ==> {
            &&& s.state == LockState::Locked
            &&& e == (Event::Key { key: s.unlock_key })
        },
        s.state != LockState::Locked && e == (Event::Key { key: s.unlock_key }) ==> step(s, e) == (
            s,
            Ok::<Seq<Action>, crate::protocol::LockError>(seq![]),
        ),
{
}

/// Entries keep their names through `update`, so the first index of a name
/// stays where it was.
proof fn lemma_position_update(s: Seq<Surface>, i: int, e: Surface, name: u32)
    requires
        0 <= i < s.len(),
        e.name == s[i].name,
    ensures
        position(s.update(i, e), name) == position(s, name),
{
    let t = s.update(i, e);
    lemma_position(s, name);
    lemma_position(t, name);
    assert forall|k: int| 0 <= k < s.len() implies #[trigger] t[k].name == s[k].name by {}
    if let Some(p) = position(s, name) {
        assert(t[p].name == name);
        let q = position(t, name)->Some_0;
        assert(is_first_index(s, name, q));
    }
}

/// Configuring a lock surface twice in a row with the same serial and size
/// changes nothing the second time: the state stays as it is and the only
/// requests are the acknowledgement of the serial and a commit.
pub proof fn lemma_configure_idempotent(s: AppView, output: u32, serial: u32, width: u32, height: u32)
    requires
        app_wf(s),
        step_configure(s, output, serial, width, height).1 is Ok,
    ensures
        ({
            let s1 = step_configure(s, output, serial, width, height).0;
            step_configure(s1, output, serial, width, height) == (
                s1,
                Ok::<Seq<Action>, crate::protocol::LockError>(
                    seq![Action::AckConfigure { output, serial }, Action::Commit { output }],
                ),
            )
        }),
{
    lemma_position(s.surfaces, output);
    let i = position(s.surfaces, output)->Some_0;
    let e = s.surfaces[i];
    let size = Size { width, height };
    let e2 = Surface { renderer: Some(size), pacing: e.pacing || s.running, ..e };
    let s1 = step_configure(s, output, serial, width, height).0;
    lemma_position_update(s.surfaces, i, e2, output);
    assert(s1.surfaces[i] == e2);
    let e3 = Surface { renderer: Some(size), pacing: e2.pacing || s1.running, ..e2 };
    assert(e3 == e2);
    assert(s1.surfaces.update(i, e3) =~= s1.surfaces);
    let acts = step_configure(s1, output, serial, width, height).1->Ok_0;
    assert(acts =~= seq![Action::AckConfigure { output, serial }, Action::Commit { output }]);
}


/// Every input keeps the state well formed: names stay unique, a renderer
/// exists only on a live lock surface, and only a surface with a renderer is
/// paced.
pub proof fn lemma_step_wf(s: AppView, e: Event)
    requires
        app_wf(s),
    ensures
        app_wf(step(s, e).0),
{
    match e {
        Event::Global { name, interface, version } => {
            if interface == Interface::Output && !has_output(s.surfaces, name) {
                lemma_push_fresh_wf(s.surfaces, name);
            }
        },
        Event::GlobalRemove { name } => {
            lemma_position(s.surfaces, name);
            if let Some(i) = position(s.surfaces, name) {
                lemma_remove_wf(s.surfaces, i);
            }
        },
        Event::Configure { output, serial, width, height } => {
            lemma_position(s.surfaces, output);
            if let Some(i) = position(s.surfaces, output) {
                let e = s.surfaces[i];
                if e.lock_surface {
                    let e2 = Surface { renderer: Some(Size { width, height }), pacing: e.pacing || s.running, ..e };
                    lemma_update_wf(s.surfaces, i, e2);
                }
            }
        },
        Event::CreateSurfaces => {
            lemma_map_wf(s.surfaces, |e: Surface| with_lock_surface(e));
        },
        Event::StartRendering => {
            lemma_map_wf(s.surfaces, |e: Surface| with_pacing(e));
        },
        _ => {},
    }
}

/// The size carried by the last configure of `output` among `events`, unless
/// `output` was withdrawn after it.
pub open spec fn last_configure(events: Seq<Event>, output: u32) -> Option<Size>
    decreases events.len(),
{
    if events.len() == 0 {
        None
    } else {
        match events.last() {
            Event::Configure { output: o, serial, width, height } => if o == output {
                Some(Size { width, height })
            } else {
                last_configure(events.drop_last(), output)
            },
            Event::GlobalRemove { name } => if name == output {
                None
            } else {
                last_configure(events.drop_last(), output)
            },
            _ => last_configure(events.drop_last(), output),
        }
    }
}

/// Each renderer has the size of the last configure of its output.
pub open spec fn renderers_follow(s: AppView, events: Seq<Event>) -> bool {
    forall|i: int|
        0 <= i < s.surfaces.len() && (#[trigger] s.surfaces[i]).renderer is Some ==> s.surfaces[i].renderer
            == last_configure(events, s.surfaces[i].name)
}

/// One step keeps every renderer at the size of its output's last configure.
proof fn lemma_step_renderers_follow(s: AppView, events: Seq<Event>, e: Event)
    requires
        app_wf(s),
        renderers_follow(s, events),
    ensures
        renderers_follow(step(s, e).0, events.push(e)),
{
    let t = step(s, e).0;
    let evs = events.push(e);
    assert(evs.drop_last() =~= events);
    assert(evs.last() == e);
    match e {
        Event::Global { name, interface, version } => {
            assert forall|i: int| 0 <= i < t.surfaces.len() && (#[trigger] t.surfaces[i]).renderer is Some implies t.surfaces[i].renderer
                == last_configure(evs, t.surfaces[i].name) by {
                if interface == Interface::Output && !has_output(s.surfaces, name) && i < s.surfaces.len() {
                    assert(t.surfaces[i] == s.surfaces[i]);
                }
            }
        },
        Event::GlobalRemove { name } => {
            lemma_position(s.surfaces, name);
            if let Some(p) = position(s.surfaces, name) {
                assert forall|i: int| 0 <= i < t.surfaces.len() && (#[trigger] t.surfaces[i]).renderer is Some implies t.surfaces[i].renderer
                    == last_configure(evs, t.surfaces[i].name) by {
                    let k = if i < p { i } else { i + 1 };
                    assert(t.surfaces[i] == s.surfaces[k]);
                    assert(s.surfaces[k].name != s.surfaces[p].name);
                }
            }
        },
        Event::Configure { output, serial, width, height } => {
            lemma_position(s.surfaces, output);
            assert forall|i: int| 0 <= i < t.surfaces.len() && (#[trigger] t.surfaces[i]).renderer is Some implies t.surfaces[i].renderer
                == last_configure(evs, t.surfaces[i].name) by {
                if let Some(p) = position(s.surfaces, output) {
                    if i != p {
                        assert(t.surfaces[i] == s.surfaces[i]);
                        assert(s.surfaces[i].name != s.surfaces[p].name);
                    } else if !s.surfaces[p].lock_surface {
                        assert(t.surfaces[i] == s.surfaces[i]);
                        assert(surface_wf(s.surfaces[i]));
                    }
                } else {
                    assert(t.surfaces[i] == s.surfaces[i]);
                    assert(s.surfaces[i].name != output);
                }
            }
        },
        Event::CreateSurfaces => {
            assert forall|i: int| 0 <= i < t.surfaces.len() && (#[trigger] t.surfaces[i]).renderer is Some implies t.surfaces[i].renderer
                == last_configure(evs, t.surfaces[i].name) by {
                if step(s, e).1 is Ok {
                    assert(t.surfaces[i] == with_lock_surface(s.surfaces[i]));
                }
            }
        },
        Event::StartRendering => {
            assert forall|i: int| 0 <= i < t.surfaces.len() && (#[trigger] t.surfaces[i]).renderer is Some implies t.surfaces[i].renderer
                == last_configure(evs, t.surfaces[i].name) by {
                assert(t.surfaces[i] == with_pacing(s.surfaces[i]));
            }
        },
        _ => {
            assert forall|i: int| 0 <= i < t.surfaces.len() && (#[trigger] t.surfaces[i]).renderer is Some implies t.surfaces[i].renderer
                == last_configure(evs, t.surfaces[i].name) by {
                assert(t.surfaces[i] == s.surfaces[i]);
            }
        },
    }
}

/// From the start, after any inputs, the state is well formed and every
/// output that has a renderer was configured, its renderer having the width
/// and height of that output's last configure.
pub proof fn lemma_renderer_follows_configure(unlock_key: u32, events: Seq<Event>)
    ensures
        app_wf(run(initial(unlock_key), events)),
        renderers_follow(run(initial(unlock_key), events), events),
    decreases events.len(),
{
    if events.len() > 0 {
        let prev = events.drop_last();
        lemma_renderer_follows_configure(unlock_key, prev);
        let s = run(initial(unlock_key), prev);
        lemma_step_wf(s, events.last());
        lemma_step_renderers_follow(s, prev, events.last());
        assert(prev.push(events.last()) =~= events);
    }
}


/// After the requests `acts`, the lock surface of `output` is live: among
/// them, the last creation or destruction of a lock surface for `output` is a
/// creation.
pub open spec fn lock_surface_live(acts: Seq<Action>, output: u32) -> bool
    decreases acts.len(),
{
    if acts.len() == 0 {
        false
    } else {
        match acts.last() {
            Action::CreateLockSurface { output: o } => if o == output {
                true
            } else {
                lock_surface_live(acts.drop_last(), output)
            },
            Action::DestroyLockSurface { output: o } => if o == output {
                false
            } else {
                lock_surface_live(acts.drop_last(), output)
            },
            _ => lock_surface_live(acts.drop_last(), output),
        }
    }
}

/// The requests issued along `events` from `s`, in order; a failed step
/// issues none.
pub open spec fn issued(s: AppView, events: Seq<Event>) -> Seq<Action>
    decreases events.len(),
{
    if events.len() == 0 {
        seq![]
    } else {
        let prev = events.drop_last();
        issued(s, prev) + match step(run(s, prev), events.last()).1 {
            Ok(acts) => acts,
            Err(_) => seq![],
        }
    }
}

/// After the requests `h`, the requests `a` create a lock surface only where
/// none is live, destroy only a live one, and drop an output only once its
/// lock surface is gone.
pub open spec fn lifecycle_respected(h: Seq<Action>, a: Seq<Action>) -> bool {
    forall|m: int|
        0 <= m < a.len() ==> match #[trigger] a[m] {
            Action::CreateLockSurface { output } => !lock_surface_live(h + a.take(m), output),
            Action::DestroyLockSurface { output } => lock_surface_live(h + a.take(m), output),
            Action::RemoveOutput { output } => !lock_surface_live(h + a.take(m), output),
            _ => true,
        }
}

/// Some tracked output named `n` has a live lock surface.
pub open spec fn tracks_lock_surface(q: Seq<Surface>, n: u32) -> bool {
    exists|i: int| 0 <= i < q.len() && #[trigger] q[i].name == n && q[i].lock_surface
}

/// The state's record of lock surfaces agrees with the requests issued.
pub open spec fn lock_surfaces_match(s: AppView, h: Seq<Action>) -> bool {
    forall|n: u32| #[trigger] lock_surface_live(h, n) == tracks_lock_surface(s.surfaces, n)
}

/// No request in `a` creates, destroys or drops anything.
pub open spec fn quiet(a: Seq<Action>) -> bool {
    forall|m: int|
        0 <= m < a.len() ==> !((#[trigger] a[m]) is CreateLockSurface || a[m] is DestroyLockSurface
            || a[m] is RemoveOutput)
}

/// What one more request does to the liveness of `n`'s lock surface.
proof fn lemma_live_push(h: Seq<Action>, x: Action, n: u32)
    ensures
        lock_surface_live(h.push(x), n) == match x {
            Action::CreateLockSurface { output } => if output == n { true } else { lock_surface_live(h, n) },
            Action::DestroyLockSurface { output } => if output == n { false } else { lock_surface_live(h, n) },
            _ => lock_surface_live(h, n),
        },
{
    assert(h.push(x).drop_last() =~= h);
}

/// Requests that create, destroy and drop nothing leave liveness as it was.
proof fn lemma_live_quiet(h: Seq<Action>, a: Seq<Action>, n: u32)
    requires
        quiet(a),
    ensures
        lock_surface_live(h + a, n) == lock_surface_live(h, n),
    decreases a.len(),
{
    if a.len() > 0 {
        let b = a.drop_last();
        assert(quiet(b)) by {
            assert forall|m: int| 0 <= m < b.len() implies !((#[trigger] b[m]) is CreateLockSurface || b[m] is DestroyLockSurface
                || b[m] is RemoveOutput) by {
                assert(b[m] == a[m]);
            }
        }
        lemma_live_quiet(h, b, n);
        assert((h + b).push(a.last()) =~= h + a);
        lemma_live_push(h + b, a.last(), n);
    }
}

/// Requests that create, destroy and drop nothing respect the lifecycle.
proof fn lemma_quiet_respected(h: Seq<Action>, a: Seq<Action>)
    requires
        quiet(a),
    ensures
        lifecycle_respected(h, a),
{
}

/// Starting frame loops creates, destroys and drops nothing.
proof fn lemma_kickoffs_quiet(q: Seq<Surface>)
    ensures
        quiet(frame_kickoffs(q)),
    decreases q.len(),
{
    if q.len() > 0 {
        lemma_kickoffs_quiet(q.drop_last());
    }
}

/// Creating the missing lock surfaces respects the lifecycle, and makes
/// live exactly the lock surfaces that were live or missing.
proof fn lemma_requests(h: Seq<Action>, q: Seq<Surface>)
    requires
        names_unique(q),
        forall|j: int| 0 <= j < q.len() && !q[j].lock_surface ==> !lock_surface_live(h, #[trigger] q[j].name),
    ensures
        lifecycle_respected(h, lock_surface_requests(q)),
        forall|n: u32|
            #[trigger] lock_surface_live(h + lock_surface_requests(q), n) == (lock_surface_live(h, n) || exists|j: int|
                0 <= j < q.len() && #[trigger] q[j].name == n && !q[j].lock_surface),
    decreases q.len(),
{
    if q.len() > 0 {
        let p = q.drop_last();
        let x = q.last();
        assert(names_unique(p)) by {
            assert forall|i: int, j: int| 0 <= i < p.len() && 0 <= j < p.len() && i != j implies #[trigger] p[i].name != #[trigger] p[j].name by {
                assert(p[i] == q[i] && p[j] == q[j]);
            }
        }
        assert forall|j: int| 0 <= j < p.len() && !p[j].lock_surface implies !lock_surface_live(h, #[trigger] p[j].name) by {
            assert(p[j] == q[j]);
        }
        lemma_requests(h, p);
        let a = lock_surface_requests(p);
        assert forall|n: u32| #[trigger] lock_surface_live(h + lock_surface_requests(q), n) == (lock_surface_live(h, n) || exists|j: int|
            0 <= j < q.len() && #[trigger] q[j].name == n && !q[j].lock_surface) by {
            assert(lock_surface_live(h + a, n) == (lock_surface_live(h, n) || exists|j: int|
                0 <= j < p.len() && #[trigger] p[j].name == n && !p[j].lock_surface));
            if !x.lock_surface {
                assert((h + a).push(Action::CreateLockSurface { output: x.name }) =~= h + lock_surface_requests(q));
                lemma_live_push(h + a, Action::CreateLockSurface { output: x.name }, n);
                if n == x.name {
                    assert(q[q.len() - 1].name == n);
                }
            }
            if exists|j: int| 0 <= j < q.len() && #[trigger] q[j].name == n && !q[j].lock_surface {
                let j = choose|j: int| 0 <= j < q.len() && #[trigger] q[j].name == n && !q[j].lock_surface;
                if j < p.len() {
                    assert(p[j] == q[j]);
                }
            }
            if exists|j: int| 0 <= j < p.len() && #[trigger] p[j].name == n && !p[j].lock_surface {
                let j = choose|j: int| 0 <= j < p.len() && #[trigger] p[j].name == n && !p[j].lock_surface;
                assert(p[j] == q[j]);
            }
        }
        let r = lock_surface_requests(q);
        assert forall|m: int| 0 <= m < r.len() implies match #[trigger] r[m] {
            Action::CreateLockSurface { output } => !lock_surface_live(h + r.take(m), output),
            Action::DestroyLockSurface { output } => lock_surface_live(h + r.take(m), output),
            Action::RemoveOutput { output } => !lock_surface_live(h + r.take(m), output),
            _ => true,
        } by {
            if m < a.len() {
                assert(r[m] == a[m]);
                assert(r.take(m) =~= a.take(m));
            } else {
                assert(!x.lock_surface);
                assert(r.take(m) =~= a);
                assert(r[m] == Action::CreateLockSurface { output: x.name });
                assert forall|j: int| 0 <= j < p.len() implies #[trigger] p[j].name != x.name by {
                    assert(p[j] == q[j]);
                    assert(q[j].name != q[q.len() - 1].name);
                }
                assert(!lock_surface_live(h, x.name)) by {
                    assert(q[q.len() - 1] == x);
                }
            }
        }
    }
}


/// Entries with the same names and lock surfaces track the same lock surfaces.
proof fn lemma_same_tracking(s: Seq<Surface>, t: Seq<Surface>)
    requires
        s.len() == t.len(),
        forall|i: int| 0 <= i < s.len() ==> #[trigger] t[i].name == s[i].name && t[i].lock_surface == s[i].lock_surface,
    ensures
        forall|n: u32| tracks_lock_surface(t, n) == tracks_lock_surface(s, n),
{
    assert forall|n: u32| tracks_lock_surface(t, n) == tracks_lock_surface(s, n) by {
        if tracks_lock_surface(t, n) {
            let i = choose|i: int| 0 <= i < t.len() && #[trigger] t[i].name == n && t[i].lock_surface;
            assert(s[i].name == n);
        }
        if tracks_lock_surface(s, n) {
            let i = choose|i: int| 0 <= i < s.len() && #[trigger] s[i].name == n && s[i].lock_surface;
            assert(t[i].name == n);
        }
    }
}

/// The lifecycle through a creation of the missing lock surfaces.
proof fn lemma_create_lifecycle(s: AppView, h: Seq<Action>)
    requires
        app_wf(s),
        lock_surfaces_match(s, h),
    ensures
        ({
            let q = s.surfaces.map_values(|e: Surface| with_lock_surface(e));
            let a = lock_surface_requests(s.surfaces);
            lifecycle_respected(h, a) && forall|n: u32| #[trigger] lock_surface_live(h + a, n) == tracks_lock_surface(q, n)
        }),
{
    let q = s.surfaces.map_values(|e: Surface| with_lock_surface(e));
    let a = lock_surface_requests(s.surfaces);
    assert forall|j: int| 0 <= j < s.surfaces.len() && !s.surfaces[j].lock_surface implies !lock_surface_live(h, #[trigger] s.surfaces[j].name) by {
        let n = s.surfaces[j].name;
        assert(lock_surface_live(h, n) == tracks_lock_surface(s.surfaces, n));
        if tracks_lock_surface(s.surfaces, n) {
            let i = choose|i: int| 0 <= i < s.surfaces.len() && #[trigger] s.surfaces[i].name == n && s.surfaces[i].lock_surface;
            assert(i != j);
        }
    }
    lemma_requests(h, s.surfaces);
    assert(q.len() == s.surfaces.len());
    assert forall|n: u32| #[trigger] lock_surface_live(h + a, n) == tracks_lock_surface(q, n) by {
        let ex = exists|j: int| 0 <= j < s.surfaces.len() && #[trigger] s.surfaces[j].name == n && !s.surfaces[j].lock_surface;
        assert(lock_surface_live(h + a, n) == (lock_surface_live(h, n) || ex));
        assert(lock_surface_live(h, n) == tracks_lock_surface(s.surfaces, n));
        if tracks_lock_surface(s.surfaces, n) {
            let i = choose|i: int| 0 <= i < s.surfaces.len() && #[trigger] s.surfaces[i].name == n && s.surfaces[i].lock_surface;
            assert(q[i] == with_lock_surface(s.surfaces[i]));
            assert(q[i].name == n && q[i].lock_surface);
            assert(tracks_lock_surface(q, n));
        }
        if ex {
            let j = choose|j: int| 0 <= j < s.surfaces.len() && #[trigger] s.surfaces[j].name == n && !s.surfaces[j].lock_surface;
            assert(q[j] == with_lock_surface(s.surfaces[j]));
            assert(q[j].name == n && q[j].lock_surface);
            assert(tracks_lock_surface(q, n));
        }
        if tracks_lock_surface(q, n) {
            let i = choose|i: int| 0 <= i < q.len() && #[trigger] q[i].name == n && q[i].lock_surface;
            assert(q[i] == with_lock_surface(s.surfaces[i]));
            assert(s.surfaces[i].name == n);
            if !s.surfaces[i].lock_surface {
                assert(ex);
            } else {
                assert(tracks_lock_surface(s.surfaces, n));
            }
        }
    }
}

/// The lifecycle through the withdrawal of a global.
proof fn lemma_remove_lifecycle(s: AppView, h: Seq<Action>, name: u32)
    requires
        app_wf(s),
        lock_surfaces_match(s, h),
    ensures
        ({
            let a = step_remove(s, name).1;
            lifecycle_respected(h, a) && lock_surfaces_match(step_remove(s, name).0, h + a)
        }),
{
    let t = step_remove(s, name).0;
    let a = step_remove(s, name).1;
    lemma_position(s.surfaces, name);
    if let Some(p) = position(s.surfaces, name) {
        let x = s.surfaces[p];
        let q = t.surfaces;
        assert forall|i: int| 0 <= i < q.len() implies #[trigger] q[i] == s.surfaces[if i < p { i } else { i + 1 }] by {}
        if x.lock_surface {
            assert(tracks_lock_surface(s.surfaces, name));
            assert(a =~= seq![Action::DestroyLockSurface { output: name }, Action::RemoveOutput { output: name }]);
            assert(a.take(0) =~= Seq::<Action>::empty());
            assert(h + a.take(0) =~= h);
            assert(h + a.take(1) =~= h.push(Action::DestroyLockSurface { output: name }));
            lemma_live_push(h, Action::DestroyLockSurface { output: name }, name);
            assert(h + a =~= h.push(Action::DestroyLockSurface { output: name }).push(Action::RemoveOutput { output: name }));
        } else {
            assert(a =~= seq![Action::RemoveOutput { output: name }]);
            assert(a.take(0) =~= Seq::<Action>::empty());
            assert(h + a.take(0) =~= h);
            assert(h + a =~= h.push(Action::RemoveOutput { output: name }));
            assert(!tracks_lock_surface(s.surfaces, name)) by {
                if tracks_lock_surface(s.surfaces, name) {
                    let i = choose|i: int| 0 <= i < s.surfaces.len() && #[trigger] s.surfaces[i].name == name && s.surfaces[i].lock_surface;
                    assert(i != p);
                }
            }
        }
        assert forall|n: u32| #[trigger] lock_surface_live(h + a, n) == tracks_lock_surface(t.surfaces, n) by {
            if x.lock_surface {
                lemma_live_push(h.push(Action::DestroyLockSurface { output: name }), Action::RemoveOutput { output: name }, n);
                lemma_live_push(h, Action::DestroyLockSurface { output: name }, n);
            } else {
                lemma_live_push(h, Action::RemoveOutput { output: name }, n);
            }
            if tracks_lock_surface(t.surfaces, n) {
                let i = choose|i: int| 0 <= i < q.len() && #[trigger] q[i].name == n && q[i].lock_surface;
                let k = if i < p { i } else { i + 1 };
                assert(s.surfaces[k].name == n);
                assert(n != name);
            }
            if tracks_lock_surface(s.surfaces, n) && n != name {
                let k = choose|k: int| 0 <= k < s.surfaces.len() && #[trigger] s.surfaces[k].name == n && s.surfaces[k].lock_surface;
                assert(k != p);
                let i = if k < p { k } else { k - 1 };
                assert(q[i] == s.surfaces[k]);
            }
        }
    } else {
        assert(h + a =~= h);
    }
}

/// The lifecycle through any one step.
proof fn lemma_step_lifecycle(s: AppView, h: Seq<Action>, e: Event)
    requires
        app_wf(s),
        lock_surfaces_match(s, h),
    ensures
        ({
            let a = match step(s, e).1 {
                Ok(a) => a,
                Err(_) => seq![],
            };
            lifecycle_respected(h, a) && lock_surfaces_match(step(s, e).0, h + a)
        }),
{
    let t = step(s, e).0;
    let a = match step(s, e).1 {
        Ok(a) => a,
        Err(_) => seq![],
    };
    match e {
        Event::GlobalRemove { name } => {
            lemma_remove_lifecycle(s, h, name);
        },
        Event::CreateSurfaces => {
            if step(s, e).1 is Ok {
                lemma_create_lifecycle(s, h);
            } else {
                assert(h + a =~= h);
            }
        },
        _ => {
            lemma_step_quiet(s, e);
            lemma_quiet_respected(h, a);
            lemma_step_keeps_tracking(s, e);
            assert forall|n: u32| #[trigger] lock_surface_live(h + a, n) == tracks_lock_surface(t.surfaces, n) by {
                lemma_live_quiet(h, a, n);
            }
        },
    }
}

/// Every input but a withdrawal and a creation of lock surfaces issues
/// requests that create, destroy and drop nothing.
proof fn lemma_step_quiet(s: AppView, e: Event)
    requires
        !(e is GlobalRemove || e is CreateSurfaces),
    ensures
        quiet(match step(s, e).1 {
            Ok(a) => a,
            Err(_) => seq![],
        }),
{
    if let Event::StartRendering = e {
        lemma_kickoffs_quiet(s.surfaces);
    }
}

/// Every input but a withdrawal and a creation of lock surfaces keeps the
/// record of live lock surfaces.
proof fn lemma_step_keeps_tracking(s: AppView, e: Event)
    requires
        !(e is GlobalRemove || e is CreateSurfaces),
    ensures
        forall|n: u32| tracks_lock_surface(step(s, e).0.surfaces, n) == tracks_lock_surface(s.surfaces, n),
{
    let t = step(s, e).0;
    match e {
        Event::Global { name, interface, version } => {
            if interface == Interface::Output && !has_output(s.surfaces, name) {
                assert forall|n: u32| tracks_lock_surface(t.surfaces, n) == tracks_lock_surface(s.surfaces, n) by {
                    if tracks_lock_surface(t.surfaces, n) {
                        let i = choose|i: int| 0 <= i < t.surfaces.len() && #[trigger] t.surfaces[i].name == n && t.surfaces[i].lock_surface;
                        assert(i < s.surfaces.len());
                        assert(t.surfaces[i] == s.surfaces[i]);
                    }
                    if tracks_lock_surface(s.surfaces, n) {
                        let i = choose|i: int| 0 <= i < s.surfaces.len() && #[trigger] s.surfaces[i].name == n && s.surfaces[i].lock_surface;
                        assert(t.surfaces[i] == s.surfaces[i]);
                    }
                }
            }
        },
        Event::Configure { output, serial, width, height } => {
            lemma_position(s.surfaces, output);
            lemma_same_tracking(s.surfaces, t.surfaces);
        },
        Event::StartRendering => {
            lemma_same_tracking(s.surfaces, t.surfaces);
        },
        _ => {},
    }
}

/// From the start, along any inputs, lock surfaces follow their lifecycle:
/// one is created for an output only when that output has none live, a
/// destroy is issued only for a live one (so never twice for the same one),
/// and an output is dropped only after its lock surface was destroyed. The
/// outputs' record of live lock surfaces agrees with the requests issued.
pub proof fn lemma_lock_surface_lifecycle(unlock_key: u32, events: Seq<Event>)
    ensures
        lifecycle_respected(seq![], issued(initial(unlock_key), events)),
        lock_surfaces_match(run(initial(unlock_key), events), issued(initial(unlock_key), events)),
    decreases events.len(),
{
    let s0 = initial(unlock_key);
    if events.len() == 0 {
        assert forall|n: u32| #[trigger] lock_surface_live(seq![], n) == tracks_lock_surface(s0.surfaces, n) by {}
    } else {
        let prev = events.drop_last();
        lemma_lock_surface_lifecycle(unlock_key, prev);
        lemma_renderer_follows_configure(unlock_key, prev);
        let s = run(s0, prev);
        let h = issued(s0, prev);
        let e = events.last();
        lemma_step_lifecycle(s, h, e);
        let a = match step(s, e).1 {
            Ok(a) => a,
            Err(_) => seq![],
        };
        assert(issued(s0, events) == h + a);
        let all = h + a;
        assert forall|m: int| 0 <= m < all.len() implies match #[trigger] all[m] {
            Action::CreateLockSurface { output } => !lock_surface_live(seq![] + all.take(m), output),
            Action::DestroyLockSurface { output } => lock_surface_live(seq![] + all.take(m), output),
            Action::RemoveOutput { output } => !lock_surface_live(seq![] + all.take(m), output),
            _ => true,
        } by {
            if m < h.len() {
                assert(all[m] == h[m]);
                assert(seq![] + all.take(m) =~= seq![] + h.take(m));
            } else {
                assert(all[m] == a[m - h.len()]);
                assert(seq![] + all.take(m) =~= h + a.take(m - h.len()));
            }
        }
    }
}

} // verus!
