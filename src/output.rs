use vstd::prelude::*;

verus! {

/// A width and height in surface-local pixels.
#[derive(Clone, Copy, Debug, PartialEq, Eq, Structural)]
pub struct Size {
    pub width: u32,
    pub height: u32,
}

/// What the client tracks of one output.
#[derive(Clone, Copy, Debug, PartialEq, Eq, Structural)]
pub struct Surface {
    /// The registry name of the output, unique while the output is advertised.
    pub name: u32,
    /// A lock surface (with its surface) was created for the output and not
    /// yet destroyed.
    pub lock_surface: bool,
    /// The size last applied to the output's renderer, once it exists.
    pub renderer: Option<Size>,
    /// A frame-completion notification is pending for the output's surface.
    pub pacing: bool,
}

/// An output entry as it is first tracked: nothing created for it yet.
pub open spec fn fresh_surface(name: u32) -> Surface {
    Surface { name, lock_surface: false, renderer: None, pacing: false }
}

/// A renderer exists only on a live lock surface, and frames are paced only
/// on a surface that has a renderer.
pub open spec fn surface_wf(e: Surface) -> bool {
    &&& e.renderer.is_some() ==> e.lock_surface
    &&& e.pacing ==> e.renderer.is_some()
}

/// No two entries share a name.
pub open spec fn names_unique(s: Seq<Surface>) -> bool {
    forall|i: int, j: int|
        0 <= i < s.len() && 0 <= j < s.len() && i != j ==> #[trigger] s[i].name != #[trigger] s[j].name
}

/// Every entry is well formed and names are unique.
pub open spec fn surfaces_wf(s: Seq<Surface>) -> bool {
    &&& names_unique(s)
    &&& forall|i: int| 0 <= i < s.len() ==> surface_wf(#[trigger] s[i])
}

/// Some entry has the name `name`.
pub open spec fn has_output(s: Seq<Surface>, name: u32) -> bool {
    exists|i: int| 0 <= i < s.len() && #[trigger] s[i].name == name
}

/// `i` is the first index of an entry named `name`.
pub open spec fn is_first_index(s: Seq<Surface>, name: u32, i: int) -> bool {
    &&& 0 <= i < s.len()
    &&& s[i].name == name
    &&& forall|k: int| 0 <= k < i ==> #[trigger] s[k].name != name
}

/// The index of the first entry named `name`, if there is one.
pub open spec fn position(s: Seq<Surface>, name: u32) -> Option<int> {
    if has_output(s, name) {
        Some(choose|i: int| is_first_index(s, name, i))
    } else {
        None
    }
}

/// There is a first index whenever there is an entry of that name.
pub proof fn lemma_position(s: Seq<Surface>, name: u32)
    ensures
        position(s, name) is None <==> !has_output(s, name),
        position(s, name) matches Some(i) ==> is_first_index(s, name, i),
{
    if has_output(s, name) {
        let j = choose|j: int| 0 <= j < s.len() && #[trigger] s[j].name == name;
        lemma_first_index_exists(s, name, j);
    }
}

/// An entry named `name` at `j` means some entry is the first so named.
proof fn lemma_first_index_exists(s: Seq<Surface>, name: u32, j: int)
    requires
        0 <= j < s.len(),
        s[j].name == name,
    ensures
        exists|i: int| is_first_index(s, name, i),
    decreases j,
{
    if exists|k: int| 0 <= k < j && #[trigger] s[k].name == name {
        let k = choose|k: int| 0 <= k < j && #[trigger] s[k].name == name;
        lemma_first_index_exists(s, name, k);
    } else {
        assert(is_first_index(s, name, j));
    }
}

/// Finds the index of the entry named `name`.
pub fn find_output(surfaces: &Vec<Surface>, name: u32) -> (r: Option<usize>)
    ensures
        match r {
            Some(i) => position(surfaces@, name) == Some(i as int),
            None => position(surfaces@, name) is None,
        },
{
    proof {
        lemma_position(surfaces@, name);
    }
    let mut i: usize = 0;
    while i < surfaces.len()
        invariant
            0 <= i <= surfaces@.len(),
            forall|k: int| 0 <= k < i ==> #[trigger] surfaces@[k].name != name,
            position(surfaces@, name) is None <==> !has_output(surfaces@, name),
            position(surfaces@, name) matches Some(p) ==> is_first_index(surfaces@, name, p),
        decreases surfaces@.len() - i,
    {
        if surfaces[i].name == name {
            assert(is_first_index(surfaces@, name, i as int));
            return Some(i);
        }
        i += 1;
    }
    None
}

/// A map over the entries that keeps names and well-formedness keeps the
/// invariant.
pub proof fn lemma_map_wf(s: Seq<Surface>, f: spec_fn(Surface) -> Surface)
    requires
        surfaces_wf(s),
        forall|e: Surface| #[trigger] f(e).name == e.name,
        forall|e: Surface| surface_wf(e) ==> surface_wf(#[trigger] f(e)),
    ensures
        surfaces_wf(s.map_values(f)),
{
    let t = s.map_values(f);
    assert forall|a: int, b: int| 0 <= a < t.len() && 0 <= b < t.len() && a != b implies #[trigger] t[a].name != #[trigger] t[b].name by {
        assert(t[a] == f(s[a]) && t[b] == f(s[b]));
    }
    assert forall|a: int| 0 <= a < t.len() implies surface_wf(#[trigger] t[a]) by {
        assert(t[a] == f(s[a]));
    }
}

/// Replacing an entry by a well-formed one of the same name keeps the invariant.
pub proof fn lemma_update_wf(s: Seq<Surface>, i: int, e: Surface)
    requires
        surfaces_wf(s),
        0 <= i < s.len(),
        e.name == s[i].name,
        surface_wf(e),
    ensures
        surfaces_wf(s.update(i, e)),
{
    let t = s.update(i, e);
    assert forall|a: int, b: int| 0 <= a < t.len() && 0 <= b < t.len() && a != b implies #[trigger] t[a].name != #[trigger] t[b].name by {
        assert(t[a].name == s[a].name && t[b].name == s[b].name);
    }
    assert forall|a: int| 0 <= a < t.len() implies surface_wf(#[trigger] t[a]) by {
        if a != i {
            assert(t[a] == s[a]);
        }
    }
}

/// Tracking a name that is not tracked yet keeps the invariant.
pub proof fn lemma_push_fresh_wf(s: Seq<Surface>, name: u32)
    requires
        surfaces_wf(s),
        !has_output(s, name),
    ensures
        surfaces_wf(s.push(fresh_surface(name))),
{
    let t = s.push(fresh_surface(name));
    assert forall|i: int, j: int| 0 <= i < t.len() && 0 <= j < t.len() && i != j implies #[trigger] t[i].name != #[trigger] t[j].name by {
        if i < s.len() && j < s.len() {
            assert(t[i] == s[i] && t[j] == s[j]);
        } else if i < s.len() {
            assert(s[i].name == t[i].name);
        } else {
            assert(s[j].name == t[j].name);
        }
    }
    assert forall|i: int| 0 <= i < t.len() implies surface_wf(#[trigger] t[i]) by {
        if i < s.len() {
            assert(t[i] == s[i]);
        }
    }
}

/// Dropping an entry keeps the invariant.
pub proof fn lemma_remove_wf(s: Seq<Surface>, i: int)
    requires
        surfaces_wf(s),
        0 <= i < s.len(),
    ensures
        surfaces_wf(s.remove(i)),
{
    let t = s.remove(i);
    assert forall|a: int| 0 <= a < t.len() implies #[trigger] t[a] == s[if a < i { a } else { a + 1 }] by {}
    assert forall|a: int, b: int| 0 <= a < t.len() && 0 <= b < t.len() && a != b implies #[trigger] t[a].name != #[trigger] t[b].name by {
        let a2 = if a < i { a } else { a + 1 };
        let b2 = if b < i { b } else { b + 1 };
        assert(t[a] == s[a2] && t[b] == s[b2]);
        assert(s[a2].name != s[b2].name);
    }
    assert forall|a: int| 0 <= a < t.len() implies surface_wf(#[trigger] t[a]) by {
        let a2 = if a < i { a } else { a + 1 };
        assert(t[a] == s[a2]);
    }
}

} // verus!
