use vstd::prelude::*;
use crate::protocol::Interface;

verus! {

/// The interface that a global advertised under the name `s` stands for.
pub open spec fn interface_of(s: Seq<char>) -> Interface {
    if s == "wl_compositor"@ {
        Interface::Compositor
    } else if s == "wl_seat"@ {
        Interface::Seat
    } else if s == "wl_shm"@ {
        Interface::Shm
    } else if s == "wl_output"@ {
        Interface::Output
    } else if s == "ext_session_lock_manager_v1"@ {
        Interface::LockManager
    } else {
        Interface::Other
    }
}

fn same_text(a: &str, b: &str) -> (r: bool)
    ensures
        r == (a@ == b@),
{
    let a = a.to_owned();
    let b = b.to_owned();
    a == b
}

/// Classifies the interface name of an advertised global.
pub fn classify_interface(interface: &str) -> (r: Interface)
    ensures
        r == interface_of(interface@),
{
    if same_text(interface, "wl_compositor") {
        Interface::Compositor
    } else if same_text(interface, "wl_seat") {
        Interface::Seat
    } else if same_text(interface, "wl_shm") {
        Interface::Shm
    } else if same_text(interface, "wl_output") {
        Interface::Output
    } else if same_text(interface, "ext_session_lock_manager_v1") {
        Interface::LockManager
    } else {
        Interface::Other
    }
}

} // verus!
