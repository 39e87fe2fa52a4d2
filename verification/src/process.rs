//! Where the kernel keeps the listing of a process.

use libc::pid_t;
use vstd::prelude::*;
use vstd::string::StringExecFns;
use crate::numeric::{dec_text, push_dec};

verus! {

/// A process identifier in decimal, with a `-` before it where it is
/// negative.
pub open spec fn pid_text(pid: int) -> Seq<char> {
    if pid < 0 {
        seq!['-'] + dec_text((-pid) as nat)
    } else {
        dec_text(pid as nat)
    }
}

/// The path of the listing of the process `pid`: `/proc/<pid>/maps`.
pub open spec fn maps_path_spec(pid: int) -> Seq<char> {
    "/proc/"@ + pid_text(pid) + "/maps"@
}

/// The path of the listing of the process `pid`.
pub fn maps_path(pid: pid_t) -> (path: String)
    ensures
        path@ == maps_path_spec(pid as int),
{
    let mut path = String::from_str("/proc/");
    if pid < 0 {
        path.push('-');
        push_dec(&mut path, (-(pid as i64)) as u64);
    } else {
        push_dec(&mut path, pid as u64);
    }
    path.append("/maps");
    assert(path@ == maps_path_spec(pid as int));
    path
}

} // verus!
