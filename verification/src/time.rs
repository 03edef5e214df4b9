//! Wall-clock readings rendered for the lobby protocol.

use crate::external::unix_time_secs;
use crate::text::{dec_str_of, u64_to_string};
use vstd::prelude::*;

verus! {

/// The whole seconds since the Unix epoch, rendered in decimal. The reading
/// itself comes from the system clock; whatever it reads, the result is its
/// exact decimal rendering.
pub fn system_time_since_unix_epoch_seconds() -> (s: String)
    ensures
        exists|n: u64| s@ == dec_str_of(n as nat),
{
    let now = unix_time_secs();
    let s = u64_to_string(now);
    proof {
        assert(s@ == dec_str_of(now as nat));
    }
    s
}

} // verus!
