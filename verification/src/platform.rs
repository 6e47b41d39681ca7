//! The services that the program is connected to.
use vstd::prelude::*;

use crate::types::ids::PlatformId;

verus! {

/// The first place at which the service is listed, from `i` on.
pub open spec fn place_of(channels: Seq<PlatformId>, target: PlatformId, i: int) -> Option<int>
    decreases channels.len() - i,
{
    if i < 0 || i >= channels.len() {
        None
    } else if channels[i] == target {
        Some(i)
    } else {
        place_of(channels, target, i + 1)
    }
}

/// The connection that a command goes to, of connections to these services: the first to
/// the service that is meant.
pub fn dispatch_command(channels: &Vec<PlatformId>, target: PlatformId) -> (r: Option<usize>)
    ensures
        match r {
            Some(i) => place_of(channels@, target, 0) == Some(i as int) && i < channels@.len(),
            None => place_of(channels@, target, 0) is None,
        },
{
    let mut i: usize = 0;
    while i < channels.len()
        invariant
            i <= channels@.len(),
            place_of(channels@, target, 0) == place_of(channels@, target, i as int),
        decreases channels@.len() - i,
    {
        if channels[i] == target {
            return Some(i);
        }
        i += 1;
    }
    None
}

} // verus!
