//! The network block: the name of the active connection.
use vstd::prelude::*;

verus! {

/// What the block shows for the active connections, given by their names:
/// the first one's name, or `offline` when there is none.
pub fn network_text(connections: &Vec<String>) -> (s: String)
    ensures
        s@ == (if connections@.len() == 0 {
            "offline"@
        } else {
            connections@[0]@
        }),
{
    if connections.len() == 0 {
        String::from_str("offline")
    } else {
        connections[0].clone()
    }
}

} // verus!
