//! What an agent sends first on each tunnel connection.
use vstd::prelude::*;
use vstd::string::StringSliceAdditionalSpecFns;
use crate::server::tunnel_server::id_line_bytes;

verus! {

/// The first bytes of a tunnel connection: the tunnel id and a newline, so that the
/// tunnel server can route the socket.
pub fn id_line(id: &str) -> (line: Vec<u8>)
    ensures
        line@ == id_line_bytes(id@),
{
    let mut line = id.as_bytes_vec();
    line.push(10u8);
    line
}

} // verus!
