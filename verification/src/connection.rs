use vstd::prelude::*;

verus! {

/// One established two-way byte stream, tagged by where it came from. Each
/// variant owns the transport handle of its kind.
#[derive(Debug, PartialEq, Eq)]
pub enum Connection<S, C, L> {
    /// A stream over a Unix domain socket.
    Socket(S),
    /// The client end of a named pipe, obtained by dialing.
    Client(C),
    /// The server end of a named pipe, obtained by accepting.
    Server(L),
}

} // verus!
