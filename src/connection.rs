use vstd::prelude::*;

verus! {

/// One accepted client: its socket handle and the textual address of the peer,
/// which prefixes every message it sends in attributed mode.
pub struct TcpConnection<S> {
    pub sock: S,
    pub addr: String,
}

impl<S> TcpConnection<S> {
    pub fn new(sock: S, addr: String) -> (r: TcpConnection<S>)
        ensures
            r.sock == sock,
            r.addr@ == addr@,
    {
        TcpConnection { sock, addr }
    }
}

} // verus!
