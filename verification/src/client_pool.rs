//! The client's simple connection source: it remembers the target address
//! and dials it once per request. The dialing is socket work and lives with
//! the runtime; the address handling is proved here.

use vstd::prelude::*;

verus! {

/// A source of connections to one fixed address.
pub struct Pool {
    addr: String,
}

impl Pool {
    /// The address this pool dials.
    pub closed spec fn spec_addr(self) -> Seq<char> {
        self.addr@
    }

    /// Remembers the address to dial.
    pub fn new(addr: String) -> (r: Pool)
        ensures
            r.spec_addr() == addr@,
    {
        Pool { addr }
    }

    /// The address to dial.
    pub fn get_addr(&self) -> (r: &str)
        ensures
            r@ == self.spec_addr(),
    {
        self.addr.as_str()
    }
}

} // verus!
