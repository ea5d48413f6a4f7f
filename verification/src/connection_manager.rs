//! The configuration a pooled connection factory is built from: the
//! `ip:port` text of the target it dials. The dialing itself is socket work
//! and lives with the runtime; here the address is assembled and proved to
//! have the dialable shape.

use crate::destination::spec_decimal;
use crate::destination::u32_to_decimal;
use vstd::prelude::*;
use vstd::string::*;

verus! {

/// Builds connections to one fixed target address.
pub struct ConnectionManager {
    out_url: String,
}

impl ConnectionManager {
    /// The `ip:port` text this factory dials.
    pub closed spec fn spec_url(self) -> Seq<char> {
        self.out_url@
    }

    /// Remembers the target as `ip:port`.
    pub fn new(out_ip: &str, out_port: u32) -> (r: ConnectionManager)
        ensures
            r.spec_url() == out_ip@ + seq![':'] + spec_decimal(out_port as int),
    {
        let mut dest_ip = out_ip.to_owned();
        dest_ip.append(":");
        let port_text = u32_to_decimal(out_port);
        dest_ip.append(port_text.as_str());
        proof {
            reveal_strlit(":");
            assert(dest_ip@ =~= out_ip@ + seq![':'] + spec_decimal(out_port as int));
        }

        ConnectionManager { out_url: dest_ip }
    }

    /// The address to dial.
    pub fn get_url(&self) -> (r: &str)
        ensures
            r@ == self.spec_url(),
    {
        self.out_url.as_str()
    }
}

} // verus!
