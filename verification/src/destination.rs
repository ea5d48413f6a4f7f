//! A dialable endpoint: an ip, a port, and the `ip:port` form that the
//! socket layer dials. The text form is built here, so its shape is proved
//! rather than assumed.

use vstd::prelude::*;
use vstd::string::*;

verus! {

/// The decimal digit character for a value below ten.
pub open spec fn spec_digit(d: int) -> char
    recommends
        0 <= d < 10,
{
    if d == 0 {
        '0'
    } else if d == 1 {
        '1'
    } else if d == 2 {
        '2'
    } else if d == 3 {
        '3'
    } else if d == 4 {
        '4'
    } else if d == 5 {
        '5'
    } else if d == 6 {
        '6'
    } else if d == 7 {
        '7'
    } else if d == 8 {
        '8'
    } else {
        '9'
    }
}

/// The decimal notation of a number, most significant digit first, with no
/// leading zero except for the number zero itself.
pub open spec fn spec_decimal(n: int) -> Seq<char>
    recommends
        n >= 0,
    decreases n,
{
    if n < 10 {
        seq![spec_digit(n)]
    } else {
        spec_decimal(n / 10).push(spec_digit(n % 10))
    }
}

/// The one-character string slice for a decimal digit.
fn digit_str(d: u32) -> (s: &'static str)
    requires
        d < 10,
    ensures
        s@ == seq![spec_digit(d as int)],
{
    proof {
        reveal_strlit("0");
        reveal_strlit("1");
        reveal_strlit("2");
        reveal_strlit("3");
        reveal_strlit("4");
        reveal_strlit("5");
        reveal_strlit("6");
        reveal_strlit("7");
        reveal_strlit("8");
        reveal_strlit("9");
    }
    let s: &'static str = if d == 0 {
        "0"
    } else if d == 1 {
        "1"
    } else if d == 2 {
        "2"
    } else if d == 3 {
        "3"
    } else if d == 4 {
        "4"
    } else if d == 5 {
        "5"
    } else if d == 6 {
        "6"
    } else if d == 7 {
        "7"
    } else if d == 8 {
        "8"
    } else {
        "9"
    };
    proof {
        assert(s@ =~= seq![spec_digit(d as int)]);
    }
    s
}

/// Renders a number in decimal.
pub fn u32_to_decimal(n: u32) -> (s: String)
    ensures
        s@ == spec_decimal(n as int),
    decreases n,
{
    if n < 10 {
        String::from_str(digit_str(n))
    } else {
        let mut s = u32_to_decimal(n / 10);
        s.append(digit_str(n % 10));
        proof {
            assert(s@ =~= spec_decimal(n as int));
        }
        s
    }
}

/// Where a connection should go: kept both as parts and in the `ip:port`
/// form that the socket layer dials.
pub struct Destination {
    ip: String,
    port: u32,
    formatted: String,
}

impl Destination {
    /// The ip (or host name) part.
    pub closed spec fn spec_ip(self) -> Seq<char> {
        self.ip@
    }

    /// The port part.
    pub closed spec fn spec_port(self) -> u32 {
        self.port
    }

    /// The dialable `ip:port` text.
    pub closed spec fn spec_formatted(self) -> Seq<char> {
        self.formatted@
    }

    /// Builds the endpoint; the dialable form is exactly the ip, a colon,
    /// and the port in decimal.
    pub fn new(ip: String, port: u32) -> (r: Destination)
        ensures
            r.spec_ip() == ip@,
            r.spec_port() == port,
            r.spec_formatted() == ip@ + seq![':'] + spec_decimal(port as int),
    {
        let mut formatted_ip = ip.clone();
        formatted_ip.append(":");
        let port_text = u32_to_decimal(port);
        formatted_ip.append(port_text.as_str());
        proof {
            reveal_strlit(":");
            assert(formatted_ip@ =~= ip@ + seq![':'] + spec_decimal(port as int));
        }

        Destination { ip, port, formatted: formatted_ip }
    }

    pub fn get_full_address(&self) -> (r: &str)
        ensures
            r@ == self.spec_formatted(),
    {
        self.formatted.as_str()
    }

    pub fn get_ip(&self) -> (r: &str)
        ensures
            r@ == self.spec_ip(),
    {
        self.ip.as_str()
    }

    pub fn get_port(&self) -> (r: u32)
        ensures
            r == self.spec_port(),
    {
        self.port
    }
}

} // verus!
