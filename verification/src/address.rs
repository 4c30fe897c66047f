//! The server address: a hostname and a port, with the defaults the
//! launcher falls back to when it is not given exactly two arguments.

use vstd::prelude::*;
use vstd::string::StringExecFns;

verus! {

/// Represents the address of the server with hostname and port.
#[derive(Debug)]
pub struct Address {
    pub hostname: String,
    pub port: String,
}

impl Address {
    /// Creates a new Address with the specified hostname and port.
    pub fn new(hostname: String, port: String) -> (r: Address)
        ensures
            r.hostname@ == hostname@,
            r.port@ == port@,
    {
        Address { hostname, port }
    }

    /// Creates the default Address, `localhost:11111`.
    pub fn default() -> (r: Address)
        ensures
            r.hostname@ == "localhost"@,
            r.port@ == "11111"@,
    {
        Address {
            hostname: String::from_str("localhost"),
            port: String::from_str("11111"),
        }
    }

    /// Picks the address from the command-line arguments (the program name
    /// first): with exactly two arguments they are hostname and port, with
    /// any other count the default applies.
    pub fn parse_arguments(arguments: Vec<String>) -> (r: Address)
        ensures
            arguments@.len() == 3 ==> r.hostname@ == arguments@[1]@ && r.port@ == arguments@[2]@,
            arguments@.len() != 3 ==> r.hostname@ == "localhost"@ && r.port@ == "11111"@,
    {
        if arguments.len() == 3 {
            Address::new(arguments[1].clone(), arguments[2].clone())
        } else {
            Address::default()
        }
    }

    /// The address as a string in the format "hostname:port".
    pub fn to_string(&self) -> (r: String)
        ensures
            r@ == self.hostname@ + ":"@ + self.port@,
    {
        let mut s = self.hostname.clone();
        s.append(":");
        s.append(self.port.as_str());
        s
    }
}

} // verus!
