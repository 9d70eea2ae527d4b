//! The list of DNS servers used for resolution: a built-in default list
//! of public resolvers, and an optional custom list that replaces it.
//! Every custom entry must be an address-and-port text: a dotted-quad
//! IPv4 address, or a bracketed IPv6 address, followed by a colon and a
//! port. The program around the library holds one [`ServerConfig`] and
//! shares it among its workers.

use crate::utils::text::{all_dec_digits, clone_string_vec, dec_value, parse_dec_digits};
use crate::utils::url::{
    find_colon, find_generic, find_rbracket, ipv4_ok, ipv6_check, ipv6_ok, TargetType,
};
use vstd::prelude::*;

verus! {

/// Errors that can occur when setting the server list.
#[derive(Debug)]
pub enum TransporterErrors {
    /// Raised when a server text is not a valid address and port.
    InvalidServer(String),
}

impl TransporterErrors {
    /// Writes the human-readable description of the error.
    pub fn message(&self) -> (r: String)
        ensures
            r@ == transporter_error_message_of(*self),
    {
        match self {
            TransporterErrors::InvalidServer(s) => {
                let mut m = String::from_str("The server ");
                m.append(s.as_str());
                m.append(" is invalid");
                m
            },
        }
    }
}

/// The description of each transporter error.
pub open spec fn transporter_error_message_of(e: TransporterErrors) -> Seq<char> {
    match e {
        TransporterErrors::InvalidServer(s) => "The server "@ + s@ + " is invalid"@,
    }
}

/// Whether `t` is a run of digits denoting a port.
pub open spec fn port_digits_ok(t: Seq<char>) -> bool {
    t.len() >= 1 && all_dec_digits(t) && dec_value(t) <= 65535
}

/// Whether `t` is a server address: an IPv4 address or a bracketed IPv6
/// address, a colon, and a port.
pub open spec fn server_addr_ok(t: Seq<char>) -> bool {
    if t.len() > 0 && t[0] == '[' {
        let rb = find_rbracket(t, 0);
        &&& rb < t.len()
        &&& ipv6_ok(t.subrange(1, rb))
        &&& rb + 1 < t.len()
        &&& t[rb + 1] == ':'
        &&& port_digits_ok(t.skip(rb + 2))
    } else {
        let j = find_colon(t, 0);
        &&& j < t.len()
        &&& ipv4_ok(t.take(j))
        &&& port_digits_ok(t.skip(j + 1))
    }
}

/// Whether the digits from `from` on denote a port.
fn port_ok_at(s: &str, from: usize) -> (r: bool)
    requires
        from <= s@.len(),
    ensures
        r == port_digits_ok(s@.skip(from as int)),
{
    match parse_dec_digits(s, from, 65535) {
        Some(_) => true,
        None => false,
    }
}

/// Decides whether `s` is a valid server address.
pub fn valid_server_addr(s: &str) -> (r: bool)
    ensures
        r == server_addr_ok(s@),
{
    let n = s.unicode_len();
    if n > 0 && s.get_char(0) == '[' {
        let rb = find_generic(s, 0, 2);
        if rb == n {
            return false;
        }
        let inside = s.substring_char(1, rb);
        proof {
            assert(inside@ =~= s@.subrange(1, rb as int));
        }
        if !ipv6_check(inside) {
            return false;
        }
        if rb + 1 >= n {
            return false;
        }
        if s.get_char(rb + 1) != ':' {
            return false;
        }
        port_ok_at(s, rb + 2)
    } else {
        let j = find_generic(s, 0, 1);
        if j == n {
            return false;
        }
        let host = s.substring_char(0, j);
        proof {
            assert(host@ =~= s@.take(j as int));
        }
        match TargetType::is_ipv4(host) {
            Ok(_) => port_ok_at(s, j + 1),
            Err(_) => false,
        }
    }
}

/// The built-in resolvers, as character sequences.
pub open spec fn default_servers_seq() -> Seq<Seq<char>> {
    seq![
        "8.8.8.8:53"@,
        "8.8.4.4:53"@,
        "[2001:4860:4860::8888]:53"@,
        "[2001:4860:4860::8844]:53"@,
        "1.1.1.1:53"@,
        "1.0.0.1:53"@,
        "9.9.9.9:53"@,
        "149.112.112.112:53"@,
    ]
}

/// Writes out the built-in list of public resolvers.
pub fn default_servers() -> (r: Vec<String>)
    ensures
        r@.map_values(|s: String| s@) == default_servers_seq(),
{
    let mut out: Vec<String> = Vec::new();
    out.push(String::from_str("8.8.8.8:53"));
    out.push(String::from_str("8.8.4.4:53"));
    out.push(String::from_str("[2001:4860:4860::8888]:53"));
    out.push(String::from_str("[2001:4860:4860::8844]:53"));
    out.push(String::from_str("1.1.1.1:53"));
    out.push(String::from_str("1.0.0.1:53"));
    out.push(String::from_str("9.9.9.9:53"));
    out.push(String::from_str("149.112.112.112:53"));
    proof {
        assert(out@.map_values(|s: String| s@) =~= default_servers_seq());
    }
    out
}

/// The active server list: the defaults until a custom list is set.
pub struct ServerConfig {
    custom: Option<Vec<String>>,
}

impl View for ServerConfig {
    type V = Option<Seq<String>>;

    closed spec fn view(&self) -> Option<Seq<String>> {
        match self.custom {
            Some(ref v) => Some(v@),
            None => None,
        }
    }
}

impl ServerConfig {
    /// A configuration using the default servers.
    pub fn new() -> (c: ServerConfig)
        ensures
            c@ is None,
    {
        ServerConfig { custom: None }
    }

    /// Returns the currently active list of servers: the custom list if
    /// one has been set, otherwise the defaults.
    pub fn get_servers(&self) -> (r: Vec<String>)
        ensures
            self@ matches Some(l) ==> r@ == l,
            self@ is None ==> r@.map_values(|s: String| s@) == default_servers_seq(),
    {
        match &self.custom {
            Some(list) => clone_string_vec(list),
            None => default_servers(),
        }
    }

    /// Replaces the active server list with `list` when every entry is a
    /// valid server address; reports the first invalid entry otherwise
    /// and leaves the configuration unchanged.
    pub fn set_servers(&mut self, list: Vec<String>) -> (r: Result<(), TransporterErrors>)
        ensures
            r is Ok <==> (forall|k: int|
                0 <= k < list@.len() ==> server_addr_ok((#[trigger] list@[k])@)),
            r is Ok ==> final(self)@ == Some(list@),
            r matches Err(TransporterErrors::InvalidServer(s)) ==> {
                &&& final(self)@ == old(self)@
                &&& exists|k: int|
                    {
                        &&& 0 <= k < list@.len()
                        &&& !server_addr_ok((#[trigger] list@[k])@)
                        &&& s@ == list@[k]@
                        &&& forall|j: int| 0 <= j < k ==> server_addr_ok((#[trigger] list@[j])@)
                    }
            },
    {
        let n = list.len();
        let mut i: usize = 0;
        while i < n
            invariant
                i <= n,
                n == list@.len(),
                forall|j: int| 0 <= j < i ==> server_addr_ok((#[trigger] list@[j])@),
            decreases n - i,
        {
            if !valid_server_addr(list[i].as_str()) {
                let bad = list[i].clone();
                return Err(TransporterErrors::InvalidServer(bad));
            }
            i = i + 1;
        }
        self.custom = Some(list);
        Ok(())
    }

    /// Resets the server list to the built-in defaults.
    pub fn reset_servers(&mut self)
        ensures
            final(self)@ is None,
    {
        self.custom = None;
    }

    /// Whether a custom list of servers is currently active.
    pub fn has_custom_servers(&self) -> (r: bool)
        ensures
            r == (self@ is Some),
    {
        match &self.custom {
            Some(_) => true,
            None => false,
        }
    }
}

} // verus!
