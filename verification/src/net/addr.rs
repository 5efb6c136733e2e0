//! Server addresses.

use vstd::prelude::*;
use vstd::string::*;

use crate::text::{chars_of, decimal, append_decimal};
use crate::net::protocol::DEFAULT_PORT;

verus! {

/// An internet address, as the number that its bytes spell.
#[derive(Clone, Copy, Debug, PartialEq, Eq, Structural)]
pub enum IpAddr {
    V4(u32),
    V6(u128),
}

/// An address and a port. The last two fields belong to version 6 alone.
#[derive(Clone, Copy, Debug, PartialEq, Eq, Structural)]
pub struct SocketAddr {
    pub ip: IpAddr,
    pub port: u16,
    pub flowinfo: u32,
    pub scope_id: u32,
}

impl IpAddr {
    /// The address that stands for every interface of a listener.
    pub open spec fn unspecified(self) -> bool {
        match self {
            IpAddr::V4(bits) => bits == 0,
            IpAddr::V6(bits) => bits == 0,
        }
    }

    pub fn is_unspecified(self) -> (unspecified: bool)
        ensures
            unspecified == self.unspecified(),
    {
        match self {
            IpAddr::V4(bits) => bits == 0,
            IpAddr::V6(bits) => bits == 0,
        }
    }

    pub fn is_ipv6(self) -> (six: bool)
        ensures
            six == (self is V6),
    {
        match self {
            IpAddr::V4(_) => false,
            IpAddr::V6(_) => true,
        }
    }
}

/// Where to dial for an address: this computer, where the address only says where to
/// listen.
pub open spec fn dialled(address: SocketAddr) -> SocketAddr {
    if !address.ip.unspecified() {
        address
    } else {
        SocketAddr {
            ip: match address.ip {
                IpAddr::V4(_) => IpAddr::V4(0x7f00_0001),
                IpAddr::V6(_) => IpAddr::V6(1),
            },
            port: address.port,
            flowinfo: 0,
            scope_id: 0,
        }
    }
}

/// `0.0.0.0` and `::` are listen addresses, not destinations: dials localhost instead.
pub fn normalize_server_addr(address: SocketAddr) -> (normal: SocketAddr)
    ensures
        normal == dialled(address),
{
    if !address.ip.is_unspecified() {
        return address;
    }
    let ip = if address.ip.is_ipv6() {
        IpAddr::V6(1)
    } else {
        IpAddr::V4(0x7f00_0001)
    };
    SocketAddr { ip, port: address.port, flowinfo: 0, scope_id: 0 }
}

/// What is dialled is never a listen address, keeps its port and its family, and is
/// dialled as it is.
pub proof fn law_dialled_address(address: SocketAddr)
    ensures
        !dialled(address).ip.unspecified(),
        dialled(address).port == address.port,
        dialled(address).ip is V6 == address.ip is V6,
        dialled(dialled(address)) == dialled(address),
{
}

/// The address that a client binds to: any port of the destination's family.
pub fn client_bind_addr(destination: SocketAddr) -> (local: SocketAddr)
    ensures
        local == (SocketAddr {
            ip: match destination.ip {
                IpAddr::V4(_) => IpAddr::V4(0),
                IpAddr::V6(_) => IpAddr::V6(0),
            },
            port: 0,
            flowinfo: 0,
            scope_id: 0,
        }),
{
    let ip = if destination.ip.is_ipv6() {
        IpAddr::V6(0)
    } else {
        IpAddr::V4(0)
    };
    SocketAddr { ip, port: 0, flowinfo: 0, scope_id: 0 }
}

/// A host with a port: the usual one where none is given.
pub open spec fn with_port(endpoint: Seq<char>) -> Seq<char> {
    if endpoint.contains(':') {
        endpoint
    } else {
        endpoint + ":"@ + decimal(DEFAULT_PORT as nat)
    }
}

pub fn endpoint_with_port(endpoint: &str) -> (text: String)
    ensures
        text@ == with_port(endpoint@),
{
    let chars = chars_of(endpoint);
    let mut i: usize = 0;
    while i < chars.len()
        invariant
            i <= chars@.len(),
            chars@ == endpoint@,
            forall|j: int| 0 <= j < i ==> chars@[j] != ':',
        decreases chars@.len() - i,
    {
        if chars[i] == ':' {
            assert(endpoint@[i as int] == ':');
            return endpoint.to_owned();
        }
        i = i + 1;
    }
    let mut text = endpoint.to_owned();
    text.append(":");
    append_decimal(&mut text, DEFAULT_PORT as u64);
    text
}

/// A server found on the local network.
#[derive(Debug, PartialEq, Eq)]
pub struct DiscoveredServer {
    pub name: String,
    pub address: SocketAddr,
}

impl Clone for DiscoveredServer {
    fn clone(&self) -> (copy: DiscoveredServer)
        ensures
            copy == *self,
    {
        DiscoveredServer { name: self.name.clone(), address: self.address }
    }
}

} // verus!
