//! Servers found on the local network.

use vstd::prelude::*;
use vstd::string::*;

use crate::net::addr::{DiscoveredServer, IpAddr, SocketAddr};
use crate::order::{
    in_order, law_sorting_sorts, law_text_order, sort_stably,
    sorted_by, sorts, text_before, text_less,
};
use crate::split::{trim_ending, without_ending};
use crate::text::{replace_char, replaced, same_text};

verus! {

/// The service that servers announce.
pub fn service_type() -> (name: &'static str)
    ensures
        name@ == "_staccato._udp.local."@,
{
    "_staccato._udp.local."
}

/// The name of a server, as its announcement gives it in full.
pub open spec fn announced_name(full: Seq<char>) -> Seq<char> {
    without_ending(full, "._staccato._udp.local."@)
}

pub fn server_name_of(full: &str) -> (name: String)
    ensures
        name@ == announced_name(full@),
{
    trim_ending(full, "._staccato._udp.local.")
}

/// The name that a server is announced under.
pub fn instance_name(server_name: &str) -> (name: String)
    ensures
        name@ == replaced(server_name@, ' ', '-'),
{
    replace_char(server_name, ' ', '-')
}

/// The order of addresses: those of version 4 first, each version by its numbers.
pub open spec fn address_less(a: SocketAddr, b: SocketAddr) -> bool {
    match (a.ip, b.ip) {
        (IpAddr::V4(x), IpAddr::V4(y)) => x < y || (x == y && a.port < b.port),
        (IpAddr::V4(_), IpAddr::V6(_)) => true,
        (IpAddr::V6(_), IpAddr::V4(_)) => false,
        (IpAddr::V6(x), IpAddr::V6(y)) => x < y || (x == y && (a.port < b.port || (a.port == b.port
            && (a.flowinfo < b.flowinfo || (a.flowinfo == b.flowinfo && a.scope_id
            < b.scope_id))))),
    }
}

fn address_before(a: SocketAddr, b: SocketAddr) -> (before: bool)
    ensures
        before == address_less(a, b),
{
    match (a.ip, b.ip) {
        (IpAddr::V4(x), IpAddr::V4(y)) => x < y || (x == y && a.port < b.port),
        (IpAddr::V4(_), IpAddr::V6(_)) => true,
        (IpAddr::V6(_), IpAddr::V4(_)) => false,
        (IpAddr::V6(x), IpAddr::V6(y)) => x < y || (x == y && (a.port < b.port || (a.port == b.port
            && (a.flowinfo < b.flowinfo || (a.flowinfo == b.flowinfo && a.scope_id
            < b.scope_id))))),
    }
}

/// The order of servers: by name, then by address.
pub open spec fn server_less(a: DiscoveredServer, b: DiscoveredServer) -> bool {
    text_less(a.name@, b.name@) || (a.name@ == b.name@ && address_less(a.address, b.address))
}

/// A list without the servers that have the address of the one before them.
pub open spec fn once_each(servers: Seq<DiscoveredServer>) -> Seq<DiscoveredServer>
    decreases servers.len(),
{
    if servers.len() == 0 {
        servers
    } else {
        let before = once_each(servers.drop_last());
        if before.len() > 0 && before.last().address == servers.last().address {
            before
        } else {
            before.push(servers.last())
        }
    }
}

/// The servers as they are offered: in order, without repetitions.
pub open spec fn offered(found: Seq<DiscoveredServer>) -> Seq<DiscoveredServer> {
    once_each(sorted_by(found, |a: DiscoveredServer, b: DiscoveredServer| server_less(a, b)))
}

/// Puts the servers that were found in order.
pub fn order_servers(found: Vec<DiscoveredServer>) -> (servers: Vec<DiscoveredServer>)
    ensures
        servers@ == offered(found@),
{
    let mut sorted = found;
    let before = |a: &DiscoveredServer, b: &DiscoveredServer| -> (r: bool)
        ensures
            r == server_less(*a, *b),
        {
            text_before(&a.name, &b.name) || (same_text(&a.name, &b.name) && address_before(
                a.address,
                b.address,
            ))
        };
    sort_stably(
        &mut sorted,
        before,
        Ghost(|a: DiscoveredServer, b: DiscoveredServer| server_less(a, b)),
    );
    let ghost all = sorted@;
    let mut servers: Vec<DiscoveredServer> = Vec::new();
    let mut i: usize = 0;
    assert(servers@ =~= once_each(all.take(0)));
    while i < sorted.len()
        invariant
            i <= sorted@.len(),
            all == sorted@,
            servers@ == once_each(all.take(i as int)),
        decreases sorted@.len() - i,
    {
        assert(all.take(i + 1).drop_last() =~= all.take(i as int));
        let n: usize = servers.len();
        if n == 0 || servers[n - 1].address != sorted[i].address {
            servers.push(sorted[i].clone());
        }
        i = i + 1;
    }
    assert(all.take(i as int) =~= all);
    servers
}

/// No server in the list has the address of the one before it, and every one was found.
pub proof fn law_offered_servers(found: Seq<DiscoveredServer>, i: int)
    requires
        0 <= i < offered(found).len(),
    ensures
        i > 0 ==> offered(found)[i - 1].address != offered(found)[i].address,
        found.contains(offered(found)[i]),
{
    let less = |a: DiscoveredServer, b: DiscoveredServer| server_less(a, b);
    let sorted = sorted_by(found, less);
    lemma_once_each(sorted, i);
    crate::order::law_sorting_keeps_items(found, less);
    assert(sorted.to_multiset().contains(offered(found)[i])) by {
        sorted.to_multiset_ensures();
    }
    found.to_multiset_ensures();
}

proof fn lemma_once_each(servers: Seq<DiscoveredServer>, i: int)
    requires
        0 <= i < once_each(servers).len(),
    ensures
        i > 0 ==> once_each(servers)[i - 1].address != once_each(servers)[i].address,
        servers.contains(once_each(servers)[i]),
    decreases servers.len(),
{
    if servers.len() > 0 {
        let rest = servers.drop_last();
        let before = once_each(rest);
        if i < before.len() {
            lemma_once_each(rest, i);
            let k = choose|k: int| 0 <= k < rest.len() && rest[k] == before[i];
            assert(servers[k] == before[i]);
        } else {
            assert(servers[servers.len() - 1] == once_each(servers)[i]);
        }
    }
}

/// Leaving repeated addresses out keeps the order.
proof fn lemma_once_each_in_order(
    servers: Seq<DiscoveredServer>,
    less: spec_fn(DiscoveredServer, DiscoveredServer) -> bool,
)
    requires
        in_order(servers, less),
    ensures
        in_order(once_each(servers), less),
        forall|k: int|
            0 <= k < once_each(servers).len() ==> servers.contains(
                #[trigger] once_each(servers)[k],
            ),
    decreases servers.len(),
{
    if servers.len() > 0 {
        let fewer = servers.drop_last();
        let last = servers.last();
        let before = once_each(fewer);
        let kept = once_each(servers);
        assert(in_order(fewer, less)) by {
            assert forall|i: int, j: int| 0 <= i < j < fewer.len() implies !less(
                #[trigger] fewer[j],
                #[trigger] fewer[i],
            ) by {
                assert(!less(servers[j], servers[i]));
            }
        }
        lemma_once_each_in_order(fewer, less);
        assert forall|k: int| 0 <= k < kept.len() implies servers.contains(#[trigger] kept[k]) by {
            if k < before.len() {
                assert(fewer.contains(before[k]));
                let m = choose|m: int| 0 <= m < fewer.len() && fewer[m] == before[k];
                assert(servers[m] == before[k]);
            } else {
                assert(servers[servers.len() - 1] == kept[k]);
            }
        }
        assert forall|i: int, j: int| 0 <= i < j < kept.len() implies !less(
            #[trigger] kept[j],
            #[trigger] kept[i],
        ) by {
            if j < before.len() {
                assert(!less(before[j], before[i]));
            } else {
                assert(fewer.contains(before[i]));
                let m = choose|m: int| 0 <= m < fewer.len() && fewer[m] == before[i];
                assert(!less(servers[servers.len() - 1], servers[m]));
            }
        }
    }
}

/// Servers are offered in the order of their names.
pub proof fn law_servers_are_offered_by_name(found: Seq<DiscoveredServer>, i: int, j: int)
    requires
        0 <= i < j < offered(found).len(),
    ensures
        !text_less(offered(found)[j].name@, offered(found)[i].name@),
{
    let less = |a: DiscoveredServer, b: DiscoveredServer| server_less(a, b);
    assert(sorts(less)) by {
        assert forall|a: DiscoveredServer, b: DiscoveredServer| #[trigger] less(a, b) implies !less(
            b,
            a,
        ) by {
            law_text_order(a.name@, b.name@, a.name@);
        }
        assert forall|a: DiscoveredServer, b: DiscoveredServer, c: DiscoveredServer|
            (#[trigger] less(a, b)) && !(#[trigger] less(c, b)) implies less(a, c) by {
            law_text_order(a.name@, b.name@, c.name@);
            law_text_order(c.name@, a.name@, b.name@);
            law_text_order(b.name@, c.name@, a.name@);
        }
    }
    law_sorting_sorts(found, less);
    lemma_once_each_in_order(sorted_by(found, less), less);
    assert(!less(offered(found)[j], offered(found)[i]));
}

} // verus!
