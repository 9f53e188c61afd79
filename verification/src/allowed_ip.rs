//! The routing table: IP networks with a value each, looked up by the
//! longest prefix that covers an address.
//!
//! The table itself is `ip_network_table::IpNetworkTable`. What it does is
//! stated here over its entries, a map from networks to values, and the
//! functions around it are proved against those statements.

use ip_network::IpNetwork;
use ip_network_table::IpNetworkTable;
use vstd::prelude::*;

verus! {

/// An IP address as a number: the address's bytes read most significant
/// first, so that a network's prefix is the top bits.
#[derive(Clone, Copy, Debug, PartialEq, Eq, Hash, Structural)]
pub enum IpAddress {
    V4(u32),
    V6(u128),
}

/// A network: its address, host bits zero, and the length of its prefix.
pub type Network = (IpAddress, u8);

impl IpAddress {
    /// Width of the address in bits, which is also the longest prefix.
    pub open spec fn bits(self) -> u8 {
        match self {
            IpAddress::V4(_) => 32,
            IpAddress::V6(_) => 128,
        }
    }

    /// Width of the address in bits.
    pub fn max_prefix(&self) -> (n: u8)
        ensures
            n == self.bits(),
    {
        match self {
            IpAddress::V4(_) => 32,
            IpAddress::V6(_) => 128,
        }
    }

    /// The address with all but its first `prefix` bits cleared.
    pub open spec fn truncate(self, prefix: u8) -> IpAddress
        recommends
            prefix <= self.bits(),
    {
        match self {
            IpAddress::V4(a) => IpAddress::V4(
                if prefix == 0 {
                    0
                } else {
                    a & (0xffff_ffffu32 << ((32 - prefix) as u32))
                },
            ),
            IpAddress::V6(a) => IpAddress::V6(
                if prefix == 0 {
                    0
                } else {
                    a & (0xffff_ffff_ffff_ffff_ffff_ffff_ffff_ffffu128 << ((128 - prefix) as u128))
                },
            ),
        }
    }
}

/// Whether `addr` lies in `net`: they are of one family and agree on the
/// prefix.
pub open spec fn net_contains(net: Network, addr: IpAddress) -> bool {
    net.1 <= addr.bits() && addr.truncate(net.1) == net.0
}

/// Whether `net` is written with its host bits zero and a prefix that fits
/// its family.
pub open spec fn net_canonical(net: Network) -> bool {
    net.1 <= net.0.bits() && net.0.truncate(net.1) == net.0
}

/// Whether every network of `m` is canonical.
pub open spec fn all_canonical(m: Map<Network, u32>) -> bool {
    forall|net: Network| #[trigger] m.contains_key(net) ==> net_canonical(net)
}

/// The entry of `m` that covers `addr` with the longest prefix not above
/// `prefix`, found by trying each length from `prefix` down.
pub open spec fn match_up_to(m: Map<Network, u32>, addr: IpAddress, prefix: u8) -> Option<
    Network,
>
    decreases prefix,
{
    if m.contains_key((addr.truncate(prefix), prefix)) {
        Some((addr.truncate(prefix), prefix))
    } else if prefix == 0 {
        None
    } else {
        match_up_to(m, addr, (prefix - 1) as u8)
    }
}

/// The entry of `m` that covers `addr` with the longest prefix, if any does.
pub open spec fn longest_match(m: Map<Network, u32>, addr: IpAddress) -> Option<Network> {
    match_up_to(m, addr, addr.bits())
}

/// What `match_up_to` finds is an entry that covers the address, and none
/// with a longer prefix within the bound does; it finds nothing only where
/// nothing within the bound covers the address.
pub proof fn lemma_match_up_to(m: Map<Network, u32>, addr: IpAddress, prefix: u8)
    requires
        prefix <= addr.bits(),
    ensures
        match match_up_to(m, addr, prefix) {
            Some(net) => {
                &&& m.contains_key(net)
                &&& net_contains(net, addr)
                &&& net.1 <= prefix
                &&& forall|other: Network|
                    m.contains_key(other) && net_contains(other, addr) && other.1 <= prefix
                        ==> other.1 <= net.1
            },
            None => forall|other: Network|
                m.contains_key(other) && net_contains(other, addr) ==> other.1 > prefix,
        },
    decreases prefix,
{
    if prefix > 0 && !m.contains_key((addr.truncate(prefix), prefix)) {
        lemma_match_up_to(m, addr, (prefix - 1) as u8);
    }
}

/// Longest-prefix match: for any table `m` and address `addr`, the match is
/// the one entry that covers `addr` and whose prefix no other covering entry
/// exceeds; there is no match exactly when no entry covers `addr`.
pub proof fn lemma_longest_match(m: Map<Network, u32>, addr: IpAddress)
    ensures
        match longest_match(m, addr) {
            Some(net) => {
                &&& m.contains_key(net)
                &&& net_contains(net, addr)
                &&& forall|other: Network|
                    m.contains_key(other) && net_contains(other, addr) ==> other.1 <= net.1
                &&& forall|other: Network|
                    m.contains_key(other) && net_contains(other, addr) && other.1 == net.1
                        ==> other == net
            },
            None => forall|other: Network| m.contains_key(other) ==> !net_contains(other, addr),
        },
        forall|net: Network| #[trigger]
            most_specific(m, net, addr) ==> longest_match(m, addr) == Some(net),
{
    lemma_match_up_to(m, addr, addr.bits());
}

/// Clearing the host bits twice is clearing them once.
pub proof fn lemma_truncate_idempotent(addr: IpAddress, prefix: u8)
    requires
        prefix <= addr.bits(),
    ensures
        addr.truncate(prefix).truncate(prefix) == addr.truncate(prefix),
        net_canonical((addr.truncate(prefix), prefix)),
{
    match addr {
        IpAddress::V4(a) => {
            if prefix != 0 {
                let s = (32 - prefix) as u32;
                assert((a & (0xffff_ffffu32 << s)) & (0xffff_ffffu32 << s) == a & (0xffff_ffffu32
                    << s)) by (bit_vector);
            }
        },
        IpAddress::V6(a) => {
            if prefix != 0 {
                let s = (128 - prefix) as u128;
                assert((a & (0xffff_ffff_ffff_ffff_ffff_ffff_ffff_ffffu128 << s)) & (
                0xffff_ffff_ffff_ffff_ffff_ffff_ffff_ffffu128 << s) == a & (
                0xffff_ffff_ffff_ffff_ffff_ffff_ffff_ffffu128 << s)) by (bit_vector);
            }
        },
    }
}

/// `ip_network_table::IpNetworkTable`, taken as it is. Nothing is known of
/// the inside of a table; what it holds is spoken of as [`table_entries`].
#[verifier::external_type_specification]
#[verifier::external_body]
#[verifier::reject_recursive_types(T)]
pub struct ExIpNetworkTable<T>(IpNetworkTable<T>);

/// The entries of a table: each network it holds, IPv4 or IPv6, with the
/// value stored under it.
pub uninterp spec fn table_entries(table: IpNetworkTable<u32>) -> Map<Network, u32>;

/// `IpNetworkTable::new`: a table without entries.
#[verifier::external_body]
fn table_new() -> (empty: IpNetworkTable<u32>)
    ensures
        table_entries(empty) =~= Map::empty(),
{
    IpNetworkTable::new()
}

/// `IpNetwork::new_truncate`, then `IpNetworkTable::insert`: stores `data`
/// under the network of `key` with prefix `cidr`, host bits cleared, and
/// returns the value that was stored under that network before, if any.
/// Nothing else in the table changes.
#[verifier::external_body]
fn table_insert(
    table: &mut IpNetworkTable<u32>,
    key: IpAddress,
    cidr: u8,
    data: u32,
) -> (prev: Option<u32>)
    requires
        cidr <= key.bits(),
    ensures
        table_entries(*final(table)) == table_entries(*old(table)).insert(
            (key.truncate(cidr), cidr),
            data,
        ),
        prev == if table_entries(*old(table)).contains_key((key.truncate(cidr), cidr)) {
            Some(table_entries(*old(table))[(key.truncate(cidr), cidr)])
        } else {
            None
        },
{
    let network = match key {
        IpAddress::V4(a) => IpNetwork::new_truncate(a.to_be_bytes(), cidr),
        IpAddress::V6(a) => IpNetwork::new_truncate(a.to_be_bytes(), cidr),
    };
    table.insert(network.expect("cidr is valid length"), data)
}

/// Whether `net` is the most specific network of `m` that contains `addr`:
/// it is an entry and contains `addr`, and no entry that contains `addr` has
/// a longer prefix.
pub open spec fn most_specific(m: Map<Network, u32>, net: Network, addr: IpAddress) -> bool {
    &&& m.contains_key(net)
    &&& net_contains(net, addr)
    &&& forall|other: Network|
        #[trigger] m.contains_key(other) && net_contains(other, addr) ==> other.1 <= net.1
}

/// `IpNetworkTable::longest_match`: the value stored under the most
/// specific network of the table that contains `key`; nothing where no
/// network of the table contains `key`.
#[verifier::external_body]
fn table_longest_match(table: &IpNetworkTable<u32>, key: IpAddress) -> (found: Option<&u32>)
    ensures
        match found {
            Some(value) => exists|net: Network| #[trigger]
                most_specific(table_entries(*table), net, key) && table_entries(*table)[net]
                    == *value,
            None => forall|net: Network| #[trigger]
                table_entries(*table).contains_key(net) ==> !net_contains(net, key),
        },
{
    match key {
        IpAddress::V4(a) => table.longest_match(a.to_be_bytes()).map(|(_net, data)| data),
        IpAddress::V6(a) => table.longest_match(a.to_be_bytes()).map(|(_net, data)| data),
    }
}

/// Whether `predicate` turns `value` down: the negation that
/// [`AllowedIps::remove`] hands to the table, which keeps what it is told to
/// keep.
fn keeps<F: Fn(&u32) -> bool>(predicate: &F, value: &u32) -> (keep: bool)
    requires
        call_requires(*predicate, (value,)),
    ensures
        call_ensures(*predicate, (value,), !keep),
{
    !predicate(value)
}

/// `IpNetworkTable::retain`: asks `predicate` once about the value of every
/// entry and removes the entries for which it answered `true`. The entries
/// that stay keep their values.
#[verifier::external_body]
fn table_retain<F: Fn(&u32) -> bool>(table: &mut IpNetworkTable<u32>, predicate: &F)
    requires
        forall|value: u32| call_requires(*predicate, (&value,)),
    ensures
        forall|net: Network| #[trigger]
            table_entries(*final(table)).contains_key(net) ==> {
                &&& table_entries(*old(table)).contains_key(net)
                &&& table_entries(*final(table))[net] == table_entries(*old(table))[net]
                &&& call_ensures(*predicate, (&table_entries(*old(table))[net],), false)
            },
        forall|net: Network| #[trigger]
            table_entries(*old(table)).contains_key(net) && !table_entries(
                *final(table),
            ).contains_key(net) ==> call_ensures(
                *predicate,
                (&table_entries(*old(table))[net],),
                true,
            ),
{
    table.retain(|_, value| keeps(predicate, value));
}

/// Whether `items` lists the entries of `m`: each item is an entry, each
/// entry is an item, and no network comes twice.
pub open spec fn lists_entries(items: Seq<(&u32, IpAddress, u8)>, m: Map<Network, u32>) -> bool {
    &&& forall|i: int|
        0 <= i < items.len() ==> m.contains_key((#[trigger] items[i].1, items[i].2)) && m[(
            items[i].1,
            items[i].2,
        )] == *items[i].0
    &&& forall|net: Network| #[trigger]
        m.contains_key(net) ==> exists|i: int|
            0 <= i < items.len() && (#[trigger] items[i].1, items[i].2) == net
    &&& forall|i: int, j: int|
        0 <= i < j < items.len() ==> (#[trigger] items[i].1, items[i].2) != (
            #[trigger] items[j].1,
            items[j].2,
        )
}

/// `IpNetworkTable::iter`: every entry of the table once, as value, network
/// address and prefix length. The order is the table's own.
#[verifier::external_body]
fn table_iter(table: &IpNetworkTable<u32>) -> (items: Vec<(&u32, IpAddress, u8)>)
    ensures
        lists_entries(items@, table_entries(*table)),
{
    table.iter().map(|(net, data)| match net {
        IpNetwork::V4(n) => (data, IpAddress::V4(u32::from(n.network_address())), n.netmask()),
        IpNetwork::V6(n) => (data, IpAddress::V6(u128::from(n.network_address())), n.netmask()),
    }).collect()
}

/// The table `m` after the entries of `items` were inserted in turn, each
/// under its network with the host bits cleared.
pub open spec fn insert_all(m: Map<Network, u32>, items: Seq<(IpAddress, u8, u32)>) -> Map<
    Network,
    u32,
>
    decreases items.len(),
{
    if items.len() == 0 {
        m
    } else {
        insert_all(m, items.drop_last()).insert(
            (items.last().0.truncate(items.last().1), items.last().1),
            items.last().2,
        )
    }
}

/// A longest-prefix table from IP networks to `u32` values.
pub struct AllowedIps {
    ips: IpNetworkTable<u32>,
}

impl View for AllowedIps {
    type V = Map<Network, u32>;

    closed spec fn view(&self) -> Map<Network, u32> {
        table_entries(self.ips)
    }
}

impl AllowedIps {
    /// The table's invariant: every network in it is canonical.
    pub open spec fn wf(&self) -> bool {
        all_canonical(self@)
    }

    /// An empty table.
    pub fn new() -> (table: Self)
        ensures
            table.wf(),
            table@ == Map::<Network, u32>::empty(),
    {
        Self { ips: table_new() }
    }

    /// Empties the table.
    pub fn clear(&mut self)
        ensures
            final(self).wf(),
            final(self)@ == Map::<Network, u32>::empty(),
    {
        self.ips = table_new();
    }

    /// Stores `data` under the network that `key` lies in with prefix
    /// `cidr`, and returns what was stored under that network before.
    pub fn insert(&mut self, key: IpAddress, cidr: u8, data: u32) -> (prev: Option<u32>)
        requires
            old(self).wf(),
            cidr <= key.bits(),
        ensures
            final(self).wf(),
            final(self)@ == old(self)@.insert((key.truncate(cidr), cidr), data),
            prev == if old(self)@.contains_key((key.truncate(cidr), cidr)) {
                Some(old(self)@[(key.truncate(cidr), cidr)])
            } else {
                None
            },
    {
        let prev = table_insert(&mut self.ips, key, cidr, data);
        proof {
            lemma_truncate_idempotent(key, cidr);
            assert forall|net: Network| #[trigger] self@.contains_key(net) implies net_canonical(
                net,
            ) by {
                if net != (key.truncate(cidr), cidr) {
                    assert(old(self)@.contains_key(net));
                }
            }
        }
        prev
    }

    /// The value of the entry that covers `key` with the longest prefix.
    pub fn find(&self, key: IpAddress) -> (found: Option<&u32>)
        ensures
            found == match longest_match(self@, key) {
                Some(net) => Some(&self@[net]),
                None => None,
            },
    {
        let found = table_longest_match(&self.ips, key);
        proof {
            lemma_longest_match(self@, key);
        }
        found
    }

    /// Removes the entries whose value `predicate` accepts and keeps the
    /// others as they are.
    ///
    /// `predicate` is asked once about each entry. An entry stays only if
    /// the answer for its value was `false`, and leaves only if it was
    /// `true`.
    pub fn remove<F: Fn(&u32) -> bool>(&mut self, predicate: F)
        requires
            old(self).wf(),
            forall|value: u32| call_requires(predicate, (&value,)),
        ensures
            final(self).wf(),
            forall|net: Network| #[trigger]
                final(self)@.contains_key(net) ==> {
                    &&& old(self)@.contains_key(net)
                    &&& final(self)@[net] == old(self)@[net]
                    &&& call_ensures(predicate, (&old(self)@[net],), false)
                },
            forall|net: Network| #[trigger]
                old(self)@.contains_key(net) && !final(self)@.contains_key(net) ==> call_ensures(
                    predicate,
                    (&old(self)@[net],),
                    true,
                ),
    {
        table_retain(&mut self.ips, &predicate);
        proof {
            assert forall|net: Network| #[trigger] self@.contains_key(net) implies net_canonical(
                net,
            ) by {
                assert(old(self)@.contains_key(net));
            }
        }
    }

    /// The entries of the table, each once, as value, network address and
    /// prefix length.
    pub fn iter(&self) -> (items: Vec<(&u32, IpAddress, u8)>)
        ensures
            lists_entries(items@, self@),
    {
        table_iter(&self.ips)
    }

    /// Inserts the entries of `items` in turn, as [`AllowedIps::insert`]
    /// does, a later one replacing an earlier one under the same network.
    pub fn extend(&mut self, items: Vec<(IpAddress, u8, u32)>)
        requires
            old(self).wf(),
            forall|i: int| 0 <= i < items@.len() ==> (#[trigger] items@[i]).1 <= items@[i].0.bits(),
        ensures
            final(self).wf(),
            final(self)@ == insert_all(old(self)@, items@),
    {
        let n = items.len();
        let mut i: usize = 0;
        while i < n
            invariant
                i <= n,
                n == items@.len(),
                self.wf(),
                forall|k: int|
                    0 <= k < items@.len() ==> (#[trigger] items@[k]).1 <= items@[k].0.bits(),
                self@ == insert_all(old(self)@, items@.take(i as int)),
            decreases n - i,
        {
            let (ip, cidr, value) = items[i];
            self.insert(ip, cidr, value);
            proof {
                assert(items@.take(i + 1).drop_last() =~= items@.take(i as int));
            }
            i += 1;
        }
        proof {
            assert(items@.take(n as int) =~= items@);
        }
    }
}

impl Default for AllowedIps {
    fn default() -> (table: Self)
        ensures
            table.wf(),
            table@ == Map::<Network, u32>::empty(),
    {
        AllowedIps::new()
    }
}

} // verus!
