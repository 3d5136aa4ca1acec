//! Network addresses of the running interfaces.
//!
//! The operating system hands out a list of interface records. Each carries
//! a flag word and, possibly, a socket address. This module decides which of
//! them count, decodes their addresses, and gathers the addresses of each
//! family into a set.

use crate::text::append;
use crate::text::decimal;
use crate::text::join;
use crate::text::joined;
use crate::text::push_decimal;
use crate::text::views;
use core::hash::Hash;
use rustc_hash::FxBuildHasher;
use rustc_hash::FxHashSet;
use vstd::prelude::*;
use vstd::std_specs::hash::*;
use vstd::string::*;

verus! {

/// The build hasher of `rustc_hash`, which the address sets hash with.
#[verifier::external_type_specification]
#[verifier::external_body]
pub struct ExFxBuildHasher(FxBuildHasher);

/// `HashSet::insert` on a set that hashes with `FxBuildHasher`. That hasher
/// starts from the same state each time and has no state but the bytes
/// written to it, so for a key whose `Hash` and `Eq` agree with equality the
/// set holds afterwards what it held and the key; the result tells whether
/// the key was new.
#[verifier::external_body]
fn fx_set_insert<K: Eq + Hash>(set: &mut FxHashSet<K>, key: K) -> (fresh: bool)
    requires
        obeys_key_model::<K>(),
    ensures
        final(set)@ == old(set)@.insert(key),
        fresh == !old(set)@.contains(key),
{
    set.insert(key)
}

/// `HashSet::iter` on a set that hashes with `FxBuildHasher`, its items
/// copied into a vector: each item of the set once, in the order in which
/// the table is walked. Nothing is promised of that order.
#[verifier::external_body]
fn fx_set_items<K: Copy>(set: &FxHashSet<K>) -> (items: Vec<K>)
    requires
        obeys_key_model::<K>(),
    ensures
        items@.no_duplicates(),
        items@.to_set() == set@,
{
    set.iter().copied().collect()
}

/// The flag bits of an interface record, as the platform numbers them.
#[derive(Clone, Copy, Debug, PartialEq, Eq)]
pub struct FlagMasks {
    /// Set while the interface is running.
    pub running: u32,
    /// Set on the loopback interface.
    pub loopback: u32,
    /// Set on a deprecated address, where the platform marks such.
    pub deprecated: Option<u32>,
}

/// The socket address of an interface record, told apart by its family tag.
/// The bytes are in network order: the first is the most significant.
#[derive(Clone, Copy, Debug, PartialEq, Eq)]
pub enum RawAddress {
    /// An IPv4 address.
    V4([u8; 4]),
    /// An IPv6 address.
    V6([u8; 16]),
    /// An address of any other family.
    Other,
}

/// One record of the interface list.
#[derive(Clone, Copy, Debug, PartialEq, Eq)]
pub struct InterfaceRecord {
    /// The flag word of the interface.
    pub flags: u32,
    /// The address, where the record has one.
    pub address: Option<RawAddress>,
}

/// The number that four bytes in network order write.
pub open spec fn ipv4_key(octets: [u8; 4]) -> u32 {
    (octets[0] * 0x100_0000 + octets[1] * 0x1_0000 + octets[2] * 0x100 + octets[3]) as u32
}

/// The number that eight bytes of `octets` write, from index `at` on.
pub open spec fn be64(octets: [u8; 16], at: int) -> int {
    ((((((octets[at] * 256 + octets[at + 1]) * 256 + octets[at + 2]) * 256 + octets[at + 3]) * 256
        + octets[at + 4]) * 256 + octets[at + 5]) * 256 + octets[at + 6]) * 256 + octets[at + 7]
}

/// The number that sixteen bytes in network order write.
pub open spec fn ipv6_key(octets: [u8; 16]) -> u128 {
    (be64(octets, 0) * 0x1_0000_0000_0000_0000 + be64(octets, 8)) as u128
}

/// Whether an IPv6 address is link-local: its first two bytes are `fe 80`.
pub open spec fn is_link_local(octets: [u8; 16]) -> bool {
    octets[0] == 0xfe && octets[1] == 0x80
}

impl InterfaceRecord {
    /// Whether the record passes the filter chain: it has an address, its
    /// interface is running and is not the loopback interface, and, where
    /// the platform marks deprecated addresses, it is not marked.
    pub open spec fn admitted(self, masks: FlagMasks) -> bool {
        &&& self.address is Some
        &&& self.flags & masks.running != 0
        &&& self.flags & masks.loopback == 0
        &&& match masks.deprecated {
            Some(bit) => self.flags & bit == 0,
            None => true,
        }
    }

    /// Whether the record carries the IPv4 address `a`.
    pub open spec fn carries_ipv4(self, a: u32) -> bool {
        match self.address {
            Some(RawAddress::V4(octets)) => ipv4_key(octets) == a,
            _ => false,
        }
    }

    /// Whether the record carries the IPv6 address `a`, and in bytes whose
    /// first two are not `fe 80`.
    pub open spec fn carries_routable_ipv6(self, a: u128) -> bool {
        match self.address {
            Some(RawAddress::V6(octets)) => ipv6_key(octets) == a && !is_link_local(octets),
            _ => false,
        }
    }

    /// The IPv4 address that the record adds to the set, if any.
    pub open spec fn ipv4(self, masks: FlagMasks) -> Option<u32> {
        match self.address {
            Some(RawAddress::V4(octets)) if self.admitted(masks) => Some(ipv4_key(octets)),
            _ => None,
        }
    }

    /// The IPv6 address that the record adds to the set, if any.
    pub open spec fn ipv6(self, masks: FlagMasks) -> Option<u128> {
        match self.address {
            Some(RawAddress::V6(octets)) if self.admitted(masks) && !is_link_local(octets) => Some(
                ipv6_key(octets),
            ),
            _ => None,
        }
    }

    /// Runs the filter chain on the record.
    pub fn is_admitted(&self, masks: &FlagMasks) -> (r: bool)
        ensures
            r == self.admitted(*masks),
    {
        if self.address.is_none() {
            return false;
        }
        if self.flags & masks.running == 0 {
            return false;
        }
        if self.flags & masks.loopback != 0 {
            return false;
        }
        match masks.deprecated {
            Some(bit) => self.flags & bit == 0,
            None => true,
        }
    }

    /// Decodes the IPv4 address of a record that passes the filter chain.
    pub fn decode_ipv4(&self, masks: &FlagMasks) -> (r: Option<u32>)
        ensures
            r == self.ipv4(*masks),
    {
        if !self.is_admitted(masks) {
            return None;
        }
        match self.address {
            Some(RawAddress::V4(octets)) => Some(decode_ipv4_key(&octets)),
            _ => None,
        }
    }

    /// Decodes the IPv6 address of a record that passes the filter chain,
    /// unless the address is link-local.
    pub fn decode_ipv6(&self, masks: &FlagMasks) -> (r: Option<u128>)
        ensures
            r == self.ipv6(*masks),
    {
        if !self.is_admitted(masks) {
            return None;
        }
        match self.address {
            Some(RawAddress::V6(octets)) => {
                if octets[0] == 0xfe && octets[1] == 0x80 {
                    None
                } else {
                    Some(decode_ipv6_key(&octets))
                }
            },
            _ => None,
        }
    }
}

/// Reads four bytes in network order as one number.
pub fn decode_ipv4_key(octets: &[u8; 4]) -> (key: u32)
    ensures
        key == ipv4_key(*octets),
{
    (octets[0] as u32) * 0x100_0000 + (octets[1] as u32) * 0x1_0000 + (octets[2] as u32) * 0x100
        + (octets[3] as u32)
}

fn decode_be64(octets: &[u8; 16], at: usize) -> (r: u64)
    requires
        at + 8 <= 16,
    ensures
        r == be64(*octets, at as int),
{
    let mut r: u64 = octets[at] as u64;
    r = r * 256 + octets[at + 1] as u64;
    r = r * 256 + octets[at + 2] as u64;
    r = r * 256 + octets[at + 3] as u64;
    r = r * 256 + octets[at + 4] as u64;
    r = r * 256 + octets[at + 5] as u64;
    r = r * 256 + octets[at + 6] as u64;
    r = r * 256 + octets[at + 7] as u64;
    r
}

/// Reads sixteen bytes in network order as one number.
pub fn decode_ipv6_key(octets: &[u8; 16]) -> (key: u128)
    ensures
        key == ipv6_key(*octets),
{
    let high = decode_be64(octets, 0);
    let low = decode_be64(octets, 8);
    (high as u128) * 0x1_0000_0000_0000_0000 + (low as u128)
}

/// The IPv4 addresses of a list of records: those of the records that pass
/// the filter chain.
pub open spec fn ipv4_addresses(records: Seq<InterfaceRecord>, masks: FlagMasks) -> Set<u32> {
    Set::new(
        |a: u32|
            exists|i: int| 0 <= i < records.len() && (#[trigger] records[i]).ipv4(masks) == Some(a),
    )
}

/// The IPv6 addresses of a list of records: those of the records that pass
/// the filter chain and are not link-local.
pub open spec fn ipv6_addresses(records: Seq<InterfaceRecord>, masks: FlagMasks) -> Set<u128> {
    Set::new(
        |a: u128|
            exists|i: int| 0 <= i < records.len() && (#[trigger] records[i]).ipv6(masks) == Some(a),
    )
}

/// The addresses of the running interfaces, one set for each family.
pub struct AddressSets {
    /// The IPv4 addresses.
    pub v4: FxHashSet<u32>,
    /// The IPv6 addresses.
    pub v6: FxHashSet<u128>,
}

proof fn lemma_ipv4_addresses_step(records: Seq<InterfaceRecord>, masks: FlagMasks, i: int)
    requires
        0 <= i < records.len(),
    ensures
        ipv4_addresses(records.take(i + 1), masks) == match records[i].ipv4(masks) {
            Some(a) => ipv4_addresses(records.take(i), masks).insert(a),
            None => ipv4_addresses(records.take(i), masks),
        },
{
    let before = ipv4_addresses(records.take(i), masks);
    let after = ipv4_addresses(records.take(i + 1), masks);
    let expected = match records[i].ipv4(masks) {
        Some(a) => before.insert(a),
        None => before,
    };
    assert forall|a: u32| after.contains(a) <==> expected.contains(a) by {
        if after.contains(a) {
            let j = choose|j: int|
                0 <= j < records.take(i + 1).len() && (#[trigger] records.take(i + 1)[j]).ipv4(
                    masks,
                ) == Some(a);
            if j < i {
                assert(records.take(i)[j].ipv4(masks) == Some(a));
            }
        }
        if expected.contains(a) {
            if before.contains(a) {
                let j = choose|j: int|
                    0 <= j < records.take(i).len() && (#[trigger] records.take(i)[j]).ipv4(masks)
                        == Some(a);
                assert(records.take(i + 1)[j].ipv4(masks) == Some(a));
            } else {
                assert(records.take(i + 1)[i].ipv4(masks) == Some(a));
            }
        }
    }
    assert(after =~= expected);
}

proof fn lemma_ipv6_addresses_step(records: Seq<InterfaceRecord>, masks: FlagMasks, i: int)
    requires
        0 <= i < records.len(),
    ensures
        ipv6_addresses(records.take(i + 1), masks) == match records[i].ipv6(masks) {
            Some(a) => ipv6_addresses(records.take(i), masks).insert(a),
            None => ipv6_addresses(records.take(i), masks),
        },
{
    let before = ipv6_addresses(records.take(i), masks);
    let after = ipv6_addresses(records.take(i + 1), masks);
    let expected = match records[i].ipv6(masks) {
        Some(a) => before.insert(a),
        None => before,
    };
    assert forall|a: u128| after.contains(a) <==> expected.contains(a) by {
        if after.contains(a) {
            let j = choose|j: int|
                0 <= j < records.take(i + 1).len() && (#[trigger] records.take(i + 1)[j]).ipv6(
                    masks,
                ) == Some(a);
            if j < i {
                assert(records.take(i)[j].ipv6(masks) == Some(a));
            }
        }
        if expected.contains(a) {
            if before.contains(a) {
                let j = choose|j: int|
                    0 <= j < records.take(i).len() && (#[trigger] records.take(i)[j]).ipv6(masks)
                        == Some(a);
                assert(records.take(i + 1)[j].ipv6(masks) == Some(a));
            } else {
                assert(records.take(i + 1)[i].ipv6(masks) == Some(a));
            }
        }
    }
    assert(after =~= expected);
}

/// Walks the interface list and gathers the addresses of the records that
/// pass the filter chain. An address that several records carry is held
/// once.
pub fn collect_addresses(records: &[InterfaceRecord], masks: &FlagMasks) -> (sets: AddressSets)
    ensures
        sets.v4@ == ipv4_addresses(records@, *masks),
        sets.v6@ == ipv6_addresses(records@, *masks),
{
    let mut v4: FxHashSet<u32> = FxHashSet::default();
    let mut v6: FxHashSet<u128> = FxHashSet::default();
    let mut i: usize = 0;
    assert(ipv4_addresses(records@.take(0), *masks) =~= Set::empty());
    assert(ipv6_addresses(records@.take(0), *masks) =~= Set::empty());
    while i < records.len()
        invariant
            i <= records.len(),
            v4@ == ipv4_addresses(records@.take(i as int), *masks),
            v6@ == ipv6_addresses(records@.take(i as int), *masks),
        decreases records.len() - i,
    {
        proof {
            lemma_ipv4_addresses_step(records@, *masks, i as int);
            lemma_ipv6_addresses_step(records@, *masks, i as int);
        }
        let record = &records[i];
        if let Some(a) = record.decode_ipv4(masks) {
            fx_set_insert(&mut v4, a);
        }
        if let Some(a) = record.decode_ipv6(masks) {
            fx_set_insert(&mut v6, a);
        }
        i += 1;
    }
    assert(records@.take(i as int) =~= records@);
    AddressSets { v4, v6 }
}

/// An IPv4 address in dotted decimal.
pub open spec fn ipv4_text(a: u32) -> Seq<u8> {
    decimal((a / 0x100_0000) as nat) + ".".spec_bytes() + decimal((a / 0x1_0000 % 256) as nat)
        + ".".spec_bytes() + decimal((a / 0x100 % 256) as nat) + ".".spec_bytes() + decimal(
        (a % 256) as nat,
    )
}

/// Writes an IPv4 address in dotted decimal.
pub fn render_ipv4(a: u32) -> (out: Vec<u8>)
    ensures
        out@ == ipv4_text(a),
{
    let mut out: Vec<u8> = Vec::new();
    push_decimal(&mut out, (a / 0x100_0000) as u64);
    append(&mut out, ".".as_bytes());
    push_decimal(&mut out, (a / 0x1_0000 % 256) as u64);
    append(&mut out, ".".as_bytes());
    push_decimal(&mut out, (a / 0x100 % 256) as u64);
    append(&mut out, ".".as_bytes());
    push_decimal(&mut out, (a % 256) as u64);
    assert(out@ =~= ipv4_text(a));
    out
}

/// The addresses of `order` in dotted decimal, with a comma and a space
/// between each two.
pub open spec fn ipv4_list_text(order: Seq<u32>) -> Seq<u8> {
    joined(Seq::new(order.len(), |i: int| ipv4_text(order[i])), ", ".spec_bytes())
}

/// Writes the addresses of `order`, in that order, in dotted decimal with a
/// comma and a space between each two.
pub fn render_ipv4_list(order: &[u32]) -> (out: Vec<u8>)
    ensures
        out@ == ipv4_list_text(order@),
{
    let mut texts: Vec<Vec<u8>> = Vec::new();
    let mut i: usize = 0;
    while i < order.len()
        invariant
            i <= order.len(),
            texts.len() == i,
            forall|j: int| 0 <= j < i ==> (#[trigger] texts[j])@ == ipv4_text(order[j]),
        decreases order.len() - i,
    {
        texts.push(render_ipv4(order[i]));
        i += 1;
    }
    assert(views(texts@) =~= Seq::new(order@.len(), |i: int| ipv4_text(order[i])));
    join(&texts, ", ".as_bytes())
}

/// The addresses of the running interfaces, as the list that is shown: one
/// item, which holds the IPv4 addresses in dotted decimal. Each address
/// stands there once; their order is that in which the set is walked, of
/// which nothing is promised. IPv6 addresses are gathered by
/// `collect_addresses` and not shown.
pub fn ip(records: &[InterfaceRecord], masks: &FlagMasks) -> (out: Vec<Vec<u8>>)
    ensures
        out.len() == 1,
        exists|order: Seq<u32>|
            order.no_duplicates() && order.to_set() == ipv4_addresses(records@, *masks) && out[0]@
                == #[trigger] ipv4_list_text(order),
{
    let sets = collect_addresses(records, masks);
    let order = fx_set_items(&sets.v4);
    let line = render_ipv4_list(order.as_slice());
    let mut out: Vec<Vec<u8>> = Vec::new();
    out.push(line);
    assert(order@.no_duplicates() && order@.to_set() == ipv4_addresses(records@, *masks) && out[0]@
        == ipv4_list_text(order@));
    out
}

/// No address enters the set from a record that the filter chain rejects:
/// where every record that carries `a` has no running interface, is on the
/// loopback interface or is marked deprecated, `a` is not in the set.
pub proof fn lemma_rejected_ipv4_stays_out(records: Seq<InterfaceRecord>, masks: FlagMasks, a: u32)
    requires
        forall|i: int|
            0 <= i < records.len() && (#[trigger] records[i]).carries_ipv4(a)
                ==> !records[i].admitted(masks),
    ensures
        !ipv4_addresses(records, masks).contains(a),
{
}

/// The same of the IPv6 set: where every record that carries `a`, in bytes
/// that do not begin with `fe 80`, is rejected by the filter chain, `a` is
/// not in the set.
pub proof fn lemma_rejected_ipv6_stays_out(
    records: Seq<InterfaceRecord>,
    masks: FlagMasks,
    a: u128,
)
    requires
        forall|i: int|
            0 <= i < records.len() && (#[trigger] records[i]).carries_routable_ipv6(a)
                ==> !records[i].admitted(masks),
    ensures
        !ipv6_addresses(records, masks).contains(a),
{
}

/// Every address of the IPv4 set is that of a record which has an address,
/// whose interface is running and is not the loopback interface, and which
/// is not marked deprecated.
pub proof fn lemma_ipv4_comes_from_admitted(records: Seq<InterfaceRecord>, masks: FlagMasks, a: u32)
    requires
        ipv4_addresses(records, masks).contains(a),
    ensures
        exists|i: int|
            0 <= i < records.len() && (#[trigger] records[i]).admitted(masks)
                && records[i].carries_ipv4(a),
{
    let i = choose|i: int| 0 <= i < records.len() && (#[trigger] records[i]).ipv4(masks) == Some(a);
    assert(records[i].admitted(masks));
}

/// Every address of the IPv6 set is that of a record which passes the
/// filter chain and whose first two bytes are not `fe 80`.
pub proof fn lemma_ipv6_comes_from_admitted(
    records: Seq<InterfaceRecord>,
    masks: FlagMasks,
    a: u128,
)
    requires
        ipv6_addresses(records, masks).contains(a),
    ensures
        exists|i: int|
            0 <= i < records.len() && (#[trigger] records[i]).admitted(masks)
                && records[i].carries_routable_ipv6(a),
{
    let i = choose|i: int| 0 <= i < records.len() && (#[trigger] records[i]).ipv6(masks) == Some(a);
    assert(records[i].admitted(masks));
}

/// The first two bytes of the IPv6 address that the number `a` stands for,
/// as one number.
pub open spec fn ipv6_leading_pair(a: u128) -> int {
    (a as int) / 0x1_0000_0000_0000_0000_0000_0000_0000
}

/// The number of an IPv6 address begins with its first two bytes.
pub proof fn lemma_ipv6_key_leading_pair(octets: [u8; 16])
    ensures
        ipv6_leading_pair(ipv6_key(octets)) == octets[0] * 256 + octets[1],
{
    let pair: int = octets[0] * 256 + octets[1];
    let rest: int = (((((octets[2] * 256 + octets[3]) * 256 + octets[4]) * 256 + octets[5]) * 256
        + octets[6]) * 256 + octets[7]) * 0x1_0000_0000_0000_0000 + be64(octets, 8);
    let key: int = be64(octets, 0) * 0x1_0000_0000_0000_0000 + be64(octets, 8);
    assert(key == pair * 0x1_0000_0000_0000_0000_0000_0000_0000 + rest);
    assert(0 <= rest < 0x1_0000_0000_0000_0000_0000_0000_0000);
    assert(0 <= key < 0x1_0000_0000_0000_0000_0000_0000_0000_0000);
    assert(key / 0x1_0000_0000_0000_0000_0000_0000_0000 == pair) by (nonlinear_arith)
        requires
            key == pair * 0x1_0000_0000_0000_0000_0000_0000_0000 + rest,
            0 <= rest < 0x1_0000_0000_0000_0000_0000_0000_0000,
    ;
}

/// No address of the IPv6 set begins with the bytes `fe 80`.
pub proof fn lemma_link_local_stays_out(records: Seq<InterfaceRecord>, masks: FlagMasks, a: u128)
    requires
        ipv6_addresses(records, masks).contains(a),
    ensures
        ipv6_leading_pair(a) != 0xfe80,
{
    let i = choose|i: int| 0 <= i < records.len() && (#[trigger] records[i]).ipv6(masks) == Some(a);
    match records[i].address {
        Some(RawAddress::V6(octets)) => {
            lemma_ipv6_key_leading_pair(octets);
        },
        _ => {},
    }
}

} // verus!
