//! Target expansion: literal addresses, CIDR blocks and resolved host names
//! become one deduplicated, exclusion-filtered, ascending address list.

use vstd::prelude::*;
use core::str::FromStr;
use cidr_utils::cidr::{IpCidr, IpInet};
use crate::input::ArwahOpts;

verus! {

/// An IP address as plain numbers: the 32-bit or 128-bit value of the
/// address in network order.
#[derive(Debug, Clone, Copy, PartialEq, Eq, Hash, Structural)]
pub enum ArwahIpAddress {
    V4(u32),
    V6(u128),
}

impl ArwahIpAddress {
    /// The address's numeric value, widened to 128 bits.
    pub open spec fn spec_value(self) -> u128 {
        match self {
            ArwahIpAddress::V4(x) => x as u128,
            ArwahIpAddress::V6(x) => x,
        }
    }

    /// Whether the address belongs to the larger family.
    pub open spec fn spec_is_v6(self) -> bool {
        self is V6
    }

    /// The strict ascending order on addresses: the whole 32-bit family
    /// first, then the 128-bit family, each by numeric value.
    pub open spec fn spec_lt(self, other: Self) -> bool {
        if self.spec_is_v6() != other.spec_is_v6() {
            !self.spec_is_v6()
        } else {
            self.spec_value() < other.spec_value()
        }
    }

    /// Comparison used to keep the expansion ascending.
    pub fn arwah_lt(&self, other: &Self) -> (r: bool)
        ensures
            r == self.spec_lt(*other),
    {
        match (self, other) {
            (ArwahIpAddress::V4(a), ArwahIpAddress::V4(b)) => *a < *b,
            (ArwahIpAddress::V4(_), ArwahIpAddress::V6(_)) => true,
            (ArwahIpAddress::V6(_), ArwahIpAddress::V4(_)) => false,
            (ArwahIpAddress::V6(a), ArwahIpAddress::V6(b)) => *a < *b,
        }
    }
}

/// A block of addresses of one family: every address whose value lies in
/// `[first, last]`.
#[derive(Debug, Clone, Copy, PartialEq, Eq, Structural)]
pub struct ArwahIpCidr {
    pub v6: bool,
    pub first: u128,
    pub last: u128,
}

impl ArwahIpCidr {
    /// A well-formed block: a nonempty range that fits its family.
    pub open spec fn wf(self) -> bool {
        &&& self.first <= self.last
        &&& !self.v6 ==> self.last < 0x1_0000_0000u128
    }

    /// Whether an address lies in the block.
    pub open spec fn spec_contains(self, ip: ArwahIpAddress) -> bool {
        &&& ip.spec_is_v6() == self.v6
        &&& self.first <= ip.spec_value() <= self.last
    }

    /// Exact containment check.
    pub fn arwah_contains(&self, ip: &ArwahIpAddress) -> (r: bool)
        ensures
            r == self.spec_contains(*ip),
    {
        match ip {
            ArwahIpAddress::V4(x) => !self.v6 && self.first <= *x as u128 && *x as u128
                <= self.last,
            ArwahIpAddress::V6(x) => self.v6 && self.first <= *x && *x <= self.last,
        }
    }

    /// The address of the block at offset `k`.
    pub open spec fn spec_addr_at(self, k: int) -> ArwahIpAddress {
        if self.v6 {
            ArwahIpAddress::V6((self.first + k) as u128)
        } else {
            ArwahIpAddress::V4((self.first + k) as u32)
        }
    }

    /// Every address of the block, ascending.
    pub open spec fn spec_addresses(self) -> Seq<ArwahIpAddress> {
        Seq::new((self.last - self.first + 1) as nat, |k: int| self.spec_addr_at(k))
    }

    /// Enumerates the block's addresses in ascending order.
    pub fn arwah_addresses(&self) -> (r: Vec<ArwahIpAddress>)
        requires
            self.wf(),
            self.last - self.first < usize::MAX,
        ensures
            r@ == self.spec_addresses(),
    {
        let mut out: Vec<ArwahIpAddress> = Vec::new();
        let count: u128 = self.last - self.first;
        let mut k: u128 = 0;
        while k <= count
            invariant
                self.wf(),
                count == self.last - self.first,
                count < usize::MAX,
                k <= count + 1,
                k == out@.len(),
                forall|j: int| 0 <= j < out@.len() ==> out@[j] == self.spec_addr_at(j),
            decreases count + 1 - k,
        {
            let current = self.first + k;
            if self.v6 {
                out.push(ArwahIpAddress::V6(current));
            } else {
                out.push(ArwahIpAddress::V4(current as u32));
            }
            k = k + 1;
        }
        proof {
            assert(out@ =~= self.spec_addresses());
        }
        out
    }
}

/// What the target parser accepts for one input string, as the `cidr`
/// crate's grammar defines it: an address, or an address with a network
/// length, reduced to the network's address block.
pub uninterp spec fn spec_inet_block_of(s: Seq<char>) -> Option<ArwahIpCidr>;

/// What the exclusion parser accepts: the same grammar, except that a
/// network form must have zero host bits.
pub uninterp spec fn spec_cidr_block_of(s: Seq<char>) -> Option<ArwahIpCidr>;

/// Relies on `cidr_utils::cidr::IpInet::from_str` (the `cidr` crate's
/// `IpInet` parser) and on the block bounds `network().first_address()` and
/// `network().last_address()`, which the crate keeps ordered within one
/// address family.
#[verifier::external_body]
fn arwah_inet_parse(s: &str) -> (r: Option<ArwahIpCidr>)
    ensures
        r == spec_inet_block_of(s@),
        r matches Some(c) ==> c.wf(),
{
    match IpInet::from_str(s) {
        Ok(IpInet::V4(i)) => Some(ArwahIpCidr {
            v6: false,
            first: u32::from_be_bytes(i.network().first_address().octets()) as u128,
            last: u32::from_be_bytes(i.network().last_address().octets()) as u128,
        }),
        Ok(IpInet::V6(i)) => Some(ArwahIpCidr {
            v6: true,
            first: u128::from_be_bytes(i.network().first_address().octets()),
            last: u128::from_be_bytes(i.network().last_address().octets()),
        }),
        Err(_) => None,
    }
}

/// Relies on `cidr_utils::cidr::IpCidr::from_str` (the `cidr` crate's
/// `IpCidr` parser) and on the block bounds `first_address()` and
/// `last_address()`, which the crate keeps ordered within one address
/// family.
#[verifier::external_body]
fn arwah_cidr_parse(s: &str) -> (r: Option<ArwahIpCidr>)
    ensures
        r == spec_cidr_block_of(s@),
        r matches Some(c) ==> c.wf(),
{
    match IpCidr::from_str(s) {
        Ok(IpCidr::V4(c)) => Some(ArwahIpCidr {
            v6: false,
            first: u32::from_be_bytes(c.first_address().octets()) as u128,
            last: u32::from_be_bytes(c.last_address().octets()) as u128,
        }),
        Ok(IpCidr::V6(c)) => Some(ArwahIpCidr {
            v6: true,
            first: u128::from_be_bytes(c.first_address().octets()),
            last: u128::from_be_bytes(c.last_address().octets()),
        }),
        Err(_) => None,
    }
}

/// Name-server results for one host name, as the caller resolved it.
#[derive(Debug, Clone)]
pub struct ArwahHostLookup {
    pub name: String,
    pub ips: Vec<ArwahIpAddress>,
}

/// One input string that names a file, with its lines, or nothing where the
/// file could not be read.
#[derive(Debug, Clone)]
pub struct ArwahFileEntry {
    pub path: String,
    pub lines: Option<Vec<String>>,
}

/// Everything the caller gathered from the outside world before expansion:
/// resolver answers by host name, and file contents by path.
#[derive(Debug, Clone)]
pub struct ArwahLookups {
    pub hosts: Vec<ArwahHostLookup>,
    pub files: Vec<ArwahFileEntry>,
}

/// The resolver answer for a name: the first recorded entry, or empty.
pub open spec fn spec_host_ips(hosts: Seq<ArwahHostLookup>, name: Seq<char>) -> Seq<ArwahIpAddress>
    decreases hosts.len(),
{
    if hosts.len() == 0 {
        Seq::empty()
    } else if hosts[0].name@ == name {
        hosts[0].ips@
    } else {
        spec_host_ips(hosts.drop_first(), name)
    }
}

/// The recorded lines of a file, if the path was recorded as readable.
pub open spec fn spec_file_lines(files: Seq<ArwahFileEntry>, path: Seq<char>) -> Option<
    Seq<String>,
>
    decreases files.len(),
{
    if files.len() == 0 {
        None
    } else if files[0].path@ == path {
        match files[0].lines {
            Some(lines) => Some(lines@),
            None => None,
        }
    } else {
        spec_file_lines(files.drop_first(), path)
    }
}

/// What one input string expands to, before files are consulted: the block
/// it parses to, else the resolver's answer for it.  A block with more
/// addresses than a vector can hold cannot be materialized and expands to
/// nothing.
pub open spec fn spec_expand_direct(s: Seq<char>, hosts: Seq<ArwahHostLookup>) -> Seq<
    ArwahIpAddress,
> {
    match spec_inet_block_of(s) {
        Some(c) => if c.last - c.first < usize::MAX {
            c.spec_addresses()
        } else {
            Seq::empty()
        },
        None => spec_host_ips(hosts, s),
    }
}

/// Expands one input string: the parsed block or resolver answer, else the
/// string's file lines each expanded in turn, else nothing.
pub open spec fn spec_expand_entry(s: Seq<char>, lookups: ArwahLookups) -> Seq<ArwahIpAddress> {
    let direct = spec_expand_direct(s, lookups.hosts@);
    if direct.len() > 0 {
        direct
    } else {
        match spec_file_lines(lookups.files@, s) {
            Some(lines) => Seq::new(lines.len(), |i: int| lines[i]).map_values(
                |line: String| spec_expand_direct(line@, lookups.hosts@),
            ).flatten(),
            None => Seq::empty(),
        }
    }
}

/// Looks a host name up in the recorded resolver answers.
fn arwah_host_ips(hosts: &Vec<ArwahHostLookup>, name: &String) -> (r: Vec<ArwahIpAddress>)
    ensures
        r@ == spec_host_ips(hosts@, name@),
{
    let mut i: usize = 0;
    proof {
        assert(hosts@.skip(0) =~= hosts@);
    }
    while i < hosts.len()
        invariant
            i <= hosts@.len(),
            spec_host_ips(hosts@, name@) == spec_host_ips(hosts@.skip(i as int), name@),
        decreases hosts@.len() - i,
    {
        proof {
            assert(hosts@.skip(i as int).drop_first() =~= hosts@.skip(i + 1));
        }
        if hosts[i].name.eq(name) {
            let r = arwah_clone_ips(&hosts[i].ips);
            proof {
                assert(hosts@.skip(i as int)[0] == hosts@[i as int]);
            }
            return r;
        }
        i += 1;
    }
    proof {
        assert(hosts@.skip(i as int).len() == 0);
    }
    Vec::new()
}

/// Copy of an address vector.
pub fn arwah_clone_ips(v: &Vec<ArwahIpAddress>) -> (r: Vec<ArwahIpAddress>)
    ensures
        r@ == v@,
{
    let mut out: Vec<ArwahIpAddress> = Vec::new();
    let mut i: usize = 0;
    while i < v.len()
        invariant
            i <= v.len(),
            out@ =~= v@.subrange(0, i as int),
        decreases v.len() - i,
    {
        out.push(v[i]);
        i += 1;
    }
    proof {
        assert(out@ =~= v@);
    }
    out
}

/// Expands the block or resolver answer for one string.
fn arwah_expand_direct(s: &String, hosts: &Vec<ArwahHostLookup>) -> (r: Vec<ArwahIpAddress>)
    ensures
        r@ == spec_expand_direct(s@, hosts@),
{
    match arwah_inet_parse(s.as_str()) {
        Some(c) => {
            if c.last - c.first < usize::MAX as u128 {
                c.arwah_addresses()
            } else {
                Vec::new()
            }
        },
        None => arwah_host_ips(hosts, s),
    }
}

/// Looks a path up in the recorded file contents.
fn arwah_file_lines(files: &Vec<ArwahFileEntry>, path: &String) -> (r: Option<Vec<String>>)
    ensures
        match r {
            Some(lines) => spec_file_lines(files@, path@) == Some(lines@),
            None => spec_file_lines(files@, path@) is None,
        },
{
    let mut i: usize = 0;
    proof {
        assert(files@.skip(0) =~= files@);
    }
    while i < files.len()
        invariant
            i <= files@.len(),
            spec_file_lines(files@, path@) == spec_file_lines(files@.skip(i as int), path@),
        decreases files@.len() - i,
    {
        proof {
            assert(files@.skip(i as int).drop_first() =~= files@.skip(i + 1));
        }
        if files[i].path.eq(path) {
            proof {
                assert(files@.skip(i as int)[0] == files@[i as int]);
            }
            return match &files[i].lines {
                Some(lines) => Some(crate::input::arwah_clone_strings(lines)),
                None => None,
            };
        }
        i += 1;
    }
    proof {
        assert(files@.skip(i as int).len() == 0);
    }
    None
}

/// Expands one input string, consulting the recorded file contents where
/// neither a block nor a resolver answer matched.
pub fn arwah_parse_address(address: &String, lookups: &ArwahLookups) -> (r: Vec<ArwahIpAddress>)
    ensures
        r@ == spec_expand_entry(address@, *lookups),
{
    let direct = arwah_expand_direct(address, &lookups.hosts);
    if direct.len() > 0 {
        return direct;
    }
    match arwah_file_lines(&lookups.files, address) {
        Some(lines) => {
            let ghost gl = lines@;
            let mut out: Vec<ArwahIpAddress> = Vec::new();
            let ghost parts = Seq::new(gl.len(), |i: int| gl[i]).map_values(
                |line: String| spec_expand_direct(line@, lookups.hosts@),
            );
            let mut i: usize = 0;
            while i < lines.len()
                invariant
                    i <= gl.len(),
                    lines@ == gl,
                    parts == Seq::new(gl.len(), |k: int| gl[k]).map_values(
                        |line: String| spec_expand_direct(line@, lookups.hosts@),
                    ),
                    out@ == parts.take(i as int).flatten(),
                decreases gl.len() - i,
            {
                let part = arwah_expand_direct(&lines[i], &lookups.hosts);
                let ghost before = out@;
                let mut j: usize = 0;
                while j < part.len()
                    invariant
                        j <= part@.len(),
                        out@ == before + part@.take(j as int),
                    decreases part@.len() - j,
                {
                    out.push(part[j]);
                    j += 1;
                    proof {
                        assert(out@ =~= before + part@.take(j as int));
                    }
                }
                proof {
                    assert(part@.take(part@.len() as int) =~= part@);
                    vstd::seq_lib::lemma_flatten_concat(
                        parts.take(i as int),
                        seq![parts[i as int]],
                    );
                    assert(parts.take(i as int) + seq![parts[i as int]] =~= parts.take(i + 1));
                    assert(seq![parts[i as int]].drop_first() =~= Seq::<
                        Seq<ArwahIpAddress>,
                    >::empty());
                    assert(Seq::<Seq<ArwahIpAddress>>::empty().flatten() =~= Seq::<
                        ArwahIpAddress,
                    >::empty());
                    assert(seq![parts[i as int]].flatten() =~= parts[i as int]);
                    assert(parts[i as int] == part@);
                    assert(out@ == parts.take(i + 1).flatten());
                }
                i += 1;
            }
            proof {
                assert(parts.take(gl.len() as int) =~= parts);
            }
            out
        },
        None => Vec::new(),
    }
}

/// One excluded block, parsed as the exclusion grammar says: a block with
/// zero host bits, else a bare address, else every resolver answer for the
/// string as a one-address block.
pub open spec fn spec_excluded_blocks_of(s: Seq<char>, hosts: Seq<ArwahHostLookup>) -> Seq<
    ArwahIpCidr,
> {
    match spec_cidr_block_of(s) {
        Some(c) => seq![c],
        None => if !s.contains('/') && spec_inet_block_of(s) is Some {
            seq![spec_inet_block_of(s)->0]
        } else {
            spec_host_ips(hosts, s).map_values(
                |ip: ArwahIpAddress| spec_host_block(ip),
            )
        },
    }
}

/// The one-address block around a resolved exclusion address.
pub open spec fn spec_host_block(ip: ArwahIpAddress) -> ArwahIpCidr {
    ArwahIpCidr { v6: ip.spec_is_v6(), first: ip.spec_value(), last: ip.spec_value() }
}

/// Whether a string holds a `/`.
fn arwah_has_slash(s: &String) -> (r: bool)
    ensures
        r == s@.contains('/'),
{
    let st = s.as_str();
    proof {
        assert(st@ == s@);
    }
    if !st.is_ascii() {
        let mut i: usize = 0;
        let n = st.unicode_len();
        while i < n
            invariant
                i <= n,
                n == st@.len(),
                st@ == s@,
                forall|k: int| 0 <= k < i ==> st@[k] != '/',
            decreases n - i,
        {
            if st.get_char(i) == '/' {
                proof {
                    assert(s@.contains('/')) by {
                        assert(s@[i as int] == '/');
                    }
                }
                return true;
            }
            i += 1;
        }
        return false;
    }
    let bytes = st.as_bytes_vec();
    proof {
        vstd::string::is_ascii_spec_bytes(st);
        assert(bytes@ =~= Seq::new(st@.len(), |i: int| st@[i] as u8));
    }
    let mut i: usize = 0;
    let n = bytes.len();
    while i < n
        invariant
            i <= n,
            n == st@.len(),
            st@ == s@,
            bytes@.len() == st@.len(),
            forall|k: int| 0 <= k < st@.len() ==> #[trigger] bytes@[k] == st@[k] as u8,
            vstd::utf8::is_ascii_chars(st@),
            forall|k: int| 0 <= k < i ==> st@[k] != '/',
        decreases n - i,
    {
        proof {
            assert('\0' <= st@[i as int] <= '\u{7f}');
        }
        if bytes[i] == 47 {
            proof {
                assert(st@[i as int] == '/');
                assert(s@.contains('/')) by {
                    assert(s@[i as int] == '/');
                }
            }
            return true;
        }
        i += 1;
    }
    false
}

/// Parses one exclusion string into its blocks.
fn arwah_parse_single_excluded_address(addr: &String, lookups: &ArwahLookups) -> (r: Vec<
    ArwahIpCidr,
>)
    ensures
        r@ == spec_excluded_blocks_of(addr@, lookups.hosts@),
        forall|k: int| 0 <= k < r@.len() ==> (#[trigger] r@[k]).wf(),
{
    if let Some(c) = arwah_cidr_parse(addr.as_str()) {
        let mut out: Vec<ArwahIpCidr> = Vec::new();
        out.push(c);
        proof {
            assert(out@ =~= seq![c]);
        }
        return out;
    }
    if !arwah_has_slash(addr) {
        if let Some(c) = arwah_inet_parse(addr.as_str()) {
            let mut out: Vec<ArwahIpCidr> = Vec::new();
            out.push(c);
            proof {
                assert(out@ =~= seq![c]);
            }
            return out;
        }
    }
    let ips = arwah_host_ips(&lookups.hosts, addr);
    let mut out: Vec<ArwahIpCidr> = Vec::new();
    let mut i: usize = 0;
    while i < ips.len()
        invariant
            i <= ips@.len(),
            ips@ == spec_host_ips(lookups.hosts@, addr@),
            out@ =~= ips@.take(i as int).map_values(|ip: ArwahIpAddress| spec_host_block(ip)),
            forall|k: int| 0 <= k < out@.len() ==> (#[trigger] out@[k]).wf(),
        decreases ips@.len() - i,
    {
        let block = match ips[i] {
            ArwahIpAddress::V4(x) => ArwahIpCidr { v6: false, first: x as u128, last: x as u128 },
            ArwahIpAddress::V6(x) => ArwahIpCidr { v6: true, first: x, last: x },
        };
        out.push(block);
        i += 1;
        proof {
            assert(out@ =~= ips@.take(i as int).map_values(
                |ip: ArwahIpAddress| spec_host_block(ip),
            ));
        }
    }
    proof {
        assert(ips@.take(ips@.len() as int) =~= ips@);
    }
    out
}

/// Parses every exclusion string; unparsed, unresolved strings contribute
/// nothing.
pub fn arwah_parse_excluded_networks(
    exclude_addresses: &Option<Vec<String>>,
    lookups: &ArwahLookups,
) -> (r: Vec<ArwahIpCidr>)
    ensures
        forall|k: int| 0 <= k < r@.len() ==> (#[trigger] r@[k]).wf(),
        match exclude_addresses {
            Some(xs) => r@ == Seq::new(xs@.len(), |i: int| xs@[i]).map_values(
                |s: String| spec_excluded_blocks_of(s@, lookups.hosts@),
            ).flatten(),
            None => r@.len() == 0,
        },
{
    let mut out: Vec<ArwahIpCidr> = Vec::new();
    match exclude_addresses {
        Some(xs) => {
            let ghost parts = Seq::new(xs@.len(), |i: int| xs@[i]).map_values(
                |s: String| spec_excluded_blocks_of(s@, lookups.hosts@),
            );
            let mut i: usize = 0;
            while i < xs.len()
                invariant
                    i <= xs@.len(),
                    parts == Seq::new(xs@.len(), |k: int| xs@[k]).map_values(
                        |s: String| spec_excluded_blocks_of(s@, lookups.hosts@),
                    ),
                    out@ == parts.take(i as int).flatten(),
                    forall|k: int| 0 <= k < out@.len() ==> (#[trigger] out@[k]).wf(),
                decreases xs@.len() - i,
            {
                let part = arwah_parse_single_excluded_address(&xs[i], lookups);
                let ghost before = out@;
                let mut j: usize = 0;
                while j < part.len()
                    invariant
                        j <= part@.len(),
                        out@ == before + part@.take(j as int),
                        forall|k: int| 0 <= k < part@.len() ==> (#[trigger] part@[k]).wf(),
                        forall|k: int| 0 <= k < before.len() ==> (#[trigger] before[k]).wf(),
                    decreases part@.len() - j,
                {
                    out.push(part[j]);
                    j += 1;
                    proof {
                        assert(out@ =~= before + part@.take(j as int));
                    }
                }
                proof {
                    assert(part@.take(part@.len() as int) =~= part@);
                    vstd::seq_lib::lemma_flatten_concat(
                        parts.take(i as int),
                        seq![parts[i as int]],
                    );
                    assert(parts.take(i as int) + seq![parts[i as int]] =~= parts.take(i + 1));
                    assert(seq![parts[i as int]].drop_first() =~= Seq::<Seq<ArwahIpCidr>>::empty());
                    assert(Seq::<Seq<ArwahIpCidr>>::empty().flatten() =~= Seq::<
                        ArwahIpCidr,
                    >::empty());
                    assert(seq![parts[i as int]].flatten() =~= parts[i as int]);
                    assert(out@ == parts.take(i + 1).flatten());
                }
                i += 1;
            }
            proof {
                assert(parts.take(xs@.len() as int) =~= parts);
            }
        },
        None => {},
    }
    out
}

/// Whether any of the blocks holds the address.
pub open spec fn spec_excluded(ip: ArwahIpAddress, blocks: Seq<ArwahIpCidr>) -> bool {
    exists|k: int| 0 <= k < blocks.len() && (#[trigger] blocks[k]).spec_contains(ip)
}

/// Exact exclusion test against every block.
fn arwah_is_excluded(ip: &ArwahIpAddress, blocks: &Vec<ArwahIpCidr>) -> (r: bool)
    ensures
        r == spec_excluded(*ip, blocks@),
{
    let mut i: usize = 0;
    while i < blocks.len()
        invariant
            i <= blocks@.len(),
            forall|k: int| 0 <= k < i ==> !(#[trigger] blocks@[k]).spec_contains(*ip),
        decreases blocks@.len() - i,
    {
        if blocks[i].arwah_contains(ip) {
            return true;
        }
        i += 1;
    }
    false
}

/// A strictly ascending address sequence.
pub open spec fn spec_sorted(s: Seq<ArwahIpAddress>) -> bool {
    forall|i: int, j: int| 0 <= i < j < s.len() ==> (#[trigger] s[i]).spec_lt(#[trigger] s[j])
}

/// Keeps of the gathered addresses those outside every excluded block, each
/// once, in ascending order.
pub fn arwah_filter_addresses(ips: &Vec<ArwahIpAddress>, excluded: &Vec<ArwahIpCidr>) -> (r: Vec<
    ArwahIpAddress,
>)
    ensures
        spec_sorted(r@),
        r@.no_duplicates(),
        forall|ip: ArwahIpAddress|
            #[trigger] r@.contains(ip) <==> (ips@.contains(ip) && !spec_excluded(ip, excluded@)),
{
    let mut out: Vec<ArwahIpAddress> = Vec::new();
    let mut i: usize = 0;
    while i < ips.len()
        invariant
            i <= ips@.len(),
            spec_sorted(out@),
            out@.no_duplicates(),
            forall|ip: ArwahIpAddress|
                #[trigger] out@.contains(ip) <==> (ips@.take(i as int).contains(ip)
                    && !spec_excluded(ip, excluded@)),
        decreases ips@.len() - i,
    {
        let ip = ips[i];
        proof {
            assert(ips@.take(i + 1).drop_last() =~= ips@.take(i as int));
            assert(ips@.take(i + 1).last() == ips@[i as int]);
            assert forall|x: ArwahIpAddress| #[trigger] ips@.take(i + 1).contains(x) implies (
            ips@.take(i as int).contains(x) || x == ips@[i as int]) by {
                let k = choose|k: int| 0 <= k < i + 1 && #[trigger] ips@.take(i + 1)[k] == x;
                if k < i {
                    assert(ips@.take(i as int)[k] == x);
                }
            }
            assert forall|x: ArwahIpAddress| ips@.take(i as int).contains(x) implies ips@.take(
                i + 1,
            ).contains(x) by {
                let k = choose|k: int| 0 <= k < i && #[trigger] ips@.take(i as int)[k] == x;
                assert(ips@.take(i + 1)[k] == x);
            }
            assert(ips@.take(i + 1)[i as int] == ips@[i as int]);
        }
        if !arwah_is_excluded(&ip, excluded) {
            arwah_insert_sorted(&mut out, ip);
        }
        i += 1;
    }
    proof {
        assert(ips@.take(ips@.len() as int) =~= ips@);
    }
    out
}

/// Inserts an address into an ascending duplicate-free sequence, keeping it
/// so; an address already present is left alone.
fn arwah_insert_sorted(out: &mut Vec<ArwahIpAddress>, ip: ArwahIpAddress)
    requires
        spec_sorted(old(out)@),
        old(out)@.no_duplicates(),
    ensures
        spec_sorted(final(out)@),
        final(out)@.no_duplicates(),
        forall|x: ArwahIpAddress|
            #[trigger] final(out)@.contains(x) <==> (old(out)@.contains(x) || x == ip),
{
    let mut pos: usize = 0;
    while pos < out.len() && out[pos].arwah_lt(&ip)
        invariant
            pos <= out@.len(),
            spec_sorted(out@),
            out@.no_duplicates(),
            *out == *old(out),
            forall|k: int| 0 <= k < pos ==> (#[trigger] out@[k]).spec_lt(ip),
        decreases out@.len() - pos,
    {
        pos += 1;
    }
    if pos < out.len() && !out[pos].arwah_lt(&ip) && !ip.arwah_lt(&out[pos]) {
        // already present: same family, same value
        proof {
            lemma_ip_order_total(out@[pos as int], ip);
            assert(out@.contains(out@[pos as int]));
        }
        return ;
    }
    let ghost before = out@;
    out.insert(pos, ip);
    proof {
        assert forall|i: int, j: int| 0 <= i < j < out@.len() implies (
        #[trigger] out@[i]).spec_lt(#[trigger] out@[j]) by {
            if i < pos && j == pos {
            } else if i == pos && j > pos {
                assert(ip.spec_lt(before[pos as int]));
                if j - 1 > pos {
                    assert(before[pos as int].spec_lt(before[j - 1]));
                }
            } else if i < pos && j > pos {
                assert(before[i].spec_lt(before[j - 1]));
            } else if i > pos && j > pos {
                assert(before[i - 1].spec_lt(before[j - 1]));
            }
        }
        assert forall|x: ArwahIpAddress| #[trigger] out@.contains(x) implies (before.contains(x)
            || x == ip) by {
            let k = choose|k: int| 0 <= k < out@.len() && out@[k] == x;
            if k < pos {
                assert(before[k] == x);
            } else if k > pos {
                assert(before[k - 1] == x);
            }
        }
        assert forall|x: ArwahIpAddress| before.contains(x) implies out@.contains(x) by {
            let k = choose|k: int| 0 <= k < before.len() && before[k] == x;
            if k < pos {
                assert(out@[k] == x);
            } else {
                assert(out@[k + 1] == x);
            }
        }
        assert(out@.contains(ip)) by {
            assert(out@[pos as int] == ip);
        }
        assert(out@.no_duplicates()) by {
            assert forall|i: int, j: int|
                0 <= i < out@.len() && 0 <= j < out@.len() && i != j implies out@[i]
                != out@[j] by {
                if i < j {
                    assert(out@[i].spec_lt(out@[j]));
                } else {
                    assert(out@[j].spec_lt(out@[i]));
                }
            }
        }
    }
}

/// The order on addresses is total: two addresses that neither precede each
/// other are one and the same.
proof fn lemma_ip_order_total(a: ArwahIpAddress, b: ArwahIpAddress)
    requires
        !a.spec_lt(b),
        !b.spec_lt(a),
    ensures
        a == b,
{
}

/// Expands every target string, subtracts the excluded blocks, and returns
/// each remaining address once, ascending.  Every returned address comes
/// from some input entry, every gathered address outside the exclusions is
/// returned, and none lies in an excluded block.
pub fn arwah_parse_addresses(input: &ArwahOpts, lookups: &ArwahLookups) -> (r: Vec<ArwahIpAddress>)
    ensures
        spec_sorted(r@),
        r@.no_duplicates(),
        ({
            let gathered = Seq::new(input.addresses@.len(), |i: int| input.addresses@[i])
                .map_values(|s: String| spec_expand_entry(s@, *lookups)).flatten();
            let blocks = match input.exclude_addresses {
                Some(xs) => Seq::new(xs@.len(), |i: int| xs@[i]).map_values(
                    |s: String| spec_excluded_blocks_of(s@, lookups.hosts@),
                ).flatten(),
                None => Seq::empty(),
            };
            forall|ip: ArwahIpAddress|
                #[trigger] r@.contains(ip) <==> (gathered.contains(ip) && !spec_excluded(
                    ip,
                    blocks,
                ))
        }),
{
    let ghost gathered_spec = Seq::new(input.addresses@.len(), |i: int| input.addresses@[i])
        .map_values(|s: String| spec_expand_entry(s@, *lookups)).flatten();
    let mut gathered: Vec<ArwahIpAddress> = Vec::new();
    let ghost parts = Seq::new(input.addresses@.len(), |i: int| input.addresses@[i]).map_values(
        |s: String| spec_expand_entry(s@, *lookups),
    );
    let mut i: usize = 0;
    while i < input.addresses.len()
        invariant
            i <= input.addresses@.len(),
            parts == Seq::new(input.addresses@.len(), |k: int| input.addresses@[k]).map_values(
                |s: String| spec_expand_entry(s@, *lookups),
            ),
            gathered@ == parts.take(i as int).flatten(),
        decreases input.addresses@.len() - i,
    {
        let part = arwah_parse_address(&input.addresses[i], lookups);
        let ghost before = gathered@;
        let mut j: usize = 0;
        while j < part.len()
            invariant
                j <= part@.len(),
                gathered@ == before + part@.take(j as int),
            decreases part@.len() - j,
        {
            gathered.push(part[j]);
            j += 1;
            proof {
                assert(gathered@ =~= before + part@.take(j as int));
            }
        }
        proof {
            assert(part@.take(part@.len() as int) =~= part@);
            vstd::seq_lib::lemma_flatten_concat(parts.take(i as int), seq![parts[i as int]]);
            assert(parts.take(i as int) + seq![parts[i as int]] =~= parts.take(i + 1));
            assert(seq![parts[i as int]].drop_first() =~= Seq::<Seq<ArwahIpAddress>>::empty());
            assert(Seq::<Seq<ArwahIpAddress>>::empty().flatten() =~= Seq::<
                ArwahIpAddress,
            >::empty());
            assert(seq![parts[i as int]].flatten() =~= parts[i as int]);
            assert(gathered@ == parts.take(i + 1).flatten());
        }
        i += 1;
    }
    proof {
        assert(parts.take(input.addresses@.len() as int) =~= parts);
        assert(gathered@ == gathered_spec);
    }
    let excluded = arwah_parse_excluded_networks(&input.exclude_addresses, lookups);
    proof {
        if input.exclude_addresses is None {
            assert(excluded@ =~= Seq::<ArwahIpCidr>::empty());
        }
    }
    arwah_filter_addresses(&gathered, &excluded)
}

} // verus!
