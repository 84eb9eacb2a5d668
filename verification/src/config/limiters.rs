//! Sliding-window limiter settings and the trusted proxy networks they name.
use vstd::prelude::*;

use crate::text::{
    chars_of, find_first, is_first_of, parse_u8, parse_u8_spec, string_from_chars, trim, trim_spec,
};

verus! {

/// Settings of the sliding-window rate limiter.
pub struct SlindowConfig {
    pub enabled: bool,
    pub requests_per_window: u64,
    pub window_secs: u64,
    pub key_prefix: String,
    pub script_path: String,
    pub trusted_proxies: Vec<String>,
}

/// An IP address: 32 bits for IPv4, 128 bits for IPv6, most significant bit
/// first, as `u32::from(Ipv4Addr)` and `u128::from(Ipv6Addr)` give them.
#[derive(Clone, Copy, PartialEq, Eq, Structural)]
pub enum IpAddr {
    V4(u32),
    V6(u128),
}

impl IpAddr {
    pub open spec fn is_v4(self) -> bool {
        self is V4
    }

    /// The full prefix length of the address family: 32 or 128.
    pub open spec fn max_prefix(self) -> u8 {
        if self is V4 {
            32
        } else {
            128
        }
    }
}

/// A network of trusted proxies: an address and how many of its leading
/// bits a peer must share with it.
#[derive(Clone, Copy)]
pub struct TrustedNet {
    addr: IpAddr,
    prefix_len: u8,
}

/// Whether `ip` lies in the network of `addr` with `prefix_len` leading bits
/// (a prefix longer than the family's is taken as the full address; the two
/// families never match).
pub open spec fn net_contains(addr: IpAddr, prefix_len: u8, ip: IpAddr) -> bool {
    match (addr, ip) {
        (IpAddr::V4(net), IpAddr::V4(a)) => {
            let shift = 32 - (if prefix_len < 32 {
                prefix_len
            } else {
                32
            });
            (net >> (shift as u32)) == (a >> (shift as u32))
        },
        (IpAddr::V6(net), IpAddr::V6(a)) => {
            let shift = 128 - (if prefix_len < 128 {
                prefix_len
            } else {
                128
            });
            (net >> (shift as u32)) == (a >> (shift as u32))
        },
        _ => false,
    }
}

/// The two addresses are of the same family.
pub open spec fn same_family(a: IpAddr, b: IpAddr) -> bool {
    a.is_v4() == b.is_v4()
}

impl TrustedNet {
    pub closed spec fn spec_addr(self) -> IpAddr {
        self.addr
    }

    pub closed spec fn spec_prefix_len(self) -> u8 {
        self.prefix_len
    }

    /// Whether `ip` lies in this network. A zero-length prefix shifts by the
    /// whole width of the address, which Rust does not allow, so such a
    /// network is only asked about addresses of the other family.
    pub fn contains(&self, ip: IpAddr) -> (r: bool)
        requires
            self.spec_prefix_len() == 0 ==> !same_family(self.spec_addr(), ip),
        ensures
            r == net_contains(self.spec_addr(), self.spec_prefix_len(), ip),
    {
        match (self.addr, ip) {
            (IpAddr::V4(net), IpAddr::V4(a)) => {
                let p: u8 = if self.prefix_len < 32 {
                    self.prefix_len
                } else {
                    32
                };
                let shift: u32 = (32 - p) as u32;
                (net >> shift) == (a >> shift)
            },
            (IpAddr::V6(net), IpAddr::V6(a)) => {
                let p: u8 = if self.prefix_len < 128 {
                    self.prefix_len
                } else {
                    128
                };
                let shift: u32 = (128 - p) as u32;
                (net >> shift) == (a >> shift)
            },
            _ => false,
        }
    }
}

/// An entry written without a prefix trusts exactly its own address.
pub proof fn lemma_full_prefix_is_exact(addr: IpAddr, ip: IpAddr)
    ensures
        net_contains(addr, addr.max_prefix(), ip) <==> ip == addr,
{
    match (addr, ip) {
        (IpAddr::V4(n), IpAddr::V4(a)) => {
            assert((n >> 0u32) == n && (a >> 0u32) == a) by (bit_vector);
        },
        (IpAddr::V6(n), IpAddr::V6(a)) => {
            assert((n >> 0u32) == n && (a >> 0u32) == a) by (bit_vector);
        },
        _ => {},
    }
}

/// The leading `p` bits of a `w`-bit number, as a number: what is left of it
/// once its `w - p` trailing bits are divided away.
pub open spec fn leading_bits(x: nat, w: nat, p: nat) -> nat {
    x / vstd::arithmetic::power2::pow2((w - p) as nat)
}

/// Network membership in terms of address bits: for a prefix of `p` bits,
/// `1 <= p`, a peer lies in the network exactly when its leading `p` bits
/// (all of them, for a prefix longer than the family's width) are those of
/// the network's address; addresses of the two families never match.
pub proof fn lemma_contains_iff_leading_bits_agree(addr: IpAddr, p: u8, ip: IpAddr)
    requires
        1 <= p,
    ensures
        match (addr, ip) {
            (IpAddr::V4(net), IpAddr::V4(a)) => {
                let q: nat = if p < 32 {
                    p as nat
                } else {
                    32
                };
                net_contains(addr, p, ip) <==> leading_bits(net as nat, 32, q) == leading_bits(
                    a as nat,
                    32,
                    q,
                )
            },
            (IpAddr::V6(net), IpAddr::V6(a)) => {
                let q: nat = if p < 128 {
                    p as nat
                } else {
                    128
                };
                net_contains(addr, p, ip) <==> leading_bits(net as nat, 128, q) == leading_bits(
                    a as nat,
                    128,
                    q,
                )
            },
            _ => !net_contains(addr, p, ip),
        },
{
    match (addr, ip) {
        (IpAddr::V4(net), IpAddr::V4(a)) => {
            let q: u8 = if p < 32 {
                p
            } else {
                32
            };
            let sh: u32 = (32 - q) as u32;
            vstd::bits::lemma_u32_shr_is_div(net, sh);
            vstd::bits::lemma_u32_shr_is_div(a, sh);
        },
        (IpAddr::V6(net), IpAddr::V6(a)) => {
            let q: u8 = if p < 128 {
                p
            } else {
                128
            };
            let sh: u32 = (128 - q) as u32;
            let sh128: u128 = sh as u128;
            assert((net >> sh) == (net >> sh128) && (a >> sh) == (a >> sh128)) by (bit_vector)
                requires
                    sh128 == sh as u128,
            ;
            vstd::bits::lemma_u128_shr_is_div(net, sh128);
            vstd::bits::lemma_u128_shr_is_div(a, sh128);
        },
        _ => {},
    }
}

/// Why a trusted proxy entry was refused; each names the entry.
pub enum ProxyError {
    /// The address part is not an IP address.
    BadAddress { entry: String },
    /// The part after `/` is not a prefix length.
    BadPrefix { entry: String },
    /// The prefix length exceeds the address family's width (`max`).
    PrefixTooLong { entry: String, max: u8 },
}

pub enum ProxyErrorKind {
    BadAddress,
    BadPrefix,
    PrefixTooLong { max: u8 },
}

impl ProxyError {
    pub open spec fn kind(&self) -> ProxyErrorKind {
        match self {
            ProxyError::BadAddress { .. } => ProxyErrorKind::BadAddress,
            ProxyError::BadPrefix { .. } => ProxyErrorKind::BadPrefix,
            ProxyError::PrefixTooLong { max, .. } => ProxyErrorKind::PrefixTooLong { max: *max },
        }
    }

    pub open spec fn entry(&self) -> Seq<char> {
        match self {
            ProxyError::BadAddress { entry } => entry@,
            ProxyError::BadPrefix { entry } => entry@,
            ProxyError::PrefixTooLong { entry, .. } => entry@,
        }
    }
}

/// The address text of an entry: before its first `/` if it has one,
/// trimmed of whitespace.
pub open spec fn entry_ip_text_spec(e: Seq<char>) -> Seq<char> {
    if exists|k: int| is_first_of(e, '/', k) {
        let k = choose|k: int| is_first_of(e, '/', k);
        trim_spec(e.subrange(0, k))
    } else {
        trim_spec(e)
    }
}

/// How an entry parses, given the address that its address text parses to.
pub open spec fn entry_spec(e: Seq<char>, addr: Option<IpAddr>) -> Result<(IpAddr, u8), ProxyErrorKind> {
    match addr {
        None => Err(ProxyErrorKind::BadAddress),
        Some(a) => if exists|k: int| is_first_of(e, '/', k) {
            let k = choose|k: int| is_first_of(e, '/', k);
            match parse_u8_spec(trim_spec(e.subrange(k + 1, e.len() as int))) {
                None => Err(ProxyErrorKind::BadPrefix),
                Some(p) => if p > a.max_prefix() {
                    Err(ProxyErrorKind::PrefixTooLong { max: a.max_prefix() })
                } else {
                    Ok((a, p))
                },
            }
        } else {
            Ok((a, a.max_prefix()))
        },
    }
}

/// The first `/` of an entry is one place: any two first occurrences agree.
proof fn lemma_first_slash_unique(e: Seq<char>, k: int, j: int)
    requires
        is_first_of(e, '/', k),
        is_first_of(e, '/', j),
    ensures
        j == k,
{
    if j < k {
        assert(e[j] != '/');
    } else if k < j {
        assert(e[k] != '/');
    }
}

/// How the prefix of an entry decides it: an entry `ADDR/PREFIX` whose
/// address parsed and whose prefix text reads as `p` gives the network
/// `(ADDR, p)` when `p` is at most the family's width (32 or 128, the full
/// width included), and is refused as too long exactly when `p` exceeds it.
/// An entry with no `/` gives the address with the family's full width.
pub proof fn lemma_entry_prefix_bound(e: Seq<char>, a: IpAddr, k: int, p: u8)
    requires
        is_first_of(e, '/', k),
        parse_u8_spec(trim_spec(e.subrange(k + 1, e.len() as int))) == Some(p),
    ensures
        p <= a.max_prefix() ==> entry_spec(e, Some(a)) == Ok::<(IpAddr, u8), ProxyErrorKind>((a, p)),
        p > a.max_prefix() ==> entry_spec(e, Some(a)) == Err::<(IpAddr, u8), ProxyErrorKind>(
            ProxyErrorKind::PrefixTooLong { max: a.max_prefix() },
        ),
        entry_spec(e, Some(a)) is Ok <==> p <= a.max_prefix(),
{
    let j = choose|j: int| is_first_of(e, '/', j);
    lemma_first_slash_unique(e, k, j);
}

/// An entry written without a `/` trusts its address with the full width.
pub proof fn lemma_entry_without_prefix(e: Seq<char>, a: IpAddr)
    requires
        forall|i: int| 0 <= i < e.len() ==> e[i] != '/',
    ensures
        entry_spec(e, Some(a)) == Ok::<(IpAddr, u8), ProxyErrorKind>((a, a.max_prefix())),
{
    if exists|k: int| is_first_of(e, '/', k) {
        let k = choose|k: int| is_first_of(e, '/', k);
        assert(e[k] == '/');
    }
}

/// The address text of a trusted proxy entry: the part before the first `/`
/// (or the whole entry), trimmed. Parsing it as an IP address is left to the
/// caller, whose result `parse_trusted_proxies` takes.
pub fn entry_ip_text(e: &str) -> (r: String)
    ensures
        r@ == entry_ip_text_spec(e@),
{
    let v = chars_of(e);
    match find_first(&v, '/') {
        Some(k) => {
            let head = string_from_chars(vstd::slice::slice_subrange(v.as_slice(), 0, k));
            trim(head.as_str())
        },
        None => trim(e),
    }
}

fn parse_entry(e: &String, addr: Option<IpAddr>) -> (r: Result<TrustedNet, ProxyError>)
    ensures
        match r {
            Ok(n) => entry_spec(e@, addr) == Ok::<(IpAddr, u8), ProxyErrorKind>((n.spec_addr(), n.spec_prefix_len())),
            Err(err) => entry_spec(e@, addr) == Err::<(IpAddr, u8), ProxyErrorKind>(err.kind()) && err.entry() == e@,
        },
{
    let a = match addr {
        Some(a) => a,
        None => {
            return Err(ProxyError::BadAddress { entry: e.clone() });
        },
    };
    let max: u8 = match a {
        IpAddr::V4(_) => 32,
        IpAddr::V6(_) => 128,
    };
    let v = chars_of(e.as_str());
    match find_first(&v, '/') {
        Some(k) => {
            assert(is_first_of(v@, '/', k as int));
            assert(k < v.len());
            let tail = string_from_chars(vstd::slice::slice_subrange(v.as_slice(), k + 1, v.len()));
            let t = trim(tail.as_str());
            match parse_u8(t.as_str()) {
                None => Err(ProxyError::BadPrefix { entry: e.clone() }),
                Some(p) => if p > max {
                    Err(ProxyError::PrefixTooLong { entry: e.clone(), max })
                } else {
                    Ok(TrustedNet { addr: a, prefix_len: p })
                },
            }
        },
        None => Ok(TrustedNet { addr: a, prefix_len: max }),
    }
}

/// Parses trusted proxy entries, `ADDR` or `ADDR/PREFIX`. `addrs[i]` is what
/// the address text of `entries[i]` (see `entry_ip_text`) parsed to as an IP
/// address, `None` when it did not. The first refused entry gives the error;
/// otherwise every entry gives one network, in order, with the family's full
/// prefix when none is written.
pub fn parse_trusted_proxies(entries: &[String], addrs: &[Option<IpAddr>]) -> (r: Result<Vec<TrustedNet>, ProxyError>)
    requires
        entries.len() == addrs.len(),
    ensures
        match r {
            Ok(nets) => {
                &&& nets.len() == entries.len()
                &&& forall|i: int| 0 <= i < entries.len() ==> entry_spec(#[trigger] entries@[i]@, addrs@[i]) == Ok::<(IpAddr, u8), ProxyErrorKind>((nets@[i].spec_addr(), nets@[i].spec_prefix_len()))
            },
            Err(err) => exists|i: int| {
                &&& 0 <= i < entries.len()
                &&& (forall|j: int| 0 <= j < i ==> #[trigger] entry_spec(entries@[j]@, addrs@[j]) is Ok)
                &&& entry_spec(entries@[i]@, addrs@[i]) == Err::<(IpAddr, u8), ProxyErrorKind>(err.kind())
                &&& err.entry() == entries@[i]@
            },
        },
{
    let mut nets: Vec<TrustedNet> = Vec::new();
    let mut i: usize = 0;
    while i < entries.len()
        invariant
            entries.len() == addrs.len(),
            i <= entries.len(),
            nets.len() == i,
            forall|j: int| 0 <= j < i ==> entry_spec(#[trigger] entries@[j]@, addrs@[j]) == Ok::<(IpAddr, u8), ProxyErrorKind>((nets@[j].spec_addr(), nets@[j].spec_prefix_len())),
        decreases entries.len() - i,
    {
        match parse_entry(&entries[i], addrs[i]) {
            Ok(n) => {
                nets.push(n);
            },
            Err(err) => {
                assert(forall|j: int| 0 <= j < i ==> #[trigger] entry_spec(entries@[j]@, addrs@[j]) is Ok);
                return Err(err);
            },
        }
        i = i + 1;
    }
    Ok(nets)
}

/// Whether `peer` lies in one of the trusted networks.
pub fn proxy_is_trusted(nets: &[TrustedNet], peer: IpAddr) -> (r: bool)
    requires
        forall|i: int| 0 <= i < nets.len() ==> (#[trigger] nets@[i]).spec_prefix_len() == 0 ==> !same_family(nets@[i].spec_addr(), peer),
    ensures
        r == exists|i: int| 0 <= i < nets.len() && net_contains(#[trigger] nets@[i].spec_addr(), nets@[i].spec_prefix_len(), peer),
{
    let mut i: usize = 0;
    while i < nets.len()
        invariant
            i <= nets@.len(),
            forall|j: int| 0 <= j < nets.len() ==> (#[trigger] nets@[j]).spec_prefix_len() == 0 ==> !same_family(nets@[j].spec_addr(), peer),
            forall|j: int| 0 <= j < i ==> !net_contains(#[trigger] nets@[j].spec_addr(), nets@[j].spec_prefix_len(), peer),
        decreases nets@.len() - i,
    {
        if nets[i].contains(peer) {
            return true;
        }
        i = i + 1;
    }
    false
}

} // verus!
