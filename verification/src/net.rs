//! Addresses and networks as plain values.

use vstd::arithmetic::power2::pow2;
use vstd::prelude::*;

use crate::text;

verus! {

/// An address: 32 bits, or 128 bits, most significant first.
#[derive(Clone, Copy, Debug, PartialEq, Eq, Hash, Structural)]
pub enum IpAddress {
    /// An IPv4 address.
    V4(u32),
    /// An IPv6 address.
    V6(u128),
}

impl IpAddress {
    /// The number of bits in an address of this family.
    pub open spec fn spec_bits(self) -> u8 {
        match self {
            IpAddress::V4(_) => 32,
            IpAddress::V6(_) => 128,
        }
    }

    /// The number of bits in an address of this family.
    #[verifier::when_used_as_spec(spec_bits)]
    pub fn bits(self) -> (n: u8)
        ensures
            n == self.spec_bits(),
    {
        match self {
            IpAddress::V4(_) => 32,
            IpAddress::V6(_) => 128,
        }
    }
}

/// An address together with the number of leading bits that name a network.
#[derive(Clone, Copy, Debug, PartialEq, Eq, Hash, Structural)]
pub struct IpNetwork {
    /// An address in the network; its host bits are kept as written.
    pub ip: IpAddress,
    /// How many leading bits name the network.
    pub prefix: u8,
}

impl IpNetwork {
    /// The prefix is no longer than the address.
    pub open spec fn well_formed(self) -> bool {
        self.prefix <= self.ip.spec_bits()
    }

    /// The network of one address.
    pub open spec fn single_spec(ip: IpAddress) -> Self {
        IpNetwork { ip, prefix: ip.spec_bits() }
    }

    /// The network of one address.
    pub fn single(ip: IpAddress) -> (net: Self)
        ensures
            net == Self::single_spec(ip),
            net.well_formed(),
    {
        IpNetwork { ip, prefix: ip.bits() }
    }

    /// Whether `ip` has this network's family and leading bits.
    pub open spec fn covers(self, ip: IpAddress) -> bool {
        match (self.ip, ip) {
            (IpAddress::V4(net), IpAddress::V4(addr)) => same_leading_bits(
                net as nat,
                addr as nat,
                32,
                self.prefix as nat,
            ),
            (IpAddress::V6(net), IpAddress::V6(addr)) => same_leading_bits(
                net as nat,
                addr as nat,
                128,
                self.prefix as nat,
            ),
            _ => false,
        }
    }

    /// Whether `ip` belongs to this network.
    pub fn contains(&self, ip: IpAddress) -> (b: bool)
        requires
            self.well_formed(),
        ensures
            b == self.covers(ip),
    {
        match (self.ip, ip) {
            (IpAddress::V4(net), IpAddress::V4(addr)) => v4_contains(net, self.prefix, addr),
            (IpAddress::V6(net), IpAddress::V6(addr)) => v6_contains(net, self.prefix, addr),
            _ => false,
        }
    }
}

/// Whether two numbers of `bits` bits agree in the first `prefix` of them.
pub open spec fn same_leading_bits(a: nat, b: nat, bits: nat, prefix: nat) -> bool {
    a / pow2((bits - prefix) as nat) == b / pow2((bits - prefix) as nat)
}

/// Calls `Ipv4Network::contains`, which compares the two addresses under the prefix's mask.
#[verifier::external_body]
fn v4_contains(net: u32, prefix: u8, addr: u32) -> (b: bool)
    requires
        prefix <= 32,
    ensures
        b == same_leading_bits(net as nat, addr as nat, 32, prefix as nat),
{
    match ipnetwork::Ipv4Network::new(net.into(), prefix) {
        Ok(network) => network.contains(addr.into()),
        Err(_) => false,
    }
}

/// Calls `Ipv6Network::contains`, which compares the two addresses under the prefix's mask.
#[verifier::external_body]
fn v6_contains(net: u128, prefix: u8, addr: u128) -> (b: bool)
    requires
        prefix <= 128,
    ensures
        b == same_leading_bits(net as nat, addr as nat, 128, prefix as nat),
{
    match ipnetwork::Ipv6Network::new(net.into(), prefix) {
        Ok(network) => network.contains(addr.into()),
        Err(_) => false,
    }
}

/// The network that a text names: `address`, `address/prefix`, or an IPv4 address with a netmask.
pub uninterp spec fn network_named(s: Seq<char>) -> Option<IpNetwork>;

/// Whether a network is read back from what it is written as, and its address from what that is
/// written as.
pub open spec fn reads_back(net: IpNetwork) -> bool {
    &&& network_named(network_text(net)) == Some(net)
    &&& network_named(address_text(net.ip)) == Some(IpNetwork::single_spec(net.ip))
}

/// Calls `IpNetwork::from_str`. What comes back is a function of the text alone; its prefix is never
/// longer than the address, and a text without a slash names one whole address. What was read is read
/// back from the usual spellings, `address` and `address/prefix`, with the address in the dotted or
/// the RFC 5952 form. Which other texts name a network is left to the crate's parser.
#[verifier::external_body]
pub(crate) fn parse_network(s: &str) -> (r: Option<IpNetwork>)
    ensures
        r == network_named(s@),
        r matches Some(net) ==> net.well_formed(),
        r matches Some(net) ==> !s@.contains('/') ==> net == IpNetwork::single_spec(net.ip),
        r matches Some(net) ==> reads_back(net),
{
    match s.parse::<ipnetwork::IpNetwork>().ok()? {
        ipnetwork::IpNetwork::V4(n) => {
            Some(IpNetwork { ip: IpAddress::V4(n.ip().into()), prefix: n.prefix() })
        },
        ipnetwork::IpNetwork::V6(n) => {
            Some(IpNetwork { ip: IpAddress::V6(n.ip().into()), prefix: n.prefix() })
        },
    }
}

/// The single address that a text names.
pub open spec fn address_named(s: Seq<char>) -> Option<IpAddress> {
    if s.contains('/') {
        None
    } else {
        match network_named(s) {
            Some(net) => Some(net.ip),
            None => None,
        }
    }
}

/// Parses a bare address.
pub fn parse_address(s: &str) -> (r: Option<IpAddress>)
    ensures
        r == address_named(s@),
{
    if text::contains_char(s, '/') {
        return None;
    }
    match parse_network(s) {
        Some(net) => Some(net.ip),
        None => None,
    }
}

/// How an IPv4 address is written: its four bytes in decimal, the highest first, with dots between.
pub open spec fn v4_text(addr: u32) -> Seq<char> {
    text::decimal((addr / 0x100_0000) as nat) + "."@ + text::decimal(
        ((addr / 0x1_0000) % 256) as nat,
    ) + "."@ + text::decimal(((addr / 0x100) % 256) as nat) + "."@ + text::decimal(
        (addr % 256) as nat,
    )
}

/// How an IPv6 address is written.
pub uninterp spec fn v6_text(addr: u128) -> Seq<char>;

/// Whether a character occurs in addresses.
pub open spec fn is_address_char(c: char) -> bool {
    '0' <= c <= '9' || 'a' <= c <= 'f' || c == '.' || c == ':'
}

/// Whether a text is made of the characters of addresses.
pub open spec fn looks_like_address(s: Seq<char>) -> bool {
    s.len() > 0 && forall|i: int| 0 <= i < s.len() ==> is_address_char(#[trigger] s[i])
}

/// The text of an IPv4 address is made of the characters of addresses.
proof fn lemma_v4_text(addr: u32)
    ensures
        looks_like_address(v4_text(addr)),
{
    reveal_strlit(".");
    text::law_decimal_round_trip((addr / 0x100_0000) as nat);
    text::law_decimal_round_trip(((addr / 0x1_0000) % 256) as nat);
    text::law_decimal_round_trip(((addr / 0x100) % 256) as nat);
    text::law_decimal_round_trip((addr % 256) as nat);
}

/// An IPv4 address as text.
fn v4_string(addr: u32) -> (s: String)
    ensures
        s@ == v4_text(addr),
{
    let mut s = text::decimal_string((addr / 0x100_0000) as u64);
    s.append(".");
    s.append(text::decimal_string(((addr / 0x1_0000) % 256) as u64).as_str());
    s.append(".");
    s.append(text::decimal_string(((addr / 0x100) % 256) as u64).as_str());
    s.append(".");
    s.append(text::decimal_string((addr % 256) as u64).as_str());
    s
}

/// Calls the `Display` of the address that an `Ipv6Network` holds, which writes it as RFC 5952 says:
/// lower-case hexadecimal digits with colons between, and dots where it ends in an IPv4 address. The
/// text is a function of the address alone.
#[verifier::external_body]
fn v6_string(addr: u128) -> (s: String)
    ensures
        s@ == v6_text(addr),
        looks_like_address(s@),
{
    match ipnetwork::Ipv6Network::new(addr.into(), 128) {
        Ok(network) => network.ip().to_string(),
        Err(_) => String::new(),
    }
}

/// How an address is written.
pub open spec fn address_text(ip: IpAddress) -> Seq<char> {
    match ip {
        IpAddress::V4(addr) => v4_text(addr),
        IpAddress::V6(addr) => v6_text(addr),
    }
}

/// An address as text.
pub fn address_string(ip: IpAddress) -> (s: String)
    ensures
        s@ == address_text(ip),
        looks_like_address(s@),
{
    match ip {
        IpAddress::V4(addr) => {
            proof {
                lemma_v4_text(addr);
            }
            v4_string(addr)
        },
        IpAddress::V6(addr) => v6_string(addr),
    }
}

/// How a network is written: its address, a slash and its prefix.
pub open spec fn network_text(net: IpNetwork) -> Seq<char> {
    address_text(net.ip).push('/') + text::decimal(net.prefix as nat)
}

/// A network as text.
pub fn network_string(net: IpNetwork) -> (s: String)
    ensures
        s@ == network_text(net),
        looks_like_address(address_text(net.ip)),
{
    let mut s = address_string(net.ip);
    s.push('/');
    s.append(text::decimal_string(net.prefix as u64).as_str());
    s
}

/// A network holds its own address, and no address of another family; the network of one address holds
/// nothing else, one without a prefix holds its whole family, and a shorter prefix holds no less.
pub proof fn law_what_networks_hold(network: IpNetwork, ip: IpAddress, shorter: u8)
    requires
        network.well_formed(),
        shorter <= network.prefix,
    ensures
        network.covers(network.ip),
        network.covers(ip) ==> (network.ip is V4 <==> ip is V4),
        IpNetwork::single_spec(network.ip).covers(ip) <==> network.ip == ip,
        (IpNetwork { ip: network.ip, prefix: 0 }).covers(ip) <==> (network.ip is V4 <==> ip is V4),
        network.covers(ip) ==> (IpNetwork { ip: network.ip, prefix: shorter }).covers(ip),
{
    vstd::arithmetic::power2::lemma2_to64();
    vstd::arithmetic::power2::lemma2_to64_rest();
    vstd::arithmetic::power2::lemma_pow2_adds(64, 64);
    assert(pow2(128) == 0x1_0000_0000_0000_0000 * 0x1_0000_0000_0000_0000);
    let bits = network.ip.spec_bits() as nat;
    let fine = (bits - network.prefix) as nat;
    let more = (network.prefix - shorter) as nat;
    vstd::arithmetic::power2::lemma_pow2_adds(fine, more);
    vstd::arithmetic::power2::lemma_pow2_pos(fine);
    vstd::arithmetic::power2::lemma_pow2_pos(more);
    assert((bits - shorter) as nat == fine + more);
    match (network.ip, ip) {
        (IpAddress::V4(a), IpAddress::V4(b)) => {
            vstd::arithmetic::div_mod::lemma_div_denominator(
                a as int,
                pow2(fine) as int,
                pow2(more) as int,
            );
            vstd::arithmetic::div_mod::lemma_div_denominator(
                b as int,
                pow2(fine) as int,
                pow2(more) as int,
            );
            assert(a as nat / pow2(0) == a && b as nat / pow2(0) == b);
            assert(a as nat / pow2(32) == 0 && b as nat / pow2(32) == 0);
        },
        (IpAddress::V6(a), IpAddress::V6(b)) => {
            vstd::arithmetic::div_mod::lemma_div_denominator(
                a as int,
                pow2(fine) as int,
                pow2(more) as int,
            );
            vstd::arithmetic::div_mod::lemma_div_denominator(
                b as int,
                pow2(fine) as int,
                pow2(more) as int,
            );
            assert(a as nat / pow2(0) == a && b as nat / pow2(0) == b);
            vstd::arithmetic::div_mod::lemma_basic_div(a as int, pow2(128) as int);
            vstd::arithmetic::div_mod::lemma_basic_div(b as int, pow2(128) as int);
        },
        _ => {},
    }
}

/// A text names a single address exactly where it names a network and has no slash, and then it is the
/// network's address.
pub proof fn law_addresses_are_networks_without_a_slash(s: Seq<char>, network: IpNetwork)
    ensures
        s.contains('/') ==> address_named(s) is None,
        network_named(s) is None ==> address_named(s) is None,
        !s.contains('/') && network_named(s) == Some(network) ==> address_named(s) == Some(
            network.ip,
        ),
{
}

/// The bytes that a number of 32 bits is put together from are found again.
proof fn lemma_bytes_of(a: u8, b: u8, c: u8, d: u8)
    ensures
        ({
            let addr = (a * 0x100_0000 + b * 0x1_0000 + c * 0x100 + d) as u32;
            &&& addr / 0x100_0000 == a
            &&& (addr / 0x1_0000) % 256 == b
            &&& (addr / 0x100) % 256 == c
            &&& addr % 256 == d
        }),
{
    let addr = (a * 0x100_0000 + b * 0x1_0000 + c * 0x100 + d) as u32;
    assert(addr == a * 0x100_0000 + b * 0x1_0000 + c * 0x100 + d);
}

/// An IPv4 address is written as its four bytes with dots between, and a network as its address and
/// its prefix with a slash between.
pub proof fn law_how_addresses_are_written(a: u8, b: u8, c: u8, d: u8, network: IpNetwork)
    ensures
        address_text(
            IpAddress::V4((a * 0x100_0000 + b * 0x1_0000 + c * 0x100 + d) as u32),
        ) == text::decimal(a as nat) + seq!['.'] + text::decimal(b as nat) + seq!['.']
            + text::decimal(c as nat) + seq!['.'] + text::decimal(d as nat),
        network_text(network) == address_text(network.ip) + seq!['/'] + text::decimal(
            network.prefix as nat,
        ),
        IpAddress::V4(0).spec_bits() == 32,
        IpAddress::V6(0).spec_bits() == 128,
{
    reveal_strlit(".");
    assert("."@ =~= seq!['.']);
    lemma_bytes_of(a, b, c, d);
    assert(address_text(network.ip).push('/') =~= address_text(network.ip) + seq!['/']);
}

} // verus!
