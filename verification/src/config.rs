//! Configuration parsing and client-address resolution.
//!
//! Two kinds of settings are security boundaries and fail hard on a malformed value (the trusted
//! proxies and the bootstrap credentials); the rest are operational tuning and fall back to a
//! default.

use vstd::prelude::*;
use vstd::string::*;
use vstd::utf8::*;

use crate::crypto;
use crate::net;
use crate::net::{IpAddress, IpNetwork};
use crate::text;

pub use crate::proxies::{
    hostname_rejection, parse_trusted_proxies, InvalidProxyEntry, InvalidTrustedProxies,
    ProxyMatcher, TrustedProxies, TRUSTED_PROXIES_ENV,
};

verus! {

/// Exactly this many hexadecimal characters make a bootstrap credential.
pub const MASTER_KEY_HEX_LEN: usize = 64;

/// Environment variable carrying an operator-supplied bootstrap Master key.
pub const INITIAL_MASTER_KEY_ENV: &'static str = "INITIAL_MASTER_KEY";

/// Environment variable carrying an operator-supplied bootstrap Master signing secret.
pub const INITIAL_MASTER_SIGNING_SECRET_ENV: &'static str = "INITIAL_MASTER_SIGNING_SECRET";

/// Default maximum request body size, in mebibytes.
pub const DEFAULT_MAX_BODY_MIB: usize = 10;

/// Default outbound timeout, in seconds.
pub const DEFAULT_OUTBOUND_HTTP_TIMEOUT_SECS: u64 = 60;

/// Default number of retries of a transient outbound failure.
pub const DEFAULT_OUTBOUND_MAX_RETRIES: u32 = 3;

/// Default base retry backoff, in milliseconds.
pub const DEFAULT_OUTBOUND_RETRY_BACKOFF_MS: u64 = 500;

/// Default ceiling, in bytes, on a decompressed feed body.
pub const DEFAULT_MAX_DECOMPRESSED_BYTES: u64 = 52_428_800;

// ---------------------------------------------------------------------------
// Tuning values
// ---------------------------------------------------------------------------
/// The value of a numeric setting: the default unless the value spells a number from `least` to
/// `max`.
pub open spec fn setting(value: Option<Seq<char>>, least: nat, max: nat, default: nat) -> nat {
    match value {
        Some(s) => match text::unsigned_value(s, max) {
            Some(n) => if n >= least {
                n
            } else {
                default
            },
            None => default,
        },
        None => default,
    }
}

/// Reads a numeric setting.
fn read_setting(value: Option<&str>, least: u64, max: u64, default: u64) -> (n: u64)
    ensures
        n == setting(text::optional(value), least as nat, max as nat, default as nat),
{
    match value {
        Some(s) => match text::parse_unsigned(s, max) {
            Some(n) => if n >= least {
                n
            } else {
                default
            },
            None => default,
        },
        None => default,
    }
}

/// The most mebibytes whose bytes can be counted.
pub open spec fn most_mib() -> nat {
    usize::MAX as nat / 1_048_576
}

/// Maximum accepted request body size in bytes that a value of `MAX_BODY_SIZE_MIB` configures: the
/// default where there is none, or where it is not a number of mebibytes that can be counted.
pub open spec fn body_limit(value: Option<Seq<char>>) -> nat {
    setting(value, 1, most_mib(), DEFAULT_MAX_BODY_MIB as nat) * 1_048_576
}

/// Maximum accepted request body size in bytes, from the value of `MAX_BODY_SIZE_MIB`. The router's
/// body limit and the buffer for signed bodies both use it, so that the two agree.
pub fn max_body_bytes(value: Option<&str>) -> (bytes: usize)
    ensures
        bytes == body_limit(text::optional(value)),
        bytes >= 1_048_576,
{
    let mib: u64 = read_setting(
        value,
        1,
        (usize::MAX / 1_048_576) as u64,
        DEFAULT_MAX_BODY_MIB as u64,
    );
    mib as usize * 1_048_576
}

/// Timeout of an outbound request in seconds, from the value of `OUTBOUND_HTTP_TIMEOUT_SECS`.
pub fn outbound_http_timeout(value: Option<&str>) -> (secs: u64)
    ensures
        secs == setting(
            text::optional(value),
            1,
            u64::MAX as nat,
            DEFAULT_OUTBOUND_HTTP_TIMEOUT_SECS as nat,
        ),
{
    read_setting(value, 1, u64::MAX, DEFAULT_OUTBOUND_HTTP_TIMEOUT_SECS)
}

/// Retries of a transient outbound failure, from the value of `OUTBOUND_MAX_RETRIES`. Zero is a
/// valid value.
pub fn outbound_max_retries(value: Option<&str>) -> (n: u32)
    ensures
        n == setting(
            text::optional(value),
            0,
            u32::MAX as nat,
            DEFAULT_OUTBOUND_MAX_RETRIES as nat,
        ),
{
    read_setting(value, 0, u32::MAX as u64, DEFAULT_OUTBOUND_MAX_RETRIES as u64) as u32
}

/// Delay in milliseconds before the first retry, from the value of `OUTBOUND_RETRY_BACKOFF_MS`.
pub fn outbound_retry_backoff(value: Option<&str>) -> (ms: u64)
    ensures
        ms == setting(
            text::optional(value),
            1,
            u64::MAX as nat,
            DEFAULT_OUTBOUND_RETRY_BACKOFF_MS as nat,
        ),
{
    read_setting(value, 1, u64::MAX, DEFAULT_OUTBOUND_RETRY_BACKOFF_MS)
}

/// Ceiling on a decompressed feed body in bytes, from the value of `MAX_DECOMPRESSED_BYTES`.
pub fn max_decompressed_bytes(value: Option<&str>) -> (bytes: u64)
    ensures
        bytes == setting(
            text::optional(value),
            1,
            u64::MAX as nat,
            DEFAULT_MAX_DECOMPRESSED_BYTES as nat,
        ),
{
    read_setting(value, 1, u64::MAX, DEFAULT_MAX_DECOMPRESSED_BYTES)
}

/// A setting that must be at least one is never zero, whatever the operator wrote.
pub proof fn law_settings_keep_their_floor(
    value: Option<Seq<char>>,
    least: nat,
    max: nat,
    default: nat,
)
    requires
        least <= default <= max,
    ensures
        least <= setting(value, least, max, default) <= max,
{
}

/// Whatever the operator wrote, the body limit is a number of bytes that can be counted and at least
/// one mebibyte; where nothing usable was written it is the default.
pub proof fn law_body_limit_fails_soft(value: Option<Seq<char>>)
    ensures
        1_048_576 <= body_limit(value) <= usize::MAX,
        value is None ==> body_limit(value) == 10 * 1_048_576,
        value matches Some(s) ==> text::unsigned_value(s, most_mib()) is None ==> body_limit(value)
            == 10 * 1_048_576,
{
}

// ---------------------------------------------------------------------------
// Listening address
// ---------------------------------------------------------------------------
/// Default listening port.
pub const DEFAULT_PORT: u16 = 3003;

/// The address to listen on: the first of the two host settings that is there, every IPv4
/// interface if neither is or the one that is there names no address.
pub open spec fn bind_address(bind_host: Option<Seq<char>>, host: Option<Seq<char>>) -> IpAddress {
    let chosen = match bind_host {
        Some(h) => Some(h),
        None => host,
    };
    match chosen {
        Some(h) => match net::address_named(h) {
            Some(ip) => ip,
            None => IpAddress::V4(0),
        },
        None => IpAddress::V4(0),
    }
}

/// The address and port to listen on, from the values of `BIND_HOST`, `HOST` and `PORT`.
pub fn resolve_bind_addr(bind_host: Option<&str>, host: Option<&str>, port: Option<&str>) -> (r: (
    IpAddress,
    u16,
))
    ensures
        r.0 == bind_address(text::optional(bind_host), text::optional(host)),
        r.1 == setting(text::optional(port), 0, u16::MAX as nat, DEFAULT_PORT as nat),
{
    let port = read_setting(port, 0, u16::MAX as u64, DEFAULT_PORT as u64) as u16;
    let chosen = match bind_host {
        Some(h) => Some(h),
        None => host,
    };
    let ip = match chosen {
        Some(h) => match net::parse_address(h) {
            Some(ip) => ip,
            None => IpAddress::V4(0),
        },
        None => IpAddress::V4(0),
    };
    (ip, port)
}

// ---------------------------------------------------------------------------
// Bootstrap credentials
// ---------------------------------------------------------------------------
/// What is added where a credential holds characters that are not hexadecimal.
pub const NON_HEX_DETAIL: &'static str = ", and it contains non-hexadecimal characters";

/// The bootstrap Master key is not a 32-byte hexadecimal key. Fatal rather than a warning: this
/// credential administers every other one.
#[derive(Clone, Copy, Debug)]
pub struct InvalidInitialMasterKey {
    /// How many characters were supplied.
    pub got: usize,
    /// [`NON_HEX_DETAIL`] where that is also true, else empty.
    pub detail: &'static str,
}

/// The bootstrap Master signing secret is not a 32-byte hexadecimal key. Fatal: the secret of the
/// Master key cannot be rotated later.
#[derive(Clone, Copy, Debug)]
pub struct InvalidInitialMasterSigningSecret {
    /// How many characters were supplied.
    pub got: usize,
    /// [`NON_HEX_DETAIL`] where that is also true, else empty.
    pub detail: &'static str,
}

impl InvalidInitialMasterKey {
    /// The text an operator reads.
    pub open spec fn text(self) -> Seq<char> {
        "INITIAL_MASTER_KEY must be exactly 64 hexadecimal characters (32 bytes of entropy) — the same shape this service generates for itself. Got "@
            + text::decimal(self.got as nat) + " character(s)"@ + self.detail@
            + ". Generate one with `openssl rand -hex 32`, or unset the variable to have one generated. Refusing to start: a weak master key is the single credential that can administer everything."@
    }

    /// The text an operator reads.
    pub fn message(&self) -> (r: String)
        ensures
            r@ == self.text(),
    {
        let head = text::concat3(
            "INITIAL_MASTER_KEY must be exactly 64 hexadecimal characters (32 bytes of entropy) — the same shape this service generates for itself. Got ",
            text::decimal_string(self.got as u64).as_str(),
            " character(s)",
        );
        text::concat3(
            head.as_str(),
            self.detail,
            ". Generate one with `openssl rand -hex 32`, or unset the variable to have one generated. Refusing to start: a weak master key is the single credential that can administer everything.",
        )
    }
}

impl InvalidInitialMasterSigningSecret {
    /// The text an operator reads.
    pub open spec fn text(self) -> Seq<char> {
        "INITIAL_MASTER_SIGNING_SECRET must be exactly 64 hexadecimal characters (32 bytes of entropy). Got "@
            + text::decimal(self.got as nat) + " character(s)"@ + self.detail@
            + ". Generate one with `openssl rand -hex 32`, or unset the variable to have one generated. Refusing to start."@
    }

    /// The text an operator reads.
    pub fn message(&self) -> (r: String)
        ensures
            r@ == self.text(),
    {
        let head = text::concat3(
            "INITIAL_MASTER_SIGNING_SECRET must be exactly 64 hexadecimal characters (32 bytes of entropy). Got ",
            text::decimal_string(self.got as u64).as_str(),
            " character(s)",
        );
        text::concat3(
            head.as_str(),
            self.detail,
            ". Generate one with `openssl rand -hex 32`, or unset the variable to have one generated. Refusing to start.",
        )
    }
}

/// Whether every character of `s` is a hexadecimal digit.
pub open spec fn all_hex(s: Seq<char>) -> bool {
    forall|i: int| 0 <= i < s.len() ==> crypto::hex_value(#[trigger] s[i]) is Some
}

/// Whether `s` is a bootstrap credential: 32 bytes in hexadecimal.
pub open spec fn is_bootstrap_credential(s: Seq<char>) -> bool {
    s.len() == MASTER_KEY_HEX_LEN && all_hex(s)
}

/// Whether every character of `s` is a hexadecimal digit.
fn is_all_hex(s: &str) -> (b: bool)
    ensures
        b == all_hex(s@),
{
    let chars = text::chars_of(s);
    for i in 0..chars.len()
        invariant
            chars@ == s@,
            forall|j: int| 0 <= j < i ==> crypto::hex_value(#[trigger] s@[j]) is Some,
    {
        let c = chars[i];
        if !(('0' <= c && c <= '9') || ('a' <= c && c <= 'f') || ('A' <= c && c <= 'F')) {
            assert(crypto::hex_value(s@[i as int]) is None);
            return false;
        }
    }
    true
}

/// The detail that goes with a refused credential.
pub open spec fn refusal_detail(s: Seq<char>) -> Seq<char> {
    if all_hex(s) {
        ""@
    } else {
        NON_HEX_DETAIL@
    }
}

/// Validates an operator-supplied bootstrap Master key.
pub fn validate_initial_master_key(raw: &str) -> (r: Result<(), InvalidInitialMasterKey>)
    ensures
        match r {
            Ok(_) => is_bootstrap_credential(raw@),
            Err(e) => !is_bootstrap_credential(raw@) && e.got == raw@.len() && e.detail@
                == refusal_detail(raw@),
        },
{
    let is_hex = is_all_hex(raw);
    let got: usize = raw.unicode_len();
    if got == MASTER_KEY_HEX_LEN && is_hex {
        return Ok(());
    }
    Err(
        InvalidInitialMasterKey {
            got,
            detail: if is_hex {
                ""
            } else {
                NON_HEX_DETAIL
            },
        },
    )
}

/// Validates an operator-supplied bootstrap Master signing secret.
pub fn validate_initial_master_signing_secret(raw: &str) -> (r: Result<
    (),
    InvalidInitialMasterSigningSecret,
>)
    ensures
        match r {
            Ok(_) => is_bootstrap_credential(raw@),
            Err(e) => !is_bootstrap_credential(raw@) && e.got == raw@.len() && e.detail@
                == refusal_detail(raw@),
        },
{
    let is_hex = is_all_hex(raw);
    let got: usize = raw.unicode_len();
    if got == MASTER_KEY_HEX_LEN && is_hex {
        return Ok(());
    }
    Err(
        InvalidInitialMasterSigningSecret {
            got,
            detail: if is_hex {
                ""
            } else {
                NON_HEX_DETAIL
            },
        },
    )
}

/// What the service generates for itself is a valid bootstrap credential.
pub proof fn law_generated_secrets_are_valid(s: Seq<char>)
    requires
        crypto::is_generated(s),
    ensures
        is_bootstrap_credential(s),
{
    let bytes = choose|bytes: Seq<u8>|
        bytes.len() == 32 && s == #[trigger] crypto::hex_text(bytes);
    crypto::law_hex_round_trip(bytes);
}

// ---------------------------------------------------------------------------
// Client addresses
// ---------------------------------------------------------------------------
/// The IPv4 address behind an IPv4-mapped IPv6 address, and every other address as it is.
pub open spec fn unmapped(ip: IpAddress) -> IpAddress {
    match ip {
        IpAddress::V6(v6) => if v6 / 0x1_0000_0000 == 0xffff {
            IpAddress::V4((v6 % 0x1_0000_0000) as u32)
        } else {
            ip
        },
        IpAddress::V4(_) => ip,
    }
}

/// Unwraps an IPv4-mapped IPv6 address to its IPv4 form.
pub fn normalize_ip(ip: IpAddress) -> (r: IpAddress)
    ensures
        r == unmapped(ip),
{
    match ip {
        IpAddress::V6(v6) => if v6 / 0x1_0000_0000 == 0xffff {
            IpAddress::V4((v6 % 0x1_0000_0000) as u32)
        } else {
            ip
        },
        IpAddress::V4(_) => ip,
    }
}

/// An unwrapped address is not unwrapped any further.
pub proof fn law_normalize_ip_is_stable(ip: IpAddress)
    ensures
        unmapped(unmapped(ip)) == unmapped(ip),
{
}

/// Whether every network is well formed.
pub open spec fn all_well_formed(networks: Seq<IpNetwork>) -> bool {
    forall|i: int| 0 <= i < networks.len() ==> (#[trigger] networks[i]).well_formed()
}

/// Whether `ip` falls within any of the networks.
pub open spec fn trusts(trusted: Seq<IpNetwork>, ip: IpAddress) -> bool {
    exists|i: int| 0 <= i < trusted.len() && (#[trigger] trusted[i]).covers(ip)
}

/// Whether `ip` falls within any network in `trusted`.
pub fn is_trusted(ip: IpAddress, trusted: &[IpNetwork]) -> (b: bool)
    requires
        all_well_formed(trusted@),
    ensures
        b == trusts(trusted@, ip),
{
    for i in 0..trusted.len()
        invariant
            all_well_formed(trusted@),
            forall|j: int| 0 <= j < i ==> !(#[trigger] trusted@[j]).covers(ip),
    {
        if trusted[i].contains(ip) {
            return true;
        }
    }
    false
}

/// The address that one hop of a forwarding chain names.
pub open spec fn hop_address(hop: Seq<char>) -> Option<IpAddress> {
    let hop = text::trimmed(hop);
    if hop.len() == 0 {
        None
    } else {
        match net::address_named(hop) {
            Some(ip) => Some(unmapped(ip)),
            None => None,
        }
    }
}

/// The last hop that is not itself trusted. Hops that name no address are passed over.
pub open spec fn last_untrusted_hop(hops: Seq<Seq<char>>, trusted: Seq<IpNetwork>) -> Option<
    IpAddress,
>
    decreases hops.len(),
{
    if hops.len() == 0 {
        None
    } else {
        match hop_address(hops.last()) {
            Some(ip) => if trusts(trusted, ip) {
                last_untrusted_hop(hops.drop_last(), trusted)
            } else {
                Some(ip)
            },
            None => last_untrusted_hop(hops.drop_last(), trusted),
        }
    }
}

/// The address that a forwarding chain gives for the client.
pub open spec fn forwarded_client(chain: Seq<char>, trusted: Seq<IpNetwork>) -> Option<IpAddress> {
    last_untrusted_hop(text::pieces(chain, |c: char| c == ','), trusted)
}

/// The client's address.
pub open spec fn client_address(
    peer: IpAddress,
    forwarded_for: Option<Seq<char>>,
    real_ip: Option<Seq<char>>,
    trusted: Seq<IpNetwork>,
) -> IpAddress {
    let peer = unmapped(peer);
    if !trusts(trusted, peer) {
        peer
    } else {
        let forwarded = match forwarded_for {
            Some(chain) => forwarded_client(chain, trusted),
            None => None,
        };
        match forwarded {
            Some(ip) => ip,
            None => match real_ip {
                Some(s) => match net::address_named(text::trimmed(s)) {
                    Some(ip) => unmapped(ip),
                    None => peer,
                },
                None => peer,
            },
        }
    }
}

/// Walks a forwarding chain right to left to the first hop that is not trusted.
fn walk_chain(chain: &str, trusted: &[IpNetwork]) -> (r: Option<IpAddress>)
    requires
        all_well_formed(trusted@),
    ensures
        r == forwarded_client(chain@, trusted@),
{
    let hops = text::split(chain, ',');
    let ghost all = text::texts(hops@);
    let mut n: usize = hops.len();
    assert(all.take(n as int) =~= all);
    while n > 0
        invariant
            n <= hops@.len(),
            all == text::texts(hops@),
            all_well_formed(trusted@),
            last_untrusted_hop(all.take(n as int), trusted@) == forwarded_client(chain@, trusted@),
        decreases n,
    {
        assert(all.take(n as int).drop_last() =~= all.take(n - 1));
        assert(all.take(n as int).last() == hops@[n - 1]@);
        n = n - 1;
        let hop = text::trim(hops[n].as_str());
        if !hop.is_empty() {
            if let Some(ip) = net::parse_address(hop) {
                let ip = normalize_ip(ip);
                if !is_trusted(ip, trusted) {
                    return Some(ip);
                }
            }
        }
    }
    None
}

/// Resolves the real client address.
///
/// The forwarding headers are honoured only when the immediate peer is itself a trusted proxy;
/// otherwise a client could simply forge them. The chain of `X-Forwarded-For` is walked right to
/// left, skipping further trusted hops. Falls back to `X-Real-IP`, then to the peer.
pub fn resolve_client_ip(
    peer: IpAddress,
    forwarded_for: Option<&str>,
    real_ip: Option<&str>,
    trusted: &[IpNetwork],
) -> (ip: IpAddress)
    requires
        all_well_formed(trusted@),
    ensures
        ip == client_address(
            peer,
            text::optional(forwarded_for),
            text::optional(real_ip),
            trusted@,
        ),
{
    let direct = normalize_ip(peer);
    if !is_trusted(direct, trusted) {
        return direct;
    }
    if let Some(chain) = forwarded_for {
        if let Some(ip) = walk_chain(chain, trusted) {
            return ip;
        }
    }
    if let Some(s) = real_ip {
        if let Some(ip) = net::parse_address(text::trim(s)) {
            return normalize_ip(ip);
        }
    }
    direct
}

/// A peer that is not a trusted proxy is the client, whatever headers it sent.
pub proof fn law_untrusted_peers_cannot_forge(
    peer: IpAddress,
    forwarded_for: Option<Seq<char>>,
    real_ip: Option<Seq<char>>,
    trusted: Seq<IpNetwork>,
)
    requires
        !trusts(trusted, unmapped(peer)),
    ensures
        client_address(peer, forwarded_for, real_ip, trusted) == unmapped(peer),
{
}

/// With nothing trusted, the client is always the peer.
pub proof fn law_nothing_trusted_means_headers_are_ignored(
    peer: IpAddress,
    forwarded_for: Option<Seq<char>>,
    real_ip: Option<Seq<char>>,
)
    ensures
        client_address(peer, forwarded_for, real_ip, Seq::empty()) == unmapped(peer),
{
}

/// An address taken from a forwarding chain is never that of a trusted proxy.
pub proof fn law_forwarded_client_is_not_a_proxy(hops: Seq<Seq<char>>, trusted: Seq<IpNetwork>)
    ensures
        last_untrusted_hop(hops, trusted) matches Some(ip) ==> !trusts(trusted, ip),
    decreases hops.len(),
{
    if hops.len() > 0 {
        law_forwarded_client_is_not_a_proxy(hops.drop_last(), trusted);
    }
}

/// A number that is written out and lies within its bounds is taken as it is; what is too small, too
/// large, no number or not there leaves the default.
pub proof fn law_settings_are_taken_as_written(n: nat, least: nat, max: nat, default: nat)
    ensures
        least <= n <= max ==> setting(Some(text::decimal(n)), least, max, default) == n,
        n < least || n > max ==> setting(Some(text::decimal(n)), least, max, default) == default,
        setting(Some(seq!['-'] + text::decimal(n)), least, max, default) == default,
        setting(None, least, max, default) == default,
{
    text::law_unsigned_numbers_are_read_back(n, max);
}

/// What spells no number leaves the default.
pub proof fn law_what_is_no_number_is_ignored(
    value: Seq<char>,
    least: nat,
    max: nat,
    default: nat,
)
    ensures
        text::unsigned_value(value, max) is None ==> setting(Some(value), least, max, default)
            == default,
        value.len() == 0 ==> setting(Some(value), least, max, default) == default,
{
    text::law_numbers_are_digits(value, max);
}

/// The body limit is as many mebibytes as were written.
pub proof fn law_body_limit_is_in_mebibytes(n: nat)
    requires
        1 <= n <= usize::MAX as nat / 1_048_576,
    ensures
        body_limit(Some(text::decimal(n))) == n * 1_048_576,
{
    text::law_unsigned_numbers_are_read_back(n, most_mib());
}

/// What the settings are where nothing was written.
pub proof fn law_defaults()
    ensures
        DEFAULT_MAX_BODY_MIB == 10,
        DEFAULT_OUTBOUND_HTTP_TIMEOUT_SECS == 60,
        DEFAULT_OUTBOUND_MAX_RETRIES == 3,
        DEFAULT_OUTBOUND_RETRY_BACKOFF_MS == 500,
        DEFAULT_MAX_DECOMPRESSED_BYTES == 50 * 1_048_576,
        DEFAULT_PORT == 3003,
        MASTER_KEY_HEX_LEN == 64,
{
}

/// The first of the two hosts that is written decides where to listen; without one, or where it names
/// no address, it is every IPv4 interface.
pub proof fn law_the_first_host_decides(
    bind_host: Option<Seq<char>>,
    host: Option<Seq<char>>,
    ip: IpAddress,
)
    ensures
        bind_host matches Some(h) ==> net::address_named(h) == Some(ip) ==> bind_address(
            bind_host,
            host,
        ) == ip,
        bind_host matches Some(h) ==> net::address_named(h) is None ==> bind_address(bind_host, host)
            == IpAddress::V4(0),
        bind_host is None ==> (host matches Some(h) ==> net::address_named(h) == Some(ip)
            ==> bind_address(bind_host, host) == ip),
        bind_host is None ==> (host matches Some(h) ==> net::address_named(h) is None
            ==> bind_address(bind_host, host) == IpAddress::V4(0)),
        bind_host is None && host is None ==> bind_address(bind_host, host) == IpAddress::V4(0),
{
}

/// A bootstrap credential is 64 hexadecimal digits of either case, and nothing else is one; where one
/// is refused for a character, that is said.
pub proof fn law_what_a_bootstrap_credential_is(s: Seq<char>)
    ensures
        is_bootstrap_credential(s) <==> s.len() == 64 && (forall|i: int|
            0 <= i < s.len() ==> '0' <= #[trigger] s[i] <= '9' || 'a' <= s[i] <= 'f' || 'A' <= s[i]
                <= 'F'),
        refusal_detail(s) == ""@ || refusal_detail(s) == NON_HEX_DETAIL@,
        (exists|i: int|
            0 <= i < s.len() && !('0' <= #[trigger] s[i] <= '9' || 'a' <= s[i] <= 'f' || 'A' <= s[i]
                <= 'F')) ==> refusal_detail(s) == ", and it contains non-hexadecimal characters"@,
        all_hex(s) ==> refusal_detail(s) == ""@,
{
    if is_bootstrap_credential(s) {
        assert forall|i: int| 0 <= i < s.len() implies '0' <= #[trigger] s[i] <= '9' || 'a' <= s[i]
            <= 'f' || 'A' <= s[i] <= 'F' by {
            assert(crypto::hex_value(s[i]) is Some);
        }
    }
    if exists|i: int|
        0 <= i < s.len() && !('0' <= #[trigger] s[i] <= '9' || 'a' <= s[i] <= 'f' || 'A' <= s[i]
            <= 'F') {
        let i = choose|i: int|
            0 <= i < s.len() && !('0' <= #[trigger] s[i] <= '9' || 'a' <= s[i] <= 'f' || 'A' <= s[i]
                <= 'F');
        assert(crypto::hex_value(s[i]) is None);
    }
}

/// An IPv4 address in its IPv6 form is the IPv4 address; every other address is as it is.
pub proof fn law_mapped_addresses_are_unwrapped(ip: IpAddress, v4: u32)
    ensures
        unmapped(IpAddress::V4(v4)) == IpAddress::V4(v4),
        unmapped(IpAddress::V6((0xffff_0000_0000 + v4) as u128)) == IpAddress::V4(v4),
        ip matches IpAddress::V6(v6) ==> v6 < 0xffff_0000_0000 || v6 > 0xffff_ffff_ffff ==> unmapped(
            ip,
        ) == ip,
{
}

/// An address is trusted by the networks that hold it, and by no others.
pub proof fn law_networks_trust_what_they_cover(
    trusted: Seq<IpNetwork>,
    network: IpNetwork,
    ip: IpAddress,
)
    ensures
        !trusts(Seq::empty(), ip),
        trusts(trusted.push(network), ip) <==> trusts(trusted, ip) || network.covers(ip),
{
    let more = trusted.push(network);
    if trusts(trusted, ip) {
        let i = choose|i: int| 0 <= i < trusted.len() && (#[trigger] trusted[i]).covers(ip);
        assert(more[i].covers(ip));
    }
    if network.covers(ip) {
        assert(more[trusted.len() as int].covers(ip));
    }
    if trusts(more, ip) {
        let i = choose|i: int| 0 <= i < more.len() && (#[trigger] more[i]).covers(ip);
        if i < trusted.len() {
            assert(trusted[i].covers(ip));
        }
    }
}

/// A forwarding chain is read from its end: the last hop is the client unless it is a trusted proxy or
/// names no address, and then the hops before it decide.
pub proof fn law_chains_are_read_from_their_end(
    chain: Seq<char>,
    hop: Seq<char>,
    trusted: Seq<IpNetwork>,
    ip: IpAddress,
)
    requires
        !hop.contains(','),
    ensures
        ({
            let named = net::address_named(text::trimmed(hop));
            let longer = forwarded_client(chain.push(',') + hop, trusted);
            &&& text::trimmed(hop).len() > 0 && named == Some(ip) && !trusts(trusted, unmapped(ip))
                ==> longer == Some(unmapped(ip)) && forwarded_client(hop, trusted) == Some(
                unmapped(ip),
            )
            &&& text::trimmed(hop).len() > 0 && named == Some(ip) && trusts(trusted, unmapped(ip))
                ==> longer == forwarded_client(chain, trusted) && forwarded_client(
                hop,
                trusted,
            ) is None
            &&& text::trimmed(hop).len() == 0 || named is None ==> longer == forwarded_client(
                chain,
                trusted,
            ) && forwarded_client(hop, trusted) is None
        }),
{
    let comma = |c: char| c == ',';
    text::law_a_separator_parts_the_pieces(chain, ',', hop, comma);
    assert forall|i: int| 0 <= i < hop.len() implies !comma(#[trigger] hop[i]) by {
        assert(hop.contains(hop[i]));
    }
    text::law_text_without_a_separator_is_one_piece(hop, comma);
    let before = text::pieces(chain, comma);
    assert((before + seq![hop]).drop_last() =~= before);
    assert((before + seq![hop]).last() == hop);
    assert(seq![hop].drop_last() =~= Seq::<Seq<char>>::empty());
    assert(seq![hop].last() == hop);
    reveal_with_fuel(last_untrusted_hop, 2);
}

/// Behind a trusted proxy the client is whom the forwarding chain gives; where it gives none, whom
/// `X-Real-IP` names; and where that names none, the proxy itself.
pub proof fn law_trusted_proxies_say_who_the_client_is(
    peer: IpAddress,
    forwarded_for: Option<Seq<char>>,
    real_ip: Option<Seq<char>>,
    trusted: Seq<IpNetwork>,
    ip: IpAddress,
)
    requires
        trusts(trusted, unmapped(peer)),
    ensures
        ({
            let client = client_address(peer, forwarded_for, real_ip, trusted);
            let forwarded = forwarded_for is Some && forwarded_client(
                forwarded_for->0,
                trusted,
            ) is Some;
            let named = real_ip is Some && net::address_named(text::trimmed(real_ip->0)) == Some(ip);
            &&& forwarded ==> client == forwarded_client(forwarded_for->0, trusted)->0
            &&& !forwarded && named ==> client == unmapped(ip)
            &&& !forwarded && real_ip is None ==> client == unmapped(peer)
            &&& !forwarded && real_ip is Some && net::address_named(
                text::trimmed(real_ip->0),
            ) is None ==> client == unmapped(peer)
        }),
{
}

/// What an operator reads of a refused credential says which one it is, how long it is and what it
/// should be.
pub proof fn law_credential_refusals_say_what_is_wrong(
    key: InvalidInitialMasterKey,
    secret: InvalidInitialMasterSigningSecret,
)
    ensures
        key.text()
            == "INITIAL_MASTER_KEY must be exactly 64 hexadecimal characters (32 bytes of entropy) — the same shape this service generates for itself. Got "@
            + text::decimal(key.got as nat) + " character(s)"@ + key.detail@
            + ". Generate one with `openssl rand -hex 32`, or unset the variable to have one generated. Refusing to start: a weak master key is the single credential that can administer everything."@,
        secret.text()
            == "INITIAL_MASTER_SIGNING_SECRET must be exactly 64 hexadecimal characters (32 bytes of entropy). Got "@
            + text::decimal(secret.got as nat) + " character(s)"@ + secret.detail@
            + ". Generate one with `openssl rand -hex 32`, or unset the variable to have one generated. Refusing to start."@,
{
}

} // verus!
