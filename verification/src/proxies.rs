//! The peers whose forwarding headers are believed, named by address, network or host name.
//!
//! A container keeps its name and changes its address, so a host name is resolved while the
//! service runs, with a short memory for what was found and a shorter one for what was not. A name
//! that does not resolve trusts nobody, and disables only itself.

use vstd::hash_map::StringHashMap;
use vstd::prelude::*;
use vstd::string::*;
use vstd::utf8::*;

use crate::config;
use crate::config::normalize_ip;
use crate::net;
use crate::net::{IpAddress, IpNetwork};
use crate::text;

verus! {

/// Environment variable with the comma-separated addresses, networks and host names of the trusted
/// proxies.
pub const TRUSTED_PROXIES_ENV: &'static str = "TRUSTED_PROXIES";

/// How long a successful resolution is reused, in milliseconds.
pub const POSITIVE_TTL_MS: u64 = 30_000;

/// How long a failed resolution is remembered, in milliseconds.
pub const NEGATIVE_TTL_MS: u64 = 5_000;

/// How long after boot a name that does not resolve is given, in seconds, before the failure is
/// reported as persistent.
pub const BOOT_GRACE_SECS: u64 = 60;

/// An entry that is not a valid spelling of anything, and why.
#[derive(Debug)]
pub struct InvalidProxyEntry {
    /// The entry as written.
    pub entry: String,
    /// Why it was refused.
    pub reason: &'static str,
}

/// Startup refusal: at least one entry can never become usable, whatever DNS does.
#[derive(Debug)]
pub struct InvalidTrustedProxies {
    /// Every rejected entry, so that one restart surfaces all of them.
    pub entries: Vec<InvalidProxyEntry>,
}

/// An entry: a fixed network, or a name resolved at request time.
#[derive(Debug)]
pub enum ProxyMatcher {
    /// A literal address or network.
    Network(IpNetwork),
    /// A host name.
    Hostname(String),
}

/// What a [`ProxyMatcher`] says.
pub enum MatcherView {
    /// A literal address or network.
    Network(IpNetwork),
    /// A host name.
    Hostname(Seq<char>),
}

impl View for ProxyMatcher {
    type V = MatcherView;

    open spec fn view(&self) -> MatcherView {
        match self {
            ProxyMatcher::Network(network) => MatcherView::Network(*network),
            ProxyMatcher::Hostname(name) => MatcherView::Hostname(name@),
        }
    }
}

impl ProxyMatcher {
    /// The entry as text.
    pub fn to_text(&self) -> (s: String)
        ensures
            s@ == match self@ {
                MatcherView::Network(network) => net::network_text(network),
                MatcherView::Hostname(name) => name,
            },
    {
        match self {
            ProxyMatcher::Network(network) => net::network_string(*network),
            ProxyMatcher::Hostname(name) => name.clone(),
        }
    }
}

/// How `Debug` writes a string: quoted, with what cannot be shown escaped.
pub uninterp spec fn quoted(s: Seq<char>) -> Seq<char>;

/// Calls the `Debug` of `str`, which puts the text in quotation marks and escapes it. What comes back
/// is a function of the text.
#[verifier::external_body]
fn quote(s: &str) -> (r: String)
    ensures
        r@ == quoted(s@),
{
    format!("{s:?}")
}

/// `y` or `ies`, as the number asks for.
pub open spec fn entry_ending(n: nat) -> Seq<char> {
    if n == 1 {
        "y"@
    } else {
        "ies"@
    }
}

/// `y` or `ies`, as the number asks for.
fn ending(n: usize) -> (s: &'static str)
    ensures
        s@ == entry_ending(n as nat),
{
    if n == 1 {
        "y"
    } else {
        "ies"
    }
}

/// How a refused entry is described.
pub open spec fn described(entry: InvalidProxyEntry) -> Seq<char> {
    quoted(entry.entry@) + " ("@ + entry.reason@ + ")"@
}

impl InvalidTrustedProxies {
    /// The text an operator reads.
    pub open spec fn text(self) -> Seq<char> {
        text::decimal(self.entries@.len()) + " invalid TRUSTED_PROXIES entr"@ + entry_ending(
            self.entries@.len(),
        ) + ": "@ + text::joined(
            Seq::new(self.entries@.len(), |i: int| described(self.entries@[i])),
            "; "@,
        )
    }

    /// The text an operator reads.
    pub fn message(&self) -> (r: String)
        ensures
            r@ == self.text(),
    {
        let mut parts: Vec<String> = Vec::new();
        for i in 0..self.entries.len()
            invariant
                parts@.len() == i,
                forall|j: int| 0 <= j < i ==> (#[trigger] parts@[j])@ == described(self.entries@[j]),
        {
            let quoted_entry = quote(self.entries[i].entry.as_str());
            let head = text::concat3(quoted_entry.as_str(), " (", self.entries[i].reason);
            parts.push(text::concat(head.as_str(), ")"));
        }
        assert(text::texts(parts@) =~= Seq::new(
            self.entries@.len(),
            |i: int| described(self.entries@[i]),
        ));
        let n: usize = self.entries.len();
        let head = text::concat3(
            text::decimal_string(n as u64).as_str(),
            " invalid TRUSTED_PROXIES entr",
            ending(n),
        );
        text::concat3(head.as_str(), ": ", text::join(&parts, "; ").as_str())
    }
}

// ---------------------------------------------------------------------------
// Syntax
// ---------------------------------------------------------------------------
/// Whether `c` is an ASCII digit.
pub open spec fn is_digit(c: char) -> bool {
    '0' <= c <= '9'
}

/// Whether `c` is an ASCII letter or digit.
pub open spec fn is_alphanumeric(c: char) -> bool {
    is_digit(c) || 'a' <= c <= 'z' || 'A' <= c <= 'Z'
}

/// Whether `c` can stand in a DNS name.
pub open spec fn is_name_char(c: char) -> bool {
    is_alphanumeric(c) || c == '-' || c == '.' || c == '_'
}

/// Why `entry` cannot be a DNS name, or nothing when it is shaped like one.
pub open spec fn rejection(entry: Seq<char>) -> Option<Seq<char>> {
    if entry.len() == 0 {
        Some("empty"@)
    } else if encode_utf8(entry).len() > 253 {
        Some("longer than the 253-character limit on a DNS name"@)
    } else if entry.contains('/') || entry.contains(':') {
        Some(
            "contains '/' or ':', which appear only in CIDR and IPv6 syntax, so this is a malformed address rather than a hostname"@,
        )
    } else if !is_alphanumeric(entry.first()) || !is_alphanumeric(entry.last()) {
        Some("a hostname must begin and end with a letter or a digit"@)
    } else if forall|i: int| 0 <= i < entry.len() ==> is_digit(#[trigger] entry[i]) || entry[i] == '.' {
        Some("made only of digits and dots, so this is a malformed IPv4 literal"@)
    } else if !(forall|i: int| 0 <= i < entry.len() ==> is_name_char(#[trigger] entry[i])) {
        Some("contains characters that cannot appear in a DNS name"@)
    } else {
        None
    }
}

/// Whether `c` is an ASCII digit.
fn digit(c: char) -> (b: bool)
    ensures
        b == is_digit(c),
{
    '0' <= c && c <= '9'
}

/// Whether `c` is an ASCII letter or digit.
fn alphanumeric(c: char) -> (b: bool)
    ensures
        b == is_alphanumeric(c),
{
    digit(c) || ('a' <= c && c <= 'z') || ('A' <= c && c <= 'Z')
}

/// Why `entry` cannot be a DNS name, or nothing when it is shaped like one.
///
/// Strict about the two shapes that are nearly addresses, so that a typo surfaces as the
/// configuration error it is: anything with `/` or `:`, and anything made only of digits and dots.
pub fn hostname_rejection(entry: &str) -> (r: Option<&'static str>)
    ensures
        text::optional(r) == rejection(entry@),
{
    if entry.is_empty() {
        return Some("empty");
    }
    let bytes = entry.as_bytes();
    if bytes.len() > 253 {
        return Some("longer than the 253-character limit on a DNS name");
    }
    if text::contains_char(entry, '/') || text::contains_char(entry, ':') {
        return Some(
            "contains '/' or ':', which appear only in CIDR and IPv6 syntax, so this is a malformed address rather than a hostname",
        );
    }
    let chars = text::chars_of(entry);
    let n: usize = chars.len();
    if !alphanumeric(chars[0]) || !alphanumeric(chars[n - 1]) {
        return Some("a hostname must begin and end with a letter or a digit");
    }
    let mut numeric = true;
    let mut legal = true;
    for i in 0..n
        invariant
            n == chars@.len(),
            chars@ == entry@,
            numeric == (forall|j: int|
                0 <= j < i ==> is_digit(#[trigger] entry@[j]) || entry@[j] == '.'),
            legal == (forall|j: int| 0 <= j < i ==> is_name_char(#[trigger] entry@[j])),
    {
        let c = chars[i];
        assert(c == entry@[i as int]);
        if !digit(c) && c != '.' {
            numeric = false;
        }
        if !alphanumeric(c) && c != '-' && c != '.' && c != '_' {
            legal = false;
        }
    }
    if numeric {
        return Some("made only of digits and dots, so this is a malformed IPv4 literal");
    }
    if !legal {
        return Some("contains characters that cannot appear in a DNS name");
    }
    None
}

/// A host name that is accepted can be mistaken for neither a network nor an address.
pub proof fn law_accepted_names_are_not_addresses(entry: Seq<char>)
    requires
        rejection(entry) is None,
    ensures
        !entry.contains('/'),
        !entry.contains(':'),
        exists|i: int| 0 <= i < entry.len() && !is_digit(#[trigger] entry[i]) && entry[i] != '.',
{
}

/// The entries of a list: its pieces between commas, trimmed, without the empty ones.
pub open spec fn list_entries(raw: Seq<char>) -> Seq<Seq<char>> {
    text::pieces(raw, |c: char| c == ',').map_values(|s: Seq<char>| text::trimmed(s)).filter(
        |s: Seq<char>| s.len() > 0,
    )
}

/// The entries of a list.
pub fn split_list(raw: &str) -> (entries: Vec<String>)
    ensures
        text::texts(entries@) == list_entries(raw@),
{
    let parts = text::split(raw, ',');
    let mut entries: Vec<String> = Vec::new();
    let ghost kept = |s: Seq<char>| s.len() > 0;
    let ghost all = text::pieces(raw@, |c: char| c == ',').map_values(
        |s: Seq<char>| text::trimmed(s),
    );
    proof {
        reveal(Seq::filter);
        assert(all.take(0).filter(kept) =~= Seq::empty());
        assert(text::texts(entries@) =~= Seq::empty());
    }
    for i in 0..parts.len()
        invariant
            kept == (|s: Seq<char>| s.len() > 0),
            all == text::texts(parts@).map_values(|s: Seq<char>| text::trimmed(s)),
            text::texts(entries@) == all.take(i as int).filter(kept),
    {
        let entry = text::trim(parts[i].as_str());
        assert(entry@ == all[i as int]);
        let ghost before = text::texts(entries@);
        proof {
            reveal(Seq::filter);
            assert(all.take(i + 1).drop_last() =~= all.take(i as int));
        }
        if !entry.is_empty() {
            entries.push(entry.to_owned());
            assert(text::texts(entries@) =~= before.push(entry@));
        }
    }
    assert(all.take(all.len() as int) =~= all);
    entries
}

/// The matchers that the usable entries give.
pub open spec fn usable(entries: Seq<Seq<char>>) -> Seq<MatcherView>
    decreases entries.len(),
{
    if entries.len() == 0 {
        Seq::empty()
    } else {
        let before = usable(entries.drop_last());
        match net::network_named(entries.last()) {
            Some(network) => before.push(MatcherView::Network(network)),
            None => if rejection(entries.last()) is None {
                before.push(MatcherView::Hostname(entries.last()))
            } else {
                before
            },
        }
    }
}

/// The entries that are unusable, each with the reason.
pub open spec fn unusable(entries: Seq<Seq<char>>) -> Seq<(Seq<char>, Seq<char>)>
    decreases entries.len(),
{
    if entries.len() == 0 {
        Seq::empty()
    } else {
        let before = unusable(entries.drop_last());
        match (net::network_named(entries.last()), rejection(entries.last())) {
            (None, Some(reason)) => before.push((entries.last(), reason)),
            _ => before,
        }
    }
}

/// What matchers say.
pub open spec fn matcher_views(matchers: Seq<ProxyMatcher>) -> Seq<MatcherView> {
    Seq::new(matchers.len(), |i: int| matchers[i]@)
}

/// What refused entries say.
pub open spec fn refusal_views(entries: Seq<InvalidProxyEntry>) -> Seq<(Seq<char>, Seq<char>)> {
    Seq::new(entries.len(), |i: int| (entries[i].entry@, entries[i].reason@))
}

/// Whether every literal network is well formed.
pub open spec fn matchers_well_formed(matchers: Seq<ProxyMatcher>) -> bool {
    forall|i: int|
        0 <= i < matchers.len() ==> ((#[trigger] matchers[i]) matches ProxyMatcher::Network(network)
            ==> network.well_formed())
}

/// Parses a list of trusted proxies, or reports every entry that is unusable.
///
/// An entry is a network, an address (promoted to the network of that one address), or else a host
/// name. The check is purely syntactic: a well-formed name is accepted whether or not it resolves.
pub fn parse_trusted_proxies(raw: &str) -> (r: Result<Vec<ProxyMatcher>, Vec<InvalidProxyEntry>>)
    ensures
        match r {
            Ok(matchers) => unusable(list_entries(raw@)).len() == 0 && matcher_views(matchers@)
                == usable(list_entries(raw@)) && matchers_well_formed(matchers@),
            Err(entries) => entries@.len() > 0 && refusal_views(entries@) == unusable(
                list_entries(raw@),
            ),
        },
{
    let mut matchers: Vec<ProxyMatcher> = Vec::new();
    let mut invalid: Vec<InvalidProxyEntry> = Vec::new();
    let entries = split_list(raw);
    let ghost all = text::texts(entries@);
    assert(matcher_views(matchers@) =~= usable(all.take(0)));
    assert(refusal_views(invalid@) =~= unusable(all.take(0)));
    for i in 0..entries.len()
        invariant
            all == text::texts(entries@),
            matcher_views(matchers@) == usable(all.take(i as int)),
            refusal_views(invalid@) == unusable(all.take(i as int)),
            matchers_well_formed(matchers@),
    {
        let entry = entries[i].as_str();
        assert(all.take(i + 1).drop_last() =~= all.take(i as int));
        assert(all.take(i + 1).last() == entry@);
        let ghost found = matcher_views(matchers@);
        let ghost refused = refusal_views(invalid@);
        if let Some(network) = net::parse_network(entry) {
            matchers.push(ProxyMatcher::Network(network));
            assert(matcher_views(matchers@) =~= found.push(MatcherView::Network(network)));
        } else {
            match hostname_rejection(entry) {
                None => {
                    matchers.push(ProxyMatcher::Hostname(entry.to_owned()));
                    assert(matcher_views(matchers@) =~= found.push(MatcherView::Hostname(entry@)));
                },
                Some(reason) => {
                    invalid.push(InvalidProxyEntry { entry: entry.to_owned(), reason });
                    assert(refusal_views(invalid@) =~= refused.push((entry@, reason@)));
                },
            }
        }
    }
    assert(all.take(all.len() as int) =~= all);
    if invalid.len() == 0 {
        Ok(matchers)
    } else {
        Err(invalid)
    }
}

// ---------------------------------------------------------------------------
// Resolution
// ---------------------------------------------------------------------------
/// One host name's last resolution attempt.
#[derive(Debug)]
pub struct HostnameState {
    /// What the name resolved to; empty when the lookup failed.
    pub addresses: Vec<IpNetwork>,
    /// When the attempt ran, in milliseconds of a clock that never goes back.
    pub attempted_at: u64,
    /// Whether it produced at least one address.
    pub resolved: bool,
}

impl HostnameState {
    /// Whether the attempt may still be reused at `now`.
    pub open spec fn fresh(self, now: u64, positive_ttl: u64, negative_ttl: u64) -> bool {
        now - self.attempted_at < if self.resolved {
            positive_ttl
        } else {
            negative_ttl
        }
    }

    /// Whether the attempt may still be reused at `now`: for longer if it found an address.
    pub fn is_fresh(&self, now: u64, positive_ttl: u64, negative_ttl: u64) -> (b: bool)
        requires
            self.attempted_at <= now,
        ensures
            b == self.fresh(now, positive_ttl, negative_ttl),
    {
        let ttl: u64 = if self.resolved {
            positive_ttl
        } else {
            negative_ttl
        };
        now - self.attempted_at < ttl
    }

    /// The attempt found something exactly where it has addresses, and they are well formed.
    pub open spec fn well_formed(self) -> bool {
        &&& self.resolved == (self.addresses@.len() > 0)
        &&& config::all_well_formed(self.addresses@)
    }
}

/// The literal networks among matchers.
pub open spec fn literal_networks(matchers: Seq<MatcherView>) -> Seq<IpNetwork>
    decreases matchers.len(),
{
    if matchers.len() == 0 {
        Seq::empty()
    } else {
        let before = literal_networks(matchers.drop_last());
        match matchers.last() {
            MatcherView::Network(network) => before.push(network),
            MatcherView::Hostname(_) => before,
        }
    }
}

/// The host names among matchers.
pub open spec fn host_names(matchers: Seq<MatcherView>) -> Seq<Seq<char>>
    decreases matchers.len(),
{
    if matchers.len() == 0 {
        Seq::empty()
    } else {
        let before = host_names(matchers.drop_last());
        match matchers.last() {
            MatcherView::Hostname(name) => before.push(name),
            MatcherView::Network(_) => before,
        }
    }
}

/// The networks of host names, as far as they are known.
pub open spec fn known_networks(
    names: Seq<Seq<char>>,
    hosts: Map<Seq<char>, HostnameState>,
) -> Seq<IpNetwork>
    decreases names.len(),
{
    if names.len() == 0 {
        Seq::empty()
    } else {
        let before = known_networks(names.drop_last(), hosts);
        if hosts.contains_key(names.last()) {
            before + hosts[names.last()].addresses@
        } else {
            before
        }
    }
}

/// The networks of addresses that a lookup gave.
pub open spec fn host_routes(addresses: Seq<IpAddress>) -> Seq<IpNetwork> {
    addresses.map_values(|ip: IpAddress| IpNetwork::single_spec(config::unmapped(ip)))
}

/// The trusted proxies: what is configured, and what the host names were last found to be.
pub struct TrustedProxies {
    matchers: Vec<ProxyMatcher>,
    networks: Vec<IpNetwork>,
    hostnames: Vec<String>,
    positive_ttl: u64,
    negative_ttl: u64,
    hosts: StringHashMap<HostnameState>,
    snapshot: Vec<IpNetwork>,
    built: bool,
}

impl TrustedProxies {
    /// The configuration as written.
    pub closed spec fn configured(self) -> Seq<MatcherView> {
        matcher_views(self.matchers@)
    }

    /// The host names, in order.
    pub closed spec fn names(self) -> Seq<Seq<char>> {
        text::texts(self.hostnames@)
    }

    /// The last attempt of every host name.
    pub closed spec fn attempts(self) -> Map<Seq<char>, HostnameState> {
        self.hosts@
    }

    /// The literal networks together with whatever the host names were last found to be.
    pub open spec fn merged(self) -> Seq<IpNetwork> {
        literal_networks(self.configured()) + known_networks(self.names(), self.attempts())
    }

    /// How long a successful and a failed resolution are reused.
    pub closed spec fn ttls(self) -> (u64, u64) {
        (self.positive_ttl, self.negative_ttl)
    }

    /// Whether the merged view reflects every attempt that was recorded.
    pub closed spec fn is_built(self) -> bool {
        self.built
    }

    /// The derived lists agree with the configuration, and the merged view with the attempts it
    /// was built from.
    pub closed spec fn well_formed(self) -> bool {
        &&& matchers_well_formed(self.matchers@)
        &&& self.networks@ == literal_networks(self.configured())
        &&& config::all_well_formed(self.networks@)
        &&& self.names() == host_names(self.configured())
        &&& self.built ==> self.snapshot@ == self.merged()
        &&& forall|name: Seq<char>|
            #![trigger self.hosts@[name]]
            self.hosts@.contains_key(name) ==> self.hosts@[name].well_formed()
    }

    /// No attempt lies after `now`.
    pub open spec fn not_after(self, now: u64) -> bool {
        forall|name: Seq<char>|
            #![trigger self.attempts()[name]]
            self.attempts().contains_key(name) ==> self.attempts()[name].attempted_at <= now
    }

    /// Whether the attempt of a host name can be reused at `now`.
    pub open spec fn knows(self, name: Seq<char>, now: u64) -> bool {
        self.attempts().contains_key(name) && self.attempts()[name].fresh(
            now,
            self.ttls().0,
            self.ttls().1,
        )
    }

    /// Builds from a parsed list.
    pub fn new(matchers: Vec<ProxyMatcher>) -> (r: Self)
        requires
            matchers_well_formed(matchers@),
        ensures
            r.well_formed(),
            r.configured() == matcher_views(matchers@),
            r.names() == host_names(matcher_views(matchers@)),
            r.attempts() == Map::<Seq<char>, HostnameState>::empty(),
            r.ttls() == (POSITIVE_TTL_MS, NEGATIVE_TTL_MS),
            !r.is_built(),
    {
        let ghost views = matcher_views(matchers@);
        let mut networks: Vec<IpNetwork> = Vec::new();
        let mut hostnames: Vec<String> = Vec::new();
        assert(networks@ =~= literal_networks(views.take(0)));
        assert(text::texts(hostnames@) =~= host_names(views.take(0)));
        for i in 0..matchers.len()
            invariant
                views == matcher_views(matchers@),
                matchers_well_formed(matchers@),
                networks@ == literal_networks(views.take(i as int)),
                config::all_well_formed(networks@),
                text::texts(hostnames@) == host_names(views.take(i as int)),
        {
            assert(views.take(i + 1).drop_last() =~= views.take(i as int));
            assert(views.take(i + 1).last() == matchers@[i as int]@);
            match &matchers[i] {
                ProxyMatcher::Network(network) => {
                    networks.push(*network);
                },
                ProxyMatcher::Hostname(name) => {
                    let ghost before = text::texts(hostnames@);
                    hostnames.push(name.clone());
                    assert(text::texts(hostnames@) =~= before.push(name@));
                },
            }
        }
        assert(views.take(views.len() as int) =~= views);
        TrustedProxies {
            matchers,
            networks,
            hostnames,
            positive_ttl: POSITIVE_TTL_MS,
            negative_ttl: NEGATIVE_TTL_MS,
            hosts: StringHashMap::new(),
            snapshot: Vec::new(),
            built: false,
        }
    }

    /// Parses the value of [`TRUSTED_PROXIES_ENV`], refusing to build if any entry is malformed. An
    /// unset or blank variable means that nothing is trusted.
    pub fn from_env(value: Option<&str>) -> (r: Result<Self, InvalidTrustedProxies>)
        ensures
            match value {
                Some(raw) => if text::trimmed(raw@).len() == 0 {
                    r is Ok && r->Ok_0.configured().len() == 0
                } else if unusable(list_entries(raw@)).len() == 0 {
                    r is Ok && r->Ok_0.configured() == usable(list_entries(raw@))
                } else {
                    r is Err && refusal_views(r->Err_0.entries@) == unusable(list_entries(raw@))
                },
                None => r is Ok && r->Ok_0.configured().len() == 0,
            },
            r matches Ok(proxies) ==> {
                &&& proxies.well_formed()
                &&& proxies.names() == host_names(proxies.configured())
                &&& proxies.attempts() == Map::<Seq<char>, HostnameState>::empty()
                &&& proxies.ttls() == (POSITIVE_TTL_MS, NEGATIVE_TTL_MS)
                &&& !proxies.is_built()
            },
    {
        match value {
            Some(raw) => {
                if text::trim(raw).is_empty() {
                    return Ok(Self::new(Vec::new()));
                }
                match parse_trusted_proxies(raw) {
                    Ok(matchers) => Ok(Self::new(matchers)),
                    Err(entries) => Err(InvalidTrustedProxies { entries }),
                }
            },
            None => Ok(Self::new(Vec::new())),
        }
    }

    /// Overrides both reuse windows.
    pub fn with_ttls(self, positive_ttl: u64, negative_ttl: u64) -> (r: Self)
        requires
            self.well_formed(),
        ensures
            r.well_formed(),
            r.configured() == self.configured(),
            r.names() == self.names(),
            r.attempts() == self.attempts(),
            r.ttls() == (positive_ttl, negative_ttl),
            r.is_built() == self.is_built(),
    {
        let mut r = self;
        r.positive_ttl = positive_ttl;
        r.negative_ttl = negative_ttl;
        r
    }

    /// Whether nothing at all is trusted.
    pub fn is_empty(&self) -> (b: bool)
        ensures
            b == (self.configured().len() == 0),
    {
        self.matchers.len() == 0
    }

    /// The configured matchers.
    pub fn matchers(&self) -> (r: &Vec<ProxyMatcher>)
        ensures
            matcher_views(r@) == self.configured(),
    {
        &self.matchers
    }

    /// Whether the attempt of the host name at `i` can be reused at `now`.
    fn is_known(&self, i: usize, now: u64) -> (b: bool)
        requires
            i < self.names().len(),
            self.not_after(now),
        ensures
            b == self.knows(self.names()[i as int], now),
    {
        match self.hosts.get(self.hostnames[i].as_str()) {
            Some(state) => {
                assert(self.attempts()[self.names()[i as int]] == *state);
                state.is_fresh(now, self.positive_ttl, self.negative_ttl)
            },
            None => false,
        }
    }

    /// The first host name from `start` on whose attempt cannot be reused at `now`. Those are the
    /// names to look up again, one after the other.
    pub fn next_stale(&self, start: usize, now: u64) -> (r: Option<usize>)
        requires
            self.not_after(now),
        ensures
            match r {
                Some(i) => start <= i < self.names().len() && !self.knows(
                    self.names()[i as int],
                    now,
                ) && forall|j: int|
                    start <= j < i ==> self.knows(#[trigger] self.names()[j], now),
                None => forall|j: int|
                    start <= j < self.names().len() ==> self.knows(
                        #[trigger] self.names()[j],
                        now,
                    ),
            },
    {
        let mut i: usize = start;
        while i < self.hostnames.len()
            invariant
                start <= i,
                self.not_after(now),
                forall|j: int|
                    start <= j < i && j < self.names().len() ==> self.knows(
                        #[trigger] self.names()[j],
                        now,
                    ),
            decreases self.hostnames@.len() - i,
        {
            if !self.is_known(i, now) {
                return Some(i);
            }
            i = i + 1;
        }
        None
    }

    /// The host name at `i`.
    pub fn hostname(&self, i: usize) -> (r: &str)
        requires
            i < self.names().len(),
        ensures
            r@ == self.names()[i as int],
    {
        self.hostnames[i].as_str()
    }

    /// The networks to match a request against, if nothing has to be looked up first: the literal
    /// networks where no host name is configured, else the merged view while every attempt can
    /// still be reused.
    pub fn resolved(&self, now: u64) -> (r: Option<&Vec<IpNetwork>>)
        requires
            self.well_formed(),
            self.not_after(now),
        ensures
            r is Some <==> self.names().len() == 0 || (self.is_built() && forall|j: int|
                0 <= j < self.names().len() ==> self.knows(#[trigger] self.names()[j], now)),
            r matches Some(networks) ==> networks@ == self.merged() && config::all_well_formed(
                networks@,
            ),
    {
        if self.hostnames.len() == 0 {
            assert(self.merged() =~= self.networks@);
            return Some(&self.networks);
        }
        if !self.built {
            return None;
        }
        match self.next_stale(0, now) {
            Some(_) => None,
            None => {
                proof {
                    lemma_known_networks_well_formed(self.names(), self.hosts@);
                }
                Some(&self.snapshot)
            },
        }
    }

    /// Records what a lookup of the host name at `i` gave at `now`. A failed lookup gives no
    /// address.
    pub fn record(&mut self, i: usize, addresses: &Vec<IpAddress>, now: u64)
        requires
            old(self).well_formed(),
            old(self).not_after(now),
            i < old(self).names().len(),
        ensures
            final(self).well_formed(),
            final(self).not_after(now),
            !final(self).is_built(),
            final(self).configured() == old(self).configured(),
            final(self).names() == old(self).names(),
            final(self).ttls() == old(self).ttls(),
            final(self).attempts().dom() == old(self).attempts().dom().insert(
                old(self).names()[i as int],
            ),
            forall|name: Seq<char>|
                name != old(self).names()[i as int] && old(self).attempts().contains_key(name)
                    ==> #[trigger] final(self).attempts()[name] == old(self).attempts()[name],
            ({
                let state = final(self).attempts()[old(self).names()[i as int]];
                &&& state.addresses@ == host_routes(addresses@)
                &&& state.attempted_at == now
                &&& state.resolved == (addresses@.len() > 0)
            }),
    {
        let mut routes: Vec<IpNetwork> = Vec::new();
        for k in 0..addresses.len()
            invariant
                routes@ == host_routes(addresses@.take(k as int)),
                config::all_well_formed(routes@),
        {
            routes.push(IpNetwork::single(normalize_ip(addresses[k])));
            assert(routes@ =~= host_routes(addresses@.take(k + 1)));
        }
        assert(addresses@.take(addresses@.len() as int) =~= addresses@);
        let resolved = routes.len() > 0;
        let name = self.hostnames[i].clone();
        let state = HostnameState { addresses: routes, attempted_at: now, resolved };
        self.built = false;
        self.hosts.insert(name, state);
        proof {
            assert forall|n: Seq<char>|
                #![trigger self.attempts()[n]]
                self.attempts().contains_key(n) implies self.attempts()[n].attempted_at <= now by {
                if n != name@ {
                    assert(self.attempts()[n] == old(self).attempts()[n]);
                }
            }
        }
    }

    /// Builds the merged view from the attempts recorded so far.
    pub fn rebuild(&mut self)
        requires
            old(self).well_formed(),
        ensures
            final(self).well_formed(),
            final(self).is_built(),
            final(self).configured() == old(self).configured(),
            final(self).names() == old(self).names(),
            final(self).ttls() == old(self).ttls(),
            final(self).attempts() == old(self).attempts(),
            final(self).merged() == old(self).merged(),
    {
        let ghost names = self.names();
        let mut merged: Vec<IpNetwork> = Vec::new();
        for k in 0..self.networks.len()
            invariant
                merged@ == self.networks@.take(k as int),
        {
            merged.push(self.networks[k]);
            assert(merged@ =~= self.networks@.take(k + 1));
        }
        assert(self.networks@.take(self.networks@.len() as int) =~= self.networks@);
        assert(merged@ =~= self.networks@ + known_networks(names.take(0), self.hosts@));
        for i in 0..self.hostnames.len()
            invariant
                names == self.names(),
                names.len() == self.hostnames@.len(),
                merged@ == self.networks@ + known_networks(names.take(i as int), self.hosts@),
        {
            assert(names.take(i + 1).drop_last() =~= names.take(i as int));
            assert(names[i as int] == self.hostnames@[i as int]@);
            if let Some(state) = self.hosts.get(self.hostnames[i].as_str()) {
                let ghost before = merged@;
                for k in 0..state.addresses.len()
                    invariant
                        merged@ == before + state.addresses@.take(k as int),
                {
                    merged.push(state.addresses[k]);
                    assert(merged@ =~= before + state.addresses@.take(k + 1));
                }
                assert(state.addresses@.take(state.addresses@.len() as int) =~= state.addresses@);
                assert(merged@ =~= self.networks@ + known_networks(
                    names.take(i + 1),
                    self.hosts@,
                ));
            }
        }
        assert(names.take(names.len() as int) =~= names);
        self.snapshot = merged;
        self.built = true;
    }

    /// Forgets every attempt, so that each name is looked up again.
    pub fn forget(&mut self)
        requires
            old(self).well_formed(),
        ensures
            final(self).well_formed(),
            !final(self).is_built(),
            final(self).configured() == old(self).configured(),
            final(self).names() == old(self).names(),
            final(self).ttls() == old(self).ttls(),
            final(self).attempts() == Map::<Seq<char>, HostnameState>::empty(),
    {
        self.built = false;
        self.hosts = StringHashMap::new();
    }

    /// The host names that were not found to be anything, in order.
    pub fn unresolved(&self) -> (r: Vec<String>)
        ensures
            text::texts(r@) == unresolved_names(self.names(), self.attempts()),
    {
        let ghost names = self.names();
        let mut r: Vec<String> = Vec::new();
        assert(text::texts(r@) =~= unresolved_names(names.take(0), self.hosts@));
        for i in 0..self.hostnames.len()
            invariant
                names == self.names(),
                names.len() == self.hostnames@.len(),
                text::texts(r@) == unresolved_names(names.take(i as int), self.hosts@),
        {
            assert(names.take(i + 1).drop_last() =~= names.take(i as int));
            assert(names[i as int] == self.hostnames@[i as int]@);
            let found = match self.hosts.get(self.hostnames[i].as_str()) {
                Some(state) => state.resolved,
                None => false,
            };
            if !found {
                let ghost before = text::texts(r@);
                r.push(self.hostnames[i].clone());
                assert(text::texts(r@) =~= before.push(names[i as int]));
            }
        }
        assert(names.take(names.len() as int) =~= names);
        r
    }
}

/// The host names that were not found to be anything.
pub open spec fn unresolved_names(
    names: Seq<Seq<char>>,
    hosts: Map<Seq<char>, HostnameState>,
) -> Seq<Seq<char>>
    decreases names.len(),
{
    if names.len() == 0 {
        Seq::empty()
    } else {
        let before = unresolved_names(names.drop_last(), hosts);
        if hosts.contains_key(names.last()) && hosts[names.last()].resolved {
            before
        } else {
            before.push(names.last())
        }
    }
}

/// The networks of host names are well formed where those of each attempt are.
proof fn lemma_known_networks_well_formed(
    names: Seq<Seq<char>>,
    hosts: Map<Seq<char>, HostnameState>,
)
    requires
        forall|name: Seq<char>|
            #![trigger hosts[name]]
            hosts.contains_key(name) ==> hosts[name].well_formed(),
    ensures
        config::all_well_formed(known_networks(names, hosts)),
    decreases names.len(),
{
    if names.len() > 0 {
        lemma_known_networks_well_formed(names.drop_last(), hosts);
    }
}

/// A host name that does not resolve contributes nothing, and takes nothing away: the merged
/// networks are those of the other names.
pub proof fn law_unresolved_names_trust_nobody(
    names: Seq<Seq<char>>,
    hosts: Map<Seq<char>, HostnameState>,
    name: Seq<char>,
)
    requires
        hosts.contains_key(name),
        hosts[name].addresses@.len() == 0,
    ensures
        known_networks(names, hosts) == known_networks(names, hosts.remove(name)),
    decreases names.len(),
{
    if names.len() > 0 {
        law_unresolved_names_trust_nobody(names.drop_last(), hosts, name);
        if names.last() == name {
            assert(known_networks(names, hosts) =~= known_networks(names.drop_last(), hosts));
        }
    }
}

/// An address is trusted only by a literal network, or by what a configured name was found to be:
/// no failure to resolve can widen what is trusted.
pub proof fn law_trust_comes_from_the_configuration(
    networks: Seq<IpNetwork>,
    names: Seq<Seq<char>>,
    hosts: Map<Seq<char>, HostnameState>,
    ip: IpAddress,
)
    requires
        config::trusts(networks + known_networks(names, hosts), ip),
    ensures
        config::trusts(networks, ip) || exists|i: int|
            0 <= i < names.len() && hosts.contains_key(#[trigger] names[i]) && config::trusts(
                hosts[names[i]].addresses@,
                ip,
            ),
    decreases names.len(),
{
    let all = networks + known_networks(names, hosts);
    let k = choose|k: int| 0 <= k < all.len() && (#[trigger] all[k]).covers(ip);
    if k < networks.len() {
        assert(networks[k].covers(ip));
    } else if names.len() > 0 {
        let shorter = names.drop_last();
        let before = known_networks(shorter, hosts);
        let j = k - networks.len();
        if j < before.len() {
            assert((networks + before)[k].covers(ip));
            law_trust_comes_from_the_configuration(networks, shorter, hosts, ip);
            if !config::trusts(networks, ip) {
                let i = choose|i: int|
                    0 <= i < shorter.len() && hosts.contains_key(#[trigger] shorter[i])
                        && config::trusts(hosts[shorter[i]].addresses@, ip);
                assert(names[i] == shorter[i]);
            }
        } else {
            assert(hosts.contains_key(names.last()));
            assert(hosts[names.last()].addresses@[j - before.len()].covers(ip));
            assert(names[names.len() - 1] == names.last());
        }
    }
}

// ---------------------------------------------------------------------------
// Boot
// ---------------------------------------------------------------------------
/// What to do after the names were looked up at boot.
#[derive(Debug)]
pub enum BootStep {
    /// There is nothing to say.
    Quiet,
    /// Say that everything resolved.
    Resolved(String),
    /// Say what did not resolve, and look again after the grace period.
    RetryAfterGrace(String),
}

/// How names are listed.
pub open spec fn quoted_list(names: Seq<Seq<char>>) -> Seq<char> {
    "["@ + text::joined(names.map_values(|s: Seq<char>| quoted(s)), ", "@) + "]"@
}

/// Lists names.
fn quote_list(names: &Vec<String>) -> (s: String)
    ensures
        s@ == quoted_list(text::texts(names@)),
{
    let mut parts: Vec<String> = Vec::new();
    for i in 0..names.len()
        invariant
            parts@.len() == i,
            forall|j: int| 0 <= j < i ==> (#[trigger] parts@[j])@ == quoted(names@[j]@),
    {
        parts.push(quote(names[i].as_str()));
    }
    assert(text::texts(parts@) =~= text::texts(names@).map_values(|s: Seq<char>| quoted(s)));
    text::concat3("[", text::join(&parts, ", ").as_str(), "]")
}

/// What is said when every name resolved at boot.
pub open spec fn all_resolved_text(hostnames: nat) -> Seq<char> {
    "All "@ + text::decimal(hostnames) + " TRUSTED_PROXIES hostname entr"@ + entry_ending(
        hostnames,
    ) + " resolved at startup."@
}

/// What is said of names that did not resolve at boot.
pub open spec fn boot_failure_text(failed: Seq<Seq<char>>) -> Seq<char> {
    "TRUSTED_PROXIES hostname entr"@ + entry_ending(failed.len())
        + " did not resolve at startup: "@ + quoted_list(failed)
        + ". Those peers are NOT trusted and their forwarding headers will be ignored; every other entry is unaffected and the service is serving normally. Retrying in 60s."@
}

/// Decides what to do after the `hostnames` names were looked up at boot and `failed` did not
/// resolve. The service runs on either way: a boot race is no reason to stop.
pub fn boot_step(hostnames: usize, failed: &Vec<String>) -> (step: BootStep)
    ensures
        match step {
            BootStep::Quiet => failed@.len() == 0 && hostnames == 0,
            BootStep::Resolved(m) => failed@.len() == 0 && hostnames > 0 && m@
                == all_resolved_text(hostnames as nat),
            BootStep::RetryAfterGrace(m) => failed@.len() > 0 && m@ == boot_failure_text(
                text::texts(failed@),
            ),
        },
{
    if failed.len() == 0 {
        if hostnames == 0 {
            return BootStep::Quiet;
        }
        let head = text::concat3(
            "All ",
            text::decimal_string(hostnames as u64).as_str(),
            " TRUSTED_PROXIES hostname entr",
        );
        return BootStep::Resolved(
            text::concat3(head.as_str(), ending(hostnames), " resolved at startup."),
        );
    }
    let head = text::concat3(
        "TRUSTED_PROXIES hostname entr",
        ending(failed.len()),
        " did not resolve at startup: ",
    );
    BootStep::RetryAfterGrace(
        text::concat3(
            head.as_str(),
            quote_list(failed).as_str(),
            ". Those peers are NOT trusted and their forwarding headers will be ignored; every other entry is unaffected and the service is serving normally. Retrying in 60s.",
        ),
    )
}

/// What is said once the grace period is over: that everything resolved, or what still does not.
pub open spec fn grace_text(failed: Seq<Seq<char>>) -> Seq<char> {
    if failed.len() == 0 {
        "All TRUSTED_PROXIES hostname entries resolved after the 60s grace period; they are trusted from now on."@
    } else {
        "TRUSTED_PROXIES hostname entr"@ + entry_ending(failed.len())
            + " still unresolvable after the 60s grace period: "@ + quoted_list(failed)
            + ". Continuing to serve with "@ + text::decimal(failed.len()) + " entr"@
            + entry_ending(failed.len())
            + " disabled — check the name and the resolver. Resolution is retried automatically; no restart is required."@
    }
}

/// What is said once the grace period is over.
pub fn grace_report(failed: &Vec<String>) -> (m: String)
    ensures
        m@ == grace_text(text::texts(failed@)),
{
    if failed.len() == 0 {
        return "All TRUSTED_PROXIES hostname entries resolved after the 60s grace period; they are trusted from now on.".to_owned();
    }
    let head = text::concat3(
        "TRUSTED_PROXIES hostname entr",
        ending(failed.len()),
        " still unresolvable after the 60s grace period: ",
    );
    let head = text::concat3(
        head.as_str(),
        quote_list(failed).as_str(),
        ". Continuing to serve with ",
    );
    let head = text::concat3(
        head.as_str(),
        text::decimal_string(failed.len() as u64).as_str(),
        " entr",
    );
    text::concat3(
        head.as_str(),
        ending(failed.len()),
        " disabled — check the name and the resolver. Resolution is retried automatically; no restart is required.",
    )
}

/// A list without anything in it has no entries.
pub proof fn law_empty_lists_have_no_entries()
    ensures
        list_entries(Seq::empty()).len() == 0,
{
    law_text_without_a_comma_is_one_entry(Seq::empty());
}

/// A text without a comma is one entry, without the white space around it, unless there is nothing
/// else.
pub proof fn law_text_without_a_comma_is_one_entry(s: Seq<char>)
    requires
        !s.contains(','),
    ensures
        text::trimmed(s).len() > 0 ==> list_entries(s) == seq![text::trimmed(s)],
        text::trimmed(s).len() == 0 ==> list_entries(s).len() == 0,
        s.len() == 0 ==> list_entries(s).len() == 0,
{
    let comma = |c: char| c == ',';
    let kept = |t: Seq<char>| t.len() > 0;
    assert forall|i: int| 0 <= i < s.len() implies !comma(#[trigger] s[i]) by {
        assert(s.contains(s[i]));
    }
    text::law_text_without_a_separator_is_one_piece(s, comma);
    let parts = text::pieces(s, comma).map_values(|t: Seq<char>| text::trimmed(t));
    assert(parts =~= seq![text::trimmed(s)]);
    reveal(Seq::filter);
    assert(parts.drop_last() =~= Seq::<Seq<char>>::empty());
    assert(parts.drop_last().filter(kept) =~= Seq::<Seq<char>>::empty());
    if kept(parts.last()) {
        assert(parts.filter(kept) =~= seq![text::trimmed(s)]);
    } else {
        assert(parts.filter(kept) =~= Seq::<Seq<char>>::empty());
    }
    if s.len() == 0 {
        text::lemma_trimmed_is_same(s);
    }
}

/// The entries before a comma come first, and then those behind it.
pub proof fn law_commas_part_entries(a: Seq<char>, b: Seq<char>)
    ensures
        list_entries(a.push(',') + b) == list_entries(a) + list_entries(b),
{
    let comma = |c: char| c == ',';
    let trim = |t: Seq<char>| text::trimmed(t);
    let kept = |t: Seq<char>| t.len() > 0;
    text::law_a_separator_parts_the_pieces(a, ',', b, comma);
    let left = text::pieces(a, comma);
    let right = text::pieces(b, comma);
    assert((left + right).map_values(trim) =~= left.map_values(trim) + right.map_values(trim));
    Seq::filter_distributes_over_add(left.map_values(trim), right.map_values(trim), kept);
}

/// A host name is accepted exactly where it is at most 253 bytes of letters, digits, hyphens, dots and
/// underscores, begins and ends with a letter or a digit, and is not made of digits and dots alone.
pub proof fn law_which_host_names_are_accepted(entry: Seq<char>)
    ensures
        rejection(entry) is None <==> {
            &&& 0 < entry.len()
            &&& encode_utf8(entry).len() <= 253
            &&& forall|i: int|
                0 <= i < entry.len() ==> '0' <= #[trigger] entry[i] <= '9' || 'a' <= entry[i] <= 'z'
                    || 'A' <= entry[i] <= 'Z' || entry[i] == '-' || entry[i] == '.' || entry[i]
                    == '_'
            &&& entry.first() != '-' && entry.first() != '.' && entry.first() != '_'
            &&& entry.last() != '-' && entry.last() != '.' && entry.last() != '_'
            &&& exists|i: int|
                0 <= i < entry.len() && !('0' <= #[trigger] entry[i] <= '9') && entry[i] != '.'
        },
{
    let legal = forall|i: int|
        0 <= i < entry.len() ==> '0' <= #[trigger] entry[i] <= '9' || 'a' <= entry[i] <= 'z' || 'A'
            <= entry[i] <= 'Z' || entry[i] == '-' || entry[i] == '.' || entry[i] == '_';
    if legal {
        assert(forall|i: int| 0 <= i < entry.len() ==> is_name_char(#[trigger] entry[i]));
        if entry.contains('/') {
            let i = entry.index_of('/');
            assert(entry[i] == '/');
        }
        if entry.contains(':') {
            let i = entry.index_of(':');
            assert(entry[i] == ':');
        }
        if entry.len() > 0 {
            assert(is_name_char(entry[0]));
            assert(is_name_char(entry[entry.len() - 1]));
        }
    }
    if rejection(entry) is None {
        law_accepted_names_are_not_addresses(entry);
        assert forall|i: int| 0 <= i < entry.len() implies '0' <= #[trigger] entry[i] <= '9' || 'a'
            <= entry[i] <= 'z' || 'A' <= entry[i] <= 'Z' || entry[i] == '-' || entry[i] == '.'
            || entry[i] == '_' by {
            assert(is_name_char(entry[i]));
        }
        let i = choose|i: int|
            0 <= i < entry.len() && !is_digit(#[trigger] entry[i]) && entry[i] != '.';
        assert(!('0' <= entry[i] <= '9') && entry[i] != '.');
    }
    if exists|i: int|
        0 <= i < entry.len() && !('0' <= #[trigger] entry[i] <= '9') && entry[i] != '.' {
        let i = choose|i: int|
            0 <= i < entry.len() && !('0' <= #[trigger] entry[i] <= '9') && entry[i] != '.';
        assert(!is_digit(entry[i]) && entry[i] != '.');
    }
}

/// An entry is the network it names, or else the host name it is; one that is neither is refused with
/// the reason. So every entry is either used or refused, in order.
pub proof fn law_entries_are_used_or_refused(entries: Seq<Seq<char>>)
    ensures
        usable(entries) == entries.filter_map(
            |entry: Seq<char>|
                match net::network_named(entry) {
                    Some(network) => Some(MatcherView::Network(network)),
                    None => if rejection(entry) is None {
                        Some(MatcherView::Hostname(entry))
                    } else {
                        None
                    },
                },
        ),
        unusable(entries) == entries.filter_map(
            |entry: Seq<char>|
                if net::network_named(entry) is None && rejection(entry) is Some {
                    Some((entry, rejection(entry)->0))
                } else {
                    None
                },
        ),
        usable(entries).len() + unusable(entries).len() == entries.len(),
    decreases entries.len(),
{
    if entries.len() > 0 {
        law_entries_are_used_or_refused(entries.drop_last());
        let used = usable(entries.drop_last());
        let refused = unusable(entries.drop_last());
        assert(used + Seq::<MatcherView>::empty() =~= used);
        assert(refused + Seq::<(Seq<char>, Seq<char>)>::empty() =~= refused);
    }
}

/// The literal networks and the host names of a configuration are its matchers of the one and of the
/// other kind, in order.
pub proof fn law_matchers_are_networks_or_names(matchers: Seq<MatcherView>)
    ensures
        literal_networks(matchers) == matchers.filter_map(
            |m: MatcherView|
                match m {
                    MatcherView::Network(network) => Some(network),
                    MatcherView::Hostname(_) => None,
                },
        ),
        host_names(matchers) == matchers.filter_map(
            |m: MatcherView|
                match m {
                    MatcherView::Hostname(name) => Some(name),
                    MatcherView::Network(_) => None,
                },
        ),
    decreases matchers.len(),
{
    if matchers.len() > 0 {
        law_matchers_are_networks_or_names(matchers.drop_last());
        let networks = literal_networks(matchers.drop_last());
        let names = host_names(matchers.drop_last());
        assert(networks + Seq::<IpNetwork>::empty() =~= networks);
        assert(names + Seq::<Seq<char>>::empty() =~= names);
    }
}

/// A host name trusts what it was last found to be, and nothing before it was looked up.
pub proof fn law_names_trust_what_they_resolved_to(
    names: Seq<Seq<char>>,
    name: Seq<char>,
    hosts: Map<Seq<char>, HostnameState>,
)
    ensures
        known_networks(Seq::empty(), hosts).len() == 0,
        hosts.contains_key(name) ==> known_networks(names.push(name), hosts) == known_networks(
            names,
            hosts,
        ) + hosts[name].addresses@,
        !hosts.contains_key(name) ==> known_networks(names.push(name), hosts) == known_networks(
            names,
            hosts,
        ),
{
    assert(names.push(name).drop_last() =~= names);
}

/// What a lookup gives is trusted address by address, an IPv4 address in its IPv6 form as the IPv4
/// address.
pub proof fn law_lookups_trust_single_addresses(addresses: Seq<IpAddress>, i: int)
    requires
        0 <= i < addresses.len(),
    ensures
        host_routes(addresses).len() == addresses.len(),
        host_routes(addresses)[i].ip == config::unmapped(addresses[i]),
        host_routes(addresses)[i].ip is V4 ==> host_routes(addresses)[i].prefix == 32,
        host_routes(addresses)[i].ip is V6 ==> host_routes(addresses)[i].prefix == 128,
{
}

/// A name is unresolved where it was not looked up or not found, and only then; unresolved names keep
/// their order.
pub proof fn law_which_names_are_unresolved(
    names: Seq<Seq<char>>,
    hosts: Map<Seq<char>, HostnameState>,
)
    ensures
        unresolved_names(names, hosts) == names.filter_map(
            |name: Seq<char>|
                if hosts.contains_key(name) && hosts[name].resolved {
                    None
                } else {
                    Some(name)
                },
        ),
    decreases names.len(),
{
    if names.len() > 0 {
        law_which_names_are_unresolved(names.drop_last(), hosts);
        let before = unresolved_names(names.drop_last(), hosts);
        assert(before + Seq::<Seq<char>>::empty() =~= before);
    }
}

/// An attempt is reused until its time is up: half a minute where it found an address, five seconds
/// where it did not.
pub proof fn law_how_long_attempts_are_reused(attempt: HostnameState, now: u64)
    ensures
        attempt.resolved ==> (attempt.fresh(now, POSITIVE_TTL_MS, NEGATIVE_TTL_MS) <==> now
            < attempt.attempted_at + 30_000),
        !attempt.resolved ==> (attempt.fresh(now, POSITIVE_TTL_MS, NEGATIVE_TTL_MS) <==> now
            < attempt.attempted_at + 5_000),
        BOOT_GRACE_SECS == 60,
{
}

/// Matchers and refused entries are seen as they are.
pub proof fn law_matchers_are_seen_as_they_are(
    matchers: Seq<ProxyMatcher>,
    entries: Seq<InvalidProxyEntry>,
    network: IpNetwork,
    name: String,
    i: int,
)
    ensures
        matcher_views(matchers).len() == matchers.len(),
        0 <= i < matchers.len() && matchers[i] == ProxyMatcher::Network(network) ==> matcher_views(
            matchers,
        )[i] == MatcherView::Network(network),
        0 <= i < matchers.len() && matchers[i] == ProxyMatcher::Hostname(name) ==> matcher_views(
            matchers,
        )[i] == MatcherView::Hostname(name@),
        refusal_views(entries).len() == entries.len(),
        0 <= i < entries.len() ==> refusal_views(entries)[i] == (
            entries[i].entry@,
            entries[i].reason@,
        ),
{
}

/// A refusal names every refused entry with its reason.
pub proof fn law_refusals_name_every_entry(refusal: InvalidTrustedProxies, entry: InvalidProxyEntry)
    ensures
        described(entry) == quoted(entry.entry@) + " ("@ + entry.reason@ + ")"@,
        refusal.entries@.len() == 1 ==> refusal.text() == text::decimal(1)
            + " invalid TRUSTED_PROXIES entr"@ + "y"@ + ": "@ + described(refusal.entries@[0]),
        refusal.entries@.len() > 1 ==> refusal.text() == text::decimal(refusal.entries@.len())
            + " invalid TRUSTED_PROXIES entr"@ + "ies"@ + ": "@ + text::joined(
            Seq::new(refusal.entries@.len(), |i: int| described(refusal.entries@[i])),
            "; "@,
        ),
{
}

/// What is said at boot counts the names, or lists those that did not resolve; and what is said after
/// the grace period lists those that still do not.
pub proof fn law_what_is_said_of_host_names(hostnames: nat, failed: Seq<Seq<char>>)
    ensures
        hostnames == 1 ==> all_resolved_text(hostnames) == "All "@ + text::decimal(1)
            + " TRUSTED_PROXIES hostname entr"@ + "y"@ + " resolved at startup."@,
        hostnames > 1 ==> all_resolved_text(hostnames) == "All "@ + text::decimal(hostnames)
            + " TRUSTED_PROXIES hostname entr"@ + "ies"@ + " resolved at startup."@,
        quoted_list(failed) == "["@ + text::joined(
            Seq::new(failed.len(), |i: int| quoted(failed[i])),
            ", "@,
        ) + "]"@,
        boot_failure_text(failed) == "TRUSTED_PROXIES hostname entr"@ + if failed.len() == 1 {
            "y"@
        } else {
            "ies"@
        } + " did not resolve at startup: "@ + quoted_list(failed)
            + ". Those peers are NOT trusted and their forwarding headers will be ignored; every other entry is unaffected and the service is serving normally. Retrying in 60s."@,
        failed.len() == 0 ==> grace_text(failed)
            == "All TRUSTED_PROXIES hostname entries resolved after the 60s grace period; they are trusted from now on."@,
        failed.len() > 0 ==> grace_text(failed) == "TRUSTED_PROXIES hostname entr"@ + if failed.len()
            == 1 {
            "y"@
        } else {
            "ies"@
        } + " still unresolvable after the 60s grace period: "@ + quoted_list(failed)
            + ". Continuing to serve with "@ + text::decimal(failed.len()) + " entr"@ + if failed.len()
            == 1 {
            "y"@
        } else {
            "ies"@
        }
            + " disabled — check the name and the resolver. Resolution is retried automatically; no restart is required."@,
{
    assert(failed.map_values(|s: Seq<char>| quoted(s)) =~= Seq::new(
        failed.len(),
        |i: int| quoted(failed[i]),
    ));
}

impl TrustedProxies {
    /// What is trusted is every literal network, and what each host name was last found to be; a name
    /// is known as long as its attempt can be reused.
    pub proof fn law_what_is_trusted(self, ip: IpAddress, name: Seq<char>, now: u64)
        ensures
            config::trusts(literal_networks(self.configured()), ip) ==> config::trusts(
                self.merged(),
                ip,
            ),
            self.merged().len() == literal_networks(self.configured()).len() + known_networks(
                self.names(),
                self.attempts(),
            ).len(),
            self.knows(name, now) <==> self.attempts().contains_key(name)
                && self.attempts()[name].attempted_at + (if self.attempts()[name].resolved {
                self.ttls().0
            } else {
                self.ttls().1
            }) > now,
    {
        let literal = literal_networks(self.configured());
        if config::trusts(literal, ip) {
            let i = choose|i: int| 0 <= i < literal.len() && (#[trigger] literal[i]).covers(ip);
            assert(self.merged()[i].covers(ip));
        }
    }
}

/// The first thing that is wrong with a host name is what is said against it.
pub proof fn law_host_name_refusals_say_why(entry: Seq<char>)
    ensures
        entry.len() == 0 ==> rejection(entry) == Some("empty"@),
        entry.len() > 0 && encode_utf8(entry).len() > 253 ==> rejection(entry) == Some(
            "longer than the 253-character limit on a DNS name"@,
        ),
        entry.len() > 0 && encode_utf8(entry).len() <= 253 ==> {
            &&& entry.contains('/') || entry.contains(':') ==> rejection(entry) == Some(
                "contains '/' or ':', which appear only in CIDR and IPv6 syntax, so this is a malformed address rather than a hostname"@,
            )
            &&& !entry.contains('/') && !entry.contains(':') && (entry.first() == '-'
                || entry.first() == '.' || entry.first() == '_' || entry.last() == '-'
                || entry.last() == '.' || entry.last() == '_') ==> rejection(entry) == Some(
                "a hostname must begin and end with a letter or a digit"@,
            )
            &&& is_digit(entry.first()) && is_digit(entry.last()) && (forall|i: int|
                0 <= i < entry.len() ==> '0' <= #[trigger] entry[i] <= '9' || entry[i] == '.')
                ==> rejection(entry) == Some(
                "made only of digits and dots, so this is a malformed IPv4 literal"@,
            )
            &&& entry.contains(' ') && !entry.contains('/') && !entry.contains(':')
                && is_alphanumeric(entry.first()) && is_alphanumeric(entry.last()) ==> rejection(
                entry,
            ) == Some("contains characters that cannot appear in a DNS name"@)
        },
{
    if is_digit(entry.first()) && is_digit(entry.last()) && (forall|i: int|
        0 <= i < entry.len() ==> '0' <= #[trigger] entry[i] <= '9' || entry[i] == '.') {
        if entry.contains('/') {
            assert(entry[entry.index_of('/')] == '/');
        }
        if entry.contains(':') {
            assert(entry[entry.index_of(':')] == ':');
        }
        assert(forall|i: int|
            0 <= i < entry.len() ==> is_digit(#[trigger] entry[i]) || entry[i] == '.');
    }
    if entry.contains(' ') {
        let k = entry.index_of(' ');
        assert(entry[k] == ' ');
        assert(!is_name_char(entry[k]));
        assert(!is_digit(entry[k]) && entry[k] != '.');
    }
}

} // verus!
