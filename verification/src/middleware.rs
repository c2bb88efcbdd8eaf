//! Inbound request authentication.
//!
//! It answers who is calling and whether they may call at all, never whether they may touch a
//! given resource. The order of the checks matters: the signature is verified before the client's
//! address is held against the key's networks, so that the answers tell nobody whether a key
//! exists; a signature is recorded as used only once it has been verified; and a false claim to be
//! the Master is dropped at the one point where the key enters the request.

use vstd::prelude::*;

use crate::api::support;
use crate::api::support::hash_key;
use crate::config;
use crate::crypto;
use crate::crypto::{verify_signature, SecretCipher, SIGNATURE_PREFIX};
use crate::entities::api_key;
use crate::error::{AppError, AppFault};
use crate::master;
use crate::master::MasterPin;
use crate::net;
use crate::net::{IpAddress, IpNetwork};
use crate::proxies;
use crate::replay;
use crate::replay::{GuardState, ReplayGuard, Use};
use crate::text;

verus! {

/// The resolved client address of a request.
#[derive(Clone, Copy, Debug, PartialEq, Eq, Structural)]
pub struct ClientIp(pub IpAddress);

/// A refusal.
fn unauthorized(msg: &str) -> (e: AppError)
    ensures
        e@ == AppFault::Unauthorized(msg@),
{
    AppError::Unauthorized(msg.to_owned())
}

/// What the client signed of a URI: path and query, or the path alone.
pub fn signed_target(path_and_query: Option<&str>, path: &str) -> (r: String)
    ensures
        r@ == match path_and_query {
            Some(pq) => pq@,
            None => path@,
        },
{
    match path_and_query {
        Some(pq) => pq.to_owned(),
        None => path.to_owned(),
    }
}

/// The distance of two points in time.
pub open spec fn skew(now: int, supplied: int) -> int {
    if now >= supplied {
        now - supplied
    } else {
        supplied - now
    }
}

/// What stands against a timestamp header, or the timestamp itself.
pub open spec fn timestamp_outcome(header: Option<Seq<char>>, now: i64) -> Result<
    Seq<char>,
    AppFault,
> {
    match header {
        None => Err(AppFault::Unauthorized("Missing X-Timestamp header"@)),
        Some(value) => match text::signed_value(text::trimmed(value)) {
            None => Err(AppFault::Unauthorized("Malformed X-Timestamp header"@)),
            Some(supplied) => if skew(now as int, supplied) > crypto::MAX_TIMESTAMP_SKEW_SECS {
                Err(
                    AppFault::Unauthorized(
                        "Request timestamp outside the permitted 300s window"@,
                    ),
                )
            } else {
                Ok(text::trimmed(value))
            },
        },
    }
}

/// Validates the timestamp header at `now`, in seconds since the epoch.
pub fn validate_timestamp(header: Option<&str>, now: i64) -> (r: Result<String, AppError>)
    ensures
        match timestamp_outcome(text::optional(header), now) {
            Ok(timestamp) => r is Ok && r->Ok_0@ == timestamp,
            Err(fault) => r is Err && r->Err_0@ == fault,
        },
{
    let raw = match header {
        Some(value) => text::trim(value),
        None => return Err(unauthorized("Missing X-Timestamp header")),
    };
    let supplied = match text::parse_signed(raw) {
        Some(supplied) => supplied,
        None => return Err(unauthorized("Malformed X-Timestamp header")),
    };
    let difference: i128 = now as i128 - supplied as i128;
    let distance: i128 = if difference >= 0 {
        difference
    } else {
        -difference
    };
    if distance > crypto::MAX_TIMESTAMP_SKEW_SECS as i128 {
        return Err(unauthorized("Request timestamp outside the permitted 300s window"));
    }
    Ok(raw.to_owned())
}

/// The freshness window is symmetric, and its edges are inside.
pub proof fn law_freshness_window_is_symmetric(now: int, offset: int)
    ensures
        skew(now, now + offset) == skew(now, now - offset),
        -300 <= offset <= 300 <==> skew(now, now + offset) <= crypto::MAX_TIMESTAMP_SKEW_SECS,
{
}

/// What a request presents to be authenticated.
#[derive(Debug)]
pub struct Credentials {
    /// The timestamp as it was signed.
    pub timestamp: String,
    /// Hash of the presented key, by which it is looked up.
    pub key_hash: String,
    /// The presented signature header.
    pub signature: String,
}

/// What a request's headers present, or what stands against them. Nothing is looked up for a
/// request that fails here.
pub open spec fn presented(
    timestamp: Option<Seq<char>>,
    api_key: Option<Seq<char>>,
    signature: Option<Seq<char>>,
    now: i64,
) -> Result<(Seq<char>, Seq<char>, Seq<char>), AppFault> {
    match timestamp_outcome(timestamp, now) {
        Err(fault) => Err(fault),
        Ok(timestamp) => match api_key {
            None => Err(AppFault::Unauthorized("Missing X-API-Key header"@)),
            Some(key) => match signature {
                None => Err(AppFault::Unauthorized("Missing X-Signature-256 header"@)),
                Some(signature) => if text::has_prefix(
                    text::trimmed(signature),
                    SIGNATURE_PREFIX@,
                ) {
                    Ok((timestamp, support::hashed(key), signature))
                } else {
                    Err(
                        AppFault::Unauthorized(
                            "X-Signature-256 must be formatted as sha256=<hex>"@,
                        ),
                    )
                },
            },
        },
    }
}

/// Reads what a request presents from its headers, the timestamp first.
pub fn read_credentials(
    timestamp: Option<&str>,
    api_key: Option<&str>,
    signature: Option<&str>,
    now: i64,
) -> (r: Result<Credentials, AppError>)
    ensures
        match presented(
            text::optional(timestamp),
            text::optional(api_key),
            text::optional(signature),
            now,
        ) {
            Ok((timestamp, key_hash, signature)) => {
                &&& r is Ok
                &&& r->Ok_0.timestamp@ == timestamp
                &&& r->Ok_0.key_hash@ == key_hash
                &&& r->Ok_0.signature@ == signature
            },
            Err(fault) => r is Err && r->Err_0@ == fault,
        },
{
    let timestamp = match validate_timestamp(timestamp, now) {
        Ok(timestamp) => timestamp,
        Err(e) => return Err(e),
    };
    let key = match api_key {
        Some(key) => key,
        None => return Err(unauthorized("Missing X-API-Key header")),
    };
    let signature = match signature {
        Some(signature) => signature,
        None => return Err(unauthorized("Missing X-Signature-256 header")),
    };
    if text::strip_prefix(text::trim(signature), SIGNATURE_PREFIX).is_none() {
        return Err(unauthorized("X-Signature-256 must be formatted as sha256=<hex>"));
    }
    Ok(Credentials { timestamp, key_hash: hash_key(key), signature: signature.to_owned() })
}

/// The signing secret of the key that was looked up.
pub fn signing_secret(key: Option<&api_key::Model>, cipher: &SecretCipher) -> (r: Result<
    String,
    AppError,
>)
    ensures
        match key {
            None => r is Err && r->Err_0@ == AppFault::Unauthorized("Invalid API Key"@),
            Some(key) => match key.signing_secret {
                None => r is Err && r->Err_0@ == AppFault::Unauthorized(
                    "This API key has no signing secret; rotate it to obtain one"@,
                ),
                Some(stored) => match cipher.opened(stored@) {
                    Ok(secret) => r is Ok && r->Ok_0@ == secret,
                    Err(_) => r is Err && r->Err_0@ == AppFault::Internal,
                },
            },
        },
{
    let key = match key {
        Some(key) => key,
        None => return Err(unauthorized("Invalid API Key")),
    };
    match &key.signing_secret {
        Some(stored) => match cipher.open(stored.as_str()) {
            Ok(secret) => Ok(secret),
            Err(e) => Err(AppError::from_crypto(e)),
        },
        None => Err(unauthorized("This API key has no signing secret; rotate it to obtain one")),
    }
}

/// The networks that a key is bound to, unless an entry names none.
pub open spec fn bound_networks(entries: Seq<Seq<char>>) -> Option<Seq<IpNetwork>>
    decreases entries.len(),
{
    if entries.len() == 0 {
        Some(Seq::empty())
    } else {
        match (bound_networks(entries.drop_last()), net::network_named(entries.last())) {
            (Some(before), Some(network)) => Some(before.push(network)),
            _ => None,
        }
    }
}

/// What stands against a client's address, if anything: a key without networks may be used from
/// anywhere.
pub open spec fn address_refusal(bound_ips: Option<Seq<char>>, client_ip: IpAddress) -> Option<
    AppFault,
> {
    let raw = match bound_ips {
        Some(raw) => raw,
        None => Seq::empty(),
    };
    match bound_networks(proxies::list_entries(raw)) {
        None => Some(AppFault::Internal),
        Some(networks) => if networks.len() == 0 || config::trusts(networks, client_ip) {
            None
        } else {
            Some(AppFault::Forbidden("Client IP not allowed"@))
        },
    }
}

/// An entry that names no network spoils the whole list.
proof fn lemma_bound_networks_stay_spoiled(entries: Seq<Seq<char>>, n: int)
    requires
        0 <= n <= entries.len(),
        bound_networks(entries.take(n)) is None,
    ensures
        bound_networks(entries) is None,
    decreases entries.len() - n,
{
    if n < entries.len() {
        assert(entries.take(n + 1).drop_last() =~= entries.take(n));
        lemma_bound_networks_stay_spoiled(entries, n + 1);
    } else {
        assert(entries.take(n) =~= entries);
    }
}

/// Holds a client's address against the networks that a key is bound to.
pub fn check_bound_ips(bound_ips: Option<&str>, client_ip: IpAddress) -> (r: Result<(), AppError>)
    ensures
        match address_refusal(text::optional(bound_ips), client_ip) {
            None => r is Ok,
            Some(fault) => r is Err && r->Err_0@ == fault,
        },
{
    let raw = match bound_ips {
        Some(raw) => raw,
        None => "",
    };
    proof {
        reveal_strlit("");
        assert(""@ =~= Seq::<char>::empty());
    }
    let entries = proxies::split_list(raw);
    let ghost all = text::texts(entries@);
    let mut networks: Vec<IpNetwork> = Vec::new();
    assert(networks@ =~= Seq::empty());
    for i in 0..entries.len()
        invariant
            all == text::texts(entries@),
            all == proxies::list_entries(raw@),
            raw@ == match bound_ips {
                Some(raw) => raw@,
                None => Seq::empty(),
            },
            bound_networks(all.take(i as int)) == Some(networks@),
            config::all_well_formed(networks@),
    {
        assert(all.take(i + 1).drop_last() =~= all.take(i as int));
        match net::parse_network(entries[i].as_str()) {
            Some(network) => {
                networks.push(network);
            },
            None => {
                proof {
                    lemma_bound_networks_stay_spoiled(all, i + 1);
                }
                return Err(AppError::Internal);
            },
        }
    }
    assert(all.take(all.len() as int) =~= all);
    if networks.len() > 0 && !config::is_trusted(client_ip, networks.as_slice()) {
        return Err(AppError::Forbidden("Client IP not allowed".to_owned()));
    }
    Ok(())
}

/// A request with the key that it claims.
pub struct SignedRequest<'a> {
    /// The method.
    pub method: &'a str,
    /// What was signed of the URI.
    pub target: &'a str,
    /// The timestamp as it was signed.
    pub timestamp: &'a str,
    /// The raw body.
    pub body: &'a [u8],
    /// The presented signature header.
    pub signature: &'a str,
}

/// The tag that a request must present under a secret.
pub open spec fn expected_tag(secret: Seq<char>, request: SignedRequest) -> Seq<u8> {
    crypto::request_tag(secret, request.method@, request.target@, request.timestamp@, request.body@)
}

/// What comes of a request: the key that it is made with, or what stands against it. The signature
/// decides first, then whether it was used before, and only then the client's address.
pub open spec fn request_outcome(
    key: api_key::Model,
    secret: Seq<char>,
    request: SignedRequest,
    client_ip: IpAddress,
    seen: GuardState,
    pinned: Option<u128>,
    now_ms: nat,
) -> Result<api_key::Model, AppFault> {
    let tag = expected_tag(secret, request);
    if crypto::presented_tag(request.signature@) != Some(tag) {
        Err(AppFault::Unauthorized("Invalid request signature"@))
    } else if seen.refuses((key.id, tag), now_ms) {
        Err(
            AppFault::Unauthorized(
                "This request signature has already been used; sign a fresh request"@,
            ),
        )
    } else {
        match address_refusal(
            match key.bound_ips {
                Some(raw) => Some(raw@),
                None => None,
            },
            client_ip,
        ) {
            Some(fault) => Err(fault),
            None => Ok(master::admitted(pinned, key)),
        }
    }
}

/// Authenticates a request whose key was looked up and whose body was read. A key that falsely
/// claims to be the Master is let through without the claim.
pub fn authenticate_request(
    key: api_key::Model,
    secret: &str,
    request: &SignedRequest,
    client_ip: IpAddress,
    replay_guard: &mut ReplayGuard,
    pin: &MasterPin,
    now_ms: u64,
) -> (r: Result<api_key::Model, AppError>)
    requires
        old(replay_guard).well_formed(),
    ensures
        final(replay_guard).well_formed(),
        match request_outcome(
            key,
            secret@,
            *request,
            client_ip,
            old(replay_guard)@,
            pin@,
            now_ms as nat,
        ) {
            Ok(authenticated) => r == Ok::<api_key::Model, AppError>(authenticated),
            Err(fault) => r is Err && r->Err_0@ == fault,
        },
        if crypto::presented_tag(request.signature@) == Some(expected_tag(secret@, *request)) {
            final(replay_guard)@ == old(replay_guard)@.after(
                (key.id, expected_tag(secret@, *request)),
                now_ms as nat,
            )
        } else {
            *final(replay_guard) == *old(replay_guard)
        },
{
    let tag = match verify_signature(
        secret,
        request.method,
        request.target,
        request.timestamp,
        request.body,
        request.signature,
    ) {
        Some(tag) => tag,
        None => return Err(unauthorized("Invalid request signature")),
    };
    let first_use = replay_guard.check_and_record(key.id, tag.as_slice(), now_ms);
    if !first_use {
        return Err(
            unauthorized("This request signature has already been used; sign a fresh request"),
        );
    }
    let bound_ips: Option<&str> = match &key.bound_ips {
        Some(raw) => Some(raw.as_str()),
        None => None,
    };
    match check_bound_ips(bound_ips, client_ip) {
        Ok(_) => Ok(pin.authenticate(key)),
        Err(e) => Err(e),
    }
}

/// A request without a valid signature gets the same answer from every address, so the answer says
/// nothing about the networks a key is bound to.
pub proof fn law_no_signature_no_oracle(
    key: api_key::Model,
    secret: Seq<char>,
    request: SignedRequest,
    here: IpAddress,
    there: IpAddress,
    seen: GuardState,
    pinned: Option<u128>,
    now_ms: nat,
)
    requires
        crypto::presented_tag(request.signature@) != Some(expected_tag(secret, request)),
    ensures
        request_outcome(key, secret, request, here, seen, pinned, now_ms) == request_outcome(
            key,
            secret,
            request,
            there,
            seen,
            pinned,
            now_ms,
        ),
{
}

/// A request that carries its own signature is authenticated, unless the signature was used before or
/// the key is bound to other networks.
pub proof fn law_signed_requests_are_authenticated(
    key: api_key::Model,
    secret: Seq<char>,
    request: SignedRequest,
    client_ip: IpAddress,
    seen: GuardState,
    pinned: Option<u128>,
    now_ms: nat,
)
    requires
        request.signature@ == crypto::signature_header(expected_tag(secret, request)),
        !seen.refuses((key.id, expected_tag(secret, request)), now_ms),
        address_refusal(
            match key.bound_ips {
                Some(raw) => Some(raw@),
                None => None,
            },
            client_ip,
        ) is None,
    ensures
        request_outcome(key, secret, request, client_ip, seen, pinned, now_ms) == Ok::<
            api_key::Model,
            AppFault,
        >(master::admitted(pinned, key)),
{
    crypto::law_signature_round_trip(expected_tag(secret, request));
}

/// No request is authenticated twice with one signature while it is remembered.
pub proof fn law_replays_are_never_authenticated(
    key: api_key::Model,
    secret: Seq<char>,
    request: SignedRequest,
    client_ip: IpAddress,
    seen: GuardState,
    pinned: Option<u128>,
    now_ms: nat,
)
    requires
        seen.refuses((key.id, expected_tag(secret, request)), now_ms),
    ensures
        request_outcome(key, secret, request, client_ip, seen, pinned, now_ms) is Err,
{
}

/// A request is accepted once, whatever is used in between: while its signature is remembered it is
/// refused, and if it is dated before the second in which it is first used, its timestamp is stale by
/// the time the signature is forgotten. Both clocks are in milliseconds.
pub proof fn law_requests_are_single_use(
    start: GuardState,
    uses: Seq<Use>,
    i: int,
    j: int,
    supplied: int,
)
    requires
        start.window == 1000 * crypto::MAX_TIMESTAMP_SKEW_SECS,
        replay::in_order(uses),
        0 <= i < j < uses.len(),
        uses[i].id == uses[j].id,
        replay::accepted(start, uses, i),
        uses[j].now < uses[i].now + start.window || supplied < uses[i].now / 1000,
    ensures
        !replay::accepted(start, uses, j) || skew((uses[j].now / 1000) as int, supplied)
            > crypto::MAX_TIMESTAMP_SKEW_SECS,
{
    if uses[j].now < uses[i].now + start.window {
        replay::law_second_use_is_refused(start, uses, i, j);
    }
}

/// Whoever is authenticated as Master is the pinned key, and being authenticated changes nothing
/// else of a key.
pub proof fn law_forged_masters_are_demoted(
    key: api_key::Model,
    secret: Seq<char>,
    request: SignedRequest,
    client_ip: IpAddress,
    seen: GuardState,
    pinned: Option<u128>,
    now_ms: nat,
)
    ensures
        request_outcome(key, secret, request, client_ip, seen, pinned, now_ms) matches Ok(
            authenticated,
        ) ==> {
            &&& authenticated.is_master ==> pinned == Some(authenticated.id)
            &&& authenticated == (api_key::Model { is_master: authenticated.is_master, ..key })
        },
{
}

/// A timestamp is accepted exactly where it spells a time at most five minutes from now, before or
/// after, and is taken without the white space around it; everything else is unauthorized.
pub proof fn law_which_timestamps_are_accepted(header: Option<Seq<char>>, now: i64, supplied: int)
    ensures
        header is None ==> timestamp_outcome(header, now) is Err,
        header matches Some(value) ==> text::signed_value(text::trimmed(value)) is None
            ==> timestamp_outcome(header, now) is Err,
        header matches Some(value) ==> text::signed_value(text::trimmed(value)) == Some(supplied)
            ==> (timestamp_outcome(header, now) is Ok <==> now - 300 <= supplied <= now + 300),
        timestamp_outcome(header, now) matches Ok(timestamp) ==> header is Some && timestamp
            == text::trimmed(header->0),
        timestamp_outcome(header, now) matches Err(fault) ==> fault.response().0 == 401,
{
}

/// A request has to present a timestamp, a key and a signature. What is looked up is the digest of the
/// key, and what is checked is the signature as it came; whatever is missing is unauthorized.
pub proof fn law_what_requests_have_to_present(
    timestamp: Option<Seq<char>>,
    api_key: Option<Seq<char>>,
    signature: Option<Seq<char>>,
    now: i64,
)
    ensures
        ({
            let found = presented(timestamp, api_key, signature, now);
            &&& found is Ok <==> timestamp_outcome(timestamp, now) is Ok && api_key is Some
                && signature is Some && text::has_prefix(
                text::trimmed(signature->0),
                "sha256="@,
            )
            &&& found matches Ok((t, hash, s)) ==> t == text::trimmed(timestamp->0) && hash
                == support::hashed(api_key->0) && s == signature->0
            &&& found matches Err(fault) ==> fault.response().0 == 401
            &&& timestamp_outcome(timestamp, now) matches Err(fault) ==> found == Err::<
                (Seq<char>, Seq<char>, Seq<char>),
                AppFault,
            >(fault)
        }),
{
}

/// The networks of a key are those its entries name, one for one, and there are none where an entry
/// names no network.
pub proof fn law_bound_networks_are_those_named(entries: Seq<Seq<char>>)
    ensures
        bound_networks(entries) is Some <==> (forall|i: int|
            0 <= i < entries.len() ==> net::network_named(#[trigger] entries[i]) is Some),
        bound_networks(entries) matches Some(networks) ==> networks.len() == entries.len() && (
        forall|i: int|
            0 <= i < entries.len() ==> net::network_named(#[trigger] entries[i]) == Some(
                networks[i],
            )),
    decreases entries.len(),
{
    if entries.len() > 0 {
        let shorter = entries.drop_last();
        law_bound_networks_are_those_named(shorter);
        assert(forall|i: int| 0 <= i < shorter.len() ==> shorter[i] == entries[i]);
        if forall|i: int|
            0 <= i < entries.len() ==> net::network_named(#[trigger] entries[i]) is Some {
            assert forall|i: int| 0 <= i < shorter.len() implies net::network_named(
                #[trigger] shorter[i],
            ) is Some by {
                assert(net::network_named(entries[i]) is Some);
            }
            assert(net::network_named(entries[entries.len() - 1]) is Some);
        }
        if bound_networks(entries) is Some {
            assert forall|i: int| 0 <= i < entries.len() implies net::network_named(
                #[trigger] entries[i],
            ) == Some(bound_networks(entries)->0[i]) by {
                if i < shorter.len() {
                    assert(net::network_named(shorter[i]) is Some);
                }
            }
        }
    }
}

/// A key without networks may be used from anywhere; one with networks from exactly the addresses that
/// one of them holds, and from elsewhere it is forbidden; one whose networks cannot be read from
/// nowhere.
pub proof fn law_where_a_key_may_be_used(raw: Seq<char>, client_ip: IpAddress)
    ensures
        address_refusal(None, client_ip) is None,
        proxies::list_entries(raw).len() == 0 ==> address_refusal(Some(raw), client_ip) is None,
        (exists|i: int|
            0 <= i < proxies::list_entries(raw).len() && net::network_named(
                #[trigger] proxies::list_entries(raw)[i],
            ) is None) ==> address_refusal(Some(raw), client_ip) == Some(AppFault::Internal),
        (forall|i: int|
            0 <= i < proxies::list_entries(raw).len() ==> net::network_named(
                #[trigger] proxies::list_entries(raw)[i],
            ) is Some) && proxies::list_entries(raw).len() > 0 ==> {
            &&& address_refusal(Some(raw), client_ip) is None <==> (exists|i: int|
                0 <= i < proxies::list_entries(raw).len() && net::network_named(
                    #[trigger] proxies::list_entries(raw)[i],
                )->0.covers(client_ip))
            &&& address_refusal(Some(raw), client_ip) matches Some(fault) ==> fault is Forbidden
        },
{
    proxies::law_empty_lists_have_no_entries();
    law_bound_networks_are_those_named(proxies::list_entries(Seq::empty()));
    let entries = proxies::list_entries(raw);
    law_bound_networks_are_those_named(entries);
    if let Some(networks) = bound_networks(entries) {
        if config::trusts(networks, client_ip) {
            let i = choose|i: int|
                0 <= i < networks.len() && (#[trigger] networks[i]).covers(client_ip);
            assert(net::network_named(entries[i]) == Some(networks[i]));
        }
        if exists|i: int|
            0 <= i < entries.len() && net::network_named(#[trigger] entries[i])->0.covers(
                client_ip,
            ) {
            let i = choose|i: int|
                0 <= i < entries.len() && net::network_named(#[trigger] entries[i])->0.covers(
                    client_ip,
                );
            assert(networks[i].covers(client_ip));
        }
    }
}

/// A request is authenticated exactly where it presents the tag of its own contents under the key's
/// secret, for the first time, from where the key may be used. What fails of the first two is
/// unauthorized, and the address is only held against the key once both have passed.
pub proof fn law_which_requests_are_authenticated(
    key: api_key::Model,
    secret: Seq<char>,
    request: SignedRequest,
    client_ip: IpAddress,
    seen: GuardState,
    pinned: Option<u128>,
    now_ms: nat,
    raw: String,
)
    ensures
        ({
            let tag = crypto::hmac_sha256(
                vstd::utf8::encode_utf8(secret),
                crypto::canonical_v1(
                    request.method@,
                    request.target@,
                    request.timestamp@,
                    request.body@,
                ),
            );
            let outcome = request_outcome(
                key,
                secret,
                request,
                client_ip,
                seen,
                pinned,
                now_ms,
            );
            let signed = crypto::presented_tag(request.signature@) == Some(tag);
            let replayed = seen.refuses((key.id, tag), now_ms);
            &&& !signed || replayed ==> outcome is Err && outcome->Err_0.response().0 == 401
            &&& signed && !replayed && key.bound_ips is None ==> (outcome is Ok <==> address_refusal(
                None,
                client_ip,
            ) is None)
            &&& signed && !replayed && key.bound_ips == Some(raw) ==> (outcome is Ok
                <==> address_refusal(Some(raw@), client_ip) is None)
            &&& signed && !replayed && key.bound_ips == Some(raw) && outcome is Err ==> outcome->Err_0
                == address_refusal(Some(raw@), client_ip)->0
            &&& outcome matches Ok(admitted) ==> admitted == master::admitted(pinned, key)
        }),
{
}

/// What is wrong with the headers of a request is said, the timestamp first, then the key, then the
/// signature.
pub proof fn law_header_refusals_say_what_is_wrong(
    timestamp: Option<Seq<char>>,
    api_key: Option<Seq<char>>,
    signature: Option<Seq<char>>,
    now: i64,
    supplied: int,
)
    ensures
        timestamp is None ==> timestamp_outcome(timestamp, now) == Err::<Seq<char>, AppFault>(
            AppFault::Unauthorized("Missing X-Timestamp header"@),
        ),
        timestamp matches Some(value) ==> text::signed_value(text::trimmed(value)) is None
            ==> timestamp_outcome(timestamp, now) == Err::<Seq<char>, AppFault>(
            AppFault::Unauthorized("Malformed X-Timestamp header"@),
        ),
        timestamp matches Some(value) ==> text::signed_value(text::trimmed(value)) == Some(supplied)
            && !(now - 300 <= supplied <= now + 300) ==> timestamp_outcome(timestamp, now) == Err::<
            Seq<char>,
            AppFault,
        >(AppFault::Unauthorized("Request timestamp outside the permitted 300s window"@)),
        timestamp_outcome(timestamp, now) is Ok ==> {
            let found = presented(timestamp, api_key, signature, now);
            &&& api_key is None ==> found is Err && found->Err_0 == AppFault::Unauthorized(
                "Missing X-API-Key header"@,
            )
            &&& api_key is Some && signature is None ==> found is Err && found->Err_0
                == AppFault::Unauthorized("Missing X-Signature-256 header"@)
            &&& api_key is Some && signature is Some && !text::has_prefix(
                text::trimmed(signature->0),
                "sha256="@,
            ) ==> found is Err && found->Err_0 == AppFault::Unauthorized(
                "X-Signature-256 must be formatted as sha256=<hex>"@,
            )
        },
{
}

/// What is wrong with a signature is said, and an address that a key is not bound to is refused by
/// name.
pub proof fn law_signature_refusals_say_what_is_wrong(
    key: api_key::Model,
    secret: Seq<char>,
    request: SignedRequest,
    client_ip: IpAddress,
    seen: GuardState,
    pinned: Option<u128>,
    now_ms: nat,
    bound_ips: Option<Seq<char>>,
)
    ensures
        ({
            let tag = expected_tag(secret, request);
            let outcome = request_outcome(key, secret, request, client_ip, seen, pinned, now_ms);
            &&& crypto::presented_tag(request.signature@) != Some(tag) ==> outcome == Err::<
                api_key::Model,
                AppFault,
            >(AppFault::Unauthorized("Invalid request signature"@))
            &&& crypto::presented_tag(request.signature@) == Some(tag) && seen.refuses(
                (key.id, tag),
                now_ms,
            ) ==> outcome == Err::<api_key::Model, AppFault>(
                AppFault::Unauthorized(
                    "This request signature has already been used; sign a fresh request"@,
                ),
            )
            &&& address_refusal(bound_ips, client_ip) matches Some(fault) ==> fault
                == AppFault::Internal || fault == AppFault::Forbidden("Client IP not allowed"@)
        }),
{
}

} // verus!
