//! Outbound signed calls to remote vaults: what is sent, how it is signed, and what happens next.
//!
//! Every call carries `CANONICAL_V1` headers made from the decrypted credentials of a vault
//! endpoint. A push is retried on transient failures and split where the remote finds it too
//! large; a delta is fetched page by page.

use vstd::prelude::*;
use vstd::utf8::*;

use crate::crypto;
use crate::crypto::{compute_signature, CryptoError, SecretCipher};
use crate::entities::vault_endpoint;
use crate::retry;
use crate::text;
use crate::time::Timestamp;

verus! {

/// Failure modes of an outbound call to a vault endpoint.
#[derive(Debug)]
pub enum ClientError {
    /// The endpoint's base URL could not be parsed.
    InvalidUrl(String),
    /// The endpoint's signing secret could not be decrypted.
    Decrypt(CryptoError),
    /// Signature computation failed.
    Signing,
    /// The underlying request failed.
    Request(String),
    /// The remote vault responded with a status that is not a success.
    RemoteError {
        /// Status code returned.
        status: u16,
        /// Response body, truncated.
        body: String,
    },
}

/// What a [`ClientError`] says.
pub enum ClientFault {
    /// The endpoint's base URL could not be parsed.
    InvalidUrl(Seq<char>),
    /// The endpoint's signing secret could not be decrypted.
    Decrypt(CryptoError),
    /// Signature computation failed.
    Signing,
    /// The underlying request failed.
    Request(Seq<char>),
    /// The remote vault responded with a status that is not a success.
    RemoteError(u16, Seq<char>),
}

impl View for ClientError {
    type V = ClientFault;

    open spec fn view(&self) -> ClientFault {
        match self {
            ClientError::InvalidUrl(m) => ClientFault::InvalidUrl(m@),
            ClientError::Decrypt(e) => ClientFault::Decrypt(*e),
            ClientError::Signing => ClientFault::Signing,
            ClientError::Request(m) => ClientFault::Request(m@),
            ClientError::RemoteError { status, body } => ClientFault::RemoteError(*status, body@),
        }
    }
}

impl ClientFault {
    /// The text an operator reads.
    pub open spec fn text(self) -> Seq<char> {
        match self {
            ClientFault::InvalidUrl(m) => "invalid target_url: "@ + m,
            ClientFault::Decrypt(_) => "failed to decrypt vault endpoint signing secret"@,
            ClientFault::Signing => "failed to compute request signature"@,
            ClientFault::Request(m) => "request to vault endpoint failed: "@ + m,
            ClientFault::RemoteError(status, body) => "vault endpoint returned "@ + text::decimal(
                status as nat,
            ) + ": "@ + body,
        }
    }
}

impl ClientError {
    /// The text an operator reads.
    pub fn message(&self) -> (r: String)
        ensures
            r@ == self@.text(),
    {
        match self {
            ClientError::InvalidUrl(m) => text::concat("invalid target_url: ", m.as_str()),
            ClientError::Decrypt(_) => {
                "failed to decrypt vault endpoint signing secret".to_owned()
            },
            ClientError::Signing => "failed to compute request signature".to_owned(),
            ClientError::Request(m) => {
                text::concat("request to vault endpoint failed: ", m.as_str())
            },
            ClientError::RemoteError { status, body } => {
                let head = text::concat3(
                    "vault endpoint returned ",
                    text::decimal_string(*status as u64).as_str(),
                    ": ",
                );
                text::concat(head.as_str(), body.as_str())
            },
        }
    }
}

/// How a batch reconciles with what is already in the target group.
#[derive(Clone, Copy, Debug, PartialEq, Eq, Structural)]
pub enum BatchMode {
    /// Insert new records, update existing ones. Never implicitly deletes.
    Upsert,
    /// As `Upsert`, and delete whatever the batch does not name.
    FullReplace,
}

impl BatchMode {
    /// How the mode is written.
    pub open spec fn text(self) -> Seq<char> {
        match self {
            BatchMode::Upsert => "upsert"@,
            BatchMode::FullReplace => "full_replace"@,
        }
    }

    /// Reads a mode.
    pub fn parse(s: &str) -> (r: Option<BatchMode>)
        ensures
            match r {
                Some(mode) => s@ == mode.text(),
                None => s@ != BatchMode::Upsert.text() && s@ != BatchMode::FullReplace.text(),
            },
    {
        if text::same_text(s, "upsert") {
            Some(BatchMode::Upsert)
        } else if text::same_text(s, "full_replace") {
            Some(BatchMode::FullReplace)
        } else {
            None
        }
    }

    /// How the mode is written.
    pub fn as_str(self) -> (s: &'static str)
        ensures
            s@ == self.text(),
    {
        match self {
            BatchMode::Upsert => "upsert",
            BatchMode::FullReplace => "full_replace",
        }
    }
}

/// The two modes are written differently, so that reading a written mode gives it back.
pub proof fn law_modes_are_distinct()
    ensures
        BatchMode::Upsert.text() != BatchMode::FullReplace.text(),
{
    reveal_strlit("upsert");
    reveal_strlit("full_replace");
    assert("upsert"@.len() != "full_replace"@.len());
}

/// One record of a batch.
#[derive(Debug)]
pub struct BatchRecordInput {
    /// A bare address or network.
    pub target_address: String,
    /// Optional free-text cause.
    pub cause: Option<String>,
    /// Marks the record as a tombstone when `Some(true)`.
    pub is_deleted: Option<bool>,
    /// Only honoured for genuinely new rows.
    pub created_at: Option<Timestamp>,
    /// Update timestamp.
    pub updated_at: Option<Timestamp>,
    /// Last-seen timestamp.
    pub last_seen_at: Option<Timestamp>,
    /// Deletion timestamp.
    pub deleted_at: Option<Timestamp>,
}

/// What a remote vault did with a batch.
#[derive(Clone, Copy, Debug, PartialEq, Eq, Structural)]
pub struct BatchRecordsResponse {
    /// Number of newly created records.
    pub created: u64,
    /// Number of updated records.
    pub updated: u64,
    /// Number of records restored from a deleted state.
    pub restored: u64,
    /// Number of records skipped because they were locked.
    pub locked_skipped: u64,
    /// Number of records deleted by this batch.
    pub soft_deleted: u64,
    /// Number of group memberships linked.
    pub linked: u64,
}

impl Default for BatchRecordsResponse {
    /// Nothing done.
    fn default() -> (r: Self)
        ensures
            r == BatchRecordsResponse::nothing(),
    {
        BatchRecordsResponse {
            created: 0,
            updated: 0,
            restored: 0,
            locked_skipped: 0,
            soft_deleted: 0,
            linked: 0,
        }
    }
}

/// `a + b`, or the largest count if the sum is above it.
pub open spec fn count_sum(a: u64, b: u64) -> u64 {
    if a + b > u64::MAX {
        u64::MAX
    } else {
        (a + b) as u64
    }
}

impl BatchRecordsResponse {
    /// Nothing done.
    pub open spec fn nothing() -> Self {
        BatchRecordsResponse {
            created: 0,
            updated: 0,
            restored: 0,
            locked_skipped: 0,
            soft_deleted: 0,
            linked: 0,
        }
    }

    /// The counts of two batches together.
    pub open spec fn sum(self, other: Self) -> Self {
        BatchRecordsResponse {
            created: count_sum(self.created, other.created),
            updated: count_sum(self.updated, other.updated),
            restored: count_sum(self.restored, other.restored),
            locked_skipped: count_sum(self.locked_skipped, other.locked_skipped),
            soft_deleted: count_sum(self.soft_deleted, other.soft_deleted),
            linked: count_sum(self.linked, other.linked),
        }
    }

    /// The counts of two batches together.
    pub fn plus(self, other: Self) -> (r: Self)
        ensures
            r == self.sum(other),
    {
        BatchRecordsResponse {
            created: self.created.saturating_add(other.created),
            updated: self.updated.saturating_add(other.updated),
            restored: self.restored.saturating_add(other.restored),
            locked_skipped: self.locked_skipped.saturating_add(other.locked_skipped),
            soft_deleted: self.soft_deleted.saturating_add(other.soft_deleted),
            linked: self.linked.saturating_add(other.linked),
        }
    }
}

/// One record as a source vault returns it.
#[derive(Debug)]
pub struct IpRecordResponse {
    /// Record id on the source vault.
    pub id: u128,
    /// The address or network.
    pub target_address: String,
    /// Group that the record belongs to.
    pub group_name: String,
    /// Free-text cause.
    pub cause: Option<String>,
    /// Whether the record is a tombstone.
    pub is_deleted: bool,
    /// Deletion timestamp.
    pub deleted_at: Option<Timestamp>,
    /// Creation timestamp on the source vault.
    pub created_at: Option<Timestamp>,
    /// Last update timestamp.
    pub updated_at: Option<Timestamp>,
    /// Last-seen timestamp.
    pub last_seen_at: Option<Timestamp>,
}

// ---------------------------------------------------------------------------
// Signing
// ---------------------------------------------------------------------------
/// The headers that authenticate an outbound call.
#[derive(Debug)]
pub struct SignedHeaders {
    /// Value of `X-API-Key`.
    pub api_key: String,
    /// Value of `X-Timestamp`.
    pub timestamp: String,
    /// Value of `X-Signature-256`.
    pub signature: String,
}

/// Signs a call to `endpoint` made at `now`, in seconds since the epoch.
pub fn signed_headers(
    cipher: &SecretCipher,
    endpoint: &vault_endpoint::Model,
    method: &str,
    target: &str,
    body: &[u8],
    now: i64,
) -> (r: Result<SignedHeaders, ClientError>)
    ensures
        match cipher.opened(endpoint.signing_secret@) {
            Err(e) => r is Err && r->Err_0@ == ClientFault::Decrypt(e),
            Ok(secret) => {
                &&& r is Ok
                &&& r->Ok_0.api_key == endpoint.api_key
                &&& r->Ok_0.timestamp@ == text::signed_decimal(now as int)
                &&& r->Ok_0.signature@ == crypto::signature_header(
                    crypto::request_tag(
                        secret,
                        method@,
                        target@,
                        text::signed_decimal(now as int),
                        body@,
                    ),
                )
            },
        },
{
    let secret = match cipher.open(endpoint.signing_secret.as_str()) {
        Ok(secret) => secret,
        Err(e) => return Err(ClientError::Decrypt(e)),
    };
    let timestamp = text::signed_string(now);
    match compute_signature(secret.as_str(), method, target, timestamp.as_str(), body) {
        Ok(signature) => Ok(
            SignedHeaders { api_key: endpoint.api_key.clone(), timestamp, signature },
        ),
        Err(_) => Err(ClientError::Signing),
    }
}

// ---------------------------------------------------------------------------
// Request targets
// ---------------------------------------------------------------------------
/// The whole URL and the path that a reference resolves to against a base.
pub uninterp spec fn url_joined(base: Seq<char>, reference: Seq<char>) -> Result<
    (Seq<char>, Seq<char>),
    Seq<char>,
>;

/// The whole URL, the path and the query that a reference resolves to against a base, once the
/// pairs are appended to its query.
pub uninterp spec fn url_queried(
    base: Seq<char>,
    reference: Seq<char>,
    pairs: Seq<(Seq<char>, Seq<char>)>,
) -> Result<(Seq<char>, Seq<char>, Option<Seq<char>>), Seq<char>>;

/// The texts of pairs of strings.
pub open spec fn pair_texts(pairs: Seq<(String, String)>) -> Seq<(Seq<char>, Seq<char>)> {
    Seq::new(pairs.len(), |i: int| (pairs[i].0@, pairs[i].1@))
}

/// Characters from which on a base or a reference is too long: the URL parser counts those of the
/// authority in 31 bits.
pub const TOO_MANY_CHARS: usize = 0x8000_0000;

/// Bytes from which on a URL is too long to be given a query: positions in a URL have 32 bits.
pub const TOO_MANY_BYTES: usize = 0xffff_ffff;

/// What is said against a URL that is too long.
pub const TOO_LONG: &'static str = "the URL is too long";

/// Calls `Url::parse` on the base and `Url::join` with the reference, and gives the whole URL and its
/// path, or what is said against them. Both are functions of the two texts. The parser counts the
/// characters of an authority in an `i32`, which the lengths keep from overflowing.
#[verifier::external_body]
fn join_url(base: &str, reference: &str) -> (r: Result<(String, String), String>)
    requires
        base@.len() < TOO_MANY_CHARS,
        reference@.len() < TOO_MANY_CHARS,
    ensures
        match r {
            Ok((url, path)) => url_joined(base@, reference@) == Ok::<
                (Seq<char>, Seq<char>),
                Seq<char>,
            >((url@, path@)),
            Err(fault) => url_joined(base@, reference@) == Err::<(Seq<char>, Seq<char>), Seq<char>>(
                fault@,
            ),
        },
{
    match reqwest::Url::parse(base).and_then(|parsed| parsed.join(reference)) {
        Ok(url) => Ok((url.as_str().to_owned(), url.path().to_owned())),
        Err(e) => Err(e.to_string()),
    }
}

/// Calls `Url::parse` on the base, `Url::join` with the reference, and `extend_pairs` on the query of
/// the result, which encodes the pairs as a form does. Gives the whole URL, its path and its query,
/// or what is said against them. All are functions of the texts that go in. The crate keeps the
/// position of the query, and of a fragment that is put back behind it, in a `u32`: the joined URL has
/// to be shorter than that, and the reference brings no fragment.
#[verifier::external_body]
fn query_url(base: &str, reference: &str, pairs: &Vec<(String, String)>) -> (r: Result<
    (String, String, Option<String>),
    String,
>)
    requires
        base@.len() < TOO_MANY_CHARS,
        reference@.len() < TOO_MANY_CHARS,
        !reference@.contains('#'),
        url_joined(base@, reference@) matches Ok((url, _)) ==> encode_utf8(url).len()
            < TOO_MANY_BYTES,
    ensures
        match r {
            Ok((url, path, query)) => url_queried(base@, reference@, pair_texts(pairs@)) == Ok::<
                (Seq<char>, Seq<char>, Option<Seq<char>>),
                Seq<char>,
            >(
                (
                    url@,
                    path@,
                    match query {
                        Some(q) => Some(q@),
                        None => None,
                    },
                ),
            ),
            Err(fault) => url_queried(base@, reference@, pair_texts(pairs@)) == Err::<
                (Seq<char>, Seq<char>, Option<Seq<char>>),
                Seq<char>,
            >(fault@),
        },
{
    match reqwest::Url::parse(base).and_then(|parsed| parsed.join(reference)) {
        Ok(mut url) => {
            url.query_pairs_mut().extend_pairs(pairs);
            let query = url.query().map(str::to_owned);
            Ok((url.as_str().to_owned(), url.path().to_owned(), query))
        },
        Err(e) => Err(e.to_string()),
    }
}

/// Where a call goes, and what is signed of it.
#[derive(Debug)]
pub struct RequestTarget {
    /// The whole URL.
    pub url: String,
    /// The path, and the query if there is one.
    pub target: String,
}

/// Path of the batch endpoint.
pub const BATCH_PATH: &'static str = "/api/records/batch";

/// Path of the record listing.
pub const LISTING_PATH: &'static str = "/api/ips";

/// Where a batch for the vault at `base` goes.
pub fn batch_target(base: &str) -> (r: Result<RequestTarget, ClientError>)
    ensures
        if base@.len() >= TOO_MANY_CHARS {
            r is Err && r->Err_0@ == ClientFault::InvalidUrl(TOO_LONG@)
        } else {
            match url_joined(base@, BATCH_PATH@) {
                Ok((url, path)) => r is Ok && r->Ok_0.url@ == url && r->Ok_0.target@ == path,
                Err(fault) => r is Err && r->Err_0@ == ClientFault::InvalidUrl(fault),
            }
        },
{
    if base.unicode_len() >= TOO_MANY_CHARS {
        return Err(ClientError::InvalidUrl(TOO_LONG.to_owned()));
    }
    proof {
        reveal_strlit("/api/records/batch");
    }
    match join_url(base, BATCH_PATH) {
        Ok((url, path)) => Ok(RequestTarget { url, target: path }),
        Err(fault) => Err(ClientError::InvalidUrl(fault)),
    }
}

/// Records per page of a delta.
pub const DELTA_PAGE_SIZE: u64 = 5_000;

/// The query of one page of a delta.
pub open spec fn delta_query(
    group_name: Seq<char>,
    include_deleted: bool,
    offset: u64,
    since: Option<Timestamp>,
) -> Seq<(Seq<char>, Seq<char>)> {
    let fixed = seq![
        ("group_name"@, group_name),
        (
            "include_deleted"@,
            if include_deleted {
                "true"@
            } else {
                "false"@
            },
        ),
        ("limit"@, text::decimal(DELTA_PAGE_SIZE as nat)),
        ("offset"@, text::decimal(offset as nat)),
    ];
    match since {
        Some(t) => fixed.push(("since"@, text::signed_decimal(t.secs as int))),
        None => fixed,
    }
}

/// What is signed of a URL: the path, and the query behind a question mark if there is one.
pub open spec fn signed_target(path: Seq<char>, query: Option<Seq<char>>) -> Seq<char> {
    match query {
        Some(q) => path + "?"@ + q,
        None => path,
    }
}

/// What stands against a base as that of a listing, if anything: it names no URL, or one that is too
/// long to be given a query.
pub open spec fn listing_fault(base: Seq<char>) -> Option<Seq<char>> {
    if base.len() >= TOO_MANY_CHARS {
        Some(TOO_LONG@)
    } else {
        match url_joined(base, LISTING_PATH@) {
            Ok((url, _)) => if encode_utf8(url).len() >= TOO_MANY_BYTES {
                Some(TOO_LONG@)
            } else {
                None
            },
            Err(fault) => Some(fault),
        }
    }
}

/// Where one page of a delta is fetched. The signed target includes the query string.
pub fn delta_target(
    base: &str,
    group_name: &str,
    include_deleted: bool,
    offset: u64,
    since: Option<Timestamp>,
) -> (r: Result<RequestTarget, ClientError>)
    ensures
        match listing_fault(base@) {
            Some(fault) => r is Err && r->Err_0@ == ClientFault::InvalidUrl(fault),
            None => match url_queried(
                base@,
                LISTING_PATH@,
                delta_query(group_name@, include_deleted, offset, since),
            ) {
                Ok((url, path, query)) => r is Ok && r->Ok_0.url@ == url && r->Ok_0.target@
                    == signed_target(path, query),
                Err(fault) => r is Err && r->Err_0@ == ClientFault::InvalidUrl(fault),
            },
        },
{
    if base.unicode_len() >= TOO_MANY_CHARS {
        return Err(ClientError::InvalidUrl(TOO_LONG.to_owned()));
    }
    proof {
        reveal_strlit("/api/ips");
    }
    match join_url(base, LISTING_PATH) {
        Ok((url, _)) => if url.as_str().as_bytes().len() >= TOO_MANY_BYTES {
            return Err(ClientError::InvalidUrl(TOO_LONG.to_owned()));
        },
        Err(fault) => return Err(ClientError::InvalidUrl(fault)),
    }
    let mut pairs: Vec<(String, String)> = Vec::new();
    pairs.push(("group_name".to_owned(), group_name.to_owned()));
    let flag = if include_deleted {
        "true"
    } else {
        "false"
    };
    pairs.push(("include_deleted".to_owned(), flag.to_owned()));
    pairs.push(("limit".to_owned(), text::decimal_string(DELTA_PAGE_SIZE)));
    pairs.push(("offset".to_owned(), text::decimal_string(offset)));
    if let Some(t) = since {
        pairs.push(("since".to_owned(), text::signed_string(t.secs)));
    }
    assert(pair_texts(pairs@) =~= delta_query(group_name@, include_deleted, offset, since));
    match query_url(base, LISTING_PATH, &pairs) {
        Ok((url, path, query)) => {
            let target = match query {
                Some(q) => text::concat3(path.as_str(), "?", q.as_str()),
                None => path,
            };
            Ok(RequestTarget { url, target })
        },
        Err(fault) => Err(ClientError::InvalidUrl(fault)),
    }
}

/// Most characters of a remote error body that are kept.
pub const ERROR_BODY_CHARS: usize = 500;

/// The error for a remote answer that is not a success, with its body truncated.
pub fn remote_error(status: u16, body: &str) -> (e: ClientError)
    ensures
        e@ == ClientFault::RemoteError(status, text::shortened(body@, ERROR_BODY_CHARS as nat)),
        e@ matches ClientFault::RemoteError(s, kept) && s == status && kept.is_prefix_of(body@)
            && (body@.len() <= 500 ==> kept == body@),
{
    ClientError::RemoteError { status, body: text::first_chars(body, ERROR_BODY_CHARS) }
}

// ---------------------------------------------------------------------------
// Pushing a batch
// ---------------------------------------------------------------------------
/// The records from `start` to before `end`, and the mode they are sent in.
#[derive(Clone, Copy, Debug, PartialEq, Eq, Structural)]
pub struct PushPiece {
    /// First record of the piece.
    pub start: usize,
    /// One past the last record of the piece.
    pub end: usize,
    /// Mode of the piece.
    pub mode: BatchMode,
}

/// What became of a piece that was sent.
#[derive(Debug)]
pub enum PushReply {
    /// The remote took it.
    Accepted(BatchRecordsResponse),
    /// The remote answered with a status that is not a success.
    Refused {
        /// The status.
        status: u16,
        /// The response body.
        body: String,
    },
    /// No answer came.
    Lost(String),
}

/// What a [`PushReply`] says.
pub enum PushAnswer {
    /// The remote took it.
    Accepted(BatchRecordsResponse),
    /// The remote answered with a status that is not a success.
    Refused(u16, Seq<char>),
    /// No answer came.
    Lost(Seq<char>),
}

impl View for PushReply {
    type V = PushAnswer;

    open spec fn view(&self) -> PushAnswer {
        match self {
            PushReply::Accepted(r) => PushAnswer::Accepted(*r),
            PushReply::Refused { status, body } => PushAnswer::Refused(*status, body@),
            PushReply::Lost(m) => PushAnswer::Lost(m@),
        }
    }
}

/// What to do after a reply.
#[derive(Debug)]
pub enum PushStep {
    /// Send the current piece.
    Send,
    /// Wait for the backoff of this attempt, then send the current piece again.
    Retry(u32),
    /// Every record was taken.
    Done,
    /// Give up.
    Failed(ClientError),
}

/// What a [`PushStep`] says.
pub enum PushVerdict {
    /// Send the current piece.
    Send,
    /// Wait for the backoff of this attempt, then send the current piece again.
    Retry(nat),
    /// Every record was taken.
    Done,
    /// Give up.
    Failed(ClientFault),
}

impl View for PushStep {
    type V = PushVerdict;

    open spec fn view(&self) -> PushVerdict {
        match self {
            PushStep::Send => PushVerdict::Send,
            PushStep::Retry(attempt) => PushVerdict::Retry(*attempt as nat),
            PushStep::Done => PushVerdict::Done,
            PushStep::Failed(e) => PushVerdict::Failed(e@),
        }
    }
}

/// Where a push stands.
#[verifier::ext_equal]
pub struct PushState {
    /// How many records there are.
    pub len: nat,
    /// The mode of the first piece.
    pub base: BatchMode,
    /// How often a piece is retried.
    pub max_retries: nat,
    /// How many records, from the first on, the remote has taken.
    pub start: nat,
    /// The ends of the pieces still to be sent, the next one last.
    pub ends: Seq<nat>,
    /// How often the current piece has been retried.
    pub attempt: nat,
    /// What the remote has done so far.
    pub total: BatchRecordsResponse,
}

impl PushState {
    /// A push of which nothing has been sent.
    pub open spec fn fresh(len: nat, base: BatchMode, max_retries: nat) -> Self {
        PushState {
            len,
            base,
            max_retries,
            start: 0,
            ends: seq![len],
            attempt: 0,
            total: BatchRecordsResponse::nothing(),
        }
    }

    /// The pieces still to be sent follow each other from the first record not taken to the last.
    pub open spec fn well_formed(self) -> bool {
        &&& self.start <= self.len
        &&& self.ends.len() == 0 ==> self.start == self.len
        &&& self.ends.len() > 0 ==> self.ends[0] == self.len
        &&& self.ends.len() > 0 && self.len > 0 ==> self.start < self.ends.last()
        &&& self.len == 0 ==> self.ends.len() <= 1
        &&& forall|i: int, j: int|
            0 <= i < j < self.ends.len() ==> #[trigger] self.ends[i] > #[trigger] self.ends[j]
        &&& self.attempt <= self.max_retries
    }

    /// Whether every record was taken.
    pub open spec fn is_done(self) -> bool {
        self.ends.len() == 0
    }

    /// The mode of the current piece: the base mode for the piece that holds the first record, and
    /// `Upsert` for every other.
    pub open spec fn mode(self) -> BatchMode {
        if self.start == 0 {
            self.base
        } else {
            BatchMode::Upsert
        }
    }

    /// The state after the current piece was taken.
    pub open spec fn after_acceptance(self, r: BatchRecordsResponse) -> Self {
        PushState {
            start: self.ends.last(),
            ends: self.ends.drop_last(),
            attempt: 0,
            total: self.total.sum(r),
            ..self
        }
    }

    /// The state after the current piece was halved.
    pub open spec fn after_split(self) -> Self {
        PushState {
            ends: self.ends.push(
                (self.start + (self.ends.last() - self.start) / 2) as nat,
            ),
            attempt: 0,
            ..self
        }
    }

    /// The state and the step after a reply to the current piece.
    pub open spec fn answered(self, answer: PushAnswer) -> (PushState, PushVerdict) {
        match answer {
            PushAnswer::Accepted(r) => (
                self.after_acceptance(r),
                if self.ends.len() == 1 {
                    PushVerdict::Done
                } else {
                    PushVerdict::Send
                },
            ),
            PushAnswer::Refused(status, body) => if status == 413 && self.ends.last() - self.start
                > 1 {
                (self.after_split(), PushVerdict::Send)
            } else if retry::is_transient(status) && self.attempt < self.max_retries {
                (
                    PushState { attempt: self.attempt + 1, ..self },
                    PushVerdict::Retry(self.attempt + 1),
                )
            } else {
                (
                    self,
                    PushVerdict::Failed(
                        ClientFault::RemoteError(
                            status,
                            text::shortened(body, ERROR_BODY_CHARS as nat),
                        ),
                    ),
                )
            },
            PushAnswer::Lost(m) => (self, PushVerdict::Failed(ClientFault::Request(m))),
        }
    }
}

/// A batch being pushed to one endpoint. A piece that meets a transient failure is retried; one
/// that is too large for the remote is halved.
pub struct BatchPush {
    len: usize,
    base: BatchMode,
    max_retries: u32,
    start: usize,
    ends: Vec<usize>,
    attempt: u32,
    total: BatchRecordsResponse,
}

impl View for BatchPush {
    type V = PushState;

    closed spec fn view(&self) -> PushState {
        PushState {
            len: self.len as nat,
            base: self.base,
            max_retries: self.max_retries as nat,
            start: self.start as nat,
            ends: Seq::new(self.ends@.len(), |i: int| self.ends@[i] as nat),
            attempt: self.attempt as nat,
            total: self.total,
        }
    }
}

impl BatchPush {
    /// A push of `len` records of which nothing has been sent.
    pub fn new(len: usize, base: BatchMode, max_retries: u32) -> (push: Self)
        ensures
            push@ == PushState::fresh(len as nat, base, max_retries as nat),
            push@.well_formed(),
            !push@.is_done(),
    {
        let mut ends: Vec<usize> = Vec::new();
        ends.push(len);
        let push = BatchPush {
            len,
            base,
            max_retries,
            start: 0,
            ends,
            attempt: 0,
            total: BatchRecordsResponse::default(),
        };
        assert(push@ =~= PushState::fresh(len as nat, base, max_retries as nat));
        push
    }

    /// The piece to send next, or nothing once every record was taken.
    pub fn piece(&self) -> (r: Option<PushPiece>)
        ensures
            r is None <==> self@.is_done(),
            r matches Some(piece) ==> {
                &&& piece.start == self@.start
                &&& piece.end == self@.ends.last()
                &&& piece.mode == self@.mode()
            },
    {
        if self.ends.len() == 0 {
            return None;
        }
        let mode = if self.start == 0 {
            self.base
        } else {
            BatchMode::Upsert
        };
        Some(PushPiece { start: self.start, end: self.ends[self.ends.len() - 1], mode })
    }

    /// What the remote has done so far.
    pub fn total(&self) -> (r: BatchRecordsResponse)
        ensures
            r == self@.total,
    {
        self.total
    }

    /// Takes the reply to the current piece.
    pub fn record(&mut self, reply: PushReply) -> (step: PushStep)
        requires
            old(self)@.well_formed(),
            !old(self)@.is_done(),
        ensures
            (final(self)@, step@) == old(self)@.answered(reply@),
            final(self)@.well_formed(),
            step is Done <==> final(self)@.is_done(),
    {
        let ghost before = self@;
        let last: usize = self.ends.len() - 1;
        let end: usize = self.ends[last];
        assert(before.ends[last as int] == end);
        match reply {
            PushReply::Accepted(r) => {
                self.start = end;
                self.ends.truncate(last);
                self.attempt = 0;
                self.total = self.total.plus(r);
                proof {
                    assert(self@ =~= before.after_acceptance(r));
                    lemma_acceptance_is_well_formed(before, r);
                }
                if last == 0 {
                    PushStep::Done
                } else {
                    PushStep::Send
                }
            },
            PushReply::Refused { status, body } => {
                assert(before.start <= end);
                if status == 413 && end - self.start > 1 {
                    let middle: usize = self.start + (end - self.start) / 2;
                    self.ends.push(middle);
                    self.attempt = 0;
                    proof {
                        assert(self@ =~= before.after_split());
                        lemma_split_is_well_formed(before);
                    }
                    PushStep::Send
                } else if retry::is_transient_status(status) && self.attempt < self.max_retries {
                    self.attempt = self.attempt + 1;
                    assert(self@ =~= (PushState { attempt: before.attempt + 1, ..before }));
                    PushStep::Retry(self.attempt)
                } else {
                    PushStep::Failed(remote_error(status, body.as_str()))
                }
            },
            PushReply::Lost(m) => PushStep::Failed(ClientError::Request(m)),
        }
    }
}

/// Accepting a piece keeps the pieces in order.
proof fn lemma_acceptance_is_well_formed(state: PushState, r: BatchRecordsResponse)
    requires
        state.well_formed(),
        !state.is_done(),
    ensures
        state.after_acceptance(r).well_formed(),
{
    let ends = state.ends;
    let after = state.after_acceptance(r);
    assert(ends.last() == ends[ends.len() - 1]);
    if ends.len() > 1 {
        assert(ends[0] > ends[ends.len() - 1]);
        assert(ends[ends.len() - 2] > ends[ends.len() - 1]);
        assert(after.ends.last() == ends[ends.len() - 2]);
    }
    assert forall|i: int, j: int| 0 <= i < j < after.ends.len() implies #[trigger] after.ends[i]
        > #[trigger] after.ends[j] by {
        assert(ends[i] > ends[j]);
    }
}

/// Halving a piece keeps the pieces in order.
proof fn lemma_split_is_well_formed(state: PushState)
    requires
        state.well_formed(),
        !state.is_done(),
        state.ends.last() - state.start > 1,
    ensures
        state.after_split().well_formed(),
{
    let ends = state.ends;
    let after = state.after_split();
    assert(ends.last() == ends[ends.len() - 1]);
    assert(after.ends.last() < ends.last());
    assert forall|i: int, j: int| 0 <= i < j < after.ends.len() implies #[trigger] after.ends[i]
        > #[trigger] after.ends[j] by {
        if j < ends.len() {
            assert(ends[i] > ends[j]);
        } else if i < ends.len() - 1 {
            assert(ends[i] > ends[ends.len() - 1]);
        }
    }
}

/// The remote takes the records in order and without gaps: an accepted piece starts where the
/// accepted records end, a refused one changes nothing that was accepted, and a push is done only
/// once every record was taken.
pub proof fn law_push_takes_records_in_order(state: PushState, answer: PushAnswer)
    requires
        state.well_formed(),
        !state.is_done(),
    ensures
        answer is Accepted ==> state.answered(answer).0.start == state.ends.last(),
        !(answer is Accepted) ==> state.answered(answer).0.start == state.start,
        state.answered(answer).0.is_done() ==> state.answered(answer).0.start == state.len,
{
    if let PushAnswer::Accepted(r) = answer {
        lemma_acceptance_is_well_formed(state, r);
    }
}

/// Once any record was taken, no later piece replaces the group's contents.
pub proof fn law_push_replaces_at_most_once(state: PushState, answer: PushAnswer)
    requires
        state.well_formed(),
        !state.is_done(),
        state.start > 0 || (answer is Accepted && state.len > 0),
    ensures
        state.answered(answer).0.start > 0,
        state.answered(answer).0.mode() == BatchMode::Upsert,
{
}

/// Every reply brings a push nearer to its end: more records are taken, or the current piece gets
/// shorter, or a retry is used up, or the push is over.
pub proof fn law_push_makes_progress(state: PushState, answer: PushAnswer)
    requires
        state.well_formed(),
        !state.is_done(),
        state.answered(answer).1 is Send || state.answered(answer).1 is Retry,
    ensures
        ({
            let next = state.answered(answer).0;
            ||| next.len - next.start < state.len - state.start
            ||| next.start == state.start && next.ends.last() < state.ends.last()
            ||| next.start == state.start && next.ends == state.ends && next.max_retries
                - next.attempt < state.max_retries - state.attempt
        }),
{
    if state.len == 0 && answer is Accepted {
        assert(state.ends.len() == 1);
    }
}

/// A transient failure is retried at most `max_retries` times in a row.
pub proof fn law_push_retries_are_bounded(state: PushState, answer: PushAnswer)
    requires
        state.well_formed(),
        !state.is_done(),
        state.attempt == state.max_retries,
    ensures
        !(state.answered(answer).1 is Retry),
{
}

// ---------------------------------------------------------------------------
// Fetching a delta
// ---------------------------------------------------------------------------
/// What to do after the answer to a page request.
#[derive(Clone, Copy, Debug, PartialEq, Eq, Structural)]
pub enum PageStep {
    /// Read the page.
    Read,
    /// Wait for the backoff of this attempt, then ask again.
    Retry(u32),
    /// Give up, with [`remote_error`].
    Refused,
}

/// Whether `step` is what to do after an answer to a page request.
pub open spec fn is_page_step(
    step: PageStep,
    status: u16,
    attempt: u32,
    max_retries: u32,
) -> bool {
    match step {
        PageStep::Read => 200 <= status <= 299,
        PageStep::Retry(next) => retry::is_transient(status) && next == attempt + 1 && next
            <= max_retries,
        PageStep::Refused => !(200 <= status <= 299) && !(retry::is_transient(status) && attempt
            < max_retries),
    }
}

/// A page is read exactly where the vault answers with a success; it is asked for again exactly where
/// the vault is busy and retries are left; and it is given up otherwise.
pub proof fn law_pages_are_asked_for_again_while_the_vault_is_busy(
    step: PageStep,
    status: u16,
    attempt: u32,
    max_retries: u32,
)
    requires
        is_page_step(step, status, attempt, max_retries),
    ensures
        step is Read <==> status / 100 == 2,
        step is Retry <==> attempt < max_retries && (status == 429 || status == 502 || status == 503
            || status == 504),
        step matches PageStep::Retry(next) ==> next == attempt + 1,
{
}

/// What to do after the answer to a page request, when `attempt` retries were made already.
pub fn page_step(status: u16, attempt: u32, max_retries: u32) -> (step: PageStep)
    ensures
        step == if 200 <= status <= 299 {
            PageStep::Read
        } else if retry::is_transient(status) && attempt < max_retries {
            PageStep::Retry((attempt + 1) as u32)
        } else {
            PageStep::Refused
        },
        is_page_step(step, status, attempt, max_retries),
{
    if 200 <= status && status <= 299 {
        PageStep::Read
    } else if retry::is_transient_status(status) && attempt < max_retries {
        PageStep::Retry(attempt + 1)
    } else {
        PageStep::Refused
    }
}

/// A delta being fetched page by page.
pub struct DeltaFetch {
    records: Vec<IpRecordResponse>,
    offset: u64,
    complete: bool,
}

impl DeltaFetch {
    /// What has been fetched.
    pub closed spec fn fetched(self) -> Seq<IpRecordResponse> {
        self.records@
    }

    /// Where the next page starts.
    pub closed spec fn next_offset(self) -> u64 {
        self.offset
    }

    /// Whether the last page has come.
    pub closed spec fn is_complete(self) -> bool {
        self.complete
    }

    /// At least as many records have come as were passed over.
    pub open spec fn well_formed(self) -> bool {
        self.next_offset() <= self.fetched().len()
    }

    /// A fetch of which no page has come.
    pub fn new() -> (fetch: Self)
        ensures
            fetch.fetched() == Seq::<IpRecordResponse>::empty(),
            fetch.next_offset() == 0,
            !fetch.is_complete(),
            fetch.well_formed(),
    {
        DeltaFetch { records: Vec::new(), offset: 0, complete: false }
    }

    /// Where the next page starts, or nothing once the last page has come.
    pub fn offset(&self) -> (r: Option<u64>)
        ensures
            r == if self.is_complete() {
                None::<u64>
            } else {
                Some(self.next_offset())
            },
    {
        if self.complete {
            None
        } else {
            Some(self.offset)
        }
    }

    /// Takes the next page. A page that is not full is the last one.
    pub fn take_page(&mut self, page: Vec<IpRecordResponse>)
        requires
            old(self).well_formed(),
            !old(self).is_complete(),
        ensures
            final(self).well_formed(),
            final(self).fetched() == old(self).fetched() + page@,
            final(self).is_complete() == (page@.len() < DELTA_PAGE_SIZE),
            final(self).next_offset() == if page@.len() < DELTA_PAGE_SIZE {
                old(self).next_offset() as int
            } else {
                old(self).next_offset() + DELTA_PAGE_SIZE
            },
    {
        let n: u64 = page.len() as u64;
        let mut page = page;
        self.records.append(&mut page);
        if n < DELTA_PAGE_SIZE {
            self.complete = true;
        } else {
            assert(self.records.len() <= usize::MAX);
            self.offset = self.offset + DELTA_PAGE_SIZE;
        }
    }

    /// Everything that was fetched.
    pub fn finish(self) -> (r: Vec<IpRecordResponse>)
        ensures
            r@ == self.fetched(),
    {
        self.records
    }
}

/// The page of a source's records that starts at `offset`.
pub open spec fn page_of(records: Seq<IpRecordResponse>, offset: int) -> Seq<IpRecordResponse> {
    records.subrange(
        offset,
        if offset + DELTA_PAGE_SIZE <= records.len() {
            offset + DELTA_PAGE_SIZE
        } else {
            records.len() as int
        },
    )
}

/// What paging collects from a source whose records do not change, when everything before `offset`
/// was fetched already.
pub open spec fn paged(
    records: Seq<IpRecordResponse>,
    fetched: Seq<IpRecordResponse>,
    offset: int,
) -> Seq<IpRecordResponse>
    decreases records.len() - offset,
{
    let page = page_of(records, offset);
    if 0 <= offset <= records.len() && page.len() >= DELTA_PAGE_SIZE {
        paged(records, fetched + page, offset + DELTA_PAGE_SIZE)
    } else {
        fetched + page
    }
}

/// Paging on from where everything before `offset` was fetched collects all records.
proof fn lemma_paged(records: Seq<IpRecordResponse>, offset: int)
    requires
        0 <= offset <= records.len(),
    ensures
        paged(records, records.take(offset), offset) == records,
    decreases records.len() - offset,
{
    let page = page_of(records, offset);
    if page.len() >= DELTA_PAGE_SIZE {
        assert(records.take(offset) + page =~= records.take(offset + DELTA_PAGE_SIZE));
        lemma_paged(records, offset + DELTA_PAGE_SIZE);
    } else {
        assert(records.take(offset) + page =~= records);
    }
}

/// Paging through a source whose records do not change collects all of them, each once and in order.
pub proof fn law_delta_collects_every_record(records: Seq<IpRecordResponse>)
    ensures
        paged(records, Seq::empty(), 0) == records,
{
    lemma_paged(records, 0);
    assert(records.take(0) =~= Seq::empty());
}

/// What an operator reads says what went wrong, and with which status a vault refused.
pub proof fn law_client_errors_say_what_went_wrong(
    e: ClientError,
    m: String,
    status: u16,
    body: String,
)
    ensures
        e == ClientError::InvalidUrl(m) ==> e@.text() == "invalid target_url: "@ + m@,
        e is Decrypt ==> e@.text() == "failed to decrypt vault endpoint signing secret"@,
        e is Signing ==> e@.text() == "failed to compute request signature"@,
        e == ClientError::Request(m) ==> e@.text() == "request to vault endpoint failed: "@ + m@,
        e == (ClientError::RemoteError { status, body }) ==> e@.text() == "vault endpoint returned "@
            + text::decimal(status as nat) + ": "@ + body@,
{
}

/// The modes are written `upsert` and `full_replace`.
pub proof fn law_how_modes_are_written()
    ensures
        BatchMode::Upsert.text() == seq!['u', 'p', 's', 'e', 'r', 't'],
        BatchMode::FullReplace.text() == seq![
            'f',
            'u',
            'l',
            'l',
            '_',
            'r',
            'e',
            'p',
            'l',
            'a',
            'c',
            'e',
        ],
{
    reveal_strlit("upsert");
    reveal_strlit("full_replace");
}

/// The counts of two batches are added one by one, in either order, and stop at the largest count.
pub proof fn law_counts_add_up(a: BatchRecordsResponse, b: BatchRecordsResponse)
    ensures
        a.sum(b) == b.sum(a),
        a.sum(BatchRecordsResponse::nothing()) == a,
        a.created + b.created <= u64::MAX ==> a.sum(b).created == a.created + b.created,
        a.updated + b.updated <= u64::MAX ==> a.sum(b).updated == a.updated + b.updated,
        a.restored + b.restored <= u64::MAX ==> a.sum(b).restored == a.restored + b.restored,
        a.locked_skipped + b.locked_skipped <= u64::MAX ==> a.sum(b).locked_skipped
            == a.locked_skipped + b.locked_skipped,
        a.soft_deleted + b.soft_deleted <= u64::MAX ==> a.sum(b).soft_deleted == a.soft_deleted
            + b.soft_deleted,
        a.linked + b.linked <= u64::MAX ==> a.sum(b).linked == a.linked + b.linked,
        a.created + b.created > u64::MAX ==> a.sum(b).created == u64::MAX,
        a.updated + b.updated > u64::MAX ==> a.sum(b).updated == u64::MAX,
        a.restored + b.restored > u64::MAX ==> a.sum(b).restored == u64::MAX,
        a.locked_skipped + b.locked_skipped > u64::MAX ==> a.sum(b).locked_skipped == u64::MAX,
        a.soft_deleted + b.soft_deleted > u64::MAX ==> a.sum(b).soft_deleted == u64::MAX,
        a.linked + b.linked > u64::MAX ==> a.sum(b).linked == u64::MAX,
{
}

/// A page of a delta is asked for by group, with or without tombstones, five thousand records at most,
/// from the offset on, and since a time if there is one.
pub proof fn law_pages_are_asked_for_as_wanted(
    group_name: Seq<char>,
    include_deleted: bool,
    offset: u64,
    since: Option<Timestamp>,
)
    ensures
        ({
            let query = delta_query(group_name, include_deleted, offset, since);
            &&& query.len() == if since is Some {
                5int
            } else {
                4int
            }
            &&& query[0] == ("group_name"@, group_name)
            &&& include_deleted ==> query[1] == ("include_deleted"@, "true"@)
            &&& !include_deleted ==> query[1] == ("include_deleted"@, "false"@)
            &&& query[2] == ("limit"@, text::decimal(5_000))
            &&& query[3] == ("offset"@, text::decimal(offset as nat))
            &&& since matches Some(t) ==> query[4] == (
                "since"@,
                text::signed_decimal(t.secs as int),
            )
        }),
{
}

/// What is signed of a URL starts with its path; a query follows a question mark.
pub proof fn law_what_is_signed_of_a_url(path: Seq<char>, query: Seq<char>)
    ensures
        signed_target(path, None) == path,
        signed_target(path, Some(query)) == path.push('?') + query,
{
    reveal_strlit("?");
    assert(path + "?"@ =~= path.push('?'));
}

/// A base that names a URL serves for a listing unless it, or the URL, is longer than positions in a
/// URL can tell; what names none is refused with what is said against it.
pub proof fn law_which_bases_serve_for_a_listing(base: Seq<char>)
    ensures
        listing_fault(base) is None <==> base.len() < 0x8000_0000 && url_joined(
            base,
            LISTING_PATH@,
        ) is Ok && encode_utf8(url_joined(base, LISTING_PATH@)->Ok_0.0).len() < 0xffff_ffff,
        base.len() < 0x8000_0000 ==> (url_joined(base, LISTING_PATH@) matches Err(fault)
            ==> listing_fault(base) == Some(fault)),
        LISTING_PATH@ == "/api/ips"@,
        BATCH_PATH@ == "/api/records/batch"@,
{
}

/// A push starts with one piece that holds every record, in the mode it was asked for, and nothing
/// done.
pub proof fn law_a_push_starts_whole(len: nat, base: BatchMode, max_retries: nat)
    ensures
        ({
            let fresh = PushState::fresh(len, base, max_retries);
            &&& fresh.start == 0
            &&& fresh.ends == seq![len]
            &&& fresh.mode() == base
            &&& fresh.attempt == 0
            &&& fresh.max_retries == max_retries
            &&& fresh.total.created == 0 && fresh.total.updated == 0 && fresh.total.restored == 0
            &&& fresh.total.locked_skipped == 0 && fresh.total.soft_deleted == 0
                && fresh.total.linked == 0
        }),
{
}

/// The piece that holds the first record goes in the push's own mode, and every other one upserts.
pub proof fn law_modes_of_pieces(state: PushState)
    ensures
        state.start == 0 ==> state.mode() == state.base,
        state.start > 0 ==> state.mode() == BatchMode::Upsert,
{
}

/// A piece that is taken is counted and done with, and the push is over exactly where it was the last.
pub proof fn law_what_is_taken_is_counted(state: PushState, r: BatchRecordsResponse)
    requires
        state.well_formed(),
        !state.is_done(),
    ensures
        ({
            let (next, step) = state.answered(PushAnswer::Accepted(r));
            &&& next.total == state.total.sum(r)
            &&& next.start == state.ends.last()
            &&& next.ends == state.ends.drop_last()
            &&& next.attempt == 0
            &&& next.len == state.len && next.base == state.base && next.max_retries
                == state.max_retries
            &&& step is Done <==> state.ends.last() == state.len
            &&& step is Done || step is Send
        }),
{
    if state.ends.len() > 1 {
        assert(state.ends[0] > state.ends[state.ends.len() - 1]);
    }
}

/// A piece of more than one record that is too large for the vault is halved, and both halves are
/// still to be sent; a single record that is too large is a failure.
pub proof fn law_what_is_too_large_is_halved(state: PushState, body: Seq<char>)
    requires
        state.well_formed(),
        !state.is_done(),
    ensures
        ({
            let (next, step) = state.answered(PushAnswer::Refused(413, body));
            let records = state.ends.last() - state.start;
            &&& records > 1 ==> step is Send && next.ends.len() == state.ends.len() + 1
                && next.ends.drop_last() == state.ends && next.ends.last() - next.start == records
                / 2 && next.attempt == 0
            &&& records <= 1 ==> step is Failed
            &&& next.total == state.total && next.start == state.start && next.len == state.len
                && next.base == state.base && next.max_retries == state.max_retries
        }),
{
}

/// A piece that meets a busy vault is sent again while retries are left; whatever else refuses it is a
/// failure with the vault's status and what it said, and so is an answer that never came.
pub proof fn law_what_is_sent_again(state: PushState, status: u16, body: Seq<char>)
    requires
        state.well_formed(),
        !state.is_done(),
    ensures
        ({
            let (next, step) = state.answered(PushAnswer::Refused(status, body));
            let busy = status == 429 || status == 502 || status == 503 || status == 504;
            &&& step is Retry <==> busy && state.attempt < state.max_retries
            &&& step is Retry ==> step == PushVerdict::Retry(state.attempt + 1) && next == (
            PushState { attempt: state.attempt + 1, ..state })
            &&& status != 413 && !(step is Retry) ==> step == PushVerdict::Failed(
                ClientFault::RemoteError(status, text::shortened(body, 500)),
            )
            &&& step is Failed ==> next == state
        }),
        state.answered(PushAnswer::Lost(body)) == (
            state,
            PushVerdict::Failed(ClientFault::Request(body)),
        ),
{
}

/// Replies and steps are seen as they are.
pub proof fn law_replies_are_seen_as_they_are(
    r: BatchRecordsResponse,
    status: u16,
    body: String,
    attempt: u32,
    e: ClientError,
)
    ensures
        PushReply::Accepted(r)@ == PushAnswer::Accepted(r),
        (PushReply::Refused { status, body })@ == PushAnswer::Refused(status, body@),
        PushReply::Lost(body)@ == PushAnswer::Lost(body@),
        PushStep::Send@ == PushVerdict::Send,
        PushStep::Retry(attempt)@ == PushVerdict::Retry(attempt as nat),
        PushStep::Done@ == PushVerdict::Done,
        PushStep::Failed(e)@ == PushVerdict::Failed(e@),
{
}

/// The texts of pairs are those of each, in order.
pub proof fn law_pairs_are_in_order(pairs: Seq<(String, String)>, i: int)
    ensures
        pair_texts(pairs).len() == pairs.len(),
        0 <= i < pairs.len() ==> pair_texts(pairs)[i] == (pairs[i].0@, pairs[i].1@),
{
}

/// A page is full where five thousand records are left from its start, and holds all that are left
/// otherwise.
pub proof fn law_pages_hold_what_is_left(records: Seq<IpRecordResponse>, offset: int)
    requires
        0 <= offset <= records.len(),
    ensures
        records.len() - offset >= 5_000 ==> page_of(records, offset) == records.subrange(
            offset,
            offset + 5_000,
        ),
        records.len() - offset < 5_000 ==> page_of(records, offset) == records.skip(offset),
{
    if records.len() - offset < 5_000 {
        assert(page_of(records, offset) =~= records.skip(offset));
    }
}

} // verus!
