//! External threat feed ingestion: fetch, decompress, parse, deduplicate, chunk, and push to every
//! configured target vault.

use vstd::hash_set::StringHashSet;
use vstd::prelude::*;
use vstd::utf8::*;

use crate::client::BatchRecordInput;
use crate::entities::external_source;
use crate::jobs;
use crate::jobs::decompress;
use crate::jobs::decompress::{decompress_if_zip, DecompressError};
use crate::jobs::{chunk_records, MAX_BATCH_SIZE};
use crate::json;
use crate::json::{Json, JsonValue};
use crate::parsers;
use crate::parsers::{BuiltInParser, FeedParser};
use crate::retry;
use crate::text;
use crate::time::Timestamp;

verus! {

// ---------------------------------------------------------------------------
// Fetching
// ---------------------------------------------------------------------------
/// How a feed is asked for: two generic keys of the parser configuration that the ingestion job
/// reads itself, whatever keys the parser expects.
#[derive(Debug)]
pub struct FetchOptions {
    /// Value of the `User-Agent` header.
    pub user_agent: Option<String>,
    /// Further headers.
    pub headers: Vec<(String, String)>,
}

/// What [`FetchOptions`] say.
#[verifier::ext_equal]
pub struct FetchView {
    /// Value of the `User-Agent` header.
    pub user_agent: Option<Seq<char>>,
    /// Further headers.
    pub headers: Seq<(Seq<char>, Seq<char>)>,
}

impl View for FetchOptions {
    type V = FetchView;

    open spec fn view(&self) -> FetchView {
        FetchView {
            user_agent: match self.user_agent {
                Some(agent) => Some(agent@),
                None => None,
            },
            headers: crate::client::pair_texts(self.headers@),
        }
    }
}

/// The entries of an object whose values are strings.
pub open spec fn text_entries(entries: Seq<(Seq<char>, Json)>) -> Seq<(Seq<char>, Seq<char>)>
    decreases entries.len(),
{
    if entries.len() == 0 {
        Seq::empty()
    } else {
        let before = text_entries(entries.drop_last());
        match entries.last().1 {
            Json::Text(value) => before.push((entries.last().0, value)),
            _ => before,
        }
    }
}

/// The options that a document gives: none unless it is an object.
pub open spec fn options_in(document: Json) -> FetchView {
    FetchView {
        user_agent: match document.field("user_agent"@) {
            Some(value) => value.as_text(),
            None => None,
        },
        headers: match document.field("headers"@) {
            Some(Json::Object(entries)) => text_entries(entries),
            _ => Seq::empty(),
        },
    }
}

/// The options that a parser configuration gives.
pub open spec fn fetch_options(config: Option<Seq<char>>) -> FetchView {
    let none = FetchView { user_agent: None, headers: Seq::empty() };
    match config {
        Some(config) => match json::document(encode_utf8(config)) {
            Ok(document) => options_in(document),
            Err(_) => none,
        },
        None => none,
    }
}

impl FetchOptions {
    /// No options.
    pub fn none() -> (r: Self)
        ensures
            r@ == (FetchView { user_agent: None, headers: Seq::empty() }),
    {
        let r = FetchOptions { user_agent: None, headers: Vec::new() };
        assert(r@.headers =~= Seq::empty());
        r
    }

    /// Reads the options from a document.
    pub fn from_document(document: &JsonValue) -> (r: Self)
        ensures
            r@ == options_in(document@),
    {
        reveal_with_fuel(<JsonValue as View>::view, 2);
        let user_agent = match document.get("user_agent") {
            Some(value) => match value.as_str() {
                Some(agent) => Some(agent.to_owned()),
                None => None,
            },
            None => None,
        };
        let mut headers: Vec<(String, String)> = Vec::new();
        if let Some(JsonValue::Object(entries)) = document.get("headers") {
            let ghost parts = JsonValue::Object(*entries)@->Object_0;
            assert(crate::client::pair_texts(headers@) =~= text_entries(parts.take(0)));
            for i in 0..entries.len()
                invariant
                    parts.len() == entries@.len(),
                    forall|j: int|
                        0 <= j < entries@.len() ==> ((#[trigger] entries@[j]).0@, entries@[j].1@)
                            == parts[j],
                    crate::client::pair_texts(headers@) == text_entries(parts.take(i as int)),
            {
                assert(parts.take(i + 1).drop_last() =~= parts.take(i as int));
                assert((entries@[i as int].0@, entries@[i as int].1@) == parts[i as int]);
                let ghost before = crate::client::pair_texts(headers@);
                if let Some(value) = entries[i].1.as_str() {
                    headers.push((entries[i].0.clone(), value.to_owned()));
                    assert(crate::client::pair_texts(headers@) =~= before.push(
                        (entries@[i as int].0@, value@),
                    ));
                }
            }
            assert(parts.take(parts.len() as int) =~= parts);
        }
        assert(headers@.len() == 0 ==> crate::client::pair_texts(headers@) =~= Seq::empty());
        FetchOptions { user_agent, headers }
    }

    /// Reads the options from a parser configuration. What is not an object gives none.
    pub fn from_config(config: Option<&str>) -> (r: Self)
        ensures
            r@ == fetch_options(text::optional(config)),
    {
        match config {
            Some(config) => match json::parse(config.as_bytes()) {
                Ok(document) => Self::from_document(&document),
                Err(_) => Self::none(),
            },
            None => Self::none(),
        }
    }
}

/// What became of a request for a feed.
#[derive(Debug)]
pub enum FetchReply {
    /// The host answered.
    Answered {
        /// The status code.
        status: u16,
        /// The status as text.
        status_text: String,
    },
    /// No answer came.
    Lost(String),
}

/// What to do after a reply.
#[derive(Debug)]
pub enum FetchStep {
    /// Read the body.
    Read,
    /// Wait for the backoff of this attempt, then ask again.
    Retry(u32),
    /// Give up.
    Fail(String),
}

/// Whether a reply brings the feed.
pub open spec fn is_fetched(reply: FetchReply) -> bool {
    match reply {
        FetchReply::Answered { status, .. } => 200 <= status <= 299,
        FetchReply::Lost(_) => false,
    }
}

/// Whether the feed is asked for again after a reply.
pub open spec fn is_fetched_again(reply: FetchReply, attempt: u32, max_retries: u32) -> bool {
    match reply {
        FetchReply::Answered { status, .. } => retry::is_transient(status) && attempt < max_retries,
        FetchReply::Lost(_) => false,
    }
}

/// A feed is read exactly where the host answers with a success, and asked for again exactly where it
/// is busy and retries are left.
pub proof fn law_feeds_are_asked_for_again_while_the_host_is_busy(
    reply: FetchReply,
    status: u16,
    status_text: String,
    attempt: u32,
    max_retries: u32,
)
    ensures
        reply is Lost ==> !is_fetched(reply) && !is_fetched_again(reply, attempt, max_retries),
        reply == (FetchReply::Answered { status, status_text }) ==> {
            &&& is_fetched(reply) <==> status / 100 == 2
            &&& is_fetched_again(reply, attempt, max_retries) <==> attempt < max_retries && (status
                == 429 || status == 502 || status == 503 || status == 504)
        },
{
}

/// Decides what to do after a reply, when `attempt` retries were made already.
pub fn fetch_step(reply: &FetchReply, attempt: u32, max_retries: u32) -> (step: FetchStep)
    ensures
        match reply {
            FetchReply::Lost(m) => step is Fail && step->Fail_0@ == "fetch failed: "@ + m@,
            FetchReply::Answered { status, status_text } => if 200 <= *status <= 299 {
                step is Read
            } else if retry::is_transient(*status) && attempt < max_retries {
                step == FetchStep::Retry((attempt + 1) as u32)
            } else {
                step is Fail && step->Fail_0@ == "fetch returned status "@ + status_text@
            },
        },
        step is Read <==> is_fetched(*reply),
        step is Retry <==> is_fetched_again(*reply, attempt, max_retries),
{
    match reply {
        FetchReply::Lost(m) => FetchStep::Fail(text::concat("fetch failed: ", m.as_str())),
        FetchReply::Answered { status, status_text } => if 200 <= *status && *status <= 299 {
            FetchStep::Read
        } else if retry::is_transient_status(*status) && attempt < max_retries {
            FetchStep::Retry(attempt + 1)
        } else {
            FetchStep::Fail(text::concat("fetch returned status ", status_text.as_str()))
        },
    }
}

/// What is said of a body that could not be read.
pub fn body_failure(e: &DecompressError) -> (message: String)
    ensures
        message@ == "failed to read response body: "@ + e@.text(),
{
    text::concat("failed to read response body: ", e.message().as_str())
}

// ---------------------------------------------------------------------------
// From body to batches
// ---------------------------------------------------------------------------
/// `entries` without those that stood earlier already.
pub open spec fn deduplicated(entries: Seq<Seq<char>>) -> Seq<Seq<char>>
    decreases entries.len(),
{
    if entries.len() == 0 {
        Seq::empty()
    } else {
        let before = deduplicated(entries.drop_last());
        if before.contains(entries.last()) {
            before
        } else {
            before.push(entries.last())
        }
    }
}

/// Removes every entry that stood earlier already.
pub fn deduplicate(entries: Vec<String>) -> (r: Vec<String>)
    ensures
        text::texts(r@) == deduplicated(text::texts(entries@)),
{
    let ghost all = text::texts(entries@);
    let mut seen = StringHashSet::new();
    let mut r: Vec<String> = Vec::new();
    assert(text::texts(r@) =~= deduplicated(all.take(0)));
    for i in 0..entries.len()
        invariant
            all == text::texts(entries@),
            text::texts(r@) == deduplicated(all.take(i as int)),
            forall|t: Seq<char>| seen@.contains(t) <==> text::texts(r@).contains(t),
    {
        assert(all.take(i + 1).drop_last() =~= all.take(i as int));
        let ghost before = text::texts(r@);
        let entry = entries[i].clone();
        if !seen.contains(entry.as_str()) {
            seen.insert(entry.clone());
            let ghost t = entry@;
            r.push(entry);
            assert(text::texts(r@) =~= before.push(t));
            assert forall|u: Seq<char>| seen@.contains(u) <==> text::texts(r@).contains(u) by {
                if u == t {
                    assert(text::texts(r@)[before.len() as int] == t);
                } else if before.contains(u) {
                    let k = before.index_of(u);
                    assert(text::texts(r@)[k] == u);
                } else if text::texts(r@).contains(u) {
                    let k = text::texts(r@).index_of(u);
                    assert(before[k] == u);
                }
            }
        }
    }
    assert(all.take(all.len() as int) =~= all);
    r
}

/// Nothing occurs twice once duplicates are removed.
pub proof fn law_deduplicated_has_no_duplicates(entries: Seq<Seq<char>>)
    ensures
        deduplicated(entries).no_duplicates(),
    decreases entries.len(),
{
    if entries.len() > 0 {
        law_deduplicated_has_no_duplicates(entries.drop_last());
        let before = deduplicated(entries.drop_last());
        let after = deduplicated(entries);
        assert forall|i: int, j: int|
            0 <= i < after.len() && 0 <= j < after.len() && i != j implies after[i] != after[j] by {
            if after.len() > before.len() {
                if i == before.len() {
                    assert(before.contains(before[j]));
                } else if j == before.len() {
                    assert(before.contains(before[i]));
                }
            }
        }
    }
}

/// Removing duplicates keeps one of each entry and adds nothing.
pub proof fn law_deduplicated_keeps_every_entry(entries: Seq<Seq<char>>, entry: Seq<char>)
    ensures
        deduplicated(entries).contains(entry) <==> entries.contains(entry),
    decreases entries.len(),
{
    if entries.len() > 0 {
        let shorter = entries.drop_last();
        let before = deduplicated(shorter);
        let after = deduplicated(entries);
        law_deduplicated_keeps_every_entry(shorter, entry);
        assert(entries.contains(entry) <==> shorter.contains(entry) || entries.last() == entry)
            by {
            if entries.contains(entry) {
                let k = entries.index_of(entry);
                if k < shorter.len() {
                    assert(shorter[k] == entry);
                }
            }
            if shorter.contains(entry) {
                let k = shorter.index_of(entry);
                assert(entries[k] == entry);
            }
            if entries.last() == entry {
                assert(entries[entries.len() - 1] == entry);
            }
        }
        if !before.contains(entries.last()) {
            assert(after.contains(entry) <==> before.contains(entry) || entries.last() == entry)
                by {
                if after.contains(entry) {
                    let k = after.index_of(entry);
                    if k < before.len() {
                        assert(before[k] == entry);
                    }
                }
                if before.contains(entry) {
                    let k = before.index_of(entry);
                    assert(after[k] == entry);
                }
                if entries.last() == entry {
                    assert(after[before.len() as int] == entry);
                }
            }
        }
    }
}

/// Entries in which nothing occurs twice are left as they are.
pub proof fn law_deduplicated_is_stable(entries: Seq<Seq<char>>)
    requires
        entries.no_duplicates(),
    ensures
        deduplicated(entries) == entries,
    decreases entries.len(),
{
    if entries.len() > 0 {
        let shorter = entries.drop_last();
        law_deduplicated_is_stable(shorter);
        if shorter.contains(entries.last()) {
            let k = shorter.index_of(entries.last());
            assert(entries[k] == entries[entries.len() - 1]);
        }
        assert(shorter.push(entries.last()) =~= entries);
    } else {
        assert(deduplicated(entries) =~= entries);
    }
}

/// What a parser makes of a feed body.
pub open spec fn parsed_by_type(
    parser_type: Seq<char>,
    body: Seq<u8>,
    config: Option<Seq<char>>,
) -> Result<Seq<Seq<char>>, parsers::ParseFault> {
    if parser_type == "REGEX_LINE"@ {
        BuiltInParser::RegexLine.parsed(body, config)
    } else if parser_type == "JSON_PATH"@ {
        BuiltInParser::JsonPath.parsed(body, config)
    } else {
        Err(parsers::ParseFault::InvalidConfig("unknown parser_type '"@ + parser_type + "'"@))
    }
}

/// What the records of a fetched body are, or what is said where there are none.
pub open spec fn feed_entries(
    parser_type: Seq<char>,
    config: Option<Seq<char>>,
    body: Seq<u8>,
    max_decompressed_bytes: u64,
) -> Result<Seq<Seq<char>>, Seq<char>> {
    match decompress::decompressed(body, max_decompressed_bytes) {
        Err(fault) => Err(fault.text()),
        Ok(body) => match parsed_by_type(parser_type, body, config) {
            Err(fault) => Err(fault.text()),
            Ok(entries) => Ok(deduplicated(entries)),
        },
    }
}

/// The batches of one feed.
#[derive(Debug)]
pub struct FeedBatches {
    /// How many records there are.
    pub items: usize,
    /// The records in chunks.
    pub chunks: Vec<Vec<String>>,
}

/// The texts of chunks of strings.
pub open spec fn chunk_texts(chunks: Seq<Vec<String>>) -> Seq<Seq<Seq<char>>> {
    Seq::new(chunks.len(), |i: int| text::texts(chunks[i]@))
}

/// Chunking strings chunks their texts.
proof fn lemma_chunk_texts(items: Seq<String>, max: nat, chunks: Seq<Vec<String>>)
    requires
        jobs::contents(chunks) == jobs::chunked(items, max),
    ensures
        chunk_texts(chunks) == jobs::chunked(text::texts(items), max),
{
    lemma_texts_of_chunks(items, max);
    let left = chunk_texts(chunks);
    let right = jobs::chunked(text::texts(items), max);
    assert(chunks.len() == jobs::contents(chunks).len());
    assert forall|i: int| 0 <= i < left.len() implies left[i] == right[i] by {
        assert(jobs::contents(chunks)[i] == chunks[i]@);
    }
    assert(left =~= right);
}

/// The texts of a chunk are a chunk of the texts.
proof fn lemma_texts_of_chunks(items: Seq<String>, max: nat)
    ensures
        jobs::chunked(items, max).len() == jobs::chunked(text::texts(items), max).len(),
        forall|i: int|
            0 <= i < jobs::chunked(items, max).len() ==> text::texts(
                #[trigger] jobs::chunked(items, max)[i],
            ) == jobs::chunked(text::texts(items), max)[i],
    decreases items.len(),
{
    if items.len() > max && max > 0 {
        let rest = items.skip(max as int);
        lemma_texts_of_chunks(rest, max);
        assert(text::texts(items).skip(max as int) =~= text::texts(rest));
        assert(text::texts(items).take(max as int) =~= text::texts(items.take(max as int)));
        let left = jobs::chunked(items, max);
        let right = jobs::chunked(text::texts(items), max);
        assert forall|i: int| 0 <= i < left.len() implies text::texts(#[trigger] left[i])
            == right[i] by {
            if i > 0 {
                assert(left[i] == jobs::chunked(rest, max)[i - 1]);
                assert(right[i] == jobs::chunked(text::texts(rest), max)[i - 1]);
            }
        }
    }
}

/// Decompresses, parses, deduplicates and chunks a fetched feed body. Every record is the canonical
/// spelling of an address or network.
pub fn prepare(source: &external_source::Model, body: &[u8], max_decompressed_bytes: u64) -> (r:
    Result<FeedBatches, String>)
    ensures
        match feed_entries(
            source.parser_type@,
            match source.parser_config_json {
                Some(config) => Some(config@),
                None => None,
            },
            body@,
            max_decompressed_bytes,
        ) {
            Ok(entries) => {
                &&& r is Ok
                &&& r->Ok_0.items == entries.len()
                &&& chunk_texts(r->Ok_0.chunks@) == jobs::chunked(entries, MAX_BATCH_SIZE as nat)
                &&& parsers::all_canonical(entries)
            },
            Err(message) => r is Err && r->Err_0@ == message,
        },
{
    let body = match decompress_if_zip(body, max_decompressed_bytes) {
        Ok(body) => body,
        Err(e) => return Err(e.message()),
    };
    proof {
        reveal_strlit("REGEX_LINE");
        reveal_strlit("JSON_PATH");
        assert("REGEX_LINE"@.len() != "JSON_PATH"@.len());
    }
    let parser = match parsers::for_type(source.parser_type.as_str()) {
        Ok(parser) => parser,
        Err(e) => return Err(e.message()),
    };
    let config: Option<&str> = match &source.parser_config_json {
        Some(config) => Some(config.as_str()),
        None => None,
    };
    let entries = match parser.parse(body.as_slice(), config) {
        Ok(entries) => entries,
        Err(e) => return Err(e.message()),
    };
    let ghost parsed = text::texts(entries@);
    let entries = deduplicate(entries);
    let ghost kept = text::texts(entries@);
    let ghost before = entries@;
    let items: usize = entries.len();
    let chunks = chunk_records(entries, MAX_BATCH_SIZE);
    proof {
        lemma_chunk_texts(before, MAX_BATCH_SIZE as nat, chunks@);
        assert forall|i: int| 0 <= i < kept.len() implies parsers::is_canonical(
            #[trigger] kept[i],
        ) by {
            assert(kept.contains(kept[i]));
            law_deduplicated_keeps_every_entry(parsed, kept[i]);
            let k = parsed.index_of(kept[i]);
            assert(parsed[k] == kept[i]);
        }
    }
    Ok(FeedBatches { items, chunks })
}

/// The record that an address or network from a feed is sent as.
pub open spec fn is_feed_record(record: BatchRecordInput, address: String) -> bool {
    &&& record.target_address == address
    &&& record.cause is None
    &&& record.is_deleted is None
    &&& record.created_at is None
    &&& record.updated_at is None
    &&& record.last_seen_at is None
    &&& record.deleted_at is None
}

/// The records that a chunk is sent as.
pub fn feed_records(chunk: &Vec<String>) -> (records: Vec<BatchRecordInput>)
    ensures
        records@.len() == chunk@.len(),
        forall|i: int|
            0 <= i < chunk@.len() ==> is_feed_record(#[trigger] records@[i], chunk@[i]),
{
    let mut records: Vec<BatchRecordInput> = Vec::new();
    for i in 0..chunk.len()
        invariant
            records@.len() == i,
            forall|j: int| 0 <= j < i ==> is_feed_record(#[trigger] records@[j], chunk@[j]),
    {
        records.push(
            BatchRecordInput {
                target_address: chunk[i].clone(),
                cause: None,
                is_deleted: None,
                created_at: None,
                updated_at: None,
                last_seen_at: None,
                deleted_at: None,
            },
        );
    }
    records
}

/// Whether `after` is `source` after a run that started at `started_at`.
pub open spec fn is_after_run(
    after: external_source::Model,
    source: external_source::Model,
    started_at: Timestamp,
) -> bool {
    after == (external_source::Model { last_run_at: Some(started_at), ..source })
}

/// A run is noted with the time it started at, and changes nothing else of its source.
pub proof fn law_runs_are_noted(
    after: external_source::Model,
    source: external_source::Model,
    started_at: Timestamp,
)
    requires
        is_after_run(after, source, started_at),
    ensures
        after.last_run_at == Some(started_at),
        source == (external_source::Model { last_run_at: source.last_run_at, ..after }),
{
}

/// The source after a run that started at `started_at`. The last run is the last that ran, not the
/// last that succeeded.
pub fn record_run(source: external_source::Model, started_at: Timestamp) -> (r:
    external_source::Model)
    ensures
        r == (external_source::Model { last_run_at: Some(started_at), ..source }),
        is_after_run(r, source, started_at),
{
    external_source::Model { last_run_at: Some(started_at), ..source }
}

/// The headers are the entries whose values are strings, in order.
pub proof fn law_headers_are_the_text_entries(entries: Seq<(Seq<char>, Json)>)
    ensures
        text_entries(entries) == entries.filter_map(
            |entry: (Seq<char>, Json)|
                match entry.1 {
                    Json::Text(value) => Some((entry.0, value)),
                    _ => None,
                },
        ),
    decreases entries.len(),
{
    if entries.len() > 0 {
        law_headers_are_the_text_entries(entries.drop_last());
        let before = text_entries(entries.drop_last());
        assert(before + Seq::<(Seq<char>, Seq<char>)>::empty() =~= before);
    }
}

/// A feed is asked for as its configuration says: with the `user_agent` that is a string, and with the
/// `headers` of an object; what is no JSON, or says neither, adds nothing.
pub proof fn law_feeds_are_asked_for_as_configured(
    config: Seq<char>,
    document: Json,
    agent: Seq<char>,
    entries: Seq<(Seq<char>, Json)>,
)
    ensures
        fetch_options(None).user_agent is None,
        fetch_options(None).headers.len() == 0,
        json::document(encode_utf8(config)) is Err ==> fetch_options(Some(config)).user_agent is None
            && fetch_options(Some(config)).headers.len() == 0,
        json::document(encode_utf8(config)) == Ok::<Json, Seq<char>>(document) ==> {
            &&& document.field("user_agent"@) == Some(Json::Text(agent)) ==> fetch_options(
                Some(config),
            ).user_agent == Some(agent)
            &&& document.field("user_agent"@) is None ==> fetch_options(
                Some(config),
            ).user_agent is None
            &&& document.field("headers"@) == Some(Json::Object(entries)) ==> fetch_options(
                Some(config),
            ).headers == text_entries(entries)
            &&& document.field("headers"@) is None ==> fetch_options(Some(config)).headers.len()
                == 0
        },
{
}

/// Of each entry the first stays, in its place among those that stay.
pub proof fn law_the_first_of_each_entry_stays(before: Seq<Seq<char>>, entry: Seq<char>)
    ensures
        deduplicated(Seq::empty()).len() == 0,
        before.contains(entry) ==> deduplicated(before.push(entry)) == deduplicated(before),
        !before.contains(entry) ==> deduplicated(before.push(entry)) == deduplicated(before).push(
            entry,
        ),
{
    assert(before.push(entry).drop_last() =~= before);
    law_deduplicated_keeps_every_entry(before, entry);
}

/// A feed is parsed by the parser that its source names, and refused where that names none.
pub proof fn law_feeds_are_parsed_by_the_named_parser(
    parser_type: Seq<char>,
    body: Seq<u8>,
    config: Option<Seq<char>>,
)
    ensures
        parsed_by_type("REGEX_LINE"@, body, config) == parsers::regex_line::RegexLineParser.parsed(
            body,
            config,
        ),
        parsed_by_type("JSON_PATH"@, body, config) == parsers::json_path::JsonPathParser.parsed(
            body,
            config,
        ),
        parser_type != "REGEX_LINE"@ && parser_type != "JSON_PATH"@ ==> parsed_by_type(
            parser_type,
            body,
            config,
        ) is Err,
{
    reveal_strlit("REGEX_LINE");
    reveal_strlit("JSON_PATH");
    assert("REGEX_LINE"@.len() != "JSON_PATH"@.len());
}

/// The records of a feed are what its parser finds in it, each once; an archive is read for what it
/// unpacks to, and whatever stands against the body or its contents is said.
pub proof fn law_feeds_give_what_their_parser_finds(
    parser_type: Seq<char>,
    config: Option<Seq<char>>,
    body: Seq<u8>,
    max: u64,
    entry: Seq<char>,
)
    ensures
        ({
            let unpacked = decompress::decompressed(body, max);
            let parsed = parsed_by_type(parser_type, unpacked->Ok_0, config);
            let found = feed_entries(parser_type, config, body, max);
            &&& found is Ok <==> unpacked is Ok && parsed is Ok
            &&& found is Ok ==> found->Ok_0.no_duplicates() && (found->Ok_0.contains(entry)
                <==> parsed->Ok_0.contains(entry))
            &&& unpacked is Err ==> found == Err::<Seq<Seq<char>>, Seq<char>>(
                unpacked->Err_0.text(),
            )
            &&& unpacked is Ok && parsed is Err ==> found == Err::<Seq<Seq<char>>, Seq<char>>(
                parsed->Err_0.text(),
            )
            &&& !decompress::has_zip_magic(body) ==> unpacked == Ok::<
                Seq<u8>,
                decompress::DecompressFault,
            >(body)
        }),
{
    let unpacked = decompress::decompressed(body, max);
    let parsed = parsed_by_type(parser_type, unpacked->Ok_0, config);
    law_deduplicated_has_no_duplicates(parsed->Ok_0);
    law_deduplicated_keeps_every_entry(parsed->Ok_0, entry);
}

/// What a feed names is sent as live and without times of its own, which are the vault's to give.
pub proof fn law_feed_records_are_live(record: BatchRecordInput, address: String)
    requires
        is_feed_record(record, address),
    ensures
        record.target_address@ == address@,
        record.is_deleted != Some(true),
        record.deleted_at is None,
        record.cause is None,
        record.created_at is None && record.updated_at is None && record.last_seen_at is None,
{
}

} // verus!
