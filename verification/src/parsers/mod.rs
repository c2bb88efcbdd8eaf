//! Extensible feed-parsing engine. [`FeedParser`] is the trait every parser algorithm implements;
//! new formats are added by implementing it, not by branching inside the ingestion job.

use vstd::prelude::*;

use crate::net;
use crate::text;

pub mod json_path;
pub mod regex_line;

verus! {

/// Failure modes when parsing a fetched feed body.
#[derive(Debug)]
pub enum ParseError {
    /// The parser configuration was present but not usable, or missing a required key.
    InvalidConfig(String),
    /// The feed body could not be read in the parser's format.
    MalformedBody(String),
}

/// What a [`ParseError`] says.
pub enum ParseFault {
    /// The parser configuration is not usable.
    InvalidConfig(Seq<char>),
    /// The feed body could not be read.
    MalformedBody(Seq<char>),
}

impl View for ParseError {
    type V = ParseFault;

    open spec fn view(&self) -> ParseFault {
        match self {
            ParseError::InvalidConfig(m) => ParseFault::InvalidConfig(m@),
            ParseError::MalformedBody(m) => ParseFault::MalformedBody(m@),
        }
    }
}

impl ParseFault {
    /// The text an operator reads.
    pub open spec fn text(self) -> Seq<char> {
        match self {
            ParseFault::InvalidConfig(m) => "invalid parser configuration: "@ + m,
            ParseFault::MalformedBody(m) => "malformed feed body: "@ + m,
        }
    }
}

impl ParseError {
    /// The text an operator reads.
    pub fn message(&self) -> (r: String)
        ensures
            r@ == self@.text(),
    {
        match self {
            ParseError::InvalidConfig(m) => {
                text::concat("invalid parser configuration: ", m.as_str())
            },
            ParseError::MalformedBody(m) => text::concat("malformed feed body: ", m.as_str()),
        }
    }
}

/// What the result of a parse says.
pub open spec fn outcome(r: Result<Vec<String>, ParseError>) -> Result<Seq<Seq<char>>, ParseFault> {
    match r {
        Ok(entries) => Ok(text::texts(entries@)),
        Err(e) => Err(e@),
    }
}

/// A pluggable algorithm turning a raw feed body into a list of normalized addresses and networks.
pub trait FeedParser {
    /// What this parser makes of a feed body under a configuration.
    spec fn parsed(&self, raw: Seq<u8>, config: Option<Seq<char>>) -> Result<
        Seq<Seq<char>>,
        ParseFault,
    >;

    /// Parses `raw`, using `config` to steer extraction. Duplicates are kept: callers remove them.
    fn parse(&self, raw: &[u8], config: Option<&str>) -> (r: Result<Vec<String>, ParseError>)
        ensures
            outcome(r) == self.parsed(raw@, text::optional(config)),
    ;
}

/// The canonical spelling of the address or network that `s` names: a single address is written
/// without a prefix, everything else keeps its prefix length.
pub open spec fn normalized(s: Seq<char>) -> Option<Seq<char>> {
    match net::network_named(text::trimmed(s)) {
        Some(network) => Some(
            if network.prefix == network.ip.spec_bits() {
                net::address_text(network.ip)
            } else {
                net::network_text(network)
            },
        ),
        None => None,
    }
}

/// Whether a text is the canonical spelling of the address or network that it names.
pub open spec fn is_canonical(s: Seq<char>) -> bool {
    normalized(s) == Some(s)
}

/// Whether all entries are canonical spellings.
pub open spec fn all_canonical(entries: Seq<Seq<char>>) -> bool {
    forall|i: int| 0 <= i < entries.len() ==> is_canonical(#[trigger] entries[i])
}

/// Normalizes an address or network to its canonical spelling, or gives nothing if `input` is
/// neither. A canonical spelling is given back as it is, and has a prefix only where that is shorter
/// than the address.
pub fn normalize_ip_or_cidr(input: &str) -> (r: Option<String>)
    ensures
        match r {
            Some(s) => normalized(input@) == Some(s@),
            None => normalized(input@) is None,
        },
        r matches Some(s) ==> is_canonical(s@),
        r is Some <==> net::network_named(text::trimmed(input@)) is Some,
        r matches Some(s) ==> net::network_named(s@) == net::network_named(text::trimmed(input@)),
        r matches Some(s) ==> (s@.contains('/') <==> {
            let network = net::network_named(text::trimmed(input@))->0;
            network.prefix < network.ip.spec_bits()
        }),
{
    match net::parse_network(text::trim(input)) {
        Some(network) => if network.prefix == network.ip.bits() {
            let s = net::address_string(network.ip);
            proof {
                text::lemma_trimmed_is_same(s@);
            }
            Some(s)
        } else {
            let s = net::network_string(network);
            proof {
                let head = net::address_text(network.ip);
                text::law_decimal_round_trip(network.prefix as nat);
                assert(s@[head.len() as int] == '/');
                assert(s@.first() == head[0]);
                text::lemma_trimmed_is_same(s@);
            }
            Some(s)
        },
        None => None,
    }
}

/// White space around an address or network does not matter.
pub proof fn law_normalizing_ignores_white_space_around(s: Seq<char>)
    ensures
        normalized(text::trimmed(s)) == normalized(s),
{
    text::law_trimming_is_stable(s);
}

/// Two spellings of the same network have the same canonical spelling.
pub proof fn law_normalized_is_canonical(a: Seq<char>, b: Seq<char>)
    requires
        net::network_named(text::trimmed(a)) == net::network_named(text::trimmed(b)),
    ensures
        normalized(a) == normalized(b),
{
}

/// What a candidate contributes: its canonical spelling, or nothing if it names no network.
pub open spec fn accepted(candidate: Seq<char>) -> Seq<Seq<char>> {
    match normalized(candidate) {
        Some(s) => seq![s],
        None => Seq::empty(),
    }
}

/// What the parts of a feed contribute, one after the other.
pub open spec fn gathered<A>(parts: Seq<A>, contribution: spec_fn(A) -> Seq<Seq<char>>) -> Seq<
    Seq<char>,
>
    decreases parts.len(),
{
    if parts.len() == 0 {
        Seq::empty()
    } else {
        gathered(parts.drop_last(), contribution) + contribution(parts.last())
    }
}

/// Gathering one part more adds its contribution at the end.
pub proof fn lemma_gathered_step<A>(
    parts: Seq<A>,
    contribution: spec_fn(A) -> Seq<Seq<char>>,
    i: int,
)
    requires
        0 <= i < parts.len(),
    ensures
        gathered(parts.take(i + 1), contribution) == gathered(parts.take(i), contribution)
            + contribution(parts[i]),
{
    assert(parts.take(i + 1).drop_last() =~= parts.take(i));
}

/// Appends the canonical spelling of `candidate` to `entries`, if it names a network.
pub(crate) fn accept(entries: &mut Vec<String>, candidate: &str)
    ensures
        text::texts(final(entries)@) == text::texts(old(entries)@) + accepted(candidate@),
        all_canonical(text::texts(old(entries)@)) ==> all_canonical(text::texts(final(entries)@)),
{
    let ghost before = text::texts(entries@);
    if let Some(s) = normalize_ip_or_cidr(candidate) {
        entries.push(s);
        assert(text::texts(entries@) =~= before + accepted(candidate@));
    } else {
        assert(text::texts(entries@) =~= before + accepted(candidate@));
    }
}

/// The parsers that this library provides.
#[derive(Clone, Copy, Debug, PartialEq, Eq, Structural)]
pub enum BuiltInParser {
    /// Line-by-line text feeds.
    RegexLine,
    /// Structured JSON feeds.
    JsonPath,
}

impl FeedParser for BuiltInParser {
    open spec fn parsed(&self, raw: Seq<u8>, config: Option<Seq<char>>) -> Result<
        Seq<Seq<char>>,
        ParseFault,
    > {
        match self {
            BuiltInParser::RegexLine => regex_line::RegexLineParser.parsed(raw, config),
            BuiltInParser::JsonPath => json_path::JsonPathParser.parsed(raw, config),
        }
    }

    fn parse(&self, raw: &[u8], config: Option<&str>) -> (r: Result<Vec<String>, ParseError>)
        ensures
            r matches Ok(entries) ==> all_canonical(text::texts(entries@)),
    {
        match self {
            BuiltInParser::RegexLine => regex_line::RegexLineParser.parse(raw, config),
            BuiltInParser::JsonPath => json_path::JsonPathParser.parse(raw, config),
        }
    }
}

/// Selects the parser for `parser_type`.
pub fn for_type(parser_type: &str) -> (r: Result<BuiltInParser, ParseError>)
    ensures
        match r {
            Ok(BuiltInParser::RegexLine) => parser_type@ == "REGEX_LINE"@,
            Ok(BuiltInParser::JsonPath) => parser_type@ == "JSON_PATH"@,
            Err(e) => parser_type@ != "REGEX_LINE"@ && parser_type@ != "JSON_PATH"@ && e@
                == ParseFault::InvalidConfig("unknown parser_type '"@ + parser_type@ + "'"@),
        },
{
    if text::same_text(parser_type, "REGEX_LINE") {
        Ok(BuiltInParser::RegexLine)
    } else if text::same_text(parser_type, "JSON_PATH") {
        Ok(BuiltInParser::JsonPath)
    } else {
        Err(ParseError::InvalidConfig(text::concat3("unknown parser_type '", parser_type, "'")))
    }
}

/// Whatever names a network is normalized, and nothing else is; and where the network is read back
/// from what it is written as, the canonical spelling names the same network.
pub proof fn law_whatever_names_a_network_is_normalized(s: Seq<char>, network: net::IpNetwork)
    ensures
        normalized(s) is Some <==> net::network_named(text::trimmed(s)) is Some,
        net::network_named(text::trimmed(s)) == Some(network) && net::reads_back(network)
            && network.well_formed() ==> net::network_named(normalized(s)->0) == Some(network),
{
    if network.prefix == network.ip.spec_bits() {
        assert(network == net::IpNetwork::single_spec(network.ip));
    }
}

/// A single address is spelled as the address, every other network as its address, a slash and its
/// prefix length.
pub proof fn law_canonical_spellings(s: Seq<char>, network: net::IpNetwork)
    requires
        net::network_named(text::trimmed(s)) == Some(network),
    ensures
        network.ip is V4 && network.prefix == 32 ==> normalized(s) == Some(
            net::address_text(network.ip),
        ),
        network.ip is V6 && network.prefix == 128 ==> normalized(s) == Some(
            net::address_text(network.ip),
        ),
        (network.ip is V4 && network.prefix != 32) || (network.ip is V6 && network.prefix != 128)
            ==> normalized(s) == Some(
            net::address_text(network.ip) + seq!['/'] + text::decimal(network.prefix as nat),
        ),
{
    assert(net::address_text(network.ip).push('/') =~= net::address_text(network.ip) + seq!['/']);
}

/// A candidate gives its canonical spelling, once, exactly where it names a network.
pub proof fn law_candidates_give_their_spelling(candidate: Seq<char>)
    ensures
        accepted(candidate).len() == if net::network_named(text::trimmed(candidate)) is Some {
            1int
        } else {
            0int
        },
        normalized(candidate) matches Some(s) ==> accepted(candidate) == seq![s],
{
}

/// What is gathered is what the parts contribute, in the order of the parts and with nothing left
/// out.
pub proof fn law_gathering_leaves_nothing_out<A>(
    before: Seq<A>,
    part: A,
    after: Seq<A>,
    contribution: spec_fn(A) -> Seq<Seq<char>>,
)
    ensures
        gathered(Seq::<A>::empty(), contribution).len() == 0,
        gathered(seq![part], contribution) == contribution(part),
        gathered(before + after, contribution) == gathered(before, contribution) + gathered(
            after,
            contribution,
        ),
    decreases after.len(),
{
    assert(seq![part].drop_last() =~= Seq::<A>::empty());
    assert(gathered(seq![part], contribution) =~= contribution(part)) by {
        assert(gathered(seq![part].drop_last(), contribution) =~= Seq::<Seq<char>>::empty());
        assert(seq![part].last() == part);
    }
    if after.len() == 0 {
        assert(before + after =~= before);
        assert(gathered(before, contribution) + gathered(after, contribution) =~= gathered(
            before,
            contribution,
        ));
    } else {
        law_gathering_leaves_nothing_out(before, part, after.drop_last(), contribution);
        assert((before + after).drop_last() =~= before + after.drop_last());
        assert((before + after).last() == after.last());
        assert(gathered(before + after, contribution) =~= gathered(before, contribution)
            + gathered(after, contribution));
    }
}

/// A built-in parser parses as the parser of its kind does.
pub proof fn law_built_in_parsers(raw: Seq<u8>, config: Option<Seq<char>>)
    ensures
        BuiltInParser::RegexLine.parsed(raw, config) == regex_line::RegexLineParser.parsed(
            raw,
            config,
        ),
        BuiltInParser::JsonPath.parsed(raw, config) == json_path::JsonPathParser.parsed(raw, config),
{
}

/// What an operator reads says whether the configuration or the body is at fault, and why.
pub proof fn law_parse_errors_say_what_is_wrong(e: ParseError, m: String)
    ensures
        e == ParseError::InvalidConfig(m) ==> e@.text() == "invalid parser configuration: "@ + m@,
        e == ParseError::MalformedBody(m) ==> e@.text() == "malformed feed body: "@ + m@,
{
}

/// The outcome of a parse is what it gave, or what it said against the feed.
pub proof fn law_outcomes_are_what_was_given(
    r: Result<Vec<String>, ParseError>,
    entries: Vec<String>,
    e: ParseError,
)
    ensures
        r == Ok::<Vec<String>, ParseError>(entries) ==> outcome(r) == Ok::<
            Seq<Seq<char>>,
            ParseFault,
        >(text::texts(entries@)),
        r == Err::<Vec<String>, ParseError>(e) ==> outcome(r) == Err::<Seq<Seq<char>>, ParseFault>(
            e@,
        ),
{
}

/// A text is canonical exactly where normalizing leaves it as it is.
pub proof fn law_what_is_canonical(s: Seq<char>)
    ensures
        is_canonical(s) <==> normalized(s) is Some && normalized(s)->0 == s,
{
}

} // verus!
