//! `REGEX_LINE` parser: line-by-line text feeds. Strips comment lines and extracts addresses and
//! networks.
//!
//! The body is decoded lossily: bytes that are not UTF-8 become replacement characters, which are
//! part of no address, so an encoding fault stays local to the text it corrupted.

use vstd::prelude::*;

use crate::parsers::{accept, FeedParser, ParseError};
use crate::parsers;
use crate::text;

verus! {

/// What an address or network looks like inside a line: permissive, because every match is parsed
/// afterwards.
pub const IP_TOKEN_PATTERN: &'static str =
    "(?:[0-9]{1,3}\\.[0-9]{1,3}\\.[0-9]{1,3}\\.[0-9]{1,3}(?:/[0-9]{1,2})?)|(?:[0-9a-fA-F:]{2,}(?:/[0-9]{1,3})?)";

/// `regex::Regex` as an opaque type.
#[verifier::external_type_specification]
#[verifier::external_body]
pub struct ExRegex(regex::Regex);

/// The pattern that a regular expression was compiled from.
pub uninterp spec fn regex_pattern(re: regex::Regex) -> Seq<char>;

/// The texts of the successive non-overlapping matches of a pattern.
pub uninterp spec fn regex_matches(pattern: Seq<char>, haystack: Seq<char>) -> Seq<Seq<char>>;

/// Calls `Regex::new`. The address pattern keeps to the crate's syntax and its size limit, so it
/// compiles.
#[verifier::external_body]
fn compile(pattern: &str) -> (r: Option<regex::Regex>)
    ensures
        r matches Some(re) ==> regex_pattern(re) == pattern@,
        pattern@ == IP_TOKEN_PATTERN@ ==> r is Some,
{
    regex::Regex::new(pattern).ok()
}

/// Calls `Regex::find_iter` and collects the matched texts. They are a function of the pattern and the
/// text that is searched.
#[verifier::external_body]
fn find_all(re: &regex::Regex, haystack: &str) -> (r: Vec<String>)
    ensures
        text::texts(r@) == regex_matches(regex_pattern(*re), haystack@),
{
    re.find_iter(haystack).map(|m| m.as_str().to_owned()).collect()
}

/// Whether a trimmed line holds no entries: blank, or a comment.
pub open spec fn is_skipped(line: Seq<char>) -> bool {
    ||| line.len() == 0
    ||| line.first() == '#'
    ||| line.first() == ';'
    ||| text::has_prefix(line, "//"@)
}

/// The candidates of a line.
pub open spec fn candidates(line: Seq<char>) -> Seq<Seq<char>> {
    if is_skipped(text::trimmed(line)) {
        Seq::empty()
    } else {
        regex_matches(IP_TOKEN_PATTERN@, text::trimmed(line))
    }
}

/// What a line contributes.
pub open spec fn line_entries(line: Seq<char>) -> Seq<Seq<char>> {
    parsers::gathered(candidates(line), |c: Seq<char>| parsers::accepted(c))
}

/// Whether a trimmed line holds no entries.
fn skipped(line: &str) -> (b: bool)
    ensures
        b == is_skipped(line@),
{
    if line.is_empty() {
        return true;
    }
    let first = line.get_char(0);
    first == '#' || first == ';' || text::strip_prefix(line, "//").is_some()
}

/// Appends the canonical spellings of the candidates that name networks.
pub fn accept_all(entries: &mut Vec<String>, found: &Vec<String>)
    ensures
        text::texts(final(entries)@) == text::texts(old(entries)@) + parsers::gathered(
            text::texts(found@),
            |c: Seq<char>| parsers::accepted(c),
        ),
        parsers::all_canonical(text::texts(old(entries)@)) ==> parsers::all_canonical(
            text::texts(final(entries)@),
        ),
{
    let ghost start = text::texts(entries@);
    let ghost all = text::texts(found@);
    let ghost contribution = |c: Seq<char>| parsers::accepted(c);
    assert(start + parsers::gathered(all.take(0), contribution) =~= start);
    for i in 0..found.len()
        invariant
            all == text::texts(found@),
            contribution == (|c: Seq<char>| parsers::accepted(c)),
            text::texts(entries@) == start + parsers::gathered(all.take(i as int), contribution),
            parsers::all_canonical(start) ==> parsers::all_canonical(text::texts(entries@)),
    {
        accept(entries, found[i].as_str());
        proof {
            parsers::lemma_gathered_step(all, contribution, i as int);
            assert(text::texts(entries@) =~= start + parsers::gathered(
                all.take(i + 1),
                contribution,
            ));
        }
    }
    assert(all.take(all.len() as int) =~= all);
}

/// Parses newline-delimited text, stripping comment lines and extracting any number of addresses
/// and networks per remaining line.
pub struct RegexLineParser;

impl FeedParser for RegexLineParser {
    /// Every line contributes its entries, whatever the configuration is.
    open spec fn parsed(&self, raw: Seq<u8>, config: Option<Seq<char>>) -> Result<
        Seq<Seq<char>>,
        parsers::ParseFault,
    > {
        Ok(
            parsers::gathered(
                text::lines(text::lossy_text(raw)),
                |line: Seq<char>| line_entries(line),
            ),
        )
    }

    fn parse(&self, raw: &[u8], config: Option<&str>) -> (r: Result<Vec<String>, ParseError>)
        ensures
            r matches Ok(entries) ==> parsers::all_canonical(text::texts(entries@)),
    {
        let body = text::lossy_string(raw);
        let lines = text::split_lines(body.as_str());
        let ghost all = text::texts(lines@);
        let ghost contribution = |line: Seq<char>| line_entries(line);
        let mut entries: Vec<String> = Vec::new();
        if let Some(re) = compile(IP_TOKEN_PATTERN) {
            assert(text::texts(entries@) =~= parsers::gathered(all.take(0), contribution));
            for i in 0..lines.len()
                invariant
                    all == text::texts(lines@),
                    contribution == (|line: Seq<char>| line_entries(line)),
                    regex_pattern(re) == IP_TOKEN_PATTERN@,
                    text::texts(entries@) == parsers::gathered(all.take(i as int), contribution),
                    parsers::all_canonical(text::texts(entries@)),
            {
                let line = text::trim(lines[i].as_str());
                let ghost before = text::texts(entries@);
                if !skipped(line) {
                    let found = find_all(&re, line);
                    accept_all(&mut entries, &found);
                }
                proof {
                    parsers::lemma_gathered_step(all, contribution, i as int);
                    assert(line@ == text::trimmed(all[i as int]));
                    assert(text::texts(entries@) =~= before + line_entries(all[i as int]));
                }
            }
            assert(all.take(all.len() as int) =~= all);
        }
        Ok(entries)
    }
}

/// What lines before and after one another contribute, one after the other.
proof fn lemma_gathered_splits(before: Seq<Seq<char>>, after: Seq<Seq<char>>)
    ensures
        parsers::gathered(before + after, |line: Seq<char>| line_entries(line))
            == parsers::gathered(before, |line: Seq<char>| line_entries(line))
            + parsers::gathered(after, |line: Seq<char>| line_entries(line)),
    decreases after.len(),
{
    let contribution = |line: Seq<char>| line_entries(line);
    if after.len() == 0 {
        assert(before + after =~= before);
        assert(parsers::gathered(before, contribution) + Seq::empty() =~= parsers::gathered(
            before,
            contribution,
        ));
    } else {
        lemma_gathered_splits(before, after.drop_last());
        assert((before + after).drop_last() =~= before + after.drop_last());
        assert(parsers::gathered(before + after, contribution) =~= parsers::gathered(
            before,
            contribution,
        ) + parsers::gathered(after, contribution));
    }
}

/// No feed fails to parse, and the configuration does not matter.
pub proof fn law_line_feeds_always_parse(
    raw: Seq<u8>,
    config: Option<Seq<char>>,
    other: Option<Seq<char>>,
)
    ensures
        RegexLineParser.parsed(raw, config) is Ok,
        RegexLineParser.parsed(raw, config) == RegexLineParser.parsed(raw, other),
{
}

/// A blank line or a comment contributes nothing: a feed with it and one without it parse to the
/// same entries in the same order.
pub proof fn law_skipped_lines_contribute_nothing(
    raw: Seq<u8>,
    other: Seq<u8>,
    before: Seq<Seq<char>>,
    line: Seq<char>,
    after: Seq<Seq<char>>,
    config: Option<Seq<char>>,
)
    requires
        is_skipped(text::trimmed(line)),
        text::lines(text::lossy_text(raw)) == before.push(line) + after,
        text::lines(text::lossy_text(other)) == before + after,
    ensures
        RegexLineParser.parsed(raw, config) == RegexLineParser.parsed(other, config),
{
    let contribution = |line: Seq<char>| line_entries(line);
    lemma_gathered_splits(before.push(line), after);
    lemma_gathered_splits(before, after);
    assert(before.push(line).drop_last() =~= before);
    assert(line_entries(line) =~= Seq::empty());
    assert(parsers::gathered(before.push(line), contribution) =~= parsers::gathered(
        before,
        contribution,
    ));
}

/// The entries of a feed stand in the order of its lines.
pub proof fn law_entries_follow_the_lines(
    raw: Seq<u8>,
    first: Seq<u8>,
    second: Seq<u8>,
    config: Option<Seq<char>>,
)
    requires
        text::lines(text::lossy_text(raw)) == text::lines(text::lossy_text(first)) + text::lines(
            text::lossy_text(second),
        ),
    ensures
        RegexLineParser.parsed(raw, config)->Ok_0 == RegexLineParser.parsed(first, config)->Ok_0
            + RegexLineParser.parsed(second, config)->Ok_0,
{
    lemma_gathered_splits(
        text::lines(text::lossy_text(first)),
        text::lines(text::lossy_text(second)),
    );
}

/// A line is passed over exactly where nothing is left of it once trimmed, or what is left starts with
/// `#`, `;` or `//`.
pub proof fn law_which_lines_are_passed_over(line: Seq<char>)
    ensures
        is_skipped(line) <==> line.len() == 0 || line[0] == '#' || line[0] == ';' || (line.len() >= 2
            && line[0] == '/' && line[1] == '/'),
{
    reveal_strlit("//");
    if line.len() >= 2 {
        assert(line.take(2)[0] == line[0] && line.take(2)[1] == line[1]);
        if line[0] == '/' && line[1] == '/' {
            assert(line.take(2) =~= "//"@);
        }
    }
}

/// Candidates are gathered like values that some of them have.
proof fn lemma_gathered_is_filter_map(candidates: Seq<Seq<char>>)
    ensures
        parsers::gathered(candidates, |c: Seq<char>| parsers::accepted(c)) == candidates.filter_map(
            |c: Seq<char>| parsers::normalized(c),
        ),
    decreases candidates.len(),
{
    if candidates.len() > 0 {
        lemma_gathered_is_filter_map(candidates.drop_last());
        let rest = parsers::gathered(
            candidates.drop_last(),
            |c: Seq<char>| parsers::accepted(c),
        );
        assert(rest + Seq::<Seq<char>>::empty() =~= rest);
    }
}

/// A line that is not passed over gives the canonical spelling of every match in it that names a
/// network, in order; a line that is passed over gives nothing.
pub proof fn law_lines_give_their_networks(line: Seq<char>)
    ensures
        is_skipped(text::trimmed(line)) ==> line_entries(line).len() == 0,
        !is_skipped(text::trimmed(line)) ==> line_entries(line) == regex_matches(
            IP_TOKEN_PATTERN@,
            text::trimmed(line),
        ).filter_map(|m: Seq<char>| parsers::normalized(m)),
{
    lemma_gathered_is_filter_map(candidates(line));
}

/// The entries of a feed are those of its first line and then those of the rest of the feed.
pub proof fn law_feeds_are_read_line_by_line(
    raw: Seq<u8>,
    line: Seq<char>,
    rest: Seq<u8>,
    config: Option<Seq<char>>,
)
    requires
        !line.contains('\n'),
        line.len() > 0 ==> line.last() != '\r',
        text::lossy_text(raw) == line.push('\n') + text::lossy_text(rest),
    ensures
        RegexLineParser.parsed(raw, config)->Ok_0 == line_entries(line) + RegexLineParser.parsed(
            rest,
            config,
        )->Ok_0,
{
    let contribution = |line: Seq<char>| line_entries(line);
    text::law_a_newline_ends_a_line(line, text::lossy_text(rest));
    parsers::law_gathering_leaves_nothing_out(
        seq![line],
        line,
        text::lines(text::lossy_text(rest)),
        contribution,
    );
}

} // verus!
