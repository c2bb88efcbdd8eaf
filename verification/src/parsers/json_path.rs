//! `JSON_PATH` parser: structured JSON feeds.
//!
//! Configured by a JSON object such as `{"array_path": "data.items", "ip_field": "ipAddress"}`.
//! `array_path` may be omitted when the feed body is itself an array. With `"jsonl": true` the body
//! is newline-delimited JSON, one document per line; a line that does not parse, or lacks the
//! field, is skipped.

use vstd::prelude::*;
use vstd::utf8::*;

use crate::json;
use crate::json::{Json, JsonValue};
use crate::parsers::{accept, FeedParser, ParseError, ParseFault};
use crate::parsers;
use crate::text;

verus! {

/// How to read a JSON feed.
#[derive(Debug)]
pub struct JsonPathConfig {
    /// Dotted path to the array of items; nothing where the body itself is the array.
    pub array_path: Option<String>,
    /// Key holding the address or network on each item.
    pub ip_field: String,
    /// Whether the body is one JSON document per line.
    pub jsonl: bool,
}

/// What a [`JsonPathConfig`] says.
pub struct PathConfig {
    /// Dotted path to the array of items.
    pub array_path: Option<Seq<char>>,
    /// Key holding the address or network on each item.
    pub ip_field: Seq<char>,
    /// Whether the body is one JSON document per line.
    pub jsonl: bool,
}

impl View for JsonPathConfig {
    type V = PathConfig;

    open spec fn view(&self) -> PathConfig {
        PathConfig {
            array_path: match self.array_path {
                Some(p) => Some(p@),
                None => None,
            },
            ip_field: self.ip_field@,
            jsonl: self.jsonl,
        }
    }
}

/// The configuration that three optional settings make up.
pub open spec fn settings(
    array_path: Option<Json>,
    ip_field: Option<Json>,
    jsonl: Option<Json>,
) -> Result<PathConfig, Seq<char>> {
    match array_path {
        None | Some(Json::Null) | Some(Json::Text(_)) => match ip_field {
            Some(Json::Text(field)) => match jsonl {
                None => Ok(PathConfig { array_path: path_text(array_path), ip_field: field, jsonl: false }),
                Some(Json::Bool(b)) => Ok(
                    PathConfig { array_path: path_text(array_path), ip_field: field, jsonl: b },
                ),
                Some(_) => Err("`jsonl` must be a boolean"@),
            },
            None => Err("missing field `ip_field`"@),
            Some(_) => Err("`ip_field` must be a string"@),
        },
        Some(_) => Err("`array_path` must be a string"@),
    }
}

/// The path that an optional setting gives.
pub open spec fn path_text(array_path: Option<Json>) -> Option<Seq<char>> {
    match array_path {
        Some(Json::Text(p)) => Some(p),
        _ => None,
    }
}

/// The configuration that a document spells, by name or by position.
pub open spec fn config_in(json: Json) -> Result<PathConfig, Seq<char>> {
    match json {
        Json::Object(_) => settings(
            json.field("array_path"@),
            json.field("ip_field"@),
            json.field("jsonl"@),
        ),
        Json::Array(items) => if items.len() < 2 {
            Err("missing field `ip_field`"@)
        } else if items.len() > 3 {
            Err("too many settings"@)
        } else {
            settings(
                Some(items[0]),
                Some(items[1]),
                if items.len() == 3 {
                    Some(items[2])
                } else {
                    None
                },
            )
        },
        _ => Err("the configuration must be an object"@),
    }
}

/// The document behind an optional reference.
pub open spec fn optional_json(v: Option<&JsonValue>) -> Option<Json> {
    match v {
        Some(j) => Some(j@),
        None => None,
    }
}

/// What reading a configuration gives.
pub open spec fn config_outcome(r: Result<JsonPathConfig, String>) -> Result<
    PathConfig,
    Seq<char>,
> {
    match r {
        Ok(config) => Ok(config@),
        Err(fault) => Err(fault@),
    }
}

/// Puts three optional settings together.
fn from_settings(
    array_path: Option<&JsonValue>,
    ip_field: Option<&JsonValue>,
    jsonl: Option<&JsonValue>,
) -> (r: Result<JsonPathConfig, String>)
    ensures
        config_outcome(r) == settings(
            optional_json(array_path),
            optional_json(ip_field),
            optional_json(jsonl),
        ),
{
    let array_path = match array_path {
        None => None,
        Some(JsonValue::Null) => None,
        Some(JsonValue::Text(p)) => Some(p.clone()),
        Some(_) => return Err("`array_path` must be a string".to_owned()),
    };
    let ip_field = match ip_field {
        Some(JsonValue::Text(f)) => f.clone(),
        None => return Err("missing field `ip_field`".to_owned()),
        Some(_) => return Err("`ip_field` must be a string".to_owned()),
    };
    let jsonl = match jsonl {
        None => false,
        Some(JsonValue::Bool(b)) => *b,
        Some(_) => return Err("`jsonl` must be a boolean".to_owned()),
    };
    Ok(JsonPathConfig { array_path, ip_field, jsonl })
}

/// Reads the configuration from a document, so that what the document keeps is what counts: of a key
/// that is given twice the last value, and no key at all where some part of the text, an unknown
/// setting included, is not a document that `serde_json` reads. What is said against a setting names
/// it, but not its position in the text.
pub fn read_config(v: &JsonValue) -> (r: Result<JsonPathConfig, String>)
    ensures
        config_outcome(r) == config_in(v@),
{
    match v {
        JsonValue::Object(_) => from_settings(v.get("array_path"), v.get("ip_field"), v.get("jsonl")),
        JsonValue::Array(items) => {
            reveal_with_fuel(<JsonValue as View>::view, 2);
            if items.len() < 2 {
                Err("missing field `ip_field`".to_owned())
            } else if items.len() > 3 {
                Err("too many settings".to_owned())
            } else if items.len() == 3 {
                from_settings(Some(&items[0]), Some(&items[1]), Some(&items[2]))
            } else {
                from_settings(Some(&items[0]), Some(&items[1]), None)
            }
        },
        _ => Err("the configuration must be an object".to_owned()),
    }
}

/// What an item contributes: the canonical spelling of its field, if it names a network.
pub open spec fn item_entries(item: Json, ip_field: Seq<char>) -> Seq<Seq<char>> {
    match item.field(ip_field) {
        Some(Json::Text(candidate)) => parsers::accepted(candidate),
        _ => Seq::empty(),
    }
}

/// The segments of a dotted path.
pub open spec fn segments(path: Seq<char>) -> Seq<Seq<char>> {
    text::pieces(path, |c: char| c == '.').filter(|s: Seq<char>| s.len() > 0)
}

/// Where a path leads, if every segment names a field.
pub open spec fn walked(root: Json, path: Seq<Seq<char>>) -> Option<Json>
    decreases path.len(),
{
    if path.len() == 0 {
        Some(root)
    } else {
        match walked(root, path.drop_last()) {
            Some(json) => json.field(path.last()),
            None => None,
        }
    }
}

/// The entries of a whole document.
pub open spec fn document_entries(root: Json, config: PathConfig) -> Result<
    Seq<Seq<char>>,
    ParseFault,
> {
    let found = match config.array_path {
        Some(path) => walked(root, segments(path)),
        None => Some(root),
    };
    match found {
        None => Err(
            ParseFault::InvalidConfig(
                "array_path '"@ + config.array_path->0 + "' not found in feed body"@,
            ),
        ),
        Some(Json::Array(items)) => Ok(
            parsers::gathered(items, |item: Json| item_entries(item, config.ip_field)),
        ),
        Some(_) => Err(
            ParseFault::InvalidConfig("array_path did not resolve to a JSON array"@),
        ),
    }
}

/// What a line of a newline-delimited feed contributes.
pub open spec fn jsonl_entries(line: Seq<char>, ip_field: Seq<char>) -> Seq<Seq<char>> {
    let line = text::trimmed(line);
    if line.len() == 0 {
        Seq::empty()
    } else {
        match json::document(encode_utf8(line)) {
            Ok(item) => item_entries(item, ip_field),
            Err(_) => Seq::empty(),
        }
    }
}

/// The entries of a feed body.
pub open spec fn body_entries(raw: Seq<u8>, config: PathConfig) -> Result<
    Seq<Seq<char>>,
    ParseFault,
> {
    if config.jsonl {
        if valid_utf8(raw) {
            Ok(
                parsers::gathered(
                    text::lines(decode_utf8(raw)),
                    |line: Seq<char>| jsonl_entries(line, config.ip_field),
                ),
            )
        } else {
            Err(ParseFault::MalformedBody(text::utf8_fault(raw)))
        }
    } else {
        match json::document(raw) {
            Ok(root) => document_entries(root, config),
            Err(fault) => Err(ParseFault::MalformedBody(fault)),
        }
    }
}

/// Appends what an item contributes.
fn accept_item(entries: &mut Vec<String>, item: &JsonValue, ip_field: &str)
    ensures
        text::texts(final(entries)@) == text::texts(old(entries)@) + item_entries(
            item@,
            ip_field@,
        ),
        parsers::all_canonical(text::texts(old(entries)@)) ==> parsers::all_canonical(
            text::texts(final(entries)@),
        ),
{
    let ghost before = text::texts(entries@);
    if let Some(value) = item.get(ip_field) {
        if let Some(candidate) = value.as_str() {
            accept(entries, candidate);
            return ;
        }
    }
    assert(before + Seq::<Seq<char>>::empty() =~= before);
}

/// The entries of the items of an array.
pub fn extract_field(items: &Vec<JsonValue>, ip_field: &str) -> (entries: Vec<String>)
    ensures
        text::texts(entries@) == parsers::gathered(
            JsonValue::Array(*items)@->Array_0,
            |item: Json| item_entries(item, ip_field@),
        ),
        parsers::all_canonical(text::texts(entries@)),
{
    reveal_with_fuel(<JsonValue as View>::view, 2);
    let ghost all = JsonValue::Array(*items)@->Array_0;
    let ghost contribution = |item: Json| item_entries(item, ip_field@);
    let mut entries: Vec<String> = Vec::new();
    assert(text::texts(entries@) =~= parsers::gathered(all.take(0), contribution));
    for i in 0..items.len()
        invariant
            all.len() == items@.len(),
            forall|j: int| 0 <= j < items@.len() ==> (#[trigger] items@[j])@ == all[j],
            contribution == (|item: Json| item_entries(item, ip_field@)),
            text::texts(entries@) == parsers::gathered(all.take(i as int), contribution),
            parsers::all_canonical(text::texts(entries@)),
    {
        accept_item(&mut entries, &items[i], ip_field);
        proof {
            parsers::lemma_gathered_step(all, contribution, i as int);
        }
    }
    assert(all.take(all.len() as int) =~= all);
    entries
}

/// Follows a dotted path from `root`. Empty segments are ignored.
pub fn walk_path<'a>(root: &'a JsonValue, path: &str) -> (r: Option<&'a JsonValue>)
    ensures
        optional_json(r) == walked(root@, segments(path@)),
{
    let parts = text::split(path, '.');
    let ghost all = text::texts(parts@);
    let ghost kept = |s: Seq<char>| s.len() > 0;
    let mut current: Option<&'a JsonValue> = Some(root);
    proof {
        reveal(Seq::filter);
        assert(all.take(0).filter(kept) =~= Seq::empty());
    }
    for i in 0..parts.len()
        invariant
            all == text::texts(parts@),
            kept == (|s: Seq<char>| s.len() > 0),
            optional_json(current) == walked(root@, all.take(i as int).filter(kept)),
    {
        proof {
            reveal(Seq::filter);
            assert(all.take(i + 1).drop_last() =~= all.take(i as int));
            let shorter = all.take(i as int).filter(kept);
            assert(shorter.push(all[i as int]).drop_last() =~= shorter);
        }
        if !parts[i].as_str().is_empty() {
            current = match current {
                Some(v) => v.get(parts[i].as_str()),
                None => None,
            };
        }
    }
    assert(all.take(all.len() as int) =~= all);
    current
}

/// Extracts the entries of a whole document.
pub fn extract(root: &JsonValue, config: &JsonPathConfig) -> (r: Result<Vec<String>, ParseError>)
    ensures
        parsers::outcome(r) == document_entries(root@, config@),
        r matches Ok(entries) ==> parsers::all_canonical(text::texts(entries@)),
{
    reveal_with_fuel(<JsonValue as View>::view, 2);
    let array = match &config.array_path {
        Some(path) => match walk_path(root, path.as_str()) {
            Some(found) => found,
            None => return Err(
                ParseError::InvalidConfig(
                    text::concat3("array_path '", path.as_str(), "' not found in feed body"),
                ),
            ),
        },
        None => root,
    };
    match array {
        JsonValue::Array(items) => Ok(extract_field(items, config.ip_field.as_str())),
        _ => Err(
            ParseError::InvalidConfig("array_path did not resolve to a JSON array".to_owned()),
        ),
    }
}

/// Parses newline-delimited JSON: one document per non-empty line. A line that does not parse, or
/// lacks the field, is skipped rather than failing the feed.
pub fn parse_jsonl(raw: &[u8], ip_field: &str) -> (r: Result<Vec<String>, ParseError>)
    ensures
        parsers::outcome(r) == body_entries(
            raw@,
            (PathConfig { array_path: None, ip_field: ip_field@, jsonl: true }),
        ),
        r matches Ok(entries) ==> parsers::all_canonical(text::texts(entries@)),
{
    let body = match text::utf8_text(raw) {
        Ok(body) => body,
        Err(fault) => return Err(ParseError::MalformedBody(fault)),
    };
    let lines = text::split_lines(body);
    let ghost all = text::texts(lines@);
    let ghost contribution = |line: Seq<char>| jsonl_entries(line, ip_field@);
    let mut entries: Vec<String> = Vec::new();
    assert(text::texts(entries@) =~= parsers::gathered(all.take(0), contribution));
    for i in 0..lines.len()
        invariant
            all == text::texts(lines@),
            contribution == (|line: Seq<char>| jsonl_entries(line, ip_field@)),
            text::texts(entries@) == parsers::gathered(all.take(i as int), contribution),
            parsers::all_canonical(text::texts(entries@)),
    {
        let line = text::trim(lines[i].as_str());
        let ghost before = text::texts(entries@);
        if !line.is_empty() {
            if let Ok(item) = json::parse(line.as_bytes()) {
                accept_item(&mut entries, &item, ip_field);
            }
        }
        proof {
            parsers::lemma_gathered_step(all, contribution, i as int);
            assert(text::texts(entries@) =~= before + jsonl_entries(all[i as int], ip_field@));
        }
    }
    assert(all.take(all.len() as int) =~= all);
    Ok(entries)
}

/// Parses a JSON feed body, by walking a dotted path to an array and taking one field per element,
/// or line by line.
pub struct JsonPathParser;

impl FeedParser for JsonPathParser {
    open spec fn parsed(&self, raw: Seq<u8>, config: Option<Seq<char>>) -> Result<
        Seq<Seq<char>>,
        ParseFault,
    > {
        match config {
            None => Err(
                ParseFault::InvalidConfig("JSON_PATH requires parser_config_json with an ip_field"@),
            ),
            Some(config) => match json::document(encode_utf8(config)) {
                Err(fault) => Err(
                    ParseFault::InvalidConfig("invalid parser_config_json: "@ + fault),
                ),
                Ok(document) => match config_in(document) {
                    Err(fault) => Err(
                        ParseFault::InvalidConfig("invalid parser_config_json: "@ + fault),
                    ),
                    Ok(config) => body_entries(raw, config),
                },
            },
        }
    }

    fn parse(&self, raw: &[u8], config: Option<&str>) -> (r: Result<Vec<String>, ParseError>)
        ensures
            r matches Ok(entries) ==> parsers::all_canonical(text::texts(entries@)),
    {
        let config = match config {
            Some(config) => config,
            None => return Err(
                ParseError::InvalidConfig(
                    "JSON_PATH requires parser_config_json with an ip_field".to_owned(),
                ),
            ),
        };
        let read = match json::parse(config.as_bytes()) {
            Ok(document) => read_config(&document),
            Err(fault) => Err(fault),
        };
        let config = match read {
            Ok(config) => config,
            Err(fault) => return Err(
                ParseError::InvalidConfig(
                    text::concat("invalid parser_config_json: ", fault.as_str()),
                ),
            ),
        };
        if config.jsonl {
            return parse_jsonl(raw, config.ip_field.as_str());
        }
        match json::parse(raw) {
            Ok(root) => extract(&root, &config),
            Err(fault) => Err(ParseError::MalformedBody(fault)),
        }
    }
}

/// Walking on from where a path leads is walking the longer path.
proof fn lemma_walked_on(root: Json, first: Seq<Seq<char>>, second: Seq<Seq<char>>)
    ensures
        walked(root, first + second) == match walked(root, first) {
            Some(json) => walked(json, second),
            None => None::<Json>,
        },
    decreases second.len(),
{
    if second.len() == 0 {
        assert(first + second =~= first);
    } else {
        assert((first + second).drop_last() =~= first + second.drop_last());
        assert((first + second).last() == second.last());
        lemma_walked_on(root, first, second.drop_last());
    }
}

/// A path without a dot leads to the field of that name; an empty one stays where it is.
pub proof fn law_a_plain_path_names_a_field(root: Json, path: Seq<char>)
    requires
        !path.contains('.'),
    ensures
        walked(root, segments(path)) == if path.len() > 0 {
            root.field(path)
        } else {
            Some(root)
        },
{
    reveal(Seq::filter);
    let is_dot = |c: char| c == '.';
    let kept = |s: Seq<char>| s.len() > 0;
    assert forall|i: int| 0 <= i < path.len() implies !is_dot(#[trigger] path[i]) by {
        assert(path.contains(path[i]));
    }
    text::law_text_without_a_separator_is_one_piece(path, is_dot);
    assert(seq![path].drop_last() =~= Seq::empty());
    assert(seq![path].drop_last().filter(kept) =~= Seq::empty());
    assert(seq![path].last() == path);
    if path.len() > 0 {
        assert(seq![path].filter(kept) =~= seq![path]);
        assert(walked(root, seq![path].drop_last()) == Some(root));
    } else {
        assert(seq![path].filter(kept) =~= Seq::empty());
    }
}

/// A dotted path is walked part by part: it leads to where its second part leads from where its
/// first part leads.
pub proof fn law_a_dotted_path_is_walked_part_by_part(root: Json, first: Seq<char>, second: Seq<char>)
    ensures
        walked(root, segments(first.push('.') + second)) == match walked(root, segments(first)) {
            Some(json) => walked(json, segments(second)),
            None => None::<Json>,
        },
{
    let is_dot = |c: char| c == '.';
    let kept = |s: Seq<char>| s.len() > 0;
    text::law_a_separator_parts_the_pieces(first, '.', second, is_dot);
    Seq::filter_distributes_over_add(
        text::pieces(first, is_dot),
        text::pieces(second, is_dot),
        kept,
    );
    lemma_walked_on(root, segments(first), segments(second));
}

/// An item contributes its field where that is a string that names a network, in the canonical
/// spelling, and nothing otherwise.
pub proof fn law_items_contribute_their_field(item: Json, ip_field: Seq<char>)
    ensures
        match item.field(ip_field) {
            Some(Json::Text(candidate)) => match parsers::normalized(candidate) {
                Some(s) => item_entries(item, ip_field) == seq![s],
                None => item_entries(item, ip_field).len() == 0,
            },
            _ => item_entries(item, ip_field).len() == 0,
        },
{
}

/// A body that is an array gives the entries of its items in order: an item more at the end adds what
/// that item contributes, and no item adds nothing. Without a path, a body that is anything else is
/// refused.
pub proof fn law_arrays_give_the_entries_of_their_items(
    items: Seq<Json>,
    item: Json,
    config: PathConfig,
)
    requires
        config.array_path is None,
    ensures
        document_entries(Json::Array(Seq::empty()), config) == Ok::<Seq<Seq<char>>, ParseFault>(
            Seq::empty(),
        ),
        document_entries(Json::Array(items), config) is Ok,
        document_entries(Json::Array(items.push(item)), config) == Ok::<
            Seq<Seq<char>>,
            ParseFault,
        >(document_entries(Json::Array(items), config)->Ok_0 + item_entries(item, config.ip_field)),
        item !is Array ==> document_entries(item, config) is Err,
{
    assert(items.push(item).drop_last() =~= items);
}

/// A path picks out the array: a body is read as if it were what its path leads to, and refused if
/// the path leads nowhere.
pub proof fn law_paths_pick_out_the_array(root: Json, config: PathConfig)
    requires
        config.array_path is Some,
    ensures
        match walked(root, segments(config.array_path->0)) {
            Some(found) => document_entries(root, config) == document_entries(
                found,
                (PathConfig { array_path: None, ..config }),
            ),
            None => document_entries(root, config) matches Err(ParseFault::InvalidConfig(_)),
        },
{
}

/// Newline-delimited feeds are read line by line: each line that is a document contributes what that
/// document contributes as an item, every other line contributes nothing, and a path does not matter.
pub proof fn law_line_documents_are_items(line: Seq<char>, ip_field: Seq<char>, item: Json)
    ensures
        text::trimmed(line).len() == 0 ==> jsonl_entries(line, ip_field).len() == 0,
        text::trimmed(line).len() > 0 && json::document(encode_utf8(text::trimmed(line))) is Err
            ==> jsonl_entries(line, ip_field).len() == 0,
        text::trimmed(line).len() > 0 && json::document(encode_utf8(text::trimmed(line))) == Ok::<
            Json,
            Seq<char>,
        >(item) ==> jsonl_entries(line, ip_field) == item_entries(item, ip_field),
{
}

/// What lines before and after one another contribute, one after the other.
proof fn lemma_jsonl_splits(before: Seq<Seq<char>>, after: Seq<Seq<char>>, ip_field: Seq<char>)
    ensures
        parsers::gathered(before + after, |line: Seq<char>| jsonl_entries(line, ip_field))
            == parsers::gathered(before, |line: Seq<char>| jsonl_entries(line, ip_field))
            + parsers::gathered(after, |line: Seq<char>| jsonl_entries(line, ip_field)),
    decreases after.len(),
{
    let contribution = |line: Seq<char>| jsonl_entries(line, ip_field);
    if after.len() == 0 {
        assert(before + after =~= before);
        assert(parsers::gathered(before, contribution) + Seq::empty() =~= parsers::gathered(
            before,
            contribution,
        ));
    } else {
        lemma_jsonl_splits(before, after.drop_last(), ip_field);
        assert((before + after).drop_last() =~= before + after.drop_last());
        assert(parsers::gathered(before + after, contribution) =~= parsers::gathered(
            before,
            contribution,
        ) + parsers::gathered(after, contribution));
    }
}

/// A newline-delimited feed of UTF-8 always parses; its first line comes first and the rest of the
/// feed follows.
pub proof fn law_line_feeds_are_read_in_order(
    raw: Seq<u8>,
    line: Seq<char>,
    rest: Seq<u8>,
    config: PathConfig,
)
    requires
        config.jsonl,
        valid_utf8(raw) && valid_utf8(rest),
        !line.contains('\n'),
        line.len() > 0 ==> line.last() != '\r',
        decode_utf8(raw) == line.push('\n') + decode_utf8(rest),
    ensures
        body_entries(raw, config) is Ok,
        body_entries(rest, config) is Ok,
        body_entries(raw, config)->Ok_0 == jsonl_entries(line, config.ip_field) + body_entries(
            rest,
            config,
        )->Ok_0,
{
    let ip_field = config.ip_field;
    let contribution = |line: Seq<char>| jsonl_entries(line, ip_field);
    text::law_a_newline_ends_a_line(line, decode_utf8(rest));
    lemma_jsonl_splits(seq![line], text::lines(decode_utf8(rest)), ip_field);
    assert(seq![line].drop_last() =~= Seq::empty());
    assert(parsers::gathered(seq![line], contribution) =~= jsonl_entries(line, ip_field)) by {
        assert(parsers::gathered(seq![line].drop_last(), contribution) =~= Seq::empty());
        assert(seq![line].last() == line);
    }
}

/// A body is read as one document unless the configuration says that it is one document per line; a
/// body that is no document, or not UTF-8 in the latter case, is malformed.
pub proof fn law_bodies_are_read_as_configured(raw: Seq<u8>, config: PathConfig, root: Json)
    ensures
        !config.jsonl && json::document(raw) == Ok::<Json, Seq<char>>(root) ==> body_entries(
            raw,
            config,
        ) == document_entries(root, config),
        !config.jsonl && json::document(raw) is Err ==> body_entries(raw, config) matches Err(
            ParseFault::MalformedBody(_),
        ),
        config.jsonl && !valid_utf8(raw) ==> body_entries(raw, config) matches Err(
            ParseFault::MalformedBody(_),
        ),
        config.jsonl && valid_utf8(raw) ==> body_entries(raw, config) is Ok,
{
}

/// A configuration is usable exactly where it names a string as the field, a string or nothing as
/// the path and a boolean or nothing as the format, and then it says just that.
pub proof fn law_configurations_say_what_they_name(json: Json)
    requires
        json is Object,
    ensures
        ({
            let path = json.field(seq!['a', 'r', 'r', 'a', 'y', '_', 'p', 'a', 't', 'h']);
            let field = json.field(seq!['i', 'p', '_', 'f', 'i', 'e', 'l', 'd']);
            let jsonl = json.field(seq!['j', 's', 'o', 'n', 'l']);
            &&& config_in(json) is Ok <==> field is Some && field->0 is Text && (path is None
                || path->0 is Null || path->0 is Text) && (jsonl is None || jsonl->0 is Bool)
            &&& config_in(json) matches Ok(config) ==> {
                &&& field == Some(Json::Text(config.ip_field))
                &&& config.array_path is Some <==> path is Some && path->0 is Text
                &&& config.array_path matches Some(p) ==> path == Some(Json::Text(p))
                &&& jsonl is None ==> !config.jsonl
                &&& jsonl is Some ==> jsonl == Some(Json::Bool(config.jsonl))
            }
        }),
{
    reveal_strlit("array_path");
    reveal_strlit("ip_field");
    reveal_strlit("jsonl");
    assert("array_path"@ =~= seq!['a', 'r', 'r', 'a', 'y', '_', 'p', 'a', 't', 'h']);
    assert("ip_field"@ =~= seq!['i', 'p', '_', 'f', 'i', 'e', 'l', 'd']);
    assert("jsonl"@ =~= seq!['j', 's', 'o', 'n', 'l']);
}

/// Without a configuration, or with one that is not usable, nothing is parsed; with a usable one the
/// body is read as it says.
pub proof fn law_parsing_takes_a_configuration(
    raw: Seq<u8>,
    config: Seq<char>,
    document: Json,
    settings: PathConfig,
)
    ensures
        JsonPathParser.parsed(raw, None) matches Err(ParseFault::InvalidConfig(_)),
        json::document(encode_utf8(config)) is Err ==> JsonPathParser.parsed(raw, Some(config))
            matches Err(ParseFault::InvalidConfig(_)),
        json::document(encode_utf8(config)) == Ok::<Json, Seq<char>>(document) && config_in(
            document,
        ) is Err ==> JsonPathParser.parsed(raw, Some(config)) matches Err(
            ParseFault::InvalidConfig(_),
        ),
        json::document(encode_utf8(config)) == Ok::<Json, Seq<char>>(document) && config_in(
            document,
        ) == Ok::<PathConfig, Seq<char>>(settings) ==> JsonPathParser.parsed(raw, Some(config))
            == body_entries(raw, settings),
{
}

/// A configuration by position is a list of the path, the field and, if it is there, the format, and
/// says what one by name would; a shorter or longer list, and anything else, is not usable.
pub proof fn law_configurations_by_position(items: Seq<Json>, json: Json)
    ensures
        items.len() < 2 ==> config_in(Json::Array(items)) == Err::<PathConfig, Seq<char>>(
            "missing field `ip_field`"@,
        ),
        items.len() > 3 ==> config_in(Json::Array(items)) == Err::<PathConfig, Seq<char>>(
            "too many settings"@,
        ),
        items.len() == 2 ==> config_in(Json::Array(items)) == config_in(
            Json::Object(seq![("array_path"@, items[0]), ("ip_field"@, items[1])]),
        ),
        items.len() == 3 ==> config_in(Json::Array(items)) == config_in(
            Json::Object(
                seq![("array_path"@, items[0]), ("ip_field"@, items[1]), ("jsonl"@, items[2])],
            ),
        ),
        !(json is Object) && !(json is Array) ==> config_in(json) == Err::<PathConfig, Seq<char>>(
            "the configuration must be an object"@,
        ),
{
    reveal_strlit("array_path");
    reveal_strlit("ip_field");
    reveal_strlit("jsonl");
    assert("array_path"@.len() == 10 && "ip_field"@.len() == 8 && "jsonl"@.len() == 5);
    let two = Json::Object(seq![("array_path"@, items[0]), ("ip_field"@, items[1])]);
    let three = Json::Object(
        seq![("array_path"@, items[0]), ("ip_field"@, items[1]), ("jsonl"@, items[2])],
    );
    json::law_fields_are_found(two, "array_path"@, 0);
    json::law_fields_are_found(two, "ip_field"@, 1);
    json::law_fields_are_found(two, "jsonl"@, 0);
    json::law_fields_are_found(three, "array_path"@, 0);
    json::law_fields_are_found(three, "ip_field"@, 1);
    json::law_fields_are_found(three, "jsonl"@, 2);
}

/// What is wrong with a setting is said of that setting.
pub proof fn law_wrong_settings_are_named(
    array_path: Option<Json>,
    ip_field: Option<Json>,
    jsonl: Option<Json>,
)
    ensures
        ({
            let made = settings(array_path, ip_field, jsonl);
            let path_fits = array_path is None || array_path->0 is Null || array_path->0 is Text;
            &&& !path_fits ==> made == Err::<PathConfig, Seq<char>>(
                "`array_path` must be a string"@,
            )
            &&& path_fits && ip_field is None ==> made == Err::<PathConfig, Seq<char>>(
                "missing field `ip_field`"@,
            )
            &&& path_fits && ip_field is Some && !(ip_field->0 is Text) ==> made == Err::<
                PathConfig,
                Seq<char>,
            >("`ip_field` must be a string"@)
            &&& path_fits && ip_field is Some && ip_field->0 is Text && jsonl is Some
                && !(jsonl->0 is Bool) ==> made == Err::<PathConfig, Seq<char>>(
                "`jsonl` must be a boolean"@,
            )
        }),
{
}

/// What stands against a feed or its configuration is said: that there is none, what is wrong with it,
/// what is wrong with the body, or where the path leads.
pub proof fn law_path_refusals_say_why(
    raw: Seq<u8>,
    text_of_config: Seq<char>,
    document: Json,
    config: PathConfig,
    path: Seq<char>,
    fault: Seq<char>,
)
    ensures
        JsonPathParser.parsed(raw, None) == Err::<Seq<Seq<char>>, ParseFault>(
            ParseFault::InvalidConfig("JSON_PATH requires parser_config_json with an ip_field"@),
        ),
        json::document(encode_utf8(text_of_config)) == Err::<Json, Seq<char>>(fault)
            ==> JsonPathParser.parsed(raw, Some(text_of_config)) == Err::<
            Seq<Seq<char>>,
            ParseFault,
        >(ParseFault::InvalidConfig("invalid parser_config_json: "@ + fault)),
        json::document(encode_utf8(text_of_config)) == Ok::<Json, Seq<char>>(document) && config_in(
            document,
        ) == Err::<PathConfig, Seq<char>>(fault) ==> JsonPathParser.parsed(
            raw,
            Some(text_of_config),
        ) == Err::<Seq<Seq<char>>, ParseFault>(
            ParseFault::InvalidConfig("invalid parser_config_json: "@ + fault),
        ),
        config.array_path == Some(path) && walked(document, segments(path)) is None
            ==> document_entries(document, config) == Err::<Seq<Seq<char>>, ParseFault>(
            ParseFault::InvalidConfig("array_path '"@ + path + "' not found in feed body"@),
        ),
        config.array_path is None && !(document is Array) ==> document_entries(document, config)
            == Err::<Seq<Seq<char>>, ParseFault>(
            ParseFault::InvalidConfig("array_path did not resolve to a JSON array"@),
        ),
        !config.jsonl && json::document(raw) == Err::<Json, Seq<char>>(fault) ==> body_entries(
            raw,
            config,
        ) == Err::<Seq<Seq<char>>, ParseFault>(ParseFault::MalformedBody(fault)),
{
}

} // verus!
