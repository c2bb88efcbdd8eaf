//! The single error type of every fallible operation reachable from a request handler.
//!
//! A variant is a status code plus a message shape, never domain logic.

use vstd::prelude::*;

use crate::crypto::CryptoError;
use crate::json::{Json, JsonValue};
use crate::text;

verus! {

/// Every failure a handler, job, or background worker can return.
#[derive(Debug)]
pub enum AppError {
    /// A database operation failed. The detail is for the log only; the response is generic.
    DbError(String),
    /// The caller supplied a malformed or invalid payload.
    InvalidInput(String),
    /// The caller did not authenticate successfully.
    Unauthorized(String),
    /// The caller authenticated but may not perform the requested action.
    Forbidden(String),
    /// The requested resource does not exist, or is not visible to the caller.
    NotFound,
    /// The request conflicts with existing state.
    Conflict(String),
    /// A conflict carrying structured detail.
    ConflictWithDetails {
        /// Human-readable summary.
        message: String,
        /// Structured detail merged into the top level of the response body.
        details: JsonValue,
    },
    /// A request extractor rejected the body with its own status code.
    BodyRejected(u16, String),
    /// An internal failure with no detail safe to disclose to the caller.
    Internal,
}

/// What an [`AppError`] says.
pub enum AppFault {
    /// A database operation failed.
    DbError(Seq<char>),
    /// The payload is invalid.
    InvalidInput(Seq<char>),
    /// The caller did not authenticate.
    Unauthorized(Seq<char>),
    /// The caller may not do this.
    Forbidden(Seq<char>),
    /// There is no such resource for the caller.
    NotFound,
    /// The request conflicts with existing state.
    Conflict(Seq<char>),
    /// A conflict with structured detail.
    ConflictWithDetails(Seq<char>, Json),
    /// A request extractor rejected the body.
    BodyRejected(u16, Seq<char>),
    /// An internal failure.
    Internal,
}

impl View for AppError {
    type V = AppFault;

    open spec fn view(&self) -> AppFault {
        match self {
            AppError::DbError(m) => AppFault::DbError(m@),
            AppError::InvalidInput(m) => AppFault::InvalidInput(m@),
            AppError::Unauthorized(m) => AppFault::Unauthorized(m@),
            AppError::Forbidden(m) => AppFault::Forbidden(m@),
            AppError::NotFound => AppFault::NotFound,
            AppError::Conflict(m) => AppFault::Conflict(m@),
            AppError::ConflictWithDetails { message, details } => AppFault::ConflictWithDetails(
                message@,
                details@,
            ),
            AppError::BodyRejected(status, m) => AppFault::BodyRejected(*status, m@),
            AppError::Internal => AppFault::Internal,
        }
    }
}

/// A response body that holds nothing but an error message.
pub open spec fn error_body(message: Seq<char>) -> Json {
    Json::Object(seq![("error"@, Json::Text(message))])
}

/// An object's entries with `key` set to `value`: an entry of that key is replaced, otherwise one
/// is added.
pub open spec fn with_entry(
    entries: Seq<(Seq<char>, Json)>,
    key: Seq<char>,
    value: Json,
) -> Seq<(Seq<char>, Json)> {
    match crate::json::entry_index(entries, key) {
        Some(i) => entries.update(i, (key, value)),
        None => entries.push((key, value)),
    }
}

/// An object's entries with those of another merged over them.
pub open spec fn merged(
    entries: Seq<(Seq<char>, Json)>,
    over: Seq<(Seq<char>, Json)>,
) -> Seq<(Seq<char>, Json)>
    decreases over.len(),
{
    if over.len() == 0 {
        entries
    } else {
        with_entry(merged(entries, over.drop_last()), over.last().0, over.last().1)
    }
}

impl AppFault {
    /// The status code and body that the caller receives.
    pub open spec fn response(self) -> (u16, Json) {
        match self {
            AppFault::DbError(_) => (500, error_body("Internal server error"@)),
            AppFault::InvalidInput(m) => (400, error_body(m)),
            AppFault::Unauthorized(m) => (401, error_body(m)),
            AppFault::Forbidden(m) => (403, error_body(m)),
            AppFault::NotFound => (404, error_body("Resource not found"@)),
            AppFault::Conflict(m) => (409, error_body(m)),
            AppFault::ConflictWithDetails(m, details) => (
                409,
                match details {
                    Json::Object(over) => Json::Object(
                        merged(error_body(m)->Object_0, over),
                    ),
                    _ => error_body(m),
                },
            ),
            AppFault::BodyRejected(status, m) => (status, error_body(m)),
            AppFault::Internal => (500, error_body("Internal server error"@)),
        }
    }

    /// The text that the log shows.
    pub open spec fn text(self) -> Seq<char> {
        match self {
            AppFault::DbError(_) => "database error"@,
            AppFault::InvalidInput(m) => "invalid input: "@ + m,
            AppFault::Unauthorized(m) => "unauthorized: "@ + m,
            AppFault::Forbidden(m) => "forbidden: "@ + m,
            AppFault::NotFound => "not found"@,
            AppFault::Conflict(m) => "conflict: "@ + m,
            AppFault::ConflictWithDetails(m, _) => "conflict: "@ + m,
            AppFault::BodyRejected(_, m) => "body rejected: "@ + m,
            AppFault::Internal => "internal error"@,
        }
    }
}

/// A response body that holds nothing but an error message.
fn error_entries(message: String) -> (r: Vec<(String, JsonValue)>)
    ensures
        JsonValue::Object(r)@ == error_body(message@),
{
    reveal_with_fuel(<JsonValue as View>::view, 2);
    let mut r: Vec<(String, JsonValue)> = Vec::new();
    r.push(("error".to_owned(), JsonValue::Text(message)));
    assert(JsonValue::Object(r)@->Object_0 =~= error_body(message@)->Object_0);
    r
}

/// Sets `key` to `value` among an object's entries.
fn set_entry(entries: &mut Vec<(String, JsonValue)>, key: String, value: JsonValue)
    ensures
        JsonValue::Object(*final(entries))@ == Json::Object(
            with_entry(JsonValue::Object(*old(entries))@->Object_0, key@, value@),
        ),
{
    reveal_with_fuel(<JsonValue as View>::view, 2);
    let ghost parts = JsonValue::Object(*entries)@->Object_0;
    let ghost start = *entries;
    assert(parts.take(0) =~= Seq::empty());
    let n: usize = entries.len();
    for i in 0..n
        invariant
            n == entries@.len(),
            *entries == start,
            start == *old(entries),
            parts == JsonValue::Object(start)@->Object_0,
            parts.len() == entries@.len(),
            forall|j: int|
                0 <= j < entries@.len() ==> ((#[trigger] entries@[j]).0@, entries@[j].1@)
                    == parts[j],
            crate::json::entry_index(parts.take(i as int), key@) is None,
    {
        assert(parts.take(i + 1).drop_last() =~= parts.take(i as int));
        assert((entries@[i as int].0@, entries@[i as int].1@) == parts[i as int]);
        if text::same_text(entries[i].0.as_str(), key.as_str()) {
            proof {
                crate::json::lemma_entry_found_stays(parts, key@, i + 1);
            }
            assert(crate::json::entry_index(parts, key@) == Some(i as int));
            entries.set(i, (key, value));
            reveal_with_fuel(<JsonValue as View>::view, 2);
            assert(JsonValue::Object(*entries)@->Object_0 =~= parts.update(
                i as int,
                (key@, value@),
            ));
            return ;
        }
    }
    assert(parts.take(parts.len() as int) =~= parts);
    entries.push((key, value));
    assert(JsonValue::Object(*entries)@->Object_0 =~= parts.push((key@, value@)));
}

/// Merges the entries of one object over those of another.
fn merge_entries(entries: &mut Vec<(String, JsonValue)>, over: Vec<(String, JsonValue)>)
    ensures
        JsonValue::Object(*final(entries))@ == Json::Object(
            merged(JsonValue::Object(*old(entries))@->Object_0, JsonValue::Object(over)@->Object_0),
        ),
    decreases over@.len(),
{
    reveal_with_fuel(<JsonValue as View>::view, 2);
    let ghost before = JsonValue::Object(*entries)@->Object_0;
    let ghost all = JsonValue::Object(over)@->Object_0;
    let mut over = over;
    match over.pop() {
        None => {
            assert(all.len() == 0);
        },
        Some((key, value)) => {
            assert(all.drop_last() =~= JsonValue::Object(over)@->Object_0);
            assert(all.last() == (key@, value@));
            merge_entries(entries, over);
            set_entry(entries, key, value);
        },
    }
}

impl AppError {
    /// The status code and body that the caller receives. Where a detail carries the key `error`,
    /// the detail wins.
    pub fn into_response(self) -> (r: (u16, JsonValue))
        ensures
            (r.0, r.1@) == self@.response(),
    {
        match self {
            AppError::DbError(_) => (
                500,
                JsonValue::Object(error_entries("Internal server error".to_owned())),
            ),
            AppError::InvalidInput(m) => (400, JsonValue::Object(error_entries(m))),
            AppError::Unauthorized(m) => (401, JsonValue::Object(error_entries(m))),
            AppError::Forbidden(m) => (403, JsonValue::Object(error_entries(m))),
            AppError::NotFound => (
                404,
                JsonValue::Object(error_entries("Resource not found".to_owned())),
            ),
            AppError::Conflict(m) => (409, JsonValue::Object(error_entries(m))),
            AppError::ConflictWithDetails { message, details } => {
                let mut entries = error_entries(message);
                if let JsonValue::Object(over) = details {
                    merge_entries(&mut entries, over);
                }
                (409, JsonValue::Object(entries))
            },
            AppError::BodyRejected(status, m) => (status, JsonValue::Object(error_entries(m))),
            AppError::Internal => (
                500,
                JsonValue::Object(error_entries("Internal server error".to_owned())),
            ),
        }
    }

    /// The text that the log shows.
    pub fn message(&self) -> (r: String)
        ensures
            r@ == self@.text(),
    {
        match self {
            AppError::DbError(_) => "database error".to_owned(),
            AppError::InvalidInput(m) => text::concat("invalid input: ", m.as_str()),
            AppError::Unauthorized(m) => text::concat("unauthorized: ", m.as_str()),
            AppError::Forbidden(m) => text::concat("forbidden: ", m.as_str()),
            AppError::NotFound => "not found".to_owned(),
            AppError::Conflict(m) => text::concat("conflict: ", m.as_str()),
            AppError::ConflictWithDetails { message, .. } => {
                text::concat("conflict: ", message.as_str())
            },
            AppError::BodyRejected(_, m) => text::concat("body rejected: ", m.as_str()),
            AppError::Internal => "internal error".to_owned(),
        }
    }

    /// Whatever goes wrong with a secret is an internal failure: no detail reaches the caller.
    pub fn from_crypto(e: CryptoError) -> (r: AppError)
        ensures
            r@ == AppFault::Internal,
    {
        AppError::Internal
    }
}

/// What goes wrong inside the service discloses nothing: every internal failure is answered alike.
pub proof fn law_internal_failures_disclose_nothing(detail: Seq<char>)
    ensures
        AppFault::DbError(detail).response() == AppFault::Internal.response(),
{
}

/// Every error is answered with an `error` entry, and with nothing else unless details came along.
pub proof fn law_error_entry_is_always_there(fault: AppFault)
    ensures
        fault.response().1 is Object,
        fault.response().1.field("error"@) is Some,
        !(fault is ConflictWithDetails) ==> fault.response().1->Object_0.len() == 1,
{
    reveal_with_fuel(crate::json::entry_index, 2);
    if let AppFault::ConflictWithDetails(m, Json::Object(over)) = fault {
        lemma_merged_keeps_keys(error_body(m)->Object_0, over, "error"@);
    }
}

/// Merging drops no key.
proof fn lemma_merged_keeps_keys(
    entries: Seq<(Seq<char>, Json)>,
    over: Seq<(Seq<char>, Json)>,
    key: Seq<char>,
)
    requires
        crate::json::entry_index(entries, key) is Some,
    ensures
        crate::json::entry_index(merged(entries, over), key) is Some,
    decreases over.len(),
{
    if over.len() > 0 {
        lemma_merged_keeps_keys(entries, over.drop_last(), key);
        let before = merged(entries, over.drop_last());
        let (k, v) = over.last();
        crate::json::lemma_entry_index(before, key);
        crate::json::lemma_entry_index(before, k);
        let i = crate::json::entry_index(before, key)->0;
        crate::json::lemma_key_is_found(with_entry(before, k, v), key, i);
    }
}

/// Every failure is answered with the status of its kind and with its message, and what goes wrong
/// inside the service with neither.
pub proof fn law_how_failures_are_answered(e: AppError, m: String, status: u16)
    ensures
        e == AppError::DbError(m) ==> e@.response() == (500u16, error_body("Internal server error"@)),
        e == AppError::InvalidInput(m) ==> e@.response() == (400u16, error_body(m@)),
        e == AppError::Unauthorized(m) ==> e@.response() == (401u16, error_body(m@)),
        e == AppError::Forbidden(m) ==> e@.response() == (403u16, error_body(m@)),
        e is NotFound ==> e@.response() == (404u16, error_body("Resource not found"@)),
        e == AppError::Conflict(m) ==> e@.response() == (409u16, error_body(m@)),
        e is ConflictWithDetails ==> e@.response().0 == 409,
        e == AppError::BodyRejected(status, m) ==> e@.response() == (status, error_body(m@)),
        e is Internal ==> e@.response() == (500u16, error_body("Internal server error"@)),
        error_body(m@).field("error"@) == Some(Json::Text(m@)),
        error_body(m@)->Object_0.len() == 1,
{
    reveal_with_fuel(crate::json::entry_index, 2);
}

/// What the log says of a failure.
pub proof fn law_what_the_log_says(e: AppError, m: String, details: JsonValue, status: u16)
    ensures
        e == AppError::DbError(m) ==> e@.text() == "database error"@,
        e == AppError::InvalidInput(m) ==> e@.text() == "invalid input: "@ + m@,
        e == AppError::Unauthorized(m) ==> e@.text() == "unauthorized: "@ + m@,
        e == AppError::Forbidden(m) ==> e@.text() == "forbidden: "@ + m@,
        e is NotFound ==> e@.text() == "not found"@,
        e == AppError::Conflict(m) ==> e@.text() == "conflict: "@ + m@,
        e == (AppError::ConflictWithDetails { message: m, details }) ==> e@.text() == "conflict: "@
            + m@,
        e == AppError::BodyRejected(status, m) ==> e@.text() == "body rejected: "@ + m@,
        e is Internal ==> e@.text() == "internal error"@,
{
}

/// Setting a key gives it its value, and leaves every other key what it was.
pub proof fn law_set_keys_are_found(
    entries: Seq<(Seq<char>, Json)>,
    key: Seq<char>,
    value: Json,
    other: Seq<char>,
)
    ensures
        Json::Object(with_entry(entries, key, value)).field(key) == Some(value),
        other != key ==> Json::Object(with_entry(entries, key, value)).field(other) == Json::Object(
            entries,
        ).field(other),
{
    let after = with_entry(entries, key, value);
    crate::json::lemma_entry_index(entries, key);
    match crate::json::entry_index(entries, key) {
        Some(i) => {
            assert forall|k: int| 0 <= k < entries.len() implies (#[trigger] after[k]).0
                == entries[k].0 by {}
            lemma_same_keys_same_index(entries, after, key);
            lemma_same_keys_same_index(entries, after, other);
            crate::json::lemma_entry_index(entries, other);
        },
        None => {
            assert(after.drop_last() =~= entries);
            crate::json::lemma_entry_index(entries, other);
        },
    }
}

/// Entries with the same keys are found in the same places.
proof fn lemma_same_keys_same_index(
    a: Seq<(Seq<char>, Json)>,
    b: Seq<(Seq<char>, Json)>,
    key: Seq<char>,
)
    requires
        a.len() == b.len(),
        forall|k: int| 0 <= k < a.len() ==> (#[trigger] b[k]).0 == a[k].0,
    ensures
        crate::json::entry_index(a, key) == crate::json::entry_index(b, key),
    decreases a.len(),
{
    if a.len() > 0 {
        assert forall|k: int| 0 <= k < a.drop_last().len() implies (#[trigger] b.drop_last()[k]).0
            == a.drop_last()[k].0 by {
            assert(b[k].0 == a[k].0);
        }
        lemma_same_keys_same_index(a.drop_last(), b.drop_last(), key);
        assert(b[b.len() - 1].0 == a[a.len() - 1].0);
    }
}

/// The details of a conflict are merged one after the other, each over what was there.
pub proof fn law_details_win(
    entries: Seq<(Seq<char>, Json)>,
    over: Seq<(Seq<char>, Json)>,
    key: Seq<char>,
    value: Json,
)
    ensures
        merged(entries, Seq::empty()) == entries,
        Json::Object(merged(entries, over.push((key, value)))).field(key) == Some(value),
        (forall|i: int| 0 <= i < over.len() ==> (#[trigger] over[i]).0 != key) ==> Json::Object(
            merged(entries, over),
        ).field(key) == Json::Object(entries).field(key),
    decreases over.len(),
{
    assert(over.push((key, value)).drop_last() =~= over);
    law_set_keys_are_found(merged(entries, over), key, value, key);
    if over.len() > 0 && (forall|i: int| 0 <= i < over.len() ==> (#[trigger] over[i]).0 != key) {
        let before = over.drop_last();
        assert forall|i: int| 0 <= i < before.len() implies (#[trigger] before[i]).0 != key by {
            assert(over[i].0 != key);
        }
        assert(over[over.len() - 1].0 != key);
        law_details_win(entries, before, key, value);
        law_set_keys_are_found(merged(entries, before), over.last().0, over.last().1, key);
    }
}

} // verus!
