//! The paths json file of a Whiskey Wine directory: the exe path, the user
//! and the process timeout that the launcher stores there, written and read
//! back.
use vstd::prelude::*;

use crate::decimal::{decimal_text, lemma_decimal_text, parse_usize_text, usize_text_value, usize_to_decimal_text};
use super::{EXE_PATH_JSON_KEY, PROCESS_TIMEOUT_JSON_KEY, USER_JSON_KEY, WineError};
use super::processes::reused_fields;
use crate::text::str_eq;
use serde_json::error::Category;

verus! {

#[verifier::external_type_specification]
#[verifier::external_body]
pub struct ExJsonError(serde_json::Error);

/// What the paths json document holds under a key.
#[derive(Debug, PartialEq, Eq)]
pub enum JsonField {
    /// The key is absent (or the document is not an object).
    Missing,
    /// The key holds a JSON string.
    Text(String),
    /// The key holds a value that is not a string.
    NotText,
}

/// A field as plain values: `None` when missing, `Some(None)` when not a
/// string, `Some(Some(s))` when the string `s`.
pub open spec fn json_field_view(f: JsonField) -> Option<Option<Seq<char>>> {
    match f {
        JsonField::Missing => None,
        JsonField::NotText => Some(None),
        JsonField::Text(s) => Some(Some(s@)),
    }
}

/// Why a text is not a JSON document.
#[derive(Debug, Clone, Copy, PartialEq, Eq, Structural)]
pub enum JsonFailure {
    /// The text ends before its document does.
    Ended,
    /// The text is not a JSON document for another reason.
    Malformed,
}

/// What `serde_json` finds under `key` in the document `text`: the field as
/// `json_field_view` gives it, or why `text` is not a JSON document.
pub uninterp spec fn json_field_at(text: Seq<char>, key: Seq<char>) -> Result<
    Option<Option<Seq<char>>>,
    JsonFailure,
>;

/// A field found in a JSON document, as `json_field_at` gives it.
pub open spec fn parsed_field(f: Option<Option<Seq<char>>>) -> Result<Option<Option<Seq<char>>>, JsonFailure> {
    Ok(f)
}

/// Parses `text` with `serde_json::from_str` into a `serde_json::Value` and
/// looks `key` up with `Value::get`, telling a string value apart from the
/// others, and a failed parse that reached the end of the text
/// (`Category::Eof`) apart from the other failures. The contract claims only
/// that the answer is a function of the two texts, named `json_field_at`;
/// what JSON `serde_json` accepts is not stated here.
#[verifier::external_body]
fn lookup_json_field(text: &str, key: &str) -> (r: Result<JsonField, JsonFailure>)
    ensures
        json_field_at(text@, key@) == match r {
            Ok(f) => Ok(json_field_view(f)),
            Err(e) => Err(e),
        },
{
    match serde_json::from_str::<serde_json::Value>(text) {
        Ok(document) => Ok(match document.get(key) {
            None => JsonField::Missing,
            Some(serde_json::Value::String(s)) => JsonField::Text(s.clone()),
            Some(_) => JsonField::NotText,
        }),
        Err(e) => Err(match e.classify() {
            Category::Eof => JsonFailure::Ended,
            Category::Io | Category::Syntax | Category::Data => JsonFailure::Malformed,
        }),
    }
}

/// The error for a paths file that is not a JSON document: `JsonEnded` when
/// it ends early, `InvalidJson` otherwise.
pub open spec fn json_failure_error(f: JsonFailure) -> WineError {
    match f {
        JsonFailure::Ended => WineError::JsonEnded,
        JsonFailure::Malformed => WineError::InvalidJson,
    }
}

/// The view of a looked-up field, or the error for a malformed document.
pub open spec fn json_field_result(text: Seq<char>, key: Seq<char>) -> Result<
    Option<Option<Seq<char>>>,
    WineError,
> {
    match json_field_at(text, key) {
        Ok(f) => Ok(f),
        Err(f) => Err(json_failure_error(f)),
    }
}

/// What the paths json document `text` holds under `key`.
pub fn json_field(text: &str, key: &str) -> (r: Result<JsonField, WineError>)
    ensures
        json_field_result(text@, key@) == match r {
            Ok(f) => Ok(json_field_view(f)),
            Err(e) => Err(e),
        },
{
    match lookup_json_field(text, key) {
        Ok(f) => Ok(f),
        Err(JsonFailure::Ended) => Err(WineError::JsonEnded),
        Err(JsonFailure::Malformed) => Err(WineError::InvalidJson),
    }
}

/// Whether the paths json document `text` has the key `key`.
pub fn check_if_key_in_json_text(text: &str, key: &str) -> (r: Result<bool, WineError>)
    ensures
        r == match json_field_result(text@, key@) {
            Ok(f) => Ok::<bool, WineError>(f is Some),
            Err(e) => Err(e),
        },
{
    let field = json_field(text, key)?;
    match field {
        JsonField::Missing => Ok(false),
        _ => Ok(true),
    }
}

/// The string under `key`, `not_string` when the key is missing or holds
/// something else.
pub open spec fn json_string(text: Seq<char>, key: Seq<char>, not_string: WineError) -> Result<
    Seq<char>,
    WineError,
> {
    match json_field_result(text, key) {
        Ok(Some(Some(s))) => Ok(s),
        Ok(_) => Err(not_string),
        Err(e) => Err(e),
    }
}

/// The view of a looked-up string.
pub open spec fn text_result_view(r: Result<String, WineError>) -> Result<Seq<char>, WineError> {
    match r {
        Ok(s) => Ok(s@),
        Err(e) => Err(e),
    }
}

/// The string field `key` of the paths json document `text`.
fn string_from_json_text(text: &str, key: &str, not_string: WineError) -> (r: Result<String, WineError>)
    ensures
        text_result_view(r) == json_string(text@, key@, not_string),
{
    let field = json_field(text, key)?;
    match field {
        JsonField::Text(s) => Ok(s),
        _ => Err(not_string),
    }
}

/// Whether the paths json document `text` has an exe path.
pub fn check_if_exe_path_in_json_text(text: &str) -> (r: Result<bool, WineError>)
    ensures
        r == match json_field_result(text@, EXE_PATH_JSON_KEY@) {
            Ok(f) => Ok::<bool, WineError>(f is Some),
            Err(e) => Err(e),
        },
{
    check_if_key_in_json_text(text, EXE_PATH_JSON_KEY)
}

/// Whether the paths json document `text` has a process timeout.
pub fn check_if_process_timeout_in_json_text(text: &str) -> (r: Result<bool, WineError>)
    ensures
        r == match json_field_result(text@, PROCESS_TIMEOUT_JSON_KEY@) {
            Ok(f) => Ok::<bool, WineError>(f is Some),
            Err(e) => Err(e),
        },
{
    check_if_key_in_json_text(text, PROCESS_TIMEOUT_JSON_KEY)
}

/// The exe path stored in the paths json document `text`.
pub fn get_exe_path_from_paths_json_text(text: &str) -> (r: Result<String, WineError>)
    ensures
        text_result_view(r) == json_string(text@, EXE_PATH_JSON_KEY@, WineError::ExePathNotString),
{
    string_from_json_text(text, EXE_PATH_JSON_KEY, WineError::ExePathNotString)
}

/// The user stored in the paths json document `text`.
pub fn get_user_from_paths_json_text(text: &str) -> (r: Result<String, WineError>)
    ensures
        text_result_view(r) == json_string(text@, USER_JSON_KEY@, WineError::UserNotString),
{
    string_from_json_text(text, USER_JSON_KEY, WineError::UserNotString)
}

/// The process timeout stored (as a string) in the paths json document
/// `text`; `None` when that string is not a number, where reading it fails.
pub fn get_process_timeout_from_paths_json_text(text: &str) -> (r: Option<Result<usize, WineError>>)
    ensures
        r == stored_process_timeout(text@),
{
    match string_from_json_text(text, PROCESS_TIMEOUT_JSON_KEY, WineError::ProcessTimeoutNotString) {
        Ok(s) => match parse_usize_text(s.as_str()) {
            Some(t) => Some(Ok(t)),
            None => None,
        },
        Err(e) => Some(Err(e)),
    }
}

// ---------------------------------------------------------------------------
// Writing the paths json file
// ---------------------------------------------------------------------------

/// Entries of a JSON object of strings, as plain values.
pub open spec fn entries_view(entries: Seq<(&str, &str)>) -> Seq<(Seq<char>, Seq<char>)> {
    Seq::new(entries.len(), |i: int| (entries[i].0@, entries[i].1@))
}

/// The string that the object built from `entries` holds under `key`: the
/// value of the entry with that key (of the last one, were there several),
/// `None` when no entry has it.
pub open spec fn entry_value(entries: Seq<(Seq<char>, Seq<char>)>, key: Seq<char>) -> Option<Seq<char>>
    decreases entries.len(),
{
    if entries.len() == 0 {
        None
    } else if entries.last().0 == key {
        Some(entries.last().1)
    } else {
        entry_value(entries.drop_last(), key)
    }
}

/// The field under `key` of the object built from `entries`, as
/// `json_field_view` gives it.
pub open spec fn object_field(entries: Seq<(Seq<char>, Seq<char>)>, key: Seq<char>) -> Option<
    Option<Seq<char>>,
> {
    match entry_value(entries, key) {
        Some(v) => Some(Some(v)),
        None => None,
    }
}

/// Whether no two of `entries` have the same key.
pub open spec fn distinct_keys(entries: Seq<(Seq<char>, Seq<char>)>) -> bool {
    forall|i: int, j: int| 0 <= i < j < entries.len() ==> #[trigger] entries[i].0 != #[trigger] entries[j].0
}

/// What `serde_json::to_string` writes for the JSON object built from
/// `entries` (keys and string values); `None` when it fails.
pub uninterp spec fn json_object_text(entries: Seq<(Seq<char>, Seq<char>)>) -> Option<Seq<char>>;

/// Inserts each of `entries`, whose keys differ, into a `serde_json::Map`
/// as a string value, and writes the map with `serde_json::to_string`. The
/// contract claims that the text is a function of the entries, named
/// `json_object_text`; that writing a map with string keys and string values
/// does not fail; and that parsing the text back (as `lookup_json_field`
/// does) finds under each key of `entries` its value, and nothing under any
/// other key. The JSON syntax, key order and escaping that `serde_json`
/// writes are not stated.
#[verifier::external_body]
fn serialize_string_object(entries: &Vec<(&str, &str)>) -> (r: Result<String, serde_json::Error>)
    requires
        distinct_keys(entries_view(entries@)),
    ensures
        json_object_text(entries_view(entries@)) == match r {
            Ok(t) => Some(t@),
            Err(_) => None,
        },
        r is Ok,
        r matches Ok(t) ==> forall|key: Seq<char>| #[trigger]
            json_field_at(t@, key) == parsed_field(object_field(entries_view(entries@), key)),
{
    let mut json_data = serde_json::Map::new();
    for (key, value) in entries.iter() {
        json_data.insert(key.to_string(), serde_json::Value::from(*value));
    }
    serde_json::to_string(&json_data)
}

/// The text of a paths json file holding the object built from `entries`,
/// or the error for a failed serialization.
pub open spec fn object_text_result(entries: Seq<(Seq<char>, Seq<char>)>) -> Result<Seq<char>, WineError> {
    match json_object_text(entries) {
        Some(t) => Ok(t),
        None => Err(WineError::JsonNotWritten),
    }
}

/// The text of a paths json file holding the object built from `entries`,
/// whose keys differ.
fn object_json_text(entries: &Vec<(&str, &str)>) -> (r: Result<String, WineError>)
    requires
        distinct_keys(entries_view(entries@)),
    ensures
        text_result_view(r) == object_text_result(entries_view(entries@)),
        r is Ok,
        r matches Ok(t) ==> forall|key: Seq<char>| #[trigger]
            json_field_at(t@, key) == parsed_field(object_field(entries_view(entries@), key)),
{
    match serialize_string_object(entries) {
        Ok(t) => Ok(t),
        Err(_) => Err(WineError::JsonNotWritten),
    }
}

/// The process timeout that the paths json document `text` stores (as a
/// string), as `get_process_timeout_from_paths_json_text` reads it: `None`
/// where the string is not a number.
pub open spec fn stored_process_timeout(text: Seq<char>) -> Option<Result<usize, WineError>> {
    match json_string(text, PROCESS_TIMEOUT_JSON_KEY@, WineError::ProcessTimeoutNotString) {
        Ok(s) => match usize_text_value(s) {
            Some(t) => Some(Ok(t)),
            None => None,
        },
        Err(e) => Some(Err(e)),
    }
}

/// The text of the paths json file that stores `exe_path`; reading the exe
/// path back from it gives `exe_path`.
pub fn exe_path_json_text(exe_path: &str) -> (r: Result<String, WineError>)
    ensures
        text_result_view(r) == object_text_result(seq![(EXE_PATH_JSON_KEY@, exe_path@)]),
        r matches Ok(t) && json_string(t@, EXE_PATH_JSON_KEY@, WineError::ExePathNotString) == Ok::<
            Seq<char>,
            WineError,
        >(exe_path@),
{
    let entries = vec![(EXE_PATH_JSON_KEY, exe_path)];
    assert(entries_view(entries@) =~= seq![(EXE_PATH_JSON_KEY@, exe_path@)]);
    let r = object_json_text(&entries);
    proof {
        if r is Ok {
            let t = r->Ok_0;
            assert(json_field_at(t@, EXE_PATH_JSON_KEY@) == parsed_field(Some(Some(exe_path@))));
        }
    }
    r
}

/// The text of the paths json file that stores `user`; reading the user
/// back from it gives `user`.
pub fn user_json_text(user: &str) -> (r: Result<String, WineError>)
    ensures
        text_result_view(r) == object_text_result(seq![(USER_JSON_KEY@, user@)]),
        r matches Ok(t) && json_string(t@, USER_JSON_KEY@, WineError::UserNotString) == Ok::<
            Seq<char>,
            WineError,
        >(user@),
{
    let entries = vec![(USER_JSON_KEY, user)];
    assert(entries_view(entries@) =~= seq![(USER_JSON_KEY@, user@)]);
    let r = object_json_text(&entries);
    proof {
        if r is Ok {
            let t = r->Ok_0;
            assert(json_field_at(t@, USER_JSON_KEY@) == parsed_field(Some(Some(user@))));
        }
    }
    r
}

/// The text of the paths json file that stores `process_timeout`, written in
/// base ten as a string; reading the timeout back from it gives
/// `process_timeout`.
pub fn process_timeout_json_text(process_timeout: usize) -> (r: Result<String, WineError>)
    ensures
        text_result_view(r) == object_text_result(
            seq![(PROCESS_TIMEOUT_JSON_KEY@, decimal_text(process_timeout as nat))],
        ),
        r matches Ok(t) && stored_process_timeout(t@) == Some(Ok::<usize, WineError>(process_timeout)),
{
    let text = usize_to_decimal_text(process_timeout);
    let entries = vec![(PROCESS_TIMEOUT_JSON_KEY, text.as_str())];
    assert(entries_view(entries@) =~= seq![(PROCESS_TIMEOUT_JSON_KEY@, text@)]);
    let r = object_json_text(&entries);
    proof {
        lemma_decimal_text(process_timeout as nat);
        if r is Ok {
            let t = r->Ok_0;
            assert(json_field_at(t@, PROCESS_TIMEOUT_JSON_KEY@) == parsed_field(Some(Some(text@))));
        }
    }
    r
}

/// The entries of a paths json file that stores an exe path, a user and a
/// process timeout.
pub open spec fn paths_entries(exe_path: Seq<char>, user: Seq<char>, process_timeout: usize) -> Seq<
    (Seq<char>, Seq<char>),
> {
    seq![
        (EXE_PATH_JSON_KEY@, exe_path),
        (USER_JSON_KEY@, user),
        (PROCESS_TIMEOUT_JSON_KEY@, decimal_text(process_timeout as nat)),
    ]
}

/// The three keys of the paths json file differ.
proof fn lemma_keys_differ()
    ensures
        EXE_PATH_JSON_KEY@ != USER_JSON_KEY@,
        EXE_PATH_JSON_KEY@ != PROCESS_TIMEOUT_JSON_KEY@,
        USER_JSON_KEY@ != PROCESS_TIMEOUT_JSON_KEY@,
{
    reveal_strlit("EXE_PATH");
    reveal_strlit("USER");
    reveal_strlit("PROCESS_TIMEOUT");
    assert(EXE_PATH_JSON_KEY@.len() != USER_JSON_KEY@.len());
    assert(EXE_PATH_JSON_KEY@.len() != PROCESS_TIMEOUT_JSON_KEY@.len());
    assert(USER_JSON_KEY@.len() != PROCESS_TIMEOUT_JSON_KEY@.len());
}

/// The text of the paths json file that stores `exe_path`, `user` and
/// `process_timeout` (in base ten, as a string); reading each back from it
/// gives what was stored, and so does reusing the program it describes.
pub fn paths_json_text(exe_path: &str, user: &str, process_timeout: usize) -> (r: Result<
    String,
    WineError,
>)
    ensures
        text_result_view(r) == object_text_result(paths_entries(exe_path@, user@, process_timeout)),
        r matches Ok(t) && json_string(t@, EXE_PATH_JSON_KEY@, WineError::ExePathNotString) == Ok::<
            Seq<char>,
            WineError,
        >(exe_path@) && json_string(t@, USER_JSON_KEY@, WineError::UserNotString) == Ok::<
            Seq<char>,
            WineError,
        >(user@) && stored_process_timeout(t@) == Some(Ok::<usize, WineError>(process_timeout))
            && reused_fields(t@) == Some(
            Ok::<(Seq<char>, Seq<char>, usize), WineError>((exe_path@, user@, process_timeout)),
        ),
{
    let text = usize_to_decimal_text(process_timeout);
    let entries = vec![
        (EXE_PATH_JSON_KEY, exe_path),
        (USER_JSON_KEY, user),
        (PROCESS_TIMEOUT_JSON_KEY, text.as_str()),
    ];
    assert(entries_view(entries@) =~= paths_entries(exe_path@, user@, process_timeout));
    proof {
        lemma_keys_differ();
        let es = paths_entries(exe_path@, user@, process_timeout);
        assert forall|i: int, j: int| 0 <= i < j < es.len() implies #[trigger] es[i].0 != #[trigger] es[j].0 by {
            assert(es[0].0 == EXE_PATH_JSON_KEY@);
            assert(es[1].0 == USER_JSON_KEY@);
            assert(es[2].0 == PROCESS_TIMEOUT_JSON_KEY@);
        }
    }
    let r = object_json_text(&entries);
    proof {
        lemma_decimal_text(process_timeout as nat);
        let es = paths_entries(exe_path@, user@, process_timeout);
        assert(es.drop_last().drop_last() =~= seq![(EXE_PATH_JSON_KEY@, exe_path@)]);
        assert(es.drop_last().drop_last().drop_last() =~= Seq::<(Seq<char>, Seq<char>)>::empty());
        assert(entry_value(es, EXE_PATH_JSON_KEY@) == entry_value(es.drop_last(), EXE_PATH_JSON_KEY@));
        assert(entry_value(es.drop_last(), EXE_PATH_JSON_KEY@) == entry_value(
            es.drop_last().drop_last(),
            EXE_PATH_JSON_KEY@,
        ));
        assert(entry_value(es, USER_JSON_KEY@) == entry_value(es.drop_last(), USER_JSON_KEY@));
        if r is Ok {
            let t = r->Ok_0;
            assert(json_field_at(t@, EXE_PATH_JSON_KEY@) == parsed_field(Some(Some(exe_path@))));
            assert(json_field_at(t@, USER_JSON_KEY@) == parsed_field(Some(Some(user@))));
            assert(json_field_at(t@, PROCESS_TIMEOUT_JSON_KEY@) == parsed_field(Some(Some(text@))));
        }
    }
    r
}

/// The string that `text` stores under `key`, if any (none where the key
/// is missing, holds something else, or `text` is not JSON).
pub open spec fn stored_string(text: Seq<char>, key: Seq<char>) -> Option<Seq<char>> {
    match json_field_at(text, key) {
        Ok(Some(Some(s))) => Some(s),
        _ => None,
    }
}

/// The string stored under `key` in `text`, as a field.
pub open spec fn stored_string_field(text: Seq<char>, key: Seq<char>) -> Option<Option<Seq<char>>> {
    match stored_string(text, key) {
        Some(s) => Some(Some(s)),
        None => None,
    }
}

/// The entry that an updated paths json file keeps under `k` from the
/// earlier text `existing` when `key` is set: the string stored there, if
/// any, unless `k` is the key being set.
pub open spec fn kept_entry(existing: Seq<char>, key: Seq<char>, k: Seq<char>) -> Seq<
    (Seq<char>, Seq<char>),
> {
    if k == key {
        seq![]
    } else {
        match stored_string(existing, k) {
            Some(s) => seq![(k, s)],
            None => seq![],
        }
    }
}

/// The entries of the paths json file `existing` after `key` is set to
/// `value`: the exe path, user and process timeout strings it stored under
/// the other keys, then the new entry.
pub open spec fn updated_entries(existing: Seq<char>, key: Seq<char>, value: Seq<char>) -> Seq<
    (Seq<char>, Seq<char>),
> {
    kept_entry(existing, key, EXE_PATH_JSON_KEY@) + kept_entry(existing, key, USER_JSON_KEY@)
        + kept_entry(existing, key, PROCESS_TIMEOUT_JSON_KEY@) + seq![(key, value)]
}

/// The string that `existing` stores under `key`, if any.
fn kept_string(existing: &str, key: &str) -> (r: Option<String>)
    ensures
        match r {
            Some(s) => stored_string(existing@, key@) == Some(s@),
            None => stored_string(existing@, key@) is None,
        },
{
    match lookup_json_field(existing, key) {
        Ok(JsonField::Text(s)) => Some(s),
        _ => None,
    }
}

/// Adds to `entries` the string that `existing` stores under `k`, unless `k`
/// is `key` or there is none.
fn push_kept_entry<'a>(
    entries: &mut Vec<(&'a str, &'a str)>,
    kept: &'a Option<String>,
    existing: &str,
    key: &str,
    k: &'a str,
)
    requires
        match kept {
            Some(s) => stored_string(existing@, k@) == Some(s@),
            None => stored_string(existing@, k@) is None,
        },
    ensures
        entries_view(final(entries)@) == entries_view(old(entries)@) + kept_entry(existing@, key@, k@),
{
    let ghost start = entries_view(entries@);
    if !str_eq(key, k) {
        if let Some(s) = kept {
            entries.push((k, s.as_str()));
        }
    }
    assert(entries_view(entries@) =~= start + kept_entry(existing@, key@, k@));
}

/// The text of the paths json file `existing` with `key` set to `value`:
/// the exe path, user and process timeout strings that `existing` stores
/// under the other keys are kept (nothing is, where `existing` is not JSON),
/// and `value` is stored under `key`. So a new exe path written into the
/// file of a program that can be reused leaves its user and timeout as they
/// were.
pub fn updated_paths_json_text(existing: &str, key: &str, value: &str) -> (r: Result<
    String,
    WineError,
>)
    ensures
        text_result_view(r) == object_text_result(updated_entries(existing@, key@, value@)),
        r matches Ok(t) && json_field_at(t@, key@) == parsed_field(
            Some(Some(value@)),
        ) && (forall|k: Seq<char>|
            (k == EXE_PATH_JSON_KEY@ || k == USER_JSON_KEY@ || k == PROCESS_TIMEOUT_JSON_KEY@) && k
                != key@ ==> #[trigger] json_field_at(t@, k) == parsed_field(stored_string_field(existing@, k))) && (key@ == EXE_PATH_JSON_KEY@ ==> match reused_fields(
            existing@,
        ) {
            Some(Ok((_, user, timeout))) => reused_fields(t@) == Some(
                Ok::<(Seq<char>, Seq<char>, usize), WineError>((value@, user, timeout)),
            ),
            _ => true,
        }),
{
    let exe = kept_string(existing, EXE_PATH_JSON_KEY);
    let user = kept_string(existing, USER_JSON_KEY);
    let timeout = kept_string(existing, PROCESS_TIMEOUT_JSON_KEY);
    let mut entries: Vec<(&str, &str)> = Vec::new();
    proof {
        assert(entries_view(entries@) =~= Seq::<(Seq<char>, Seq<char>)>::empty());
    }
    push_kept_entry(&mut entries, &exe, existing, key, EXE_PATH_JSON_KEY);
    push_kept_entry(&mut entries, &user, existing, key, USER_JSON_KEY);
    push_kept_entry(&mut entries, &timeout, existing, key, PROCESS_TIMEOUT_JSON_KEY);
    let ghost before = entries_view(entries@);
    entries.push((key, value));
    let ghost es = updated_entries(existing@, key@, value@);
    assert(entries_view(entries@) =~= es) by {
        assert(entries_view(entries@) =~= before + seq![(key@, value@)]);
    }
    proof {
        lemma_updated_entries_distinct(existing@, key@, value@);
    }
    let r = object_json_text(&entries);
    proof {
        lemma_keys_differ();
        if r is Ok {
            let t = r->Ok_0;
            assert(json_field_at(t@, key@) == parsed_field(
                object_field(es, key@),
            ));
            assert forall|k: Seq<char>|
                (k == EXE_PATH_JSON_KEY@ || k == USER_JSON_KEY@ || k == PROCESS_TIMEOUT_JSON_KEY@) && k
                    != key@ implies #[trigger] json_field_at(t@, k) == parsed_field(stored_string_field(existing@, k)) by {
                assert(json_field_at(t@, k) == parsed_field(
                    object_field(es, k),
                ));
                lemma_kept_entries_value(existing@, key@, value@, k);
            }
            if key@ == EXE_PATH_JSON_KEY@ {
                assert(json_field_at(t@, USER_JSON_KEY@) == parsed_field(stored_string_field(existing@, USER_JSON_KEY@)));
                assert(json_field_at(t@, PROCESS_TIMEOUT_JSON_KEY@) == parsed_field(stored_string_field(existing@, PROCESS_TIMEOUT_JSON_KEY@)));
            }
        }
    }
    r
}

/// What an entry kept under `k` holds, and under which key.
proof fn lemma_kept_entry_shape(existing: Seq<char>, key: Seq<char>, k: Seq<char>)
    ensures
        kept_entry(existing, key, k).len() <= 1,
        kept_entry(existing, key, k).len() == 1 ==> kept_entry(existing, key, k)[0].0 == k && k != key,
{
}

/// The updated entries have distinct keys.
proof fn lemma_updated_entries_distinct(existing: Seq<char>, key: Seq<char>, value: Seq<char>)
    ensures
        distinct_keys(updated_entries(existing, key, value)),
{
    lemma_keys_differ();
    let a = kept_entry(existing, key, EXE_PATH_JSON_KEY@);
    let b = kept_entry(existing, key, USER_JSON_KEY@);
    let c = kept_entry(existing, key, PROCESS_TIMEOUT_JSON_KEY@);
    lemma_kept_entry_shape(existing, key, EXE_PATH_JSON_KEY@);
    lemma_kept_entry_shape(existing, key, USER_JSON_KEY@);
    lemma_kept_entry_shape(existing, key, PROCESS_TIMEOUT_JSON_KEY@);
    let es = updated_entries(existing, key, value);
    let la = a.len() as int;
    let lb = b.len() as int;
    let lc = c.len() as int;
    assert forall|i: int| 0 <= i < es.len() implies #[trigger] es[i].0 == if i < la {
        EXE_PATH_JSON_KEY@
    } else if i < la + lb {
        USER_JSON_KEY@
    } else if i < la + lb + lc {
        PROCESS_TIMEOUT_JSON_KEY@
    } else {
        key
    } by {
        if i < la {
            assert(es[i] == a[i]);
        } else if i < la + lb {
            assert(es[i] == b[i - la]);
        } else if i < la + lb + lc {
            assert(es[i] == c[i - la - lb]);
        } else {
            assert(es[i] == (key, value));
        }
    }
    assert forall|i: int, j: int| 0 <= i < j < es.len() implies #[trigger] es[i].0 != #[trigger] es[j].0 by {
        assert(es[i].0 == if i < la {
            EXE_PATH_JSON_KEY@
        } else if i < la + lb {
            USER_JSON_KEY@
        } else if i < la + lb + lc {
            PROCESS_TIMEOUT_JSON_KEY@
        } else {
            key
        });
        assert(es[j].0 == if j < la {
            EXE_PATH_JSON_KEY@
        } else if j < la + lb {
            USER_JSON_KEY@
        } else if j < la + lb + lc {
            PROCESS_TIMEOUT_JSON_KEY@
        } else {
            key
        });
    }
}

/// Under a key of the paths json file other than the one set, the updated
/// entries hold what `existing` stored.
proof fn lemma_kept_entries_value(existing: Seq<char>, key: Seq<char>, value: Seq<char>, k: Seq<char>)
    requires
        k == EXE_PATH_JSON_KEY@ || k == USER_JSON_KEY@ || k == PROCESS_TIMEOUT_JSON_KEY@,
        k != key,
    ensures
        object_field(updated_entries(existing, key, value), k) == stored_string_field(existing, k),
{
    lemma_keys_differ();
    let a = kept_entry(existing, key, EXE_PATH_JSON_KEY@);
    let b = kept_entry(existing, key, USER_JSON_KEY@);
    let c = kept_entry(existing, key, PROCESS_TIMEOUT_JSON_KEY@);
    let es = updated_entries(existing, key, value);
    assert(es.drop_last() =~= a + b + c);
    lemma_entry_value_append(a + b, c, k);
    lemma_entry_value_append(a, b, k);
    lemma_kept_entry_value(existing, key, EXE_PATH_JSON_KEY@, k);
    lemma_kept_entry_value(existing, key, USER_JSON_KEY@, k);
    lemma_kept_entry_value(existing, key, PROCESS_TIMEOUT_JSON_KEY@, k);
}

/// Looking `k` up in the entry kept under `kk`.
proof fn lemma_kept_entry_value(existing: Seq<char>, key: Seq<char>, kk: Seq<char>, k: Seq<char>)
    ensures
        entry_value(kept_entry(existing, key, kk), k) == if kk == k && kk != key {
            stored_string(existing, kk)
        } else {
            None
        },
{
    let e = kept_entry(existing, key, kk);
    if e.len() > 0 {
        assert(e.drop_last() =~= Seq::<(Seq<char>, Seq<char>)>::empty());
        assert(entry_value(e.drop_last(), k) == None::<Seq<char>>);
    }
}

/// Looking a key up in `front + back`: the last entry of `back` with that
/// key, else the last of `front`.
proof fn lemma_entry_value_append(
    front: Seq<(Seq<char>, Seq<char>)>,
    back: Seq<(Seq<char>, Seq<char>)>,
    key: Seq<char>,
)
    ensures
        entry_value(front + back, key) == match entry_value(back, key) {
            Some(v) => Some(v),
            None => entry_value(front, key),
        },
    decreases back.len(),
{
    if back.len() == 0 {
        assert(front + back =~= front);
    } else {
        assert((front + back).drop_last() =~= front + back.drop_last());
        lemma_entry_value_append(front, back.drop_last(), key);
    }
}

} // verus!
