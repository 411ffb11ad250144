//! The current book, chapter and verse, and the application state that is
//! saved when it changes.
use vstd::prelude::*;
use crate::json::{Json, JsonValue, view_members, lemma_view_members};
use crate::responses::{
    ApiResponse, bad_response, is_bad, is_json_text, is_ok_ok, json_quote, json_string_text,
    ok_json_response, ok_ok_json_response, STATUS_INTERNAL_SERVER_ERROR, STATUS_OK,
};
use crate::structs::{AppSettings, Bcv, ProjectIdentifier};
use crate::text::{concat3, decimal, push_decimal, push_str, u64_to_string};

verus! {

/// A position as serde_json prints it:
/// `{"book_code":..,"chapter":..,"verse":..,"to_verse":..}`.
pub open spec fn bcv_text(b: Bcv) -> Seq<char> {
    "{\"book_code\":"@ + json_string_text(b.book_code@) + ",\"chapter\":"@ + decimal(b.chapter as nat)
        + ",\"verse\":"@ + decimal(b.verse as nat) + ",\"to_verse\":"@ + decimal(b.to_verse as nat) + "}"@
}

/// The current position as JSON text.
pub fn bcv_json_text(b: &Bcv) -> (r: String)
    ensures
        r@ == bcv_text(*b),
{
    let mut r = "{\"book_code\":".to_owned();
    let q = json_quote(b.book_code.as_str());
    push_str(&mut r, q.as_str());
    push_str(&mut r, ",\"chapter\":");
    push_decimal(&mut r, b.chapter as u64);
    push_str(&mut r, ",\"verse\":");
    push_decimal(&mut r, b.verse as u64);
    push_str(&mut r, ",\"to_verse\":");
    push_decimal(&mut r, b.to_verse as u64);
    push_str(&mut r, "}");
    r
}

/// The reply to a request for the current position.
pub fn get_bcv(settings: &AppSettings) -> (r: ApiResponse)
    ensures
        is_json_text(r, STATUS_OK, bcv_text(settings.bcv)),
{
    ok_json_response(bcv_json_text(&settings.bcv))
}

/// A position as a JSON document.
pub open spec fn bcv_document(b: Bcv) -> Json {
    Json::Object(seq![
        ("book_code"@, Json::Str(b.book_code@)),
        ("chapter"@, Json::Number(decimal(b.chapter as nat))),
        ("verse"@, Json::Number(decimal(b.verse as nat))),
        ("to_verse"@, Json::Number(decimal(b.to_verse as nat))),
    ])
}

/// The selected project as a JSON document, or null.
pub open spec fn project_document(p: Option<ProjectIdentifier>) -> Json {
    match p {
        Some(p) => Json::Object(seq![
            ("source"@, Json::Str(p.source@)),
            ("organization"@, Json::Str(p.organization@)),
            ("project"@, Json::Str(p.project@)),
        ]),
        None => Json::Null,
    }
}

/// The application state saved after a move:
/// `{"bcv", "current_project", "snippet": null, "word": null}`.
pub open spec fn navigation_state(b: Bcv, p: Option<ProjectIdentifier>) -> Json {
    Json::Object(seq![
        ("bcv"@, bcv_document(b)),
        ("current_project"@, project_document(p)),
        ("snippet"@, Json::Null),
        ("word"@, Json::Null),
    ])
}

fn member(key: &str, v: JsonValue) -> (r: (String, JsonValue))
    ensures
        r.0@ == key@,
        r.1@ == v@,
{
    (key.to_owned(), v)
}

fn bcv_value(b: &Bcv) -> (r: JsonValue)
    ensures
        r@ == bcv_document(*b),
{
    let c = JsonValue::Number(u64_to_string(b.chapter as u64));
    let v = JsonValue::Number(u64_to_string(b.verse as u64));
    let t = JsonValue::Number(u64_to_string(b.to_verse as u64));
    let m = vec![
        member("book_code", JsonValue::Str(b.book_code.clone())),
        member("chapter", c),
        member("verse", v),
        member("to_verse", t),
    ];
    proof {
        lemma_view_members(m@);
        assert(view_members(m@) =~= seq![
            ("book_code"@, Json::Str(b.book_code@)),
            ("chapter"@, Json::Number(decimal(b.chapter as nat))),
            ("verse"@, Json::Number(decimal(b.verse as nat))),
            ("to_verse"@, Json::Number(decimal(b.to_verse as nat))),
        ]);
    }
    JsonValue::Object(m)
}

fn project_value(p: &Option<ProjectIdentifier>) -> (r: JsonValue)
    ensures
        r@ == project_document(*p),
{
    match p {
        Some(p) => {
            let m = vec![
                member("source", JsonValue::Str(p.source.clone())),
                member("organization", JsonValue::Str(p.organization.clone())),
                member("project", JsonValue::Str(p.project.clone())),
            ];
            proof {
                lemma_view_members(m@);
                assert(view_members(m@) =~= seq![
                    ("source"@, Json::Str(p.source@)),
                    ("organization"@, Json::Str(p.organization@)),
                    ("project"@, Json::Str(p.project@)),
                ]);
            }
            JsonValue::Object(m)
        },
        None => JsonValue::Null,
    }
}

/// The application state to save for a move to `new_bcv`.
pub fn bcv_state_document(settings: &AppSettings, new_bcv: &Bcv) -> (r: JsonValue)
    ensures
        r@ == navigation_state(*new_bcv, settings.current_project),
{
    let b = bcv_value(new_bcv);
    let p = project_value(&settings.current_project);
    let m = vec![
        member("bcv", b),
        member("current_project", p),
        member("snippet", JsonValue::Null),
        member("word", JsonValue::Null),
    ];
    proof {
        lemma_view_members(m@);
        assert(view_members(m@) =~= seq![
            ("bcv"@, bcv_document(*new_bcv)),
            ("current_project"@, project_document(settings.current_project)),
            ("snippet"@, Json::Null),
            ("word"@, Json::Null),
        ]);
    }
    JsonValue::Object(m)
}

/// The position of a range move.
pub fn range_bcv(book_code: &str, chapter: u16, verse: u16, to_verse: u16) -> (r: Bcv)
    ensures
        r.book_code@ == book_code@,
        r.chapter == chapter,
        r.verse == verse,
        r.to_verse == to_verse,
{
    Bcv { book_code: book_code.to_owned(), chapter, verse, to_verse }
}

/// The position of a move to one verse: a range of that verse alone.
pub fn verse_bcv(book_code: &str, chapter: u16, verse: u16) -> (r: Bcv)
    ensures
        r.book_code@ == book_code@,
        r.chapter == chapter,
        r.verse == verse,
        r.to_verse == verse,
{
    range_bcv(book_code, chapter, verse, verse)
}

/// The reason given when the application state could not be saved.
pub open spec fn state_write_reason(e: Seq<char>) -> Seq<char> {
    "Could not write app state: '"@ + e + "'"@
}

/// Completes a move once the application state was saved, or not:
/// after a failed save the state is left as it was and a 500 reply gives
/// the error; else the position becomes `new_bcv`, and when
/// `clear_selection` the selected snippet and word are cleared.
fn commit_bcv(settings: &mut AppSettings, new_bcv: Bcv, write_error: Option<String>, clear_selection: bool) -> (r: ApiResponse)
    ensures
        write_error is Some ==> *final(settings) == *old(settings)
            && is_bad(r, STATUS_INTERNAL_SERVER_ERROR, state_write_reason(write_error->Some_0@)),
        write_error is None ==> is_ok_ok(r) && final(settings).bcv == new_bcv
            && final(settings).snippet == (if clear_selection { None } else { old(settings).snippet })
            && final(settings).word == (if clear_selection { None } else { old(settings).word })
            && final(settings).current_project == old(settings).current_project
            && final(settings).typography == old(settings).typography
            && final(settings).languages == old(settings).languages
            && final(settings).auth_tokens == old(settings).auth_tokens
            && final(settings).repo_dir == old(settings).repo_dir,
{
    match write_error {
        Some(e) => bad_response(STATUS_INTERNAL_SERVER_ERROR, concat3("Could not write app state: '", e.as_str(), "'")),
        None => {
            settings.bcv = new_bcv;
            if clear_selection {
                settings.snippet = None;
                settings.word = None;
            }
            ok_ok_json_response()
        },
    }
}

/// Moves to a verse range, once the state document of
/// `bcv_state_document` was saved (`write_error` is `None`) or failed to
/// be: the position becomes the range; the selected snippet and word stay.
pub fn post_bcv_range(
    settings: &mut AppSettings,
    book_code: &str,
    chapter: u16,
    verse: u16,
    to_verse: u16,
    write_error: Option<String>,
) -> (r: ApiResponse)
    ensures
        write_error is Some ==> *final(settings) == *old(settings)
            && is_bad(r, STATUS_INTERNAL_SERVER_ERROR, state_write_reason(write_error->Some_0@)),
        write_error is None ==> is_ok_ok(r) && final(settings).bcv.book_code@ == book_code@
            && final(settings).bcv.chapter == chapter && final(settings).bcv.verse == verse
            && final(settings).bcv.to_verse == to_verse
            && final(settings).snippet == old(settings).snippet && final(settings).word == old(settings).word
            && final(settings).current_project == old(settings).current_project,
{
    let b = range_bcv(book_code, chapter, verse, to_verse);
    commit_bcv(settings, b, write_error, false)
}

/// Moves to one verse, once the state document of `bcv_state_document`
/// was saved or failed to be: the position becomes the verse, and the
/// selected snippet and word are cleared.
pub fn post_bcv(
    settings: &mut AppSettings,
    book_code: &str,
    chapter: u16,
    verse: u16,
    write_error: Option<String>,
) -> (r: ApiResponse)
    ensures
        write_error is Some ==> *final(settings) == *old(settings)
            && is_bad(r, STATUS_INTERNAL_SERVER_ERROR, state_write_reason(write_error->Some_0@)),
        write_error is None ==> is_ok_ok(r) && final(settings).bcv.book_code@ == book_code@
            && final(settings).bcv.chapter == chapter && final(settings).bcv.verse == verse
            && final(settings).bcv.to_verse == verse
            && final(settings).snippet is None && final(settings).word is None
            && final(settings).current_project == old(settings).current_project,
{
    let b = verse_bcv(book_code, chapter, verse);
    commit_bcv(settings, b, write_error, true)
}


/// A move is read back: once a move to a verse has been saved, the
/// position reported is that verse, as a range of one verse.
pub proof fn law_moved_verse_is_reported(b: Bcv, book: Seq<char>, chapter: u16, verse: u16)
    requires
        b.book_code@ == book,
        b.chapter == chapter,
        b.verse == verse,
        b.to_verse == verse,
    ensures
        bcv_text(b) == "{\"book_code\":"@ + json_string_text(book) + ",\"chapter\":"@ + decimal(chapter as nat)
            + ",\"verse\":"@ + decimal(verse as nat) + ",\"to_verse\":"@ + decimal(verse as nat) + "}"@,
{
}

} // verus!
