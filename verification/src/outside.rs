//! Calls into outside crates that compute on plain values.
use vstd::prelude::*;

verus! {

/// What matching `haystack` against the regular expression `pattern` gives:
/// `None` when `pattern` is not a valid expression, else whether it matches
/// somewhere in `haystack`.
pub uninterp spec fn regex_match(pattern: Seq<char>, haystack: Seq<char>) -> Option<bool>;

/// Compiles `pattern` with `regex::Regex::new` and, when it compiles, asks
/// `Regex::is_match` whether it matches somewhere in `haystack`. The
/// contract names the result `regex_match(pattern@, haystack@)` and says
/// nothing more of it.
#[verifier::external_body]
pub(crate) fn regex_is_match(pattern: &str, haystack: &str) -> (r: Option<bool>)
    ensures
        r == regex_match(pattern@, haystack@),
{
    match regex::Regex::new(pattern) {
        Ok(re) => Some(re.is_match(haystack)),
        Err(_) => None,
    }
}

/// What replacing the leftmost match of `pattern` in `haystack` by `rep`
/// gives: `None` when `pattern` is not a valid expression.
pub uninterp spec fn regex_replace_first(pattern: Seq<char>, haystack: Seq<char>, rep: Seq<char>) -> Option<Seq<char>>;

/// Compiles `pattern` with `regex::Regex::new` and, when it compiles, calls
/// `Regex::replace`, which replaces the leftmost match only. The contract
/// names the result and says nothing more of it.
#[verifier::external_body]
pub(crate) fn regex_replace(pattern: &str, haystack: &str, rep: &str) -> (r: Option<String>)
    ensures
        match r {
            Some(s) => regex_replace_first(pattern@, haystack@, rep@) == Some(s@),
            None => regex_replace_first(pattern@, haystack@, rep@) is None,
        },
{
    match regex::Regex::new(pattern) {
        Ok(re) => Some(re.replace(haystack, rep).into_owned()),
        Err(_) => None,
    }
}

/// The MD5 digest of a byte sequence.
pub uninterp spec fn md5_digest(data: Seq<u8>) -> Seq<u8>;

/// `md5::compute`: the 16 bytes of the digest of `data`.
#[verifier::external_body]
pub(crate) fn md5_compute(data: &[u8]) -> (r: [u8; 16])
    ensures
        r@ == md5_digest(data@),
{
    md5::compute(data).0
}

/// A new random identifier: `uuid::Uuid::new_v4` in its hyphenated text
/// form. Nothing is claimed of the text, which is random.
#[verifier::external_body]
pub(crate) fn new_uuid_string() -> (r: String) {
    uuid::Uuid::new_v4().to_string()
}

/// The seconds elapsed since the Unix epoch (`SystemTime::elapsed` on
/// `UNIX_EPOCH`), 0 for a clock set before it. Nothing is claimed of the value, which comes from the clock.
#[verifier::external_body]
pub(crate) fn now_unix_seconds() -> (r: u64) {
    match std::time::UNIX_EPOCH.elapsed() {
        Ok(d) => d.as_secs(),
        Err(_) => 0,
    }
}

/// The lower-case form of a string (`str::to_lowercase`).
pub uninterp spec fn lowercase(s: Seq<char>) -> Seq<char>;

/// `str::to_lowercase`, which std documents as mapping each character to
/// its Unicode lowercase form. The contract names the result.
#[verifier::external_body]
pub(crate) fn to_lowercase(s: &str) -> (r: String)
    ensures
        r@ == lowercase(s@),
{
    s.to_lowercase()
}


/// What `serde_json::from_str::<String>` gives on `s`: the string that the
/// JSON string literal `s` denotes, or the text of the parse error.
pub uninterp spec fn json_string_parse(s: Seq<char>) -> Result<Seq<char>, Seq<char>>;

/// `serde_json::from_str::<String>`: reads `s` as a JSON string literal.
/// On failure the error is handed back as its display text. The contract
/// names the outcome and says nothing more of it.
#[verifier::external_body]
pub(crate) fn parse_json_string(s: &str) -> (r: Result<String, String>)
    ensures
        match r {
            Ok(v) => json_string_parse(s@) == Ok::<Seq<char>, Seq<char>>(v@),
            Err(e) => json_string_parse(s@) == Err::<Seq<char>, Seq<char>>(e@),
        },
{
    match serde_json::from_str::<String>(s) {
        Ok(v) => Ok(v),
        Err(e) => Err(e.to_string()),
    }
}


/// What the `time` crate prints for the instant `seconds` after the Unix
/// epoch, seen at the offset of `hours` and `minutes`, in the format that
/// the description `description` describes; `None` where the crate refuses
/// the instant, the offset, the shifted date or the description.
pub uninterp spec fn commit_time_text(description: Seq<char>, seconds: i64, hours: i8, minutes: i8) -> Option<Seq<char>>;

/// Formats an instant with the `time` crate:
/// `OffsetDateTime::from_unix_timestamp`, `UtcOffset::from_hms`,
/// `checked_to_offset`, `format_description::parse` on `description`, and
/// `format`. Each refusal of the crate is handed back as `None`. The
/// contract names the result and says nothing more of it.
#[verifier::external_body]
pub(crate) fn format_commit_time(description: &str, seconds: i64, hours: i8, minutes: i8) -> (r: Option<String>)
    ensures
        match r {
            Some(t) => commit_time_text(description@, seconds, hours, minutes) == Some(t@),
            None => commit_time_text(description@, seconds, hours, minutes) is None,
        },
{
    let dt = time::OffsetDateTime::from_unix_timestamp(seconds).ok()?;
    let offset = time::UtcOffset::from_hms(hours, minutes, 0).ok()?;
    let dto = dt.checked_to_offset(offset)?;
    let format = time::format_description::parse(description).ok()?;
    dto.format(&format).ok()
}


/// The text that Rust's `Debug` formatting gives a string: the string in
/// double quotes, with its special characters escaped.
pub uninterp spec fn debug_text(s: Seq<char>) -> Seq<char>;

/// `format!("{:?}", s)` on a string slice. The contract names the result.
#[verifier::external_body]
pub(crate) fn debug_quote(s: &str) -> (r: String)
    ensures
        r@ == debug_text(s@),
{
    format!("{:?}", s)
}

} // verus!
