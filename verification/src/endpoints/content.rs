//! The files of new content repositories: filled metadata templates,
//! language records, ingredient records and book stubs.
use vstd::prelude::*;
use vstd::utf8::encode_utf8;
use crate::outside::{md5_compute, md5_digest};
use crate::json::{Json, JsonValue, index_key, lookup};
use crate::responses::{
    ApiResponse, bad_response, is_bad, json_quote, json_string_text, STATUS_BAD_REQUEST,
    STATUS_INTERNAL_SERVER_ERROR,
};
use crate::text::{
    chars_of, concat3, has_prefix, parse_i32, parse_i32_spec, push_char, push_str, push_decimal,
    decimal, replace, replace_all, starts_with, string_views,
};

verus! {

// ---------------------------------------------------------------- digests

/// The lower-case hexadecimal digit for `d`, for `d < 16`.
pub open spec fn hex_digit(d: int) -> char {
    seq!['0', '1', '2', '3', '4', '5', '6', '7', '8', '9', 'a', 'b', 'c', 'd', 'e', 'f'][d]
}

/// Two lower-case hexadecimal digits per byte, in order (`{:02x}` on each).
pub open spec fn hex_text(b: Seq<u8>) -> Seq<char>
    decreases b.len(),
{
    if b.len() == 0 {
        seq![]
    } else {
        hex_text(b.drop_last()) + seq![hex_digit(b.last() as int / 16), hex_digit(b.last() as int % 16)]
    }
}

pub(crate) fn hex_char(d: u8) -> (c: char)
    requires
        d < 16,
    ensures
        c == hex_digit(d as int),
{
    if d == 0 { '0' }
    else if d == 1 { '1' }
    else if d == 2 { '2' }
    else if d == 3 { '3' }
    else if d == 4 { '4' }
    else if d == 5 { '5' }
    else if d == 6 { '6' }
    else if d == 7 { '7' }
    else if d == 8 { '8' }
    else if d == 9 { '9' }
    else if d == 10 { 'a' }
    else if d == 11 { 'b' }
    else if d == 12 { 'c' }
    else if d == 13 { 'd' }
    else if d == 14 { 'e' }
    else { 'f' }
}

/// The bytes in lower-case hexadecimal.
pub fn hex_lower(b: &[u8]) -> (r: String)
    ensures
        r@ == hex_text(b@),
{
    let mut r = String::new();
    let mut i: usize = 0;
    while i < b.len()
        invariant
            i <= b@.len(),
            r@ == hex_text(b@.take(i as int)),
        decreases b@.len() - i,
    {
        let x = b[i];
        push_char(&mut r, hex_char(x / 16));
        push_char(&mut r, hex_char(x % 16));
        assert(b@.take(i + 1).drop_last() =~= b@.take(i as int));
        i += 1;
    }
    assert(b@.take(b@.len() as int) =~= b@);
    r
}

/// A checksum's text has two lower-case hexadecimal digits per byte.
pub proof fn law_hex_text_shape(b: Seq<u8>)
    ensures
        hex_text(b).len() == 2 * b.len(),
        forall|i: int| 0 <= i < hex_text(b).len() ==> ('0' <= #[trigger] hex_text(b)[i] <= '9' || 'a' <= hex_text(b)[i] <= 'f'),
    decreases b.len(),
{
    if b.len() > 0 {
        law_hex_text_shape(b.drop_last());
        let h = hex_text(b);
        let hi = b.last() as int / 16;
        let lo = b.last() as int % 16;
        lemma_hex_digit(hi);
        lemma_hex_digit(lo);
        assert forall|i: int| 0 <= i < h.len() implies ('0' <= #[trigger] h[i] <= '9' || 'a' <= h[i] <= 'f') by {
            if i < h.len() - 2 {
                assert(h[i] == hex_text(b.drop_last())[i]);
            }
        }
    }
}

proof fn lemma_hex_digit(d: int)
    requires
        0 <= d < 16,
    ensures
        '0' <= hex_digit(d) <= '9' || 'a' <= hex_digit(d) <= 'f',
{
    let s = seq!['0', '1', '2', '3', '4', '5', '6', '7', '8', '9', 'a', 'b', 'c', 'd', 'e', 'f'];
    assert(hex_digit(d) == s[d]);
    assert(s[0] == '0' && s[1] == '1' && s[2] == '2' && s[3] == '3' && s[4] == '4' && s[5] == '5');
    assert(s[6] == '6' && s[7] == '7' && s[8] == '8' && s[9] == '9' && s[10] == 'a' && s[11] == 'b');
    assert(s[12] == 'c' && s[13] == 'd' && s[14] == 'e' && s[15] == 'f');
}

/// The MD5 checksum of the UTF-8 text of `s`, as `format!("{:?}",
/// md5::compute(s))` prints it: 32 lower-case hexadecimal digits.
pub open spec fn md5_text(s: Seq<char>) -> Seq<char> {
    hex_text(md5_digest(encode_utf8(s)))
}

/// The MD5 checksum of a string in lower-case hexadecimal.
pub fn md5_hex(s: &str) -> (r: String)
    ensures
        r@ == md5_text(s@),
{
    let d = md5_compute(s.as_bytes());
    hex_lower(&d)
}

/// The number of bytes of the UTF-8 text of a string (`str::len`).
pub fn byte_len(s: &str) -> (n: usize)
    ensures
        n == encode_utf8(s@).len(),
{
    let b = s.as_bytes();
    b.len()
}

// ---------------------------------------------------------------- key order

/// The order of `String`s: lexicographic on the UTF-8 bytes, which for
/// UTF-8 agrees with the order of the characters.
pub open spec fn seq_lt(a: Seq<char>, b: Seq<char>) -> bool
    decreases a.len(),
{
    if a.len() == 0 {
        b.len() > 0
    } else if b.len() == 0 {
        false
    } else if a[0] != b[0] {
        a[0] < b[0]
    } else {
        seq_lt(a.drop_first(), b.drop_first())
    }
}

/// Whether `a` sorts before `b` as map keys do.
pub fn str_less(a: &str, b: &str) -> (r: bool)
    ensures
        r == seq_lt(a@, b@),
{
    let av = chars_of(a);
    let bv = chars_of(b);
    let mut i: usize = 0;
    assert(av@.skip(0) =~= av@ && bv@.skip(0) =~= bv@);
    while i < av.len() && i < bv.len() && av[i] == bv[i]
        invariant
            i <= av@.len(),
            i <= bv@.len(),
            seq_lt(av@, bv@) == seq_lt(av@.skip(i as int), bv@.skip(i as int)),
        decreases av@.len() - i,
    {
        proof {
            let x = av@.skip(i as int);
            let y = bv@.skip(i as int);
            assert(x.drop_first() =~= av@.skip(i + 1));
            assert(y.drop_first() =~= bv@.skip(i + 1));
        }
        i += 1;
    }
    let ghost x = av@.skip(i as int);
    let ghost y = bv@.skip(i as int);
    if i == av.len() {
        assert(x.len() == 0);
        i < bv.len()
    } else if i == bv.len() {
        false
    } else {
        assert(x[0] == av@[i as int] && y[0] == bv@[i as int]);
        av[i] < bv[i]
    }
}

// ---------------------------------------------------------------- records

/// `{"name":{"en":<name>},"tag":<tag>}`: the language record of a metadata
/// file as serde_json prints `json!({"tag": tag, "name": {"en": name}})`,
/// keys in order.
pub open spec fn language_record(tag: Seq<char>, name: Seq<char>) -> Seq<char> {
    "{\"name\":{\"en\":"@ + json_string_text(name) + "},\"tag\":"@ + json_string_text(tag) + "}"@
}

/// The language record for a tag and an English name.
pub fn language_json_text(tag: &str, name: &str) -> (r: String)
    ensures
        r@ == language_record(tag@, name@),
{
    let mut r = "{\"name\":{\"en\":".to_owned();
    let qn = json_quote(name);
    push_str(&mut r, qn.as_str());
    push_str(&mut r, "},\"tag\":");
    let qt = json_quote(tag);
    push_str(&mut r, qt.as_str());
    push_str(&mut r, "}");
    r
}

/// The record of one ingredient file: its checksum, MIME type, optional
/// book scope and size, keys in order:
/// `{"checksum":{"md5":<md5>},"mimeType":<mime>[,"scope":{<book>:[]}],"size":<size>}`.
pub open spec fn ingredient_record(md5: Seq<char>, mime: Seq<char>, scope: Option<Seq<char>>, size: nat) -> Seq<char> {
    "{\"checksum\":{\"md5\":"@ + json_string_text(md5) + "},\"mimeType\":"@ + json_string_text(mime)
        + match scope {
        Some(book) => ",\"scope\":{"@ + json_string_text(book) + ":[]}"@,
        None => Seq::empty(),
    } + ",\"size\":"@ + decimal(size) + "}"@
}

/// The record of one ingredient holding `content`.
pub fn ingredient_json_text(content: &str, mime: &str, scope: Option<&str>) -> (r: String)
    ensures
        r@ == ingredient_record(
            md5_text(content@),
            mime@,
            match scope {
                Some(b) => Some(b@),
                None => None,
            },
            encode_utf8(content@).len(),
        ),
{
    let mut r = "{\"checksum\":{\"md5\":".to_owned();
    let h = md5_hex(content);
    let qh = json_quote(h.as_str());
    push_str(&mut r, qh.as_str());
    push_str(&mut r, "},\"mimeType\":");
    let qm = json_quote(mime);
    push_str(&mut r, qm.as_str());
    let ghost before_scope = r@;
    match scope {
        Some(b) => {
            push_str(&mut r, ",\"scope\":{");
            let qb = json_quote(b);
            push_str(&mut r, qb.as_str());
            push_str(&mut r, ":[]}");
        },
        None => {
            assert(r@ =~= before_scope + Seq::<char>::empty());
        },
    }
    push_str(&mut r, ",\"size\":");
    let n = byte_len(content);
    push_decimal(&mut r, n as u64);
    push_str(&mut r, "}");
    r
}

/// An object of two members, `k1` and `k2`, written in key order (the
/// order of a serde_json map), for distinct keys.
pub open spec fn two_member_object(k1: Seq<char>, v1: Seq<char>, k2: Seq<char>, v2: Seq<char>) -> Seq<char> {
    if seq_lt(k1, k2) {
        "{"@ + json_string_text(k1) + ":"@ + v1 + ","@ + json_string_text(k2) + ":"@ + v2 + "}"@
    } else {
        "{"@ + json_string_text(k2) + ":"@ + v2 + ","@ + json_string_text(k1) + ":"@ + v1 + "}"@
    }
}

/// The ingredients object of a repository holding one book file
/// `ingredients/<book>.<ext>` with `content` and the versification file
/// `ingredients/vrs.json` with `vrs`.
pub open spec fn book_ingredients(book: Seq<char>, ext: Seq<char>, mime: Seq<char>, content: Seq<char>, vrs: Seq<char>) -> Seq<char> {
    two_member_object(
        "ingredients/"@ + book + "."@ + ext,
        ingredient_record(md5_text(content), mime, Some(book), encode_utf8(content).len()),
        "ingredients/vrs.json"@,
        ingredient_record(md5_text(vrs), "application/json"@, None, encode_utf8(vrs).len()),
    )
}

/// The ingredients object for one book file and the versification file.
pub fn book_ingredients_text(book: &str, ext: &str, mime: &str, content: &str, vrs: &str) -> (r: String)
    ensures
        r@ == book_ingredients(book@, ext@, mime@, content@, vrs@),
{
    let mut key = "ingredients/".to_owned();
    push_str(&mut key, book);
    push_str(&mut key, ".");
    push_str(&mut key, ext);
    let book_rec = ingredient_json_text(content, mime, Some(book));
    let vrs_rec = ingredient_json_text(vrs, "application/json", None);
    let vrs_key = "ingredients/vrs.json";
    let qk = json_quote(key.as_str());
    let qv = json_quote(vrs_key);
    let mut r = "{".to_owned();
    if str_less(key.as_str(), vrs_key) {
        push_str(&mut r, qk.as_str());
        push_str(&mut r, ":");
        push_str(&mut r, book_rec.as_str());
        push_str(&mut r, ",");
        push_str(&mut r, qv.as_str());
        push_str(&mut r, ":");
        push_str(&mut r, vrs_rec.as_str());
    } else {
        push_str(&mut r, qv.as_str());
        push_str(&mut r, ":");
        push_str(&mut r, vrs_rec.as_str());
        push_str(&mut r, ",");
        push_str(&mut r, qk.as_str());
        push_str(&mut r, ":");
        push_str(&mut r, book_rec.as_str());
    }
    push_str(&mut r, "}");
    r
}


// ---------------------------------------------------------------- templates

/// `t` with each placeholder of `subs` replaced in turn, first to last.
pub open spec fn fill_all(t: Seq<char>, subs: Seq<(Seq<char>, Seq<char>)>) -> Seq<char>
    decreases subs.len(),
{
    if subs.len() == 0 {
        t
    } else {
        replace_all(fill_all(t, subs.drop_last()), subs.last().0, subs.last().1)
    }
}

/// The placeholder fills of a metadata template that carries a language
/// record: abbreviation, name, creation time and language.
pub open spec fn language_metadata_subs(abbr: Seq<char>, name: Seq<char>, timestamp: Seq<char>, language: Seq<char>) -> Seq<(Seq<char>, Seq<char>)> {
    seq![
        ("%%ABBR%%"@, abbr),
        ("%%CONTENT_NAME%%"@, name),
        ("%%CREATED_TIMESTAMP%%"@, timestamp),
        ("%%LANGUAGE%%"@, language),
    ]
}

/// Fills abbreviation, name, creation time and language record of a
/// metadata template.
fn fill_language_metadata(template: &str, abbr: &str, name: &str, timestamp: &str, language: &str) -> (r: String)
    ensures
        r@ == fill_all(template@, language_metadata_subs(abbr@, name@, timestamp@, language@)),
{
    proof {
        reveal_strlit("%%ABBR%%");
        reveal_strlit("%%CONTENT_NAME%%");
        reveal_strlit("%%CREATED_TIMESTAMP%%");
        reveal_strlit("%%LANGUAGE%%");
        reveal_with_fuel(fill_all, 5);
    }
    let m1 = replace(template, "%%ABBR%%", abbr);
    let m2 = replace(m1.as_str(), "%%CONTENT_NAME%%", name);
    let m3 = replace(m2.as_str(), "%%CREATED_TIMESTAMP%%", timestamp);
    let m4 = replace(m3.as_str(), "%%LANGUAGE%%", language);
    let ghost subs = language_metadata_subs(abbr@, name@, timestamp@, language@);
    assert(subs.drop_last().drop_last().drop_last().drop_last() =~= Seq::<(Seq<char>, Seq<char>)>::empty());
    m4
}

/// The metadata of a new text translation, before its book is added:
/// abbreviation, name, creation time and the language record of the
/// form's language code with `language_name`.
pub fn text_translation_metadata(
    template: &str,
    form: &crate::structs::NewTextTranslationContentForm,
    timestamp: &str,
    language_name: &str,
) -> (r: String)
    ensures
        r@ == fill_all(
            template@,
            language_metadata_subs(
                form.content_abbr@,
                form.content_name@,
                timestamp@,
                language_record(form.content_language_code@, language_name@),
            ),
        ),
{
    let lang = language_json_text(form.content_language_code.as_str(), language_name);
    fill_language_metadata(template, form.content_abbr.as_str(), form.content_name.as_str(), timestamp, lang.as_str())
}

/// The metadata of a new audio translation: abbreviation, name, creation
/// time and the language record of the form's language code with
/// `language_name`.
pub fn audio_translation_metadata(
    template: &str,
    form: &crate::structs::NewAudioTranslationContentForm,
    timestamp: &str,
    language_name: &str,
) -> (r: String)
    ensures
        r@ == fill_all(
            template@,
            language_metadata_subs(
                form.content_abbr@,
                form.content_name@,
                timestamp@,
                language_record(form.content_language_code@, language_name@),
            ),
        ),
{
    let lang = language_json_text(form.content_language_code.as_str(), language_name);
    fill_language_metadata(template, form.content_abbr.as_str(), form.content_name.as_str(), timestamp, lang.as_str())
}

/// The placeholder fills of a metadata template without a language record.
/// The name is filled twice, the second time finding nothing.
pub open spec fn plain_metadata_subs(abbr: Seq<char>, name: Seq<char>, timestamp: Seq<char>) -> Seq<(Seq<char>, Seq<char>)> {
    seq![
        ("%%ABBR%%"@, abbr),
        ("%%CONTENT_NAME%%"@, name),
        ("%%CONTENT_NAME%%"@, name),
        ("%%CREATED_TIMESTAMP%%"@, timestamp),
    ]
}

/// Fills abbreviation, name and creation time of a metadata template.
pub fn plain_metadata(template: &str, abbr: &str, name: &str, timestamp: &str) -> (r: String)
    ensures
        r@ == fill_all(template@, plain_metadata_subs(abbr@, name@, timestamp@)),
{
    proof {
        reveal_strlit("%%ABBR%%");
        reveal_strlit("%%CONTENT_NAME%%");
        reveal_strlit("%%CREATED_TIMESTAMP%%");
        reveal_with_fuel(fill_all, 5);
    }
    let m1 = replace(template, "%%ABBR%%", abbr);
    let m2 = replace(m1.as_str(), "%%CONTENT_NAME%%", name);
    let m3 = replace(m2.as_str(), "%%CONTENT_NAME%%", name);
    let m4 = replace(m3.as_str(), "%%CREATED_TIMESTAMP%%", timestamp);
    let ghost subs = plain_metadata_subs(abbr@, name@, timestamp@);
    assert(subs.drop_last().drop_last().drop_last().drop_last() =~= Seq::<(Seq<char>, Seq<char>)>::empty());
    m4
}

/// The scope entry of a book in a metadata template: `"<book>": []`.
pub open spec fn scope_entry(book: Seq<char>) -> Seq<char> {
    "\""@ + book + "\": []"@
}

/// The fills that add one book to a metadata template: its scope entry,
/// and the ingredients object in place of the empty one.
pub open spec fn book_metadata_subs(book: Seq<char>, ingredients: Seq<char>) -> Seq<(Seq<char>, Seq<char>)> {
    seq![
        ("%%SCOPE%%"@, scope_entry(book)),
        ("\"ingredients\": {}"@, "\"ingredients\": "@ + ingredients),
    ]
}

/// Adds a book to a metadata template: its scope entry and the ingredients
/// object.
pub fn add_book_to_metadata(metadata: &str, book: &str, ingredients: &str) -> (r: String)
    ensures
        r@ == fill_all(metadata@, book_metadata_subs(book@, ingredients@)),
{
    proof {
        reveal_strlit("%%SCOPE%%");
        reveal_strlit("\"ingredients\": {}");
        reveal_with_fuel(fill_all, 3);
    }
    let scope = concat3("\"", book, "\": []");
    let m1 = replace(metadata, "%%SCOPE%%", scope.as_str());
    let mut ing = "\"ingredients\": ".to_owned();
    push_str(&mut ing, ingredients);
    let m2 = replace(m1.as_str(), "\"ingredients\": {}", ing.as_str());
    let ghost subs = book_metadata_subs(book@, ingredients@);
    assert(subs.drop_last().drop_last() =~= Seq::<(Seq<char>, Seq<char>)>::empty());
    m2
}

/// A metadata template without books: the scope placeholder is emptied.
pub fn metadata_without_book(metadata: &str) -> (r: String)
    ensures
        r@ == replace_all(metadata@, "%%SCOPE%%"@, Seq::empty()),
{
    proof {
        reveal_strlit("%%SCOPE%%");
        reveal_strlit("");
        assert(""@ =~= Seq::<char>::empty());
    }
    replace(metadata, "%%SCOPE%%", "")
}

/// The fills of a USFM book template: code, title, content name,
/// abbreviation and the chapter and verse stub.
pub open spec fn usfm_subs(code: Seq<char>, title: Seq<char>, content_name: Seq<char>, abbr: Seq<char>, stub: Seq<char>) -> Seq<(Seq<char>, Seq<char>)> {
    seq![
        ("%%BOOKCODE%%"@, code),
        ("%%BOOKNAME%%"@, title),
        ("%%CONTENTNAME%%"@, content_name),
        ("%%BOOKABBR%%"@, abbr),
        ("%%STUBCONTENT%%"@, stub),
    ]
}

/// Fills a USFM book template.
pub fn fill_usfm_template(template: &str, code: &str, title: &str, content_name: &str, abbr: &str, stub: &str) -> (r: String)
    ensures
        r@ == fill_all(template@, usfm_subs(code@, title@, content_name@, abbr@, stub@)),
{
    proof {
        reveal_strlit("%%BOOKCODE%%");
        reveal_strlit("%%BOOKNAME%%");
        reveal_strlit("%%CONTENTNAME%%");
        reveal_strlit("%%BOOKABBR%%");
        reveal_strlit("%%STUBCONTENT%%");
        reveal_with_fuel(fill_all, 6);
    }
    let m1 = replace(template, "%%BOOKCODE%%", code);
    let m2 = replace(m1.as_str(), "%%BOOKNAME%%", title);
    let m3 = replace(m2.as_str(), "%%CONTENTNAME%%", content_name);
    let m4 = replace(m3.as_str(), "%%BOOKABBR%%", abbr);
    let m5 = replace(m4.as_str(), "%%STUBCONTENT%%", stub);
    let ghost subs = usfm_subs(code@, title@, content_name@, abbr@, stub@);
    assert(subs.drop_last().drop_last().drop_last().drop_last().drop_last() =~= Seq::<(Seq<char>, Seq<char>)>::empty());
    m5
}


// ---------------------------------------------------------------- book stubs

/// The lines `s` joined by `sep` (`[..].join(sep)`).
pub open spec fn join_lines(lines: Seq<Seq<char>>, sep: Seq<char>) -> Seq<char>
    decreases lines.len(),
{
    if lines.len() == 0 {
        Seq::empty()
    } else if lines.len() == 1 {
        lines[0]
    } else {
        join_lines(lines.drop_last(), sep) + sep + lines.last()
    }
}

/// Joins strings with a separator.
pub fn join_strings(v: &Vec<String>, sep: &str) -> (r: String)
    ensures
        r@ == join_lines(string_views(v@), sep@),
{
    let mut r = String::new();
    let mut i: usize = 0;
    while i < v.len()
        invariant
            i <= v@.len(),
            r@ == join_lines(string_views(v@.take(i as int)), sep@),
        decreases v@.len() - i,
    {
        if i > 0 {
            push_str(&mut r, sep);
        }
        push_str(&mut r, v[i].as_str());
        proof {
            let a = string_views(v@.take(i + 1));
            assert(a.drop_last() =~= string_views(v@.take(i as int)));
            if i == 0 {
                assert(r@ =~= a[0]);
            }
        }
        i += 1;
    }
    assert(v@.take(v@.len() as int) =~= v@);
    r
}

/// The verse lines of a chapter of `n` verses: `\v 1<suffix>` up to
/// `\v n<suffix>`, none when `n` is below 1.
pub open spec fn verse_lines(n: int, suffix: Seq<char>) -> Seq<Seq<char>> {
    Seq::new(if n > 0 { n as nat } else { 0 }, |k: int| "\\v "@ + decimal((k + 1) as nat) + suffix)
}

/// The lines of chapter `c` with `n` verses: `\c <c>`, `\p`, then its verses.
pub open spec fn chapter_lines(c: nat, n: int, suffix: Seq<char>) -> Seq<Seq<char>> {
    seq!["\\c "@ + decimal(c), "\\p"@] + verse_lines(n, suffix)
}

/// The lines of a book whose chapters have the given verse counts.
pub open spec fn cv_lines(counts: Seq<int>, suffix: Seq<char>) -> Seq<Seq<char>>
    decreases counts.len(),
{
    if counts.len() == 0 {
        Seq::empty()
    } else {
        cv_lines(counts.drop_last(), suffix) + chapter_lines(counts.len(), counts.last(), suffix)
    }
}

/// Whether every item is a string that `str::parse::<i32>` reads.
pub open spec fn all_verse_counts(items: Seq<Json>) -> bool {
    forall|i: int| 0 <= i < items.len() ==> (#[trigger] items[i] matches Json::Str(s) && parse_i32_spec(s) is Some)
}

/// The verse count that an item gives.
pub open spec fn verse_count(item: Json) -> int {
    match item {
        Json::Str(s) => match parse_i32_spec(s) {
            Some(n) => n as int,
            None => 0,
        },
        _ => 0,
    }
}

/// The verse counts of the items, in order.
pub open spec fn verse_counts(items: Seq<Json>) -> Seq<int> {
    Seq::new(items.len(), |i: int| verse_count(items[i]))
}

/// The chapter and verse stub of a book whose chapters have the verse
/// counts that `items` give as strings: its lines joined by newlines.
pub fn cv_stub_text(items: &Vec<JsonValue>, suffix: &str) -> (r: String)
    requires
        all_verse_counts(crate::json::view_items(items@)),
        items@.len() <= i32::MAX,
    ensures
        r@ == join_lines(cv_lines(verse_counts(crate::json::view_items(items@)), suffix@), "\n"@),
{
    let ghost jv = crate::json::view_items(items@);
    proof {
        crate::json::lemma_view_items(items@);
    }
    let ghost counts = verse_counts(jv);
    let mut lines: Vec<String> = Vec::new();
    let mut c: usize = 0;
    assert(counts.take(0) =~= Seq::<int>::empty());
    while c < items.len()
        invariant
            c <= items@.len(),
            items@.len() <= i32::MAX,
            jv == crate::json::view_items(items@),
            jv.len() == items@.len(),
            forall|k: int| 0 <= k < items@.len() ==> #[trigger] jv[k] == items@[k]@,
            all_verse_counts(jv),
            counts == verse_counts(jv),
            string_views(lines@) == cv_lines(counts.take(c as int), suffix@),
        decreases items@.len() - c,
    {
        let ghost before = string_views(lines@);
        let chapter: u64 = (c + 1) as u64;
        let mut head = "\\c ".to_owned();
        push_decimal(&mut head, chapter);
        lines.push(head);
        lines.push("\\p".to_owned());
        proof {
            crate::text::lemma_string_views_push(lines@.drop_last().drop_last(), lines@.drop_last().last());
            assert(lines@.drop_last() == lines@.drop_last().drop_last().push(lines@.drop_last().last()));
            crate::text::lemma_string_views_push(lines@.drop_last(), lines@.last());
            assert(lines@ == lines@.drop_last().push(lines@.last()));
            reveal_strlit("\\c ");
            reveal_strlit("\\p");
        }
        let ghost chapter_start = string_views(lines@);
        assert(chapter_start =~= before + seq!["\\c "@ + decimal((c + 1) as nat), "\\p"@]);
        let item = &items[c];
        assert(jv[c as int] == item@);
        assert(jv[c as int] matches Json::Str(s) && parse_i32_spec(s) is Some);
        let text = match item {
            JsonValue::Str(t) => t,
            _ => {
                assert(false);
                return String::new();
            },
        };
        let n: i32 = match parse_i32(text.as_str()) {
            Some(n) => n,
            None => {
                assert(false);
                return String::new();
            },
        };
        assert(counts[c as int] == n as int);
        let mut v: i64 = 1;
        while v <= n as i64
            invariant
                1 <= v,
                n >= 0 ==> v <= n + 1,
                n < 0 ==> v == 1,
                n <= i32::MAX,
                string_views(lines@) == chapter_start + verse_lines(n as int, suffix@).take((v - 1) as int),
            decreases n - v + 1,
        {
            let ghost pre = lines@;
            let mut line = "\\v ".to_owned();
            push_decimal(&mut line, v as u64);
            push_str(&mut line, suffix);
            lines.push(line);
            proof {
                reveal_strlit("\\v ");
                crate::text::lemma_string_views_push(pre, lines@.last());
                assert(lines@ == pre.push(lines@.last()));
                assert(verse_lines(n as int, suffix@).take(v as int) =~= verse_lines(n as int, suffix@).take((v - 1) as int).push("\\v "@ + decimal(v as nat) + suffix@));
            }
            v += 1;
        }
        proof {
            if n < 1 {
                assert(verse_lines(n as int, suffix@).take(0) =~= verse_lines(n as int, suffix@));
            } else if v == n + 1 {
                assert(verse_lines(n as int, suffix@).take(n as int) =~= verse_lines(n as int, suffix@));
            }
            assert(counts.take(c + 1).drop_last() =~= counts.take(c as int));
        }
        c += 1;
    }
    assert(counts.take(items@.len() as int) =~= counts);
    join_strings(&lines, "\n")
}


/// The stub of a new book without generated chapters and verses.
pub open spec fn default_new_repo_stub() -> Seq<char> {
    "\\c 1\n\\p\n\\v 1\n___"@
}

/// Whether the verse counts of `book` in a versification document are
/// there to be read whenever the document and its `maxVerses` member are
/// objects, and are readable verse counts whenever they form an array.
pub open spec fn new_repo_versification_readable(vrs: Json, book: Seq<char>) -> bool {
    match vrs {
        Json::Object(m) => has_key_spec(m, "maxVerses"@) && match lookup(m, "maxVerses"@) {
            Some(Json::Object(mv)) => has_key_spec(mv, book) && match lookup(mv, book) {
                Some(Json::Array(items)) => all_verse_counts(items) && items.len() <= i32::MAX,
                _ => true,
            },
            _ => true,
        },
        _ => true,
    }
}

/// Whether `m` has a member with key `key`.
pub open spec fn has_key_spec(m: Seq<(Seq<char>, Json)>, key: Seq<char>) -> bool {
    crate::json::has_key(m, key)
}

/// The reason given when the versification document is not an object.
pub open spec fn no_vrs_object_reason(vrs_name: Seq<char>) -> Seq<char> {
    "Could not find versification JSON object for "@ + vrs_name
}

/// The reason given when `maxVerses` is not an object.
pub open spec fn no_max_verses_reason(vrs_name: Seq<char>) -> Seq<char> {
    "Could not find maxVerses in versification JSON for "@ + vrs_name
}

/// The reason given when the verse counts of a book are not an array.
pub open spec fn no_book_verses_reason(book: Seq<char>, vrs_name: Seq<char>) -> Seq<char> {
    "Could not find maxVerses for "@ + book + " in versification JSON for "@ + vrs_name
}

/// The chapter and verse stub of the first book of a new repository, or
/// the reason of a failure: a one-verse stub unless `add_cv`, else one line
/// per chapter and verse from the verse counts of `book` in the
/// versification document.
pub open spec fn new_repo_stub(add_cv: bool, vrs: Json, book: Seq<char>, vrs_name: Seq<char>) -> Result<Seq<char>, Seq<char>> {
    if !add_cv {
        Ok(default_new_repo_stub())
    } else {
        match vrs {
            Json::Object(m) => match lookup(m, "maxVerses"@) {
                Some(Json::Object(mv)) => match lookup(mv, book) {
                    Some(Json::Array(items)) => Ok(join_lines(cv_lines(verse_counts(items), " ___"@), "\n"@)),
                    _ => Err(no_book_verses_reason(book, vrs_name)),
                },
                _ => Err(no_max_verses_reason(vrs_name)),
            },
            _ => Err(no_vrs_object_reason(vrs_name)),
        }
    }
}

/// The chapter and verse stub of the first book of a new text translation,
/// or a 500 reply when the versification document, its `maxVerses` or the
/// book's counts are not of the expected kind.
pub fn new_repo_book_stub(add_cv: bool, vrs: &JsonValue, book: &str, vrs_name: &str) -> (r: Result<String, ApiResponse>)
    requires
        add_cv ==> new_repo_versification_readable(vrs@, book@),
    ensures
        match new_repo_stub(add_cv, vrs@, book@, vrs_name@) {
            Ok(t) => r is Ok && r->Ok_0@ == t,
            Err(reason) => r is Err && is_bad(r->Err_0, STATUS_INTERNAL_SERVER_ERROR, reason),
        },
{
    if !add_cv {
        return Ok("\\c 1\n\\p\n\\v 1\n___".to_owned());
    }
    let m = match vrs {
        JsonValue::Object(m) => m,
        _ => {
            let reason = concat3("Could not find versification JSON object for ", vrs_name, "");
            proof { reveal_strlit(""); assert(reason@ =~= no_vrs_object_reason(vrs_name@)); }
            return Err(bad_response(STATUS_INTERNAL_SERVER_ERROR, reason));
        },
    };
    let max_verses = crate::json::members_get(m, "maxVerses");
    let mv = match max_verses {
        Some(JsonValue::Object(mv)) => mv,
        _ => {
            let reason = concat3("Could not find maxVerses in versification JSON for ", vrs_name, "");
            proof { reveal_strlit(""); assert(reason@ =~= no_max_verses_reason(vrs_name@)); }
            return Err(bad_response(STATUS_INTERNAL_SERVER_ERROR, reason));
        },
    };
    let counts = crate::json::members_get(mv, book);
    match counts {
        Some(JsonValue::Array(items)) => {
            proof { crate::json::lemma_view_items(items@); }
            let t = cv_stub_text(items, " ___");
            Ok(t)
        },
        _ => {
            let mut reason = concat3("Could not find maxVerses for ", book, " in versification JSON for ");
            push_str(&mut reason, vrs_name);
            Err(bad_response(STATUS_INTERNAL_SERVER_ERROR, reason))
        },
    }
}

/// The stub of a new book of an existing repository without generated
/// chapters and verses.
pub open spec fn default_book_stub() -> Seq<char> {
    "\\c 1\n\\p\n\\v 1\nFirst verse..."@
}

/// Whether the verse counts of `book` in a repository's versification
/// document are there to be read whenever its `maxVerses` member is an
/// object, and are readable verse counts whenever they form an array.
pub open spec fn repo_versification_readable(vrs: Json, book: Seq<char>) -> bool {
    match index_key(vrs, "maxVerses"@) {
        Json::Object(mv) => has_key_spec(mv, book) && match lookup(mv, book) {
            Some(Json::Array(items)) => all_verse_counts(items) && items.len() <= i32::MAX,
            _ => true,
        },
        _ => true,
    }
}

/// The reason given when a repository's `maxVerses` is not an object.
pub open spec fn no_repo_max_verses_reason() -> Seq<char> {
    "Could not find maxVerses in versification JSON for this repo"@
}

/// The reason given when a book's verse counts in a repository's
/// versification are not an array.
pub open spec fn no_repo_book_verses_reason(book: Seq<char>) -> Seq<char> {
    "Could not find maxVerses for "@ + book + " in versification JSON for this repo"@
}

/// The chapter and verse stub of a new book of an existing repository, or
/// the reason of a failure: one line per chapter and verse from the verse
/// counts of `book` in the repository's versification document.
pub open spec fn repo_stub(vrs: Json, book: Seq<char>) -> Result<Seq<char>, Seq<char>> {
    match index_key(vrs, "maxVerses"@) {
        Json::Object(mv) => match lookup(mv, book) {
            Some(Json::Array(items)) => Ok(join_lines(cv_lines(verse_counts(items), Seq::empty()), "\n"@)),
            _ => Err(no_repo_book_verses_reason(book)),
        },
        _ => Err(no_repo_max_verses_reason()),
    }
}

/// The chapter and verse stub of a new book of an existing repository,
/// from the repository's versification document, or a 500 reply when its
/// `maxVerses` or the book's counts are not of the expected kind.
pub fn repo_book_stub(vrs: &JsonValue, book: &str) -> (r: Result<String, ApiResponse>)
    requires
        repo_versification_readable(vrs@, book@),
    ensures
        match repo_stub(vrs@, book@) {
            Ok(t) => r is Ok && r->Ok_0@ == t,
            Err(reason) => r is Err && is_bad(r->Err_0, STATUS_INTERNAL_SERVER_ERROR, reason),
        },
{
    let max_verses = vrs.get("maxVerses");
    let mv = match max_verses {
        Some(JsonValue::Object(mv)) => mv,
        _ => {
            return Err(bad_response(
                STATUS_INTERNAL_SERVER_ERROR,
                "Could not find maxVerses in versification JSON for this repo".to_owned(),
            ));
        },
    };
    match crate::json::members_get(mv, book) {
        Some(JsonValue::Array(items)) => {
            proof {
                reveal_strlit("");
                assert(""@ =~= Seq::<char>::empty());
                crate::json::lemma_view_items(items@);
            }
            Ok(cv_stub_text(items, ""))
        },
        _ => {
            let reason = concat3("Could not find maxVerses for ", book, " in versification JSON for this repo");
            Err(bad_response(STATUS_INTERNAL_SERVER_ERROR, reason))
        },
    }
}


// ---------------------------------------------------------------- languages

/// Whether a language code is a custom one, beginning with `x-`.
pub open spec fn is_custom_code(code: Seq<char>) -> bool {
    has_prefix(code, "x-"@)
}

/// Whether a language code is a custom one (`code.starts_with("x-")`).
pub fn is_custom_language(code: &str) -> (r: bool)
    ensures
        r == is_custom_code(code@),
{
    starts_with(code, "x-")
}

/// The reason given for a custom language code without a name.
pub open spec fn unnamed_custom_language_reason(code: Seq<char>) -> Seq<char> {
    "Language code '"@ + code + "' is custom ('x-') but no language name has been provided"@
}

/// The reason given for a language code that the lookup table lacks.
pub open spec fn unknown_language_reason(code: Seq<char>) -> Seq<char> {
    "Language code '"@ + code + "' is not custom (no 'x-') but has not been found in the BCP47 lookup table"@
}

/// The name of a custom language: the name provided, or a 400 reply when
/// none was.
pub fn custom_language_name(code: &str, provided: Option<String>) -> (r: Result<String, ApiResponse>)
    ensures
        match provided {
            Some(n) => r is Ok && r->Ok_0@ == n@,
            None => r is Err && is_bad(r->Err_0, STATUS_BAD_REQUEST, unnamed_custom_language_reason(code@)),
        },
{
    match provided {
        Some(n) => Ok(n),
        None => {
            let reason = concat3("Language code '", code, "' is custom ('x-') but no language name has been provided");
            Err(bad_response(STATUS_BAD_REQUEST, reason))
        },
    }
}

/// The English name (`"en"`) in a lookup table entry, if it is an object
/// with a string there.
pub open spec fn english_name(entry: Json) -> Option<Seq<char>> {
    match entry {
        Json::Object(m) => match lookup(m, "en"@) {
            Some(Json::Str(n)) => Some(n),
            _ => None,
        },
        _ => None,
    }
}

/// Whether the lookup table's entry for `code`, when it is an object, has
/// an English name.
pub open spec fn lookup_entry_named(table: Json, code: Seq<char>) -> bool {
    index_key(table, code) is Object ==> english_name(index_key(table, code)) is Some
}

/// The English name that the lookup table gives an entry that is an object.
fn entry_english_name(entry: &JsonValue) -> (r: String)
    requires
        english_name(entry@) is Some,
    ensures
        r@ == english_name(entry@)->Some_0,
{
    match entry.get("en") {
        Some(JsonValue::Str(n)) => n.clone(),
        _ => {
            assert(false);
            String::new()
        },
    }
}

/// The name of a standard language: the English name of its entry in the
/// lookup table when that entry is an object, else a 400 reply.
pub fn looked_up_language_name(code: &str, table: &JsonValue) -> (r: Result<String, ApiResponse>)
    requires
        lookup_entry_named(table@, code@),
    ensures
        match index_key(table@, code@) {
            Json::Object(_) => r is Ok && r->Ok_0@ == english_name(index_key(table@, code@))->Some_0,
            _ => r is Err && is_bad(r->Err_0, STATUS_BAD_REQUEST, unknown_language_reason(code@)),
        },
{
    match table.get(code) {
        Some(entry) => {
            if let JsonValue::Object(_) = entry {
                return Ok(entry_english_name(entry));
            }
        },
        None => {},
    }
    let reason = concat3(
        "Language code '",
        code,
        "' is not custom (no 'x-') but has not been found in the BCP47 lookup table",
    );
    Err(bad_response(STATUS_BAD_REQUEST, reason))
}

/// The language tag and name of a print specification: the code and its
/// English name when the lookup table has an object for it, else `x-` and
/// the code, and the code itself as name.
pub fn print_spec_language(code: &str, table: &JsonValue) -> (r: (String, String))
    requires
        lookup_entry_named(table@, code@),
    ensures
        index_key(table@, code@) is Object ==> r.0@ == code@ && r.1@ == english_name(index_key(table@, code@))->Some_0,
        !(index_key(table@, code@) is Object) ==> r.0@ == "x-"@ + code@ && r.1@ == code@,
{
    match table.get(code) {
        Some(entry) => {
            if let JsonValue::Object(_) = entry {
                return (code.to_owned(), entry_english_name(entry));
            }
        },
        None => {},
    }
    let mut tag = "x-".to_owned();
    push_str(&mut tag, code);
    (tag, code.to_owned())
}


// ---------------------------------------------------------------- new repositories

/// The parent of new local repositories: `<repo_dir>/_local_/_local_`.
pub open spec fn local_parent(repo_dir: Seq<char>) -> Seq<char> {
    repo_dir + "/_local_/_local_"@
}

/// The directory of a new local repository.
pub open spec fn local_repo_dir(repo_dir: Seq<char>, name: Seq<char>) -> Seq<char> {
    local_parent(repo_dir) + "/"@ + name
}

/// The parent directory of new local repositories.
pub fn new_repo_parent(repo_dir: &str) -> (r: String)
    ensures
        r@ == local_parent(repo_dir@),
{
    let mut r = repo_dir.to_owned();
    push_str(&mut r, "/_local_/_local_");
    r
}

/// The directory of a new local repository called `name`.
pub fn new_repo_dir(repo_dir: &str, name: &str) -> (r: String)
    ensures
        r@ == local_repo_dir(repo_dir@, name@),
{
    let mut r = new_repo_parent(repo_dir);
    push_str(&mut r, "/");
    push_str(&mut r, name);
    r
}

/// The metadata template of a content type:
/// `<resources>/templates/content_templates/<kind>/metadata.json`.
pub open spec fn template_metadata_path(resources: Seq<char>, kind: Seq<char>) -> Seq<char> {
    resources + "/templates/content_templates/"@ + kind + "/metadata.json"@
}

/// The path of the metadata template of a content type.
pub fn metadata_template_path(resources: &str, kind: &str) -> (r: String)
    ensures
        r@ == template_metadata_path(resources@, kind@),
{
    let mut r = resources.to_owned();
    push_str(&mut r, "/templates/content_templates/");
    push_str(&mut r, kind);
    push_str(&mut r, "/metadata.json");
    r
}

/// The reason given when a new repository's directory is taken.
pub open spec fn already_exists_reason(name: Seq<char>) -> Seq<char> {
    "Local content called '"@ + name + "' already exists"@
}

/// The 400 reply for a new repository whose directory is taken.
pub fn already_exists_response(name: &str) -> (r: ApiResponse)
    ensures
        is_bad(r, STATUS_BAD_REQUEST, already_exists_reason(name@)),
{
    bad_response(STATUS_BAD_REQUEST, concat3("Local content called '", name, "' already exists"))
}

/// The reason given when a metadata template is missing.
pub open spec fn template_not_found_reason(what: Seq<char>) -> Seq<char> {
    "Metadata template "@ + what + " not found"@
}

/// The 400 reply for a missing metadata template.
pub fn template_not_found_response(what: &str) -> (r: ApiResponse)
    ensures
        is_bad(r, STATUS_BAD_REQUEST, template_not_found_reason(what@)),
{
    bad_response(STATUS_BAD_REQUEST, concat3("Metadata template ", what, " not found"))
}

/// The initial branch of a new repository: the one asked for, else the
/// given default.
pub fn branch_or(branch: &Option<String>, default: &str) -> (r: String)
    ensures
        match branch {
            Some(b) => r@ == b@,
            None => r@ == default@,
        },
{
    match branch {
        Some(b) => b.clone(),
        None => default.to_owned(),
    }
}

/// The metadata and book file of a new text translation with a first
/// book: the book's scope entry and ingredients are added to the metadata,
/// and the USFM template is filled with the book's code, title and
/// abbreviation, the content name and the stub; or a 500 reply when the
/// stub cannot be made.
pub fn text_translation_book(
    metadata: &str,
    form: &crate::structs::NewTextTranslationContentForm,
    usfm_template: &str,
    vrs: &JsonValue,
    vrs_text: &str,
) -> (r: Result<(String, String), ApiResponse>)
    requires
        form.book_code is Some,
        form.book_title is Some,
        form.book_abbr is Some,
        form.add_cv is Some,
        form.versification is Some,
        form.add_cv->Some_0 ==> new_repo_versification_readable(vrs@, form.book_code->Some_0@),
    ensures
        match new_repo_stub(form.add_cv->Some_0, vrs@, form.book_code->Some_0@, form.versification->Some_0@) {
            Ok(stub) => {
                let book = form.book_code->Some_0@;
                let usfm = fill_all(
                    usfm_template@,
                    usfm_subs(book, form.book_title->Some_0@, form.content_name@, form.book_abbr->Some_0@, stub),
                );
                &&& r is Ok
                &&& r->Ok_0.1@ == usfm
                &&& r->Ok_0.0@ == fill_all(
                    metadata@,
                    book_metadata_subs(book, book_ingredients(book, "usfm"@, "text/plain"@, usfm, vrs_text@)),
                )
            },
            Err(reason) => r is Err && is_bad(r->Err_0, STATUS_INTERNAL_SERVER_ERROR, reason),
        },
{
    let book = match &form.book_code {
        Some(b) => b.as_str(),
        None => { assert(false); "" },
    };
    let title = match &form.book_title {
        Some(t) => t.as_str(),
        None => { assert(false); "" },
    };
    let abbr = match &form.book_abbr {
        Some(a) => a.as_str(),
        None => { assert(false); "" },
    };
    let add_cv = match form.add_cv {
        Some(a) => a,
        None => { assert(false); false },
    };
    let vrs_name = match &form.versification {
        Some(v) => v.as_str(),
        None => { assert(false); "" },
    };
    let stub = match new_repo_book_stub(add_cv, vrs, book, vrs_name) {
        Ok(s) => s,
        Err(e) => return Err(e),
    };
    let usfm = fill_usfm_template(usfm_template, book, title, form.content_name.as_str(), abbr, stub.as_str());
    let ingredients = book_ingredients_text(book, "usfm", "text/plain", usfm.as_str(), vrs_text);
    let m = add_book_to_metadata(metadata, book, ingredients.as_str());
    Ok((m, usfm))
}

/// The metadata of a new verse-by-verse resource with a first book: the
/// book's scope entry, and the ingredients of its TSV file and of the
/// versification.
pub fn bcv_resource_book(metadata: &str, book: &str, tsv: &str, vrs_text: &str) -> (r: String)
    ensures
        r@ == fill_all(
            metadata@,
            book_metadata_subs(book@, book_ingredients(book@, "tsv"@, "text/tab-separated-values"@, tsv@, vrs_text@)),
        ),
{
    let ingredients = book_ingredients_text(book, "tsv", "text/tab-separated-values", tsv, vrs_text);
    add_book_to_metadata(metadata, book, ingredients.as_str())
}

} // verus!
