//! New resource repositories derived from catalogs and other repositories:
//! verse-by-verse resources, print specifications and translation-checking
//! (tC) repositories.
use vstd::prelude::*;
use vstd::utf8::encode_utf8;
use crate::endpoints::content::{
    english_name, fill_all, ingredient_json_text, ingredient_record, language_json_text,
    language_record, md5_text,
};
use crate::json::{Json, JsonValue, index_key, lookup, has_key};
use crate::outside::{json_string_parse, parse_json_string};
use crate::responses::{
    ApiResponse, bad_response, is_bad, json_quote, json_string_text, STATUS_INTERNAL_SERVER_ERROR,
};
use crate::structs::{BurritoMetadata, NewPrintSpecContentForm};
use crate::text::{concat3, push_str, replace, replace_all};

verus! {

// ---------------------------------------------------------------- catalog

/// The reason given when the TSV catalog has no record for a type.
pub open spec fn no_tsv_record_reason(tsv_type: Seq<char>) -> Seq<char> {
    "Could not find record for "@ + tsv_type + " in tsv catalog JSON"@
}

/// The reason given when a TSV catalog record has no flavor string.
pub open spec fn no_tsv_flavor_reason(tsv_type: Seq<char>) -> Seq<char> {
    "Could not find flavor in record for "@ + tsv_type + " in tsv catalog JSON"@
}

/// Whether the catalog's record for `tsv_type`, when it is an object, has
/// a `flavor` member.
pub open spec fn tsv_record_has_flavor(catalog: Json, tsv_type: Seq<char>) -> bool {
    match index_key(catalog, tsv_type) {
        Json::Object(m) => has_key(m, "flavor"@),
        _ => true,
    }
}

/// The flavor of a TSV type in the TSV catalog: the `flavor` string of the
/// type's record, or a 500 reply when there is no record or no string.
pub fn tsv_type_flavor(catalog: &JsonValue, tsv_type: &str) -> (r: Result<String, ApiResponse>)
    requires
        tsv_record_has_flavor(catalog@, tsv_type@),
    ensures
        match index_key(catalog@, tsv_type@) {
            Json::Object(m) => match lookup(m, "flavor"@) {
                Some(Json::Str(f)) => r is Ok && r->Ok_0@ == f,
                _ => r is Err && is_bad(r->Err_0, STATUS_INTERNAL_SERVER_ERROR, no_tsv_flavor_reason(tsv_type@)),
            },
            _ => r is Err && is_bad(r->Err_0, STATUS_INTERNAL_SERVER_ERROR, no_tsv_record_reason(tsv_type@)),
        },
{
    let record = match catalog.get(tsv_type) {
        Some(JsonValue::Object(m)) => m,
        _ => {
            return Err(bad_response(
                STATUS_INTERNAL_SERVER_ERROR,
                concat3("Could not find record for ", tsv_type, " in tsv catalog JSON"),
            ));
        },
    };
    match crate::json::members_get(record, "flavor") {
        Some(JsonValue::Str(f)) => Ok(f.clone()),
        _ => Err(bad_response(
            STATUS_INTERNAL_SERVER_ERROR,
            concat3("Could not find flavor in record for ", tsv_type, " in tsv catalog JSON"),
        )),
    }
}

// ---------------------------------------------------------------- print specifications

/// The reason given when a supplied print specification is not a JSON
/// string.
pub open spec fn bad_spec_reason(error: Seq<char>) -> Seq<char> {
    "Could not read supplied spec as JSON: "@ + error
}

/// A print specification supplied with the request, read as a JSON string
/// literal, or a 500 reply with the parse error.
pub fn supplied_print_spec(spec: &str) -> (r: Result<String, ApiResponse>)
    ensures
        match json_string_parse(spec@) {
            Ok(v) => r is Ok && r->Ok_0@ == v,
            Err(e) => r is Err && is_bad(r->Err_0, STATUS_INTERNAL_SERVER_ERROR, bad_spec_reason(e)),
        },
{
    match parse_json_string(spec) {
        Ok(v) => Ok(v),
        Err(e) => {
            let mut reason = "Could not read supplied spec as JSON: ".to_owned();
            push_str(&mut reason, e.as_str());
            Err(bad_response(STATUS_INTERNAL_SERVER_ERROR, reason))
        },
    }
}

/// The ingredients object of a print specification repository:
/// `{"ingredients/spec.json":<record of the specification>}`.
pub open spec fn spec_ingredients(spec: Seq<char>) -> Seq<char> {
    "{"@ + json_string_text("ingredients/spec.json"@) + ":"@
        + ingredient_record(md5_text(spec), "application/json"@, None, encode_utf8(spec).len()) + "}"@
}

/// The placeholder fills of a print specification's metadata template.
pub open spec fn print_spec_subs(
    abbr: Seq<char>,
    name: Seq<char>,
    copyright: Seq<char>,
    timestamp: Seq<char>,
    language: Seq<char>,
    ingredients: Seq<char>,
) -> Seq<(Seq<char>, Seq<char>)> {
    seq![
        ("%%ABBR%%"@, abbr),
        ("%%CONTENT_NAME%%"@, name),
        ("%%COPYRIGHT%%"@, copyright),
        ("%%CREATED_TIMESTAMP%%"@, timestamp),
        ("%%LANGUAGE%%"@, language),
        ("%%INGREDIENTS%%"@, ingredients),
    ]
}

/// The metadata of a new print specification: abbreviation, name,
/// copyright, creation time, the language record of `tag` and
/// `language_name`, and the ingredients object of the specification text.
pub fn print_spec_metadata(
    template: &str,
    form: &NewPrintSpecContentForm,
    timestamp: &str,
    tag: &str,
    language_name: &str,
    spec: &str,
) -> (r: String)
    ensures
        r@ == fill_all(
            template@,
            print_spec_subs(
                form.content_abbr@,
                form.content_name@,
                form.copyright@,
                timestamp@,
                language_record(tag@, language_name@),
                spec_ingredients(spec@),
            ),
        ),
{
    proof {
        reveal_strlit("%%ABBR%%");
        reveal_strlit("%%CONTENT_NAME%%");
        reveal_strlit("%%COPYRIGHT%%");
        reveal_strlit("%%CREATED_TIMESTAMP%%");
        reveal_strlit("%%LANGUAGE%%");
        reveal_strlit("%%INGREDIENTS%%");
        reveal_with_fuel(fill_all, 7);
    }
    let lang = language_json_text(tag, language_name);
    let mut ing = "{".to_owned();
    let key = json_quote("ingredients/spec.json");
    push_str(&mut ing, key.as_str());
    push_str(&mut ing, ":");
    let rec = ingredient_json_text(spec, "application/json", None);
    push_str(&mut ing, rec.as_str());
    push_str(&mut ing, "}");
    let m1 = replace(template, "%%ABBR%%", form.content_abbr.as_str());
    let m2 = replace(m1.as_str(), "%%CONTENT_NAME%%", form.content_name.as_str());
    let m3 = replace(m2.as_str(), "%%COPYRIGHT%%", form.copyright.as_str());
    let m4 = replace(m3.as_str(), "%%CREATED_TIMESTAMP%%", timestamp);
    let m5 = replace(m4.as_str(), "%%LANGUAGE%%", lang.as_str());
    let m6 = replace(m5.as_str(), "%%INGREDIENTS%%", ing.as_str());
    let ghost subs = print_spec_subs(
        form.content_abbr@,
        form.content_name@,
        form.copyright@,
        timestamp@,
        language_record(tag@, language_name@),
        spec_ingredients(spec@),
    );
    assert(subs.drop_last().drop_last().drop_last().drop_last().drop_last().drop_last() =~= Seq::<(Seq<char>, Seq<char>)>::empty());
    m6
}

// ---------------------------------------------------------------- translation checks

/// Fields of a request for a new translation-checking repository.
pub struct NewBcvResourceContentForm {
    pub usfm_repo_path: String,
    pub book_code: String,
    pub branch_name: Option<String>,
}

/// The language tag of a language record, if it is an object with a string
/// `tag`.
pub open spec fn record_tag(lang: Json) -> Option<Seq<char>> {
    match lang {
        Json::Object(m) => match lookup(m, "tag"@) {
            Some(Json::Str(t)) => Some(t),
            _ => None,
        },
        _ => None,
    }
}

/// Whether a source repository's metadata holds what a checking repository
/// is made from: English abbreviation and name, and a first language with
/// a tag.
pub open spec fn tcore_source_readable(meta: BurritoMetadata) -> bool {
    &&& english_name(index_key(meta.identification@, "abbreviation"@)) is Some
    &&& english_name(index_key(meta.identification@, "name"@)) is Some
    &&& meta.languages@.len() > 0
    &&& record_tag(meta.languages@[0]@) is Some
}

/// What a checking repository takes from its source: the source's English
/// abbreviation and name, and its first language's tag.
pub fn tcore_source(meta: &BurritoMetadata) -> (r: (String, String, String))
    requires
        tcore_source_readable(*meta),
    ensures
        r.0@ == english_name(index_key(meta.identification@, "abbreviation"@))->Some_0,
        r.1@ == english_name(index_key(meta.identification@, "name"@))->Some_0,
        r.2@ == record_tag(meta.languages@[0]@)->Some_0,
{
    let abbr = match meta.identification.get("abbreviation") {
        Some(ob) => match ob.get("en") {
            Some(JsonValue::Str(s)) => s.clone(),
            _ => { assert(false); String::new() },
        },
        None => { assert(false); String::new() },
    };
    let name = match meta.identification.get("name") {
        Some(ob) => match ob.get("en") {
            Some(JsonValue::Str(s)) => s.clone(),
            _ => { assert(false); String::new() },
        },
        None => { assert(false); String::new() },
    };
    let tag = match meta.languages[0].get("tag") {
        Some(JsonValue::Str(s)) => s.clone(),
        _ => { assert(false); String::new() },
    };
    (abbr, name, tag)
}

/// The name of a checking repository: `<abbr>_tcchecks`.
pub fn tcore_repo_name(abbr: &str) -> (r: String)
    ensures
        r@ == abbr@ + "_tcchecks"@,
{
    let mut r = abbr.to_owned();
    push_str(&mut r, "_tcchecks");
    r
}

/// The book project directory of a checking repository:
/// `<language>_<abbr>_<book>_book`.
pub fn tcore_book_project(language: &str, abbr: &str, book: &str) -> (r: String)
    ensures
        r@ == language@ + "_"@ + abbr@ + "_"@ + book@ + "_book"@,
{
    let mut r = language.to_owned();
    push_str(&mut r, "_");
    push_str(&mut r, abbr);
    push_str(&mut r, "_");
    push_str(&mut r, book);
    push_str(&mut r, "_book");
    r
}

/// The placeholder fills of a checking repository's metadata template.
pub open spec fn tcore_subs(repo_name: Seq<char>, source_name: Seq<char>, timestamp: Seq<char>) -> Seq<(Seq<char>, Seq<char>)> {
    seq![
        ("%%ABBR%%"@, repo_name),
        ("%%CONTENT_NAME%%"@, "tC Checks ("@ + source_name + ")"@),
        ("%%CREATED_TIMESTAMP%%"@, timestamp),
        ("%%SCOPE%%"@, Seq::empty()),
    ]
}

/// The metadata of a checking repository: its name as abbreviation,
/// `tC Checks (<source name>)` as name, the creation time, and no scope.
pub fn tcore_metadata(template: &str, repo_name: &str, source_name: &str, timestamp: &str) -> (r: String)
    ensures
        r@ == fill_all(template@, tcore_subs(repo_name@, source_name@, timestamp@)),
{
    proof {
        reveal_strlit("%%ABBR%%");
        reveal_strlit("%%CONTENT_NAME%%");
        reveal_strlit("%%CREATED_TIMESTAMP%%");
        reveal_strlit("%%SCOPE%%");
        reveal_strlit("");
        assert(""@ =~= Seq::<char>::empty());
        reveal_with_fuel(fill_all, 5);
    }
    let name = concat3("tC Checks (", source_name, ")");
    let m1 = replace(template, "%%ABBR%%", repo_name);
    let m2 = replace(m1.as_str(), "%%CONTENT_NAME%%", name.as_str());
    let m3 = replace(m2.as_str(), "%%CREATED_TIMESTAMP%%", timestamp);
    let m4 = replace(m3.as_str(), "%%SCOPE%%", "");
    let ghost subs = tcore_subs(repo_name@, source_name@, timestamp@);
    assert(subs.drop_last().drop_last().drop_last().drop_last() =~= Seq::<(Seq<char>, Seq<char>)>::empty());
    m4
}

} // verus!
