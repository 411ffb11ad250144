//! Changes to the Scripture Burrito metadata of a local repository: the
//! revision bump of a commit, and the books added to a repository.
use vstd::prelude::*;
use vstd::utf8::encode_utf8;
use crate::endpoints::content::{
    default_book_stub, fill_all, fill_usfm_template, hex_lower, hex_text, md5_hex, md5_text, repo_book_stub,
    repo_stub, repo_versification_readable, usfm_subs, byte_len,
};
use crate::json::{
    Json, JsonValue, has_key, index_key, lookup, members_get, object_set, set_member, view_members,
    lemma_view_members, law_set_member_lookup, lemma_set_first_member,
};
use crate::outside::{lowercase, md5_compute, md5_digest, to_lowercase};
use crate::responses::{ApiResponse, bad_response, is_bad, STATUS_BAD_REQUEST, STATUS_INTERNAL_SERVER_ERROR};
use crate::string_map::StringMap;
use crate::structs::{BurritoMetadata, BurritoMetadataIngredient, NewScriptureBookForm};
use crate::text::{
    chars_of, concat3, ends_with, has_suffix, i64_to_string, law_decimal_parse_round_trip, parse_i32,
    parse_i32_spec, push_str, signed_decimal, str_eq, string_from_chars,
};

verus! {

// ---------------------------------------------------------------- revision bump

/// The identification record after a commit: the `revision` of the first
/// abbreviation of the first primary organisation goes up by one and its
/// `timestamp` becomes `now`. `None` where the record lacks what the bump
/// reads, or where the revision is the largest `i32`.
pub open spec fn bumped_identification(ident: Json, now: Seq<char>) -> Option<Json> {
    match ident {
        Json::Object(im) => if !has_key(im, "primary"@) {
            None
        } else {
            match lookup(im, "primary"@) {
                Some(Json::Object(pm)) => if pm.len() == 0 {
                    None
                } else {
                    match pm[0].1 {
                        Json::Object(om) => if om.len() == 0 {
                            None
                        } else {
                            match om[0].1 {
                                Json::Object(am) => if !has_key(am, "revision"@) {
                                    None
                                } else {
                                    match lookup(am, "revision"@) {
                                        Some(Json::Str(r)) => match parse_i32_spec(r) {
                                            Some(n) => if n == i32::MAX {
                                                None
                                            } else {
                                                let am2 = set_member(
                                                    set_member(am, "revision"@, Json::Str(signed_decimal(n + 1))),
                                                    "timestamp"@,
                                                    Json::Str(now),
                                                );
                                                let om2 = set_member(om, om[0].0, Json::Object(am2));
                                                let pm2 = set_member(pm, pm[0].0, Json::Object(om2));
                                                Some(Json::Object(set_member(im, "primary"@, Json::Object(pm2))))
                                            },
                                            None => None,
                                        },
                                        _ => None,
                                    }
                                },
                                _ => None,
                            }
                        },
                        _ => None,
                    }
                },
                _ => None,
            }
        },
        _ => None,
    }
}

/// The `meta` record after a commit: `dateCreated` becomes `now`.
pub open spec fn stamped_meta(meta: Json, now: Seq<char>) -> Json {
    match meta {
        Json::Object(m) => Json::Object(set_member(m, "dateCreated"@, Json::Str(now))),
        _ => meta,
    }
}

/// Stamps the metadata of a repository for a commit: `meta.dateCreated`
/// becomes `now`, and the first abbreviation of the first primary
/// organisation gets its revision raised by one and its timestamp set to
/// `now`. Objects keep the member order they were read in, which for
/// documents read by serde_json is the order of their keys.
pub fn bump_metadata(meta: &mut BurritoMetadata, now: &str)
    requires
        old(meta).meta@ is Object,
        bumped_identification(old(meta).identification@, now@) is Some,
    ensures
        final(meta).meta@ == stamped_meta(old(meta).meta@, now@),
        final(meta).identification@ == bumped_identification(old(meta).identification@, now@)->Some_0,
        final(meta).format == old(meta).format,
        final(meta).idAuthorities == old(meta).idAuthorities,
        final(meta).languages == old(meta).languages,
        final(meta).type_info == old(meta).type_info,
        final(meta).confidential == old(meta).confidential,
        final(meta).localizedNames == old(meta).localizedNames,
        final(meta).ingredients == old(meta).ingredients,
        final(meta).copyright == old(meta).copyright,
{
    let new_meta = match &meta.meta {
        JsonValue::Object(m) => object_set(m, "dateCreated", JsonValue::Str(now.to_owned())),
        _ => { assert(false); return; },
    };
    let new_ident = {
        let im = match &meta.identification {
            JsonValue::Object(m) => m,
            _ => { assert(false); return; },
        };
        proof { lemma_view_members(im@); }
        let pm = match crate::json::members_get(im, "primary") {
            Some(JsonValue::Object(pm)) => pm,
            _ => { assert(false); return; },
        };
        proof { lemma_view_members(pm@); }
        if pm.len() == 0 { assert(false); return; }
        let om = match &pm[0].1 {
            JsonValue::Object(om) => om,
            _ => { assert(false); return; },
        };
        proof { lemma_view_members(om@); }
        if om.len() == 0 { assert(false); return; }
        let am = match &om[0].1 {
            JsonValue::Object(am) => am,
            _ => { assert(false); return; },
        };
        let n = match crate::json::members_get(am, "revision") {
            Some(JsonValue::Str(r)) => match parse_i32(r.as_str()) {
                Some(n) => n,
                None => { assert(false); return; },
            },
            _ => { assert(false); return; },
        };
        if n == i32::MAX { assert(false); return; }
        let rev = i64_to_string((n + 1) as i64);
        let am1 = object_set(am, "revision", JsonValue::Str(rev));
        let am2 = object_set(&am1, "timestamp", JsonValue::Str(now.to_owned()));
        let om2 = object_set(om, om[0].0.as_str(), JsonValue::Object(am2));
        let pm2 = object_set(pm, pm[0].0.as_str(), JsonValue::Object(om2));
        JsonValue::Object(object_set(im, "primary", JsonValue::Object(pm2)))
    };
    meta.meta = JsonValue::Object(new_meta);
    meta.identification = new_ident;
}


/// The members of the first abbreviation of the first primary
/// organisation of an identification record, where they are there.
pub open spec fn first_abbreviation(ident: Json) -> Option<Seq<(Seq<char>, Json)>> {
    match ident {
        Json::Object(im) => match lookup(im, "primary"@) {
            Some(Json::Object(pm)) => if pm.len() == 0 {
                None
            } else {
                match pm[0].1 {
                    Json::Object(om) => if om.len() == 0 {
                        None
                    } else {
                        match om[0].1 {
                            Json::Object(am) => Some(am),
                            _ => None,
                        }
                    },
                    _ => None,
                }
            },
            _ => None,
        },
        _ => None,
    }
}

/// The revision number of an identification record, as it reads.
pub open spec fn revision_number(ident: Json) -> Option<i32> {
    match first_abbreviation(ident) {
        Some(am) => match lookup(am, "revision"@) {
            Some(Json::Str(r)) => parse_i32_spec(r),
            _ => None,
        },
        None => None,
    }
}

/// The timestamp of an identification record.
pub open spec fn revision_timestamp(ident: Json) -> Option<Json> {
    match first_abbreviation(ident) {
        Some(am) => lookup(am, "timestamp"@),
        None => None,
    }
}

/// Each commit raises the revision by one: after the bump the revision
/// reads as one more than before, and its timestamp is the commit time.
pub proof fn law_bump_raises_revision(ident: Json, now: Seq<char>)
    requires
        bumped_identification(ident, now) is Some,
    ensures
        revision_number(ident) is Some,
        revision_number(bumped_identification(ident, now)->Some_0) == Some((revision_number(ident)->Some_0 + 1) as i32),
        revision_timestamp(bumped_identification(ident, now)->Some_0) == Some(Json::Str(now)),
{
    reveal_strlit("primary");
    reveal_strlit("timestamp");
    reveal_strlit("revision");
    assert("primary"@.len() != "timestamp"@.len());
    assert("revision"@.len() != "timestamp"@.len());
    let im = ident->Object_0;
    let pm = lookup(im, "primary"@)->Some_0->Object_0;
    let om = pm[0].1->Object_0;
    let am = om[0].1->Object_0;
    let r = lookup(am, "revision"@)->Some_0->Str_0;
    let n = parse_i32_spec(r)->Some_0;
    let dec = signed_decimal(n + 1);
    let am1 = set_member(am, "revision"@, Json::Str(dec));
    let am2 = set_member(am1, "timestamp"@, Json::Str(now));
    let om2 = set_member(om, om[0].0, Json::Object(am2));
    let pm2 = set_member(pm, pm[0].0, Json::Object(om2));
    let im2 = set_member(im, "primary"@, Json::Object(pm2));
    assert(bumped_identification(ident, now) == Some(Json::Object(im2)));
    law_set_member_lookup(im, "primary"@, Json::Object(pm2), "timestamp"@);
    lemma_set_first_member(pm, Json::Object(om2));
    lemma_set_first_member(om, Json::Object(am2));
    assert(first_abbreviation(Json::Object(im2)) == Some(am2));
    law_set_member_lookup(am, "revision"@, Json::Str(dec), "timestamp"@);
    law_set_member_lookup(am1, "timestamp"@, Json::Str(now), "revision"@);
    law_decimal_parse_round_trip((n + 1) as i32);
    assert(((n + 1) as i32) as int == n + 1);
}

// ---------------------------------------------------------------- new books

/// The ingredient key of a book file: `ingredients/<book>.<ext>`.
pub open spec fn book_ingredient_key(book: Seq<char>, ext: Seq<char>) -> Seq<char> {
    "ingredients/"@ + book + "."@ + ext
}

/// The ingredient key of a book file.
pub fn book_key(book: &str, ext: &str) -> (r: String)
    ensures
        r@ == book_ingredient_key(book@, ext@),
{
    let mut r = "ingredients/".to_owned();
    push_str(&mut r, book);
    push_str(&mut r, ".");
    push_str(&mut r, ext);
    r
}

/// The reason given when a book is already in the metadata.
pub open spec fn book_exists_reason(book: Seq<char>) -> Seq<char> {
    "Book '"@ + book + "' already exists in metadata"@
}

/// The 400 reply for a book whose file `ingredients/<book>.<ext>` is
/// already an ingredient, or `None` when it is not.
pub fn book_already_present(meta: &BurritoMetadata, book: &str, ext: &str) -> (r: Option<ApiResponse>)
    requires
        meta.ingredients.wf(),
    ensures
        meta.ingredients@.dom().contains(book_ingredient_key(book@, ext@)) ==> r is Some
            && is_bad(r->Some_0, STATUS_BAD_REQUEST, book_exists_reason(book@)),
        !meta.ingredients@.dom().contains(book_ingredient_key(book@, ext@)) ==> r is None,
{
    let key = book_key(book, ext);
    if meta.ingredients.contains_key(key.as_str()) {
        Some(bad_response(STATUS_BAD_REQUEST, concat3("Book '", book, "' already exists in metadata")))
    } else {
        None
    }
}

/// The USFM file of a new book of an existing repository: the template
/// filled with the book's code, title and abbreviation, the repository's
/// name, and a stub with every chapter and verse when `add_cv` (else a
/// one-verse stub); or a 500 reply when the versification cannot give the
/// book's verse counts.
pub fn scripture_book_usfm(
    template: &str,
    form: &NewScriptureBookForm,
    repo_name: &str,
    vrs: &JsonValue,
) -> (r: Result<String, ApiResponse>)
    requires
        form.add_cv ==> repo_versification_readable(vrs@, form.book_code@),
    ensures
        !form.add_cv ==> r is Ok && r->Ok_0@ == fill_all(
            template@,
            usfm_subs(form.book_code@, form.book_title@, repo_name@, form.book_abbr@, default_book_stub()),
        ),
        form.add_cv ==> match repo_stub(vrs@, form.book_code@) {
            Ok(stub) => r is Ok && r->Ok_0@ == fill_all(
                template@,
                usfm_subs(form.book_code@, form.book_title@, repo_name@, form.book_abbr@, stub),
            ),
            Err(reason) => r is Err && is_bad(r->Err_0, STATUS_INTERNAL_SERVER_ERROR, reason),
        },
{
    let stub = if form.add_cv {
        match repo_book_stub(vrs, form.book_code.as_str()) {
            Ok(s) => s,
            Err(e) => return Err(e),
        }
    } else {
        "\\c 1\n\\p\n\\v 1\nFirst verse...".to_owned()
    };
    Ok(fill_usfm_template(
        template,
        form.book_code.as_str(),
        form.book_title.as_str(),
        repo_name,
        form.book_abbr.as_str(),
        stub.as_str(),
    ))
}

/// Whether `v` records a book file holding `usfm`: its MD5 checksum,
/// `text/plain`, the book's scope and its size in bytes.
pub open spec fn is_book_ingredient(v: BurritoMetadataIngredient, book: Seq<char>, usfm: Seq<char>) -> bool {
    &&& v.checksum@ == Json::Object(seq![("md5"@, Json::Str(md5_text(usfm)))])
    &&& v.mimeType@ == "text/plain"@
    &&& v.scope is Some
    &&& v.scope->Some_0@ == Json::Object(seq![(book, Json::Array(Seq::empty()))])
    &&& v.size == encode_utf8(usfm).len()
}

/// Records a new USFM book file in the metadata's ingredients, under
/// `ingredients/<book>.usfm`; the other ingredients and fields stay.
pub fn add_book_ingredient(meta: &mut BurritoMetadata, book: &str, usfm: &str)
    requires
        old(meta).ingredients.wf(),
    ensures
        final(meta).ingredients.wf(),
        final(meta).ingredients@ == old(meta).ingredients@.insert(
            book_ingredient_key(book@, "usfm"@),
            final(meta).ingredients@[book_ingredient_key(book@, "usfm"@)],
        ),
        is_book_ingredient(final(meta).ingredients@[book_ingredient_key(book@, "usfm"@)], book@, usfm@),
        final(meta).meta == old(meta).meta,
        final(meta).identification == old(meta).identification,
        final(meta).type_info == old(meta).type_info,
{
    let hex = md5_hex(usfm);
    let checksum = JsonValue::Object(vec![("md5".to_owned(), JsonValue::Str(hex))]);
    let scope = JsonValue::Object(vec![(book.to_owned(), JsonValue::Array(Vec::new()))]);
    let size = byte_len(usfm);
    let rec = BurritoMetadataIngredient { checksum, mimeType: "text/plain".to_owned(), scope: Some(scope), size };
    let ghost r = rec;
    proof {
        if let JsonValue::Object(m) = r.checksum {
            lemma_view_members(m@);
            assert(view_members(m@) =~= seq![("md5"@, Json::Str(md5_text(usfm@)))]);
        }
        if let Some(JsonValue::Object(m)) = r.scope {
            lemma_view_members(m@);
            assert(view_members(m@)[0].1 == Json::Array(Seq::<Json>::empty())) by {
                crate::json::lemma_view_items(Seq::<JsonValue>::empty());
                assert(crate::json::view_items(Seq::<JsonValue>::empty()) =~= Seq::<Json>::empty());
            }
            assert(view_members(m@) =~= seq![(book@, Json::Array(Seq::empty()))]);
        }
    }
    let key = book_key(book, "usfm");
    proof { reveal_strlit("usfm"); }
    meta.ingredients.insert(key, rec);
    assert(meta.ingredients@[book_ingredient_key(book@, "usfm"@)] == r);
}

// ---------------------------------------------------------------- verse-by-verse books

/// The flavor name of a metadata `type` record (`flavorType.flavor.name`),
/// where each step is there and of the expected kind.
pub open spec fn flavor_name(type_info: Json) -> Option<Seq<char>> {
    match type_info {
        Json::Object(tm) => if !has_key(tm, "flavorType"@) {
            None
        } else {
            match lookup(tm, "flavorType"@) {
                Some(Json::Object(ft)) => if !has_key(ft, "flavor"@) {
                    None
                } else {
                    match lookup(ft, "flavor"@) {
                        Some(Json::Object(fl)) => if !has_key(fl, "name"@) {
                            None
                        } else {
                            match lookup(fl, "name"@) {
                                Some(Json::Str(n)) => Some(n),
                                _ => None,
                            }
                        },
                        _ => None,
                    }
                },
                _ => None,
            }
        },
        _ => None,
    }
}

/// The TSV template of a verse-by-verse flavor, by its lower-case name:
/// `tn` for notes and questions, `sq` for study questions, else `tq`.
pub open spec fn bcv_template_name(flavor: Seq<char>) -> Seq<char> {
    if flavor == "x-bcvnotes"@ {
        "tn"@
    } else if flavor == "x-bcvquestions"@ {
        "tn"@
    } else if flavor == "x-studyquestions"@ {
        "sq"@
    } else {
        "tq"@
    }
}

/// The TSV template name for the flavor of a verse-by-verse repository.
pub fn bcv_flavor_abbreviation(meta: &BurritoMetadata) -> (r: String)
    requires
        flavor_name(meta.type_info@) is Some,
    ensures
        r@ == bcv_template_name(lowercase(flavor_name(meta.type_info@)->Some_0)),
{
    let name = match meta.type_info.get("flavorType") {
        Some(ft) => match ft.get("flavor") {
            Some(fl) => match fl.get("name") {
                Some(JsonValue::Str(n)) => n,
                _ => { assert(false); return String::new(); },
            },
            None => { assert(false); return String::new(); },
        },
        None => { assert(false); return String::new(); },
    };
    let lower = to_lowercase(name.as_str());
    proof {
        reveal_strlit("x-bcvnotes");
        reveal_strlit("x-bcvquestions");
        reveal_strlit("x-studyquestions");
    }
    if str_eq(lower.as_str(), "x-bcvnotes") {
        "tn".to_owned()
    } else if str_eq(lower.as_str(), "x-bcvquestions") {
        "tn".to_owned()
    } else if str_eq(lower.as_str(), "x-studyquestions") {
        "sq".to_owned()
    } else {
        "tq".to_owned()
    }
}

/// The reason given when a repository has no versification and none was
/// named.
pub open spec fn no_vrs_name_reason() -> Seq<char> {
    "No VRS ingredient found in repo and no versification name provided in API call"@
}

/// The reason given when the named versification has no template.
pub open spec fn no_vrs_template_reason(name: Seq<char>) -> Seq<char> {
    "No VRS template for "@ + name + " found in repo and no versification name provided in API call"@
}

/// The versification to copy into a repository that has none: the name
/// asked for, or a 500 reply when none was.
pub fn missing_vrs_name(vrs_name: &Option<String>) -> (r: Result<String, ApiResponse>)
    ensures
        match vrs_name {
            Some(n) => r is Ok && r->Ok_0@ == n@,
            None => r is Err && is_bad(r->Err_0, STATUS_INTERNAL_SERVER_ERROR, no_vrs_name_reason()),
        },
{
    match vrs_name {
        Some(n) => Ok(n.clone()),
        None => Err(bad_response(
            STATUS_INTERNAL_SERVER_ERROR,
            "No VRS ingredient found in repo and no versification name provided in API call".to_owned(),
        )),
    }
}

/// The 500 reply for a named versification without a template.
pub fn missing_vrs_template(name: &str) -> (r: ApiResponse)
    ensures
        is_bad(r, STATUS_INTERNAL_SERVER_ERROR, no_vrs_template_reason(name@)),
{
    bad_response(
        STATUS_INTERNAL_SERVER_ERROR,
        concat3("No VRS template for ", name, " found in repo and no versification name provided in API call"),
    )
}

// ---------------------------------------------------------------- ingredients from files

/// The media type of an ingredient file, by the ending of its name.
pub open spec fn file_mime(name: Seq<char>) -> Seq<char> {
    if has_suffix(name, ".usfm"@) {
        "text/plain"@
    } else if has_suffix(name, ".tsv"@) {
        "text/tab-separated-values"@
    } else if has_suffix(name, ".json"@) {
        "application/json"@
    } else {
        "application/octet-stream"@
    }
}

/// The book an ingredient file holds: the name without its ending, for a
/// USFM or TSV file.
pub open spec fn file_book(name: Seq<char>) -> Option<Seq<char>> {
    if has_suffix(name, ".usfm"@) {
        Some(name.take(name.len() - 5))
    } else if has_suffix(name, ".tsv"@) {
        Some(name.take(name.len() - 4))
    } else {
        None
    }
}

/// The ingredient record of a file called `name` whose content is `bytes`:
/// the MD5 checksum of the bytes, the media type of its ending, its size,
/// and, for a book file, the book as scope.
pub fn file_ingredient(name: &str, bytes: &[u8]) -> (r: BurritoMetadataIngredient)
    ensures
        r.checksum@ == Json::Object(seq![("md5"@, Json::Str(hex_text(md5_digest(bytes@))))]),
        r.mimeType@ == file_mime(name@),
        r.size == bytes@.len(),
        match file_book(name@) {
            Some(b) => r.scope is Some && r.scope->Some_0@ == Json::Object(seq![(b, Json::Array(Seq::empty()))]),
            None => r.scope is None,
        },
{
    proof {
        reveal_strlit(".usfm");
        reveal_strlit(".tsv");
    }
    let digest = md5_compute(bytes);
    let hex = hex_lower(&digest);
    let checksum = JsonValue::Object(vec![("md5".to_owned(), JsonValue::Str(hex))]);
    let is_usfm = ends_with(name, ".usfm");
    let is_tsv = ends_with(name, ".tsv");
    let mime = if is_usfm {
        "text/plain".to_owned()
    } else if is_tsv {
        "text/tab-separated-values".to_owned()
    } else if ends_with(name, ".json") {
        "application/json".to_owned()
    } else {
        "application/octet-stream".to_owned()
    };
    let scope = if is_usfm || is_tsv {
        let mut chars = chars_of(name);
        let cut: usize = if is_usfm { 5 } else { 4 };
        chars.truncate(chars.len() - cut);
        let book = string_from_chars(chars.as_slice());
        Some(JsonValue::Object(vec![(book, JsonValue::Array(Vec::new()))]))
    } else {
        None
    };
    let rec = BurritoMetadataIngredient { checksum, mimeType: mime, scope, size: bytes.len() };
    let ghost r = rec;
    proof {
        if let JsonValue::Object(m) = r.checksum {
            lemma_view_members(m@);
            assert(view_members(m@) =~= seq![("md5"@, Json::Str(hex_text(md5_digest(bytes@))))]);
        }
        if let Some(JsonValue::Object(m)) = r.scope {
            lemma_view_members(m@);
            assert(view_members(m@)[0].1 == Json::Array(Seq::<Json>::empty())) by {
                crate::json::lemma_view_items(Seq::<JsonValue>::empty());
                assert(crate::json::view_items(Seq::<JsonValue>::empty()) =~= Seq::<Json>::empty());
            }
        }
    }
    rec
}

/// The members of `acc` with each member of `m` set in turn.
pub open spec fn set_members(acc: Seq<(Seq<char>, Json)>, m: Seq<(Seq<char>, Json)>) -> Seq<(Seq<char>, Json)>
    decreases m.len(),
{
    if m.len() == 0 {
        acc
    } else {
        let before = set_members(acc, m.drop_last());
        set_member(before, m.last().0, m.last().1)
    }
}

/// The members of the scope of a repository whose ingredient records have
/// the scopes `scopes`, in order: every member of every object scope is
/// set in turn, so a book named twice is held once.
pub open spec fn scope_members(scopes: Seq<Option<Json>>) -> Seq<(Seq<char>, Json)>
    decreases scopes.len(),
{
    if scopes.len() == 0 {
        Seq::empty()
    } else {
        let before = scope_members(scopes.drop_last());
        match scopes.last() {
            Some(Json::Object(m)) => set_members(before, m),
            _ => before,
        }
    }
}

/// The scopes of ingredient records.
pub open spec fn record_scopes(records: Seq<BurritoMetadataIngredient>) -> Seq<Option<Json>> {
    Seq::new(records.len(), |i: int| match records[i].scope {
        Some(s) => Some(s@),
        None => None,
    })
}

/// The current scope of a repository: one object with the members of the
/// scopes of all its ingredient records.
pub fn current_scope(records: &Vec<BurritoMetadataIngredient>) -> (r: JsonValue)
    ensures
        r@ == Json::Object(scope_members(record_scopes(records@))),
{
    let mut acc: Vec<(String, JsonValue)> = Vec::new();
    let mut i: usize = 0;
    proof {
        lemma_view_members(acc@);
        assert(view_members(acc@) =~= Seq::<(Seq<char>, Json)>::empty());
    }
    while i < records.len()
        invariant
            i <= records@.len(),
            view_members(acc@) == scope_members(record_scopes(records@).take(i as int)),
        decreases records@.len() - i,
    {
        let ghost before = view_members(acc@);
        assert(record_scopes(records@).take(i + 1).drop_last() =~= record_scopes(records@).take(i as int));
        if let Some(JsonValue::Object(m)) = &records[i].scope {
            proof {
                lemma_view_members(m@);
            }
            let mut j: usize = 0;
            while j < m.len()
                invariant
                    j <= m@.len(),
                    view_members(acc@) == set_members(before, view_members(m@).take(j as int)),
                decreases m@.len() - j,
            {
                proof {
                    lemma_view_members(m@);
                    assert(view_members(m@).take(j + 1).drop_last() =~= view_members(m@).take(j as int));
                }
                let v = m[j].1.copy();
                acc = object_set(&acc, m[j].0.as_str(), v);
                j += 1;
            }
            assert(view_members(m@).take(m@.len() as int) =~= view_members(m@));
        }
        i += 1;
    }
    assert(record_scopes(records@).take(records@.len() as int) =~= record_scopes(records@));
    JsonValue::Object(acc)
}

// ---------------------------------------------------------------- ingredients of a repository

/// The ingredients that recording `keys` with `records` in turn gives:
/// each key's last record.
pub open spec fn recorded(keys: Seq<String>, records: Seq<BurritoMetadataIngredient>) -> Map<Seq<char>, BurritoMetadataIngredient>
    decreases keys.len(),
{
    if keys.len() == 0 {
        Map::empty()
    } else {
        recorded(keys.drop_last(), records.take(keys.len() - 1)).insert(keys.last()@, records[keys.len() - 1])
    }
}

/// Whether a metadata `type` record is an object whose `flavorType` is an
/// object.
pub open spec fn has_flavor_type_object(type_info: Json) -> bool {
    type_info matches Json::Object(tm) && lookup(tm, "flavorType"@) matches Some(Json::Object(_))
}

/// The metadata `type` record with `flavorType.currentScope` set to `scope`.
pub open spec fn with_current_scope(type_info: Json, scope: Json) -> Json {
    match type_info {
        Json::Object(tm) => match lookup(tm, "flavorType"@) {
            Some(Json::Object(ft)) => Json::Object(
                set_member(tm, "flavorType"@, Json::Object(set_member(ft, "currentScope"@, scope))),
            ),
            _ => type_info,
        },
        _ => type_info,
    }
}

/// Replaces the ingredients of a verse-by-verse repository with the records
/// of its files (`keys[i]` with `records[i]`, in turn), and sets the current
/// scope of its flavor type to the scope of those records.
pub fn set_book_ingredients(meta: &mut BurritoMetadata, keys: Vec<String>, records: Vec<BurritoMetadataIngredient>)
    requires
        keys@.len() == records@.len(),
        has_flavor_type_object(old(meta).type_info@),
    ensures
        final(meta).ingredients.wf(),
        final(meta).ingredients@ == recorded(keys@, records@),
        final(meta).type_info@ == with_current_scope(
            old(meta).type_info@,
            Json::Object(scope_members(record_scopes(records@))),
        ),
        final(meta).meta == old(meta).meta,
        final(meta).identification == old(meta).identification,
        final(meta).languages == old(meta).languages,
        final(meta).copyright == old(meta).copyright,
{
    let scope = current_scope(&records);
    let new_type = match &meta.type_info {
        JsonValue::Object(tm) => match members_get(tm, "flavorType") {
            Some(JsonValue::Object(ft)) => {
                let inner = object_set(ft, "currentScope", scope);
                JsonValue::Object(object_set(tm, "flavorType", JsonValue::Object(inner)))
            },
            _ => {
                assert(false);
                JsonValue::Null
            },
        },
        _ => {
            assert(false);
            JsonValue::Null
        },
    };
    let ghost all_keys = keys@;
    let ghost all_records = records@;
    let n = keys.len();
    let mut keys = keys;
    let mut records = records;
    let mut ingredients: StringMap<BurritoMetadataIngredient> = StringMap::new();
    let mut k: usize = 0;
    while keys.len() > 0
        invariant
            k <= all_keys.len(),
            all_keys.len() == n,
            keys@ == all_keys.skip(k as int),
            records@ == all_records.skip(k as int),
            all_keys.len() == all_records.len(),
            ingredients.wf(),
            ingredients@ == recorded(all_keys.take(k as int), all_records.take(k as int)),
        decreases keys@.len(),
    {
        assert(keys@.len() == all_keys.len() - k);
        let key = keys.remove(0);
        let rec = records.remove(0);
        proof {
            let t = all_keys.take(k + 1);
            assert(t.drop_last() =~= all_keys.take(k as int));
            assert(all_records.take(k + 1).take(k as int) =~= all_records.take(k as int));
            assert(keys@ =~= all_keys.skip(k + 1));
            assert(records@ =~= all_records.skip(k + 1));
        }
        ingredients.insert(key, rec);
        k += 1;
    }
    proof {
        assert(all_keys.take(k as int) =~= all_keys);
        assert(all_records.take(k as int) =~= all_records);
    }
    meta.ingredients = ingredients;
    meta.type_info = new_type;
}

} // verus!
