use pankosmia_web::endpoints::content::{
    add_book_to_metadata, audio_translation_metadata, bcv_resource_book, book_ingredients_text,
    branch_or, byte_len, custom_language_name, fill_usfm_template, hex_lower, ingredient_json_text,
    is_custom_language, join_strings, language_json_text, looked_up_language_name, md5_hex,
    metadata_template_path, metadata_without_book, new_repo_book_stub, new_repo_dir,
    new_repo_parent, plain_metadata, print_spec_language, repo_book_stub, str_less,
    already_exists_response, template_not_found_response, text_translation_book,
    text_translation_metadata, cv_stub_text,
};
use pankosmia_web::json::JsonValue;
use pankosmia_web::responses::{ApiResponse, ResponseBody};
use pankosmia_web::structs::{NewAudioTranslationContentForm, NewTextTranslationContentForm};

fn jv(v: &serde_json::Value) -> JsonValue {
    match v {
        serde_json::Value::Null => JsonValue::Null,
        serde_json::Value::Bool(b) => JsonValue::Bool(*b),
        serde_json::Value::Number(n) => JsonValue::Number(n.to_string()),
        serde_json::Value::String(s) => JsonValue::Str(s.clone()),
        serde_json::Value::Array(a) => JsonValue::Array(a.iter().map(jv).collect()),
        serde_json::Value::Object(m) => {
            JsonValue::Object(m.iter().map(|(k, v)| (k.clone(), jv(v))).collect())
        }
    }
}

fn parse(s: &str) -> serde_json::Value {
    serde_json::from_str(s).unwrap()
}

fn body_text(r: &ApiResponse) -> String {
    match &r.body {
        ResponseBody::Text(t) => t.clone(),
        ResponseBody::Document(_) => panic!("document body"),
    }
}

fn reason_of(r: &ApiResponse) -> String {
    let v = parse(&body_text(r));
    assert_eq!(v["is_good"], serde_json::Value::Bool(false));
    v["reason"].as_str().unwrap().to_string()
}

fn text_form(add_book: bool, add_cv: bool, code: &str) -> NewTextTranslationContentForm {
    NewTextTranslationContentForm {
        content_name: "My Bible".to_string(),
        content_abbr: "MB".to_string(),
        content_type: "text_translation".to_string(),
        content_language_code: code.to_string(),
        content_language_name: None,
        add_book,
        book_code: Some("TIT".to_string()),
        book_title: Some("Titus".to_string()),
        book_abbr: Some("Tit".to_string()),
        add_cv: Some(add_cv),
        versification: Some("eng".to_string()),
        branch_name: None,
    }
}

#[test]
fn hex_and_md5_digests() {
    assert_eq!(hex_lower(&[0u8, 15, 16, 255]), "000f10ff");
    assert_eq!(md5_hex(""), "d41d8cd98f00b204e9800998ecf8427e");
    assert_eq!(md5_hex("abc"), "900150983cd24fb0d6963f7d28e17f72");
    assert_eq!(md5_hex("abc"), format!("{:?}", md5::compute("abc")));
    assert_eq!(md5_hex("abc").len(), 32);
}

#[test]
fn byte_length_counts_utf8_bytes() {
    assert_eq!(byte_len("abc"), 3);
    assert_eq!(byte_len("é"), 2);
    assert_eq!(byte_len("ሀ"), 3);
    assert_eq!(byte_len(""), 0);
}

#[test]
fn key_order_is_string_order() {
    assert!(str_less("ingredients/GEN.usfm", "ingredients/vrs.json"));
    assert!(!str_less("ingredients/vrs.json", "ingredients/GEN.usfm"));
    assert!(str_less("ab", "abc"));
    assert!(!str_less("abc", "abc"));
    assert!(!str_less("b", "abc"));
    assert_eq!(str_less("é", "z"), "é".to_string() < "z".to_string());
}

#[test]
fn language_record_matches_serde_json() {
    let mut name = serde_json::Map::new();
    name.insert("en".to_string(), serde_json::Value::String("Fr\"ench".to_string()));
    let mut rec = serde_json::Map::new();
    rec.insert("tag".to_string(), serde_json::Value::String("fr".to_string()));
    rec.insert("name".to_string(), serde_json::Value::Object(name));
    let expected = serde_json::to_string(&serde_json::Value::Object(rec)).unwrap();
    assert_eq!(language_json_text("fr", "Fr\"ench"), expected);
    assert_eq!(language_json_text("fr", "French"), r#"{"name":{"en":"French"},"tag":"fr"}"#);
}

fn serde_ingredient(content: &str, mime: &str, scope: Option<&str>) -> serde_json::Value {
    let mut checksum = serde_json::Map::new();
    checksum.insert("md5".to_string(), serde_json::Value::String(format!("{:?}", md5::compute(content))));
    let mut rec = serde_json::Map::new();
    rec.insert("checksum".to_string(), serde_json::Value::Object(checksum));
    rec.insert("mimeType".to_string(), serde_json::Value::String(mime.to_string()));
    rec.insert("size".to_string(), serde_json::Value::from(content.len()));
    if let Some(b) = scope {
        let mut sc = serde_json::Map::new();
        sc.insert(b.to_string(), serde_json::Value::Array(vec![]));
        rec.insert("scope".to_string(), serde_json::Value::Object(sc));
    }
    serde_json::Value::Object(rec)
}

#[test]
fn ingredient_record_matches_serde_json() {
    let expected = serde_json::to_string(&serde_ingredient("\\id TIT é", "text/plain", Some("TIT"))).unwrap();
    assert_eq!(ingredient_json_text("\\id TIT é", "text/plain", Some("TIT")), expected);
    let expected2 = serde_json::to_string(&serde_ingredient("{}", "application/json", None)).unwrap();
    assert_eq!(ingredient_json_text("{}", "application/json", None), expected2);
}

#[test]
fn book_ingredients_match_serde_json_in_both_orders() {
    for book in ["TIT", "zzz"] {
        let mut m = serde_json::Map::new();
        m.insert(format!("ingredients/{}.usfm", book), serde_ingredient("usfm text", "text/plain", Some(book)));
        m.insert("ingredients/vrs.json".to_string(), serde_ingredient("{\"a\":1}", "application/json", None));
        let expected = serde_json::Value::Object(m).to_string();
        assert_eq!(book_ingredients_text(book, "usfm", "text/plain", "usfm text", "{\"a\":1}"), expected);
    }
    let zz = book_ingredients_text("zzz", "usfm", "text/plain", "u", "v");
    assert!(zz.starts_with("{\"ingredients/vrs.json\""));
}

#[test]
fn metadata_templates_are_filled() {
    let form = text_form(false, false, "fr");
    let t = "%%ABBR%% %%CONTENT_NAME%% %%CREATED_TIMESTAMP%% %%LANGUAGE%% %%ABBR%%";
    let m = text_translation_metadata(t, &form, "2024-01-01", "French");
    assert_eq!(m, "MB My Bible 2024-01-01 {\"name\":{\"en\":\"French\"},\"tag\":\"fr\"} MB");
    let audio = NewAudioTranslationContentForm {
        content_name: "Audio".to_string(),
        content_abbr: "AU".to_string(),
        content_language_code: "x-abc".to_string(),
        content_language_name: Some("Abc".to_string()),
        versification: "eng".to_string(),
        branch_name: None,
    };
    let a = audio_translation_metadata("%%LANGUAGE%%|%%ABBR%%", &audio, "now", "Abc");
    assert_eq!(a, "{\"name\":{\"en\":\"Abc\"},\"tag\":\"x-abc\"}|AU");
    assert_eq!(plain_metadata("%%ABBR%%-%%CONTENT_NAME%%-%%CREATED_TIMESTAMP%%", "A", "N", "T"), "A-N-T");
    assert_eq!(metadata_without_book("[%%SCOPE%%]"), "[]");
    assert_eq!(
        add_book_to_metadata("{%%SCOPE%%} \"ingredients\": {}", "TIT", "{\"x\":1}"),
        "{\"TIT\": []} \"ingredients\": {\"x\":1}"
    );
}

#[test]
fn usfm_template_is_filled() {
    let t = "\\id %%BOOKCODE%% %%CONTENTNAME%%\n\\h %%BOOKNAME%%\n\\toc3 %%BOOKABBR%%\n%%STUBCONTENT%%";
    let u = fill_usfm_template(t, "TIT", "Titus", "My Bible", "Tit", "\\c 1");
    assert_eq!(u, "\\id TIT My Bible\n\\h Titus\n\\toc3 Tit\n\\c 1");
}

#[test]
fn join_strings_joins() {
    let v = vec!["a".to_string(), "b".to_string(), "c".to_string()];
    assert_eq!(join_strings(&v, "/"), v.join("/"));
    assert_eq!(join_strings(&Vec::new(), "/"), "");
}

#[test]
fn cv_stub_lists_chapters_and_verses() {
    let items = vec![JsonValue::Str("3".to_string()), JsonValue::Str("2".to_string())];
    assert_eq!(
        cv_stub_text(&items, " ___"),
        "\\c 1\n\\p\n\\v 1 ___\n\\v 2 ___\n\\v 3 ___\n\\c 2\n\\p\n\\v 1 ___\n\\v 2 ___"
    );
    let zero = vec![JsonValue::Str("0".to_string())];
    assert_eq!(cv_stub_text(&zero, ""), "\\c 1\n\\p");
    assert_eq!(cv_stub_text(&Vec::new(), ""), "");
}

#[test]
fn new_repo_stub_cases() {
    let vrs = jv(&parse(r#"{"maxVerses":{"TIT":["2"],"BAD":"x"}}"#));
    assert_eq!(new_repo_book_stub(false, &vrs, "TIT", "eng").ok().unwrap(), "\\c 1\n\\p\n\\v 1\n___");
    assert_eq!(new_repo_book_stub(true, &vrs, "TIT", "eng").ok().unwrap(), "\\c 1\n\\p\n\\v 1 ___\n\\v 2 ___");
    let e = new_repo_book_stub(true, &vrs, "BAD", "eng").err().unwrap();
    assert_eq!(e.status, 500);
    assert_eq!(reason_of(&e), "Could not find maxVerses for BAD in versification JSON for eng");
    let e2 = new_repo_book_stub(true, &jv(&parse(r#"{"maxVerses":[]}"#)), "TIT", "eng").err().unwrap();
    assert_eq!(reason_of(&e2), "Could not find maxVerses in versification JSON for eng");
    let e3 = new_repo_book_stub(true, &jv(&parse("[1]")), "TIT", "eng").err().unwrap();
    assert_eq!(reason_of(&e3), "Could not find versification JSON object for eng");
}

#[test]
fn repo_stub_cases() {
    let vrs = jv(&parse(r#"{"maxVerses":{"TIT":["1","1"],"BAD":{}}}"#));
    assert_eq!(repo_book_stub(&vrs, "TIT").ok().unwrap(), "\\c 1\n\\p\n\\v 1\n\\c 2\n\\p\n\\v 1");
    let e = repo_book_stub(&vrs, "BAD").err().unwrap();
    assert_eq!(reason_of(&e), "Could not find maxVerses for BAD in versification JSON for this repo");
    let e2 = repo_book_stub(&jv(&parse("{}")), "TIT").err().unwrap();
    assert_eq!(e2.status, 500);
    assert_eq!(reason_of(&e2), "Could not find maxVerses in versification JSON for this repo");
}

#[test]
fn text_translation_with_book() {
    let form = text_form(true, true, "fr");
    let vrs = jv(&parse(r#"{"maxVerses":{"TIT":["1"]}}"#));
    let (m, usfm) = text_translation_book(
        "{%%SCOPE%%,\"ingredients\": {}}",
        &form,
        "\\id %%BOOKCODE%%\n%%STUBCONTENT%%",
        &vrs,
        "{\"maxVerses\":{\"TIT\":[\"1\"]}}",
    )
    .ok()
    .unwrap();
    assert_eq!(usfm, "\\id TIT\n\\c 1\n\\p\n\\v 1 ___");
    let ing = book_ingredients_text("TIT", "usfm", "text/plain", &usfm, "{\"maxVerses\":{\"TIT\":[\"1\"]}}");
    assert_eq!(m, format!("{{\"TIT\": [],\"ingredients\": {}}}", ing));
    let parsed = parse(&m);
    assert_eq!(parsed["ingredients"]["ingredients/TIT.usfm"]["size"], serde_json::Value::from(usfm.len()));
}

#[test]
fn bcv_resource_book_adds_tsv_ingredients() {
    let m = bcv_resource_book("%%SCOPE%% \"ingredients\": {}", "TIT", "a\tb", "{}");
    let ing = book_ingredients_text("TIT", "tsv", "text/tab-separated-values", "a\tb", "{}");
    assert_eq!(m, format!("\"TIT\": [] \"ingredients\": {}", ing));
    assert!(ing.contains("\"text/tab-separated-values\""));
}

#[test]
fn language_names() {
    assert!(is_custom_language("x-abc"));
    assert!(!is_custom_language("fr"));
    assert_eq!(custom_language_name("x-abc", Some("Abc".to_string())).ok().unwrap(), "Abc");
    let e = custom_language_name("x-abc", None).err().unwrap();
    assert_eq!(e.status, 400);
    assert_eq!(reason_of(&e), "Language code 'x-abc' is custom ('x-') but no language name has been provided");
    let table = jv(&parse(r#"{"fr":{"en":"French"},"de":"oops"}"#));
    assert_eq!(looked_up_language_name("fr", &table).ok().unwrap(), "French");
    let e2 = looked_up_language_name("de", &table).err().unwrap();
    assert_eq!(
        reason_of(&e2),
        "Language code 'de' is not custom (no 'x-') but has not been found in the BCP47 lookup table"
    );
    assert!(looked_up_language_name("es", &table).is_err());
    assert_eq!(print_spec_language("fr", &table), ("fr".to_string(), "French".to_string()));
    assert_eq!(print_spec_language("es", &table), ("x-es".to_string(), "es".to_string()));
}

#[test]
fn new_repo_paths_and_replies() {
    assert_eq!(new_repo_parent("/r"), "/r/_local_/_local_");
    assert_eq!(new_repo_dir("/r", "MB"), "/r/_local_/_local_/MB");
    assert_eq!(metadata_template_path("/res", "x-tcore"), "/res/templates/content_templates/x-tcore/metadata.json");
    let e = already_exists_response("MB");
    assert_eq!(e.status, 400);
    assert_eq!(reason_of(&e), "Local content called 'MB' already exists");
    assert_eq!(reason_of(&template_not_found_response("foo")), "Metadata template foo not found");
    assert_eq!(branch_or(&None, "main"), "main");
    assert_eq!(branch_or(&Some("dev".to_string()), "main"), "dev");
}
