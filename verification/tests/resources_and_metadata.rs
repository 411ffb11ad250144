use pankosmia_web::endpoints::burrito::{
    current_scope, file_ingredient, set_book_ingredients,
    add_book_ingredient, bcv_flavor_abbreviation, book_already_present, book_key, bump_metadata,
    missing_vrs_name, missing_vrs_template, scripture_book_usfm,
};
use pankosmia_web::endpoints::content::{md5_hex, fill_usfm_template};
use pankosmia_web::endpoints::resources::{
    print_spec_metadata, supplied_print_spec, tcore_book_project, tcore_metadata, tcore_repo_name,
    tcore_source, tsv_type_flavor,
};
use pankosmia_web::json::JsonValue;
use pankosmia_web::responses::{ApiResponse, ResponseBody};
use pankosmia_web::string_map::StringMap;
use pankosmia_web::structs::{
    BurritoMetadata, BurritoMetadataIngredient, NewPrintSpecContentForm, NewScriptureBookForm,
};

fn jv(v: &serde_json::Value) -> JsonValue {
    match v {
        serde_json::Value::Null => JsonValue::Null,
        serde_json::Value::Bool(b) => JsonValue::Bool(*b),
        serde_json::Value::Number(n) => JsonValue::Number(n.to_string()),
        serde_json::Value::String(s) => JsonValue::Str(s.clone()),
        serde_json::Value::Array(a) => JsonValue::Array(a.iter().map(jv).collect()),
        serde_json::Value::Object(m) => {
            JsonValue::Object(m.iter().map(|(k, v)| (k.clone(), jv(v))).collect())
        }
    }
}

fn sv(v: &JsonValue) -> serde_json::Value {
    match v {
        JsonValue::Null => serde_json::Value::Null,
        JsonValue::Bool(b) => serde_json::Value::Bool(*b),
        JsonValue::Number(n) => serde_json::from_str(n).unwrap(),
        JsonValue::Str(s) => serde_json::Value::String(s.clone()),
        JsonValue::Array(a) => serde_json::Value::Array(a.iter().map(sv).collect()),
        JsonValue::Object(m) => {
            let mut o = serde_json::Map::new();
            for (k, v) in m {
                o.insert(k.clone(), sv(v));
            }
            serde_json::Value::Object(o)
        }
    }
}

fn parse(s: &str) -> serde_json::Value {
    serde_json::from_str(s).unwrap()
}

fn reason_of(r: &ApiResponse) -> String {
    match &r.body {
        ResponseBody::Text(t) => parse(t)["reason"].as_str().unwrap().to_string(),
        ResponseBody::Document(_) => panic!("document body"),
    }
}

const META: &str = r#"{
  "format": "scripture burrito",
  "meta": {"dateCreated": "old", "version": "1.0"},
  "idAuthorities": {},
  "identification": {"primary": {"org": {"abc": {"revision": "7", "timestamp": "old"}}},
                     "name": {"en": "My Bible"}, "abbreviation": {"en": "MB"}},
  "languages": [{"tag": "fr", "name": {"en": "French"}}],
  "type": {"flavorType": {"flavor": {"name": "x-BcvNotes"}}},
  "confidential": false,
  "localizedNames": {},
  "ingredients": {},
  "copyright": {}
}"#;

fn metadata() -> BurritoMetadata {
    let v = parse(META);
    BurritoMetadata {
        format: v["format"].as_str().unwrap().to_string(),
        meta: jv(&v["meta"]),
        idAuthorities: jv(&v["idAuthorities"]),
        identification: jv(&v["identification"]),
        languages: v["languages"].as_array().unwrap().iter().map(jv).collect(),
        type_info: jv(&v["type"]),
        confidential: false,
        localizedNames: jv(&v["localizedNames"]),
        ingredients: StringMap::new(),
        copyright: jv(&v["copyright"]),
    }
}

#[test]
fn tsv_catalog_flavor() {
    let cat = jv(&parse(r#"{"tn":{"flavor":"x-bcvnotes"},"bad":{"flavor":3},"nr":"x"}"#));
    assert_eq!(tsv_type_flavor(&cat, "tn").ok().unwrap(), "x-bcvnotes");
    let e = tsv_type_flavor(&cat, "bad").err().unwrap();
    assert_eq!(e.status, 500);
    assert_eq!(reason_of(&e), "Could not find flavor in record for bad in tsv catalog JSON");
    let e2 = tsv_type_flavor(&cat, "nr").err().unwrap();
    assert_eq!(reason_of(&e2), "Could not find record for nr in tsv catalog JSON");
    assert!(tsv_type_flavor(&cat, "missing").is_err());
}

#[test]
fn supplied_print_spec_is_a_json_string() {
    assert_eq!(supplied_print_spec("\"{\\\"a\\\":1}\"").ok().unwrap(), "{\"a\":1}");
    let e = supplied_print_spec("{\"a\":1}").err().unwrap();
    assert_eq!(e.status, 500);
    let expected = format!(
        "Could not read supplied spec as JSON: {}",
        serde_json::from_str::<String>("{\"a\":1}").unwrap_err()
    );
    assert_eq!(reason_of(&e), expected);
}

#[test]
fn print_spec_metadata_is_filled() {
    let form = NewPrintSpecContentForm {
        content_name: "Spec".to_string(),
        content_abbr: "SP".to_string(),
        copyright: "(c) me".to_string(),
        content_language_code: "fr".to_string(),
        branch_name: None,
        spec: None,
    };
    let t = "%%ABBR%%|%%CONTENT_NAME%%|%%COPYRIGHT%%|%%CREATED_TIMESTAMP%%|%%LANGUAGE%%|%%INGREDIENTS%%";
    let m = print_spec_metadata(t, &form, "T", "fr", "French", "{}");
    let mut checksum = serde_json::Map::new();
    checksum.insert("md5".to_string(), serde_json::Value::String(md5_hex("{}")));
    let mut rec = serde_json::Map::new();
    rec.insert("checksum".to_string(), serde_json::Value::Object(checksum));
    rec.insert("mimeType".to_string(), serde_json::Value::String("application/json".to_string()));
    rec.insert("size".to_string(), serde_json::Value::from(2));
    let mut ing = serde_json::Map::new();
    ing.insert("ingredients/spec.json".to_string(), serde_json::Value::Object(rec));
    let expected = format!(
        "SP|Spec|(c) me|T|{}|{}",
        "{\"name\":{\"en\":\"French\"},\"tag\":\"fr\"}",
        serde_json::to_string(&serde_json::Value::Object(ing)).unwrap()
    );
    assert_eq!(m, expected);
}

#[test]
fn translation_checks_repository() {
    let meta = metadata();
    let (abbr, name, tag) = tcore_source(&meta);
    assert_eq!((abbr.as_str(), name.as_str(), tag.as_str()), ("MB", "My Bible", "fr"));
    assert_eq!(tcore_repo_name("MB"), "MB_tcchecks");
    assert_eq!(tcore_book_project("fr", "MB", "TIT"), "fr_MB_TIT_book");
    assert_eq!(
        tcore_metadata("%%ABBR%%/%%CONTENT_NAME%%/%%CREATED_TIMESTAMP%%/[%%SCOPE%%]", "MB_tcchecks", "My Bible", "T"),
        "MB_tcchecks/tC Checks (My Bible)/T/[]"
    );
}

#[test]
fn commit_bumps_revision_and_times() {
    let mut meta = metadata();
    bump_metadata(&mut meta, "2025-02-03");
    let ident = sv(&meta.identification);
    assert_eq!(ident["primary"]["org"]["abc"]["revision"], serde_json::Value::String("8".to_string()));
    assert_eq!(ident["primary"]["org"]["abc"]["timestamp"], serde_json::Value::String("2025-02-03".to_string()));
    assert_eq!(ident["name"]["en"], serde_json::Value::String("My Bible".to_string()));
    assert_eq!(sv(&meta.meta)["dateCreated"], serde_json::Value::String("2025-02-03".to_string()));
    assert_eq!(sv(&meta.meta)["version"], serde_json::Value::String("1.0".to_string()));
    bump_metadata(&mut meta, "later");
    let ident2 = sv(&meta.identification);
    assert_eq!(ident2["primary"]["org"]["abc"]["revision"], serde_json::Value::String("9".to_string()));
}

#[test]
fn commit_bump_of_negative_revision() {
    let mut meta = metadata();
    meta.identification = jv(&parse(r#"{"primary":{"o":{"a":{"revision":"-1"}}}}"#));
    bump_metadata(&mut meta, "t");
    let ident = sv(&meta.identification);
    assert_eq!(ident["primary"]["o"]["a"]["revision"], serde_json::Value::String("0".to_string()));
    assert_eq!(ident["primary"]["o"]["a"]["timestamp"], serde_json::Value::String("t".to_string()));
}

#[test]
fn scripture_book_added_to_metadata() {
    let mut meta = metadata();
    assert!(book_already_present(&meta, "TIT", "usfm").is_none());
    let form = NewScriptureBookForm {
        book_code: "TIT".to_string(),
        book_title: "Titus".to_string(),
        book_abbr: "Tit".to_string(),
        add_cv: false,
    };
    let template = "\\id %%BOOKCODE%% %%CONTENTNAME%%\n%%STUBCONTENT%%";
    let usfm = scripture_book_usfm(template, &form, "MB", &JsonValue::Null).ok().unwrap();
    assert_eq!(usfm, "\\id TIT MB\n\\c 1\n\\p\n\\v 1\nFirst verse...");
    add_book_ingredient(&mut meta, "TIT", &usfm);
    let e = book_already_present(&meta, "TIT", "usfm").unwrap();
    assert_eq!(e.status, 400);
    assert_eq!(reason_of(&e), "Book 'TIT' already exists in metadata");
    assert!(book_already_present(&meta, "TIT", "tsv").is_none());
    let rec: &BurritoMetadataIngredient = meta.ingredients.get("ingredients/TIT.usfm").unwrap();
    assert_eq!(rec.mimeType, "text/plain");
    assert_eq!(rec.size, usfm.len());
    assert_eq!(sv(&rec.checksum), parse(&format!("{{\"md5\":\"{:?}\"}}", md5::compute(&usfm))));
    assert_eq!(sv(rec.scope.as_ref().unwrap()), parse(r#"{"TIT":[]}"#));
    assert_eq!(book_key("TIT", "tsv"), "ingredients/TIT.tsv");
}

#[test]
fn scripture_book_with_chapters_and_verses() {
    let form = NewScriptureBookForm {
        book_code: "TIT".to_string(),
        book_title: "Titus".to_string(),
        book_abbr: "Tit".to_string(),
        add_cv: true,
    };
    let vrs = jv(&parse(r#"{"maxVerses":{"TIT":["2"]}}"#));
    let usfm = scripture_book_usfm("%%STUBCONTENT%%", &form, "MB", &vrs).ok().unwrap();
    assert_eq!(usfm, "\\c 1\n\\p\n\\v 1\n\\v 2");
    assert_eq!(usfm, fill_usfm_template("%%STUBCONTENT%%", "TIT", "Titus", "MB", "Tit", "\\c 1\n\\p\n\\v 1\n\\v 2"));
    let e = scripture_book_usfm("x", &form, "MB", &jv(&parse(r#"{"maxVerses":{"TIT":3}}"#))).err().unwrap();
    assert_eq!(reason_of(&e), "Could not find maxVerses for TIT in versification JSON for this repo");
}

#[test]
fn verse_by_verse_template_names() {
    let mut meta = metadata();
    assert_eq!(bcv_flavor_abbreviation(&meta), "tn");
    meta.type_info = jv(&parse(r#"{"flavorType":{"flavor":{"name":"X-BCVQUESTIONS"}}}"#));
    assert_eq!(bcv_flavor_abbreviation(&meta), "tn");
    meta.type_info = jv(&parse(r#"{"flavorType":{"flavor":{"name":"x-studyQuestions"}}}"#));
    assert_eq!(bcv_flavor_abbreviation(&meta), "sq");
    meta.type_info = jv(&parse(r#"{"flavorType":{"flavor":{"name":"x-other"}}}"#));
    assert_eq!(bcv_flavor_abbreviation(&meta), "tq");
}

#[test]
fn missing_versification_replies() {
    assert_eq!(missing_vrs_name(&Some("eng".to_string())).ok().unwrap(), "eng");
    let e = missing_vrs_name(&None).err().unwrap();
    assert_eq!(e.status, 500);
    assert_eq!(reason_of(&e), "No VRS ingredient found in repo and no versification name provided in API call");
    assert_eq!(
        reason_of(&missing_vrs_template("eng")),
        "No VRS template for eng found in repo and no versification name provided in API call"
    );
}

#[test]
fn ingredient_records_of_files() {
    let usfm = file_ingredient("TIT.usfm", b"\\id TIT");
    assert_eq!(usfm.mimeType, "text/plain");
    assert_eq!(usfm.size, 7);
    assert_eq!(sv(&usfm.checksum)["md5"], format!("{:x}", md5::compute(b"\\id TIT")));
    assert_eq!(sv(usfm.scope.as_ref().unwrap()), parse("{\"TIT\": []}"));
    let tsv = file_ingredient("tn_JUD.tsv", b"");
    assert_eq!(tsv.mimeType, "text/tab-separated-values");
    assert_eq!(sv(&tsv.checksum)["md5"], "d41d8cd98f00b204e9800998ecf8427e");
    assert_eq!(sv(tsv.scope.as_ref().unwrap()), parse("{\"tn_JUD\": []}"));
    let vrs = file_ingredient("vrs.json", b"{}");
    assert_eq!(vrs.mimeType, "application/json");
    assert!(vrs.scope.is_none());
    let other = file_ingredient("notes.txt", b"x");
    assert_eq!(other.mimeType, "application/octet-stream");
    assert!(other.scope.is_none());
    let scope = current_scope(&vec![
        file_ingredient("TIT.usfm", b"a"),
        file_ingredient("vrs.json", b"{}"),
        file_ingredient("JUD.tsv", b"b"),
        file_ingredient("TIT.tsv", b"c"),
    ]);
    let members = match &scope {
        JsonValue::Object(m) => m.iter().map(|(k, _)| k.clone()).collect::<Vec<String>>(),
        _ => panic!("object"),
    };
    assert_eq!(members, vec!["TIT".to_string(), "JUD".to_string()]);
}

#[test]
fn book_ingredients_replaced() {
    let mut m = metadata();
    let keys = vec!["ingredients/TIT.tsv".to_string(), "ingredients/vrs.json".to_string()];
    let records = vec![file_ingredient("TIT.tsv", b"x"), file_ingredient("vrs.json", b"{}")];
    set_book_ingredients(&mut m, keys, records);
    assert_eq!(m.ingredients.len(), 2);
    assert_eq!(m.ingredients.get("ingredients/TIT.tsv").unwrap().mimeType, "text/tab-separated-values");
    assert_eq!(m.ingredients.get("ingredients/vrs.json").unwrap().mimeType, "application/json");
    let t = sv(&m.type_info);
    assert_eq!(t["flavorType"]["currentScope"], parse("{\"TIT\": []}"));
    assert_eq!(t["flavorType"]["flavor"], parse(META)["type"]["flavorType"]["flavor"]);
}
