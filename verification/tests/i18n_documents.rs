use pankosmia_web::endpoints::i18n::{
    add_unique, check_i18n_doc, flat_i18n, i18n_filter, negotiated_i18n, untranslated_i18n,
    used_languages, I18nFilter,
};
use pankosmia_web::json::JsonValue;
use pankosmia_web::responses::{ApiResponse, ResponseBody};

fn jv(v: &serde_json::Value) -> JsonValue {
    match v {
        serde_json::Value::Null => JsonValue::Null,
        serde_json::Value::Bool(b) => JsonValue::Bool(*b),
        serde_json::Value::Number(n) => JsonValue::Number(n.to_string()),
        serde_json::Value::String(s) => JsonValue::Str(s.clone()),
        serde_json::Value::Array(a) => JsonValue::Array(a.iter().map(jv).collect()),
        serde_json::Value::Object(m) => {
            JsonValue::Object(m.iter().map(|(k, v)| (k.clone(), jv(v))).collect())
        }
    }
}

fn sv(v: &JsonValue) -> serde_json::Value {
    match v {
        JsonValue::Null => serde_json::Value::Null,
        JsonValue::Bool(b) => serde_json::Value::Bool(*b),
        JsonValue::Number(n) => serde_json::from_str(n).unwrap(),
        JsonValue::Str(s) => serde_json::Value::String(s.clone()),
        JsonValue::Array(a) => serde_json::Value::Array(a.iter().map(sv).collect()),
        JsonValue::Object(m) => {
            let mut o = serde_json::Map::new();
            for (k, v) in m {
                o.insert(k.clone(), sv(v));
            }
            serde_json::Value::Object(o)
        }
    }
}

fn parse(s: &str) -> serde_json::Value {
    serde_json::from_str(s).unwrap()
}

fn reason_of(r: &ApiResponse) -> String {
    match &r.body {
        ResponseBody::Text(t) => parse(t)["reason"].as_str().unwrap().to_string(),
        ResponseBody::Document(_) => panic!("document body"),
    }
}

const DOC: &str = r#"{
  "pages": {
    "main": {"title": {"en": "Title", "fr": "Titre"}, "hello": {"de": "Hallo"}},
    "other": {"ok": {"en": "OK"}}
  },
  "components": {"button": {"save": {"fr": "Enregistrer", "en": "Save"}}}
}"#;

fn langs(v: &[&str]) -> Vec<String> {
    v.iter().map(|s| s.to_string()).collect()
}

fn no_filter() -> I18nFilter {
    I18nFilter { type_filter: None, subtype_filter: None }
}

#[test]
fn filter_terms() {
    let f = i18n_filter("pages/main").ok().unwrap();
    assert_eq!(f.type_filter, Some("pages".to_string()));
    assert_eq!(f.subtype_filter, Some("main".to_string()));
    let g = i18n_filter("").ok().unwrap();
    assert_eq!(g.type_filter, None);
    let h = i18n_filter("/main").ok().unwrap();
    assert_eq!(h.type_filter, None);
    assert_eq!(h.subtype_filter, None);
    let e = i18n_filter("a/b/c").err().unwrap();
    assert_eq!(e.status, 400);
    assert_eq!(reason_of(&e), "expected 0 - 2 filter terms, not 3");
}

#[test]
fn negotiation_follows_user_language_order() {
    let doc = jv(&parse(DOC));
    assert!(check_i18n_doc(&doc));
    let r = sv(&negotiated_i18n(&doc, &langs(&["fr", "en"]), &no_filter()));
    assert_eq!(r["pages"]["main"]["title"], parse(r#"{"language":"fr","translation":"Titre"}"#));
    assert_eq!(r["pages"]["main"]["hello"], parse("{}"));
    assert_eq!(r["pages"]["other"]["ok"], parse(r#"{"language":"en","translation":"OK"}"#));
    let r2 = sv(&negotiated_i18n(&doc, &langs(&["en", "fr"]), &no_filter()));
    assert_eq!(r2["components"]["button"]["save"]["translation"], serde_json::Value::String("Save".to_string()));
    let f = i18n_filter("pages/other").ok().unwrap();
    let r3 = sv(&negotiated_i18n(&doc, &langs(&["en"]), &f));
    assert_eq!(r3, parse(r#"{"pages":{"other":{"ok":{"language":"en","translation":"OK"}}}}"#));
}

#[test]
fn flat_translations() {
    let doc = jv(&parse(DOC));
    let r = sv(&flat_i18n(&doc, &langs(&["fr"]), &no_filter()));
    assert_eq!(
        r,
        parse(r#"{"pages:main:title":"Titre","components:button:save":"Enregistrer"}"#)
    );
}

#[test]
fn untranslated_terms_and_languages() {
    let doc = jv(&parse(DOC));
    let u = untranslated_i18n(&doc, &"fr".to_string());
    assert_eq!(u, vec!["pages:main:hello".to_string(), "pages:other:ok".to_string()]);
    let mut used = used_languages(&doc);
    used.sort();
    assert_eq!(used, vec!["de".to_string(), "en".to_string(), "fr".to_string()]);
    let mut v = vec!["a".to_string()];
    add_unique(&mut v, &"a".to_string());
    add_unique(&mut v, &"b".to_string());
    assert_eq!(v, vec!["a".to_string(), "b".to_string()]);
}

#[test]
fn translated_and_untranslated_partition_the_terms() {
    let doc = jv(&parse(DOC));
    let flat = sv(&flat_i18n(&doc, &langs(&["fr"]), &no_filter()));
    let missing = untranslated_i18n(&doc, &"fr".to_string());
    let translated: Vec<String> = flat.as_object().unwrap().keys().cloned().collect();
    for k in &missing {
        assert!(!translated.contains(k));
    }
    assert_eq!(translated.len() + missing.len(), 4);
}

#[test]
fn malformed_documents_are_refused() {
    assert!(!check_i18n_doc(&jv(&parse(r#"{"pages":{"main":{"t":"x"}}}"#))));
    assert!(!check_i18n_doc(&jv(&parse("[]"))));
    assert!(check_i18n_doc(&jv(&parse("{}"))));
}

#[test]
fn flat_matches_negotiated() {
    let doc = jv(&parse(DOC));
    for (ls, filter) in [(vec!["fr", "en"], ""), (vec!["de"], ""), (vec!["en"], "pages"), (vec!["fr"], "components/button")] {
        let f = i18n_filter(filter).ok().unwrap();
        let neg = sv(&negotiated_i18n(&doc, &langs(&ls), &f));
        let flat = sv(&flat_i18n(&doc, &langs(&ls), &f));
        let mut expected = serde_json::Map::new();
        for (t, subs) in neg.as_object().unwrap() {
            for (s, terms) in subs.as_object().unwrap() {
                for (k, rec) in terms.as_object().unwrap() {
                    if let Some(tr) = rec.get("translation") {
                        expected.insert(format!("{}:{}:{}", t, s, k), tr.clone());
                    }
                }
            }
        }
        assert_eq!(flat, serde_json::Value::Object(expected));
    }
}
