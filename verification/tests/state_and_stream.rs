use pankosmia_web::endpoints::navigation::{bcv_state_document, get_bcv, post_bcv, post_bcv_range};
use pankosmia_web::endpoints::sse::{open_stream, stream_round, StreamEvent};
use pankosmia_web::json::JsonValue;
use pankosmia_web::responses::{ApiResponse, ResponseBody};
use pankosmia_web::string_map::StringMap;
use pankosmia_web::structs::{AppSettings, Bcv, ProductInfo, ProjectIdentifier, Typography};

fn sv(v: &JsonValue) -> serde_json::Value {
    match v {
        JsonValue::Null => serde_json::Value::Null,
        JsonValue::Bool(b) => serde_json::Value::Bool(*b),
        JsonValue::Number(n) => serde_json::from_str(n).unwrap(),
        JsonValue::Str(s) => serde_json::Value::String(s.clone()),
        JsonValue::Array(a) => serde_json::Value::Array(a.iter().map(sv).collect()),
        JsonValue::Object(m) => {
            let mut o = serde_json::Map::new();
            for (k, v) in m {
                o.insert(k.clone(), sv(v));
            }
            serde_json::Value::Object(o)
        }
    }
}

fn parse(s: &str) -> serde_json::Value {
    serde_json::from_str(s).unwrap()
}

fn text(r: &ApiResponse) -> String {
    match &r.body {
        ResponseBody::Text(t) => t.clone(),
        ResponseBody::Document(_) => panic!("document body"),
    }
}

fn settings() -> AppSettings {
    let mut endpoints = StringMap::new();
    endpoints.insert("door43".to_string(), "https://git.door43.org".to_string());
    endpoints.insert("qa".to_string(), "https://qa.door43.org".to_string());
    AppSettings {
        working_dir: "/w".to_string(),
        repo_dir: "/w/repos".to_string(),
        app_resources_dir: "/res".to_string(),
        languages: vec!["fr".to_string(), "en".to_string()],
        gitea_endpoints: endpoints,
        auth_tokens: StringMap::new(),
        auth_requests: StringMap::new(),
        bcv: Bcv { book_code: "TIT".to_string(), chapter: 1, verse: 1, to_verse: 1 },
        typography: Typography {
            font_set: "fonts".to_string(),
            size: "medium".to_string(),
            direction: "ltr".to_string(),
            features: StringMap::new(),
        },
        current_project: None,
        dev_settings: JsonValue::Object(vec![("force_os".to_string(), JsonValue::Null)]),
        snippet: Some(JsonValue::Str("s".to_string())),
        word: Some(JsonValue::Str("w".to_string())),
        product: ProductInfo {
            name: "Pankosmia".to_string(),
            short_name: "pk".to_string(),
            version: "1.0".to_string(),
            date_time: "now".to_string(),
        },
    }
}

fn kinds(events: &[StreamEvent]) -> Vec<(String, String, u64)> {
    events.iter().map(|e| (e.event.clone(), e.data.clone(), e.id)).collect()
}

#[test]
fn position_is_reported_as_json() {
    let s = settings();
    let r = get_bcv(&s);
    assert_eq!(r.status, 200);
    assert_eq!(text(&r), r#"{"book_code":"TIT","chapter":1,"verse":1,"to_verse":1}"#);
}

#[test]
fn move_to_verse_then_read_back() {
    let mut s = settings();
    let r = post_bcv(&mut s, "JHN", 3, 16, None);
    assert_eq!(r.status, 200);
    assert_eq!(text(&get_bcv(&s)), r#"{"book_code":"JHN","chapter":3,"verse":16,"to_verse":16}"#);
    assert!(s.snippet.is_none());
    assert!(s.word.is_none());
}

#[test]
fn move_to_range_keeps_selection() {
    let mut s = settings();
    let r = post_bcv_range(&mut s, "JHN", 3, 16, 18, None);
    assert_eq!(r.status, 200);
    assert_eq!(s.bcv.to_verse, 18);
    assert!(s.snippet.is_some());
}

#[test]
fn failed_state_write_changes_nothing() {
    let mut s = settings();
    let r = post_bcv(&mut s, "JHN", 3, 16, Some("disk full".to_string()));
    assert_eq!(r.status, 500);
    assert_eq!(parse(&text(&r))["reason"], serde_json::Value::String("Could not write app state: 'disk full'".to_string()));
    assert_eq!(s.bcv.book_code, "TIT");
    assert!(s.snippet.is_some());
}

#[test]
fn saved_state_document() {
    let mut s = settings();
    let b = Bcv { book_code: "ROM".to_string(), chapter: 2, verse: 3, to_verse: 4 };
    assert_eq!(
        sv(&bcv_state_document(&s, &b)),
        parse(r#"{"bcv":{"book_code":"ROM","chapter":2,"verse":3,"to_verse":4},"current_project":null,"snippet":null,"word":null}"#)
    );
    s.current_project = Some(ProjectIdentifier { source: "s".to_string(), organization: "o".to_string(), project: "p".to_string() });
    assert_eq!(
        sv(&bcv_state_document(&s, &b))["current_project"],
        parse(r#"{"source":"s","organization":"o","project":"p"}"#)
    );
}

#[test]
fn first_round_reports_everything_then_settles() {
    let mut s = settings();
    let mut m = open_stream(&s, 0);
    let first = stream_round(&mut m, vec!["info--5--net--enable".to_string()], &s, true, false, 0);
    assert_eq!(
        kinds(&first),
        vec![
            ("misc".to_string(), "info--5--net--enable".to_string(), 0),
            ("status".to_string(), "net--enabled--debug--disabled".to_string(), 1),
            ("bcv".to_string(), "TIT--1--1".to_string(), 2),
            ("typography".to_string(), "fonts--medium--ltr".to_string(), 3),
            ("auth".to_string(), "door43--https://git.door43.org--false".to_string(), 4),
            ("auth".to_string(), "qa--https://qa.door43.org--false".to_string(), 5),
            ("languages".to_string(), "fr/en".to_string(), 6),
        ]
    );
    let second = stream_round(&mut m, Vec::new(), &s, true, false, 0);
    assert_eq!(kinds(&second), vec![("status".to_string(), "net--enabled--debug--disabled".to_string(), 7)]);
    s.bcv.verse = 2;
    s.auth_tokens.insert("qa".to_string(), "token".to_string());
    s.current_project = Some(ProjectIdentifier { source: "s".to_string(), organization: "o".to_string(), project: "p".to_string() });
    let third = stream_round(&mut m, Vec::new(), &s, false, true, 1);
    assert_eq!(
        kinds(&third),
        vec![
            ("status".to_string(), "net--disabled--debug--enabled".to_string(), 8),
            ("bcv".to_string(), "TIT--1--2".to_string(), 9),
            ("current_project".to_string(), "s--o--p".to_string(), 10),
            ("auth".to_string(), "qa--https://qa.door43.org--true".to_string(), 11),
            ("languages".to_string(), "fr/en".to_string(), 12),
        ]
    );
    s.current_project = None;
    s.bcv.to_verse = 9;
    let fourth = stream_round(&mut m, Vec::new(), &s, false, true, 1);
    assert_eq!(
        kinds(&fourth),
        vec![
            ("status".to_string(), "net--disabled--debug--enabled".to_string(), 13),
            ("current_project".to_string(), "null".to_string(), 14),
        ]
    );
}
