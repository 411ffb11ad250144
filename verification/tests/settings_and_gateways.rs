use std::collections::VecDeque;
use pankosmia_web::endpoints::gitea::{
    collaborators_request, get_gitea_endpoints, get_my_collaborators, gitea_logout_request,
    gitea_proxy_login, gitea_proxy_login_with, gitea_proxy_logout, gitea_remote_repos,
    gitea_remote_repos_request, json_index, remote_repo_record,
};
use pankosmia_web::endpoints::net::{net_disable, net_enable, net_status, push_message};
use pankosmia_web::endpoints::settings::{
    css_error_response, font_css_text, get_auth_token, get_new_auth_token, plan_typography_feature, post_languages,
    post_typography, post_typography_feature, set_feature, user_settings_write_response,
    CookieChange,
};
use pankosmia_web::json::JsonValue;
use pankosmia_web::responses::{ApiResponse, ContentOrRedirect, ResponseBody};
use pankosmia_web::string_map::StringMap;
use pankosmia_web::structs::{AppSettings, Bcv, ProductInfo, Typography, TypographyFeature};

fn jv(v: &serde_json::Value) -> JsonValue {
    match v {
        serde_json::Value::Null => JsonValue::Null,
        serde_json::Value::Bool(b) => JsonValue::Bool(*b),
        serde_json::Value::Number(n) => JsonValue::Number(n.to_string()),
        serde_json::Value::String(s) => JsonValue::Str(s.clone()),
        serde_json::Value::Array(a) => JsonValue::Array(a.iter().map(jv).collect()),
        serde_json::Value::Object(m) => {
            JsonValue::Object(m.iter().map(|(k, v)| (k.clone(), jv(v))).collect())
        }
    }
}

fn sv(v: &JsonValue) -> serde_json::Value {
    match v {
        JsonValue::Null => serde_json::Value::Null,
        JsonValue::Bool(b) => serde_json::Value::Bool(*b),
        JsonValue::Number(n) => serde_json::from_str(n).unwrap(),
        JsonValue::Str(s) => serde_json::Value::String(s.clone()),
        JsonValue::Array(a) => serde_json::Value::Array(a.iter().map(sv).collect()),
        JsonValue::Object(m) => {
            let mut o = serde_json::Map::new();
            for (k, v) in m {
                o.insert(k.clone(), sv(v));
            }
            serde_json::Value::Object(o)
        }
    }
}

fn parse(s: &str) -> serde_json::Value {
    serde_json::from_str(s).unwrap()
}

fn text(r: &ApiResponse) -> String {
    match &r.body {
        ResponseBody::Text(t) => t.clone(),
        ResponseBody::Document(_) => panic!("document body"),
    }
}

fn reason_of(r: &ApiResponse) -> String {
    parse(&text(r))["reason"].as_str().unwrap().to_string()
}

fn content(r: &ContentOrRedirect) -> &ApiResponse {
    match r {
        ContentOrRedirect::Content(c) => c,
        ContentOrRedirect::Redirect(_) => panic!("redirect"),
    }
}

fn redirect(r: &ContentOrRedirect) -> String {
    match r {
        ContentOrRedirect::Redirect(t) => t.clone(),
        ContentOrRedirect::Content(_) => panic!("content"),
    }
}

fn settings() -> AppSettings {
    let mut endpoints = StringMap::new();
    endpoints.insert("door43".to_string(), "https://git.door43.org".to_string());
    let mut features = StringMap::new();
    features.insert(
        "Pankosmia-Awami".to_string(),
        vec![
            TypographyFeature { key: "ss01".to_string(), value: 0 },
            TypographyFeature { key: "ss02".to_string(), value: 1 },
        ],
    );
    AppSettings {
        working_dir: "/w".to_string(),
        repo_dir: "/w/repos".to_string(),
        app_resources_dir: "/res".to_string(),
        languages: vec!["en".to_string()],
        gitea_endpoints: endpoints,
        auth_tokens: StringMap::new(),
        auth_requests: StringMap::new(),
        bcv: Bcv { book_code: "TIT".to_string(), chapter: 1, verse: 1, to_verse: 1 },
        typography: Typography {
            font_set: "fonts".to_string(),
            size: "medium".to_string(),
            direction: "ltr".to_string(),
            features,
        },
        current_project: None,
        dev_settings: JsonValue::Object(Vec::new()),
        snippet: None,
        word: None,
        product: ProductInfo {
            name: "P".to_string(),
            short_name: "p".to_string(),
            version: "1".to_string(),
            date_time: "t".to_string(),
        },
    }
}

#[test]
fn network_switch() {
    let mut q: VecDeque<String> = VecDeque::new();
    let mut on = false;
    assert_eq!(text(&net_status(on)), r#"{"is_enabled":false}"#);
    assert_eq!(text(&net_enable(&mut q, &mut on)), r#"{"is_good":true,"reason":"ok"}"#);
    assert!(on);
    assert_eq!(text(&net_status(on)), r#"{"is_enabled":true}"#);
    net_disable(&mut q, &mut on);
    assert!(!on);
    push_message(&mut q, "x");
    assert_eq!(q, VecDeque::from(vec!["info--5--net--enable".to_string(), "info--5--net--disable".to_string(), "x".to_string()]));
}

#[test]
fn interface_languages() {
    let mut langs = vec!["en".to_string()];
    assert!(post_languages(&mut langs, "fr/en/ewo").is_none());
    assert_eq!(langs, vec!["fr".to_string(), "en".to_string(), "ewo".to_string()]);
    let e = post_languages(&mut langs, "fr/EN").unwrap();
    assert_eq!(e.status, 400);
    assert_eq!(reason_of(&e), "Bad language code: EN");
    assert_eq!(langs.len(), 3);
    assert!(post_languages(&mut langs, "fr/english").is_some());
    let ok = user_settings_write_response(Ok(()), 500);
    assert_eq!(ok.status, 200);
    let bad = user_settings_write_response(Err("denied".to_string()), 400);
    assert_eq!(bad.status, 400);
    assert_eq!(reason_of(&bad), "Could not write out user settings: denied");
}

#[test]
fn typography_changes() {
    let mut s = settings();
    let mut q: VecDeque<String> = VecDeque::new();
    post_typography(&mut s.typography, &mut q, "f2", "large", "rtl");
    assert_eq!((s.typography.font_set.as_str(), s.typography.size.as_str(), s.typography.direction.as_str()), ("f2", "large", "rtl"));
    assert_eq!(q.back().unwrap(), "info--3--typography--change");
    let fields = vec![TypographyFeature { key: "a".to_string(), value: 1 }, TypographyFeature { key: "b".to_string(), value: 2 }];
    let set = set_feature(&fields, "b", 9);
    assert_eq!((set[0].value, set[1].value), (1, 9));
    let twice = set_feature(&set, "b", 9);
    assert_eq!((twice[0].value, twice[1].value), (1, 9));
    assert!(plan_typography_feature(&s.typography, "nofont", "ss01", 1).is_none());
    let planned = plan_typography_feature(&s.typography, "Pankosmia-Awami", "ss01", 1).unwrap();
    assert_eq!(planned[0].value, 1);
    post_typography_feature(&mut s.typography, &mut q, "Pankosmia-Awami", "ss02", 0);
    let f = s.typography.features.get("Pankosmia-Awami").unwrap();
    assert_eq!((f[0].value, f[1].value), (0, 0));
    assert_eq!(reason_of(&css_error_response("no file", 400)), "Could not rewrite CSS: no file");
    assert_eq!(TypographyFeature { key: "ss01".to_string(), value: 3 }.display_text(), "(ss01, 3)");
}

#[test]
fn gateway_endpoints_listed() {
    let s = settings();
    let r = get_gitea_endpoints(&s);
    assert_eq!(r.status, 200);
    match &r.body {
        ResponseBody::Document(d) => assert_eq!(sv(d), parse(r#"{"door43":"https://git.door43.org"}"#)),
        _ => panic!("document expected"),
    }
}

#[test]
fn login_then_landing() {
    let mut s = settings();
    let r = gitea_proxy_login_with(&mut s, true, "door43", "clients/main", "CODE".to_string(), 7);
    assert_eq!(redirect(&r), "https://git.door43.org/auth?client_code=CODE&redir_path=%2F");
    let bad = get_new_auth_token(&mut s, "door43", "TOKEN", "WRONG");
    assert_eq!(content(&bad.reply).status, 400);
    assert!(bad.cookie.is_none());
    let ok = get_new_auth_token(&mut s, "door43", "TOKEN", "CODE");
    assert_eq!(redirect(&ok.reply), "/clients/main");
    match ok.cookie {
        Some(CookieChange::Add { name, value }) => {
            assert_eq!(name, "door43_code");
            assert_eq!(value, "TOKEN");
        }
        _ => panic!("cookie expected"),
    }
    assert_eq!(s.auth_tokens.get("door43").unwrap(), "TOKEN");
    let replay = get_new_auth_token(&mut s, "door43", "TOKEN", "CODE");
    assert_eq!(content(&replay.reply).status, 400);
    assert_eq!(reason_of(content(&replay.reply)), "No record auth request found for door43");
    let unknown = get_new_auth_token(&mut s, "nope", "T", "C");
    assert_eq!(reason_of(content(&unknown.reply)), "Unknown GITEA endpoint name: nope");
}

#[test]
fn login_refusals_and_random_code() {
    let mut s = settings();
    let off = gitea_proxy_login(&mut s, false, "door43", "x");
    assert_eq!(content(&off).status, 401);
    let unknown = gitea_proxy_login(&mut s, true, "nope", "x");
    assert_eq!(reason_of(content(&unknown)), "Unknown GITEA endpoint name: nope");
    let r = gitea_proxy_login(&mut s, true, "door43", "x");
    let to = redirect(&r);
    let code = s.auth_requests.get("door43").unwrap().code.clone();
    assert_eq!(code.len(), 36);
    assert_eq!(to, format!("https://git.door43.org/auth?client_code={}&redir_path=%2F", code));
}

#[test]
fn logout_flow() {
    let mut s = settings();
    s.auth_tokens.insert("door43".to_string(), "T".to_string());
    assert_eq!(gitea_logout_request(&s, true, "door43", "C").ok().unwrap(), "https://git.door43.org/logout?client_code=C");
    assert_eq!(content(&gitea_logout_request(&s, false, "door43", "C").err().unwrap()).status, 401);
    let failed = gitea_proxy_logout(&mut s, "door43", Err("timeout".to_string()));
    assert_eq!(reason_of(content(&failed.0)), "Error on logout from proxy door43: timeout");
    assert!(s.auth_tokens.get("door43").is_some());
    let done = gitea_proxy_logout(&mut s, "door43", Ok(()));
    assert_eq!(redirect(&done.0), "/");
    assert!(s.auth_tokens.get("door43").is_none());
    match done.1 {
        Some(CookieChange::Remove { name }) => assert_eq!(name, "door43_code"),
        _ => panic!("cookie removal expected"),
    }
}

#[test]
fn collaborators() {
    let mut s = settings();
    let e = collaborators_request(&s, true, "door43", "org", "proj").err().unwrap();
    assert_eq!(reason_of(&e), "Could not find record for proxy 'door43'");
    s.auth_tokens.insert("door43".to_string(), "T".to_string());
    assert_eq!(
        collaborators_request(&s, true, "door43", "org", "proj").ok().unwrap(),
        "https://git.door43.org/repos-collaborators?organisation_name=org&project_name=proj&client_code=T"
    );
    assert_eq!(collaborators_request(&s, false, "door43", "o", "p").err().unwrap().status, 401);
    assert_eq!(text(&get_my_collaborators("door43", Ok("[1]".to_string()))), "[1]");
    let bad = get_my_collaborators("door43", Err("down".to_string()));
    assert_eq!(bad.status, 502);
    assert_eq!(reason_of(&bad), "Error from proxy door43: down");
}

#[test]
fn remote_repo_listing() {
    assert_eq!(
        gitea_remote_repos_request(true, "git.door43.org", "BurritoTruck").ok().unwrap(),
        "https://git.door43.org/api/v1/orgs/BurritoTruck/repos"
    );
    assert_eq!(gitea_remote_repos_request(false, "s", "o").err().unwrap().status, 401);
    let listing = jv(&parse(r#"[{"name":"fr_psle","abbreviation":"psle","description":"d","avatar_url":"a",
        "flavor":"textTranslation","flavor_type":"scripture","language":"fr","language_direction":"ltr",
        "catalog":{"latest":{"branch_or_tag_name":"v1","released":"u"}}},
        {"name":"n","abbreviation":"b","description":"","avatar_url":"","flavor":"f","flavor_type":"t",
        "language":"en","language_direction":"rtl","catalog":null}]"#));
    let recs = gitea_remote_repos(&listing);
    assert_eq!(recs.len(), 2);
    assert_eq!(recs[0].name, "fr_psle");
    assert_eq!(recs[0].branch_or_tag, "v1");
    assert_eq!(recs[0].clone_url, "u");
    assert_eq!(recs[1].branch_or_tag, "");
    assert_eq!(recs[1].script_direction, "rtl");
    let one = remote_repo_record(match &listing { JsonValue::Array(v) => &v[0], _ => panic!() });
    assert_eq!(one.language_code, "fr");
    assert!(matches!(json_index(&listing, "x"), JsonValue::Null));
}

#[test]
fn stored_gateway_token() {
    let mut s = settings();
    let unknown = get_auth_token(&s, "nowhere");
    assert_eq!(unknown.status, 400);
    assert_eq!(reason_of(&unknown), "Unknown GITEA endpoint name: nowhere");
    let missing = get_auth_token(&s, "door43");
    assert_eq!(missing.status, 400);
    assert_eq!(reason_of(&missing), "Could not find record for token key 'door43'");
    s.auth_tokens.insert("door43".to_string(), "tok\"en".to_string());
    let found = get_auth_token(&s, "door43");
    assert_eq!(found.status, 200);
    assert_eq!(text(&found), "{\"code\":\"tok\\\"en\",\"is_good\":true}");
    assert_eq!(parse(&text(&found))["code"], "tok\"en");
}

#[test]
fn languages_set_then_listed() {
    let mut s = settings();
    assert!(post_languages(&mut s.languages, "fr/en/swh").is_none());
    assert_eq!(text(&pankosmia_web::endpoints::system::get_languages(&s)), r#"["fr","en","swh"]"#);
}

#[test]
fn font_style_sheet() {
    let fields = vec![
        TypographyFeature { key: "ss01".to_string(), value: 0 },
        TypographyFeature { key: "ss02".to_string(), value: 12 },
    ];
    assert_eq!(
        font_css_text("@font-face {}", "Awami", &fields),
        "@font-face {}\n.Awami { font-feature-settings: \"ss01\" 0, \"ss02\" 12; }\n"
    );
    assert_eq!(font_css_text("", "F", &Vec::new()), "\n.F { font-feature-settings: ; }\n");
}
