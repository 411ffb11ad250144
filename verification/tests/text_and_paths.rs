use pankosmia_web::paths::{
    check_all_normal, check_local_path_components, check_path_components, check_path_components1,
    local_repo_path, os_slash_str, path_display, repo_full_path, PathPart,
};
use pankosmia_web::responses::{
    bad_response, json_payload_response, make_bad_json_data_response, make_good_json_data_response,
    make_net_status_response, not_ok_bad_repo_json_response, not_ok_offline_json_response,
    ok_ok_json_response, ResponseBody,
};
use pankosmia_web::string_map::StringMap;
use pankosmia_web::structs::{Bcv, PankosmiaError, ProjectIdentifier};
use pankosmia_web::json::JsonValue;
use pankosmia_web::text::{
    concat3, ends_with, i64_to_string, parse_i32, replace, split_on, starts_with, str_eq,
    string_from_chars, u64_to_string,
};

fn normal(names: &[&str]) -> Vec<PathPart> {
    names.iter().map(|n| PathPart::Normal(n.to_string())).collect()
}

#[test]
fn decimal_text() {
    assert_eq!(u64_to_string(0), "0");
    assert_eq!(u64_to_string(1234567890), "1234567890");
    assert_eq!(u64_to_string(u64::MAX), u64::MAX.to_string());
    assert_eq!(i64_to_string(-42), "-42");
    assert_eq!(i64_to_string(i64::MIN), i64::MIN.to_string());
}

#[test]
fn integer_parsing_matches_std() {
    for s in ["0", "+7", "-7", "007", "2147483647", "-2147483648", "2147483648", "-2147483649", "", "-", "+", "1a", " 1", "99999999999999999999"] {
        assert_eq!(parse_i32(s), s.parse::<i32>().ok(), "input {:?}", s);
    }
}

#[test]
fn numbers_read_back_as_written() {
    for i in [0i64, 1, -1, 2147483647, -2147483648, 120] {
        assert_eq!(parse_i32(&i64_to_string(i)), Some(i as i32));
    }
}

#[test]
fn string_operations() {
    assert!(starts_with("x-abc", "x-"));
    assert!(!starts_with("x", "x-"));
    assert!(ends_with("repo.git", ".git"));
    assert!(!ends_with("git", ".git"));
    assert!(str_eq("a", "a"));
    assert!(!str_eq("a", "b"));
    assert_eq!(concat3("a", "b", "c"), "abc");
    assert_eq!(string_from_chars(&['h', 'é']), "hé");
    assert_eq!(split_on("a/b//c", '/'), vec!["a", "b", "", "c"]);
    assert_eq!(split_on("", '/'), vec![""]);
    assert_eq!(replace("aaa", "aa", "b"), "aaa".replace("aa", "b"));
    assert_eq!(replace("%%X%% and %%X%%", "%%X%%", "y"), "y and y");
    assert_eq!(replace("abc", "z", "y"), "abc");
}

#[test]
fn repository_paths() {
    assert_eq!(os_slash_str(), "/");
    assert!(check_path_components(&normal(&["a", "b", "c"])));
    assert!(!check_path_components(&normal(&["a", "b"])));
    let climbing = vec![PathPart::Normal("a".to_string()), PathPart::ParentDir, PathPart::Normal("c".to_string())];
    assert!(!check_path_components(&climbing));
    assert!(!check_all_normal(&vec![PathPart::Root]));
    assert!(check_path_components1(&normal(&["a", "b"]), 2));
    assert!(!check_path_components1(&normal(&["a"]), 2));
    assert!(check_local_path_components(&normal(&["_local_", "_local_", "MB"])));
    assert!(!check_local_path_components(&normal(&["_local_", "x", "MB"])));
    assert_eq!(path_display(&normal(&["a", "b", "c"])), "a/b/c");
    assert_eq!(repo_full_path("/r", &normal(&["a", "b", "c"])), "/r/a/b/c");
    assert_eq!(local_repo_path("/r", "MB"), "/r/_local_/_local_/MB");
}

#[test]
fn data_replies() {
    assert_eq!(make_good_json_data_response("ok".to_string()), r#"{"is_good":true,"reason":"ok"}"#);
    assert_eq!(make_bad_json_data_response("a \"b\"\n".to_string()), r#"{"is_good":false,"reason":"a \"b\"\n"}"#);
    assert_eq!(make_net_status_response(true), r#"{"is_enabled":true}"#);
    let ok = ok_ok_json_response();
    assert_eq!(ok.status, 200);
    assert_eq!(not_ok_offline_json_response().status, 401);
    let bad = not_ok_bad_repo_json_response();
    assert_eq!(bad.status, 400);
    match &bad.body {
        ResponseBody::Text(t) => assert_eq!(t, r#"{"is_good":false,"reason":"bad repo path"}"#),
        _ => panic!(),
    }
    assert_eq!(bad_response(409, "x".to_string()).status, 409);
    let doc = json_payload_response(201, JsonValue::Null);
    assert_eq!(doc.status, 201);
}

#[test]
fn string_maps() {
    let mut m: StringMap<u32> = StringMap::new();
    m.insert("b".to_string(), 1);
    m.insert("a".to_string(), 2);
    m.insert("b".to_string(), 3);
    assert_eq!(m.len(), 2);
    assert_eq!(m.get("b"), Some(&3));
    assert!(m.contains_key("a"));
    let (k, v) = m.entry_at(0);
    assert_eq!((k.as_str(), *v), ("b", 3));
    assert_eq!(m.remove("b"), Some(3));
    assert!(!m.contains_key("b"));
    assert_eq!(m.remove("zz"), None);
    assert_eq!(m.len(), 1);
}

#[test]
fn records() {
    assert_eq!(PankosmiaError("boom".to_string()).message(), "PankosmiaError: boom");
    let b = Bcv { book_code: "GEN".to_string(), chapter: 1, verse: 2, to_verse: 3 }.copy();
    assert_eq!((b.book_code.as_str(), b.chapter, b.verse, b.to_verse), ("GEN", 1, 2, 3));
    let p = ProjectIdentifier { source: "s".to_string(), organization: "o".to_string(), project: "p".to_string() }.copy();
    assert_eq!(p.project, "p");
}

#[test]
fn reply_reasons_are_json_string_literals() {
    let samples = [
        "plain", "quote \" here", "back\\slash", "tab\tnew\nline\r", "\u{8}\u{c}", "\u{0}\u{1}\u{1f}\u{7f}", "é ünï 漢字 😀", "/ <>&",
    ];
    for s in samples {
        let expected = format!("{{\"is_good\":false,\"reason\":{}}}", serde_json::to_string(s).unwrap());
        assert_eq!(make_bad_json_data_response(s.to_string()), expected);
    }
    assert_eq!(make_bad_json_data_response("\u{1}".to_string()), "{\"is_good\":false,\"reason\":\"\\u0001\"}");
}
