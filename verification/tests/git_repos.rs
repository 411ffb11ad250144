use pankosmia_web::endpoints::git::{
    change_type, check_path_string_components, check_remote, clone_plan, commit_log_text,
    commit_message_or_default, copy_request_gate, existing_main_check, destination_parent, fast_forward_message,
    git_status, has_uncommitted_changes, list_branches, list_local_repos_text, list_remotes,
    local_branch_ref, local_main_check, network_repo_gate, print_time, status_records_json,
    git_status_records, string_list_text, switch_branch_check, BranchEntry, CommitRecord, LocalRepo,
    RemoteEntry, StatusEntry, STATUS_IGNORED, STATUS_INDEX_DELETED, STATUS_INDEX_NEW,
    STATUS_INDEX_RENAMED, STATUS_WT_MODIFIED, STATUS_WT_NEW, STATUS_WT_TYPECHANGE,
};
use pankosmia_web::json::JsonValue;
use pankosmia_web::paths::PathPart;
use pankosmia_web::responses::{ApiResponse, ResponseBody};

fn sv(v: &JsonValue) -> serde_json::Value {
    match v {
        JsonValue::Null => serde_json::Value::Null,
        JsonValue::Bool(b) => serde_json::Value::Bool(*b),
        JsonValue::Number(n) => serde_json::from_str(n).unwrap(),
        JsonValue::Str(s) => serde_json::Value::String(s.clone()),
        JsonValue::Array(a) => serde_json::Value::Array(a.iter().map(sv).collect()),
        JsonValue::Object(m) => {
            let mut o = serde_json::Map::new();
            for (k, v) in m {
                o.insert(k.clone(), sv(v));
            }
            serde_json::Value::Object(o)
        }
    }
}

fn parse(s: &str) -> serde_json::Value {
    serde_json::from_str(s).unwrap()
}

fn text(r: &ApiResponse) -> String {
    match &r.body {
        ResponseBody::Text(t) => t.clone(),
        ResponseBody::Document(_) => panic!("document body"),
    }
}

fn reason_of(r: &ApiResponse) -> String {
    parse(&text(r))["reason"].as_str().unwrap().to_string()
}

fn parts(names: &[&str]) -> Vec<PathPart> {
    names.iter().map(|n| PathPart::Normal(n.to_string())).collect()
}

#[test]
fn change_kinds_in_order() {
    assert_eq!(change_type(STATUS_WT_NEW), "new");
    assert_eq!(change_type(STATUS_INDEX_NEW | STATUS_WT_MODIFIED), "new");
    assert_eq!(change_type(STATUS_WT_MODIFIED), "modified");
    assert_eq!(change_type(STATUS_INDEX_DELETED), "deleted");
    assert_eq!(change_type(STATUS_INDEX_RENAMED), "renamed");
    assert_eq!(change_type(STATUS_WT_TYPECHANGE), "type_change");
    assert_eq!(change_type(1 << 15), "");
}

#[test]
fn status_report_skips_current_and_ignored() {
    let entries = vec![
        StatusEntry { path: "a.txt".to_string(), bits: 0 },
        StatusEntry { path: "b.txt".to_string(), bits: STATUS_WT_NEW },
        StatusEntry { path: "c.txt".to_string(), bits: STATUS_IGNORED },
        StatusEntry { path: "d \"q\".txt".to_string(), bits: STATUS_WT_MODIFIED },
    ];
    let recs = git_status_records(&entries);
    assert_eq!(recs.len(), 2);
    assert_eq!(recs[0].path, "b.txt");
    assert_eq!(recs[1].change_type, "modified");
    let text_out = status_records_json(&recs);
    assert_eq!(
        text_out,
        "[\n  {\n    \"path\": \"b.txt\",\n    \"change_type\": \"new\"\n  },\n  {\n    \"path\": \"d \\\"q\\\".txt\",\n    \"change_type\": \"modified\"\n  }\n]"
    );
    assert_eq!(parse(&text_out)[1]["path"], serde_json::Value::String("d \"q\".txt".to_string()));
    let r = git_status(false, &entries);
    assert_eq!(r.status, 200);
    assert_eq!(text(&r), text_out);
    assert_eq!(text(&git_status(false, &Vec::new())), "[]");
    let bare = git_status(true, &entries);
    assert_eq!(bare.status, 400);
    assert_eq!(reason_of(&bare), "cannot get status of bare repo");
}

#[test]
fn branch_listing() {
    let entries = vec![
        BranchEntry::Named(Some("main".to_string())),
        BranchEntry::Named(Some("dev".to_string())),
        BranchEntry::Named(None),
        BranchEntry::Unreadable,
    ];
    let doc = sv(&list_branches(&entries, "refs/heads/main"));
    assert_eq!(
        doc,
        parse(r#"{"branches":[{"name":"main","is_head":true},{"name":"dev","is_head":false},{"name":"??","is_head":false},{"name":"???"}]}"#)
    );
}

#[test]
fn remote_listing() {
    let entries = vec![
        RemoteEntry { name: Some("origin".to_string()), url: Some("https://x/y".to_string()) },
        RemoteEntry { name: None, url: None },
    ];
    let doc = sv(&list_remotes(&entries));
    assert_eq!(doc, parse(r#"{"remotes":[{"name":"origin","url":"https://x/y"},{"name":null,"url":null}]}"#));
}

#[test]
fn remote_checks() {
    assert!(check_remote("o", "https://example.org/r").is_none());
    assert!(check_remote("origin", "https://example.org/o/r.git").is_none());
    let e = check_remote("", "https://example.org/r").unwrap();
    assert_eq!(e.status, 400);
    assert_eq!(reason_of(&e), "Remote name contains invalid characters");
    let u = check_remote("origin", "https://example.org/o/r?x=1").unwrap();
    assert_eq!(u.status, 400);
    assert_eq!(reason_of(&u), "Remote url contains invalid characters");
    assert_eq!(reason_of(&check_remote("o", "http://example.org").unwrap()), "Remote URL does not use HTTPS");
    assert!(check_remote("-", "https://x").is_none());
    assert_eq!(reason_of(&check_remote("a b", "https://x").unwrap()), "Remote name contains invalid characters");
}

#[test]
fn network_gate() {
    let good = parts(&["git.door43.org", "org", "repo"]);
    let e = network_repo_gate(false, &good).unwrap();
    assert_eq!(e.status, 401);
    assert_eq!(reason_of(&e), "offline mode");
    let bad = vec![PathPart::Normal("a".to_string()), PathPart::ParentDir, PathPart::Normal("b".to_string())];
    let e2 = network_repo_gate(true, &bad).unwrap();
    assert_eq!(e2.status, 400);
    assert!(network_repo_gate(true, &good).is_none());
}

#[test]
fn clone_source_and_target() {
    let p = parts(&["git.door43.org", "BurritoTruck", "fr_psle"]);
    let (url, local) = clone_plan(&p, "/repos");
    assert_eq!(url, "https://git.door43.org/BurritoTruck/fr_psle");
    assert_eq!(local, "/repos/git.door43.org/BurritoTruck/fr_psle");
    let p2 = parts(&["github.com", "org", "my.repo.git"]);
    let (url2, local2) = clone_plan(&p2, "/r");
    assert_eq!(url2, "https://github.com/org/my.repo.git");
    assert_eq!(local2, "/r/github.com/org/my/repo");
}

#[test]
fn uncommitted_changes_block_switching() {
    assert!(!has_uncommitted_changes(&vec![0, STATUS_IGNORED]));
    assert!(has_uncommitted_changes(&vec![0, STATUS_WT_NEW]));
    assert!(!has_uncommitted_changes(&vec![STATUS_INDEX_RENAMED]));
    let e = switch_branch_check(&vec![STATUS_WT_MODIFIED]).unwrap();
    assert_eq!(e.status, 409);
    assert_eq!(reason_of(&e), "Uncommitted changes detected. Commit or stash before switching branches.");
    assert!(switch_branch_check(&vec![]).is_none());
    let e2 = local_main_check(&vec![STATUS_INDEX_DELETED]).unwrap();
    assert_eq!(reason_of(&e2), "Uncommitted changes detected. Commit before creating local main.");
    assert_eq!(local_branch_ref("dev"), "refs/heads/dev");
    assert_eq!(fast_forward_message("refs/heads/main", "abc"), "Fast-Forward: Setting refs/heads/main to id: abc");
}

#[test]
fn copy_checks() {
    assert!(check_path_string_components("a/b/c"));
    assert!(!check_path_string_components("a/b"));
    assert!(!check_path_string_components("a/../c"));
    assert!(!check_path_string_components("a//c"));
    let good = parts(&["a", "b", "c"]);
    assert!(copy_request_gate(&good, "x/y/z").is_none());
    let e = copy_request_gate(&good, "x/y").unwrap();
    assert_eq!(e.status, 400);
    assert_eq!(reason_of(&e), "bad repo path");
    assert_eq!(destination_parent("/r/x/y/z"), "/r/x/y");
    assert_eq!(destination_parent("z"), "z");
}

#[test]
fn listings_as_json() {
    let v = vec!["a".to_string(), "b\"c".to_string()];
    assert_eq!(string_list_text(&v), serde_json::to_string(&v).unwrap());
    assert_eq!(string_list_text(&Vec::new()), "[]");
    let repos = vec![
        LocalRepo { server: "s".to_string(), org: "o".to_string(), repo: "r".to_string() },
        LocalRepo { server: "_local_".to_string(), org: "_local_".to_string(), repo: "MB".to_string() },
    ];
    assert_eq!(list_local_repos_text(&repos), r#"["s/o/r","_local_/_local_/MB"]"#);
}

#[test]
fn commit_log_as_json() {
    let commits = vec![
        CommitRecord { id: "1".to_string(), author: "A <a@x>".to_string(), date: "d".to_string(), message: "m\n".to_string() },
        CommitRecord { id: "2".to_string(), author: "B".to_string(), date: "e".to_string(), message: commit_message_or_default(None) },
    ];
    assert_eq!(
        commit_log_text(&commits),
        r#"[{"id":"1","author":"A <a@x>","date":"d","message":"m\n"},{"id":"2","author":"B","date":"e","message":"No Message"}]"#
    );
    assert_eq!(commit_message_or_default(Some("x".to_string())), "x");
}

#[test]
fn commit_times() {
    assert_eq!(print_time(0, 0).unwrap(), "Thu Jan  1 00:00:00 1970 +0000");
    assert_eq!(print_time(0, 90).unwrap(), "Thu Jan  1 01:30:00 1970 +0130");
    assert_eq!(print_time(86400 * 365, -330).unwrap(), "Thu Dec 31 18:30:00 1970 -0530");
}

#[test]
fn existing_main_refused() {
    let r = existing_main_check(true).unwrap();
    assert_eq!(r.status, 409);
    assert_eq!(reason_of(&r), "Local main branch already exists.");
    assert!(existing_main_check(false).is_none());
}
