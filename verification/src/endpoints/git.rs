//! Local git repositories: their status, branches and remotes as the
//! server reports them, and the checks made before cloning, fetching,
//! pulling, switching branches and adding remotes.
use vstd::prelude::*;
use crate::endpoints::content::join_lines;
use crate::json::{Json, JsonValue, view_items, view_members, lemma_view_items, lemma_view_members};
use crate::outside::{regex_is_match, regex_match, commit_time_text, format_commit_time};
use crate::paths::{PathPart, check_path_components, is_repo_path, joined, part_name, path_display};
use crate::responses::{
    ApiResponse, bad_response, is_bad, is_json_text, json_quote, json_string_text,
    not_ok_bad_repo_json_response, not_ok_offline_json_response, ok_json_response, bad_repo_reason,
    offline_reason, STATUS_BAD_REQUEST, STATUS_CONFLICT, STATUS_INTERNAL_SERVER_ERROR, STATUS_OK,
    STATUS_UNAUTHORIZED,
};
use crate::structs::GitStatusRecord;
use crate::text::{
    concat2, concat3, ends_with, has_prefix, has_suffix, push_str, replace, replace_all, split_chars,
    split_on, starts_with, string_views,
};

verus! {

// ---------------------------------------------------------------- status flags

pub const STATUS_INDEX_NEW: u32 = 1;
pub const STATUS_INDEX_MODIFIED: u32 = 2;
pub const STATUS_INDEX_DELETED: u32 = 4;
pub const STATUS_INDEX_RENAMED: u32 = 8;
pub const STATUS_INDEX_TYPECHANGE: u32 = 16;
pub const STATUS_WT_NEW: u32 = 128;
pub const STATUS_WT_MODIFIED: u32 = 256;
pub const STATUS_WT_DELETED: u32 = 512;
pub const STATUS_WT_TYPECHANGE: u32 = 1024;
pub const STATUS_WT_RENAMED: u32 = 2048;
pub const STATUS_IGNORED: u32 = 16384;

/// Whether any of the flags in `mask` is set in `bits`.
pub open spec fn any_flag(bits: u32, mask: u32) -> bool {
    bits & mask != 0
}

/// The kind of change that a file's status flags report, checked in this
/// order: `new`, `modified`, `deleted`, `renamed`, `type_change`, else
/// empty.
pub open spec fn change_kind(bits: u32) -> Seq<char> {
    if any_flag(bits, STATUS_INDEX_NEW) || any_flag(bits, STATUS_WT_NEW) {
        "new"@
    } else if any_flag(bits, STATUS_INDEX_MODIFIED) || any_flag(bits, STATUS_WT_MODIFIED) {
        "modified"@
    } else if any_flag(bits, STATUS_INDEX_DELETED) || any_flag(bits, STATUS_WT_DELETED) {
        "deleted"@
    } else if any_flag(bits, STATUS_INDEX_RENAMED) || any_flag(bits, STATUS_WT_RENAMED) {
        "renamed"@
    } else if any_flag(bits, STATUS_INDEX_TYPECHANGE) || any_flag(bits, STATUS_WT_TYPECHANGE) {
        "type_change"@
    } else {
        ""@
    }
}

/// The kind of change that a file's status flags report.
pub fn change_type(bits: u32) -> (r: &'static str)
    ensures
        r@ == change_kind(bits),
{
    if bits & STATUS_INDEX_NEW != 0 || bits & STATUS_WT_NEW != 0 {
        "new"
    } else if bits & STATUS_INDEX_MODIFIED != 0 || bits & STATUS_WT_MODIFIED != 0 {
        "modified"
    } else if bits & STATUS_INDEX_DELETED != 0 || bits & STATUS_WT_DELETED != 0 {
        "deleted"
    } else if bits & STATUS_INDEX_RENAMED != 0 || bits & STATUS_WT_RENAMED != 0 {
        "renamed"
    } else if bits & STATUS_INDEX_TYPECHANGE != 0 || bits & STATUS_WT_TYPECHANGE != 0 {
        "type_change"
    } else {
        ""
    }
}

/// A file of a repository with its status flags.
pub struct StatusEntry {
    pub path: String,
    pub bits: u32,
}

/// The records of the changed files: files with no flag are current and
/// left out, and so are ignored files; the others keep their order.
pub open spec fn status_records(entries: Seq<(Seq<char>, u32)>) -> Seq<(Seq<char>, Seq<char>)>
    decreases entries.len(),
{
    if entries.len() == 0 {
        Seq::empty()
    } else {
        let e = entries.last();
        let rest = status_records(entries.drop_last());
        if e.1 != 0 && !any_flag(e.1, STATUS_IGNORED) {
            rest.push((e.0, change_kind(e.1)))
        } else {
            rest
        }
    }
}

/// The model of status entries.
pub open spec fn entry_views(v: Seq<StatusEntry>) -> Seq<(Seq<char>, u32)> {
    Seq::new(v.len(), |i: int| (v[i].path@, v[i].bits))
}

/// The model of status records.
pub open spec fn record_views(v: Seq<GitStatusRecord>) -> Seq<(Seq<char>, Seq<char>)> {
    Seq::new(v.len(), |i: int| (v[i].path@, v[i].change_type@))
}

/// The records of the changed files of a repository.
pub fn git_status_records(entries: &Vec<StatusEntry>) -> (r: Vec<GitStatusRecord>)
    ensures
        record_views(r@) == status_records(entry_views(entries@)),
{
    let mut out: Vec<GitStatusRecord> = Vec::new();
    let mut i: usize = 0;
    while i < entries.len()
        invariant
            i <= entries@.len(),
            record_views(out@) == status_records(entry_views(entries@).take(i as int)),
        decreases entries@.len() - i,
    {
        let e = &entries[i];
        let ghost before = out@;
        assert(entry_views(entries@).take(i + 1).drop_last() =~= entry_views(entries@).take(i as int));
        assert(entry_views(entries@).take(i + 1).last() == (e.path@, e.bits));
        if e.bits != 0 && e.bits & STATUS_IGNORED == 0 {
            let kind = change_type(e.bits);
            out.push(GitStatusRecord { path: e.path.clone(), change_type: kind.to_owned() });
            assert(record_views(out@) =~= record_views(before).push((e.path@, change_kind(e.bits))));
        }
        i += 1;
    }
    assert(entry_views(entries@).take(entries@.len() as int) =~= entry_views(entries@));
    out
}

/// One status record as `serde_json::to_string_pretty` prints it inside
/// the list.
pub open spec fn pretty_record(rec: (Seq<char>, Seq<char>)) -> Seq<char> {
    "  {\n    \"path\": "@ + json_string_text(rec.0) + ",\n    \"change_type\": "@ + json_string_text(rec.1)
        + "\n  }"@
}

/// A list of status records as `serde_json::to_string_pretty` prints it.
pub open spec fn pretty_records(recs: Seq<(Seq<char>, Seq<char>)>) -> Seq<char> {
    if recs.len() == 0 {
        "[]"@
    } else {
        "[\n"@ + join_lines(Seq::new(recs.len(), |i: int| pretty_record(recs[i])), ",\n"@) + "\n]"@
    }
}

/// The status records as indented JSON.
pub fn status_records_json(recs: &Vec<GitStatusRecord>) -> (r: String)
    ensures
        r@ == pretty_records(record_views(recs@)),
{
    if recs.len() == 0 {
        return "[]".to_owned();
    }
    let ghost lines = Seq::new(recs@.len(), |i: int| pretty_record(record_views(recs@)[i]));
    let mut body = String::new();
    let mut i: usize = 0;
    while i < recs.len()
        invariant
            i <= recs@.len(),
            lines == Seq::new(recs@.len(), |i: int| pretty_record(record_views(recs@)[i])),
            body@ == join_lines(lines.take(i as int), ",\n"@),
        decreases recs@.len() - i,
    {
        if i > 0 {
            push_str(&mut body, ",\n");
        }
        push_str(&mut body, "  {\n    \"path\": ");
        let qp = json_quote(recs[i].path.as_str());
        push_str(&mut body, qp.as_str());
        push_str(&mut body, ",\n    \"change_type\": ");
        let qc = json_quote(recs[i].change_type.as_str());
        push_str(&mut body, qc.as_str());
        push_str(&mut body, "\n  }");
        proof {
            assert(lines.take(i + 1).drop_last() =~= lines.take(i as int));
            assert(lines.take(i + 1).last() == pretty_record((recs@[i as int].path@, recs@[i as int].change_type@)));
            if i == 0 {
                assert(lines.take(1).len() == 1);
            }
        }
        i += 1;
    }
    assert(lines.take(recs@.len() as int) =~= lines);
    let mut r = "[\n".to_owned();
    push_str(&mut r, body.as_str());
    push_str(&mut r, "\n]");
    r
}

/// The reason given for the status of a bare repository.
pub open spec fn bare_status_reason() -> Seq<char> {
    "cannot get status of bare repo"@
}

/// The reply to a status request: a 400 reply for a bare repository, else
/// the records of the changed files as indented JSON.
pub fn git_status(is_bare: bool, entries: &Vec<StatusEntry>) -> (r: ApiResponse)
    ensures
        is_bare ==> is_bad(r, STATUS_BAD_REQUEST, bare_status_reason()),
        !is_bare ==> is_json_text(r, STATUS_OK, pretty_records(status_records(entry_views(entries@)))),
{
    if is_bare {
        return bad_response(STATUS_BAD_REQUEST, "cannot get status of bare repo".to_owned());
    }
    let recs = git_status_records(entries);
    ok_json_response(status_records_json(&recs))
}


/// The status report keeps exactly the changed files: each record is the
/// path and change kind of a file that has a flag and is not ignored, in
/// the order of the files, and there are no more records than files.
pub proof fn law_status_records_from_changed_files(entries: Seq<(Seq<char>, u32)>)
    ensures
        status_records(entries).len() <= entries.len(),
        forall|i: int| 0 <= i < status_records(entries).len() ==> exists|j: int|
            0 <= j < entries.len() && (#[trigger] status_records(entries)[i]).0 == entries[j].0
                && entries[j].1 != 0 && !any_flag(entries[j].1, STATUS_IGNORED)
                && status_records(entries)[i].1 == change_kind(entries[j].1),
    decreases entries.len(),
{
    if entries.len() > 0 {
        let init = entries.drop_last();
        law_status_records_from_changed_files(init);
        let r = status_records(entries);
        let ri = status_records(init);
        assert forall|i: int| 0 <= i < r.len() implies exists|j: int|
            0 <= j < entries.len() && (#[trigger] r[i]).0 == entries[j].0
                && entries[j].1 != 0 && !any_flag(entries[j].1, STATUS_IGNORED)
                && r[i].1 == change_kind(entries[j].1) by {
            if i < ri.len() {
                assert(r[i] == ri[i]);
                let j = choose|j: int| 0 <= j < init.len() && (#[trigger] ri[i]).0 == init[j].0
                    && init[j].1 != 0 && !any_flag(init[j].1, STATUS_IGNORED)
                    && ri[i].1 == change_kind(init[j].1);
                assert(init[j] == entries[j]);
            } else {
                assert(entries.last() == entries[entries.len() - 1]);
            }
        }
    }
}

/// Whether a file's status flags report a change to list: some flag is set
/// and the file is not ignored.
pub open spec fn reported_change(e: (Seq<char>, u32)) -> bool {
    e.1 != 0 && e.1 & STATUS_IGNORED == 0
}

/// The status report lists exactly the changed files that are not ignored,
/// in the order of the entries, each with its path and its kind of change:
/// it is the entries kept by `reported_change`, each mapped to its record.
pub proof fn law_status_records_are_changed_files(entries: Seq<(Seq<char>, u32)>)
    ensures
        status_records(entries) == entries.filter(|e: (Seq<char>, u32)| reported_change(e)).map_values(
            |e: (Seq<char>, u32)| (e.0, change_kind(e.1)),
        ),
    decreases entries.len(),
{
    let f = |e: (Seq<char>, u32)| reported_change(e);
    let g = |e: (Seq<char>, u32)| (e.0, change_kind(e.1));
    reveal(Seq::filter);
    if entries.len() == 0 {
        assert(entries.filter(f) =~= Seq::<(Seq<char>, u32)>::empty());
        assert(entries.filter(f).map_values(g) =~= Seq::<(Seq<char>, Seq<char>)>::empty());
    } else {
        law_status_records_are_changed_files(entries.drop_last());
        let e = entries.last();
        assert(entries.filter(f) == (if f(e) { entries.drop_last().filter(f).push(e) } else { entries.drop_last().filter(f) }));
        if f(e) {
            assert(entries.filter(f).map_values(g) =~= entries.drop_last().filter(f).map_values(g).push(g(e)));
        }
        assert(any_flag(e.1, STATUS_IGNORED) == (e.1 & STATUS_IGNORED != 0));
    }
}

/// Every changed file that is not ignored is in the status report, with
/// its path and its kind of change (a deleted file as `deleted`, and so
/// on), and the report has one record per such file.
pub proof fn law_status_report_complete(entries: Seq<(Seq<char>, u32)>, j: int)
    requires
        0 <= j < entries.len(),
        entries[j].1 != 0,
        entries[j].1 & STATUS_IGNORED == 0,
    ensures
        exists|i: int| 0 <= i < status_records(entries).len()
            && #[trigger] status_records(entries)[i] == (entries[j].0, change_kind(entries[j].1)),
    decreases entries.len(),
{
    if j == entries.len() - 1 {
        let r = status_records(entries);
        assert(any_flag(entries[j].1, STATUS_IGNORED) == false);
        assert(r[r.len() - 1] == (entries[j].0, change_kind(entries[j].1)));
    } else {
        let init = entries.drop_last();
        assert(init[j] == entries[j]);
        law_status_report_complete(init, j);
        let i = choose|i: int| 0 <= i < status_records(init).len()
            && #[trigger] status_records(init)[i] == (init[j].0, change_kind(init[j].1));
        assert(status_records(entries)[i] == status_records(init)[i]);
    }
}

/// A file deleted in the working tree is reported as `deleted`, whatever
/// else is set but a new or modified flag.
pub proof fn law_deleted_reported_as_deleted(bits: u32)
    requires
        bits & STATUS_WT_DELETED != 0 || bits & STATUS_INDEX_DELETED != 0,
        bits & (STATUS_INDEX_NEW | STATUS_WT_NEW | STATUS_INDEX_MODIFIED | STATUS_WT_MODIFIED) == 0,
    ensures
        change_kind(bits) == "deleted"@,
{
    assert(bits & (STATUS_INDEX_NEW | STATUS_WT_NEW | STATUS_INDEX_MODIFIED | STATUS_WT_MODIFIED) == 0 ==> (
        bits & STATUS_INDEX_NEW == 0 && bits & STATUS_WT_NEW == 0 && bits & STATUS_INDEX_MODIFIED == 0
            && bits & STATUS_WT_MODIFIED == 0)) by (bit_vector);
}

// ---------------------------------------------------------------- branches and remotes

/// A branch of a repository as listed: its name, if it has a readable
/// one, or a branch that could not be read.
pub enum BranchEntry {
    Named(Option<String>),
    Unreadable,
}

/// The record of one listed branch: `{"name", "is_head"}`, where the head
/// branch is the one whose name ends the head reference after a `/`; a
/// branch without a readable name is called `??`; an unreadable branch is
/// `{"name": "???"}`.
pub open spec fn branch_record(e: BranchEntry, head: Seq<char>) -> Json {
    match e {
        BranchEntry::Named(n) => {
            let name = match n {
                Some(s) => s@,
                None => "??"@,
            };
            Json::Object(seq![("name"@, Json::Str(name)), ("is_head"@, Json::Bool(has_suffix(head, "/"@ + name)))])
        },
        BranchEntry::Unreadable => Json::Object(seq![("name"@, Json::Str("???"@))]),
    }
}

/// The branch listing `{"branches": [...]}`.
pub open spec fn branches_document(entries: Seq<BranchEntry>, head: Seq<char>) -> Json {
    Json::Object(seq![("branches"@, Json::Array(Seq::new(entries.len(), |i: int| branch_record(entries[i], head))))])
}

/// One object member.
fn member(key: &str, v: JsonValue) -> (r: (String, JsonValue))
    ensures
        r.0@ == key@,
        r.1@ == v@,
{
    (key.to_owned(), v)
}

/// An object with one member.
fn object1(k: &str, v: JsonValue) -> (r: JsonValue)
    ensures
        r@ == Json::Object(seq![(k@, v@)]),
{
    let ghost vv = v@;
    let m = vec![member(k, v)];
    proof {
        lemma_view_members(m@);
        assert(view_members(m@) =~= seq![(k@, vv)]);
    }
    JsonValue::Object(m)
}

/// An object with two members.
fn object2(k1: &str, v1: JsonValue, k2: &str, v2: JsonValue) -> (r: JsonValue)
    ensures
        r@ == Json::Object(seq![(k1@, v1@), (k2@, v2@)]),
{
    let ghost a = v1@;
    let ghost b = v2@;
    let m = vec![member(k1, v1), member(k2, v2)];
    proof {
        lemma_view_members(m@);
        assert(view_members(m@) =~= seq![(k1@, a), (k2@, b)]);
    }
    JsonValue::Object(m)
}

/// The record of one listed branch.
fn branch_json(e: &BranchEntry, head: &str) -> (r: JsonValue)
    ensures
        r@ == branch_record(*e, head@),
{
    match e {
        BranchEntry::Named(n) => {
            let name = match n {
                Some(s) => s.clone(),
                None => "??".to_owned(),
            };
            let tail = concat2("/", name.as_str());
            let is_head = ends_with(head, tail.as_str());
            object2("name", JsonValue::Str(name), "is_head", JsonValue::Bool(is_head))
        },
        BranchEntry::Unreadable => object1("name", JsonValue::Str("???".to_owned())),
    }
}

/// The branch listing of a repository whose head reference is `head`.
pub fn list_branches(entries: &Vec<BranchEntry>, head: &str) -> (r: JsonValue)
    ensures
        r@ == branches_document(entries@, head@),
{
    let mut items: Vec<JsonValue> = Vec::new();
    let mut i: usize = 0;
    while i < entries.len()
        invariant
            i <= entries@.len(),
            view_items(items@) == Seq::new(i as nat, |k: int| branch_record(entries@[k], head@)),
        decreases entries@.len() - i,
    {
        let ghost before = items@;
        let b = branch_json(&entries[i], head);
        items.push(b);
        proof {
            crate::json::lemma_view_items_push(before, items@.last());
            assert(items@ == before.push(items@.last()));
            assert(Seq::new((i + 1) as nat, |k: int| branch_record(entries@[k], head@)) =~= Seq::new(i as nat, |k: int| branch_record(entries@[k], head@)).push(branch_record(entries@[i as int], head@)));
        }
        i += 1;
    }
    let ghost iv = view_items(items@);
    let arr = JsonValue::Array(items);
    assert(arr@ == Json::Array(iv));
    assert(iv =~= Seq::new(entries@.len(), |k: int| branch_record(entries@[k], head@)));
    object1("branches", arr)
}

/// A remote of a repository: its name and URL where git has them.
pub struct RemoteEntry {
    pub name: Option<String>,
    pub url: Option<String>,
}

/// A string, or null.
pub open spec fn str_or_null(s: Option<String>) -> Json {
    match s {
        Some(t) => Json::Str(t@),
        None => Json::Null,
    }
}

/// The remote listing `{"remotes": [{"name", "url"}, ...]}`.
pub open spec fn remotes_document(entries: Seq<RemoteEntry>) -> Json {
    Json::Object(seq![("remotes"@, Json::Array(Seq::new(entries.len(), |i: int|
        Json::Object(seq![("name"@, str_or_null(entries[i].name)), ("url"@, str_or_null(entries[i].url))]))))])
}

fn str_or_null_json(s: &Option<String>) -> (r: JsonValue)
    ensures
        r@ == str_or_null(*s),
{
    match s {
        Some(t) => JsonValue::Str(t.clone()),
        None => JsonValue::Null,
    }
}

/// The remote listing of a repository.
pub fn list_remotes(entries: &Vec<RemoteEntry>) -> (r: JsonValue)
    ensures
        r@ == remotes_document(entries@),
{
    let mut items: Vec<JsonValue> = Vec::new();
    let mut i: usize = 0;
    while i < entries.len()
        invariant
            i <= entries@.len(),
            view_items(items@) == Seq::new(i as nat, |k: int|
                Json::Object(seq![("name"@, str_or_null(entries@[k].name)), ("url"@, str_or_null(entries@[k].url))])),
        decreases entries@.len() - i,
    {
        let ghost before = items@;
        let n = str_or_null_json(&entries[i].name);
        let u = str_or_null_json(&entries[i].url);
        let rec = object2("name", n, "url", u);
        items.push(rec);
        proof {
            crate::json::lemma_view_items_push(before, items@.last());
            assert(items@ == before.push(items@.last()));
            assert(Seq::new((i + 1) as nat, |k: int|
                Json::Object(seq![("name"@, str_or_null(entries@[k].name)), ("url"@, str_or_null(entries@[k].url))]))
                =~= Seq::new(i as nat, |k: int|
                Json::Object(seq![("name"@, str_or_null(entries@[k].name)), ("url"@, str_or_null(entries@[k].url))])).push(
                Json::Object(seq![("name"@, str_or_null(entries@[i as int].name)), ("url"@, str_or_null(entries@[i as int].url))])));
        }
        i += 1;
    }
    let ghost iv = view_items(items@);
    let arr = JsonValue::Array(items);
    assert(arr@ == Json::Array(iv));
    assert(iv =~= Seq::new(entries@.len(), |k: int|
        Json::Object(seq![("name"@, str_or_null(entries@[k].name)), ("url"@, str_or_null(entries@[k].url))])));
    object1("remotes", arr)
}

// ---------------------------------------------------------------- adding remotes

/// The pattern a remote name must match: a non-empty run of letters,
/// digits, `_` and `-`.
pub open spec fn remote_name_pattern() -> Seq<char> {
    "^[A-Za-z0-9_-]+$"@
}

/// The pattern a remote URL must match: a non-empty run of letters,
/// digits, `_`, `.`, `:`, `/` and `-`.
pub open spec fn remote_url_pattern() -> Seq<char> {
    "^[A-Za-z0-9_.:/-]+$"@
}

/// The refusal of a request to add a remote, if any: the name must match
/// the name pattern, then the URL must match the URL pattern, then the URL
/// must use HTTPS. A pattern that does not compile refuses as a mismatch.
pub open spec fn remote_refusal(name: Seq<char>, url: Seq<char>) -> Option<Seq<char>> {
    if regex_match(remote_name_pattern(), name) != Some(true) {
        Some("Remote name contains invalid characters"@)
    } else if regex_match(remote_url_pattern(), url) != Some(true) {
        Some("Remote url contains invalid characters"@)
    } else if !has_prefix(url, "https://"@) {
        Some("Remote URL does not use HTTPS"@)
    } else {
        None
    }
}

/// The 400 reply refusing a remote, or `None` when it may be added.
pub fn check_remote(remote_name: &str, remote_url: &str) -> (r: Option<ApiResponse>)
    ensures
        match remote_refusal(remote_name@, remote_url@) {
            Some(reason) => r is Some && is_bad(r->Some_0, STATUS_BAD_REQUEST, reason),
            None => r is None,
        },
{
    let name_ok = regex_is_match("^[A-Za-z0-9_-]+$", remote_name);
    if name_ok != Some(true) {
        return Some(bad_response(STATUS_BAD_REQUEST, "Remote name contains invalid characters".to_owned()));
    }
    let url_ok = regex_is_match("^[A-Za-z0-9_.:/-]+$", remote_url);
    if url_ok != Some(true) {
        return Some(bad_response(STATUS_BAD_REQUEST, "Remote url contains invalid characters".to_owned()));
    }
    if !starts_with(remote_url, "https://") {
        return Some(bad_response(STATUS_BAD_REQUEST, "Remote URL does not use HTTPS".to_owned()));
    }
    None
}

// ---------------------------------------------------------------- network requests

/// The refusal of a request that needs the network and names a
/// repository: 401 when the network is off, else 400 for a path that is
/// not a repository path.
pub fn network_repo_gate(net_enabled: bool, parts: &Vec<PathPart>) -> (r: Option<ApiResponse>)
    ensures
        !net_enabled ==> r is Some && is_bad(r->Some_0, STATUS_UNAUTHORIZED, offline_reason()),
        net_enabled && !is_repo_path(parts@) ==> r is Some && is_bad(r->Some_0, STATUS_BAD_REQUEST, bad_repo_reason()),
        net_enabled && is_repo_path(parts@) ==> r is None,
{
    if !net_enabled {
        return Some(not_ok_offline_json_response());
    }
    if !check_path_components(parts) {
        return Some(not_ok_bad_repo_json_response());
    }
    None
}

/// The repository name a clone is stored under: a name ending in `.git`
/// is split at its dots, the last piece dropped and the rest joined by
/// `/`; another name is kept.
pub open spec fn clone_repo_name(repo: Seq<char>) -> Seq<char> {
    if has_suffix(repo, ".git"@) {
        join_lines(split_chars(repo, '.').drop_last(), "/"@)
    } else {
        repo
    }
}

/// Where a repository is cloned from and to: `https://` and the request
/// path with `\` turned into `/`, and `<repo_dir>/<server>/<org>/<name>`.
pub open spec fn clone_source_and_target(parts: Seq<PathPart>, repo_dir: Seq<char>) -> (Seq<char>, Seq<char>) {
    (
        "https://"@ + replace_all(joined(parts), "\\"@, "/"@),
        repo_dir + "/"@ + part_name(parts[0]) + "/"@ + part_name(parts[1]) + "/"@ + clone_repo_name(part_name(parts[2])),
    )
}

/// The source URL and local directory of a clone.
pub fn clone_plan(parts: &Vec<PathPart>, repo_dir: &str) -> (r: (String, String))
    requires
        is_repo_path(parts@),
    ensures
        (r.0@, r.1@) == clone_source_and_target(parts@, repo_dir@),
{
    let source = crate::paths::part_text(&parts[0]);
    let org = crate::paths::part_text(&parts[1]);
    let repo_full = crate::paths::part_text(&parts[2]);
    let repo = if ends_with(repo_full.as_str(), ".git") {
        let pieces = split_on(repo_full.as_str(), '.');
        let mut keep: Vec<String> = Vec::new();
        let mut i: usize = 0;
        proof { crate::text::lemma_split_nonempty(repo_full@, '.'); }
        let last = pieces.len() - 1;
        while i < last
            invariant
                last + 1 == pieces@.len(),
                i <= last,
                string_views(pieces@) == split_chars(repo_full@, '.'),
                string_views(keep@) == string_views(pieces@).take(i as int),
            decreases pieces@.len() - i,
        {
            let ghost before = keep@;
            keep.push(pieces[i].clone());
            proof {
                crate::text::lemma_string_views_push(before, keep@.last());
                assert(keep@ == before.push(keep@.last()));
                assert(string_views(pieces@).take(i + 1) =~= string_views(pieces@).take(i as int).push(pieces@[i as int]@));
            }
            i += 1;
        }
        assert(string_views(pieces@).take(i as int) =~= split_chars(repo_full@, '.').drop_last());
        crate::endpoints::content::join_strings(&keep, "/")
    } else {
        repo_full.clone()
    };
    let display = path_display(parts);
    proof { reveal_strlit("\\"); }
    let fixed = replace(display.as_str(), "\\", "/");
    let url = concat2("https://", fixed.as_str());
    let mut local = repo_dir.to_owned();
    push_str(&mut local, "/");
    push_str(&mut local, source.as_str());
    push_str(&mut local, "/");
    push_str(&mut local, org.as_str());
    push_str(&mut local, "/");
    push_str(&mut local, repo.as_str());
    (url, local)
}

// ---------------------------------------------------------------- switching branches

/// Whether a file's status flags show a change that a checkout could lose:
/// a new, modified or deleted file in the working tree or the index.
pub open spec fn is_dirty(bits: u32) -> bool {
    any_flag(bits, STATUS_WT_MODIFIED) || any_flag(bits, STATUS_WT_NEW) || any_flag(bits, STATUS_WT_DELETED)
        || any_flag(bits, STATUS_INDEX_MODIFIED) || any_flag(bits, STATUS_INDEX_NEW)
        || any_flag(bits, STATUS_INDEX_DELETED)
}

/// A file counts as an uncommitted change exactly when one of the
/// working-tree flags new, modified or deleted, or one of the index flags
/// new, modified or deleted, is set.
pub proof fn law_dirty_flags(bits: u32)
    ensures
        bits & STATUS_WT_MODIFIED != 0 ==> is_dirty(bits),
        bits & STATUS_WT_NEW != 0 ==> is_dirty(bits),
        bits & STATUS_WT_DELETED != 0 ==> is_dirty(bits),
        bits & STATUS_INDEX_MODIFIED != 0 ==> is_dirty(bits),
        bits & STATUS_INDEX_NEW != 0 ==> is_dirty(bits),
        bits & STATUS_INDEX_DELETED != 0 ==> is_dirty(bits),
        is_dirty(bits) <==> bits & (STATUS_WT_MODIFIED | STATUS_WT_NEW | STATUS_WT_DELETED
            | STATUS_INDEX_MODIFIED | STATUS_INDEX_NEW | STATUS_INDEX_DELETED) != 0,
{
    assert(bits & (STATUS_WT_MODIFIED | STATUS_WT_NEW | STATUS_WT_DELETED
            | STATUS_INDEX_MODIFIED | STATUS_INDEX_NEW | STATUS_INDEX_DELETED) != 0 <==> (
        bits & STATUS_WT_MODIFIED != 0 || bits & STATUS_WT_NEW != 0 || bits & STATUS_WT_DELETED != 0
            || bits & STATUS_INDEX_MODIFIED != 0 || bits & STATUS_INDEX_NEW != 0 || bits & STATUS_INDEX_DELETED != 0)) by (bit_vector);
}

/// Switching branches is refused whenever some file has an uncommitted
/// change, a working-tree deletion included.
pub proof fn law_switch_refused_over_changes(statuses: Seq<u32>, i: int)
    requires
        0 <= i < statuses.len(),
        statuses[i] & (STATUS_WT_MODIFIED | STATUS_WT_NEW | STATUS_WT_DELETED
            | STATUS_INDEX_MODIFIED | STATUS_INDEX_NEW | STATUS_INDEX_DELETED) != 0,
    ensures
        exists|k: int| 0 <= k < statuses.len() && is_dirty(#[trigger] statuses[k]),
{
    law_dirty_flags(statuses[i]);
}

/// Whether any file of a repository has an uncommitted change.
pub fn has_uncommitted_changes(statuses: &Vec<u32>) -> (r: bool)
    ensures
        r == exists|i: int| 0 <= i < statuses@.len() && is_dirty(#[trigger] statuses@[i]),
{
    let mut i: usize = 0;
    while i < statuses.len()
        invariant
            i <= statuses@.len(),
            forall|k: int| 0 <= k < i ==> !is_dirty(#[trigger] statuses@[k]),
        decreases statuses@.len() - i,
    {
        let s = statuses[i];
        if s & STATUS_WT_MODIFIED != 0 || s & STATUS_WT_NEW != 0 || s & STATUS_WT_DELETED != 0
            || s & STATUS_INDEX_MODIFIED != 0 || s & STATUS_INDEX_NEW != 0 || s & STATUS_INDEX_DELETED != 0 {
            assert(is_dirty(statuses@[i as int]));
            return true;
        }
        i += 1;
    }
    false
}

/// The reason given when a branch switch would lose changes.
pub open spec fn dirty_switch_reason() -> Seq<char> {
    "Uncommitted changes detected. Commit or stash before switching branches."@
}

/// The reason given when a local main would be made over changes.
pub open spec fn dirty_main_reason() -> Seq<char> {
    "Uncommitted changes detected. Commit before creating local main."@
}

/// The 409 reply refusing to switch branches over uncommitted changes, or
/// `None` when the repository is clean.
pub fn switch_branch_check(statuses: &Vec<u32>) -> (r: Option<ApiResponse>)
    ensures
        (exists|i: int| 0 <= i < statuses@.len() && is_dirty(#[trigger] statuses@[i])) ==> r is Some
            && is_bad(r->Some_0, STATUS_CONFLICT, dirty_switch_reason()),
        !(exists|i: int| 0 <= i < statuses@.len() && is_dirty(#[trigger] statuses@[i])) ==> r is None,
{
    if has_uncommitted_changes(statuses) {
        Some(bad_response(
            STATUS_CONFLICT,
            "Uncommitted changes detected. Commit or stash before switching branches.".to_owned(),
        ))
    } else {
        None
    }
}

/// The 409 reply refusing to make a local main over uncommitted changes,
/// or `None` when the repository is clean.
pub fn local_main_check(statuses: &Vec<u32>) -> (r: Option<ApiResponse>)
    ensures
        (exists|i: int| 0 <= i < statuses@.len() && is_dirty(#[trigger] statuses@[i])) ==> r is Some
            && is_bad(r->Some_0, STATUS_CONFLICT, dirty_main_reason()),
        !(exists|i: int| 0 <= i < statuses@.len() && is_dirty(#[trigger] statuses@[i])) ==> r is None,
{
    if has_uncommitted_changes(statuses) {
        Some(bad_response(
            STATUS_CONFLICT,
            "Uncommitted changes detected. Commit before creating local main.".to_owned(),
        ))
    } else {
        None
    }
}

/// The full reference of a local branch: `refs/heads/<branch>`.
pub fn local_branch_ref(branch: &str) -> (r: String)
    ensures
        r@ == "refs/heads/"@ + branch@,
{
    concat2("refs/heads/", branch)
}

/// The reflog message of a fast-forward.
pub fn fast_forward_message(name: &str, id: &str) -> (r: String)
    ensures
        r@ == "Fast-Forward: Setting "@ + name@ + " to id: "@ + id@,
{
    let mut r = concat3("Fast-Forward: Setting ", name, " to id: ");
    push_str(&mut r, id);
    r
}


/// The 409 reply refusing to make a local main branch where one exists, or
/// `None` when there is none.
pub fn existing_main_check(main_exists: bool) -> (r: Option<ApiResponse>)
    ensures
        main_exists ==> r is Some && is_bad(r->Some_0, STATUS_CONFLICT, "Local main branch already exists."@),
        !main_exists ==> r is None,
{
    if main_exists {
        Some(bad_response(STATUS_CONFLICT, "Local main branch already exists.".to_owned()))
    } else {
        None
    }
}

// ---------------------------------------------------------------- copies

/// Whether a target path names a repository: three non-empty names
/// separated by `/`, none of them `.` or `..`.
pub open spec fn is_repo_path_text(p: Seq<char>) -> bool {
    let pieces = split_chars(p, '/');
    &&& pieces.len() == 3
    &&& forall|i: int| 0 <= i < 3 ==> is_plain_name(#[trigger] pieces[i])
}

/// A name that is neither empty nor `.` nor `..`.
pub open spec fn is_plain_name(s: Seq<char>) -> bool {
    s.len() > 0 && s != "."@ && s != ".."@
}

fn plain_name(s: &str) -> (r: bool)
    ensures
        r == is_plain_name(s@),
{
    !s.is_empty() && !crate::text::str_eq(s, ".") && !crate::text::str_eq(s, "..")
}

/// Whether a target path given as text names a repository.
pub fn check_path_string_components(p: &str) -> (r: bool)
    ensures
        r == is_repo_path_text(p@),
{
    let pieces = split_on(p, '/');
    if pieces.len() != 3 {
        return false;
    }
    let a = plain_name(pieces[0].as_str());
    let b = plain_name(pieces[1].as_str());
    let c = plain_name(pieces[2].as_str());
    proof {
        assert(string_views(pieces@)[0] == pieces@[0]@);
        assert(string_views(pieces@)[1] == pieces@[1]@);
        assert(string_views(pieces@)[2] == pieces@[2]@);
        if a && b && c {
            assert forall|i: int| 0 <= i < 3 implies is_plain_name(#[trigger] split_chars(p@, '/')[i]) by {
                assert(split_chars(p@, '/')[i] == pieces@[i]@);
            }
        }
    }
    a && b && c
}

/// The directory that holds a path: what comes before its last `/`, or
/// the whole path when it has none.
pub open spec fn parent_of(p: Seq<char>) -> Seq<char> {
    let pieces = split_chars(p, '/');
    if pieces.len() <= 1 {
        p
    } else {
        join_lines(pieces.drop_last(), "/"@)
    }
}

/// The directory that holds a path.
pub fn destination_parent(p: &str) -> (r: String)
    ensures
        r@ == parent_of(p@),
{
    let pieces = split_on(p, '/');
    proof { crate::text::lemma_split_nonempty(p@, '/'); }
    if pieces.len() <= 1 {
        return p.to_owned();
    }
    let last = pieces.len() - 1;
    let mut keep: Vec<String> = Vec::new();
    let mut i: usize = 0;
    while i < last
        invariant
            last + 1 == pieces@.len(),
            i <= last,
            string_views(pieces@) == split_chars(p@, '/'),
            string_views(keep@) == string_views(pieces@).take(i as int),
        decreases last - i,
    {
        let ghost before = keep@;
        keep.push(pieces[i].clone());
        proof {
            crate::text::lemma_string_views_push(before, keep@.last());
            assert(keep@ == before.push(keep@.last()));
            assert(string_views(pieces@).take(i + 1) =~= string_views(pieces@).take(i as int).push(pieces@[i as int]@));
        }
        i += 1;
    }
    assert(string_views(pieces@).take(last as int) =~= split_chars(p@, '/').drop_last());
    crate::endpoints::content::join_strings(&keep, "/")
}

/// The refusal of a copy request: 400 unless both the source and the
/// target name repositories.
pub fn copy_request_gate(parts: &Vec<PathPart>, target: &str) -> (r: Option<ApiResponse>)
    ensures
        is_repo_path(parts@) && is_repo_path_text(target@) ==> r is None,
        !(is_repo_path(parts@) && is_repo_path_text(target@)) ==> r is Some
            && is_bad(r->Some_0, STATUS_BAD_REQUEST, bad_repo_reason()),
{
    if check_path_components(parts) && check_path_string_components(target) {
        None
    } else {
        Some(not_ok_bad_repo_json_response())
    }
}

// ---------------------------------------------------------------- listings

/// A list of strings as serde_json prints it: `["a","b"]`.
pub open spec fn string_list_json(v: Seq<Seq<char>>) -> Seq<char> {
    "["@ + join_lines(Seq::new(v.len(), |i: int| json_string_text(v[i])), ","@) + "]"@
}

/// A list of strings as JSON text.
pub fn string_list_text(v: &Vec<String>) -> (r: String)
    ensures
        r@ == string_list_json(string_views(v@)),
{
    let ghost items = Seq::new(v@.len(), |i: int| json_string_text(string_views(v@)[i]));
    let mut body = String::new();
    let mut i: usize = 0;
    while i < v.len()
        invariant
            i <= v@.len(),
            items == Seq::new(v@.len(), |i: int| json_string_text(string_views(v@)[i])),
            body@ == join_lines(items.take(i as int), ","@),
        decreases v@.len() - i,
    {
        if i > 0 {
            push_str(&mut body, ",");
        }
        let q = json_quote(v[i].as_str());
        push_str(&mut body, q.as_str());
        proof {
            assert(items.take(i + 1).drop_last() =~= items.take(i as int));
            assert(items.take(i + 1).last() == json_string_text(v@[i as int]@));
            if i == 0 {
                assert(items.take(1).len() == 1);
            }
        }
        i += 1;
    }
    assert(items.take(v@.len() as int) =~= items);
    let mut r = "[".to_owned();
    push_str(&mut r, body.as_str());
    push_str(&mut r, "]");
    r
}

/// A repository found on disk: the names of its server, organization and
/// repository directories.
pub struct LocalRepo {
    pub server: String,
    pub org: String,
    pub repo: String,
}

/// The names of local repositories, `server/org/repo` each.
pub open spec fn local_repo_names(v: Seq<LocalRepo>) -> Seq<Seq<char>> {
    Seq::new(v.len(), |i: int| v[i].server@ + "/"@ + v[i].org@ + "/"@ + v[i].repo@)
}

/// The listing of local repositories as a JSON list of `server/org/repo`.
pub fn list_local_repos_text(v: &Vec<LocalRepo>) -> (r: String)
    ensures
        r@ == string_list_json(local_repo_names(v@)),
{
    let mut names: Vec<String> = Vec::new();
    let mut i: usize = 0;
    while i < v.len()
        invariant
            i <= v@.len(),
            string_views(names@) == local_repo_names(v@).take(i as int),
        decreases v@.len() - i,
    {
        let ghost before = names@;
        let mut n = v[i].server.clone();
        push_str(&mut n, "/");
        push_str(&mut n, v[i].org.as_str());
        push_str(&mut n, "/");
        push_str(&mut n, v[i].repo.as_str());
        names.push(n);
        proof {
            crate::text::lemma_string_views_push(before, names@.last());
            assert(names@ == before.push(names@.last()));
            assert(local_repo_names(v@).take(i + 1) =~= local_repo_names(v@).take(i as int).push(local_repo_names(v@)[i as int]));
        }
        i += 1;
    }
    assert(local_repo_names(v@).take(v@.len() as int) =~= local_repo_names(v@));
    string_list_text(&names)
}

// ---------------------------------------------------------------- log

/// A commit as the log reports it.
pub struct CommitRecord {
    pub id: String,
    pub author: String,
    pub date: String,
    pub message: String,
}

/// A commit record as serde_json prints it.
pub open spec fn commit_json(c: CommitRecord) -> Seq<char> {
    "{\"id\":"@ + json_string_text(c.id@) + ",\"author\":"@ + json_string_text(c.author@) + ",\"date\":"@
        + json_string_text(c.date@) + ",\"message\":"@ + json_string_text(c.message@) + "}"@
}

/// The commit log as serde_json prints the list of records.
pub open spec fn commits_json(v: Seq<CommitRecord>) -> Seq<char> {
    "["@ + join_lines(Seq::new(v.len(), |i: int| commit_json(v[i])), ","@) + "]"@
}

/// The commit log as JSON text.
pub fn commit_log_text(v: &Vec<CommitRecord>) -> (r: String)
    ensures
        r@ == commits_json(v@),
{
    let ghost items = Seq::new(v@.len(), |i: int| commit_json(v@[i]));
    let mut body = String::new();
    let mut i: usize = 0;
    while i < v.len()
        invariant
            i <= v@.len(),
            items == Seq::new(v@.len(), |i: int| commit_json(v@[i])),
            body@ == join_lines(items.take(i as int), ","@),
        decreases v@.len() - i,
    {
        if i > 0 {
            push_str(&mut body, ",");
        }
        let c = &v[i];
        push_str(&mut body, "{\"id\":");
        let q1 = json_quote(c.id.as_str());
        push_str(&mut body, q1.as_str());
        push_str(&mut body, ",\"author\":");
        let q2 = json_quote(c.author.as_str());
        push_str(&mut body, q2.as_str());
        push_str(&mut body, ",\"date\":");
        let q3 = json_quote(c.date.as_str());
        push_str(&mut body, q3.as_str());
        push_str(&mut body, ",\"message\":");
        let q4 = json_quote(c.message.as_str());
        push_str(&mut body, q4.as_str());
        push_str(&mut body, "}");
        proof {
            assert(items.take(i + 1).drop_last() =~= items.take(i as int));
            assert(items.take(i + 1).last() == commit_json(v@[i as int]));
            if i == 0 {
                assert(items.take(1).len() == 1);
            }
        }
        i += 1;
    }
    assert(items.take(v@.len() as int) =~= items);
    let mut r = "[".to_owned();
    push_str(&mut r, body.as_str());
    push_str(&mut r, "]");
    r
}

/// The message of a commit, `No Message` when it has none that reads.
pub fn commit_message_or_default(message: Option<String>) -> (r: String)
    ensures
        match message {
            Some(m) => r@ == m@,
            None => r@ == "No Message"@,
        },
{
    match message {
        Some(m) => m,
        None => "No Message".to_owned(),
    }
}

/// The hours and minutes of an offset in minutes, both truncated toward
/// zero as `/` and `%` on integers do.
pub open spec fn offset_parts(offset_minutes: i32) -> (int, int) {
    let o = offset_minutes as int;
    if o >= 0 {
        (o / 60, o % 60)
    } else {
        (-((-o) / 60), -((-o) % 60))
    }
}

/// The format of a commit date in the log.
pub open spec fn commit_date_format() -> Seq<char> {
    "[weekday repr:short] [month repr:short] [day padding:space] [hour]:[minute]:[second] [year] [offset_hour sign:mandatory][offset_minute]"@
}

/// The date of a commit as the log prints it: the commit time at the
/// commit's offset, whose hours and minutes are taken as `i8`, in the
/// format `commit_date_format()`.
pub fn print_time(seconds: i64, offset_minutes: i32) -> (r: Option<String>)
    ensures
        r matches Some(t) ==> commit_time_text(commit_date_format(), seconds, offset_parts(offset_minutes).0 as i8, offset_parts(offset_minutes).1 as i8) == Some(t@),
        r is None ==> commit_time_text(commit_date_format(), seconds, offset_parts(offset_minutes).0 as i8, offset_parts(offset_minutes).1 as i8) is None,
{
    let o: i64 = offset_minutes as i64;
    let (hours, minutes): (i64, i64) = if o >= 0 {
        (o / 60, o % 60)
    } else {
        let a: i64 = -o;
        (-(a / 60), -(a % 60))
    };
    format_commit_time(
        "[weekday repr:short] [month repr:short] [day padding:space] [hour]:[minute]:[second] [year] [offset_hour sign:mandatory][offset_minute]",
        seconds,
        hours as i8,
        minutes as i8,
    )
}

} // verus!
