//! Gitea gateways: logging in and out through a gateway, and listing what a
//! gitea server offers.
use vstd::prelude::*;
use crate::json::{Json, JsonValue, index_key, view_items, lemma_view_items, lemma_view_members_eq};
use crate::outside::{new_uuid_string, now_unix_seconds};
use crate::responses::{
    ApiResponse, ContentOrRedirect, bad_response, is_bad, is_bad_content, is_redirect_to,
    not_ok_offline_json_response, ok_json_response, is_json_text, json_payload_response, offline_reason,
    Body, STATUS_BAD_GATEWAY, STATUS_BAD_REQUEST, STATUS_INTERNAL_SERVER_ERROR, STATUS_OK,
    STATUS_UNAUTHORIZED,
};
use crate::endpoints::settings::{CookieChange, code_cookie_name, value_views, auth_step, AuthStep};
use crate::string_map::StringMap;
use crate::structs::{AppSettings, AuthRequest, RemoteRepoRecord};
use crate::text::{concat2, concat3, push_str};

verus! {

/// The gateway endpoints as a JSON object, in the map's order.
pub open spec fn endpoints_json(entries: Seq<(Seq<char>, String)>) -> Json {
    Json::Object(Seq::new(entries.len(), |i: int| (entries[i].0, Json::Str(entries[i].1@))))
}

/// The known gateway endpoints, as an object from name to URL.
pub fn get_gitea_endpoints(state: &AppSettings) -> (r: ApiResponse)
    requires
        state.wf(),
    ensures
        r.status == STATUS_OK,
        r.body@ == Body::Document(endpoints_json(state.gitea_endpoints.entries())),
{
    let n = state.gitea_endpoints.len();
    let mut out: Vec<(String, JsonValue)> = Vec::new();
    let mut i: usize = 0;
    while i < n
        invariant
            i <= n,
            n == state.gitea_endpoints.entries().len(),
            out@.len() == i,
            forall|k: int| 0 <= k < i ==> ((#[trigger] out@[k]).0@, out@[k].1@) == (
                state.gitea_endpoints.entries()[k].0,
                Json::Str(state.gitea_endpoints.entries()[k].1@),
            ),
        decreases n - i,
    {
        let (k, v) = state.gitea_endpoints.entry_at(i);
        out.push((k.clone(), JsonValue::Str(v.clone())));
        i += 1;
    }
    proof {
        let target = Seq::new(
            n as nat,
            |k: int| (state.gitea_endpoints.entries()[k].0, Json::Str(state.gitea_endpoints.entries()[k].1@)),
        );
        lemma_view_members_eq(out@, target);
    }
    json_payload_response(STATUS_OK, JsonValue::Object(out))
}

/// The URL a login through a gateway redirects to.
pub open spec fn login_redirect(endpoint: Seq<char>, code: Seq<char>) -> Seq<char> {
    endpoint + "/auth?client_code="@ + code + "&redir_path=%2F"@
}

/// Starts a login through gateway `token_key`, with client code `code`
/// issued at time `timestamp`: any token held for the gateway is dropped,
/// the login is recorded as pending with the path to return to, and the
/// client is sent to the gateway. Refused while offline (401) and for an
/// unknown gateway (400), changing nothing.
pub fn gitea_proxy_login_with(
    state: &mut AppSettings,
    net_enabled: bool,
    token_key: &str,
    redir_path: &str,
    code: String,
    timestamp: u64,
) -> (r: ContentOrRedirect)
    requires
        old(state).wf(),
    ensures
        final(state).wf(),
        final(state).gitea_endpoints == old(state).gitea_endpoints,
        final(state).typography == old(state).typography,
        !net_enabled ==> is_bad_content(r, STATUS_UNAUTHORIZED, offline_reason())
            && final(state).auth_tokens@ == old(state).auth_tokens@
            && final(state).auth_requests@ == old(state).auth_requests@,
        net_enabled && !old(state).gitea_endpoints@.dom().contains(token_key@) ==> is_bad_content(
            r,
            STATUS_BAD_REQUEST,
            "Unknown GITEA endpoint name: "@ + token_key@,
        ) && final(state).auth_tokens@ == old(state).auth_tokens@
            && final(state).auth_requests@ == old(state).auth_requests@,
        net_enabled && old(state).gitea_endpoints@.dom().contains(token_key@) ==> {
            &&& final(state).auth_tokens@ == old(state).auth_tokens@.remove(token_key@)
            &&& final(state).auth_requests@.dom() == old(state).auth_requests@.dom().insert(token_key@)
            &&& final(state).auth_requests@[token_key@].code@ == code@
            &&& final(state).auth_requests@[token_key@].redirect_uri@ == redir_path@
            &&& final(state).auth_requests@[token_key@].timestamp == timestamp
            &&& forall|k: Seq<char>| k != token_key@ && #[trigger] old(state).auth_requests@.dom().contains(k)
                ==> final(state).auth_requests@[k] == old(state).auth_requests@[k]
            &&& is_redirect_to(r, login_redirect(old(state).gitea_endpoints@[token_key@]@, code@))
        },
{
    if !net_enabled {
        return ContentOrRedirect::Content(not_ok_offline_json_response());
    }
    let endpoint = match state.gitea_endpoints.get(token_key) {
        Some(e) => e.clone(),
        None => {
            let e = bad_response(STATUS_BAD_REQUEST, concat2("Unknown GITEA endpoint name: ", token_key));
            return ContentOrRedirect::Content(e);
        },
    };
    state.auth_tokens.remove(token_key);
    let mut to = concat3(endpoint.as_str(), "/auth?client_code=", code.as_str());
    push_str(&mut to, "&redir_path=%2F");
    state.auth_requests.remove(token_key);
    let req = AuthRequest { code, redirect_uri: redir_path.to_owned(), timestamp };
    state.auth_requests.insert(token_key.to_owned(), req);
    ContentOrRedirect::Redirect(to)
}

/// Starts a login through gateway `token_key` (see `gitea_proxy_login_with`)
/// with a fresh random client code and the current time. Whatever code was
/// drawn, the pending login holds it and the redirect carries it.
pub fn gitea_proxy_login(state: &mut AppSettings, net_enabled: bool, token_key: &str, redir_path: &str) -> (r: ContentOrRedirect)
    requires
        old(state).wf(),
    ensures
        final(state).wf(),
        final(state).gitea_endpoints == old(state).gitea_endpoints,
        !net_enabled ==> is_bad_content(r, STATUS_UNAUTHORIZED, offline_reason())
            && final(state).auth_tokens@ == old(state).auth_tokens@
            && final(state).auth_requests@ == old(state).auth_requests@,
        net_enabled && !old(state).gitea_endpoints@.dom().contains(token_key@) ==> is_bad_content(
            r,
            STATUS_BAD_REQUEST,
            "Unknown GITEA endpoint name: "@ + token_key@,
        ) && final(state).auth_tokens@ == old(state).auth_tokens@
            && final(state).auth_requests@ == old(state).auth_requests@,
        net_enabled && old(state).gitea_endpoints@.dom().contains(token_key@) ==> {
            &&& final(state).auth_tokens@ == old(state).auth_tokens@.remove(token_key@)
            &&& final(state).auth_requests@.dom() == old(state).auth_requests@.dom().insert(token_key@)
            &&& final(state).auth_requests@[token_key@].redirect_uri@ == redir_path@
            &&& forall|k: Seq<char>| k != token_key@ && #[trigger] old(state).auth_requests@.dom().contains(k)
                ==> final(state).auth_requests@[k] == old(state).auth_requests@[k]
            &&& is_redirect_to(
                r,
                login_redirect(old(state).gitea_endpoints@[token_key@]@, final(state).auth_requests@[token_key@].code@),
            )
        },
{
    let code = new_uuid_string();
    let now = now_unix_seconds();
    gitea_proxy_login_with(state, net_enabled, token_key, redir_path, code, now)
}

/// A login started through a gateway is completed by the gateway's landing
/// with the issued client code: the landing is accepted and returns the
/// client to the path where the login started.
pub proof fn law_login_then_landing_accepted(
    endpoints: Map<Seq<char>, String>,
    requests: Map<Seq<char>, AuthRequest>,
    token_key: Seq<char>,
    code: Seq<char>,
    redir_path: Seq<char>,
)
    requires
        endpoints.dom().contains(token_key),
        requests.dom().contains(token_key),
        requests[token_key].code@ == code,
        requests[token_key].redirect_uri@ == redir_path,
    ensures
        auth_step(endpoints, requests, token_key, code) == (AuthStep::Accepted { redirect: "/"@ + redir_path }),
{
}

/// The URL that logs out of gateway `token_key` for the client whose code
/// cookie holds `cookie_code`; refused while offline (401) and for an
/// unknown gateway (400).
pub fn gitea_logout_request(state: &AppSettings, net_enabled: bool, token_key: &str, cookie_code: &str) -> (r: Result<String, ContentOrRedirect>)
    requires
        state.wf(),
    ensures
        match r {
            Ok(url) => net_enabled && state.gitea_endpoints@.dom().contains(token_key@)
                && url@ == state.gitea_endpoints@[token_key@]@ + "/logout?client_code="@ + cookie_code@,
            Err(e) => if !net_enabled {
                is_bad_content(e, STATUS_UNAUTHORIZED, offline_reason())
            } else {
                !state.gitea_endpoints@.dom().contains(token_key@)
                    && is_bad_content(e, STATUS_BAD_REQUEST, "Unknown GITEA endpoint name: "@ + token_key@)
            },
        },
{
    if !net_enabled {
        return Err(ContentOrRedirect::Content(not_ok_offline_json_response()));
    }
    match state.gitea_endpoints.get(token_key) {
        Some(e) => Ok(concat3(e.as_str(), "/logout?client_code=", cookie_code)),
        None => Err(ContentOrRedirect::Content(bad_response(STATUS_BAD_REQUEST, concat2("Unknown GITEA endpoint name: ", token_key)))),
    }
}

/// Completes a logout from gateway `token_key` once the gateway answered
/// (`Ok`) or failed (`Err` with its error text): on success the token and
/// its cookie are dropped and the client goes to `/`; on failure a 500
/// reply says so and nothing changes.
pub fn gitea_proxy_logout(state: &mut AppSettings, token_key: &str, outcome: Result<(), String>) -> (r: (ContentOrRedirect, Option<CookieChange>))
    requires
        old(state).wf(),
    ensures
        final(state).wf(),
        final(state).gitea_endpoints == old(state).gitea_endpoints,
        final(state).auth_requests == old(state).auth_requests,
        match outcome {
            Ok(_) => final(state).auth_tokens@ == old(state).auth_tokens@.remove(token_key@)
                && is_redirect_to(r.0, "/"@)
                && r.1 == Some(CookieChange::Remove { name: r.1->0->Remove_name })
                && r.1->0->Remove_name@ == code_cookie_name(token_key@),
            Err(e) => final(state).auth_tokens@ == old(state).auth_tokens@ && r.1 is None
                && is_bad_content(r.0, STATUS_INTERNAL_SERVER_ERROR, "Error on logout from proxy "@ + token_key@ + ": "@ + e@),
        },
{
    match outcome {
        Ok(_) => {
            state.auth_tokens.remove(token_key);
            let name = concat2(token_key, "_code");
            (ContentOrRedirect::Redirect("/".to_owned()), Some(CookieChange::Remove { name }))
        },
        Err(e) => {
            let mut reason = concat3("Error on logout from proxy ", token_key, ": ");
            push_str(&mut reason, e.as_str());
            (ContentOrRedirect::Content(bad_response(STATUS_INTERNAL_SERVER_ERROR, reason)), None)
        },
    }
}

/// The URL that asks gateway `proxy` for the collaborators of a project,
/// with the client's token; refused while offline (401), for an unknown
/// gateway (400) and when no token is held for it (400).
pub fn collaborators_request(state: &AppSettings, net_enabled: bool, proxy: &str, organization: &str, project: &str) -> (r: Result<String, ApiResponse>)
    requires
        state.wf(),
    ensures
        match r {
            Ok(url) => net_enabled && state.gitea_endpoints@.dom().contains(proxy@)
                && state.auth_tokens@.dom().contains(proxy@)
                && url@ == state.gitea_endpoints@[proxy@]@ + "/repos-collaborators?organisation_name="@
                    + organization@ + "&project_name="@ + project@ + "&client_code="@ + state.auth_tokens@[proxy@]@,
            Err(e) => if !net_enabled {
                is_bad(e, STATUS_UNAUTHORIZED, offline_reason())
            } else if !state.gitea_endpoints@.dom().contains(proxy@) {
                is_bad(e, STATUS_BAD_REQUEST, "Unknown GITEA endpoint name: "@ + proxy@)
            } else {
                !state.auth_tokens@.dom().contains(proxy@)
                    && is_bad(e, STATUS_BAD_REQUEST, "Could not find record for proxy '"@ + proxy@ + "'"@)
            },
        },
{
    if !net_enabled {
        return Err(not_ok_offline_json_response());
    }
    let endpoint = match state.gitea_endpoints.get(proxy) {
        Some(e) => e,
        None => {
            return Err(bad_response(STATUS_BAD_REQUEST, concat2("Unknown GITEA endpoint name: ", proxy)));
        },
    };
    match state.auth_tokens.get(proxy) {
        Some(code) => {
            let mut url = concat3(endpoint.as_str(), "/repos-collaborators?organisation_name=", organization);
            push_str(&mut url, "&project_name=");
            push_str(&mut url, project);
            push_str(&mut url, "&client_code=");
            push_str(&mut url, code.as_str());
            Ok(url)
        },
        None => Err(bad_response(STATUS_BAD_REQUEST, concat3("Could not find record for proxy '", proxy, "'"))),
    }
}

/// The reply to a collaborators request once the gateway answered with a
/// body (`Ok`) or failed (`Err` with its error text, a 502 reply).
pub fn get_my_collaborators(proxy: &str, outcome: Result<String, String>) -> (r: ApiResponse)
    ensures
        match outcome {
            Ok(body) => is_json_text(r, STATUS_OK, body@),
            Err(e) => is_bad(r, STATUS_BAD_GATEWAY, "Error from proxy "@ + proxy@ + ": "@ + e@),
        },
{
    match outcome {
        Ok(body) => ok_json_response(body),
        Err(e) => {
            let mut reason = concat3("Error from proxy ", proxy, ": ");
            push_str(&mut reason, e.as_str());
            bad_response(STATUS_BAD_GATEWAY, reason)
        },
    }
}

/// The URL of the repository list of organization `org` on `server`;
/// refused while offline.
pub fn gitea_remote_repos_request(net_enabled: bool, server: &str, org: &str) -> (r: Result<String, ApiResponse>)
    ensures
        match r {
            Ok(url) => net_enabled && url@ == "https://"@ + server@ + "/api/v1/orgs/"@ + org@ + "/repos"@,
            Err(e) => !net_enabled && is_bad(e, STATUS_UNAUTHORIZED, offline_reason()),
        },
{
    if !net_enabled {
        return Err(not_ok_offline_json_response());
    }
    let mut url = concat3("https://", server, "/api/v1/orgs/");
    push_str(&mut url, org);
    push_str(&mut url, "/repos");
    Ok(url)
}

/// The text that member `key` of `j` holds, when it is a string.
pub open spec fn str_member(j: Json, key: Seq<char>) -> Option<Seq<char>> {
    match index_key(j, key) {
        Json::Str(s) => Some(s),
        _ => None,
    }
}

/// The text of member `key`, or the empty text when it is not a string.
pub open spec fn str_member_or_empty(j: Json, key: Seq<char>) -> Seq<char> {
    match str_member(j, key) {
        Some(s) => s,
        None => Seq::empty(),
    }
}

/// A repository record of a gitea listing holds its descriptive fields as
/// strings.
pub open spec fn is_repo_listing_record(j: Json) -> bool {
    &&& str_member(j, "name"@) is Some
    &&& str_member(j, "abbreviation"@) is Some
    &&& str_member(j, "description"@) is Some
    &&& str_member(j, "avatar_url"@) is Some
    &&& str_member(j, "flavor"@) is Some
    &&& str_member(j, "flavor_type"@) is Some
    &&& str_member(j, "language"@) is Some
    &&& str_member(j, "language_direction"@) is Some
}

/// The record that describes a repository of a gitea listing; the branch or
/// tag and the release date come from `catalog.latest` and are empty when
/// absent.
pub open spec fn is_record_of(r: RemoteRepoRecord, j: Json) -> bool {
    let latest = index_key(index_key(j, "catalog"@), "latest"@);
    &&& Some(r.name@) == str_member(j, "name"@)
    &&& Some(r.abbreviation@) == str_member(j, "abbreviation"@)
    &&& Some(r.description@) == str_member(j, "description"@)
    &&& Some(r.avatar_url@) == str_member(j, "avatar_url"@)
    &&& Some(r.flavor@) == str_member(j, "flavor"@)
    &&& Some(r.flavor_type@) == str_member(j, "flavor_type"@)
    &&& Some(r.language_code@) == str_member(j, "language"@)
    &&& Some(r.script_direction@) == str_member(j, "language_direction"@)
    &&& r.branch_or_tag@ == str_member_or_empty(latest, "branch_or_tag_name"@)
    &&& r.clone_url@ == str_member_or_empty(latest, "released"@)
}

/// `value[key]`: the member's value, or null when absent or when `value` is
/// not an object.
pub fn json_index(j: &JsonValue, key: &str) -> (r: JsonValue)
    ensures
        r@ == index_key(j@, key@),
{
    match j.get(key) {
        Some(v) => v.copy(),
        None => JsonValue::Null,
    }
}

fn str_member_exec(j: &JsonValue, key: &str) -> (r: Option<String>)
    ensures
        match r {
            Some(s) => str_member(j@, key@) == Some(s@),
            None => str_member(j@, key@) is None,
        },
{
    match json_index(j, key) {
        JsonValue::Str(s) => Some(s),
        _ => None,
    }
}

fn str_member_or_empty_exec(j: &JsonValue, key: &str) -> (r: String)
    ensures
        r@ == str_member_or_empty(j@, key@),
{
    match str_member_exec(j, key) {
        Some(s) => s,
        None => String::new(),
    }
}

fn required_str(j: &JsonValue, key: &str) -> (r: String)
    requires
        str_member(j@, key@) is Some,
    ensures
        Some(r@) == str_member(j@, key@),
{
    match str_member_exec(j, key) {
        Some(s) => s,
        None => {
            assert(false);
            unreached()
        },
    }
}

/// The record of one repository of a gitea listing.
pub fn remote_repo_record(j: &JsonValue) -> (r: RemoteRepoRecord)
    requires
        is_repo_listing_record(j@),
    ensures
        is_record_of(r, j@),
{
    let catalog = json_index(j, "catalog");
    let latest = json_index(&catalog, "latest");
    RemoteRepoRecord {
        name: required_str(j, "name"),
        abbreviation: required_str(j, "abbreviation"),
        description: required_str(j, "description"),
        avatar_url: required_str(j, "avatar_url"),
        flavor: required_str(j, "flavor"),
        flavor_type: required_str(j, "flavor_type"),
        language_code: required_str(j, "language"),
        script_direction: required_str(j, "language_direction"),
        branch_or_tag: str_member_or_empty_exec(&latest, "branch_or_tag_name"),
        clone_url: str_member_or_empty_exec(&latest, "released"),
    }
}

/// A gitea repository listing: an array of records.
pub open spec fn is_repo_listing(j: Json) -> bool {
    j is Array && forall|i: int| 0 <= i < j->Array_0.len() ==> is_repo_listing_record(#[trigger] j->Array_0[i])
}

/// The records of the repositories of a gitea listing, in its order.
pub fn gitea_remote_repos(listing: &JsonValue) -> (r: Vec<RemoteRepoRecord>)
    requires
        is_repo_listing(listing@),
    ensures
        r@.len() == listing@->Array_0.len(),
        forall|i: int| 0 <= i < r@.len() ==> is_record_of(#[trigger] r@[i], listing@->Array_0[i]),
{
    let items = match listing {
        JsonValue::Array(v) => v,
        _ => {
            assert(false);
            unreached()
        },
    };
    proof {
        lemma_view_items(items@);
    }
    let mut out: Vec<RemoteRepoRecord> = Vec::new();
    let mut i: usize = 0;
    while i < items.len()
        invariant
            i <= items@.len(),
            listing@->Array_0 == view_items(items@),
            is_repo_listing(listing@),
            view_items(items@).len() == items@.len(),
            forall|k: int| 0 <= k < items@.len() ==> #[trigger] view_items(items@)[k] == items@[k]@,
            out@.len() == i,
            forall|k: int| 0 <= k < i ==> is_record_of(#[trigger] out@[k], listing@->Array_0[k]),
        decreases items@.len() - i,
    {
        assert(is_repo_listing_record(listing@->Array_0[i as int]));
        out.push(remote_repo_record(&items[i]));
        i += 1;
    }
    out
}

} // verus!
