//! Interface settings: languages, typography and gateway tokens.
use vstd::prelude::*;
use crate::endpoints::net::{MsgQueue, push_message};
use crate::outside::{regex_is_match, regex_match};
use crate::responses::{
    ApiResponse, ContentOrRedirect, bad_response, is_bad, is_bad_content, is_json_text, is_redirect_to, is_ok_ok,
    json_quote, json_string_text, ok_json_response, ok_ok_json_response, STATUS_BAD_REQUEST,
    STATUS_INTERNAL_SERVER_ERROR, STATUS_OK,
};
use crate::string_map::StringMap;
use crate::structs::{AppSettings, Typography, TypographyFeature};
use crate::endpoints::content::{join_lines, join_strings};
use crate::text::{concat2, decimal, push_decimal, push_str, split_on, split_chars, string_views, str_eq};

verus! {

// ---------------------------------------------------------------- languages

/// The pattern a user interface language code must match.
pub open spec fn language_code_pattern() -> Seq<char> {
    "^[a-z]{2,3}$"@
}

/// Whether a language code is accepted: the pattern matches it.
pub open spec fn accepted_language(code: Seq<char>) -> bool {
    regex_match(language_code_pattern(), code) == Some(true)
}

/// The first segment that is not an accepted language code, if any.
pub open spec fn first_bad_language(items: Seq<Seq<char>>) -> Option<int> {
    if exists|i: int| 0 <= i < items.len() && !accepted_language(items[i]) {
        Some(choose|i: int| 0 <= i < items.len() && !accepted_language(items[i])
            && forall|j: int| 0 <= j < i ==> accepted_language(#[trigger] items[j]))
    } else {
        None
    }
}

/// Sets the interface languages from a path of language codes separated by
/// `/`. Every code must match `^[a-z]{2,3}$`; otherwise the reply names the
/// first that does not and the languages are unchanged. On success the
/// languages are replaced and `None` is returned: the settings file is then
/// written (see `user_settings_write_response`).
pub fn post_languages(languages: &mut Vec<String>, path: &str) -> (r: Option<ApiResponse>)
    ensures
        ({
            let items = split_chars(path@, '/');
            match r {
                None => (forall|i: int| 0 <= i < items.len() ==> accepted_language(#[trigger] items[i]))
                    && string_views(final(languages)@) == items,
                Some(e) => exists|i: int|
                    0 <= i < items.len() && !accepted_language(items[i])
                        && (forall|j: int| 0 <= j < i ==> accepted_language(#[trigger] items[j]))
                        && is_bad(e, STATUS_BAD_REQUEST, "Bad language code: "@ + items[i])
                        && final(languages)@ == old(languages)@,
            }
        }),
{
    let items = split_on(path, '/');
    let mut i: usize = 0;
    while i < items.len()
        invariant
            i <= items@.len(),
            items@.len() == split_chars(path@, '/').len(),
            forall|k: int| 0 <= k < items@.len() ==> #[trigger] items@[k]@ == split_chars(path@, '/')[k],
            forall|k: int| 0 <= k < i ==> accepted_language(#[trigger] split_chars(path@, '/')[k]),
            *languages == *old(languages),
        decreases items@.len() - i,
    {
        let ok = regex_is_match("^[a-z]{2,3}$", items[i].as_str());
        let good = match ok {
            Some(b) => b,
            None => false,
        };
        if !good {
            let reason = concat2("Bad language code: ", items[i].as_str());
            return Some(bad_response(STATUS_BAD_REQUEST, reason));
        }
        assert(accepted_language(split_chars(path@, '/')[i as int]));
        i += 1;
    }
    *languages = items;
    assert(string_views(languages@) =~= split_chars(path@, '/'));
    None
}

/// Setting the languages and then asking for them: when every code of the
/// path is accepted, the languages set are the path's codes in order, and
/// the language reply lists exactly those codes, in that order, each as a
/// JSON string.
pub proof fn law_languages_reply_lists_set_codes(path: Seq<char>, languages: Seq<String>)
    requires
        forall|i: int| 0 <= i < split_chars(path, '/').len() ==> accepted_language(#[trigger] split_chars(path, '/')[i]),
        string_views(languages) == split_chars(path, '/'),
    ensures
        crate::endpoints::git::string_list_json(string_views(languages)) == "["@ + join_lines(
            Seq::new(split_chars(path, '/').len(), |i: int| json_string_text(split_chars(path, '/')[i])),
            ","@,
        ) + "]"@,
{
}

/// The reply once the user settings have been written, or have failed to
/// be with error text `error`.
pub fn user_settings_write_response(outcome: Result<(), String>, error_status: u16) -> (r: ApiResponse)
    ensures
        match outcome {
            Ok(_) => is_ok_ok(r),
            Err(e) => is_bad(r, error_status, "Could not write out user settings: "@ + e@),
        },
{
    match outcome {
        Ok(_) => ok_ok_json_response(),
        Err(e) => bad_response(error_status, concat2("Could not write out user settings: ", e.as_str())),
    }
}

// ---------------------------------------------------------------- typography

/// Sets the font set, size and direction of the interface, keeping the font
/// feature settings, and announces the change. The settings file is then
/// written (see `user_settings_write_response`).
pub fn post_typography(typography: &mut Typography, msgs: &mut MsgQueue, font_set: &str, size: &str, direction: &str)
    ensures
        final(typography).font_set@ == font_set@,
        final(typography).size@ == size@,
        final(typography).direction@ == direction@,
        final(typography).features == old(typography).features,
        string_views(final(msgs)@) == string_views(old(msgs)@).push("info--3--typography--change"@),
{
    typography.font_set = font_set.to_owned();
    typography.size = size.to_owned();
    typography.direction = direction.to_owned();
    push_message(msgs, "info--3--typography--change");
}

/// A font's feature list with feature `feature` set to `value`.
pub open spec fn with_feature(fields: Seq<TypographyFeature>, feature: Seq<char>, value: u8) -> Seq<TypographyFeature> {
    Seq::new(
        fields.len(),
        |i: int| if fields[i].key@ == feature {
            TypographyFeature { key: fields[i].key, value }
        } else {
            fields[i]
        },
    )
}

/// Sets `feature` to `value` in a font's feature list (every field with that
/// key; the others are unchanged).
pub fn set_feature(fields: &Vec<TypographyFeature>, feature: &str, value: u8) -> (r: Vec<TypographyFeature>)
    ensures
        r@ == with_feature(fields@, feature@, value),
{
    let mut r: Vec<TypographyFeature> = Vec::new();
    let mut i: usize = 0;
    while i < fields.len()
        invariant
            i <= fields@.len(),
            r@ == with_feature(fields@, feature@, value).take(i as int),
        decreases fields@.len() - i,
    {
        let f = &fields[i];
        if str_eq(f.key.as_str(), feature) {
            r.push(TypographyFeature { key: f.key.clone(), value });
        } else {
            r.push(f.copy());
        }
        assert(with_feature(fields@, feature@, value).take(i + 1) =~= with_feature(fields@, feature@, value).take(i as int).push(r@[i as int]));
        i += 1;
    }
    assert(with_feature(fields@, feature@, value).take(fields@.len() as int) =~= with_feature(fields@, feature@, value));
    r
}

/// The feature list that setting `feature` to `value` in font `font_name`
/// gives, when that font has feature settings; its style sheet is rewritten
/// from this list before the change is made.
pub fn plan_typography_feature(typography: &Typography, font_name: &str, feature: &str, value: u8) -> (r: Option<Vec<TypographyFeature>>)
    requires
        typography.features.wf(),
    ensures
        match r {
            Some(f) => typography.features@.dom().contains(font_name@)
                && f@ == with_feature(typography.features@[font_name@]@, feature@, value),
            None => !typography.features@.dom().contains(font_name@),
        },
{
    match typography.features.get(font_name) {
        Some(fields) => Some(set_feature(fields, feature, value)),
        None => None,
    }
}

/// Sets feature `feature` of font `font_name` to `value`, keeping everything
/// else, and announces the change. Unknown fonts and features change nothing
/// but are still announced. The settings file is then written.
pub fn post_typography_feature(typography: &mut Typography, msgs: &mut MsgQueue, font_name: &str, feature: &str, value: u8)
    requires
        old(typography).features.wf(),
    ensures
        final(typography).features.wf(),
        final(typography).font_set == old(typography).font_set,
        final(typography).size == old(typography).size,
        final(typography).direction == old(typography).direction,
        final(typography).features@.dom() == old(typography).features@.dom(),
        forall|k: Seq<char>| #[trigger] final(typography).features@.dom().contains(k) ==>
            final(typography).features@[k]@ == (if k == font_name@ {
                with_feature(old(typography).features@[k]@, feature@, value)
            } else {
                old(typography).features@[k]@
            }),
        string_views(final(msgs)@) == string_views(old(msgs)@).push("info--3--typography-feature--change"@),
{
    match plan_typography_feature(typography, font_name, feature, value) {
        Some(fields) => {
            let ghost before = typography.features@;
            typography.features.insert(font_name.to_owned(), fields);
            assert(typography.features@.dom() =~= before.dom());
        },
        None => {},
    }
    push_message(msgs, "info--3--typography-feature--change");
}

/// The reply when a font's style sheet could not be rewritten.
pub fn css_error_response(error: &str, status: u16) -> (r: ApiResponse)
    ensures
        is_bad(r, status, "Could not rewrite CSS: "@ + error@),
{
    bad_response(status, concat2("Could not rewrite CSS: ", error))
}

/// Setting a feature twice to the same value is the same as setting it once.
pub proof fn law_set_feature_idempotent(fields: Seq<TypographyFeature>, feature: Seq<char>, value: u8)
    ensures
        with_feature(with_feature(fields, feature, value), feature, value) == with_feature(fields, feature, value),
{
    assert(with_feature(with_feature(fields, feature, value), feature, value) =~= with_feature(fields, feature, value));
}

/// Setting a feature changes only the fields with that key, and only their
/// value: keys, order and length are kept.
pub proof fn law_set_feature_keeps_keys(fields: Seq<TypographyFeature>, feature: Seq<char>, value: u8)
    ensures
        with_feature(fields, feature, value).len() == fields.len(),
        forall|i: int| 0 <= i < fields.len() ==> (#[trigger] with_feature(fields, feature, value)[i]).key == fields[i].key,
        forall|i: int| 0 <= i < fields.len() && fields[i].key@ != feature ==> with_feature(fields, feature, value)[i] == #[trigger] fields[i],
        forall|i: int| 0 <= i < fields.len() && fields[i].key@ == feature ==> (#[trigger] with_feature(fields, feature, value)[i]).value == value,
{
}

// ---------------------------------------------------------------- gateway tokens

/// The token held for gateway `token_key`, as `{"code":<token>,"is_good":true}`;
/// 400 for an unknown gateway or when no token is held.
pub fn get_auth_token(state: &AppSettings, token_key: &str) -> (r: ApiResponse)
    requires
        state.wf(),
    ensures
        !state.gitea_endpoints@.dom().contains(token_key@) ==> is_bad(r, STATUS_BAD_REQUEST, "Unknown GITEA endpoint name: "@ + token_key@),
        state.gitea_endpoints@.dom().contains(token_key@) && !state.auth_tokens@.dom().contains(token_key@)
            ==> is_bad(r, STATUS_BAD_REQUEST, "Could not find record for token key '"@ + token_key@ + "'"@),
        state.gitea_endpoints@.dom().contains(token_key@) && state.auth_tokens@.dom().contains(token_key@)
            ==> is_json_text(r, STATUS_OK, "{\"code\":"@ + json_string_text(state.auth_tokens@[token_key@]@) + ",\"is_good\":true}"@),
{
    if !state.gitea_endpoints.contains_key(token_key) {
        return bad_response(STATUS_BAD_REQUEST, concat2("Unknown GITEA endpoint name: ", token_key));
    }
    match state.auth_tokens.get(token_key) {
        Some(code) => {
            let mut t = "{\"code\":".to_owned();
            let q = json_quote(code.as_str());
            crate::text::push_str(&mut t, q.as_str());
            crate::text::push_str(&mut t, ",\"is_good\":true}");
            ok_json_response(t)
        },
        None => bad_response(
            STATUS_BAD_REQUEST,
            crate::text::concat3("Could not find record for token key '", token_key, "'"),
        ),
    }
}


/// The views of the values of a string map.
pub open spec fn value_views(m: Map<Seq<char>, String>) -> Map<Seq<char>, Seq<char>> {
    m.map_values(|s: String| s@)
}

/// A change to make to the client's cookies.
pub enum CookieChange {
    Add { name: String, value: String },
    Remove { name: String },
}

/// The outcome of a gateway's authentication landing: the reply, and the
/// cookie change to make with it.
pub struct AuthTokenOutcome {
    pub reply: ContentOrRedirect,
    pub cookie: Option<CookieChange>,
}

/// The name of the cookie that holds a gateway's code.
pub open spec fn code_cookie_name(token_key: Seq<char>) -> Seq<char> {
    token_key + "_code"@
}

/// How a gateway's authentication landing is answered.
pub enum AuthStep {
    UnknownEndpoint,
    NoRequest,
    BadClientCode,
    Accepted { redirect: Seq<char> },
}

/// The answer to a landing for gateway `token_key` with client code
/// `client_code`: the gateway must be known, a login must be pending for it,
/// and the client code must be the one issued for that login.
pub open spec fn auth_step(
    endpoints: Map<Seq<char>, String>,
    requests: Map<Seq<char>, crate::structs::AuthRequest>,
    token_key: Seq<char>,
    client_code: Seq<char>,
) -> AuthStep {
    if !endpoints.dom().contains(token_key) {
        AuthStep::UnknownEndpoint
    } else if !requests.dom().contains(token_key) {
        AuthStep::NoRequest
    } else if requests[token_key].code@ != client_code {
        AuthStep::BadClientCode
    } else {
        AuthStep::Accepted { redirect: "/"@ + requests[token_key].redirect_uri@ }
    }
}

/// The token map after a landing that `step` answers with code `code`.
pub open spec fn tokens_after(step: AuthStep, tokens: Map<Seq<char>, Seq<char>>, token_key: Seq<char>, code: Seq<char>) -> Map<Seq<char>, Seq<char>> {
    match step {
        AuthStep::Accepted { .. } => if code.len() == 0 {
            tokens.remove(token_key)
        } else {
            tokens.insert(token_key, code)
        },
        _ => tokens,
    }
}

/// The pending logins after a landing that `step` answers.
pub open spec fn requests_after<R>(step: AuthStep, requests: Map<Seq<char>, R>, token_key: Seq<char>) -> Map<Seq<char>, R> {
    match step {
        AuthStep::Accepted { .. } => requests.remove(token_key),
        _ => requests,
    }
}

/// The landing URL of a gateway's authentication. When the gateway is known,
/// a login is pending for it and `client_code` is the one issued for it, the
/// pending login is consumed, the token is stored (or cleared when `code` is
/// empty) with the matching cookie change, and the client is redirected to
/// where the login started. Otherwise a 400 reply says why and nothing
/// changes.
pub fn get_new_auth_token(state: &mut AppSettings, token_key: &str, code: &str, client_code: &str) -> (r: AuthTokenOutcome)
    requires
        old(state).wf(),
    ensures
        final(state).wf(),
        ({
            let step = auth_step(old(state).gitea_endpoints@, old(state).auth_requests@, token_key@, client_code@);
            &&& value_views(final(state).auth_tokens@) == tokens_after(step, value_views(old(state).auth_tokens@), token_key@, code@)
            &&& final(state).auth_requests@ == requests_after(step, old(state).auth_requests@, token_key@)
            &&& final(state).gitea_endpoints == old(state).gitea_endpoints
            &&& final(state).typography == old(state).typography
            &&& final(state).languages == old(state).languages
            &&& match step {
                AuthStep::UnknownEndpoint => r.cookie is None
                    && is_bad_content(r.reply, STATUS_BAD_REQUEST, "Unknown GITEA endpoint name: "@ + token_key@),
                AuthStep::NoRequest => r.cookie is None
                    && is_bad_content(r.reply, STATUS_BAD_REQUEST, "No record auth request found for "@ + token_key@),
                AuthStep::BadClientCode => r.cookie is None
                    && is_bad_content(r.reply, STATUS_BAD_REQUEST, "Invalid client code for "@ + token_key@),
                AuthStep::Accepted { redirect } => is_redirect_to(r.reply, redirect)
                    && if code@.len() == 0 {
                        r.cookie == Some(CookieChange::Remove { name: r.cookie->0->Remove_name })
                            && r.cookie->0->Remove_name@ == code_cookie_name(token_key@)
                    } else {
                        r.cookie == Some(CookieChange::Add { name: r.cookie->0->Add_name, value: r.cookie->0->Add_value })
                            && r.cookie->0->Add_name@ == code_cookie_name(token_key@)
                            && r.cookie->0->Add_value@ == code@
                    },
            }
        }),
{
    if !state.gitea_endpoints.contains_key(token_key) {
        let e = bad_response(STATUS_BAD_REQUEST, concat2("Unknown GITEA endpoint name: ", token_key));
        return AuthTokenOutcome { reply: ContentOrRedirect::Content(e), cookie: None };
    }
    let redirect = match state.auth_requests.get(token_key) {
        None => {
            let e = bad_response(STATUS_BAD_REQUEST, concat2("No record auth request found for ", token_key));
            return AuthTokenOutcome { reply: ContentOrRedirect::Content(e), cookie: None };
        },
        Some(req) => {
            if !str_eq(req.code.as_str(), client_code) {
                let e = bad_response(STATUS_BAD_REQUEST, concat2("Invalid client code for ", token_key));
                return AuthTokenOutcome { reply: ContentOrRedirect::Content(e), cookie: None };
            }
            concat2("/", req.redirect_uri.as_str())
        },
    };
    state.auth_requests.remove(token_key);
    let name = concat2(token_key, "_code");
    let ghost before = state.auth_tokens@;
    let cookie = if code.is_empty() {
        state.auth_tokens.remove(token_key);
        assert(value_views(state.auth_tokens@) =~= value_views(before).remove(token_key@));
        CookieChange::Remove { name }
    } else {
        state.auth_tokens.insert(token_key.to_owned(), code.to_owned());
        assert(value_views(state.auth_tokens@) =~= value_views(before).insert(token_key@, code@));
        CookieChange::Add { name, value: code.to_owned() }
    };
    AuthTokenOutcome { reply: ContentOrRedirect::Redirect(redirect), cookie: Some(cookie) }
}

/// A pending login is consumed by the landing that accepts it: a second
/// landing with the same client code finds no pending login and is refused.
pub proof fn law_auth_landing_not_replayable(
    endpoints: Map<Seq<char>, String>,
    requests: Map<Seq<char>, crate::structs::AuthRequest>,
    token_key: Seq<char>,
    client_code: Seq<char>,
)
    requires
        auth_step(endpoints, requests, token_key, client_code) is Accepted,
    ensures
        auth_step(
            endpoints,
            requests_after(auth_step(endpoints, requests, token_key, client_code), requests, token_key),
            token_key,
            client_code,
        ) == AuthStep::NoRequest,
{
}

/// An accepted landing with a non-empty code stores that code as the
/// gateway's token; other gateways' tokens are unchanged.
pub proof fn law_accepted_landing_stores_token(
    step: AuthStep,
    tokens: Map<Seq<char>, Seq<char>>,
    token_key: Seq<char>,
    code: Seq<char>,
    other: Seq<char>,
)
    requires
        step is Accepted,
        code.len() > 0,
        other != token_key,
    ensures
        tokens_after(step, tokens, token_key, code)[token_key] == code,
        tokens_after(step, tokens, token_key, code).dom().contains(other) == tokens.dom().contains(other),
        tokens.dom().contains(other) ==> tokens_after(step, tokens, token_key, code)[other] == tokens[other],
{
}

// ---------------------------------------------------------------- font style sheets

/// One feature setting as CSS writes it: `"<key>" <value>`.
pub open spec fn feature_setting_text(f: TypographyFeature) -> Seq<char> {
    "\""@ + f.key@ + "\" "@ + decimal(f.value as nat)
}

/// The style sheet of a font with its feature settings: the source style
/// sheet, then a rule for the font's class that sets its features, joined
/// by `, `.
pub open spec fn font_css(css: Seq<char>, font_name: Seq<char>, fields: Seq<TypographyFeature>) -> Seq<char> {
    css + "\n."@ + font_name + " { font-feature-settings: "@
        + join_lines(Seq::new(fields.len(), |i: int| feature_setting_text(fields[i])), ", "@) + "; }\n"@
}

/// The style sheet of a font with its feature settings.
pub fn font_css_text(css: &str, font_name: &str, fields: &Vec<TypographyFeature>) -> (r: String)
    ensures
        r@ == font_css(css@, font_name@, fields@),
{
    let mut items: Vec<String> = Vec::new();
    let mut i: usize = 0;
    while i < fields.len()
        invariant
            i <= fields@.len(),
            string_views(items@) == Seq::new(i as nat, |j: int| feature_setting_text(fields@[j])),
        decreases fields@.len() - i,
    {
        let f = &fields[i];
        let mut t = "\"".to_owned();
        push_str(&mut t, f.key.as_str());
        push_str(&mut t, "\" ");
        push_decimal(&mut t, f.value as u64);
        let ghost before = items@;
        items.push(t);
        proof {
            crate::text::lemma_string_views_push(before, items@.last());
            assert(items@ == before.push(items@.last()));
            assert(string_views(items@) =~= Seq::new((i + 1) as nat, |j: int| feature_setting_text(fields@[j])));
        }
        i += 1;
    }
    let body = join_strings(&items, ", ");
    let mut r = css.to_owned();
    push_str(&mut r, "\n.");
    push_str(&mut r, font_name);
    push_str(&mut r, " { font-feature-settings: ");
    push_str(&mut r, body.as_str());
    push_str(&mut r, "; }\n");
    proof {
        assert(Seq::new(i as nat, |j: int| feature_setting_text(fields@[j]))
            =~= Seq::new(fields@.len(), |j: int| feature_setting_text(fields@[j])));
    }
    r
}

} // verus!
