//! Small endpoints of the server: shutdown, version, framed clients,
//! temporary files, language models, UI languages and developer settings.
use vstd::prelude::*;
use vstd::utf8::encode_utf8;
use crate::endpoints::content::{byte_len, join_lines};
use crate::endpoints::git::{string_list_json, string_list_text};
use crate::json::{Json, JsonValue, has_key, object_set, set_member, view_members, members_contain};
use crate::outside::{debug_quote, debug_text, new_uuid_string, regex_replace, regex_replace_first};
use crate::paths::{PathPart, check_path_components1, is_normal};
use crate::responses::{
    ApiResponse, Body, ContentKind, ResponseBody, bad_response, is_bad, is_json_text, is_ok_ok,
    json_quote, json_string_text, ok_json_response, ok_ok_json_response, STATUS_BAD_REQUEST, STATUS_OK,
};
use crate::structs::{AppSettings, ProductInfo};
use crate::text::{chars_of, concat2, concat3, decimal, push_decimal, push_str, replace, replace_all, string_views};

verus! {

// ---------------------------------------------------------------- shutdown

/// The reply to a shutdown request, which is answered before the server
/// stops.
pub fn shutdown() -> (r: ApiResponse)
    ensures
        is_ok_ok(r),
{
    ok_ok_json_response()
}

// ---------------------------------------------------------------- version

/// A product resource as the version listing names it: the walked path
/// with `\` turned into `/`, and every occurrence of the resources
/// directory (likewise turned, with a `/` after it) removed.
pub open spec fn resource_name(entry: Seq<char>, root: Seq<char>) -> Seq<char> {
    replace_all(replace_all(entry, "\\"@, "/"@), replace_all(root, "\\"@, "/"@) + "/"@, Seq::empty())
}

/// The name of a product resource, relative to the resources directory.
pub fn product_resource_name(entry: &str, root: &str) -> (r: String)
    ensures
        r@ == resource_name(entry@, root@),
{
    proof {
        reveal_strlit("\\");
        reveal_strlit("/");
        reveal_strlit("");
        assert(""@ =~= Seq::<char>::empty());
    }
    let fixed_root = replace(root, "\\", "/");
    let prefix = concat2(fixed_root.as_str(), "/");
    let fixed = replace(entry, "\\", "/");
    replace(fixed.as_str(), prefix.as_str(), "")
}

/// The version record as serde_json prints `json!({...})`, keys in order:
/// `{"pkg_version","product_date_time","product_name","product_resources",
/// "product_short_name","product_version"}`.
pub open spec fn version_text(pkg_version: Seq<char>, p: ProductInfo, resources: Seq<Seq<char>>) -> Seq<char> {
    "{\"pkg_version\":"@ + json_string_text(pkg_version) + ",\"product_date_time\":"@
        + json_string_text(p.date_time@) + ",\"product_name\":"@ + json_string_text(p.name@)
        + ",\"product_resources\":"@ + string_list_json(resources) + ",\"product_short_name\":"@
        + json_string_text(p.short_name@) + ",\"product_version\":"@ + json_string_text(p.version@) + "}"@
}

/// The reply to a version request: the server's package version, the
/// product's name, short name, version and date, and its resources.
pub fn get_version(pkg_version: &str, settings: &AppSettings, resources: &Vec<String>) -> (r: ApiResponse)
    ensures
        is_json_text(r, STATUS_OK, version_text(pkg_version@, settings.product, string_views(resources@))),
{
    let p = &settings.product;
    let mut t = "{\"pkg_version\":".to_owned();
    push_str(&mut t, json_quote(pkg_version).as_str());
    push_str(&mut t, ",\"product_date_time\":");
    push_str(&mut t, json_quote(p.date_time.as_str()).as_str());
    push_str(&mut t, ",\"product_name\":");
    push_str(&mut t, json_quote(p.name.as_str()).as_str());
    push_str(&mut t, ",\"product_resources\":");
    push_str(&mut t, string_list_text(resources).as_str());
    push_str(&mut t, ",\"product_short_name\":");
    push_str(&mut t, json_quote(p.short_name.as_str()).as_str());
    push_str(&mut t, ",\"product_version\":");
    push_str(&mut t, json_quote(p.version.as_str()).as_str());
    push_str(&mut t, "}");
    ok_json_response(t)
}

// ---------------------------------------------------------------- framed clients

/// The iframe that shows a same-origin path.
pub open spec fn iframe_html(path: Seq<char>) -> Seq<char> {
    "<iframe\n        id=\"Pankosmia framed\"\n        scrolling=\"no\"\n        style=\"width:100%; height: 100%; border:none; margin:0; padding:0; background-color: #FFFFFF\"\n        src=\"/"@
        + path + "\">\n        </iframe>"@
}

/// The page that frames a path, with a top margin and a background colour.
pub open spec fn framed_html(top_margin: u8, background: Seq<char>, path: Seq<char>) -> Seq<char> {
    "<html>\n        <head><title>iFrame</title></head>\n        <body style=\"padding: 0; margin: 0; padding-top: "@
        + decimal(top_margin as nat) + "px; background-color: #"@ + background + "\">"@ + iframe_html(path)
        + "</body>\n        </html>"@
}

/// Whether a character is a hexadecimal digit (either case).
pub open spec fn is_hex_char(c: char) -> bool {
    ('0' <= c && c <= '9') || ('a' <= c && c <= 'f') || ('A' <= c && c <= 'F')
}

/// Whether a colour is six hexadecimal digits.
pub open spec fn is_hex_colour(s: Seq<char>) -> bool {
    s.len() == 6 && forall|i: int| 0 <= i < 6 ==> is_hex_char(#[trigger] s[i])
}

/// Whether `s` is six hexadecimal digits.
pub fn hex_colour(s: &str) -> (r: bool)
    ensures
        r == is_hex_colour(s@),
{
    let v = chars_of(s);
    if v.len() != 6 {
        return false;
    }
    let mut i: usize = 0;
    while i < 6
        invariant
            v@ == s@,
            v@.len() == 6,
            i <= 6,
            forall|j: int| 0 <= j < i ==> is_hex_char(#[trigger] s@[j]),
        decreases 6 - i,
    {
        let c = v[i];
        if !(('0' <= c && c <= '9') || ('a' <= c && c <= 'f') || ('A' <= c && c <= 'F')) {
            assert(!is_hex_char(s@[i as int]));
            return false;
        }
        i += 1;
    }
    true
}

/// The reason given for a background colour that is not six hexadecimal
/// digits.
pub open spec fn bad_background_reason(background: Seq<char>) -> Seq<char> {
    "BG is not 6 hex values: "@ + background
}

/// The reason given for a path that cannot be framed.
pub open spec fn bad_frame_path_reason(path_text: Seq<char>) -> Seq<char> {
    "Bad path: "@ + debug_text(path_text)
}

/// The reply to a framing request for the path `path_text`, whose
/// components are `parts`: 400 unless the colour is six hexadecimal digits, 400 unless
/// the path has at least two components, all plain names; else the page.
pub fn framed_client(top_margin: u8, background_color: &str, parts: &Vec<PathPart>, path_text: &str) -> (r: ApiResponse)
    ensures
        !is_hex_colour(background_color@) ==> is_bad(r, STATUS_BAD_REQUEST, bad_background_reason(background_color@)),
        is_hex_colour(background_color@) && !(parts@.len() >= 2 && forall|i: int| 0 <= i < parts@.len() ==> is_normal(#[trigger] parts@[i]))
            ==> is_bad(r, STATUS_BAD_REQUEST, bad_frame_path_reason(path_text@)),
        is_hex_colour(background_color@) && (parts@.len() >= 2 && forall|i: int| 0 <= i < parts@.len() ==> is_normal(#[trigger] parts@[i]))
            ==> r.status == STATUS_OK && r.content_kind == ContentKind::Html
            && r.body@ == Body::Text(framed_html(top_margin, background_color@, path_text@)),
{
    if !hex_colour(background_color) {
        return bad_response(STATUS_BAD_REQUEST, concat2("BG is not 6 hex values: ", background_color));
    }
    if !check_path_components1(parts, 2) {
        let d = debug_quote(path_text);
        return bad_response(STATUS_BAD_REQUEST, concat2("Bad path: ", d.as_str()));
    }
    let iframe = concat3(
        "<iframe\n        id=\"Pankosmia framed\"\n        scrolling=\"no\"\n        style=\"width:100%; height: 100%; border:none; margin:0; padding:0; background-color: #FFFFFF\"\n        src=\"/",
        path_text,
        "\">\n        </iframe>",
    );
    let mut page = "<html>\n        <head><title>iFrame</title></head>\n        <body style=\"padding: 0; margin: 0; padding-top: ".to_owned();
    push_decimal(&mut page, top_margin as u64);
    push_str(&mut page, "px; background-color: #");
    push_str(&mut page, background_color);
    push_str(&mut page, "\">");
    push_str(&mut page, iframe.as_str());
    push_str(&mut page, "</body>\n        </html>");
    ApiResponse { status: STATUS_OK, content_kind: ContentKind::Html, body: ResponseBody::Text(page) }
}

// ---------------------------------------------------------------- temporary files

/// A new temporary file: its random identifier, where it is stored, and
/// the reply body `{"uuid":<id>}` that names it.
pub struct TempFilePlan {
    pub id: String,
    pub destination: String,
    pub payload: String,
}

/// Where a temporary file is stored: `<working_dir>/temp/<id>`.
pub open spec fn temp_path(working_dir: Seq<char>, id: Seq<char>) -> Seq<char> {
    working_dir + "/temp/"@ + id
}

/// Plans the storage of an uploaded temporary file under a new random
/// identifier.
pub fn new_temp_file(working_dir: &str) -> (r: TempFilePlan)
    ensures
        r.destination@ == temp_path(working_dir@, r.id@),
        r.payload@ == "{\"uuid\":"@ + json_string_text(r.id@) + "}"@,
{
    let id = new_uuid_string();
    let destination = concat3(working_dir, "/temp/", id.as_str());
    let payload = concat3("{\"uuid\":", json_quote(id.as_str()).as_str(), "}");
    TempFilePlan { id, destination, payload }
}

/// The path a temporary file is read from.
pub fn temp_file_path(working_dir: &str, id: &str) -> (r: String)
    ensures
        r@ == temp_path(working_dir@, id@),
{
    concat3(working_dir, "/temp/", id)
}

// ---------------------------------------------------------------- language models

/// A directory of the language model store, as probed on disk.
pub struct ModelDir {
    pub name: String,
    pub is_dir: bool,
    pub has_model: bool,
    pub has_quantized_model: bool,
}

/// The model files a store directory offers, as paths under the store:
/// none for a hidden entry or one that is not a directory; else
/// `<dir>/model.onnx` and `<dir>/model.quant.onnx`, where present.
pub open spec fn dir_models(d: ModelDir) -> Seq<Seq<char>> {
    if d.name@.len() > 0 && d.name@[0] == '.' || !d.is_dir {
        Seq::empty()
    } else {
        (if d.has_model { seq![d.name@ + "/model.onnx"@] } else { Seq::empty() })
            + (if d.has_quantized_model { seq![d.name@ + "/model.quant.onnx"@] } else { Seq::empty() })
    }
}

/// The model files of a store, directory by directory.
pub open spec fn store_models(dirs: Seq<ModelDir>) -> Seq<Seq<char>>
    decreases dirs.len(),
{
    if dirs.len() == 0 {
        Seq::empty()
    } else {
        store_models(dirs.drop_last()) + dir_models(dirs.last())
    }
}

/// The reply listing the model files of the language model store, as a
/// JSON array of their paths under the store (`["qwen3-4b/model.quant.onnx"]`);
/// `[]` when the store cannot be read (`dirs` is `None`).
pub fn list_llm_models(dirs: Option<&Vec<ModelDir>>) -> (r: ApiResponse)
    ensures
        match dirs {
            Some(d) => is_json_text(r, STATUS_OK, string_list_json(store_models(d@))),
            None => is_json_text(r, STATUS_OK, "[]"@),
        },
{
    let dirs = match dirs {
        Some(d) => d,
        None => return ok_json_response("[]".to_owned()),
    };
    let mut paths: Vec<String> = Vec::new();
    let mut i: usize = 0;
    while i < dirs.len()
        invariant
            i <= dirs@.len(),
            string_views(paths@) == store_models(dirs@.take(i as int)),
        decreases dirs@.len() - i,
    {
        let d = &dirs[i];
        proof {
            assert(dirs@.take(i + 1).drop_last() =~= dirs@.take(i as int));
            assert(dirs@.take(i + 1).last() == *d);
        }
        let hidden = crate::text::starts_with(d.name.as_str(), ".");
        proof {
            reveal_strlit(".");
            if d.name@.len() > 0 && d.name@[0] == '.' {
                assert(d.name@.take(1) =~= "."@);
            }
            if hidden {
                assert(d.name@.take(1)[0] == d.name@[0]);
            }
        }
        assert(hidden == (d.name@.len() > 0 && d.name@[0] == '.'));
        let ghost before = string_views(paths@);
        if !hidden && d.is_dir {
            if d.has_model {
                let ghost p0 = paths@;
                paths.push(concat2(d.name.as_str(), "/model.onnx"));
                proof { crate::text::lemma_string_views_push(p0, paths@.last()); assert(paths@ == p0.push(paths@.last())); }
            }
            let ghost mid = string_views(paths@);
            assert(mid == before + (if d.has_model { seq![d.name@ + "/model.onnx"@] } else { Seq::empty() }));
            if d.has_quantized_model {
                let ghost p1 = paths@;
                paths.push(concat2(d.name.as_str(), "/model.quant.onnx"));
                proof { crate::text::lemma_string_views_push(p1, paths@.last()); assert(paths@ == p1.push(paths@.last())); }
            }
            assert(string_views(paths@) =~= before + dir_models(*d));
        } else {
            assert(dir_models(*d) =~= Seq::<Seq<char>>::empty());
            assert(string_views(paths@) =~= before + dir_models(*d));
        }
        i += 1;
    }
    assert(dirs@.take(dirs@.len() as int) =~= dirs@);
    ok_json_response(string_list_text(&paths))
}

/// Where a language model is looked for: the model name with its first
/// character outside `[A-Za-z0-9._-]` replaced by `_`, the model file
/// (`model.quant.onnx` when quantized, else `model.onnx`) and the
/// tokenizer file, under `<working_dir>/blobs/llm_models/<name>`.
pub struct ModelPaths {
    pub safe_name: String,
    pub model_path: String,
    pub tokenizer_path: String,
}

/// The directory of a model under the working directory.
pub open spec fn model_dir(working_dir: Seq<char>, safe_name: Seq<char>) -> Seq<char> {
    working_dir + "/blobs/llm_models/"@ + safe_name
}

/// The paths of a language model, or `None` when the name pattern does not
/// compile.
pub fn rag_model_paths(working_dir: &str, model_name: &str, quantized: bool) -> (r: Option<ModelPaths>)
    ensures
        match r {
            Some(p) => regex_replace_first("[^A-Za-z0-9._-]"@, model_name@, "_"@) == Some(p.safe_name@)
                && p.model_path@ == model_dir(working_dir@, p.safe_name@) + "/model"@
                    + (if quantized { ".quant"@ } else { ""@ }) + ".onnx"@
                && p.tokenizer_path@ == model_dir(working_dir@, p.safe_name@) + "/tokenizer.json"@,
            None => regex_replace_first("[^A-Za-z0-9._-]"@, model_name@, "_"@) is None,
        },
{
    let safe_name = match regex_replace("[^A-Za-z0-9._-]", model_name, "_") {
        Some(n) => n,
        None => return None,
    };
    let dir = concat3(working_dir, "/blobs/llm_models/", safe_name.as_str());
    let mut model_path = concat2(dir.as_str(), "/model");
    push_str(&mut model_path, if quantized { ".quant" } else { "" });
    push_str(&mut model_path, ".onnx");
    let tokenizer_path = concat2(dir.as_str(), "/tokenizer.json");
    Some(ModelPaths { safe_name, model_path, tokenizer_path })
}

// ---------------------------------------------------------------- settings

/// The reply listing the UI languages: a JSON list of strings.
pub fn get_languages(settings: &AppSettings) -> (r: ApiResponse)
    ensures
        is_json_text(r, STATUS_OK, string_list_json(string_views(settings.languages@))),
{
    ok_json_response(string_list_text(&settings.languages))
}

/// The reason given for a developer setting that does not exist.
pub open spec fn unknown_dev_setting_reason(key: Seq<char>) -> Seq<char> {
    "dev setting '"@ + key + "' not found"@
}

/// Sets a developer setting that exists, to `value` (a string) or, when
/// `value` is `None`, to null; an unknown setting gets a 400 reply and
/// nothing changes.
fn set_dev_setting(settings: &mut AppSettings, key: &str, value: Option<&str>) -> (r: ApiResponse)
    requires
        old(settings).dev_settings@ is Object,
    ensures
        match old(settings).dev_settings@ {
            Json::Object(m) => if has_key(m, key@) {
                &&& is_ok_ok(r)
                &&& final(settings).dev_settings@ == Json::Object(set_member(m, key@, match value {
                    Some(v) => Json::Str(v@),
                    None => Json::Null,
                }))
            } else {
                is_bad(r, STATUS_BAD_REQUEST, unknown_dev_setting_reason(key@)) && *final(settings) == *old(settings)
            },
            _ => false,
        },
        final(settings).languages == old(settings).languages,
        final(settings).bcv == old(settings).bcv,
        final(settings).typography == old(settings).typography,
{
    let m = match &settings.dev_settings {
        JsonValue::Object(m) => m,
        _ => {
            assert(false);
            return ok_ok_json_response();
        },
    };
    if !members_contain(m, key) {
        return bad_response(STATUS_BAD_REQUEST, concat3("dev setting '", key, "' not found"));
    }
    let v = match value {
        Some(v) => JsonValue::Str(v.to_owned()),
        None => JsonValue::Null,
    };
    let updated = object_set(m, key, v);
    settings.dev_settings = JsonValue::Object(updated);
    ok_ok_json_response()
}

/// Sets a developer setting that exists to a string value.
pub fn post_dev_setting(settings: &mut AppSettings, setting_key: &str, setting_value: &str) -> (r: ApiResponse)
    requires
        old(settings).dev_settings@ is Object,
    ensures
        match old(settings).dev_settings@ {
            Json::Object(m) => if has_key(m, setting_key@) {
                is_ok_ok(r) && final(settings).dev_settings@ == Json::Object(set_member(m, setting_key@, Json::Str(setting_value@)))
            } else {
                is_bad(r, STATUS_BAD_REQUEST, unknown_dev_setting_reason(setting_key@)) && *final(settings) == *old(settings)
            },
            _ => false,
        },
{
    set_dev_setting(settings, setting_key, Some(setting_value))
}

/// Clears a developer setting that exists (sets it to null).
pub fn post_clear_dev_setting(settings: &mut AppSettings, setting_key: &str) -> (r: ApiResponse)
    requires
        old(settings).dev_settings@ is Object,
    ensures
        match old(settings).dev_settings@ {
            Json::Object(m) => if has_key(m, setting_key@) {
                is_ok_ok(r) && final(settings).dev_settings@ == Json::Object(set_member(m, setting_key@, Json::Null))
            } else {
                is_bad(r, STATUS_BAD_REQUEST, unknown_dev_setting_reason(setting_key@)) && *final(settings) == *old(settings)
            },
            _ => false,
        },
{
    set_dev_setting(settings, setting_key, None)
}


// ---------------------------------------------------------------- translations

/// The reason given when the translations could not be saved.
pub open spec fn i18n_write_reason(e: Seq<char>) -> Seq<char> {
    "could not write i18n: "@ + e
}

/// Completes the saving of the translations: once they are written the
/// update count goes up by one (which makes open streams report the
/// languages again) and the reply is a success; a failed write gets a 400
/// reply and leaves the count.
pub fn post_i18n(update_count: &mut u64, outcome: Result<(), String>) -> (r: ApiResponse)
    requires
        *old(update_count) < u64::MAX,
    ensures
        outcome is Ok ==> *final(update_count) == *old(update_count) + 1 && is_ok_ok(r),
        outcome is Err ==> *final(update_count) == *old(update_count)
            && is_bad(r, STATUS_BAD_REQUEST, i18n_write_reason(outcome->Err_0@)),
{
    match outcome {
        Ok(()) => {
            *update_count = *update_count + 1;
            ok_ok_json_response()
        },
        Err(e) => bad_response(STATUS_BAD_REQUEST, concat2("could not write i18n: ", e.as_str())),
    }
}

// ---------------------------------------------------------------- start-up

/// The working directory of the server: the one given at launch when its
/// path is longer than three bytes (shorter ones are refused so that no
/// root-like path is used), else `pankosmia_working` at the root of the
/// user's home directory.
pub open spec fn working_dir_choice(home: Seq<char>, launch: Seq<char>) -> Seq<char> {
    if encode_utf8(launch).len() > 3 {
        launch
    } else {
        home + "/pankosmia_working"@
    }
}

/// Chooses the working directory of the server.
pub fn choose_working_dir(home: &str, launch_working_dir: &str) -> (r: String)
    ensures
        r@ == working_dir_choice(home@, launch_working_dir@),
{
    if byte_len(launch_working_dir) > 3 {
        launch_working_dir.to_owned()
    } else {
        concat2(home, "/pankosmia_working")
    }
}

} // verus!
