use pankosmia_web::endpoints::system::{
    choose_working_dir, framed_client, get_languages, get_version, list_llm_models, new_temp_file,
    post_clear_dev_setting, post_dev_setting, post_i18n, product_resource_name, shutdown,
    rag_model_paths, temp_file_path, ModelDir,
};
use pankosmia_web::endpoints::video::{
    clip_file_numbers, ffmpeg_concat_args, obs_story_gate, para_bounds, repo_not_found,
    select_story_clips, story_video_path, ObsStoryForm, VideoFile,
};
use pankosmia_web::json::JsonValue;
use pankosmia_web::paths::PathPart;
use pankosmia_web::responses::{ApiResponse, ContentKind, ResponseBody};
use pankosmia_web::string_map::StringMap;
use pankosmia_web::structs::{AppSettings, Bcv, ProductInfo, Typography};

fn parse(s: &str) -> serde_json::Value {
    serde_json::from_str(s).unwrap()
}

fn text(r: &ApiResponse) -> String {
    match &r.body {
        ResponseBody::Text(t) => t.clone(),
        ResponseBody::Document(_) => panic!("document body"),
    }
}

fn reason_of(r: &ApiResponse) -> String {
    parse(&text(r))["reason"].as_str().unwrap().to_string()
}

fn settings() -> AppSettings {
    AppSettings {
        working_dir: "/w".to_string(),
        repo_dir: "/w/repos".to_string(),
        app_resources_dir: "/res".to_string(),
        languages: vec!["fr".to_string(), "en".to_string()],
        gitea_endpoints: StringMap::new(),
        auth_tokens: StringMap::new(),
        auth_requests: StringMap::new(),
        bcv: Bcv { book_code: "TIT".to_string(), chapter: 1, verse: 1, to_verse: 1 },
        typography: Typography {
            font_set: "fonts".to_string(),
            size: "medium".to_string(),
            direction: "ltr".to_string(),
            features: StringMap::new(),
        },
        current_project: None,
        dev_settings: JsonValue::Object(vec![("force_os".to_string(), JsonValue::Null)]),
        snippet: None,
        word: None,
        product: ProductInfo {
            name: "Pankosmia".to_string(),
            short_name: "pk".to_string(),
            version: "1.0".to_string(),
            date_time: "now".to_string(),
        },
    }
}

fn normal(names: &[&str]) -> Vec<PathPart> {
    names.iter().map(|n| PathPart::Normal(n.to_string())).collect()
}

#[test]
fn shutdown_replies_ok() {
    let r = shutdown();
    assert_eq!(r.status, 200);
    assert_eq!(text(&r), r#"{"is_good":true,"reason":"ok"}"#);
}

#[test]
fn version_record() {
    let s = settings();
    let res = vec!["a/b.txt".to_string()];
    let r = get_version("0.1.0", &s, &res);
    assert_eq!(
        text(&r),
        r#"{"pkg_version":"0.1.0","product_date_time":"now","product_name":"Pankosmia","product_resources":["a/b.txt"],"product_short_name":"pk","product_version":"1.0"}"#
    );
    assert_eq!(product_resource_name("C:\\res\\product_resources\\x\\y.png", "C:\\res\\product_resources"), "x/y.png");
    assert_eq!(product_resource_name("/r/p/z.txt", "/r/p"), "z.txt");
}

#[test]
fn framed_client_page() {
    let r = framed_client(10, "FF00FF", &normal(&["clients", "main"]), "clients/main");
    assert_eq!(r.status, 200);
    assert!(r.content_kind == ContentKind::Html);
    let page = text(&r);
    assert!(page.starts_with("<html>\n        <head><title>iFrame</title></head>\n        <body style=\"padding: 0; margin: 0; padding-top: 10px; background-color: #FF00FF\"><iframe"));
    assert!(page.contains("src=\"/clients/main\">\n        </iframe></body>\n        </html>"));
    let bad_bg = framed_client(10, "FF00F", &normal(&["a", "b"]), "a/b");
    assert_eq!(bad_bg.status, 400);
    assert_eq!(reason_of(&bad_bg), "BG is not 6 hex values: FF00F");
    let short = framed_client(10, "FF00FF", &normal(&["a"]), "a");
    assert_eq!(reason_of(&short), "Bad path: \"a\"");
    let not_hex = framed_client(0, "zzzzzz", &normal(&["a", "b"]), "a/b");
    assert_eq!(not_hex.status, 400);
    assert_eq!(reason_of(&not_hex), "BG is not 6 hex values: zzzzzz");
    assert_eq!(framed_client(0, "a0B9fF", &normal(&["a", "b"]), "a/b").status, 200);
    let parent = vec![PathPart::Normal("a".to_string()), PathPart::ParentDir];
    assert_eq!(framed_client(0, "000000", &parent, "a/..").status, 400);
}

#[test]
fn temp_files() {
    let t = new_temp_file("/w");
    assert_eq!(t.destination, format!("/w/temp/{}", t.id));
    assert_eq!(parse(&t.payload)["uuid"], serde_json::Value::String(t.id.clone()));
    assert_eq!(t.id.len(), 36);
    assert_eq!(temp_file_path("/w", "abc"), "/w/temp/abc");
}

#[test]
fn language_model_listing() {
    let dirs = vec![
        ModelDir { name: ".hidden".to_string(), is_dir: true, has_model: true, has_quantized_model: true },
        ModelDir { name: "qwen".to_string(), is_dir: true, has_model: true, has_quantized_model: true },
        ModelDir { name: "file".to_string(), is_dir: false, has_model: true, has_quantized_model: false },
        ModelDir { name: "small".to_string(), is_dir: true, has_model: false, has_quantized_model: true },
    ];
    assert_eq!(
        text(&list_llm_models(Some(&dirs))),
        r#"["qwen/model.onnx","qwen/model.quant.onnx","small/model.quant.onnx"]"#
    );
    let documented = vec![ModelDir { name: "qwen3-4b".to_string(), is_dir: true, has_model: false, has_quantized_model: true }];
    assert_eq!(text(&list_llm_models(Some(&documented))), r#"["qwen3-4b/model.quant.onnx"]"#);
    assert_eq!(text(&list_llm_models(None)), "[]");
    assert_eq!(text(&list_llm_models(Some(&Vec::new()))), "[]");
}

#[test]
fn languages_and_dev_settings() {
    let mut s = settings();
    assert_eq!(text(&get_languages(&s)), r#"["fr","en"]"#);
    let r = post_dev_setting(&mut s, "force_os", "android");
    assert_eq!(r.status, 200);
    match &s.dev_settings {
        JsonValue::Object(m) => assert!(matches!(&m[0].1, JsonValue::Str(v) if v == "android")),
        _ => panic!("object expected"),
    }
    let e = post_dev_setting(&mut s, "nope", "x");
    assert_eq!(e.status, 400);
    assert_eq!(reason_of(&e), "dev setting 'nope' not found");
    let c = post_clear_dev_setting(&mut s, "force_os");
    assert_eq!(c.status, 200);
    match &s.dev_settings {
        JsonValue::Object(m) => assert!(matches!(&m[0].1, JsonValue::Null)),
        _ => panic!("object expected"),
    }
}

#[test]
fn translations_update_count() {
    let mut n: u64 = 4;
    assert_eq!(post_i18n(&mut n, Ok(())).status, 200);
    assert_eq!(n, 5);
    let e = post_i18n(&mut n, Err("denied".to_string()));
    assert_eq!(e.status, 400);
    assert_eq!(reason_of(&e), "could not write i18n: denied");
    assert_eq!(n, 5);
}

#[test]
fn working_dir_choice() {
    assert_eq!(choose_working_dir("/home/u", ""), "/home/u/pankosmia_working");
    assert_eq!(choose_working_dir("/home/u", "/ab"), "/home/u/pankosmia_working");
    assert_eq!(choose_working_dir("/home/u", "/abc"), "/abc");
}

#[test]
fn story_clip_names() {
    assert_eq!(clip_file_numbers("obs-para-01-03.mp4"), Some((1, 3)));
    assert_eq!(clip_file_numbers("obs-para-xx-03.mp4"), None);
    assert_eq!(clip_file_numbers("obs-para-1-x.mp4"), None);
    let f = ObsStoryForm { story_n: 2, from_para_n: None, to_para_n: Some(5) };
    assert_eq!(para_bounds(&f), (0, 5));
    let g = ObsStoryForm { story_n: 2, from_para_n: Some(3), to_para_n: None };
    assert_eq!(para_bounds(&g), (3, 50));
}

#[test]
fn story_clips_are_selected_and_ordered() {
    let files = vec![
        VideoFile { name: "obs-para-02-03.mp4".to_string(), path: "/v/a".to_string() },
        VideoFile { name: "obs-para-02-01.mp4".to_string(), path: "/v/b".to_string() },
        VideoFile { name: "obs-para-03-02.mp4".to_string(), path: "/v/c".to_string() },
        VideoFile { name: "obs-para-02-09.mp4".to_string(), path: "/v/d".to_string() },
        VideoFile { name: "obs-para-02-03.mp4".to_string(), path: "/v/e".to_string() },
        VideoFile { name: "obs-para-zz.mp4".to_string(), path: "/v/f".to_string() },
    ];
    let clips = select_story_clips(&files, 2, 0, 5);
    assert_eq!(clips, vec![(1, "/v/b".to_string()), (3, "/v/e".to_string())]);
    let args = ffmpeg_concat_args(&clips);
    assert_eq!(
        args,
        vec![
            "-i", "/v/b", "-i", "/v/e", "-filter_complex",
            "[0:v][0:a][1:v][1:a]concat=n=2:v=1:a=1[v][a]", "-map", "[v]", "-map", "[a]",
        ]
    );
    assert_eq!(story_video_path("/v", 2), "/v/obs-story-2.mp4");
    assert_eq!(story_video_path("/v", -1), "/v/obs-story--1.mp4");
}

#[test]
fn story_gate_and_missing_repo() {
    let e = obs_story_gate(false, &normal(&["a", "b", "c"])).unwrap();
    assert_eq!(e.status, 500);
    assert_eq!(reason_of(&e), "ffmpeg not found");
    assert_eq!(obs_story_gate(true, &normal(&["a", "b"])).unwrap().status, 400);
    assert!(obs_story_gate(true, &normal(&["a", "b", "c"])).is_none());
    let nf = repo_not_found("/r/a/b/c");
    assert_eq!(nf.status, 404);
    assert_eq!(reason_of(&nf), "Repo not found: /r/a/b/c");
}

#[test]
fn language_model_paths() {
    let plain = rag_model_paths("/w", "my model/v1", false).unwrap();
    assert_eq!(plain.safe_name, "my_model/v1");
    assert_eq!(plain.model_path, "/w/blobs/llm_models/my_model/v1/model.onnx");
    assert_eq!(plain.tokenizer_path, "/w/blobs/llm_models/my_model/v1/tokenizer.json");
    let quant = rag_model_paths("/w", "tiny-llm_2.0", true).unwrap();
    assert_eq!(quant.safe_name, "tiny-llm_2.0");
    assert_eq!(quant.model_path, "/w/blobs/llm_models/tiny-llm_2.0/model.quant.onnx");
}

#[test]
fn story_video_of_documented_request() {
    let files: Vec<VideoFile> = (3..=7)
        .map(|p| VideoFile { name: format!("obs-para-01-{:02}.mp4", p), path: format!("/v/{}", p) })
        .collect();
    let form = ObsStoryForm { story_n: 1, from_para_n: Some(3), to_para_n: Some(7) };
    let (first, last) = para_bounds(&form);
    let clips = select_story_clips(&files, 1, first, last);
    let args = ffmpeg_concat_args(&clips);
    assert_eq!(
        args,
        vec![
            "-i", "/v/3", "-i", "/v/4", "-i", "/v/5", "-i", "/v/6", "-i", "/v/7", "-filter_complex",
            "[0:v][0:a][1:v][1:a][2:v][2:a][3:v][3:a][4:v][4:a]concat=n=5:v=1:a=1[v][a]",
            "-map", "[v]", "-map", "[a]",
        ]
    );
}
