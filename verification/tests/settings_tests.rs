use sparkspeech::doubao::init_request_payload;
use sparkspeech::json::JsonValue;
use sparkspeech::doubao::doubao_request_headers;
use sparkspeech::doubao::connection_error_message;
use sparkspeech::provider::asr_user_message;
use sparkspeech::doubao::{build_doubao_request, test_doubao_config};
use sparkspeech::models::{AppSettings, OverlayState, PromptSettings, RecordingSession};
use sparkspeech::provider::{
    active_text_model_name, active_text_provider, active_text_provider_label, build_preference_prompt,
    build_system_prompt, chat_messages,
    chat_completions_url, cleanup_mode_prompt, connection_ok_message, first_choice_text,
    http_failure_message, read_stream_line, request_headers, stream_end_text, take_line,
    StreamLine, DEEP_CLEANUP, LIGHT_CLEANUP,
};

#[test]
fn default_settings() {
    let s = AppSettings::default();
    assert_eq!(s.global_shortcut, "RightAlt");
    assert!(s.auto_paste);
    assert_eq!(s.recording_retention_days, 7);
    assert_eq!(s.recording_segment_seconds, 10);
    assert_eq!(s.doubao_resource_id, "volc.seedasr.sauc.duration");
    assert_eq!(s.doubao_endpoint, "wss://openspeech.bytedance.com/api/v3/sauc/bigmodel_async");
    assert_eq!(s.openrouter_base_url, "https://openrouter.ai/api/v1");
    assert_eq!(s.optimize_provider, "openrouter");
    assert!(!s.fast_asr_finalize);
    assert!(!s.show_realtime_transcript);
}

#[test]
fn default_prompts_and_session() {
    let p = PromptSettings::default();
    assert!(p.system_prompt.starts_with("你是语音输入文本整理器"));
    assert!(p.system_prompt.ends_with("命中后按词典条目的大小写、空格和符号输出。"));
    assert_eq!(p.cleanup_mode, "plain");
    assert_eq!(p.writing_preferences, "");
    let r = RecordingSession::default();
    assert!(!r.active);
    assert_eq!(r.status, "idle");
    let o = OverlayState::default();
    assert!(!o.visible);
    assert_eq!(o.phase, "idle");
}

fn api_key_settings() -> AppSettings {
    let mut s = AppSettings::default();
    s.doubao_api_key = "key-1".into();
    s
}

#[test]
fn doubao_request_with_api_key() {
    let req = build_doubao_request(&api_key_settings(), "req-1").unwrap();
    assert_eq!(req.endpoint, "wss://openspeech.bytedance.com/api/v3/sauc/bigmodel_async");
    let names: Vec<(&str, &str)> = req.headers.iter().map(|(n, v)| (n.as_str(), v.as_str())).collect();
    assert_eq!(
        names,
        vec![
            ("X-Api-Key", "key-1"),
            ("X-Api-Resource-Id", "volc.seedasr.sauc.duration"),
            ("X-Api-Request-Id", "req-1"),
            ("X-Api-Connect-Id", "req-1"),
            ("X-Api-Sequence", "-1"),
        ]
    );
}

#[test]
fn doubao_request_with_app_and_access_keys() {
    let mut s = AppSettings::default();
    s.doubao_auth_mode = "app_access_key".into();
    assert_eq!(
        build_doubao_request(&s, "r").err().unwrap(),
        "豆包旧版鉴权需要填写 App Key 和 Access Key"
    );
    s.doubao_app_key = "app".into();
    s.doubao_access_key = "acc\u{7f}".into();
    assert_eq!(
        build_doubao_request(&s, "r").err().unwrap(),
        "豆包 Access Key 请求头无效：failed to parse header value"
    );
    s.doubao_access_key = "acc".into();
    let req = build_doubao_request(&s, "r").unwrap();
    assert_eq!(req.headers[0], ("X-Api-App-Key".to_string(), "app".to_string()));
    assert_eq!(req.headers[1], ("X-Api-Access-Key".to_string(), "acc".to_string()));
}

#[test]
fn doubao_request_errors() {
    let s = AppSettings::default();
    assert_eq!(build_doubao_request(&s, "r").err().unwrap(), "豆包新版鉴权需要填写 API Key");
    let mut bad = api_key_settings();
    bad.doubao_endpoint = "not a url".into();
    assert!(build_doubao_request(&bad, "r").is_err());
    let mut bad = api_key_settings();
    bad.doubao_api_key = "a\nb".into();
    assert_eq!(
        build_doubao_request(&bad, "r").err().unwrap(),
        "豆包 API Key 请求头无效：failed to parse header value"
    );
}

#[test]
fn doubao_config_check() {
    let mut s = AppSettings::default();
    assert_eq!(test_doubao_config(&s).err().unwrap(), "新版鉴权需要 API Key");
    s.doubao_endpoint = " ".into();
    assert_eq!(test_doubao_config(&s).err().unwrap(), "豆包 Endpoint 为空");
    s = api_key_settings();
    assert_eq!(
        test_doubao_config(&s).unwrap(),
        "豆包配置字段完整，可用历史记录里的重新转写做真实 ASR 测试"
    );
    s.doubao_resource_id = String::new();
    assert_eq!(test_doubao_config(&s).err().unwrap(), "豆包 Resource ID 为空");
    s = AppSettings::default();
    s.doubao_auth_mode = "app_access_key".into();
    assert_eq!(test_doubao_config(&s).err().unwrap(), "旧版鉴权需要 App Key 和 Access Key");
}

#[test]
fn provider_selection() {
    let mut s = AppSettings::default();
    assert_eq!(active_text_provider(&s).err().unwrap(), "OpenRouter API Key 为空");
    s.openrouter_api_key = "k".into();
    let p = active_text_provider(&s).unwrap();
    assert_eq!(p.name, "OpenRouter");
    assert_eq!(p.model, "openai/gpt-4.1-mini");
    assert_eq!(p.title.as_deref(), Some("SparkSpeech"));
    s.optimize_provider = "deepseek".into();
    assert_eq!(active_text_provider(&s).err().unwrap(), "DeepSeek API Key 为空");
    s.deepseek_api_key = "d".into();
    let p = active_text_provider(&s).unwrap();
    assert_eq!(p.base_url, "https://api.deepseek.com");
    assert!(p.title.is_none());
    assert_eq!(active_text_provider_label(&s), "DeepSeek");
    assert_eq!(active_text_model_name(&s), "deepseek-v4-flash");
    s.optimize_provider = "custom_openai".into();
    s.custom_openai_provider_name = "  ".into();
    s.custom_openai_api_key = "c".into();
    assert_eq!(active_text_provider(&s).err().unwrap(), "Custom OpenAI-compatible Base URL 为空");
    s.custom_openai_base_url = "http://x".into();
    assert_eq!(active_text_provider(&s).err().unwrap(), "Custom OpenAI-compatible 模型为空");
}

#[test]
fn system_prompt_sections() {
    let mut p = PromptSettings {
        system_prompt: " 规则 ".into(),
        cleanup_mode: "plain".into(),
        writing_preferences: " 偏好 ".into(),
        replacements: "A → B\n".into(),
    };
    assert_eq!(build_system_prompt(&p), "规则");
    assert_eq!(build_preference_prompt(&p), "# 用户词典\nA → B\n\n# 个性化偏好\n偏好");
    p.cleanup_mode = "deep".into();
    assert_eq!(build_system_prompt(&p), format!("规则\n\n# 整理强度\n{DEEP_CLEANUP}"));
    let messages = chat_messages(&p, "嗯 开会");
    let roles: Vec<&str> = messages.iter().map(|(r, _)| r.as_str()).collect();
    assert_eq!(roles, vec!["system", "system", "user"]);
    assert_eq!(messages[0].1, build_system_prompt(&p));
    assert_eq!(messages[1].1, build_preference_prompt(&p));
    assert_eq!(messages[2].1, "ASR 原文：\n嗯 开会");
    assert_eq!(cleanup_mode_prompt("light"), LIGHT_CLEANUP);
    assert_eq!(cleanup_mode_prompt("plain"), "");
}

#[test]
fn chat_url_and_headers() {
    assert_eq!(chat_completions_url("https://openrouter.ai/api/v1//"), "https://openrouter.ai/api/v1/chat/completions");
    assert_eq!(chat_completions_url("https://api.deepseek.com"), "https://api.deepseek.com/chat/completions");
    let mut s = AppSettings::default();
    s.openrouter_api_key = "k".into();
    let p = active_text_provider(&s).unwrap();
    assert_eq!(request_headers(&p, ""), vec![("X-OpenRouter-Title".to_string(), "SparkSpeech".to_string())]);
    s.optimize_provider = "deepseek".into();
    s.deepseek_api_key = "d".into();
    let p = active_text_provider(&s).unwrap();
    assert!(request_headers(&p, " ").is_empty());
    assert_eq!(request_headers(&p, "https://me"), vec![("HTTP-Referer".to_string(), "https://me".to_string())]);
}

#[test]
fn responses_give_trimmed_text() {
    let name = "OpenRouter".to_string();
    assert_eq!(first_choice_text(&vec![" 好 ".into(), "x".into()], &name).unwrap(), "好");
    assert_eq!(first_choice_text(&vec![], &name).err().unwrap(), "OpenRouter 没有返回可用文本");
    assert_eq!(first_choice_text(&vec!["  ".into()], &name).err().unwrap(), "OpenRouter 没有返回可用文本");
    assert_eq!(stream_end_text(" ok ", &name).unwrap(), "ok");
    assert!(stream_end_text("  ", &name).is_err());
    assert_eq!(connection_ok_message(&name), "OpenRouter 连接可用");
    assert_eq!(http_failure_message(&name, "请求失败", "401 Unauthorized", "no"), "OpenRouter 请求失败：401 Unauthorized no");
}

#[test]
fn stream_lines() {
    let mut pending = String::from("data: {\"a\":1}\n\ndata: [DONE]\npartial");
    assert_eq!(take_line(&mut pending).as_deref(), Some("data: {\"a\":1}"));
    assert_eq!(take_line(&mut pending).as_deref(), Some(""));
    let done = take_line(&mut pending).unwrap();
    assert!(matches!(read_stream_line(&done), StreamLine::Done));
    assert_eq!(take_line(&mut pending), None);
    assert_eq!(pending, "partial");
    assert!(matches!(read_stream_line(": keep-alive"), StreamLine::Skip));
    match read_stream_line("data:data: x ") {
        StreamLine::Data(d) => assert_eq!(d, "x"),
        _ => panic!("expected data"),
    }
}

#[test]
fn connection_errors_explain_authentication() {
    let m = connection_error_message("HTTP error: 401 Unauthorized".to_string());
    assert!(m.starts_with("豆包鉴权失败：HTTP 401 Unauthorized。"));
    assert!(m.ends_with("原始错误：HTTP error: 401 Unauthorized"));
    let m = connection_error_message("Unauthorized".to_string());
    assert!(m.starts_with("豆包鉴权失败"));
    assert_eq!(connection_error_message("connection refused".to_string()), "connection refused");
}

#[test]
fn user_message_carries_the_transcript() {
    assert_eq!(asr_user_message("今天开会"), "ASR 原文：\n今天开会");
    assert_eq!(asr_user_message(""), "ASR 原文：\n");
}

#[test]
fn overlay_copies_keep_every_field() {
    let mut o = OverlayState::default();
    o.transcript_lines = vec!["a".to_string(), "b".to_string()];
    o.status_kind = Some("saved".to_string());
    o.progress_current = Some(3);
    let c = o.clone();
    assert_eq!(c.transcript_lines, o.transcript_lines);
    assert_eq!(c.status_kind, o.status_kind);
    assert_eq!(c.progress_current, Some(3));
    assert_eq!(c.phase, "idle");
}

#[test]
fn request_headers_without_endpoint_check() {
    let mut s = api_key_settings();
    s.doubao_endpoint = "not a url".into();
    let headers = doubao_request_headers(&s, "req-9").unwrap();
    assert_eq!(headers.len(), 5);
    assert_eq!(headers[0], ("X-Api-Key".to_string(), "key-1".to_string()));
    assert_eq!(headers[4], ("X-Api-Sequence".to_string(), "-1".to_string()));
    s.doubao_resource_id = "res\u{1}".into();
    assert_eq!(
        doubao_request_headers(&s, "req-9").err().unwrap(),
        "豆包 Resource ID 请求头无效：failed to parse header value"
    );
    s.doubao_resource_id = "res".into();
    assert_eq!(
        doubao_request_headers(&s, "id\r").err().unwrap(),
        "豆包 Request ID 请求头无效：failed to parse header value"
    );
}

fn members(v: &JsonValue) -> &Vec<(String, JsonValue)> {
    match v {
        JsonValue::Object(m) => m,
        _ => panic!("not an object"),
    }
}

#[test]
fn init_payload_describes_the_audio() {
    let mut s = AppSettings::default();
    s.doubao_language = "en-US".into();
    let v = init_request_payload(&s);
    let top = members(&v);
    let keys: Vec<&str> = top.iter().map(|(k, _)| k.as_str()).collect();
    assert_eq!(keys, vec!["user", "audio", "request"]);
    assert!(matches!(&members(&top[0].1)[0], (k, JsonValue::Str(u)) if k == "uid" && u == "sparkspeech"));
    let audio = members(&top[1].1);
    assert!(matches!(&audio[0].1, JsonValue::Str(f) if f == "pcm"));
    assert!(matches!(audio[1].1, JsonValue::UInt(16000)));
    assert!(matches!(&audio[4], (k, JsonValue::Str(l)) if k == "language" && l == "en-US"));
    let request = members(&top[2].1);
    assert_eq!(request.len(), 7);
    assert!(matches!(request[3], (ref k, JsonValue::Bool(false)) if k == "enable_ddc"));
    assert!(matches!(&request[6].1, JsonValue::Str(t) if t == "full"));
}
