use sparkspeech::json::{
    extract_doubao_text, extract_doubao_utterances, joined_parts, json_u64, non_empty_text,
    read_server_response, JsonValue,
};

fn s(text: &str) -> JsonValue {
    JsonValue::Str(text.into())
}

fn obj(members: Vec<(&str, JsonValue)>) -> JsonValue {
    JsonValue::Object(members.into_iter().map(|(k, v)| (k.to_string(), v)).collect())
}

#[test]
fn top_level_text_wins() {
    let v = obj(vec![("text", s(" 你好 ")), ("result", obj(vec![("text", s("别的"))]))]);
    assert_eq!(extract_doubao_text(&v).as_deref(), Some("你好"));
    let blank = obj(vec![("text", s("  "))]);
    assert_eq!(extract_doubao_text(&blank), None);
}

#[test]
fn result_text_then_utterances() {
    let v = obj(vec![("result", obj(vec![("text", s("结果"))]))]);
    assert_eq!(extract_doubao_text(&v).as_deref(), Some("结果"));
    let v = obj(vec![(
        "result",
        obj(vec![(
            "utterances",
            JsonValue::Array(vec![
                obj(vec![("text", s(" 一 "))]),
                obj(vec![("start_time", JsonValue::UInt(3))]),
                obj(vec![("text", s("二"))]),
            ]),
        )]),
    )]);
    assert_eq!(extract_doubao_text(&v).as_deref(), Some("一二"));
}

#[test]
fn array_results_join_items() {
    let v = obj(vec![(
        "result",
        JsonValue::Array(vec![
            obj(vec![("text", s("甲"))]),
            obj(vec![("utterances", JsonValue::Array(vec![obj(vec![("text", s("乙"))])]))]),
            JsonValue::Null,
        ]),
    )]);
    assert_eq!(extract_doubao_text(&v).as_deref(), Some("甲乙"));
    let empty = obj(vec![("result", JsonValue::Array(vec![]))]);
    assert_eq!(extract_doubao_text(&empty), None);
    assert_eq!(extract_doubao_text(&JsonValue::Null), None);
}

#[test]
fn utterances_with_times_and_defaults() {
    let v = obj(vec![(
        "result",
        obj(vec![(
            "utterances",
            JsonValue::Array(vec![
                obj(vec![
                    ("text", s(" 你好 ")),
                    ("start_time", JsonValue::UInt(10)),
                    ("end_time", s("250")),
                    ("definite", JsonValue::Bool(true)),
                ]),
                obj(vec![("text", s("   "))]),
                obj(vec![("text", s("世界")), ("start_time", JsonValue::OtherNumber)]),
            ]),
        )]),
    )]);
    let utterances = extract_doubao_utterances(&v);
    assert_eq!(utterances.len(), 2);
    assert_eq!(utterances[0].text, "你好");
    assert_eq!((utterances[0].start_ms, utterances[0].end_ms), (10, 250));
    assert!(utterances[0].definite);
    assert_eq!((utterances[1].start_ms, utterances[1].end_ms), (0, 0));
    assert!(!utterances[1].definite);
    let frame = read_server_response(&v, true);
    assert!(frame.is_last);
    assert_eq!(frame.text.as_deref(), Some("你好世界"));
    assert_eq!(frame.utterances.len(), 2);
}

#[test]
fn numbers_may_come_as_text() {
    assert_eq!(json_u64(Some(&JsonValue::UInt(7))), Some(7));
    assert_eq!(json_u64(Some(&s("+12"))), Some(12));
    assert_eq!(json_u64(Some(&s("x"))), None);
    assert_eq!(json_u64(Some(&JsonValue::OtherNumber)), None);
    assert_eq!(json_u64(None), None);
}

#[test]
fn parts_are_trimmed_and_joined() {
    assert_eq!(joined_parts(vec![" a ".into(), "  ".into(), "b".into()]).as_deref(), Some("ab"));
    assert_eq!(joined_parts(vec!["  ".into()]), None);
    assert_eq!(non_empty_text(" x ").as_deref(), Some("x"));
    assert_eq!(non_empty_text(" \n "), None);
}

#[test]
fn get_finds_the_first_member() {
    let v = obj(vec![("a", JsonValue::UInt(1)), ("a", JsonValue::UInt(2))]);
    assert!(matches!(v.get("a"), Some(JsonValue::UInt(1))));
    assert!(v.get("b").is_none());
    assert!(JsonValue::Array(vec![]).get("a").is_none());
}
