use sparkspeech::models::{OverlayState, SpeechRecord};
use sparkspeech::overlay::{
    action_overlay, clear_saved, last_transcript_lines, mark_saved, needs_attention,
    overlay_for_phase, realtime_error_overlay, recording_overlay, reset_realtime_status,
    should_defer_overlay_to_active_recording, should_expand_overlay, show_transcript_lines,
    update_overlay_progress, OPEN_MAIN_LABEL, SAVED_DETAIL, SAVED_TITLE,
};

fn lines(items: &[&str]) -> Vec<String> {
    items.iter().map(|s| s.to_string()).collect()
}

#[test]
fn phase_overlay_is_plain() {
    let o = overlay_for_phase("transcribing", "转写中", 1_500);
    assert!(o.visible);
    assert_eq!(o.phase, "transcribing");
    assert_eq!(o.label, "转写中");
    assert_eq!(o.elapsed_ms, 1_500);
    assert!(o.status_kind.is_none() && o.action_label.is_none());
    assert!(o.transcript_lines.is_empty());
    assert!(o.progress_current.is_none() && o.progress_total.is_none());
}

#[test]
fn recording_keeps_the_overlay() {
    assert!(should_defer_overlay_to_active_recording("transcribing", true));
    assert!(!should_defer_overlay_to_active_recording("recording", true));
    assert!(!should_defer_overlay_to_active_recording("transcribing", false));
}

#[test]
fn expanded_layout() {
    assert!(should_expand_overlay("transcribing", false));
    assert!(should_expand_overlay("optimizing", false));
    assert!(should_expand_overlay("attention", false));
    assert!(should_expand_overlay("recording", true));
    assert!(!should_expand_overlay("recording", false));
    assert!(!should_expand_overlay("idle", true));
}

#[test]
fn progress_on_the_overlay() {
    let mut o = overlay_for_phase("transcribing", "转写中", 900);
    update_overlay_progress(&mut o, "transcribing", 3, 10);
    assert_eq!(o.progress_current, Some(3));
    assert_eq!(o.progress_total, Some(10));
    assert_eq!(o.status_kind.as_deref(), Some("processing"));
    assert_eq!(o.label, "转写中");
    assert_eq!(o.elapsed_ms, 900);
}

#[test]
fn recording_overlay_status() {
    let fresh = OverlayState::default();
    let o = recording_overlay(&fresh, 2_000, 350, lines(&["你好"]));
    assert_eq!(o.phase, "recording");
    assert_eq!(o.label, "直接说");
    assert_eq!(o.input_level_milli, 350);
    assert_eq!(o.status_kind.as_deref(), Some("recording"));
    assert_eq!(o.transcript_lines, lines(&["你好"]));

    let mut saved = OverlayState::default();
    saved.status_kind = Some("saved".into());
    let o = recording_overlay(&saved, 2_100, 0, Vec::new());
    assert_eq!(o.status_kind.as_deref(), Some("saved"));

    let broken = realtime_error_overlay(lines(&["一", "二"]));
    assert_eq!(broken.status_kind.as_deref(), Some("network_error"));
    let o = recording_overlay(&broken, 2_200, 0, Vec::new());
    assert_eq!(o.status_kind.as_deref(), Some("network_error"));

    let mut reconnecting = OverlayState::default();
    reconnecting.reconnect_available = true;
    reconnecting.status_kind = Some("processing".into());
    let o = recording_overlay(&reconnecting, 2_300, 0, Vec::new());
    assert_eq!(o.status_kind.as_deref(), Some("processing"));
    assert!(o.reconnect_available);
}

#[test]
fn attention_overlay_after_an_error() {
    let o = action_overlay(SAVED_TITLE, SAVED_DETAIL, OPEN_MAIN_LABEL);
    assert_eq!(o.phase, "attention");
    assert_eq!(o.label, "录音已保存：网络恢复后可在主界面重新转写或重新优化");
    assert_eq!(o.action_label.as_deref(), Some("打开主界面"));
    assert_eq!(o.status_kind.as_deref(), Some("attention"));
}

#[test]
fn attention_only_for_records_with_errors() {
    let mut r = SpeechRecord {
        id: "r".into(),
        created_at: "t".into(),
        updated_at: "t".into(),
        raw_asr_text: String::new(),
        final_text: String::new(),
        audio_path: None,
        duration_ms: None,
        audio_expires_at: None,
        asr_status: "completed".into(),
        optimize_status: "completed".into(),
        copied_at: None,
        pasted_at: None,
        error_message: None,
        doubao_request_id: None,
        doubao_log_id: None,
        openrouter_model: None,
    };
    assert!(!needs_attention(&r));
    r.error_message = Some("转写已保存，内容优化失败：x".into());
    assert!(needs_attention(&r));
}

#[test]
fn saved_mark_comes_and_goes() {
    let mut o = recording_overlay(&OverlayState::default(), 0, 0, Vec::new());
    mark_saved(&mut o);
    assert_eq!(o.status_kind.as_deref(), Some("saved"));
    assert!(clear_saved(&mut o));
    assert_eq!(o.status_kind.as_deref(), Some("recording"));
    assert!(!clear_saved(&mut o));
    let mut broken = realtime_error_overlay(Vec::new());
    assert!(!clear_saved(&mut broken));
    assert_eq!(broken.status_kind.as_deref(), Some("network_error"));
}

#[test]
fn new_lines_clear_the_stream_error() {
    let mut o = realtime_error_overlay(Vec::new());
    o.reconnect_available = true;
    show_transcript_lines(&mut o, lines(&["a", "b"]));
    assert_eq!(o.transcript_lines, lines(&["a", "b"]));
    assert_eq!(o.status_kind.as_deref(), Some("recording"));
    assert!(!o.reconnect_available);
    let mut o = realtime_error_overlay(lines(&["x"]));
    o.reconnect_available = true;
    reset_realtime_status(&mut o);
    assert_eq!(o.status_kind.as_deref(), Some("recording"));
    assert!(!o.reconnect_available);
    assert_eq!(o.transcript_lines, lines(&["x"]));
}

#[test]
fn last_three_lines_in_order() {
    assert_eq!(last_transcript_lines(&lines(&["1", "2", "3", "4", "5"])), lines(&["3", "4", "5"]));
    assert_eq!(last_transcript_lines(&lines(&["1", "2"])), lines(&["1", "2"]));
    assert!(last_transcript_lines(&Vec::new()).is_empty());
}
