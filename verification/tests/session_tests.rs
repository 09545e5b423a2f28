use sparkspeech::audio::RecordedAudio;
use sparkspeech::session::{advance_segment_cursor, after_audio_save, segment_cursor_start, segment_to_save, AfterSave};
use sparkspeech::json::DoubaoUtterance;
use sparkspeech::models::{AppSettings, RealtimeTranscriptSegment, RecordingSession, SpeechRecord};
use sparkspeech::session::{
    apply_audio_save_failure, apply_audio_save_success, apply_optimization, apply_transcription,
    capped_progress, fast_asr_outcome, has_text_to_optimize, is_recording_active,
    is_wav_extension, mark_missing_audio, new_pending_record, order_segments,
    realtime_preview_text, realtime_tail_start, realtime_wanted, reconnect_start_index,
    recording_segment_seconds, set_session_status, should_paste, started_session,
    startup_command, transcript_segments, is_silent_start, SILENT_STARTUP_ARG, FastAsrOutcome, FastAsrResult, OptimizeResult,
    FAST_ASR_FINAL_WAIT_MS,
};

fn pending() -> SpeechRecord {
    new_pending_record(
        "rec-1".into(),
        "2024-05-01T10:00:00+08:00".into(),
        "2024-05-08T10:00:00+08:00".into(),
        Some("recordings/rec-1.wav".into()),
        Some(3_000),
        "openrouter/auto".into(),
    )
}

fn seg(start_ms: u64, end_ms: u64, text: &str) -> RealtimeTranscriptSegment {
    RealtimeTranscriptSegment { start_ms, end_ms, text: text.into(), definite: true }
}

#[test]
fn segment_interval_only_from_the_offered_choices() {
    let mut s = AppSettings::default();
    assert_eq!(recording_segment_seconds(&s), 10);
    for v in [5, 10, 15, 20, 25, 30] {
        s.recording_segment_seconds = v;
        assert_eq!(recording_segment_seconds(&s), v);
    }
    for v in [0, 7, 31, 600] {
        s.recording_segment_seconds = v;
        assert_eq!(recording_segment_seconds(&s), 10);
    }
}

#[test]
fn realtime_stream_wanted_for_either_feature() {
    let mut s = AppSettings::default();
    assert!(!realtime_wanted(&s));
    s.fast_asr_finalize = true;
    assert!(realtime_wanted(&s));
    s.fast_asr_finalize = false;
    s.show_realtime_transcript = true;
    assert!(realtime_wanted(&s));
}

#[test]
fn session_lifecycle() {
    let mut s = started_session("2024-05-01T10:00:00+08:00".into());
    assert!(s.active);
    assert_eq!(s.status, "recording");
    assert_eq!(s.elapsed_ms, 0);
    assert!(is_recording_active(&s));
    set_session_status(&mut s, "transcribing");
    assert_eq!(s.status, "transcribing");
    assert!(s.active);
    assert_eq!(s.started_at.as_deref(), Some("2024-05-01T10:00:00+08:00"));
    assert!(!is_recording_active(&s));
    assert!(!is_recording_active(&RecordingSession::default()));
}

#[test]
fn realtime_positions() {
    assert_eq!(realtime_tail_start(5, 9), 9);
    assert_eq!(realtime_tail_start(9, 5), 9);
    assert_eq!(reconnect_start_index(100, 30), 70);
    assert_eq!(reconnect_start_index(10, 30), 0);
    assert_eq!(FAST_ASR_FINAL_WAIT_MS, 3000);
}

#[test]
fn new_record_is_pending() {
    let r = pending();
    assert_eq!(r.id, "rec-1");
    assert_eq!(r.created_at, r.updated_at);
    assert_eq!(r.asr_status, "pending");
    assert_eq!(r.optimize_status, "pending");
    assert_eq!(r.raw_asr_text, "");
    assert_eq!(r.final_text, "");
    assert_eq!(r.audio_expires_at.as_deref(), Some("2024-05-08T10:00:00+08:00"));
    assert_eq!(r.openrouter_model.as_deref(), Some("openrouter/auto"));
    assert!(r.copied_at.is_none() && r.pasted_at.is_none() && r.error_message.is_none());
}

#[test]
fn audio_save_outcomes() {
    let r = apply_audio_save_success(pending(), "a.wav".into(), 4_200, "t2".into());
    assert_eq!(r.audio_path.as_deref(), Some("a.wav"));
    assert_eq!(r.duration_ms, Some(4_200));
    assert_eq!(r.updated_at, "t2");
    assert_eq!(r.asr_status, "pending");
    let r = apply_audio_save_failure(pending(), "磁盘已满", "t3".into());
    assert!(r.audio_path.is_none() && r.duration_ms.is_none());
    assert_eq!(r.asr_status, "failed");
    assert_eq!(r.optimize_status, "blocked");
    assert_eq!(r.error_message.as_deref(), Some("录音保存失败：磁盘已满"));
    let r = mark_missing_audio(pending());
    assert_eq!(r.asr_status, "failed");
    assert_eq!(r.error_message.as_deref(), Some("这条记录没有可用录音文件"));
    assert_eq!(r.optimize_status, "pending");
}

#[test]
fn transcription_completed() {
    let out = apply_transcription(
        pending(),
        Ok(("你好世界".into(), Some("log-1".into()), "req-1".into())),
        "t4".into(),
    );
    let r = out.expect("recognised text continues the flow");
    assert_eq!(r.raw_asr_text, "你好世界");
    assert_eq!(r.asr_status, "completed");
    assert_eq!(r.optimize_status, "pending");
    assert_eq!(r.doubao_log_id.as_deref(), Some("log-1"));
    assert_eq!(r.doubao_request_id.as_deref(), Some("req-1"));
    assert_eq!(r.audio_path.as_deref(), Some("recordings/rec-1.wav"));
    assert_eq!(r.updated_at, "t4");
}

#[test]
fn transcription_without_speech_stops() {
    let out = apply_transcription(pending(), Ok((" \n ".into(), None, "req-2".into())), "t5".into());
    let r = out.expect_err("blank text stops the flow");
    assert_eq!(r.raw_asr_text, "");
    assert_eq!(r.final_text, "没有录音");
    assert_eq!(r.asr_status, "no_speech");
    assert_eq!(r.optimize_status, "blocked");
    assert!(r.error_message.is_none());
    assert_eq!(r.doubao_request_id.as_deref(), Some("req-2"));
}

#[test]
fn transcription_failure_keeps_audio() {
    let out = apply_transcription(pending(), Err("连接超时".into()), "t6".into());
    let r = out.expect_err("a failure stops the flow");
    assert_eq!(r.asr_status, "failed");
    assert_eq!(r.optimize_status, "blocked");
    assert_eq!(r.error_message.as_deref(), Some("录音已保存，转写失败：连接超时"));
    assert_eq!(r.audio_path.as_deref(), Some("recordings/rec-1.wav"));
}

#[test]
fn fast_finalisation_outcomes() {
    match fast_asr_outcome(
        pending(),
        FastAsrResult::Finished("  快速结果 ".into(), Some("log".into()), "req".into()),
        "t7".into(),
    ) {
        FastAsrOutcome::Completed(r) => {
            assert_eq!(r.raw_asr_text, "快速结果");
            assert_eq!(r.asr_status, "completed");
            assert_eq!(r.optimize_status, "pending");
            assert_eq!(r.doubao_request_id.as_deref(), Some("req"));
            assert_eq!(r.updated_at, "t7");
        }
        FastAsrOutcome::Fallback(_) => panic!("a final text completes recognition"),
    }
    for result in [
        FastAsrResult::Finished("   ".into(), None, "req".into()),
        FastAsrResult::NotUploaded,
        FastAsrResult::NoCompletion,
        FastAsrResult::Failed("boom".into()),
        FastAsrResult::Dropped,
        FastAsrResult::TimedOut,
    ] {
        match fast_asr_outcome(pending(), result, "t8".into()) {
            FastAsrOutcome::Fallback(r) => {
                assert_eq!(r.asr_status, "pending");
                assert_eq!(r.updated_at, "2024-05-01T10:00:00+08:00");
            }
            FastAsrOutcome::Completed(_) => panic!("no usable result falls back"),
        }
    }
}

#[test]
fn optimisation_outcomes() {
    let mut base = pending();
    base.raw_asr_text = "嗯 今天 开会".into();
    base.copied_at = Some("old-copy".into());
    assert!(has_text_to_optimize(&base));
    assert!(!has_text_to_optimize(&pending()));

    let r = apply_optimization(base.clone(), OptimizeResult::NoText, "t9".into());
    assert_eq!(r.optimize_status, "blocked");
    assert_eq!(r.error_message.as_deref(), Some("没有可用于优化的 ASR 文本"));

    let r = apply_optimization(
        base.clone(),
        OptimizeResult::Done("今天开会。".into(), "deepseek-chat".into(), None, Some("p".into())),
        "t10".into(),
    );
    assert_eq!(r.final_text, "今天开会。");
    assert_eq!(r.raw_asr_text, "嗯 今天 开会");
    assert_eq!(r.optimize_status, "completed");
    assert_eq!(r.openrouter_model.as_deref(), Some("deepseek-chat"));
    assert_eq!(r.copied_at.as_deref(), Some("old-copy"));
    assert_eq!(r.pasted_at.as_deref(), Some("p"));
    assert!(r.error_message.is_none());

    let r = apply_optimization(base, OptimizeResult::Failed("HTTP 500".into()), "t11".into());
    assert_eq!(r.optimize_status, "failed");
    assert_eq!(r.error_message.as_deref(), Some("转写已保存，内容优化失败：HTTP 500"));
    assert_eq!(r.raw_asr_text, "嗯 今天 开会");
}

#[test]
fn paste_only_after_copy_with_auto_paste() {
    assert!(should_paste(true, true));
    assert!(!should_paste(true, false));
    assert!(!should_paste(false, true));
}

#[test]
fn progress_held_below_the_cap() {
    assert_eq!(capped_progress(50, 100, 90), 50);
    assert_eq!(capped_progress(95, 100, 90), 90);
    assert_eq!(capped_progress(5, 0, 90), 1);
    assert_eq!(capped_progress(0, 0, 90), 0);
    assert_eq!(capped_progress(u64::MAX, u64::MAX, 2), u64::MAX / 100);
}

#[test]
fn preview_orders_segments_by_time() {
    let segments = vec![seg(200, 300, "world"), seg(0, 100, "hello"), seg(100, 200, "hello")];
    assert_eq!(realtime_preview_text("ignored", &segments), "hello world");
    let chinese = vec![seg(500, 900, "世界"), seg(0, 400, "你好")];
    assert_eq!(realtime_preview_text("", &chinese), "你好世界");
    let blank = vec![seg(0, 100, "  ")];
    assert_eq!(realtime_preview_text("  整句结果 ", &blank), "整句结果");
    assert_eq!(realtime_preview_text(" 只有全文 ", &Vec::new()), "只有全文");
}

#[test]
fn ordering_is_stable_for_equal_times() {
    let segments = vec![seg(100, 200, "b"), seg(0, 50, "a"), seg(100, 200, "c"), seg(100, 150, "d")];
    let ordered = order_segments(&segments);
    let texts: Vec<&str> = ordered.iter().map(|s| s.text.as_str()).collect();
    assert_eq!(texts, vec!["a", "d", "b", "c"]);
}

#[test]
fn utterances_become_segments() {
    let utterances = vec![
        DoubaoUtterance { start_ms: 0, end_ms: 800, text: "第一句".into(), definite: true },
        DoubaoUtterance { start_ms: 800, end_ms: 1_500, text: "第二".into(), definite: false },
    ];
    let segments = transcript_segments(utterances);
    assert_eq!(segments.len(), 2);
    assert_eq!((segments[1].start_ms, segments[1].end_ms), (800, 1_500));
    assert_eq!(segments[1].text, "第二");
    assert!(segments[0].definite && !segments[1].definite);
}

#[test]
fn wav_extension_in_any_case() {
    assert!(is_wav_extension("wav"));
    assert!(is_wav_extension("WAV"));
    assert!(is_wav_extension("WaV"));
    assert!(!is_wav_extension("mp3"));
    assert!(!is_wav_extension("wave"));
    assert!(!is_wav_extension(""));
}

#[test]
fn startup_command_quotes_the_path() {
    assert_eq!(
        startup_command("C:\\Program Files\\SparkSpeech\\sparkspeech.exe"),
        "\"C:\\Program Files\\SparkSpeech\\sparkspeech.exe\" --silent"
    );
}

#[test]
fn silent_start_only_from_the_run_entry() {
    let args = vec!["C:\\app\\sparkspeech.exe".to_string(), SILENT_STARTUP_ARG.to_string()];
    assert!(is_silent_start(&args));
    assert!(!is_silent_start(&vec!["C:\\app\\sparkspeech.exe".to_string()]));
    assert!(!is_silent_start(&vec!["--silently".to_string()]));
    assert!(!is_silent_start(&Vec::new()));
}

#[test]
fn segment_cursor_moves_only_on_saves() {
    let c = segment_cursor_start();
    assert_eq!((c.saved, c.next_sample_index), (0, 0));
    assert_eq!(segment_to_save(&c, &RecordedAudio::from_pcm_16k(vec![0; 16_000])), Some(1));
    assert_eq!(segment_to_save(&c, &RecordedAudio::from_pcm_16k(vec![0; 15_999])), None);
    let c = advance_segment_cursor(c, true, 48_000);
    assert_eq!((c.saved, c.next_sample_index), (1, 48_000));
    let c = advance_segment_cursor(c, false, 96_000);
    assert_eq!((c.saved, c.next_sample_index), (1, 48_000));
    assert_eq!(segment_to_save(&c, &RecordedAudio::from_pcm_16k(vec![0; 32_000])), Some(2));
    let c = advance_segment_cursor(c, true, 144_000);
    assert_eq!((c.saved, c.next_sample_index), (2, 144_000));
}

#[test]
fn recognition_starts_only_from_saved_audio() {
    let mut r = pending();
    assert!(matches!(after_audio_save(&r, true), AfterSave::FastAsr));
    assert!(matches!(after_audio_save(&r, false), AfterSave::FullAsr));
    r.audio_path = None;
    assert!(matches!(after_audio_save(&r, true), AfterSave::Finish));
    assert!(matches!(after_audio_save(&r, false), AfterSave::Finish));
}
