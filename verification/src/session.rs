use vstd::prelude::*;

use crate::audio::{should_save_segment, RecordedAudio};
use crate::json::DoubaoUtterance;
use crate::models::{AppSettings, RealtimeTranscriptSegment, RecordingSession, SpeechRecord};
use crate::text::{
    ends_with, starts_with, appended, append_text_fragment, blank, chars_of, is_blank, owned, push_text, trim, trimmed,
};

verus! {

// ---------------------------------------------------------------------------
// Recording settings and session state
// ---------------------------------------------------------------------------

/// The segment save interval in seconds: 5, 10, 15, 20, 25 or 30 as set, 10 otherwise.
pub open spec fn segment_seconds(s: u64) -> u64 {
    if s == 5 || s == 10 || s == 15 || s == 20 || s == 25 || s == 30 {
        s
    } else {
        10
    }
}

/// How often a recording is saved as a segment, in seconds.
pub fn recording_segment_seconds(settings: &AppSettings) -> (r: u64)
    ensures
        r == segment_seconds(settings.recording_segment_seconds),
{
    let s = settings.recording_segment_seconds;
    if s == 5 || s == 10 || s == 15 || s == 20 || s == 25 || s == 30 {
        s
    } else {
        10
    }
}

/// Whether a recording runs the realtime recognition stream: for fast finalisation or for
/// the live preview.
pub fn realtime_wanted(settings: &AppSettings) -> (r: bool)
    ensures
        r == (settings.fast_asr_finalize || settings.show_realtime_transcript),
{
    settings.fast_asr_finalize || settings.show_realtime_transcript
}

/// The session state of a recording that has just started.
pub fn started_session(started_at: String) -> (s: RecordingSession)
    ensures
        s.active,
        s.started_at == Some(started_at),
        s.status@ == "recording"@,
        s.elapsed_ms == 0,
{
    RecordingSession { active: true, started_at: Some(started_at), status: owned("recording"), elapsed_ms: 0 }
}

/// The session with a new status; nothing else changes.
pub fn set_session_status(session: &mut RecordingSession, status: &str)
    ensures
        final(session).status@ == status@,
        final(session).active == old(session).active,
        final(session).started_at == old(session).started_at,
        final(session).elapsed_ms == old(session).elapsed_ms,
{
    session.status = owned(status);
}

/// Where the final upload of fast finalisation starts: after the audio already sent or
/// queued, whichever reaches further.
pub fn realtime_tail_start(checkpoint: usize, enqueued_checkpoint: usize) -> (r: usize)
    ensures
        r == if checkpoint >= enqueued_checkpoint {
            checkpoint
        } else {
            enqueued_checkpoint
        },
{
    if checkpoint >= enqueued_checkpoint {
        checkpoint
    } else {
        enqueued_checkpoint
    }
}

/// Where a reconnected realtime stream starts: `overlap` samples before what was sent, or at
/// the beginning.
pub fn reconnect_start_index(checkpoint: usize, overlap: usize) -> (r: usize)
    ensures
        r == if checkpoint >= overlap {
            checkpoint - overlap
        } else {
            0
        },
{
    checkpoint.saturating_sub(overlap)
}

/// How long fast finalisation waits for the stream's final result, in milliseconds.
pub const FAST_ASR_FINAL_WAIT_MS: u64 = 3000;

// ---------------------------------------------------------------------------
// Periodic segment saves
// ---------------------------------------------------------------------------

/// Where the periodic segment saves of a recording stand: how many segments are saved, and
/// where in the recorder's buffer the next segment starts.
pub struct SegmentCursor {
    pub saved: u32,
    pub next_sample_index: usize,
}

/// One save attempt: a saved segment is counted and the next one starts where it ended; a
/// failed save changes nothing, so the next attempt covers the same audio again.
pub open spec fn segment_step(saved: int, next: int, ok: bool, end: int) -> (int, int) {
    if ok {
        (saved + 1, end)
    } else {
        (saved, next)
    }
}

/// One wake-up of the segment loop with the audio since the cursor, `ms` long and ending at
/// `end`: audio shorter than a second is not saved and waits for more; otherwise the save
/// is attempted and its outcome `ok` moves the cursor as `segment_step` says.
pub open spec fn segment_tick(saved: int, next: int, ms: int, ok: bool, end: int) -> (int, int) {
    if ms >= 1000 {
        segment_step(saved, next, ok, end)
    } else {
        (saved, next)
    }
}

/// The cursor of a recording that has just started.
pub fn segment_cursor_start() -> (c: SegmentCursor)
    ensures
        c.saved == 0,
        c.next_sample_index == 0,
{
    SegmentCursor { saved: 0, next_sample_index: 0 }
}

/// Whether to save the audio since the cursor, and under which number: only audio of at
/// least one second is saved, numbered after the segments saved so far (none once the count
/// cannot grow).
pub fn segment_to_save(c: &SegmentCursor, audio: &RecordedAudio) -> (r: Option<u32>)
    ensures
        r == if audio.pcm_16k@.len() * 1000 / 16000 >= 1000 && c.saved < u32::MAX {
            Some((c.saved + 1) as u32)
        } else {
            None::<u32>
        },
{
    if should_save_segment(audio) && c.saved < u32::MAX {
        Some(c.saved + 1)
    } else {
        None
    }
}

/// The cursor after an attempt to save the segment that ends at `segment_end`.
pub fn advance_segment_cursor(c: SegmentCursor, saved: bool, segment_end: usize) -> (r: SegmentCursor)
    requires
        c.saved < u32::MAX,
    ensures
        (r.saved as int, r.next_sample_index as int) == segment_step(
            c.saved as int,
            c.next_sample_index as int,
            saved,
            segment_end as int,
        ),
{
    if saved {
        SegmentCursor { saved: c.saved + 1, next_sample_index: segment_end }
    } else {
        c
    }
}

/// The segments saved by a run of wake-ups of the segment loop, each the length in
/// milliseconds of the audio since the cursor, the save outcome, and where that audio ends,
/// starting from `saved` segments and position `next`: number, start, end and length of each.
pub open spec fn saved_segments(saved: int, next: int, ticks: Seq<(int, bool, int)>) -> Seq<(int, int, int, int)>
    decreases ticks.len(),
{
    if ticks.len() == 0 {
        Seq::empty()
    } else {
        let (ms, ok, end) = ticks[0];
        let (s2, n2) = segment_tick(saved, next, ms, ok, end);
        if ms >= 1000 && ok {
            seq![(s2, next, end, ms)] + saved_segments(s2, n2, ticks.drop_first())
        } else {
            saved_segments(s2, n2, ticks.drop_first())
        }
    }
}

/// Segment saves leave no gap and hold at least a second each: the saved segments are
/// numbered one after another from the count so far, the first starts where the cursor
/// stood, each starts where the previous one ended, whatever saves failed or waited in
/// between, and each is at least 1000 ms long.
pub proof fn law_segment_saves_are_contiguous(saved: int, next: int, ticks: Seq<(int, bool, int)>)
    ensures
        ({
            let segs = saved_segments(saved, next, ticks);
            &&& forall|k: int| 0 <= k < segs.len() ==> (#[trigger] segs[k]).0 == saved + k + 1
            &&& segs.len() > 0 ==> segs[0].1 == next
            &&& forall|k: int| 1 <= k < segs.len() ==> (#[trigger] segs[k]).1 == segs[k - 1].2
            &&& forall|k: int| 0 <= k < segs.len() ==> (#[trigger] segs[k]).3 >= 1000
        }),
    decreases ticks.len(),
{
    if ticks.len() > 0 {
        let (ms, ok, end) = ticks[0];
        let (s2, n2) = segment_tick(saved, next, ms, ok, end);
        law_segment_saves_are_contiguous(s2, n2, ticks.drop_first());
        let rest = saved_segments(s2, n2, ticks.drop_first());
        let segs = saved_segments(saved, next, ticks);
        if ms >= 1000 && ok {
            assert forall|k: int| 0 <= k < segs.len() implies (#[trigger] segs[k]).0 == saved + k + 1
                && segs[k].3 >= 1000 by {
                if k > 0 {
                    assert(segs[k] == rest[k - 1]);
                }
            }
            assert forall|k: int| 1 <= k < segs.len() implies (#[trigger] segs[k]).1 == segs[k - 1].2 by {
                assert(segs[k] == rest[k - 1]);
                if k == 1 {
                    assert(segs[0] == (s2, next, end, ms));
                    assert(rest[0].1 == n2);
                } else {
                    assert(segs[k - 1] == rest[k - 2]);
                    assert(rest[k - 1].1 == rest[k - 2].2);
                }
            }
        }
    }
}

// ---------------------------------------------------------------------------
// Records through their life
// ---------------------------------------------------------------------------

/// A new record for a recording or an imported file: nothing recognised yet, both steps
/// pending, no copy or paste.
pub fn new_pending_record(
    id: String,
    now: String,
    audio_expires_at: String,
    audio_path: Option<String>,
    duration_ms: Option<u64>,
    model: String,
) -> (r: SpeechRecord)
    ensures
        r.id == id,
        r.created_at == now,
        r.updated_at == now,
        r.raw_asr_text@.len() == 0,
        r.final_text@.len() == 0,
        r.audio_path == audio_path,
        r.duration_ms == duration_ms,
        r.audio_expires_at == Some(audio_expires_at),
        r.asr_status@ == "pending"@,
        r.optimize_status@ == "pending"@,
        r.copied_at is None,
        r.pasted_at is None,
        r.error_message is None,
        r.doubao_request_id is None,
        r.doubao_log_id is None,
        r.openrouter_model == Some(model),
{
    let updated_at = now.clone();
    SpeechRecord {
        id,
        created_at: now,
        updated_at,
        raw_asr_text: String::new(),
        final_text: String::new(),
        audio_path,
        duration_ms,
        audio_expires_at: Some(audio_expires_at),
        asr_status: owned("pending"),
        optimize_status: owned("pending"),
        copied_at: None,
        pasted_at: None,
        error_message: None,
        doubao_request_id: None,
        doubao_log_id: None,
        openrouter_model: Some(model),
    }
}

/// The record once its audio file is written: it gets the file and the measured length.
pub fn apply_audio_save_success(record: SpeechRecord, audio_path: String, duration_ms: u64, now: String) -> (r:
    SpeechRecord)
    ensures
        r == (SpeechRecord {
            audio_path: Some(audio_path),
            duration_ms: Some(duration_ms),
            updated_at: now,
            ..record
        }),
{
    SpeechRecord { audio_path: Some(audio_path), duration_ms: Some(duration_ms), updated_at: now, ..record }
}

/// The record when its audio could not be written: no file, recognition failed, optimisation
/// blocked, and the reason.
pub fn apply_audio_save_failure(record: SpeechRecord, error: &str, now: String) -> (r: SpeechRecord)
    ensures
        r.audio_path is None,
        r.duration_ms is None,
        r.asr_status@ == "failed"@,
        r.optimize_status@ == "blocked"@,
        r.error_message is Some && r.error_message->Some_0@ == "录音保存失败："@ + error@,
        r.updated_at == now,
        r.id == record.id,
        r.created_at == record.created_at,
        r.raw_asr_text == record.raw_asr_text,
        r.final_text == record.final_text,
        r.audio_expires_at == record.audio_expires_at,
        r.copied_at == record.copied_at,
        r.pasted_at == record.pasted_at,
        r.doubao_request_id == record.doubao_request_id,
        r.doubao_log_id == record.doubao_log_id,
        r.openrouter_model == record.openrouter_model,
{
    let mut message = owned("录音保存失败：");
    push_text(&mut message, error);
    SpeechRecord {
        audio_path: None,
        duration_ms: None,
        asr_status: owned("failed"),
        optimize_status: owned("blocked"),
        error_message: Some(message),
        updated_at: now,
        ..record
    }
}

/// The record when recognition is asked for but it has no audio file: recognition failed,
/// with the reason; nothing else changes.
pub fn mark_missing_audio(record: SpeechRecord) -> (r: SpeechRecord)
    ensures
        r.asr_status@ == "failed"@,
        r.error_message is Some && r.error_message->Some_0@ == "这条记录没有可用录音文件"@,
        r == (SpeechRecord { asr_status: r.asr_status, error_message: r.error_message, ..record }),
{
    SpeechRecord {
        asr_status: owned("failed"),
        error_message: Some(owned("这条记录没有可用录音文件")),
        ..record
    }
}

/// The record after recognition of its whole audio. A transcript that is not blank completes
/// recognition and leaves optimisation pending (`Ok`). A blank one records "no speech" and
/// blocks optimisation; a failure keeps the audio and records the error (both `Err`: the
/// flow stops there). The audio file is never touched.
pub fn apply_transcription(
    record: SpeechRecord,
    outcome: Result<(String, Option<String>, String), String>,
    now: String,
) -> (r: Result<SpeechRecord, SpeechRecord>)
    requires
        record.audio_path is Some,
    ensures
        r matches Ok(out) ==> out.audio_path is Some && out.asr_status@ == "completed"@,
        ({
            let out = match r {
                Ok(x) => x,
                Err(x) => x,
            };
            &&& out.id == record.id
            &&& out.created_at == record.created_at
            &&& out.audio_path == record.audio_path
            &&& out.duration_ms == record.duration_ms
            &&& out.audio_expires_at == record.audio_expires_at
            &&& out.copied_at == record.copied_at
            &&& out.pasted_at == record.pasted_at
            &&& out.openrouter_model == record.openrouter_model
            &&& out.updated_at == now
            &&& match outcome {
                Ok((text, log_id, request_id)) => {
                    &&& out.doubao_log_id == log_id
                    &&& out.doubao_request_id == Some(request_id)
                    &&& out.error_message is None
                    &&& if is_blank(text@) {
                        &&& r is Err
                        &&& out.raw_asr_text@.len() == 0
                        &&& out.final_text@ == "没有录音"@
                        &&& out.asr_status@ == "no_speech"@
                        &&& out.optimize_status@ == "blocked"@
                    } else {
                        &&& r is Ok
                        &&& out.raw_asr_text == text
                        &&& out.final_text == record.final_text
                        &&& out.asr_status@ == "completed"@
                        &&& out.optimize_status@ == "pending"@
                    }
                },
                Err(e) => {
                    &&& r is Err
                    &&& out.raw_asr_text == record.raw_asr_text
                    &&& out.final_text == record.final_text
                    &&& out.asr_status@ == "failed"@
                    &&& out.optimize_status@ == "blocked"@
                    &&& out.error_message is Some
                    &&& out.error_message->Some_0@ == "录音已保存，转写失败："@ + e@
                    &&& out.doubao_log_id == record.doubao_log_id
                    &&& out.doubao_request_id == record.doubao_request_id
                },
            }
        }),
{
    match outcome {
        Ok((text, log_id, request_id)) => {
            if blank(text.as_str()) {
                Err(
                    SpeechRecord {
                        raw_asr_text: String::new(),
                        final_text: owned("没有录音"),
                        asr_status: owned("no_speech"),
                        optimize_status: owned("blocked"),
                        error_message: None,
                        doubao_log_id: log_id,
                        doubao_request_id: Some(request_id),
                        updated_at: now,
                        ..record
                    },
                )
            } else {
                Ok(
                    SpeechRecord {
                        raw_asr_text: text,
                        asr_status: owned("completed"),
                        optimize_status: owned("pending"),
                        error_message: None,
                        doubao_log_id: log_id,
                        doubao_request_id: Some(request_id),
                        updated_at: now,
                        ..record
                    },
                )
            }
        },
        Err(e) => {
            let mut message = owned("录音已保存，转写失败：");
            push_text(&mut message, e.as_str());
            Err(
                SpeechRecord {
                    asr_status: owned("failed"),
                    optimize_status: owned("blocked"),
                    error_message: Some(message),
                    updated_at: now,
                    ..record
                },
            )
        },
    }
}

/// What a stopped recording does once its audio save has ended.
pub enum AfterSave {
    /// The audio was not saved: the record is final as it is, nothing is recognised.
    Finish,
    /// Wait for the realtime stream's final result.
    FastAsr,
    /// Recognise the whole saved audio.
    FullAsr,
}

/// The step after the audio save: recognition starts only from a saved audio file, by fast
/// finalisation when it is on, else from the whole file.
pub fn after_audio_save(record: &SpeechRecord, fast_asr_finalize: bool) -> (a: AfterSave)
    ensures
        record.audio_path is None <==> a is Finish,
        a is FastAsr <==> (record.audio_path is Some && fast_asr_finalize),
        a is FullAsr <==> (record.audio_path is Some && !fast_asr_finalize),
{
    if record.audio_path.is_none() {
        AfterSave::Finish
    } else if fast_asr_finalize {
        AfterSave::FastAsr
    } else {
        AfterSave::FullAsr
    }
}

/// What came of the realtime stream when a recording stopped with fast finalisation on.
pub enum FastAsrResult {
    /// The last audio was not handed to the stream.
    NotUploaded,
    /// The stream gave no way to wait for its result.
    NoCompletion,
    /// The stream reported an error.
    Failed(String),
    /// The stream's task ended without a result.
    Dropped,
    /// The final result did not come in time.
    TimedOut,
    /// The final result: recognised text, log id and request id.
    Finished(String, Option<String>, String),
}

/// The next step after fast finalisation: the recognised record, or the record to recognise
/// from its whole audio.
pub enum FastAsrOutcome {
    Completed(SpeechRecord),
    Fallback(SpeechRecord),
}

/// Decides what fast finalisation gave. A final text that is not blank completes recognition,
/// with its ids. Anything else (no upload, no result, an error, a timeout, or a final text
/// with nothing usable in it) falls back to recognising the whole audio, the record as it was.
pub fn fast_asr_outcome(record: SpeechRecord, result: FastAsrResult, now: String) -> (r: FastAsrOutcome)
    requires
        record.audio_path is Some,
    ensures
        r matches FastAsrOutcome::Completed(out) ==> out.audio_path is Some,
        match result {
            FastAsrResult::Finished(text, log_id, request_id) => if is_blank(text@) {
                r == FastAsrOutcome::Fallback(record)
            } else {
                r matches FastAsrOutcome::Completed(out) && out.raw_asr_text@ == trim(text@)
                    && out.asr_status@ == "completed"@ && out.optimize_status@ == "pending"@
                    && out.error_message is None && out.doubao_log_id == log_id
                    && out.doubao_request_id == Some(request_id) && out.updated_at == now
                    && out.id == record.id && out.created_at == record.created_at
                    && out.audio_path == record.audio_path && out.duration_ms == record.duration_ms
                    && out.final_text == record.final_text
                    && out.audio_expires_at == record.audio_expires_at
                    && out.copied_at == record.copied_at && out.pasted_at == record.pasted_at
                    && out.openrouter_model == record.openrouter_model
            },
            _ => r == FastAsrOutcome::Fallback(record),
        },
{
    match result {
        FastAsrResult::Finished(text, log_id, request_id) => {
            let t = trimmed(text.as_str());
            if chars_of(t.as_str()).len() == 0 {
                return FastAsrOutcome::Fallback(record);
            }
            FastAsrOutcome::Completed(
                SpeechRecord {
                    raw_asr_text: t,
                    asr_status: owned("completed"),
                    optimize_status: owned("pending"),
                    error_message: None,
                    doubao_log_id: log_id,
                    doubao_request_id: Some(request_id),
                    updated_at: now,
                    ..record
                },
            )
        },
        _ => FastAsrOutcome::Fallback(record),
    }
}

/// What came of text optimisation.
pub enum OptimizeResult {
    /// The record has no recognised text to optimise.
    NoText,
    /// The optimised text, the model used, and when it was copied and pasted, if it was.
    Done(String, String, Option<String>, Option<String>),
    /// The provider's error.
    Failed(String),
}

/// Whether a record has recognised text to optimise.
pub fn has_text_to_optimize(record: &SpeechRecord) -> (b: bool)
    ensures
        b == !is_blank(record.raw_asr_text@),
{
    !blank(record.raw_asr_text.as_str())
}

/// Whether the optimised text is pasted: only once it was copied, and only with auto-paste on.
pub fn should_paste(copied: bool, auto_paste: bool) -> (b: bool)
    ensures
        b == (copied && auto_paste),
{
    copied && auto_paste
}

/// The record after text optimisation. Its recognised text is always kept.
pub fn apply_optimization(record: SpeechRecord, result: OptimizeResult, now: String) -> (r: SpeechRecord)
    ensures
        r.id == record.id,
        r.created_at == record.created_at,
        r.raw_asr_text == record.raw_asr_text,
        r.audio_path == record.audio_path,
        r.duration_ms == record.duration_ms,
        r.audio_expires_at == record.audio_expires_at,
        r.asr_status == record.asr_status,
        r.doubao_request_id == record.doubao_request_id,
        r.doubao_log_id == record.doubao_log_id,
        r.updated_at == now,
        match result {
            OptimizeResult::NoText => {
                &&& r.optimize_status@ == "blocked"@
                &&& r.error_message is Some
                &&& r.error_message->Some_0@ == "没有可用于优化的 ASR 文本"@
                &&& r.final_text == record.final_text
                &&& r.copied_at == record.copied_at
                &&& r.pasted_at == record.pasted_at
                &&& r.openrouter_model == record.openrouter_model
            },
            OptimizeResult::Done(text, model, copied_at, pasted_at) => {
                &&& r.final_text == text
                &&& r.optimize_status@ == "completed"@
                &&& r.error_message is None
                &&& r.openrouter_model == Some(model)
                &&& r.copied_at == if copied_at is Some {
                    copied_at
                } else {
                    record.copied_at
                }
                &&& r.pasted_at == if pasted_at is Some {
                    pasted_at
                } else {
                    record.pasted_at
                }
            },
            OptimizeResult::Failed(e) => {
                &&& r.optimize_status@ == "failed"@
                &&& r.error_message is Some
                &&& r.error_message->Some_0@ == "转写已保存，内容优化失败："@ + e@
                &&& r.final_text == record.final_text
                &&& r.copied_at == record.copied_at
                &&& r.pasted_at == record.pasted_at
                &&& r.openrouter_model == record.openrouter_model
            },
        },
{
    match result {
        OptimizeResult::NoText => SpeechRecord {
            optimize_status: owned("blocked"),
            error_message: Some(owned("没有可用于优化的 ASR 文本")),
            updated_at: now,
            ..record
        },
        OptimizeResult::Done(text, model, copied_at, pasted_at) => {
            let copied_at = match copied_at {
                Some(t) => Some(t),
                None => record.copied_at,
            };
            let pasted_at = match pasted_at {
                Some(t) => Some(t),
                None => record.pasted_at,
            };
            SpeechRecord {
                final_text: text,
                optimize_status: owned("completed"),
                error_message: None,
                openrouter_model: Some(model),
                copied_at,
                pasted_at,
                updated_at: now,
                ..record
            }
        },
        OptimizeResult::Failed(e) => {
            let mut message = owned("转写已保存，内容优化失败：");
            push_text(&mut message, e.as_str());
            SpeechRecord {
                optimize_status: owned("failed"),
                error_message: Some(message),
                updated_at: now,
                ..record
            }
        },
    }
}

// ---------------------------------------------------------------------------
// Progress
// ---------------------------------------------------------------------------

/// Progress shown while a step runs: `current`, held below `percent` per cent of `total`
/// (at least 1) until the step ends.
pub open spec fn capped(current: u64, total: u64, percent: u64) -> u64 {
    let scaled = if total * percent > u64::MAX {
        u64::MAX
    } else {
        (total * percent) as u64
    };
    let cap = if scaled / 100 < 1 {
        1
    } else {
        scaled / 100
    };
    if current < cap {
        current
    } else {
        cap
    }
}

/// Progress shown while a step runs, held below `percent` per cent of the total.
pub fn capped_progress(current: u64, total: u64, percent: u64) -> (r: u64)
    ensures
        r == capped(current, total, percent),
{
    let scaled = match total.checked_mul(percent) {
        Some(v) => v,
        None => u64::MAX,
    };
    let cap = scaled / 100;
    let cap = if cap < 1 {
        1
    } else {
        cap
    };
    if current < cap {
        current
    } else {
        cap
    }
}

// ---------------------------------------------------------------------------
// Realtime preview
// ---------------------------------------------------------------------------

/// Segments ordered by start and then end time; segments with equal times keep their order.
pub open spec fn time_le(a: RealtimeTranscriptSegment, b: RealtimeTranscriptSegment) -> bool {
    a.start_ms < b.start_ms || (a.start_ms == b.start_ms && a.end_ms <= b.end_ms)
}

/// `out` holds the segments of `input` in the order `perm` picks, each once.
pub open spec fn segment_picks(
    out: Seq<RealtimeTranscriptSegment>,
    input: Seq<RealtimeTranscriptSegment>,
    perm: Seq<int>,
) -> bool {
    &&& perm.len() == out.len() == input.len()
    &&& forall|j: int| 0 <= j < perm.len() ==> 0 <= #[trigger] perm[j] < input.len()
    &&& forall|j: int| 0 <= j < perm.len() ==> out[j] == input[#[trigger] perm[j]]
    &&& forall|j1: int, j2: int|
        0 <= j1 < perm.len() && 0 <= j2 < perm.len() && j1 != j2 ==> #[trigger] perm[j1]
            != #[trigger] perm[j2]
}

/// `out` is `input` stably sorted by start and end time.
pub open spec fn sorted_by_time(out: Seq<RealtimeTranscriptSegment>, input: Seq<RealtimeTranscriptSegment>) -> bool {
    exists|perm: Seq<int>|
        {
            &&& #[trigger] segment_picks(out, input, perm)
            &&& forall|j1: int, j2: int|
                0 <= j1 < j2 < out.len() ==> time_le(#[trigger] out[j1], #[trigger] out[j2])
            &&& forall|j1: int, j2: int|
                0 <= j1 < j2 < out.len() && (#[trigger] out[j1]).start_ms == (#[trigger] out[j2]).start_ms
                    && out[j1].end_ms == out[j2].end_ms ==> perm[j1] < perm[j2]
        }
}

/// The preview built from segments in this order, each appended as a fragment.
pub open spec fn fold_fragments(segments: Seq<RealtimeTranscriptSegment>) -> Seq<char>
    decreases segments.len(),
{
    if segments.len() == 0 {
        Seq::empty()
    } else {
        appended(fold_fragments(segments.drop_last()), segments.last().text@)
    }
}

/// The segments with their definite flags replaced by `flags`.
pub open spec fn with_flags(segments: Seq<RealtimeTranscriptSegment>, flags: Seq<bool>) -> Seq<RealtimeTranscriptSegment> {
    Seq::new(
        segments.len(),
        |i: int|
            RealtimeTranscriptSegment {
                start_ms: segments[i].start_ms,
                end_ms: segments[i].end_ms,
                text: segments[i].text,
                definite: flags[i],
            },
    )
}

/// The preview shows every segment whether or not recognition has settled it: it does not
/// depend on the segments' definite flags.
pub proof fn law_preview_ignores_definite(segments: Seq<RealtimeTranscriptSegment>, flags: Seq<bool>)
    requires
        flags.len() == segments.len(),
    ensures
        fold_fragments(with_flags(segments, flags)) == fold_fragments(segments),
    decreases segments.len(),
{
    if segments.len() > 0 {
        law_preview_ignores_definite(segments.drop_last(), flags.drop_last());
        assert(with_flags(segments, flags).drop_last() =~= with_flags(segments.drop_last(), flags.drop_last()));
        assert(with_flags(segments, flags).last().text == segments.last().text);
    }
}

/// Whatever came before, the preview ends with the trimmed text of the last segment when that
/// text is not blank, and it keeps what the earlier segments made as its beginning.
pub proof fn law_preview_ends_with_last_segment(segments: Seq<RealtimeTranscriptSegment>)
    requires
        segments.len() > 0,
    ensures
        !is_blank(segments.last().text@) ==> ends_with(
            fold_fragments(segments),
            trim(segments.last().text@),
        ),
        starts_with(fold_fragments(segments), fold_fragments(segments.drop_last())),
{
    let before = fold_fragments(segments.drop_last());
    let out = fold_fragments(segments);
    let f = trim(segments.last().text@);
    assert(out.subrange(0, before.len() as int) =~= before);
    if f.len() > 0 {
        assert(out.subrange(out.len() - f.len(), out.len() as int) =~= f);
    }
}

/// The preview text of a realtime response: its segments in time order, appended one after
/// another; the trimmed response text when that gives nothing.
pub open spec fn preview_text(text: Seq<char>, ordered: Seq<RealtimeTranscriptSegment>) -> Seq<char> {
    if is_blank(fold_fragments(ordered)) {
        trim(text)
    } else {
        fold_fragments(ordered)
    }
}

fn copy_segment(s: &RealtimeTranscriptSegment) -> (r: RealtimeTranscriptSegment)
    ensures
        r == *s,
{
    RealtimeTranscriptSegment {
        start_ms: s.start_ms,
        end_ms: s.end_ms,
        text: s.text.clone(),
        definite: s.definite,
    }
}

/// Orders segments by start and end time, stably.
pub fn order_segments(segments: &Vec<RealtimeTranscriptSegment>) -> (out: Vec<RealtimeTranscriptSegment>)
    ensures
        sorted_by_time(out@, segments@),
{
    let mut out: Vec<RealtimeTranscriptSegment> = Vec::new();
    let ghost mut perm: Seq<int> = Seq::empty();
    let mut i: usize = 0;
    while i < segments.len()
        invariant
            i <= segments.len(),
            perm.len() == out.len() == i,
            forall|j: int| 0 <= j < perm.len() ==> 0 <= #[trigger] perm[j] < i,
            forall|j: int| 0 <= j < perm.len() ==> out@[j] == segments@[#[trigger] perm[j]],
            forall|j1: int, j2: int|
                0 <= j1 < perm.len() && 0 <= j2 < perm.len() && j1 != j2 ==> #[trigger] perm[j1]
                    != #[trigger] perm[j2],
            forall|j1: int, j2: int|
                0 <= j1 < j2 < out.len() ==> time_le(#[trigger] out@[j1], #[trigger] out@[j2]),
            forall|j1: int, j2: int|
                0 <= j1 < j2 < out.len() && (#[trigger] out@[j1]).start_ms == (
                #[trigger] out@[j2]).start_ms && out@[j1].end_ms == out@[j2].end_ms ==> perm[j1]
                    < perm[j2],
        decreases segments.len() - i,
    {
        let s = copy_segment(&segments[i]);
        let mut p: usize = 0;
        while p < out.len() && time_le_exec(&out[p], &s)
            invariant
                p <= out.len(),
                forall|j: int| 0 <= j < p ==> time_le(#[trigger] out@[j], s),
            decreases out.len() - p,
        {
            p = p + 1;
        }
        proof {
            assert forall|j: int| p <= j < out.len() implies !time_le(#[trigger] out@[j], s) by {
                assert(!time_le(out@[p as int], s));
                if j > p {
                    assert(time_le(out@[p as int], out@[j]));
                }
            }
        }
        let ghost old_out = out@;
        let ghost old_perm = perm;
        out.insert(p, s);
        proof {
            perm = old_perm.insert(p as int, i as int);
            assert(out@ == old_out.insert(p as int, segments@[i as int]));
            assert forall|j: int| 0 <= j < perm.len() implies 0 <= #[trigger] perm[j] < i + 1
                && out@[j] == segments@[perm[j]] by {
                if j > p {
                    assert(perm[j] == old_perm[j - 1]);
                    assert(out@[j] == old_out[j - 1]);
                } else if j < p {
                    assert(perm[j] == old_perm[j]);
                    assert(out@[j] == old_out[j]);
                }
            }
            assert forall|j1: int, j2: int|
                0 <= j1 < perm.len() && 0 <= j2 < perm.len() && j1 != j2 implies #[trigger] perm[j1]
                != #[trigger] perm[j2] by {
                let o1 = if j1 < p { j1 } else { j1 - 1 };
                let o2 = if j2 < p { j2 } else { j2 - 1 };
                if j1 != p && j2 != p {
                    assert(perm[j1] == old_perm[o1]);
                    assert(perm[j2] == old_perm[o2]);
                } else if j1 == p {
                    assert(perm[j2] == old_perm[o2]);
                } else {
                    assert(perm[j1] == old_perm[o1]);
                }
            }
            assert forall|a: int, b: int| 0 <= a < b < out@.len() implies time_le(
                #[trigger] out@[a],
                #[trigger] out@[b],
            ) by {
                if a == p {
                    assert(out@[b] == old_out[b - 1]);
                } else if b == p {
                    assert(out@[a] == old_out[a]);
                } else {
                    let oa = if a < p { a } else { a - 1 };
                    let ob = if b < p { b } else { b - 1 };
                    assert(out@[a] == old_out[oa]);
                    assert(out@[b] == old_out[ob]);
                }
            }
            assert forall|a: int, b: int|
                0 <= a < b < out@.len() && (#[trigger] out@[a]).start_ms == (
                #[trigger] out@[b]).start_ms && out@[a].end_ms == out@[b].end_ms implies perm[a]
                < perm[b] by {
                if a == p {
                    assert(out@[b] == old_out[b - 1]);
                } else if b == p {
                    assert(perm[a] == old_perm[a]);
                } else {
                    let oa = if a < p { a } else { a - 1 };
                    let ob = if b < p { b } else { b - 1 };
                    assert(out@[a] == old_out[oa]);
                    assert(out@[b] == old_out[ob]);
                    assert(perm[a] == old_perm[oa]);
                    assert(perm[b] == old_perm[ob]);
                }
            }
        }
        i = i + 1;
    }
    assert(segment_picks(out@, segments@, perm));
    out
}

fn time_le_exec(a: &RealtimeTranscriptSegment, b: &RealtimeTranscriptSegment) -> (r: bool)
    ensures
        r == time_le(*a, *b),
{
    a.start_ms < b.start_ms || (a.start_ms == b.start_ms && a.end_ms <= b.end_ms)
}

/// The preview text of a realtime response (see `preview_text`).
pub fn realtime_preview_text(text: &str, segments: &Vec<RealtimeTranscriptSegment>) -> (r: String)
    ensures
        exists|ordered: Seq<RealtimeTranscriptSegment>|
            sorted_by_time(ordered, segments@) && r@ == preview_text(text@, ordered),
{
    let ordered = order_segments(segments);
    let mut preview = String::new();
    let mut i: usize = 0;
    while i < ordered.len()
        invariant
            i <= ordered.len(),
            preview@ == fold_fragments(ordered@.take(i as int)),
        decreases ordered.len() - i,
    {
        assert(ordered@.take(i + 1).drop_last() =~= ordered@.take(i as int));
        append_text_fragment(&mut preview, ordered[i].text.as_str());
        i = i + 1;
    }
    assert(ordered@.take(ordered@.len() as int) =~= ordered@);
    if blank(preview.as_str()) {
        trimmed(text)
    } else {
        preview
    }
}


/// Whether the session is recording right now.
pub fn is_recording_active(session: &RecordingSession) -> (b: bool)
    ensures
        b == (session.status@ == "recording"@),
{
    crate::text::same_text(session.status.as_str(), "recording")
}

pub open spec fn utterance_segment(u: DoubaoUtterance) -> RealtimeTranscriptSegment {
    RealtimeTranscriptSegment { start_ms: u.start_ms, end_ms: u.end_ms, text: u.text, definite: u.definite }
}

/// The transcript segments of recognised utterances, field by field.
pub fn transcript_segments(utterances: Vec<DoubaoUtterance>) -> (r: Vec<RealtimeTranscriptSegment>)
    ensures
        r@ == utterances@.map_values(|u: DoubaoUtterance| utterance_segment(u)),
{
    let mut r: Vec<RealtimeTranscriptSegment> = Vec::new();
    let mut i: usize = 0;
    while i < utterances.len()
        invariant
            i <= utterances.len(),
            r@ == utterances@.take(i as int).map_values(|u: DoubaoUtterance| utterance_segment(u)),
        decreases utterances.len() - i,
    {
        let u = &utterances[i];
        r.push(
            RealtimeTranscriptSegment {
                start_ms: u.start_ms,
                end_ms: u.end_ms,
                text: u.text.clone(),
                definite: u.definite,
            },
        );
        assert(utterances@.take(i + 1).map_values(|u: DoubaoUtterance| utterance_segment(u))
            =~= utterances@.take(i as int).map_values(|u: DoubaoUtterance| utterance_segment(u)).push(
            utterance_segment(utterances@[i as int]),
        ));
        i = i + 1;
    }
    assert(utterances@.take(utterances@.len() as int) =~= utterances@);
    r
}

/// ASCII lower case of a character.
pub open spec fn ascii_lower(c: char) -> char {
    if 65 <= (c as u32) <= 90 {
        ((c as u32) + 32) as char
    } else {
        c
    }
}

/// Whether a file extension is `wav` in any ASCII case.
pub fn is_wav_extension(extension: &str) -> (b: bool)
    ensures
        b == (extension@.map_values(|c: char| ascii_lower(c)) == "wav"@),
{
    let v = crate::text::chars_of(extension);
    let w = crate::text::chars_of("wav");
    proof {
        reveal_strlit("wav");
    }
    if v.len() != 3 {
        assert(v@.map_values(|c: char| ascii_lower(c)).len() != 3);
        return false;
    }
    let mut i: usize = 0;
    while i < 3
        invariant
            i <= 3,
            v@.len() == 3,
            v@ == extension@,
            w@ == "wav"@,
            w@.len() == 3,
            forall|j: int| 0 <= j < i ==> ascii_lower(#[trigger] v@[j]) == w@[j],
        decreases 3 - i,
    {
        let c = v[i];
        let u = c as u32;
        let lower = if 65 <= u && u <= 90 {
            ((u + 32) as u8) as char
        } else {
            c
        };
        assert(lower == ascii_lower(c)) by {
            if 65 <= u && u <= 90 {
                assert(((u + 32) as u8) as char == ((u + 32) as u32) as char);
            }
        }
        if lower != w[i] {
            assert(v@.map_values(|c: char| ascii_lower(c))[i as int] != w@[i as int]);
            return false;
        }
        i = i + 1;
    }
    assert(v@.map_values(|c: char| ascii_lower(c)) =~= w@);
    true
}

/// The argument that a login start passes so that the app opens to the tray only.
pub const SILENT_STARTUP_ARG: &'static str = "--silent";

/// The command that the Windows Run entry starts: the program's path in double quotes,
/// followed by the silent startup argument.
pub fn startup_command(exe_path: &str) -> (c: String)
    ensures
        c@ == seq!['"'] + exe_path@ + seq!['"'] + " "@ + SILENT_STARTUP_ARG@,
{
    let mut c = String::new();
    crate::text::push_char(&mut c, '"');
    push_text(&mut c, exe_path);
    crate::text::push_char(&mut c, '"');
    push_text(&mut c, " ");
    push_text(&mut c, SILENT_STARTUP_ARG);
    c
}

/// Whether the app was started from the Run entry: some argument is the silent startup
/// argument. A manual start shows the main window.
pub fn is_silent_start(args: &Vec<String>) -> (b: bool)
    ensures
        b == exists|i: int| 0 <= i < args@.len() && (#[trigger] args@[i])@ == SILENT_STARTUP_ARG@,
{
    let mut i: usize = 0;
    while i < args.len()
        invariant
            i <= args.len(),
            forall|j: int| 0 <= j < i ==> (#[trigger] args@[j])@ != SILENT_STARTUP_ARG@,
        decreases args.len() - i,
    {
        if crate::text::same_text(args[i].as_str(), SILENT_STARTUP_ARG) {
            return true;
        }
        i = i + 1;
    }
    false
}

} // verus!
