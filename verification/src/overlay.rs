use vstd::prelude::*;

use crate::models::{OverlayState, SpeechRecord};
use crate::models::clone_opt;
use crate::text::{owned, push_text, same_text};

verus! {

/// The overlay for a processing phase: visible, with its label and elapsed time, and nothing
/// else.
pub fn overlay_for_phase(phase: &str, label: &str, elapsed_ms: u64) -> (s: OverlayState)
    ensures
        s.visible,
        s.phase@ == phase@,
        s.label@ == label@,
        s.elapsed_ms == elapsed_ms,
        s.input_level_milli == 0,
        s.action_label is None,
        s.status_kind is None,
        s.transcript_lines@.len() == 0,
        s.progress_current is None,
        s.progress_total is None,
        !s.reconnect_available,
{
    OverlayState {
        visible: true,
        phase: owned(phase),
        label: owned(label),
        elapsed_ms,
        input_level_milli: 0,
        action_label: None,
        status_kind: None,
        transcript_lines: Vec::new(),
        progress_current: None,
        progress_total: None,
        reconnect_available: false,
    }
}

/// While a recording runs, the overlay stays on it: any other phase waits.
pub fn should_defer_overlay_to_active_recording(phase: &str, recording_active: bool) -> (b: bool)
    ensures
        b == (phase@ != "recording"@ && recording_active),
{
    !same_text(phase, "recording") && recording_active
}

/// Whether the overlay opens its larger layout: always while transcribing, optimising or
/// asking for attention; while recording only with the live preview on.
pub fn should_expand_overlay(phase: &str, show_realtime_transcript: bool) -> (b: bool)
    ensures
        b == (phase@ == "transcribing"@ || phase@ == "optimizing"@ || phase@ == "attention"@ || (
        phase@ == "recording"@ && show_realtime_transcript)),
{
    if same_text(phase, "transcribing") || same_text(phase, "optimizing") || same_text(
        phase,
        "attention",
    ) {
        return true;
    }
    if !same_text(phase, "recording") {
        return false;
    }
    show_realtime_transcript
}

/// Shows progress of a processing phase on the overlay; nothing else changes.
pub fn update_overlay_progress(overlay: &mut OverlayState, phase: &str, current: u64, total: u64)
    ensures
        final(overlay).visible,
        final(overlay).phase@ == phase@,
        final(overlay).status_kind is Some && final(overlay).status_kind->Some_0@ == "processing"@,
        final(overlay).progress_current == Some(current),
        final(overlay).progress_total == Some(total),
        final(overlay).label == old(overlay).label,
        final(overlay).elapsed_ms == old(overlay).elapsed_ms,
        final(overlay).input_level_milli == old(overlay).input_level_milli,
        final(overlay).action_label == old(overlay).action_label,
        final(overlay).transcript_lines == old(overlay).transcript_lines,
        final(overlay).reconnect_available == old(overlay).reconnect_available,
{
    overlay.visible = true;
    overlay.phase = owned(phase);
    overlay.status_kind = Some(owned("processing"));
    overlay.progress_current = Some(current);
    overlay.progress_total = Some(total);
}

/// The status that the recording overlay keeps from the previous one: a "saved" or
/// "network_error" status, or any status while reconnecting is offered, stays; otherwise
/// "recording".
pub open spec fn kept_status(previous: OverlayState) -> Option<Seq<char>> {
    if previous.reconnect_available || (previous.status_kind matches Some(k) && (k@ == "saved"@
        || k@ == "network_error"@)) {
        match previous.status_kind {
            Some(k) => Some(k@),
            None => None,
        }
    } else {
        Some("recording"@)
    }
}

pub open spec fn opt_text(o: Option<String>) -> Option<Seq<char>> {
    match o {
        Some(s) => Some(s@),
        None => None,
    }
}

/// The overlay while recording: elapsed time, input level, the preview lines, and the status
/// kept from the previous overlay.
pub fn recording_overlay(
    previous: &OverlayState,
    elapsed_ms: u64,
    input_level_milli: u32,
    transcript_lines: Vec<String>,
) -> (s: OverlayState)
    ensures
        s.visible,
        s.phase@ == "recording"@,
        s.label@ == "直接说"@,
        s.elapsed_ms == elapsed_ms,
        s.input_level_milli == input_level_milli,
        s.action_label is None,
        opt_text(s.status_kind) == kept_status(*previous),
        s.transcript_lines == transcript_lines,
        s.progress_current is None,
        s.progress_total is None,
        s.reconnect_available == previous.reconnect_available,
{
    let keep = previous.reconnect_available || match &previous.status_kind {
        Some(k) => same_text(k.as_str(), "saved") || same_text(k.as_str(), "network_error"),
        None => false,
    };
    let status_kind = if keep {
        clone_opt(&previous.status_kind)
    } else {
        Some(owned("recording"))
    };
    OverlayState {
        visible: true,
        phase: owned("recording"),
        label: owned("直接说"),
        elapsed_ms,
        input_level_milli,
        action_label: None,
        status_kind,
        transcript_lines,
        progress_current: None,
        progress_total: None,
        reconnect_available: previous.reconnect_available,
    }
}

/// The overlay when the realtime stream broke during a recording.
pub fn realtime_error_overlay(transcript_lines: Vec<String>) -> (s: OverlayState)
    ensures
        s.visible,
        s.phase@ == "recording"@,
        s.label@ == "直接说"@,
        s.elapsed_ms == 0,
        s.input_level_milli == 0,
        s.action_label is None,
        s.status_kind is Some && s.status_kind->Some_0@ == "network_error"@,
        s.transcript_lines == transcript_lines,
        s.progress_current is None,
        s.progress_total is None,
        !s.reconnect_available,
{
    OverlayState {
        visible: true,
        phase: owned("recording"),
        label: owned("直接说"),
        elapsed_ms: 0,
        input_level_milli: 0,
        action_label: None,
        status_kind: Some(owned("network_error")),
        transcript_lines,
        progress_current: None,
        progress_total: None,
        reconnect_available: false,
    }
}

/// The overlay that asks for attention: "title：detail" and an action button.
pub fn action_overlay(title: &str, detail: &str, action_label: &str) -> (s: OverlayState)
    ensures
        s.visible,
        s.phase@ == "attention"@,
        s.label@ == title@ + "："@ + detail@,
        s.elapsed_ms == 0,
        s.input_level_milli == 0,
        s.action_label is Some && s.action_label->Some_0@ == action_label@,
        s.status_kind is Some && s.status_kind->Some_0@ == "attention"@,
        s.transcript_lines@.len() == 0,
        s.progress_current is None,
        s.progress_total is None,
        !s.reconnect_available,
{
    let mut label = owned(title);
    push_text(&mut label, "：");
    push_text(&mut label, detail);
    OverlayState {
        visible: true,
        phase: owned("attention"),
        label,
        elapsed_ms: 0,
        input_level_milli: 0,
        action_label: Some(owned(action_label)),
        status_kind: Some(owned("attention")),
        transcript_lines: Vec::new(),
        progress_current: None,
        progress_total: None,
        reconnect_available: false,
    }
}

/// The title of the overlay shown after a record ends with an error.
pub const SAVED_TITLE: &'static str = "录音已保存";

/// The detail of the overlay shown after a record ends with an error.
pub const SAVED_DETAIL: &'static str = "网络恢复后可在主界面重新转写或重新优化";

/// The action of the overlay shown after a record ends with an error.
pub const OPEN_MAIN_LABEL: &'static str = "打开主界面";

/// After a record is done the overlay asks for attention when the record holds an error, and
/// hides otherwise.
pub fn needs_attention(record: &SpeechRecord) -> (b: bool)
    ensures
        b == record.error_message is Some,
{
    record.error_message.is_some()
}

/// Marks a segment save on the overlay.
pub fn mark_saved(overlay: &mut OverlayState)
    ensures
        final(overlay).status_kind is Some && final(overlay).status_kind->Some_0@ == "saved"@,
        final(overlay).phase == old(overlay).phase,
        final(overlay).transcript_lines == old(overlay).transcript_lines,
        final(overlay).reconnect_available == old(overlay).reconnect_available,
{
    overlay.status_kind = Some(owned("saved"));
}

/// Ends the save mark: a "saved" status returns to "recording"; any other status stays.
/// Returns whether the overlay changed.
pub fn clear_saved(overlay: &mut OverlayState) -> (changed: bool)
    ensures
        changed == (opt_text(old(overlay).status_kind) == Some("saved"@)),
        changed ==> final(overlay).status_kind is Some && final(overlay).status_kind->Some_0@
            == "recording"@,
        !changed ==> final(overlay).status_kind == old(overlay).status_kind,
        final(overlay).phase == old(overlay).phase,
        final(overlay).transcript_lines == old(overlay).transcript_lines,
{
    let saved = match &overlay.status_kind {
        Some(k) => same_text(k.as_str(), "saved"),
        None => false,
    };
    if saved {
        overlay.status_kind = Some(owned("recording"));
    }
    saved
}

/// Shows new preview lines; the stream is healthy again.
pub fn show_transcript_lines(overlay: &mut OverlayState, lines: Vec<String>)
    ensures
        final(overlay).transcript_lines == lines,
        final(overlay).status_kind is Some && final(overlay).status_kind->Some_0@ == "recording"@,
        !final(overlay).reconnect_available,
        final(overlay).phase == old(overlay).phase,
        final(overlay).label == old(overlay).label,
        final(overlay).visible == old(overlay).visible,
{
    overlay.transcript_lines = lines;
    overlay.status_kind = Some(owned("recording"));
    overlay.reconnect_available = false;
}

/// Resets the stream status when a realtime stream starts.
pub fn reset_realtime_status(overlay: &mut OverlayState)
    ensures
        final(overlay).status_kind is Some && final(overlay).status_kind->Some_0@ == "recording"@,
        !final(overlay).reconnect_available,
        final(overlay).transcript_lines == old(overlay).transcript_lines,
        final(overlay).phase == old(overlay).phase,
{
    overlay.status_kind = Some(owned("recording"));
    overlay.reconnect_available = false;
}

/// The last three preview lines, in order.
pub fn last_transcript_lines(lines: &Vec<String>) -> (r: Vec<String>)
    ensures
        r@ == lines@.subrange(
            if lines@.len() > 3 {
                lines@.len() - 3
            } else {
                0
            },
            lines@.len() as int,
        ),
{
    let start = if lines.len() > 3 {
        lines.len() - 3
    } else {
        0
    };
    let mut r: Vec<String> = Vec::new();
    let mut i = start;
    while i < lines.len()
        invariant
            start <= i <= lines.len(),
            r@ == lines@.subrange(start as int, i as int),
        decreases lines.len() - i,
    {
        r.push(lines[i].clone());
        assert(lines@.subrange(start as int, i + 1) =~= lines@.subrange(start as int, i as int).push(
            lines@[i as int],
        ));
        i = i + 1;
    }
    r
}

} // verus!
