use sparkspeech::audio::{stream_step, RealtimeAudioChunk};
use sparkspeech::audio::{producer_poll_ms, should_save_segment, stream_send_delay_ms};
use sparkspeech::audio::{
    producer_chunks, sample_count_for_ms, segment_chunks, segment_window, sorted_unique_names,
    RecordedAudio, RecordedSegment, REALTIME_CHUNK_SAMPLES,
};

fn segment(samples: usize, start_ms: u64, end_ms: u64, next: usize) -> RecordedSegment {
    let pcm: Vec<i16> = (0..samples).map(|i| (i % 1000) as i16).collect();
    RecordedSegment {
        audio: RecordedAudio::from_pcm_16k(pcm),
        start_ms,
        end_ms,
        next_sample_index: next,
    }
}

#[test]
fn duration_in_whole_milliseconds() {
    assert_eq!(RecordedAudio::from_pcm_16k(vec![0; 16_000]).duration_ms(), 1000);
    assert_eq!(RecordedAudio::from_pcm_16k(vec![0; 8_000]).duration_ms(), 500);
    assert_eq!(RecordedAudio::from_pcm_16k(vec![0; 15]).duration_ms(), 0);
    assert_eq!(RecordedAudio::from_pcm_16k(Vec::new()).duration_ms(), 0);
}

#[test]
fn sample_counts_per_channel_layout() {
    assert_eq!(sample_count_for_ms(48_000, 2, 100), 9_600);
    assert_eq!(sample_count_for_ms(44_100, 1, 1_000), 44_100);
    assert_eq!(sample_count_for_ms(16_000, 0, 250), 4_000);
    assert_eq!(sample_count_for_ms(44_100, 2, 10), 882);
}

#[test]
fn segment_window_whole_frames() {
    let w = segment_window(11, 2, 4, 1_000).unwrap();
    assert_eq!(w.start, 4);
    assert_eq!(w.end, 10);
    assert_eq!(w.start_ms, 2);
    assert_eq!(w.end_ms, 5);
    let w = segment_window(96_000, 2, 0, 48_000).unwrap();
    assert_eq!((w.start, w.end, w.start_ms, w.end_ms), (0, 96_000, 0, 1_000));
}

#[test]
fn segment_window_empty_when_nothing_new() {
    assert!(segment_window(10, 2, 10, 1_000).is_none());
    assert!(segment_window(10, 2, 25, 1_000).is_none());
    assert!(segment_window(1, 2, 0, 1_000).is_none());
    assert!(segment_window(0, 1, 0, 16_000).is_none());
}

#[test]
fn segment_cut_into_realtime_chunks() {
    let seg = segment(7_000, 1_000, 1_437, 99);
    let chunks = segment_chunks(&seg, 42, 200);
    assert_eq!(chunks.len(), 3);
    assert_eq!(chunks[0].pcm_16k.len(), REALTIME_CHUNK_SAMPLES);
    assert_eq!(chunks[1].pcm_16k.len(), REALTIME_CHUNK_SAMPLES);
    assert_eq!(chunks[2].pcm_16k.len(), 600);
    assert_eq!(chunks[0].pcm_16k[..], seg.audio.pcm_16k[..3_200]);
    assert_eq!(chunks[2].pcm_16k[..], seg.audio.pcm_16k[6_400..]);
    assert_eq!(chunks[0].next_sample_index, 42);
    assert_eq!(chunks[1].next_sample_index, 42);
    assert_eq!(chunks[2].next_sample_index, 99);
    assert_eq!(chunks[0].end_ms, 1_200);
    assert_eq!(chunks[1].end_ms, 1_400);
    assert_eq!(chunks[2].end_ms, 1_437);
    assert!(chunks.iter().all(|c| c.send_delay_ms == 200));
}

#[test]
fn empty_segment_has_no_chunks() {
    let seg = segment(0, 0, 0, 0);
    assert!(segment_chunks(&seg, 0, 200).is_empty());
}

#[test]
fn producer_waits_for_eighty_milliseconds() {
    let short = segment(1_000, 0, 62, 1_000);
    assert!(producer_chunks(&short, 0, false).is_none());
    let enough = segment(1_280, 0, 80, 1_280);
    let chunks = producer_chunks(&enough, 0, false).unwrap();
    assert_eq!(chunks.len(), 1);
    assert_eq!(chunks[0].send_delay_ms, 200);
    assert_eq!(chunks[0].next_sample_index, 1_280);
}

#[test]
fn producer_catches_up_quickly_on_long_segments() {
    let long = segment(16_000, 0, 1_000, 16_000);
    let chunks = producer_chunks(&long, 0, true).unwrap();
    assert_eq!(chunks.len(), 5);
    assert!(chunks.iter().all(|c| c.send_delay_ms == 10));
    let normal = producer_chunks(&long, 0, false).unwrap();
    assert!(normal.iter().all(|c| c.send_delay_ms == 200));
    let edge = segment(9_600, 0, 600, 9_600);
    let chunks = producer_chunks(&edge, 0, true).unwrap();
    assert!(chunks.iter().all(|c| c.send_delay_ms == 200));
}

#[test]
fn device_names_sorted_without_repeats() {
    let names = vec!["b".to_string(), "a".to_string(), "b".to_string(), "Mic".to_string()];
    assert_eq!(sorted_unique_names(names), vec!["Mic", "a", "b"]);
    assert!(sorted_unique_names(Vec::new()).is_empty());
    let same = vec!["麦克风".to_string(), "麦克风".to_string()];
    assert_eq!(sorted_unique_names(same), vec!["麦克风"]);
}

#[test]
fn realtime_pacing() {
    assert_eq!(producer_poll_ms(true), 40);
    assert_eq!(producer_poll_ms(false), 200);
    assert_eq!(stream_send_delay_ms(true), 10);
    assert_eq!(stream_send_delay_ms(false), 200);
}

#[test]
fn segments_saved_from_one_second() {
    assert!(!should_save_segment(&RecordedAudio::from_pcm_16k(vec![0; 15_999])));
    assert!(should_save_segment(&RecordedAudio::from_pcm_16k(vec![0; 16_000])));
    assert!(!should_save_segment(&RecordedAudio::from_pcm_16k(Vec::new())));
}

fn chunk(next: usize) -> RealtimeAudioChunk {
    RealtimeAudioChunk { pcm_16k: vec![next as i16], next_sample_index: next, end_ms: next as u64, send_delay_ms: 0 }
}

#[test]
fn stream_writer_flags_only_the_last_chunk() {
    let mut held = None;
    let mut sent: Vec<(usize, bool)> = Vec::new();
    let mut queue = vec![Some(chunk(1)), Some(chunk(2)), Some(chunk(3)), None].into_iter();
    while let Some(next) = queue.next() {
        let (h, send) = stream_step(held, next);
        held = h;
        if let Some((c, last)) = send {
            sent.push((c.next_sample_index, last));
        }
    }
    assert_eq!(sent, vec![(1, false), (2, false), (3, true)]);
    assert!(held.is_none());
    let (h, send) = stream_step(None, None);
    assert!(h.is_none() && send.is_none());
}
