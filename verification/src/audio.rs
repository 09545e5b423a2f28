use vstd::prelude::*;

use crate::text::{
    chars_of, lemma_text_equivalent_equal, lemma_text_le_lt_trans, lemma_text_lt_asym, text_lt,
    text_precedes,
};

verus! {

// ---------------------------------------------------------------------------
// Recorded audio
// ---------------------------------------------------------------------------

/// Recorded audio as 16 kHz mono 16-bit samples.
pub struct RecordedAudio {
    pub pcm_16k: Vec<i16>,
}

impl RecordedAudio {
    /// Wraps 16 kHz samples.
    pub fn from_pcm_16k(pcm_16k: Vec<i16>) -> (a: Self)
        ensures
            a.pcm_16k@ == pcm_16k@,
    {
        RecordedAudio { pcm_16k }
    }

    /// Length of the audio in whole milliseconds.
    pub fn duration_ms(&self) -> (ms: u64)
        requires
            self.pcm_16k@.len() * 1000 <= u64::MAX,
        ensures
            ms == self.pcm_16k@.len() * 1000 / 16000,
    {
        (self.pcm_16k.len() as u64 * 1000) / 16_000
    }
}

/// Audio captured since a position of the recorder's buffer, with its time span and the
/// buffer position where the next segment starts.
pub struct RecordedSegment {
    pub audio: RecordedAudio,
    pub start_ms: u64,
    pub end_ms: u64,
    pub next_sample_index: usize,
}

/// Samples of `ms` milliseconds at `sample_rate` with `channels` interleaved channels (at
/// least one).
pub open spec fn samples_for_ms(sample_rate: u32, channels: u16, ms: u64) -> int {
    (sample_rate * ms / 1000) * (if channels == 0 {
        1int
    } else {
        channels as int
    })
}

/// Number of buffer samples that `ms` milliseconds of input take.
pub fn sample_count_for_ms(sample_rate: u32, channels: u16, ms: u64) -> (n: usize)
    requires
        sample_rate * ms <= u64::MAX,
        samples_for_ms(sample_rate, channels, ms) <= usize::MAX,
    ensures
        n == samples_for_ms(sample_rate, channels, ms),
{
    let channels: usize = if channels == 0 {
        1
    } else {
        channels as usize
    };
    let frames = (sample_rate as u64 * ms) / 1000;
    assert(frames * channels <= usize::MAX);
    assert(frames <= usize::MAX) by (nonlinear_arith)
        requires
            frames * channels <= usize::MAX,
            channels >= 1,
            frames >= 0,
    ;
    (frames as usize) * channels
}

/// The part of the recorder's buffer that a segment since `sample_index` takes: whole frames
/// up to the end of the buffer, with their times in milliseconds.
pub struct SegmentWindow {
    pub start: usize,
    pub end: usize,
    pub start_ms: u64,
    pub end_ms: u64,
}

/// Where the buffer's whole frames end.
pub open spec fn whole_frames_end(len: int, channels: int) -> int {
    len - len % channels
}

/// Finds the part of a buffer of `len` interleaved samples that a segment since
/// `sample_index` takes; none when no whole frame follows it.
pub fn segment_window(len: usize, channels: u16, sample_index: usize, sample_rate: u32) -> (r:
    Option<SegmentWindow>)
    requires
        sample_rate > 0,
        len * 1000 <= u64::MAX,
    ensures
        ({
            let c = if channels == 0 {
                1int
            } else {
                channels as int
            };
            let end = whole_frames_end(len as int, c);
            let start = if sample_index < end {
                sample_index as int
            } else {
                end
            };
            match r {
                None => end <= start,
                Some(w) => start < end && w.start == start && w.end == end && w.start_ms == (start
                    / c) * 1000 / sample_rate as int && w.end_ms == (end / c) * 1000
                    / sample_rate as int,
            }
        }),
{
    let c: usize = if channels == 0 {
        1
    } else {
        channels as usize
    };
    assert(len % c <= len) by (nonlinear_arith)
        requires
            c >= 1,
    ;
    let end = len - len % c;
    let start = if sample_index < end {
        sample_index
    } else {
        end
    };
    if end <= start {
        return None;
    }
    let start_frame = start / c;
    let end_frame = end / c;
    assert(end_frame <= len) by (nonlinear_arith)
        requires
            end_frame == end / c,
            end <= len,
            c >= 1,
    ;
    assert(start_frame <= end_frame) by (nonlinear_arith)
        requires
            start_frame == start / c,
            end_frame == end / c,
            start <= end,
            c >= 1,
    ;
    Some(
        SegmentWindow {
            start,
            end,
            start_ms: (start_frame as u64 * 1000) / sample_rate as u64,
            end_ms: (end_frame as u64 * 1000) / sample_rate as u64,
        },
    )
}

// ---------------------------------------------------------------------------
// Realtime chunks
// ---------------------------------------------------------------------------

/// A piece of audio queued for the realtime recognition stream: its samples, the buffer
/// position recognition has reached once it is sent, the time it reaches, and the pause
/// after sending it (0 for the stream's default).
pub struct RealtimeAudioChunk {
    pub pcm_16k: Vec<i16>,
    pub next_sample_index: usize,
    pub end_ms: u64,
    pub send_delay_ms: u64,
}

/// Samples per realtime chunk: 200 ms at 16 kHz.
pub const REALTIME_CHUNK_SAMPLES: usize = 3200;

/// Samples sent once chunk `k` of `total` samples is sent.
pub open spec fn sent_samples(total: int, k: int) -> int {
    if (k + 1) * 3200 < total {
        (k + 1) * 3200
    } else {
        total
    }
}

/// Chunk `k` of a segment: its samples, the buffer position (the segment's next position for
/// the last chunk, `base` before it), the time reached (the segment's end for the last
/// chunk), and the pause.
pub open spec fn segment_chunk(
    pcm: Seq<i16>,
    start_ms: u64,
    end_ms: u64,
    next_index: usize,
    base: usize,
    delay: u64,
    k: int,
) -> (Seq<i16>, usize, u64, u64) {
    let sent = sent_samples(pcm.len() as int, k);
    let last = sent >= pcm.len();
    (
        pcm.subrange(k * 3200, sent),
        if last {
            next_index
        } else {
            base
        },
        if last {
            end_ms
        } else {
            (start_ms + sent * 1000 / 16000) as u64
        },
        delay,
    )
}

pub open spec fn chunk_view(c: RealtimeAudioChunk) -> (Seq<i16>, usize, u64, u64) {
    (c.pcm_16k@, c.next_sample_index, c.end_ms, c.send_delay_ms)
}

/// Cuts a segment into 200 ms chunks for the realtime stream.
pub fn segment_chunks(segment: &RecordedSegment, base_sample_index: usize, send_delay_ms: u64) -> (r:
    Vec<RealtimeAudioChunk>)
    requires
        segment.audio.pcm_16k@.len() * 1000 <= u64::MAX,
        segment.start_ms + segment.audio.pcm_16k@.len() * 1000 / 16000 <= u64::MAX,
    ensures
        r@.len() == (segment.audio.pcm_16k@.len() + 3199) / 3200,
        forall|k: int|
            0 <= k < r@.len() ==> chunk_view(#[trigger] r@[k]) == segment_chunk(
                segment.audio.pcm_16k@,
                segment.start_ms,
                segment.end_ms,
                segment.next_sample_index,
                base_sample_index,
                send_delay_ms,
                k,
            ),
{
    let pcm = &segment.audio.pcm_16k;
    let total = pcm.len();
    let mut chunks: Vec<RealtimeAudioChunk> = Vec::new();
    let mut start: usize = 0;
    let mut k: usize = 0;
    while start < total
        invariant
            total == pcm@.len(),
            total * 1000 <= u64::MAX,
            segment.start_ms + total * 1000 / 16000 <= u64::MAX,
            start <= total,
            start < total ==> start == k * 3200,
            start < total ==> k < (total + 3199) / 3200,
            start >= total ==> k == (total + 3199) / 3200,
            chunks@.len() == k,
            forall|j: int|
                0 <= j < k ==> chunk_view(#[trigger] chunks@[j]) == segment_chunk(
                    pcm@,
                    segment.start_ms,
                    segment.end_ms,
                    segment.next_sample_index,
                    base_sample_index,
                    send_delay_ms,
                    j,
                ),
        decreases total - start,
    {
        let end = if total - start > REALTIME_CHUNK_SAMPLES {
            start + REALTIME_CHUNK_SAMPLES
        } else {
            total
        };
        let mut part: Vec<i16> = Vec::new();
        let mut i = start;
        while i < end
            invariant
                start <= i <= end <= total == pcm@.len(),
                part@ == pcm@.subrange(start as int, i as int),
            decreases end - i,
        {
            part.push(pcm[i]);
            assert(pcm@.subrange(start as int, i + 1) =~= pcm@.subrange(start as int, i as int).push(
                pcm@[i as int],
            ));
            i = i + 1;
        }
        let last = end >= total;
        assert(end * 1000 / 16000 <= total * 1000 / 16000) by (nonlinear_arith)
            requires
                end <= total,
        ;
        let chunk = RealtimeAudioChunk {
            pcm_16k: part,
            next_sample_index: if last {
                segment.next_sample_index
            } else {
                base_sample_index
            },
            end_ms: if last {
                segment.end_ms
            } else {
                segment.start_ms + (end as u64 * 1000) / 16_000
            },
            send_delay_ms,
        };
        chunks.push(chunk);
        proof {
            if end < total {
                assert((k + 1) * 3200 < total);
            } else {
                assert(k * 3200 < total <= (k + 1) * 3200);
            }
        }
        start = end;
        k = k + 1;
    }
    chunks
}

/// The samples of the first `c` realtime chunks of a segment, one after another.
pub open spec fn chunks_concat(
    pcm: Seq<i16>,
    start_ms: u64,
    end_ms: u64,
    next_index: usize,
    base: usize,
    delay: u64,
    c: int,
) -> Seq<i16>
    decreases c,
{
    if c <= 0 {
        Seq::empty()
    } else {
        chunks_concat(pcm, start_ms, end_ms, next_index, base, delay, c - 1) + segment_chunk(
            pcm,
            start_ms,
            end_ms,
            next_index,
            base,
            delay,
            c - 1,
        ).0
    }
}

proof fn lemma_chunks_prefix(
    pcm: Seq<i16>,
    start_ms: u64,
    end_ms: u64,
    next_index: usize,
    base: usize,
    delay: u64,
    c: int,
)
    requires
        0 <= c <= (pcm.len() + 3199) / 3200,
    ensures
        chunks_concat(pcm, start_ms, end_ms, next_index, base, delay, c) == pcm.subrange(
            0,
            if c * 3200 < pcm.len() {
                c * 3200
            } else {
                pcm.len() as int
            },
        ),
    decreases c,
{
    let n = pcm.len() as int;
    if c == 0 {
        assert(chunks_concat(pcm, start_ms, end_ms, next_index, base, delay, 0) =~= pcm.subrange(0, 0));
    } else {
        lemma_chunks_prefix(pcm, start_ms, end_ms, next_index, base, delay, c - 1);
        assert((c - 1) * 3200 < n) by (nonlinear_arith)
            requires
                c - 1 < (n + 3199) / 3200,
                0 <= c - 1,
        ;
        let end = if c * 3200 < n {
            c * 3200
        } else {
            n
        };
        assert(segment_chunk(pcm, start_ms, end_ms, next_index, base, delay, c - 1).0 == pcm.subrange(
            (c - 1) * 3200,
            end,
        ));
        assert(chunks_concat(pcm, start_ms, end_ms, next_index, base, delay, c) =~= pcm.subrange(0, end));
    }
}

/// The realtime chunks of a segment cut its samples in order, with nothing left out,
/// repeated or reordered: put one after another, they are exactly the segment's samples.
pub proof fn law_chunks_partition_the_segment(
    pcm: Seq<i16>,
    start_ms: u64,
    end_ms: u64,
    next_index: usize,
    base: usize,
    delay: u64,
)
    ensures
        chunks_concat(pcm, start_ms, end_ms, next_index, base, delay, ((pcm.len() + 3199) / 3200) as int) == pcm,
{
    let n = pcm.len() as int;
    let c = (n + 3199) / 3200;
    assert(c * 3200 >= n && c >= 0) by (nonlinear_arith)
        requires
            c == (n + 3199) / 3200,
            n >= 0,
    ;
    lemma_chunks_prefix(pcm, start_ms, end_ms, next_index, base, delay, c);
    assert(pcm.subrange(0, n) =~= pcm);
}

/// The chunks that the realtime producer queues for a new segment: none for a segment shorter
/// than 80 ms (it waits for more audio); when catching up, a segment longer than 600 ms is
/// sent with 10 ms pauses, otherwise with 200 ms pauses.
pub fn producer_chunks(segment: &RecordedSegment, base_sample_index: usize, catchup: bool) -> (r:
    Option<Vec<RealtimeAudioChunk>>)
    requires
        segment.audio.pcm_16k@.len() * 1000 <= u64::MAX,
        segment.start_ms + segment.audio.pcm_16k@.len() * 1000 / 16000 <= u64::MAX,
    ensures
        ({
            let ms = segment.audio.pcm_16k@.len() * 1000 / 16000;
            let delay: u64 = if catchup && ms > 600 {
                10
            } else {
                200
            };
            match r {
                None => ms < 80,
                Some(chunks) => ms >= 80 && chunks@.len() == (segment.audio.pcm_16k@.len() + 3199)
                    / 3200 && forall|k: int|
                    0 <= k < chunks@.len() ==> chunk_view(#[trigger] chunks@[k]) == segment_chunk(
                        segment.audio.pcm_16k@,
                        segment.start_ms,
                        segment.end_ms,
                        segment.next_sample_index,
                        base_sample_index,
                        delay,
                        k,
                    ),
            }
        }),
{
    let ms = segment.audio.duration_ms();
    if ms < 80 {
        return None;
    }
    let delay: u64 = if catchup && ms > 600 {
        10
    } else {
        200
    };
    Some(segment_chunks(segment, base_sample_index, delay))
}

/// One step of the realtime stream's writer, which holds one chunk back so that it can flag
/// the last one: a new chunk is held and the one held before is sent, not last; when the
/// queue closes (`None`), the held chunk is sent as the last one.
pub open spec fn hold_step<T>(held: Option<T>, next: Option<T>) -> (Option<T>, Option<(T, bool)>) {
    match next {
        Some(c) => (
            Some(c),
            match held {
                Some(h) => Some((h, false)),
                None => None,
            },
        ),
        None => (
            None,
            match held {
                Some(h) => Some((h, true)),
                None => None,
            },
        ),
    }
}

/// Feeds the next item of the stream's queue (`None` once it is closed) to the writer
/// holding `held`; returns what it holds next and what it sends, with the last-chunk flag.
pub fn stream_step(held: Option<RealtimeAudioChunk>, next: Option<RealtimeAudioChunk>) -> (r: (
    Option<RealtimeAudioChunk>,
    Option<(RealtimeAudioChunk, bool)>,
))
    ensures
        r == hold_step(held, next),
{
    match next {
        Some(c) => (
            Some(c),
            match held {
                Some(h) => Some((h, false)),
                None => None,
            },
        ),
        None => (
            None,
            match held {
                Some(h) => Some((h, true)),
                None => None,
            },
        ),
    }
}

pub open spec fn sent_of<T>(s: Option<(T, bool)>) -> Seq<(T, bool)> {
    match s {
        Some(x) => seq![x],
        None => Seq::empty(),
    }
}

/// What the writer sends when it is fed `items` and then the queue closes.
pub open spec fn stream_sends<T>(held: Option<T>, items: Seq<T>) -> Seq<(T, bool)>
    decreases items.len(),
{
    if items.len() == 0 {
        sent_of(hold_step(held, None::<T>).1)
    } else {
        let (h, s) = hold_step(held, Some(items[0]));
        sent_of(s) + stream_sends(h, items.drop_first())
    }
}

proof fn lemma_stream_sends_held<T>(h: T, items: Seq<T>)
    ensures
        stream_sends(Some(h), items) == Seq::new(
            items.len() + 1,
            |i: int| ((seq![h] + items)[i], i == items.len()),
        ),
    decreases items.len(),
{
    if items.len() == 0 {
        assert(stream_sends(Some(h), items) =~= Seq::new(
            items.len() + 1,
            |i: int| ((seq![h] + items)[i], i == items.len()),
        ));
    } else {
        lemma_stream_sends_held(items[0], items.drop_first());
        assert(stream_sends(Some(h), items) =~= Seq::new(
            items.len() + 1,
            |i: int| ((seq![h] + items)[i], i == items.len()),
        )) by {
            let rest = items.drop_first();
            assert forall|i: int| 1 <= i < items.len() + 1 implies (seq![items[0]] + rest)[i - 1] == (seq![h] + items)[i] by {
                if i >= 2 {
                    assert((seq![items[0]] + rest)[i - 1] == rest[i - 2]);
                }
            }
        }
    }
}

/// The realtime stream sends every queued chunk once, in order, and flags exactly the last
/// one as last.
pub proof fn law_stream_flags_only_the_last_chunk<T>(items: Seq<T>)
    ensures
        stream_sends(None::<T>, items) == Seq::new(items.len(), |i: int| (items[i], i == items.len() - 1)),
{
    if items.len() == 0 {
        assert(stream_sends(None::<T>, items) =~= Seq::<(T, bool)>::empty());
        assert(Seq::new(items.len(), |i: int| (items[i], i == items.len() - 1)) =~= Seq::<(T, bool)>::empty());
    } else {
        lemma_stream_sends_held(items[0], items.drop_first());
        assert(seq![items[0]] + items.drop_first() =~= items);
        assert(stream_sends(None::<T>, items) =~= Seq::new(
            items.len(),
            |i: int| (items[i], i == items.len() - 1),
        ));
    }
}

/// How often the realtime producer looks for new audio, in milliseconds: every 40 ms while
/// catching up after a reconnect, every 200 ms otherwise.
pub fn producer_poll_ms(catchup: bool) -> (ms: u64)
    ensures
        ms == if catchup {
            40u64
        } else {
            200u64
        },
{
    if catchup {
        40
    } else {
        200
    }
}

/// The default pause between chunks of a realtime stream, in milliseconds: 10 while catching
/// up, 200 (the chunk length) otherwise.
pub fn stream_send_delay_ms(catchup: bool) -> (ms: u64)
    ensures
        ms == if catchup {
            10u64
        } else {
            200u64
        },
{
    if catchup {
        10
    } else {
        200
    }
}

/// Whether a periodic segment is long enough to be saved: at least one second of audio.
pub fn should_save_segment(audio: &RecordedAudio) -> (b: bool)
    ensures
        b == (audio.pcm_16k@.len() * 1000 / 16000 >= 1000),
{
    let n = audio.pcm_16k.len();
    proof {
        let len = audio.pcm_16k@.len() as int;
        assert(len >= 16000 <==> len * 1000 / 16000 >= 1000) by (nonlinear_arith)
            requires
                len >= 0,
        ;
    }
    n >= 16_000
}

// ---------------------------------------------------------------------------
// Input devices
// ---------------------------------------------------------------------------

/// The texts of names.
pub open spec fn names_view(names: Seq<String>) -> Seq<Seq<char>> {
    names.map_values(|n: String| n@)
}

/// Names in ascending order, each once.
pub open spec fn strictly_ascending(names: Seq<Seq<char>>) -> bool {
    forall|i: int, j: int| 0 <= i < j < names.len() ==> text_lt(#[trigger] names[i], #[trigger] names[j])
}

/// Sorts device names and drops repeats.
pub fn sorted_unique_names(names: Vec<String>) -> (r: Vec<String>)
    ensures
        strictly_ascending(names_view(r@)),
        forall|x: Seq<char>|
            #[trigger] names_view(r@).contains(x) <==> names_view(names@).contains(x),
{
    let ghost input = names_view(names@);
    let mut out: Vec<String> = Vec::new();
    let mut keys: Vec<Vec<char>> = Vec::new();
    let mut i: usize = 0;
    while i < names.len()
        invariant
            i <= names.len(),
            input == names_view(names@),
            keys@.len() == out@.len(),
            forall|j: int| 0 <= j < keys@.len() ==> (#[trigger] keys@[j])@ == out@[j]@,
            strictly_ascending(names_view(out@)),
            forall|x: Seq<char>|
                #[trigger] names_view(out@).contains(x) <==> input.take(i as int).contains(x),
        decreases names.len() - i,
    {
        let k = chars_of(names[i].as_str());
        let ghost outv = names_view(out@);
        let mut p: usize = 0;
        while p < out.len() && text_precedes(&keys[p], &k)
            invariant
                p <= out.len(),
                keys@.len() == out@.len(),
                outv == names_view(out@),
                forall|j: int| 0 <= j < keys@.len() ==> (#[trigger] keys@[j])@ == out@[j]@,
                forall|j: int| 0 <= j < p ==> text_lt(#[trigger] outv[j], k@),
            decreases out.len() - p,
        {
            p = p + 1;
        }
        assert(input.take(i + 1) =~= input.take(i as int).push(k@));
        assert(k@ == input[i as int]);
        proof {
            assert forall|x: Seq<char>| input.take(i + 1).contains(x) <==> (input.take(
                i as int,
            ).contains(x) || x == k@) by {
                let t0 = input.take(i as int);
                let t1 = input.take(i + 1);
                if t1.contains(x) {
                    let j = choose|j: int| 0 <= j < t1.len() && t1[j] == x;
                    if j < i {
                        assert(t0[j] == x);
                    }
                }
                if t0.contains(x) {
                    let j = choose|j: int| 0 <= j < t0.len() && t0[j] == x;
                    assert(t1[j] == x);
                }
                if x == k@ {
                    assert(t1[i as int] == x);
                }
            }
        }
        let dup = p < out.len() && !text_precedes(&k, &keys[p]);
        if dup {
            proof {
                lemma_text_equivalent_equal(outv[p as int], k@);
                assert(outv[p as int] == k@);
                assert forall|x: Seq<char>| outv.contains(x) <==> input.take(i + 1).contains(x) by {
                    if x == k@ {
                        assert(outv[p as int] == x);
                    }
                }
            }
        } else {
            proof {
                assert forall|j: int| p <= j < outv.len() implies text_lt(k@, #[trigger] outv[j]) by {
                    assert(!text_lt(outv[p as int], k@));
                    if j == p {
                        if !text_lt(k@, outv[j]) {
                            lemma_text_equivalent_equal(outv[p as int], k@);
                        }
                    } else {
                        assert(text_lt(outv[p as int], outv[j]));
                        if !text_lt(k@, outv[p as int]) {
                            lemma_text_equivalent_equal(outv[p as int], k@);
                        }
                        lemma_text_lt_asym(k@, outv[p as int]);
                        lemma_text_le_lt_trans(k@, outv[p as int], outv[j]);
                    }
                }
            }
            let name = names[i].clone();
            let ghost old_keys = keys@;
            let ghost old_out = out@;
            out.insert(p, name);
            keys.insert(p, k);
            proof {
                let nv = names_view(out@);
                assert(out@ == old_out.insert(p as int, names@[i as int]));
                assert(keys@ == old_keys.insert(p as int, k));
                assert(nv =~= outv.insert(p as int, k@));
                assert forall|j: int| 0 <= j < keys@.len() implies (#[trigger] keys@[j])@ == out@[j]@ by {
                    if j > p {
                        assert(keys@[j] == old_keys[j - 1]);
                        assert(out@[j] == old_out[j - 1]);
                    } else if j < p {
                        assert(keys@[j] == old_keys[j]);
                        assert(out@[j] == old_out[j]);
                    }
                }
                assert forall|a: int, b: int| 0 <= a < b < nv.len() implies text_lt(
                    #[trigger] nv[a],
                    #[trigger] nv[b],
                ) by {
                    if a == p {
                        assert(nv[b] == outv[b - 1]);
                    } else if b == p {
                        assert(nv[a] == outv[a]);
                    } else {
                        let oa = if a < p { a } else { a - 1 };
                        let ob = if b < p { b } else { b - 1 };
                        assert(nv[a] == outv[oa]);
                        assert(nv[b] == outv[ob]);
                    }
                }
                assert forall|x: Seq<char>| nv.contains(x) <==> input.take(i + 1).contains(x) by {
                    if nv.contains(x) {
                        let j = choose|j: int| 0 <= j < nv.len() && nv[j] == x;
                        if j < p {
                            assert(outv[j] == x);
                        } else if j > p {
                            assert(outv[j - 1] == x);
                        }
                    }
                    if outv.contains(x) {
                        let j = choose|j: int| 0 <= j < outv.len() && outv[j] == x;
                        if j < p {
                            assert(nv[j] == x);
                        } else {
                            assert(nv[j + 1] == x);
                        }
                    }
                    if x == k@ {
                        assert(nv[p as int] == x);
                    }
                }
            }
        }
        i = i + 1;
    }
    assert(input.take(names.len() as int) =~= input);
    out
}

} // verus!
