use vstd::prelude::*;

use crate::json::JsonValue;
use crate::models::AppSettings;
use crate::protocol::{
    build_frame, compression_code, frame_bytes, gunzip, gunzip_outcome, gzip, gzip_outcome,
    kind_code, read_server_payload, serialization_code, server_payload_outcome, CompressionFlag,
    MessageKind, Serialization,
};
use crate::text::{blank, contains_text, is_blank, owned, push_text, same_text, text_contains};

verus! {

// ---------------------------------------------------------------------------
// Frames in and out
// ---------------------------------------------------------------------------

/// The JSON bytes of a server response frame, and whether it is the last one.
pub struct DecodedFrame {
    pub json: Vec<u8>,
    pub is_last: bool,
}

/// What decoding a server frame gives: its JSON bytes (gzip-decompressed when the frame says
/// so) and its last-frame flag, or the error message.
pub open spec fn decoded_frame_outcome(data: Seq<u8>) -> Result<(Seq<u8>, bool), Seq<char>> {
    match server_payload_outcome(data) {
        Err(e) => Err(e),
        Ok((payload, compressed, is_last)) => if compressed {
            match gunzip_outcome(payload) {
                Ok(json) => Ok((json, is_last)),
                Err(e) => Err(e),
            }
        } else {
            Ok((payload, is_last))
        },
    }
}

/// `data` is a frame that `build_frame` made, with gzip compression, around the gzip of
/// `json`, flagged last or not.
pub open spec fn is_gzip_frame_of(data: Seq<u8>, json: Seq<u8>, last: bool) -> bool {
    exists|kind: MessageKind, ser: Serialization, z: Seq<u8>|
        {
            &&& gzip_outcome(json) == Ok::<Seq<u8>, Seq<char>>(z)
            &&& z.len() <= u32::MAX
            &&& data == frame_bytes(kind_code(kind), last, serialization_code(ser), 1, z)
        }
}

proof fn lemma_gzip_frame(data: Seq<u8>, json: Seq<u8>, last: bool) -> (z: Seq<u8>)
    requires
        is_gzip_frame_of(data, json, last),
    ensures
        gzip_outcome(json) == Ok::<Seq<u8>, Seq<char>>(z),
        server_payload_outcome(data) == Ok::<(Seq<u8>, bool, bool), Seq<char>>((z, true, last)),
{
    let (kind, ser, z) = choose|kind: MessageKind, ser: Serialization, z: Seq<u8>|
        {
            &&& gzip_outcome(json) == Ok::<Seq<u8>, Seq<char>>(z)
            &&& z.len() <= u32::MAX
            &&& data == frame_bytes(kind_code(kind), last, serialization_code(ser), 1, z)
        };
    crate::protocol::law_frame_round_trip(kind, last, ser, z);
    z
}

/// Reads a server frame: header, payload, and gzip decompression when flagged. A frame that
/// `build_frame` made around the gzip of some JSON gives back that JSON and its last flag.
pub fn decode_server_frame(data: &[u8]) -> (r: Result<DecodedFrame, String>)
    ensures
        match r {
            Ok(f) => decoded_frame_outcome(data@) == Ok::<(Seq<u8>, bool), Seq<char>>(
                (f.json@, f.is_last),
            ),
            Err(e) => decoded_frame_outcome(data@) == Err::<(Seq<u8>, bool), Seq<char>>(e@),
        },
        forall|json: Seq<u8>, last: bool|
            #[trigger] is_gzip_frame_of(data@, json, last) ==> (r matches Ok(f) && f.json@ == json
                && f.is_last == last),
{
    let payload = match read_server_payload(data) {
        Ok(p) => p,
        Err(e) => {
            proof {
                assert forall|json: Seq<u8>, last: bool| #[trigger]
                    is_gzip_frame_of(data@, json, last) implies false by {
                    lemma_gzip_frame(data@, json, last);
                }
            }
            return Err(e);
        },
    };
    if payload.gzip {
        match gunzip(payload.payload.as_slice()) {
            Ok(json) => {
                proof {
                    assert forall|x: Seq<u8>, last: bool| #[trigger]
                        is_gzip_frame_of(data@, x, last) implies json@ == x && payload.is_last
                        == last by {
                        lemma_gzip_frame(data@, x, last);
                        assert(gzip_outcome(x) == Ok::<Seq<u8>, Seq<char>>(payload.payload@));
                    }
                }
                Ok(DecodedFrame { json, is_last: payload.is_last })
            },
            Err(e) => {
                proof {
                    assert forall|x: Seq<u8>, last: bool| #[trigger]
                        is_gzip_frame_of(data@, x, last) implies false by {
                        lemma_gzip_frame(data@, x, last);
                        assert(gzip_outcome(x) == Ok::<Seq<u8>, Seq<char>>(payload.payload@));
                    }
                }
                Err(e)
            },
        }
    } else {
        proof {
            assert forall|x: Seq<u8>, last: bool| #[trigger]
                is_gzip_frame_of(data@, x, last) implies false by {
                lemma_gzip_frame(data@, x, last);
            }
        }
        Ok(DecodedFrame { json: payload.payload, is_last: payload.is_last })
    }
}

/// The little-endian bytes of 16-bit samples, two per sample.
pub open spec fn pcm_bytes(pcm: Seq<i16>) -> Seq<u8> {
    Seq::new(
        (2 * pcm.len()) as nat,
        |i: int|
            if i % 2 == 0 {
                (pcm[i / 2] as u16) as u8
            } else {
                ((pcm[i / 2] as u16) >> 8u16) as u8
            },
    )
}

/// Serialises samples as little-endian bytes.
pub fn pcm_le_bytes(pcm: &[i16]) -> (bytes: Vec<u8>)
    requires
        pcm@.len() * 2 <= usize::MAX,
    ensures
        bytes@ == pcm_bytes(pcm@),
{
    let mut bytes: Vec<u8> = Vec::new();
    let mut i: usize = 0;
    while i < pcm.len()
        invariant
            i <= pcm.len(),
            pcm@.len() * 2 <= usize::MAX,
            bytes@.len() == 2 * i,
            forall|j: int| 0 <= j < 2 * i ==> #[trigger] bytes@[j] == pcm_bytes(pcm@)[j],
        decreases pcm.len() - i,
    {
        let sample = pcm[i] as u16;
        bytes.push(sample as u8);
        bytes.push((sample >> 8) as u8);
        i = i + 1;
    }
    assert(bytes@ =~= pcm_bytes(pcm@));
    bytes
}

/// What a gzip-compressed frame around `bytes` gives: the frame or the compression error.
pub open spec fn gzip_frame_outcome(kind: MessageKind, is_last: bool, serialization: Serialization, bytes: Seq<u8>) -> Result<Seq<u8>, Seq<char>> {
    match gzip_outcome(bytes) {
        Ok(z) => Ok(
            frame_bytes(
                kind_code(kind),
                is_last,
                serialization_code(serialization),
                compression_code(CompressionFlag::Gzip),
                z,
            ),
        ),
        Err(e) => Err(e),
    }
}

/// The audio frame that carries `pcm` (raw samples, gzip-compressed).
pub fn build_audio_message_from_pcm(pcm: &[i16], is_last: bool) -> (r: Result<Vec<u8>, String>)
    requires
        pcm@.len() * 2 <= usize::MAX,
    ensures
        match r {
            Ok(f) => gzip_frame_outcome(MessageKind::AudioOnlyRequest, is_last, Serialization::Raw, pcm_bytes(pcm@))
                == Ok::<Seq<u8>, Seq<char>>(f@),
            Err(e) => gzip_frame_outcome(MessageKind::AudioOnlyRequest, is_last, Serialization::Raw, pcm_bytes(pcm@))
                == Err::<Seq<u8>, Seq<char>>(e@),
        },
{
    let bytes = pcm_le_bytes(pcm);
    audio_frame(bytes, is_last)
}

/// The audio frame that carries already serialised sample bytes.
pub fn audio_frame(bytes: Vec<u8>, is_last: bool) -> (r: Result<Vec<u8>, String>)
    ensures
        match r {
            Ok(f) => gzip_frame_outcome(MessageKind::AudioOnlyRequest, is_last, Serialization::Raw, bytes@)
                == Ok::<Seq<u8>, Seq<char>>(f@),
            Err(e) => gzip_frame_outcome(MessageKind::AudioOnlyRequest, is_last, Serialization::Raw, bytes@)
                == Err::<Seq<u8>, Seq<char>>(e@),
        },
{
    let z = gzip(bytes)?;
    Ok(
        build_frame(
            MessageKind::AudioOnlyRequest,
            is_last,
            Serialization::Raw,
            CompressionFlag::Gzip,
            z.as_slice(),
        ),
    )
}

/// The members of an object; none for other values.
pub open spec fn members_of(v: JsonValue) -> Seq<(String, JsonValue)> {
    match v {
        JsonValue::Object(m) => m@,
        _ => Seq::empty(),
    }
}

/// A string value with this text.
pub open spec fn is_text(v: JsonValue, t: Seq<char>) -> bool {
    v matches JsonValue::Str(s) && s@ == t
}

/// The start request of a recognition session: the user, the audio format (16 kHz 16-bit
/// mono PCM in the set language) and the recognition options.
pub open spec fn is_init_payload(v: JsonValue, language: Seq<char>) -> bool {
    let top = members_of(v);
    let user = members_of(top[0].1);
    let audio = members_of(top[1].1);
    let req = members_of(top[2].1);
    &&& v is Object && top.len() == 3
    &&& top[0].0@ == "user"@ && top[0].1 is Object && user.len() == 1
    &&& user[0].0@ == "uid"@ && is_text(user[0].1, "sparkspeech"@)
    &&& top[1].0@ == "audio"@ && top[1].1 is Object && audio.len() == 5
    &&& audio[0].0@ == "format"@ && is_text(audio[0].1, "pcm"@)
    &&& audio[1].0@ == "rate"@ && audio[1].1 == JsonValue::UInt(16000)
    &&& audio[2].0@ == "bits"@ && audio[2].1 == JsonValue::UInt(16)
    &&& audio[3].0@ == "channel"@ && audio[3].1 == JsonValue::UInt(1)
    &&& audio[4].0@ == "language"@ && is_text(audio[4].1, language)
    &&& top[2].0@ == "request"@ && top[2].1 is Object && req.len() == 7
    &&& req[0].0@ == "model_name"@ && is_text(req[0].1, "bigmodel"@)
    &&& req[1].0@ == "enable_itn"@ && req[1].1 == JsonValue::Bool(true)
    &&& req[2].0@ == "enable_punc"@ && req[2].1 == JsonValue::Bool(true)
    &&& req[3].0@ == "enable_ddc"@ && req[3].1 == JsonValue::Bool(false)
    &&& req[4].0@ == "enable_nonstream"@ && req[4].1 == JsonValue::Bool(true)
    &&& req[5].0@ == "show_utterances"@ && req[5].1 == JsonValue::Bool(true)
    &&& req[6].0@ == "result_type"@ && is_text(req[6].1, "full"@)
}

fn member(key: &str, value: JsonValue) -> (m: (String, JsonValue))
    ensures
        m.0@ == key@,
        m.1 == value,
{
    (owned(key), value)
}

/// The start request of a recognition session for these settings.
pub fn init_request_payload(settings: &AppSettings) -> (v: JsonValue)
    ensures
        is_init_payload(v, settings.doubao_language@),
{
    let mut user: Vec<(String, JsonValue)> = Vec::new();
    user.push(member("uid", JsonValue::Str(owned("sparkspeech"))));
    let mut audio: Vec<(String, JsonValue)> = Vec::new();
    audio.push(member("format", JsonValue::Str(owned("pcm"))));
    audio.push(member("rate", JsonValue::UInt(16000)));
    audio.push(member("bits", JsonValue::UInt(16)));
    audio.push(member("channel", JsonValue::UInt(1)));
    audio.push(member("language", JsonValue::Str(settings.doubao_language.clone())));
    let mut request: Vec<(String, JsonValue)> = Vec::new();
    request.push(member("model_name", JsonValue::Str(owned("bigmodel"))));
    request.push(member("enable_itn", JsonValue::Bool(true)));
    request.push(member("enable_punc", JsonValue::Bool(true)));
    request.push(member("enable_ddc", JsonValue::Bool(false)));
    request.push(member("enable_nonstream", JsonValue::Bool(true)));
    request.push(member("show_utterances", JsonValue::Bool(true)));
    request.push(member("result_type", JsonValue::Str(owned("full"))));
    let mut top: Vec<(String, JsonValue)> = Vec::new();
    top.push(member("user", JsonValue::Object(user)));
    top.push(member("audio", JsonValue::Object(audio)));
    top.push(member("request", JsonValue::Object(request)));
    JsonValue::Object(top)
}

/// The first frame of a session: the JSON start request, gzip-compressed.
pub fn init_frame(json: Vec<u8>) -> (r: Result<Vec<u8>, String>)
    ensures
        match r {
            Ok(f) => gzip_frame_outcome(MessageKind::FullClientRequest, false, Serialization::Json, json@)
                == Ok::<Seq<u8>, Seq<char>>(f@),
            Err(e) => gzip_frame_outcome(MessageKind::FullClientRequest, false, Serialization::Json, json@)
                == Err::<Seq<u8>, Seq<char>>(e@),
        },
{
    let z = gzip(json)?;
    Ok(
        build_frame(
            MessageKind::FullClientRequest,
            false,
            Serialization::Json,
            CompressionFlag::Gzip,
            z.as_slice(),
        ),
    )
}

// ---------------------------------------------------------------------------
// Uploading a whole recording
// ---------------------------------------------------------------------------

/// Bytes of audio per upload chunk: 200 ms of 16 kHz 16-bit mono.
pub const AUDIO_CHUNK_BYTES: usize = 6400;

/// One chunk of a recording upload: its bytes, whether it is the last, and how much of the
/// recording has been sent once it is.
pub struct AudioUploadStep {
    pub bytes: Vec<u8>,
    pub is_last: bool,
    pub progress_ms: u64,
    pub total_ms: u64,
}

/// Milliseconds of 16 kHz audio in `samples` samples.
pub open spec fn ms_of_samples(samples: int) -> int {
    samples * 1000 / 16000
}

/// Bytes sent once chunk `k` of an upload of `n` bytes is sent.
pub open spec fn sent_after(n: int, k: int) -> int {
    if (k + 1) * 6400 < n {
        (k + 1) * 6400
    } else {
        n
    }
}

/// Chunk `k` of an upload of `pcm`: 6400 bytes at a time, the last chunk shorter; progress is
/// the time sent so far, capped at the recording's length.
pub open spec fn upload_step(pcm: Seq<i16>, k: int) -> (Seq<u8>, bool, u64, u64) {
    let bytes = pcm_bytes(pcm);
    let n = bytes.len() as int;
    let total = ms_of_samples(pcm.len() as int);
    let sent = sent_after(n, k);
    let at = ms_of_samples(sent / 2);
    (bytes.subrange(k * 6400, sent), sent >= n, (if at < total { at } else { total }) as u64, total as u64)
}

/// Number of chunks of an upload of `n` bytes.
pub open spec fn chunk_count(n: int) -> int {
    (n + 6399) / 6400
}

pub open spec fn step_view(s: AudioUploadStep) -> (Seq<u8>, bool, u64, u64) {
    (s.bytes@, s.is_last, s.progress_ms, s.total_ms)
}

/// Splits a recording into the chunks that are uploaded one after another; an empty
/// recording is refused.
pub fn audio_upload_plan(pcm: &[i16]) -> (r: Result<Vec<AudioUploadStep>, String>)
    requires
        pcm@.len() * 2 <= usize::MAX,
        pcm@.len() * 1000 <= u64::MAX,
    ensures
        pcm@.len() == 0 ==> r is Err && r->Err_0@ == "录音文件为空"@,
        pcm@.len() > 0 ==> r is Ok && r->Ok_0@.len() == chunk_count(2 * pcm@.len() as int) && forall|k: int|
            0 <= k < r->Ok_0@.len() ==> step_view(#[trigger] r->Ok_0@[k]) == upload_step(pcm@, k),
{
    if pcm.len() == 0 {
        return Err(owned("录音文件为空"));
    }
    let total_ms = (pcm.len() as u64 * 1000) / 16_000;
    let bytes = pcm_le_bytes(pcm);
    let n = bytes.len();
    let mut steps: Vec<AudioUploadStep> = Vec::new();
    let mut start: usize = 0;
    let mut k: usize = 0;
    while start < n
        invariant
            n == bytes@.len() == 2 * pcm@.len(),
            bytes@ == pcm_bytes(pcm@),
            n > 0,
            total_ms == ms_of_samples(pcm@.len() as int),
            pcm@.len() * 1000 <= u64::MAX,
            start <= n,
            start < n ==> start == k * 6400,
            start < n ==> k < chunk_count(n as int),
            start >= n ==> k == chunk_count(n as int),
            steps@.len() == k,
            forall|j: int| 0 <= j < k ==> step_view(#[trigger] steps@[j]) == upload_step(pcm@, j),
        decreases n - start,
    {
        let end = if n - start > AUDIO_CHUNK_BYTES {
            start + AUDIO_CHUNK_BYTES
        } else {
            n
        };
        let mut chunk: Vec<u8> = Vec::new();
        let mut i = start;
        while i < end
            invariant
                start <= i <= end <= n == bytes@.len(),
                chunk@ == bytes@.subrange(start as int, i as int),
            decreases end - i,
        {
            chunk.push(bytes[i]);
            assert(bytes@.subrange(start as int, i + 1) =~= bytes@.subrange(start as int, i as int).push(
                bytes@[i as int],
            ));
            i = i + 1;
        }
        let at = ((end / 2) as u64 * 1000) / 16_000;
        let progress = if at < total_ms {
            at
        } else {
            total_ms
        };
        let step = AudioUploadStep { bytes: chunk, is_last: end >= n, progress_ms: progress, total_ms };
        assert(step_view(step) == upload_step(pcm@, k as int));
        steps.push(step);
        proof {
            if end < n {
                assert((k + 1) * 6400 < n);
                assert(k + 1 < chunk_count(n as int));
            } else {
                assert(k * 6400 < n <= (k + 1) * 6400);
                assert(chunk_count(n as int) == k + 1);
            }
        }
        start = end;
        k = k + 1;
    }
    Ok(steps)
}

/// The bytes of the first `c` upload chunks, one after another.
pub open spec fn upload_concat(pcm: Seq<i16>, c: int) -> Seq<u8>
    decreases c,
{
    if c <= 0 {
        Seq::empty()
    } else {
        upload_concat(pcm, c - 1) + upload_step(pcm, c - 1).0
    }
}

proof fn lemma_upload_prefix(pcm: Seq<i16>, c: int)
    requires
        0 <= c <= chunk_count(2 * pcm.len() as int),
    ensures
        upload_concat(pcm, c) == pcm_bytes(pcm).subrange(
            0,
            if c * 6400 < 2 * pcm.len() {
                c * 6400
            } else {
                2 * pcm.len() as int
            },
        ),
    decreases c,
{
    let n = 2 * pcm.len() as int;
    let bytes = pcm_bytes(pcm);
    if c == 0 {
        assert(upload_concat(pcm, 0) =~= bytes.subrange(0, 0));
    } else {
        lemma_upload_prefix(pcm, c - 1);
        assert((c - 1) * 6400 < n) by (nonlinear_arith)
            requires
                c - 1 < (n + 6399) / 6400,
                0 <= c - 1,
        ;
        let end = if c * 6400 < n {
            c * 6400
        } else {
            n
        };
        assert(upload_step(pcm, c - 1).0 == bytes.subrange((c - 1) * 6400, end));
        assert(upload_concat(pcm, c) =~= bytes.subrange(0, end));
    }
}

/// The upload chunks cut the recording's little-endian bytes in order, with nothing left
/// out, repeated or reordered: put one after another, they are exactly those bytes.
pub proof fn law_upload_chunks_partition_the_audio(pcm: Seq<i16>)
    ensures
        upload_concat(pcm, chunk_count(2 * pcm.len() as int)) == pcm_bytes(pcm),
{
    let n = 2 * pcm.len() as int;
    let c = chunk_count(n);
    assert(c * 6400 >= n && c >= 0) by (nonlinear_arith)
        requires
            c == (n + 6399) / 6400,
            n >= 0,
    ;
    lemma_upload_prefix(pcm, c);
    assert(pcm_bytes(pcm).subrange(0, n) =~= pcm_bytes(pcm));
}

/// Every upload chunk carries audio, and only the last one is marked last, with the full
/// length as its progress: the stream ends on real audio, never on an empty packet.
pub proof fn law_upload_marks_only_the_last_chunk(pcm: Seq<i16>, k: int)
    requires
        pcm.len() > 0,
        0 <= k < chunk_count(2 * pcm.len() as int),
    ensures
        upload_step(pcm, k).0.len() > 0,
        upload_step(pcm, k).1 <==> k == chunk_count(2 * pcm.len() as int) - 1,
        k == chunk_count(2 * pcm.len() as int) - 1 ==> upload_step(pcm, k).2 == upload_step(pcm, k).3,
{
    let n = 2 * pcm.len() as int;
    let c = chunk_count(n);
    assert(k * 6400 < n) by (nonlinear_arith)
        requires
            k < (n + 6399) / 6400,
            0 <= k,
            n > 0,
    ;
    assert((k + 1) * 6400 >= n <==> k == c - 1) by (nonlinear_arith)
        requires
            c == (n + 6399) / 6400,
            k < c,
            0 <= k,
            k * 6400 < n,
    ;
    assert(pcm_bytes(pcm).len() == n);
}

/// Pause between audio chunks when a whole recording is uploaded, in milliseconds.
pub const DOUBAO_FAST_SEND_DELAY_MS: u64 = 10;

/// Length of one audio chunk of a recording upload, in milliseconds.
pub const DOUBAO_AUDIO_CHUNK_MS: usize = 200;

/// The latest recognised text after a response: replaced by the response's text when that is
/// not blank.
pub open spec fn latest_after(latest: Seq<char>, text: Option<Seq<char>>) -> Seq<char> {
    match text {
        Some(t) => if is_blank(t) {
            latest
        } else {
            t
        },
        None => latest,
    }
}

/// Keeps the latest non-blank recognised text.
pub fn next_latest_text(latest: String, text: Option<String>) -> (r: String)
    ensures
        r@ == latest_after(latest@, match text {
            Some(t) => Some(t@),
            None => None,
        }),
{
    match text {
        Some(t) => if blank(t.as_str()) {
            latest
        } else {
            t
        },
        None => latest,
    }
}

/// The pause after sending a streamed chunk: its own, or the stream's default when it has none.
pub fn chunk_send_delay(chunk_delay_ms: u64, default_delay_ms: u64) -> (d: u64)
    ensures
        d == if chunk_delay_ms == 0 {
            default_delay_ms
        } else {
            chunk_delay_ms
        },
{
    if chunk_delay_ms == 0 {
        default_delay_ms
    } else {
        chunk_delay_ms
    }
}

// ---------------------------------------------------------------------------
// The connection request
// ---------------------------------------------------------------------------

/// What tungstenite's `IntoClientRequest` for a URL string reports: nothing when the URL
/// makes a client request, or the error's message.
pub uninterp spec fn client_request_problem(endpoint: Seq<char>) -> Option<Seq<char>>;

/// Turns the endpoint into a WebSocket client request with tungstenite's `IntoClientRequest`
/// and reports only whether that failed, with the error's message. The outcome is named
/// `client_request_problem(endpoint)`.
#[verifier::external_body]
fn client_request_check(endpoint: &str) -> (r: Option<String>)
    ensures
        match r {
            Some(e) => client_request_problem(endpoint@) == Some(e@),
            None => client_request_problem(endpoint@) is None,
        },
{
    tokio_tungstenite::tungstenite::client::IntoClientRequest::into_client_request(endpoint)
        .err()
        .map(|error| error.to_string())
}

/// A character that an HTTP header value may hold: visible ASCII, space, tab, or any
/// character beyond ASCII.
pub open spec fn header_char(c: char) -> bool {
    let u = c as u32;
    (u >= 32 && u != 127) || u == 9
}

pub open spec fn header_value_ok(s: Seq<char>) -> bool {
    forall|i: int| 0 <= i < s.len() ==> header_char(#[trigger] s[i])
}

/// Parses a header value with the http crate (`HeaderValue::from_str`): it refuses control
/// characters other than tab, and DEL; its error reads "failed to parse header value".
#[verifier::external_body]
fn header_value_check(value: &str) -> (r: Result<(), String>)
    ensures
        r is Ok <==> header_value_ok(value@),
        r matches Err(e) ==> e@ == "failed to parse header value"@,
{
    value.parse::<http::HeaderValue>().map(|_| ()).map_err(|error| error.to_string())
}

/// The error text of the http crate's `InvalidHeaderValue`.
pub open spec fn header_error() -> Seq<char> {
    "failed to parse header value"@
}

/// A header as name and value.
pub open spec fn header_view(h: (String, String)) -> (Seq<char>, Seq<char>) {
    (h.0@, h.1@)
}

/// The authentication headers, or why they cannot be made.
pub open spec fn auth_headers(s: AppSettings) -> Result<Seq<(Seq<char>, Seq<char>)>, Seq<char>> {
    if s.doubao_auth_mode@ == "app_access_key"@ {
        if is_blank(s.doubao_app_key@) || is_blank(s.doubao_access_key@) {
            Err("豆包旧版鉴权需要填写 App Key 和 Access Key"@)
        } else if !header_value_ok(s.doubao_app_key@) {
            Err("豆包 App Key 请求头无效："@ + header_error())
        } else if !header_value_ok(s.doubao_access_key@) {
            Err("豆包 Access Key 请求头无效："@ + header_error())
        } else {
            Ok(
                seq![
                    ("X-Api-App-Key"@, s.doubao_app_key@),
                    ("X-Api-Access-Key"@, s.doubao_access_key@),
                ],
            )
        }
    } else if is_blank(s.doubao_api_key@) {
        Err("豆包新版鉴权需要填写 API Key"@)
    } else if !header_value_ok(s.doubao_api_key@) {
        Err("豆包 API Key 请求头无效："@ + header_error())
    } else {
        Ok(seq![("X-Api-Key"@, s.doubao_api_key@)])
    }
}

/// The headers of the recognition connection request once the endpoint is known to make a
/// client request: the credentials of the chosen authentication mode must be filled in, and
/// every value must be a valid header value.
pub open spec fn header_list(s: AppSettings, request_id: Seq<char>) -> Result<Seq<(Seq<char>, Seq<char>)>, Seq<char>> {
    match auth_headers(s) {
        Err(e) => Err(e),
        Ok(h) => if !header_value_ok(s.doubao_resource_id@) {
            Err("豆包 Resource ID 请求头无效："@ + header_error())
        } else if !header_value_ok(request_id) {
            Err("豆包 Request ID 请求头无效："@ + header_error())
        } else {
            Ok(
                h + seq![
                    ("X-Api-Resource-Id"@, s.doubao_resource_id@),
                    ("X-Api-Request-Id"@, request_id),
                    ("X-Api-Connect-Id"@, request_id),
                    ("X-Api-Sequence"@, "-1"@),
                ],
            )
        },
    }
}

/// The headers of the recognition connection request, or the error that stops it: the
/// endpoint must make a client request, then `header_list`.
pub open spec fn doubao_headers(s: AppSettings, request_id: Seq<char>) -> Result<Seq<(Seq<char>, Seq<char>)>, Seq<char>> {
    match client_request_problem(s.doubao_endpoint@) {
        Some(e) => Err(e),
        None => header_list(s, request_id),
    }
}

/// The recognition connection request: the endpoint and the headers to add to it.
pub struct DoubaoRequest {
    pub endpoint: String,
    pub headers: Vec<(String, String)>,
}

fn header(name: &str, value: &str) -> (h: (String, String))
    ensures
        header_view(h) == (name@, value@),
{
    (owned(name), owned(value))
}

fn checked_value(label: &str, value: &str) -> (r: Result<(), String>)
    ensures
        r is Ok <==> header_value_ok(value@),
        r matches Err(e) ==> e@ == label@ + header_error(),
{
    match header_value_check(value) {
        Ok(()) => Ok(()),
        Err(e) => {
            let mut m = owned(label);
            push_text(&mut m, e.as_str());
            Err(m)
        },
    }
}

/// Builds the headers of the recognition connection request for `settings` with this
/// request id.
pub fn doubao_request_headers(settings: &AppSettings, request_id: &str) -> (r: Result<
    Vec<(String, String)>,
    String,
>)
    ensures
        match r {
            Ok(headers) => header_list(*settings, request_id@) == Ok::<
                Seq<(Seq<char>, Seq<char>)>,
                Seq<char>,
            >(headers@.map_values(|h: (String, String)| header_view(h))),
            Err(e) => header_list(*settings, request_id@) == Err::<
                Seq<(Seq<char>, Seq<char>)>,
                Seq<char>,
            >(e@),
        },
{
    let mut headers: Vec<(String, String)> = Vec::new();
    if same_text(settings.doubao_auth_mode.as_str(), "app_access_key") {
        if blank(settings.doubao_app_key.as_str()) || blank(settings.doubao_access_key.as_str()) {
            return Err(owned("豆包旧版鉴权需要填写 App Key 和 Access Key"));
        }
        checked_value("豆包 App Key 请求头无效：", settings.doubao_app_key.as_str())?;
        checked_value("豆包 Access Key 请求头无效：", settings.doubao_access_key.as_str())?;
        headers.push(header("X-Api-App-Key", settings.doubao_app_key.as_str()));
        headers.push(header("X-Api-Access-Key", settings.doubao_access_key.as_str()));
        assert(headers@.map_values(|h: (String, String)| header_view(h)) =~= seq![
            ("X-Api-App-Key"@, settings.doubao_app_key@),
            ("X-Api-Access-Key"@, settings.doubao_access_key@),
        ]);
    } else {
        if blank(settings.doubao_api_key.as_str()) {
            return Err(owned("豆包新版鉴权需要填写 API Key"));
        }
        checked_value("豆包 API Key 请求头无效：", settings.doubao_api_key.as_str())?;
        headers.push(header("X-Api-Key", settings.doubao_api_key.as_str()));
        assert(headers@.map_values(|h: (String, String)| header_view(h)) =~= seq![
            ("X-Api-Key"@, settings.doubao_api_key@),
        ]);
    }
    let ghost auth = headers@.map_values(|h: (String, String)| header_view(h));
    assert(auth_headers(*settings) == Ok::<Seq<(Seq<char>, Seq<char>)>, Seq<char>>(auth));
    checked_value("豆包 Resource ID 请求头无效：", settings.doubao_resource_id.as_str())?;
    checked_value("豆包 Request ID 请求头无效：", request_id)?;
    headers.push(header("X-Api-Resource-Id", settings.doubao_resource_id.as_str()));
    headers.push(header("X-Api-Request-Id", request_id));
    headers.push(header("X-Api-Connect-Id", request_id));
    headers.push(header("X-Api-Sequence", "-1"));
    assert(headers@.map_values(|h: (String, String)| header_view(h)) =~= auth + seq![
        ("X-Api-Resource-Id"@, settings.doubao_resource_id@),
        ("X-Api-Request-Id"@, request_id@),
        ("X-Api-Connect-Id"@, request_id@),
        ("X-Api-Sequence"@, "-1"@),
    ]);
    Ok(headers)
}

/// Builds the recognition connection request for `settings` with this request id.
pub fn build_doubao_request(settings: &AppSettings, request_id: &str) -> (r: Result<
    DoubaoRequest,
    String,
>)
    ensures
        match r {
            Ok(req) => req.endpoint@ == settings.doubao_endpoint@ && doubao_headers(
                *settings,
                request_id@,
            ) == Ok::<Seq<(Seq<char>, Seq<char>)>, Seq<char>>(
                req.headers@.map_values(|h: (String, String)| header_view(h)),
            ),
            Err(e) => doubao_headers(*settings, request_id@) == Err::<
                Seq<(Seq<char>, Seq<char>)>,
                Seq<char>,
            >(e@),
        },
{
    if let Some(e) = client_request_check(settings.doubao_endpoint.as_str()) {
        return Err(e);
    }
    let headers = doubao_request_headers(settings, request_id)?;
    Ok(DoubaoRequest { endpoint: settings.doubao_endpoint.clone(), headers })
}

/// What checking the recognition settings reports: the first missing field, or that they
/// are complete.
pub open spec fn doubao_config_report(s: AppSettings) -> Result<Seq<char>, Seq<char>> {
    if is_blank(s.doubao_endpoint@) {
        Err("豆包 Endpoint 为空"@)
    } else if is_blank(s.doubao_resource_id@) {
        Err("豆包 Resource ID 为空"@)
    } else if s.doubao_auth_mode@ == "app_access_key"@ && (is_blank(s.doubao_app_key@) || is_blank(
        s.doubao_access_key@,
    )) {
        Err("旧版鉴权需要 App Key 和 Access Key"@)
    } else if s.doubao_auth_mode@ != "app_access_key"@ && is_blank(s.doubao_api_key@) {
        Err("新版鉴权需要 API Key"@)
    } else {
        Ok("豆包配置字段完整，可用历史记录里的重新转写做真实 ASR 测试"@)
    }
}

/// Checks that the recognition settings are filled in.
pub fn test_doubao_config(settings: &AppSettings) -> (r: Result<String, String>)
    ensures
        match r {
            Ok(m) => doubao_config_report(*settings) == Ok::<Seq<char>, Seq<char>>(m@),
            Err(e) => doubao_config_report(*settings) == Err::<Seq<char>, Seq<char>>(e@),
        },
{
    if blank(settings.doubao_endpoint.as_str()) {
        return Err(owned("豆包 Endpoint 为空"));
    }
    if blank(settings.doubao_resource_id.as_str()) {
        return Err(owned("豆包 Resource ID 为空"));
    }
    if same_text(settings.doubao_auth_mode.as_str(), "app_access_key") {
        if blank(settings.doubao_app_key.as_str()) || blank(settings.doubao_access_key.as_str()) {
            return Err(owned("旧版鉴权需要 App Key 和 Access Key"));
        }
    } else if blank(settings.doubao_api_key.as_str()) {
        return Err(owned("新版鉴权需要 API Key"));
    }
    Ok(owned("豆包配置字段完整，可用历史记录里的重新转写做真实 ASR 测试"))
}

/// What the user is told when the recognition connection fails: an authentication failure
/// (the error mentions 401 or Unauthorized) gets an explanation in front of the error.
pub open spec fn connection_error_text(message: Seq<char>) -> Seq<char> {
    if contains_text(message, "401"@) || contains_text(message, "Unauthorized"@) {
        "豆包鉴权失败：HTTP 401 Unauthorized。请检查鉴权方式、API Key/App Key/Access Key 和 Resource ID 是否来自同一个控制台项目。原始错误："@
            + message
    } else {
        message
    }
}

/// The message for a failed recognition connection.
pub fn connection_error_message(message: String) -> (r: String)
    ensures
        r@ == connection_error_text(message@),
{
    if text_contains(message.as_str(), "401") || text_contains(message.as_str(), "Unauthorized") {
        let mut r = owned(
            "豆包鉴权失败：HTTP 401 Unauthorized。请检查鉴权方式、API Key/App Key/Access Key 和 Resource ID 是否来自同一个控制台项目。原始错误：",
        );
        push_text(&mut r, message.as_str());
        r
    } else {
        message
    }
}

} // verus!
