use vstd::prelude::*;
use vstd::utf8::*;

use crate::text::{decimal, owned, push_decimal, push_text};

verus! {

// ---------------------------------------------------------------------------
// Compression and text decoding
// ---------------------------------------------------------------------------

/// What gzip-compressing `data` with flate2's default level gives: the compressed bytes, or the
/// message of the error.
pub uninterp spec fn gzip_outcome(data: Seq<u8>) -> Result<Seq<u8>, Seq<char>>;

/// What gzip-decompressing `data` with flate2 gives: the decompressed bytes, or the message of
/// the error.
pub uninterp spec fn gunzip_outcome(data: Seq<u8>) -> Result<Seq<u8>, Seq<char>>;

/// Compresses `data` into one gzip member with flate2's `GzEncoder` at the default level.
/// The result, bytes or error message, is named `gzip_outcome(data)`: it depends on the
/// bytes alone.
#[verifier::external_body]
pub(crate) fn gzip(data: Vec<u8>) -> (r: Result<Vec<u8>, String>)
    ensures
        match r {
            Ok(v) => gzip_outcome(data@) == Ok::<Seq<u8>, Seq<char>>(v@),
            Err(e) => gzip_outcome(data@) == Err::<Seq<u8>, Seq<char>>(e@),
        },
{
    let mut encoder = flate2::write::GzEncoder::new(Vec::new(), flate2::Compression::default());
    std::io::Write::write_all(&mut encoder, &data).map_err(|error| error.to_string())?;
    encoder.finish().map_err(|error| error.to_string())
}

/// Decompresses a gzip stream with flate2's `read::GzDecoder`, reading to its end.
/// The result, bytes or error message, is named `gunzip_outcome(data)`. A stream that
/// `gzip` made from some bytes decompresses to those bytes.
#[verifier::external_body]
pub(crate) fn gunzip(data: &[u8]) -> (r: Result<Vec<u8>, String>)
    ensures
        match r {
            Ok(v) => gunzip_outcome(data@) == Ok::<Seq<u8>, Seq<char>>(v@) && forall|x: Seq<u8>|
                #[trigger] gzip_outcome(x) == Ok::<Seq<u8>, Seq<char>>(data@) ==> v@ == x,
            Err(e) => gunzip_outcome(data@) == Err::<Seq<u8>, Seq<char>>(e@) && forall|x: Seq<u8>|
                #[trigger] gzip_outcome(x) != Ok::<Seq<u8>, Seq<char>>(data@),
        },
{
    let mut decoder = flate2::read::GzDecoder::new(data);
    let mut output = Vec::new();
    std::io::Read::read_to_end(&mut decoder, &mut output).map_err(|error| error.to_string())?;
    Ok(output)
}

/// The text that UTF-8 bytes spell (std's `str::from_utf8`): none when the bytes are not
/// valid UTF-8.
#[verifier::external_body]
pub(crate) fn utf8_text(bytes: &[u8]) -> (r: Option<String>)
    ensures
        r is Some <==> valid_utf8(bytes@),
        r matches Some(s) ==> s@ == decode_utf8(bytes@),
{
    std::str::from_utf8(bytes).ok().map(|text| text.to_string())
}

// ---------------------------------------------------------------------------
// Binary frames of the streaming recognition protocol
// ---------------------------------------------------------------------------

/// Kind of a frame that the client sends.
pub enum MessageKind {
    FullClientRequest,
    AudioOnlyRequest,
}

/// How a frame's payload is serialised.
pub enum Serialization {
    Raw,
    Json,
}

/// How a frame's payload is compressed.
pub enum CompressionFlag {
    Gzip,
}

pub open spec fn kind_code(kind: MessageKind) -> u8 {
    match kind {
        MessageKind::FullClientRequest => 1,
        MessageKind::AudioOnlyRequest => 2,
    }
}

pub open spec fn serialization_code(s: Serialization) -> u8 {
    match s {
        Serialization::Raw => 0,
        Serialization::Json => 1,
    }
}

pub open spec fn compression_code(c: CompressionFlag) -> u8 {
    match c {
        CompressionFlag::Gzip => 1,
    }
}

/// The four big-endian bytes of `n`.
pub open spec fn be32(n: u32) -> Seq<u8> {
    seq![(n >> 24u32) as u8, (n >> 16u32) as u8, (n >> 8u32) as u8, n as u8]
}

/// The number that four big-endian bytes spell.
pub open spec fn be32_value(b: Seq<u8>) -> u32 {
    ((b[0] as u32) << 24u32) | ((b[1] as u32) << 16u32) | ((b[2] as u32) << 8u32) | (b[3] as u32)
}

/// A client frame: a four-byte header (version 1, header size 1), the payload size as four
/// big-endian bytes, then the payload.
pub open spec fn frame_bytes(kind: u8, is_last: bool, serialization: u8, compression: u8, payload: Seq<u8>) -> Seq<u8> {
    seq![0x11u8, (kind * 16 + if is_last { 2u8 } else { 0u8 }) as u8, (serialization * 16 + compression) as u8, 0u8]
        + be32(payload.len() as u32) + payload
}

fn push_be32(v: &mut Vec<u8>, n: u32)
    ensures
        final(v)@ == old(v)@ + be32(n),
{
    v.push((n >> 24) as u8);
    v.push((n >> 16) as u8);
    v.push((n >> 8) as u8);
    v.push(n as u8);
    assert(v@ =~= old(v)@ + be32(n));
}

fn push_all(v: &mut Vec<u8>, data: &[u8])
    ensures
        final(v)@ == old(v)@ + data@,
{
    let mut i: usize = 0;
    while i < data.len()
        invariant
            i <= data.len(),
            v@ == old(v)@ + data@.take(i as int),
        decreases data.len() - i,
    {
        v.push(data[i]);
        assert(data@.take(i + 1) =~= data@.take(i as int).push(data@[i as int]));
        i = i + 1;
    }
    assert(data@.take(data@.len() as int) =~= data@);
}

/// Builds a client frame around `payload`. The size field holds the payload length truncated
/// to 32 bits.
pub fn build_frame(
    kind: MessageKind,
    is_last: bool,
    serialization: Serialization,
    compression: CompressionFlag,
    payload: &[u8],
) -> (frame: Vec<u8>)
    ensures
        frame@ == frame_bytes(
            kind_code(kind),
            is_last,
            serialization_code(serialization),
            compression_code(compression),
            payload@,
        ),
{
    let message_type: u8 = match kind {
        MessageKind::FullClientRequest => 1,
        MessageKind::AudioOnlyRequest => 2,
    };
    let flags: u8 = if is_last {
        2
    } else {
        0
    };
    let serialization: u8 = match serialization {
        Serialization::Raw => 0,
        Serialization::Json => 1,
    };
    let compression: u8 = match compression {
        CompressionFlag::Gzip => 1,
    };
    let mut frame: Vec<u8> = Vec::new();
    frame.push(0x11);
    frame.push(message_type * 16 + flags);
    frame.push(serialization * 16 + compression);
    frame.push(0);
    push_be32(&mut frame, payload.len() as u32);
    push_all(&mut frame, payload);
    frame
}

/// The bytes of a frame that the server sent, once the header is read.
pub struct ServerPayload {
    pub payload: Vec<u8>,
    pub gzip: bool,
    pub is_last: bool,
}

/// Header size in bytes that a frame declares.
pub open spec fn header_size(data: Seq<u8>) -> int {
    ((data[0] & 0x0fu8) * 4) as int
}

pub open spec fn frame_flags(data: Seq<u8>) -> u8 {
    data[1] & 0x0fu8
}

pub open spec fn has_sequence(data: Seq<u8>) -> bool {
    frame_flags(data) == 1 || frame_flags(data) == 3
}

/// Where the payload size field starts.
pub open spec fn size_at(data: Seq<u8>) -> int {
    header_size(data) + if has_sequence(data) {
        4int
    } else {
        0int
    }
}

pub open spec fn payload_size(data: Seq<u8>) -> int {
    be32_value(data.subrange(size_at(data), size_at(data) + 4)) as int
}

/// The message of an error frame whose code field starts at `cursor`.
pub open spec fn error_frame_message(data: Seq<u8>, cursor: int) -> Seq<char> {
    if data.len() < cursor + 8 {
        "豆包返回错误，但错误帧不完整"@
    } else {
        let code = be32_value(data.subrange(cursor, cursor + 4));
        let size = be32_value(data.subrange(cursor + 4, cursor + 8)) as int;
        let text = if cursor + 8 + size <= data.len() && valid_utf8(
            data.subrange(cursor + 8, cursor + 8 + size),
        ) {
            decode_utf8(data.subrange(cursor + 8, cursor + 8 + size))
        } else {
            Seq::<char>::empty()
        };
        "豆包返回错误："@ + decimal(code as nat) + " "@ + text
    }
}

/// The message of a frame whose payload runs past its end.
pub open spec fn incomplete_payload_message(data: Seq<u8>) -> Seq<char> {
    "豆包返回帧 payload 不完整：frame_len="@ + decimal(data.len()) + ", header_size="@ + decimal(
        header_size(data) as nat,
    ) + ", flags="@ + decimal(frame_flags(data) as nat) + ", has_sequence="@ + (if has_sequence(
        data,
    ) {
        "true"@
    } else {
        "false"@
    }) + ", payload_size="@ + decimal(payload_size(data) as nat) + ", payload_start="@ + decimal(
        (size_at(data) + 4) as nat,
    )
}

/// What reading a server frame's header gives: the payload with its flags, or the error
/// message.
pub open spec fn server_payload_outcome(data: Seq<u8>) -> Result<(Seq<u8>, bool, bool), Seq<char>> {
    if data.len() < 8 {
        Err("豆包返回帧过短"@)
    } else if (data[1] >> 4u8) == 15 {
        Err(error_frame_message(data, header_size(data)))
    } else if data.len() < size_at(data) + 4 {
        Err("豆包返回帧缺少 payload"@)
    } else if data.len() < size_at(data) + 4 + payload_size(data) {
        Err(incomplete_payload_message(data))
    } else {
        let start = size_at(data) + 4;
        Ok(
            (
                data.subrange(start, start + payload_size(data)),
                (data[2] & 0x0fu8) == 1,
                frame_flags(data) == 2 || frame_flags(data) == 3,
            ),
        )
    }
}

fn read_be32(data: &[u8], at: usize) -> (n: u32)
    requires
        at + 4 <= data.len(),
    ensures
        n == be32_value(data@.subrange(at as int, at + 4)),
{
    ((data[at] as u32) << 24) | ((data[at + 1] as u32) << 16) | ((data[at + 2] as u32) << 8) | (
    data[at + 3] as u32)
}

fn copy_range(data: &[u8], from: usize, to: usize) -> (r: Vec<u8>)
    requires
        from <= to <= data.len(),
    ensures
        r@ == data@.subrange(from as int, to as int),
{
    let mut r: Vec<u8> = Vec::new();
    let mut i = from;
    while i < to
        invariant
            from <= i <= to <= data.len(),
            r@ == data@.subrange(from as int, i as int),
        decreases to - i,
    {
        r.push(data[i]);
        assert(data@.subrange(from as int, i + 1) =~= data@.subrange(from as int, i as int).push(
            data@[i as int],
        ));
        i = i + 1;
    }
    r
}

/// The message of an error frame (message type 15) whose code field starts at `cursor`.
pub fn parse_error_frame(data: &[u8], cursor: usize) -> (m: String)
    requires
        cursor <= 60,
    ensures
        m@ == error_frame_message(data@, cursor as int),
{
    if data.len() < cursor + 8 {
        return owned("豆包返回错误，但错误帧不完整");
    }
    let code = read_be32(data, cursor);
    let size = read_be32(data, cursor + 4) as usize;
    let start = cursor + 8;
    let text = if size <= data.len() - start {
        let bytes = copy_range(data, start, start + size);
        match utf8_text(bytes.as_slice()) {
            Some(t) => t,
            None => String::new(),
        }
    } else {
        String::new()
    };
    let mut m = owned("豆包返回错误：");
    push_decimal(&mut m, code as u64);
    push_text(&mut m, " ");
    push_text(&mut m, text.as_str());
    m
}

/// Reads a server frame's header and size field and cuts out its payload.
pub fn read_server_payload(data: &[u8]) -> (r: Result<ServerPayload, String>)
    ensures
        match r {
            Ok(p) => server_payload_outcome(data@) == Ok::<(Seq<u8>, bool, bool), Seq<char>>(
                (p.payload@, p.gzip, p.is_last),
            ),
            Err(e) => server_payload_outcome(data@) == Err::<(Seq<u8>, bool, bool), Seq<char>>(
                e@,
            ),
        },
{
    if data.len() < 8 {
        return Err(owned("豆包返回帧过短"));
    }
    let b0 = data[0];
    assert((b0 & 0x0fu8) <= 15u8) by (bit_vector);
    let header_size = ((b0 & 0x0f) * 4) as usize;
    let message_type = data[1] >> 4;
    let flags = data[1] & 0x0f;
    let compression = data[2] & 0x0f;
    if message_type == 15 {
        return Err(parse_error_frame(data, header_size));
    }
    let has_sequence = flags == 1 || flags == 3;
    let size_at: usize = if has_sequence {
        header_size + 4
    } else {
        header_size
    };
    if data.len() < size_at + 4 {
        return Err(owned("豆包返回帧缺少 payload"));
    }
    let size = read_be32(data, size_at) as usize;
    let start = size_at + 4;
    if size > data.len() - start {
        let mut m = owned("豆包返回帧 payload 不完整：frame_len=");
        push_decimal(&mut m, data.len() as u64);
        push_text(&mut m, ", header_size=");
        push_decimal(&mut m, header_size as u64);
        push_text(&mut m, ", flags=");
        push_decimal(&mut m, flags as u64);
        push_text(&mut m, ", has_sequence=");
        push_text(
            &mut m,
            if has_sequence {
                "true"
            } else {
                "false"
            },
        );
        push_text(&mut m, ", payload_size=");
        push_decimal(&mut m, size as u64);
        push_text(&mut m, ", payload_start=");
        push_decimal(&mut m, start as u64);
        return Err(m);
    }
    let payload = copy_range(data, start, start + size);
    Ok(ServerPayload { payload, gzip: compression == 1, is_last: flags == 2 || flags == 3 })
}

/// Reading back a frame that `build_frame` wrote gives its payload and its last-frame flag.
pub proof fn law_frame_round_trip(kind: MessageKind, is_last: bool, serialization: Serialization, payload: Seq<u8>)
    requires
        payload.len() <= u32::MAX,
    ensures
        server_payload_outcome(
            frame_bytes(kind_code(kind), is_last, serialization_code(serialization), 1, payload),
        ) == Ok::<(Seq<u8>, bool, bool), Seq<char>>((payload, true, is_last)),
{
    let f = frame_bytes(kind_code(kind), is_last, serialization_code(serialization), 1, payload);
    let k = kind_code(kind);
    let s = serialization_code(serialization);
    let fl: u8 = if is_last { 2 } else { 0 };
    let b1 = (k * 16 + fl) as u8;
    let b2 = (s * 16 + 1) as u8;
    assert(f[0] == 0x11u8);
    assert(f[1] == b1);
    assert(f[2] == b2);
    assert((0x11u8 & 0x0fu8) == 1u8) by (bit_vector);
    assert(k == 1 || k == 2);
    assert(s == 0 || s == 1);
    assert((b1 >> 4u8) == k && (b1 & 0x0fu8) == fl) by (bit_vector)
        requires
            b1 == (k * 16 + fl) as u8,
            k == 1u8 || k == 2u8,
            fl == 0u8 || fl == 2u8,
    ;
    assert((b2 & 0x0fu8) == 1u8) by (bit_vector)
        requires
            b2 == (s * 16 + 1) as u8,
            s == 0u8 || s == 1u8,
    ;
    let n = payload.len() as u32;
    assert(f.subrange(4, 8) =~= be32(n));
    assert(be32_value(be32(n)) == n) by {
        let b = be32(n);
        assert(((((n >> 24u32) as u8) as u32) << 24u32) | ((((n >> 16u32) as u8) as u32) << 16u32)
            | ((((n >> 8u32) as u8) as u32) << 8u32) | ((n as u8) as u32) == n) by (bit_vector);
    }
    assert(f.subrange(8, 8 + payload.len() as int) =~= payload);
}


// ---------------------------------------------------------------------------
// Audio for playback
// ---------------------------------------------------------------------------

/// The character of a 6-bit value in the standard base64 alphabet (RFC 4648): `A`-`Z`,
/// `a`-`z`, `0`-`9`, `+`, `/`.
pub open spec fn base64_char(v: int) -> char {
    if v < 26 {
        (65 + v) as char
    } else if v < 52 {
        (97 + v - 26) as char
    } else if v < 62 {
        (48 + v - 52) as char
    } else if v == 62 {
        '+'
    } else {
        '/'
    }
}

/// Standard base64 with padding (RFC 4648): each group of three bytes gives four
/// characters; a last group of one or two bytes is padded with `=`.
pub open spec fn base64_text(bytes: Seq<u8>) -> Seq<char>
    decreases bytes.len(),
{
    if bytes.len() == 0 {
        Seq::empty()
    } else if bytes.len() == 1 {
        let a = bytes[0] as int;
        seq![base64_char(a / 4), base64_char((a % 4) * 16), '=', '=']
    } else if bytes.len() == 2 {
        let a = bytes[0] as int;
        let b = bytes[1] as int;
        seq![base64_char(a / 4), base64_char((a % 4) * 16 + b / 16), base64_char((b % 16) * 4), '=']
    } else {
        let a = bytes[0] as int;
        let b = bytes[1] as int;
        let c = bytes[2] as int;
        seq![
            base64_char(a / 4),
            base64_char((a % 4) * 16 + b / 16),
            base64_char((b % 16) * 4 + c / 64),
            base64_char(c % 64),
        ] + base64_text(bytes.subrange(3, bytes.len() as int))
    }
}

/// Encodes bytes with the base64 crate's `general_purpose::STANDARD` engine, which the
/// crate documents as the standard alphabet with padding; the contract states that encoding.
#[verifier::external_body]
fn base64_standard(bytes: &[u8]) -> (r: String)
    ensures
        r@ == base64_text(bytes@),
{
    base64::Engine::encode(&base64::engine::general_purpose::STANDARD, bytes)
}

/// A data URL that plays a WAV file from its bytes.
pub fn audio_data_url(bytes: &[u8]) -> (r: String)
    ensures
        r@ == "data:audio/wav;base64,"@ + base64_text(bytes@),
{
    let mut r = owned("data:audio/wav;base64,");
    let encoded = base64_standard(bytes);
    push_text(&mut r, encoded.as_str());
    r
}

} // verus!
