use sparkspeech::doubao::{
    audio_frame, audio_upload_plan, build_audio_message_from_pcm, decode_server_frame,
    init_frame, next_latest_text, pcm_le_bytes,
};
use sparkspeech::protocol::{
    audio_data_url, build_frame, parse_error_frame, read_server_payload,
    CompressionFlag, MessageKind, Serialization,
};

#[test]
fn builds_frames_with_header_size_and_payload() {
    let frame = build_frame(
        MessageKind::AudioOnlyRequest,
        true,
        Serialization::Raw,
        CompressionFlag::Gzip,
        &[7, 8, 9],
    );
    assert_eq!(frame, vec![0x11, 0x22, 0x01, 0x00, 0, 0, 0, 3, 7, 8, 9]);
    let frame = build_frame(
        MessageKind::FullClientRequest,
        false,
        Serialization::Json,
        CompressionFlag::Gzip,
        &[],
    );
    assert_eq!(frame, vec![0x11, 0x10, 0x11, 0x00, 0, 0, 0, 0]);
}

#[test]
fn frame_reads_back() {
    let frame = build_frame(
        MessageKind::AudioOnlyRequest,
        true,
        Serialization::Raw,
        CompressionFlag::Gzip,
        b"hello",
    );
    let payload = read_server_payload(&frame).unwrap();
    assert_eq!(payload.payload, b"hello");
    assert!(payload.gzip);
    assert!(payload.is_last);
}

#[test]
fn server_frame_with_sequence_number() {
    // full server response, flags 0b0011 (sequence, last), json, no compression
    let mut data = vec![0x11, 0x93, 0x10, 0x00, 0, 0, 0, 5];
    data.extend_from_slice(&[0, 0, 0, 2]);
    data.extend_from_slice(b"{}");
    let decoded = decode_server_frame(&data).unwrap();
    assert_eq!(decoded.json, b"{}");
    assert!(decoded.is_last);
}

#[test]
fn short_and_truncated_frames_are_errors() {
    assert_eq!(read_server_payload(&[1, 2, 3]).err().unwrap(), "豆包返回帧过短");
    let data = vec![0x11, 0x91, 0x10, 0x00, 0, 0, 0, 1];
    assert_eq!(read_server_payload(&data).err().unwrap(), "豆包返回帧缺少 payload");
    let data = vec![0x11, 0x90, 0x10, 0x00, 0, 0, 0, 9, 1];
    assert_eq!(
        read_server_payload(&data).err().unwrap(),
        "豆包返回帧 payload 不完整：frame_len=9, header_size=4, flags=0, has_sequence=false, payload_size=9, payload_start=8"
    );
}

#[test]
fn error_frames_carry_code_and_message() {
    let mut data = vec![0x11, 0xF0, 0x10, 0x00];
    data.extend_from_slice(&45000081u32.to_be_bytes());
    let message = "超时".as_bytes();
    data.extend_from_slice(&(message.len() as u32).to_be_bytes());
    data.extend_from_slice(message);
    assert_eq!(read_server_payload(&data).err().unwrap(), "豆包返回错误：45000081 超时");
    assert_eq!(parse_error_frame(&[0x11, 0xF0, 0, 0, 0, 0, 0, 1], 4), "豆包返回错误，但错误帧不完整");
    let mut bad = vec![0x11, 0xF0, 0x10, 0x00, 0, 0, 0, 7, 0, 0, 0, 2, 0xff, 0xfe];
    assert_eq!(parse_error_frame(&bad, 4), "豆包返回错误：7 ");
    bad.truncate(13);
    assert_eq!(parse_error_frame(&bad, 4), "豆包返回错误：7 ");
}

#[test]
fn gzip_round_trip_through_frames() {
    let json = br#"{"result":{"text":"ok"}}"#.to_vec();
    let frame = init_frame(json.clone()).unwrap();
    let payload = read_server_payload(&frame).unwrap();
    assert!(payload.gzip);
    assert_ne!(payload.payload, json);
    assert_eq!(&payload.payload[..2], &[0x1f, 0x8b]);
    let decoded = decode_server_frame(&frame).unwrap();
    assert_eq!(decoded.json, json);
    assert!(!decoded.is_last);
}

#[test]
fn corrupt_gzip_payload_is_an_error() {
    let mut frame = vec![0x11, 0x90, 0x11, 0x00, 0, 0, 0, 3];
    frame.extend_from_slice(&[1, 2, 3]);
    assert!(decode_server_frame(&frame).is_err());
}

#[test]
fn samples_are_little_endian() {
    assert_eq!(pcm_le_bytes(&[1, -2, 0x1234]), vec![1, 0, 0xfe, 0xff, 0x34, 0x12]);
}

#[test]
fn audio_frames_carry_compressed_samples() {
    let frame = build_audio_message_from_pcm(&[1, 2, 3], true).unwrap();
    assert_eq!(&frame[..4], &[0x11, 0x22, 0x01, 0x00]);
    let payload = read_server_payload(&frame).unwrap();
    assert_eq!(decode_server_frame(&frame).unwrap().json, vec![1, 0, 2, 0, 3, 0]);
    assert!(payload.is_last);
    let same = audio_frame(vec![1, 0, 2, 0, 3, 0], true).unwrap();
    assert_eq!(same, frame);
    let init = init_frame(b"{}".to_vec()).unwrap();
    assert_eq!(&init[..4], &[0x11, 0x10, 0x11, 0x00]);
}

#[test]
fn upload_plan_marks_only_the_last_chunk() {
    assert_eq!(audio_upload_plan(&[]).err().unwrap(), "录音文件为空");
    let pcm = vec![5i16; 7000];
    let plan = audio_upload_plan(&pcm).unwrap();
    assert_eq!(plan.len(), 3);
    assert_eq!(plan[0].bytes.len(), 6400);
    assert_eq!(plan[2].bytes.len(), 14000 - 12800);
    assert_eq!(plan.iter().map(|s| s.is_last).collect::<Vec<_>>(), vec![false, false, true]);
    assert_eq!(plan[0].progress_ms, 200);
    assert_eq!(plan[2].progress_ms, 437);
    assert_eq!(plan[2].total_ms, 437);
}

#[test]
fn latest_text_ignores_blank_responses() {
    assert_eq!(next_latest_text("旧".into(), Some("  ".into())), "旧");
    assert_eq!(next_latest_text("旧".into(), None), "旧");
    assert_eq!(next_latest_text("旧".into(), Some("新".into())), "新");
}

#[test]
fn audio_data_url_is_base64() {
    assert_eq!(audio_data_url(b"RIFF"), "data:audio/wav;base64,UklGRg==");
}

#[test]
fn audio_data_url_pads_partial_groups() {
    assert_eq!(audio_data_url(b""), "data:audio/wav;base64,");
    assert_eq!(audio_data_url(b"M"), "data:audio/wav;base64,TQ==");
    assert_eq!(audio_data_url(b"Ma"), "data:audio/wav;base64,TWE=");
    assert_eq!(audio_data_url(b"Man"), "data:audio/wav;base64,TWFu");
    assert_eq!(audio_data_url(&[0xfb, 0xff, 0xbf]), "data:audio/wav;base64,+/+/");
}
