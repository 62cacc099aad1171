//! Buffering, WAV framing, the Qwen request and reply, and the cloud
//! WebSocket protocol.
use voxtype::stt::{
    append_audio, build_wav, check_cloud_chunk, cloud_audio_payload, cloud_session_token,
    cloud_ws_url, qwen_api_error, qwen_audio_data_url, qwen_reply_transcript, qwen_timeout_secs,
    qwen_transcript, react_to_ws, strip_think_tags, ws_text_inbound, LocalSenseVoiceProvider,
    QwenAsrSession, SttConfig, SttError, SttEvent, WsInbound, MAX_AUDIO_BYTES,
};

fn config(key: &str, rate: u32) -> SttConfig {
    SttConfig { api_key: key.to_string(), sample_rate: rate }
}

#[test]
fn wav_header_describes_16_bit_mono() {
    let wav = build_wav(&[1, 2], 16000);
    let mut expected: Vec<u8> = Vec::new();
    expected.extend_from_slice(b"RIFF");
    expected.extend_from_slice(&[38, 0, 0, 0]);
    expected.extend_from_slice(b"WAVEfmt ");
    expected.extend_from_slice(&[16, 0, 0, 0, 1, 0, 1, 0]);
    expected.extend_from_slice(&[0x80, 0x3e, 0, 0]);
    expected.extend_from_slice(&[0x00, 0x7d, 0, 0]);
    expected.extend_from_slice(&[2, 0, 16, 0]);
    expected.extend_from_slice(b"data");
    expected.extend_from_slice(&[2, 0, 0, 0, 1, 2]);
    assert_eq!(wav, expected);
    assert_eq!(build_wav(&[], 8000).len(), 44);
}

#[test]
fn audio_buffer_refuses_to_grow_past_the_limit() {
    let mut buf = vec![0u8; MAX_AUDIO_BYTES - 2];
    assert!(append_audio(&mut buf, &[1, 2]));
    assert_eq!(buf.len(), MAX_AUDIO_BYTES);
    assert!(!append_audio(&mut buf, &[3]));
    assert_eq!(buf.len(), MAX_AUDIO_BYTES);
    assert!(append_audio(&mut buf, &[]));
}

#[test]
fn local_provider_buffers_until_the_recording_ends() {
    let mut p = LocalSenseVoiceProvider::new();
    assert!(p.send_audio(&[1, 2]).is_ok());
    assert!(p.take_recording().is_none());
    p.connect(&config("", 8000));
    assert!(p.take_recording().is_none());
    assert!(p.send_audio(&[5, 6]).is_ok());
    assert!(p.send_audio(&[7, 8]).is_ok());
    let wav = p.take_recording().unwrap();
    assert_eq!(wav, build_wav(&[5, 6, 7, 8], 8000));
    assert!(p.take_recording().is_none());
    let big = vec![0u8; MAX_AUDIO_BYTES + 1];
    assert_eq!(p.send_audio(&big), Err(SttError::LocalAudioTooLong));
}

#[test]
fn qwen_session_needs_a_key() {
    let mut s = QwenAsrSession::new();
    assert_eq!(s.connect(&config("", 16000)), Err(SttError::QwenMissingKey));
    assert!(s.send_audio(&[1, 2]).is_ok());
    assert!(s.take_recording().is_none());
    assert!(s.connect(&config("sk-1", 16000)).is_ok());
    assert!(s.take_recording().is_none());
    assert!(s.send_audio(&[9, 9]).is_ok());
    let (c, wav) = s.take_recording().unwrap();
    assert_eq!(c.api_key, "sk-1");
    assert_eq!(c.sample_rate, 16000);
    assert_eq!(wav, build_wav(&[9, 9], 16000));
    let big = vec![0u8; MAX_AUDIO_BYTES + 1];
    assert_eq!(s.send_audio(&big), Err(SttError::QwenAudioTooLong));
    assert_eq!(SttError::QwenMissingKey.message(), "Qwen3-ASR-Flash API key is empty");
}

#[test]
fn audio_goes_out_as_base64() {
    assert_eq!(qwen_audio_data_url(b"Man"), "data:audio/wav;base64,TWFu");
    assert_eq!(qwen_audio_data_url(b"Ma"), "data:audio/wav;base64,TWE=");
    assert_eq!(qwen_audio_data_url(b"M"), "data:audio/wav;base64,TQ==");
    assert_eq!(qwen_audio_data_url(&[0xfb, 0xff]), "data:audio/wav;base64,+/8=");
    assert_eq!(cloud_audio_payload(&[]), None);
    assert_eq!(cloud_audio_payload(b"hello"), Some("aGVsbG8=".to_string()));
}

#[test]
fn think_blocks_are_removed() {
    assert_eq!(strip_think_tags("a<think>b</think>c"), "a>c");
    assert_eq!(strip_think_tags("<think>x</think><think>y</think>z"), ">>z");
    assert_eq!(strip_think_tags("a<think b"), "a b");
    assert_eq!(strip_think_tags("plain 你好"), "plain 你好");
    assert_eq!(strip_think_tags(""), "");
    assert_eq!(qwen_transcript("  你好  "), Some("你好".to_string()));
    assert_eq!(qwen_transcript("<think  </think"), None);
    assert_eq!(qwen_transcript("   "), None);
}

#[test]
fn qwen_reply_body_gives_the_transcript() {
    assert_eq!(
        qwen_reply_transcript("{\"choices\":[{\"message\":{\"content\":\" 今天天气很好 \"}}]}"),
        Ok(Some("今天天气很好".to_string()))
    );
    assert_eq!(qwen_reply_transcript("{\"choices\":[{\"message\":{\"content\":\"\"}}]}"), Ok(None));
    assert_eq!(qwen_reply_transcript("{}"), Ok(None));
    assert!(qwen_reply_transcript("not json").is_err());
    assert_eq!(qwen_api_error("401 Unauthorized", "bad key"), "Qwen3-ASR-Flash error (401 Unauthorized): bad key");
}

#[test]
fn qwen_timeout_is_three_times_the_audio_and_at_least_180s() {
    assert_eq!(qwen_timeout_secs(32000 * 60, 16000), 180);
    assert_eq!(qwen_timeout_secs(32000 * 100, 16000), 300);
    assert_eq!(qwen_timeout_secs(32000 * 100 + 31999, 16000), 302);
    assert_eq!(qwen_timeout_secs(10, 0), u64::MAX);
}

#[test]
fn cloud_url_drops_the_http_scheme() {
    assert_eq!(cloud_ws_url("https://api.voxtype.net", "tok"), "wss://api.voxtype.net/ws/stt?token=tok");
    assert_eq!(cloud_ws_url("http://localhost:3000", "t"), "wss://localhost:3000/ws/stt?token=t");
    assert_eq!(cloud_ws_url("http://https://x", "t"), "wss://x/ws/stt?token=t");
    assert_eq!(cloud_ws_url("api.example", ""), "wss://api.example/ws/stt?token=");
}

#[test]
fn cloud_checks_token_and_chunk_size() {
    assert_eq!(cloud_session_token(&config("", 16000)), Err(SttError::CloudMissingToken));
    assert_eq!(cloud_session_token(&config("jwt", 16000)), Ok("jwt".to_string()));
    assert_eq!(check_cloud_chunk(&[1, 2, 3]), Ok(()));
    let big = vec![0u8; MAX_AUDIO_BYTES + 1];
    assert_eq!(check_cloud_chunk(&big), Err(SttError::CloudChunkTooLarge));
}

#[test]
fn cloud_messages_become_events() {
    let r = react_to_ws(ws_text_inbound("{\"type\":\"intermediate\",\"text\":\"你好\",\"stash\":\"世\"}"));
    assert!(matches!(r.event, Some(SttEvent::Partial { ref text }) if text == "你好世"));
    assert!(r.final_result.is_none());
    assert!(!r.stop);

    let r = react_to_ws(ws_text_inbound("{\"type\":\"final\",\"transcript\":\"done\",\"durationSec\":3}"));
    assert!(matches!(r.event, Some(SttEvent::Final { ref text }) if text == "done"));
    assert!(!r.stop);

    let r = react_to_ws(ws_text_inbound("{\"type\":\"polished\",\"text\":\"Polished.\"}"));
    assert!(r.event.is_none());
    assert_eq!(r.final_result, Some(Some("Polished.".to_string())));
    assert!(r.stop);

    let r = react_to_ws(ws_text_inbound("{\"type\":\"error\"}"));
    assert!(matches!(r.event, Some(SttEvent::Error { ref message }) if message == "Unknown error"));
    assert_eq!(r.final_result, Some(None));
    assert!(r.stop);

    let r = react_to_ws(ws_text_inbound("{\"type\":\"intermediate\"}"));
    assert!(matches!(r.event, Some(SttEvent::Partial { ref text }) if text.is_empty()));

    let r = react_to_ws(ws_text_inbound("{\"type\":\"pong\"}"));
    assert!(r.event.is_none() && r.final_result.is_none() && !r.stop);

    let r = react_to_ws(ws_text_inbound("garbage"));
    assert!(r.event.is_none() && r.final_result.is_none() && !r.stop);

    let r = react_to_ws(WsInbound::Close);
    assert!(r.event.is_none());
    assert_eq!(r.final_result, Some(None));
    assert!(r.stop);

    let r = react_to_ws(WsInbound::ReadError("reset".to_string()));
    assert!(matches!(r.event, Some(SttEvent::Error { ref message }) if message == "WebSocket error: reset"));
    assert!(r.stop);

    let r = react_to_ws(WsInbound::Ping);
    assert!(r.event.is_none() && r.final_result.is_none() && !r.stop);
}
