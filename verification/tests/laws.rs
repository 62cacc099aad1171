//! Concrete cases of the properties that the library proves in general.
use voxtype::postprocess::clean_llm_output;
use voxtype::prompt::{build_system_prompt, AppType, BASE_PROMPT};
use voxtype::llm::{truncate_error_body, SseBuffer, StreamAccumulator};
use voxtype::sensevoice::CHUNK_SIZE;
use voxtype::vad::{VadLimits, VadOutput, VadProcessor};
use voxtype::output::{KeyboardOutput, TypingPlan};
use voxtype::stt::{
    append_audio, build_wav, react_to_ws, strip_think_tags, ws_text_inbound, WsInbound,
    MAX_AUDIO_BYTES,
};

#[test]
fn every_prompt_begins_with_the_base() {
    for app in [AppType::Email, AppType::Chat, AppType::Code, AppType::General, AppType::Document] {
        let p = build_system_prompt(app, &["x".to_string()], true, "fr", true);
        assert!(p.starts_with(BASE_PROMPT));
    }
}

#[test]
fn every_dictionary_word_is_listed() {
    let dict = vec!["Tauri".to_string(), "SenseVoice".to_string(), "".to_string()];
    let p = build_system_prompt(AppType::Code, &dict, false, "", false);
    for w in &dict {
        assert!(p.contains(&format!("\n- \"{}\"", w)));
    }
}

#[test]
fn no_translation_instruction_unless_asked() {
    let with_off = build_system_prompt(AppType::Email, &[], false, "de", true);
    let blank = build_system_prompt(AppType::Email, &[], true, " \t ", true);
    assert_eq!(with_off, blank);
    assert!(!with_off.contains("translate the"));
}

#[test]
fn translation_instruction_closes_the_prompt() {
    let p = build_system_prompt(AppType::Document, &[], true, "  ko  ", false);
    assert!(p.ends_with("Korean (한국어). Output ONLY the translated text."));
}

#[test]
fn clean_text_comes_back_unchanged() {
    for t in ["今天开会。", "a\nb\n\nc", "1. 一\n2. 二"] {
        assert_eq!(clean_llm_output(t), t);
    }
    assert_eq!(clean_llm_output("  padded  "), "padded");
    for t in ["\n x \n", "[INPUT_TEXT]a[/INPUT_TEXT]b", "Output: y"] {
        let r = clean_llm_output(t);
        assert_eq!(r.trim(), r);
    }
}

#[test]
fn text_without_think_tags_is_kept() {
    for t in ["", "hello", "think </think> 思考"] {
        assert_eq!(strip_think_tags(t), t);
    }
}

#[test]
fn selection_comes_before_translation() {
    let p = build_system_prompt(AppType::Chat, &[], true, "ja", true);
    let sel = p.find("SELECTED TEXT MODE").unwrap();
    let tr = p.find("AFTER applying the user's instruction").unwrap();
    assert!(sel < tr);
}

#[test]
fn wav_keeps_the_samples_after_the_header() {
    let pcm: Vec<u8> = (0..=255u8).collect();
    let wav = build_wav(&pcm, 22050);
    assert_eq!(wav.len(), 44 + pcm.len());
    assert_eq!(&wav[44..], &pcm[..]);
}

#[test]
fn audio_buffer_never_passes_the_limit() {
    let mut buf = vec![1u8; MAX_AUDIO_BYTES - 10];
    let before = buf.clone();
    assert!(!append_audio(&mut buf, &[2u8; 11]));
    assert_eq!(buf, before);
    assert!(append_audio(&mut buf, &[2u8; 10]));
    assert_eq!(buf.len(), MAX_AUDIO_BYTES);
    assert_eq!(&buf[..before.len()], &before[..]);
}

#[test]
fn split_lines_lose_no_bytes() {
    let input = b"data: a\n\ndata: b\nrest";
    let mut buf = SseBuffer::new();
    buf.feed(input);
    let mut seen: Vec<u8> = Vec::new();
    while let Some(line) = buf.next_line() {
        assert_eq!(*line.last().unwrap(), b'\n');
        assert!(!line[..line.len() - 1].contains(&b'\n'));
        seen.extend(line);
    }
    assert_eq!(seen, b"data: a\n\ndata: b\n".to_vec());
    buf.feed(b"\n");
    assert_eq!(buf.next_line(), Some(b"rest\n".to_vec()));
}

#[test]
fn error_body_keeps_whole_characters() {
    let text = format!("{}{}", "a".repeat(199), "é中文");
    let shown = truncate_error_body(&text);
    assert!(text.starts_with(&shown));
    assert_eq!(shown, format!("{}{}", "a".repeat(199), "é"));
    assert!(shown.len() <= 203);
}

#[test]
fn typed_chunks_make_up_the_text() {
    let text = "abc".repeat(150);
    match KeyboardOutput::typing_plan(&text, false) {
        TypingPlan::Type(chunks) => {
            assert!(chunks.iter().all(|c| !c.is_empty() && c.chars().count() <= 200));
            assert_eq!(chunks.concat(), text);
        }
        TypingPlan::Paste => panic!("expected typing"),
    }
}

#[test]
fn no_prompt_line_begins_with_an_output_label() {
    let dict = vec!["Output:".to_string(), "输出：".to_string(), "A".to_string()];
    for app in [AppType::Email, AppType::Chat, AppType::Code, AppType::General, AppType::Document] {
        for sel in [false, true] {
            for lang in ["", "ja", "Output:x"] {
                let p = build_system_prompt(app, &dict, true, lang, sel);
                assert!(!p.contains("\nOutput:"));
                assert!(!p.contains("\n输出："));
            }
        }
    }
}

#[test]
fn stream_lines_stop_at_done_and_skip_others() {
    let mut acc = StreamAccumulator::new();
    assert_eq!(acc.on_line(b": ping\n".to_vec()), Some(None));
    assert_eq!(acc.on_line(vec![0xff, b'\n']), Some(None));
    assert_eq!(
        acc.on_line(b"data: {\"choices\":[{\"delta\":{\"content\":\"hi\"}}]}\n".to_vec()),
        Some(Some("hi".to_string()))
    );
    assert_eq!(acc.on_line(b"data: [DONE]\n".to_vec()), None);
    assert_eq!(acc.finish().polished, "hi");
}

#[test]
fn a_session_ends_with_one_answer() {
    let frames = [
        ws_text_inbound("{\"type\":\"intermediate\",\"text\":\"a\",\"stash\":\"b\"}"),
        ws_text_inbound("{\"type\":\"final\",\"transcript\":\"ab\"}"),
        ws_text_inbound("{\"type\":\"polished\",\"text\":\"AB.\"}"),
        WsInbound::Close,
    ];
    let mut answers = Vec::new();
    for f in frames {
        let r = react_to_ws(f);
        if let Some(a) = r.final_result {
            answers.push(a);
        }
        if r.stop {
            break;
        }
    }
    assert_eq!(answers, vec![Some("AB.".to_string())]);
}

#[test]
fn silence_is_reported_on_the_chunk_that_reaches_the_limit() {
    // 100 ms at 16 kHz: the fourth 32 ms chunk reaches it
    let mut vad = VadProcessor::new(VadLimits::from_millis(16000, 500, 9000, 200, 250, Some(100))).unwrap();
    let chunk = [0i16; CHUNK_SIZE];
    let mut reports = Vec::new();
    for _ in 0..10 {
        reports.push(matches!(vad.process_chunk(&chunk, false), Some(VadOutput::SilenceNotification)));
    }
    assert_eq!(reports, vec![false, false, false, true, false, false, false, false, false, false]);
}

#[test]
fn cleaning_forms_no_input_tag() {
    for t in [
        "[INPUT_TEXT]\nraw\n[/INPUT_TEXT]\n\nOutput: done",
        "a [INPUT_TEXT] b [/INPUT_TEXT]",
        "[/INPUT_TEXT] x [INPUT_TEXT]",
        "润色结果：[INPUT_TEXT]",
    ] {
        let r = clean_llm_output(t);
        assert!(!r.contains("[INPUT_TEXT]") && !r.contains("[/INPUT_TEXT]"), "{}", r);
    }
    // removing a lone tag can form one, and then it is kept
    assert_eq!(clean_llm_output("[INPUT_[/INPUT_TEXT]TEXT]"), "[INPUT_TEXT]");
}
