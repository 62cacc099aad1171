//! Tag parsing, decoding and segment handling of the recognizer.
use voxtype::sensevoice::{
    check_model_extension, check_wav_input, ctc_collapse, output_layout, recognize_line, pad_to_chunks, parse_line, transcript_of, OutputLayout,
    OutputShapeError, SenseVoiceEmo, SenseVoiceEvent, SenseVoiceLanguage,
    SenseVoicePunctuationNormalization, SenseVoiceSmallError, VoiceText, CHUNK_SIZE,
};

#[test]
fn parse_line_reads_all_tags() {
    let t = parse_line("<|zh|><|NEUTRAL|><|Speech|><|woitn|>你好世界").unwrap();
    assert_eq!(t.language, SenseVoiceLanguage::Zh);
    assert_eq!(t.emotion, SenseVoiceEmo::Neutral);
    assert_eq!(t.event, SenseVoiceEvent::Speech);
    assert_eq!(t.punctuation_normalization, SenseVoicePunctuationNormalization::Woitn);
    assert_eq!(t.content, "你好世界");
}

#[test]
fn parse_line_ignores_letter_case_of_tags() {
    let t = parse_line("<|EN|><|happy|><|bgm|><|WITH|>Hello.").unwrap();
    assert_eq!(t.language, SenseVoiceLanguage::En);
    assert_eq!(t.emotion, SenseVoiceEmo::Happy);
    assert_eq!(t.event, SenseVoiceEvent::Bgm);
    assert_eq!(t.punctuation_normalization, SenseVoicePunctuationNormalization::With);
    assert_eq!(t.content, "Hello.");
}

#[test]
fn parse_line_keeps_tag_like_text_in_content() {
    let t = parse_line("<|ja|><|SAD|><|Cry|><|with|>a|>b<|c").unwrap();
    assert_eq!(t.content, "a|>b<|c");
}

#[test]
fn parse_line_rejects_unknown_tags_and_bad_shapes() {
    assert!(parse_line("<|xx|><|NEUTRAL|><|Speech|><|woitn|>text").is_none());
    assert!(parse_line("<|zh|><|CALM|><|Speech|><|woitn|>text").is_none());
    assert!(parse_line("<|zh|><|NEUTRAL|><|Speech|>text").is_none());
    assert!(parse_line("zh NEUTRAL Speech woitn text").is_none());
    assert!(parse_line("<|zh|><|NEUTRAL|><|Speech|><|woitn|>two\nlines").is_none());
    assert!(parse_line("").is_none());
}

#[test]
fn tag_readers_know_every_tag() {
    assert_eq!(SenseVoiceLanguage::from_str("yue"), Some(SenseVoiceLanguage::Yue));
    assert_eq!(SenseVoiceLanguage::from_str("NoSpeech"), Some(SenseVoiceLanguage::NoSpeech));
    assert_eq!(SenseVoiceLanguage::from_str("fr"), None);
    assert_eq!(SenseVoiceEmo::from_str("emo_unknown"), Some(SenseVoiceEmo::Unknown));
    assert_eq!(SenseVoiceEmo::from_str("Surprised"), Some(SenseVoiceEmo::Surprised));
    assert_eq!(SenseVoiceEvent::from_str("event_unk"), Some(SenseVoiceEvent::Unknown));
    assert_eq!(SenseVoiceEvent::from_str("Cough"), Some(SenseVoiceEvent::Cough));
    assert_eq!(SenseVoiceEvent::from_str("music"), None);
    assert_eq!(
        SenseVoicePunctuationNormalization::from_str("WOITN"),
        Some(SenseVoicePunctuationNormalization::Woitn)
    );
    assert_eq!(SenseVoicePunctuationNormalization::from_str("without"), None);
}

#[test]
fn ctc_collapse_drops_blanks_and_repeats() {
    assert_eq!(ctc_collapse(&[0, 1, 1, 0, 2, 2, 3]), vec![1, 2, 3]);
    assert_eq!(ctc_collapse(&[1, 0, 1]), vec![1, 1]);
    assert_eq!(ctc_collapse(&[0, 0, 0]), Vec::<u32>::new());
    assert_eq!(ctc_collapse(&[]), Vec::<u32>::new());
    assert_eq!(ctc_collapse(&[5, 5, 5, 7]), vec![5, 7]);
}

#[test]
fn output_layout_finds_the_vocabulary_dimension() {
    assert_eq!(output_layout(&[1, 5, 3], 15, 5), Ok(OutputLayout::VocabThenFrames { frames: 3 }));
    assert_eq!(output_layout(&[1, 3, 5], 15, 5), Ok(OutputLayout::FramesThenVocab { frames: 3 }));
    assert_eq!(output_layout(&[2, 3, 5], 30, 5), Err(OutputShapeError::BatchNotOne));
    assert_eq!(output_layout(&[1, 3, 5], 14, 5), Err(OutputShapeError::ShapeMismatch));
    assert_eq!(output_layout(&[1, 3, 4], 12, 5), Err(OutputShapeError::NoVocabDimension));
}

#[test]
fn pad_to_chunks_fills_with_silence() {
    let padded = pad_to_chunks(&[1, 2, 3]);
    assert_eq!(padded.len(), CHUNK_SIZE);
    assert_eq!(&padded[..3], &[1, 2, 3]);
    assert!(padded[3..].iter().all(|&s| s == 0));
    let exact = vec![7i16; 1024];
    assert_eq!(pad_to_chunks(&exact), exact);
    assert!(pad_to_chunks(&[]).is_empty());
}

fn segment(content: &str) -> VoiceText {
    VoiceText {
        language: SenseVoiceLanguage::Zh,
        emotion: SenseVoiceEmo::Neutral,
        event: SenseVoiceEvent::Speech,
        punctuation_normalization: SenseVoicePunctuationNormalization::Woitn,
        content: content.to_string(),
    }
}

#[test]
fn transcript_joins_segment_texts() {
    assert_eq!(transcript_of(&[segment("你好"), segment(""), segment("世界")]), Some("你好世界".to_string()));
    assert_eq!(transcript_of(&[segment(""), VoiceText::no_speech()]), None);
    assert_eq!(transcript_of(&[]), None);
}

#[test]
fn recognizer_error_describes_itself() {
    let e = SenseVoiceSmallError::new("model missing");
    assert_eq!(e.message(), "model missing");
    assert_eq!(e.describe(), "SenseVoiceSmallError: model missing");
}

#[test]
fn wav_input_is_checked_in_order() {
    assert!(check_wav_input(16000, true, 10).is_ok());
    assert!(check_wav_input(8000, true, 1).is_ok());
    assert_eq!(
        check_wav_input(44100, false, 0).unwrap_err().message(),
        "Unsupported sample rate. Expect 8 kHz or 16 kHz."
    );
    assert_eq!(
        check_wav_input(16000, false, 0).unwrap_err().message(),
        "Unsupported sample format. Expect Int."
    );
    assert_eq!(
        check_wav_input(16000, true, 0).unwrap_err().message(),
        "content is empty, check your audio file"
    );
}

#[test]
fn model_must_be_a_pt_file() {
    assert!(check_model_extension(Some("pt")).is_ok());
    assert!(check_model_extension(Some("PT")).is_ok());
    assert!(check_model_extension(Some("Pt")).is_ok());
    for ext in [Some("onnx"), Some("ptt"), Some("p"), None] {
        assert_eq!(
            check_model_extension(ext).unwrap_err().message(),
            "Candle ASR now only supports official .pt model paths."
        );
    }
}

#[test]
fn recognized_text_must_parse() {
    let t = recognize_line("<|ko|><|ANGRY|><|Laughter|><|with|>네").unwrap();
    assert_eq!(t.language, SenseVoiceLanguage::Ko);
    assert_eq!(t.content, "네");
    assert_eq!(
        recognize_line("garbage").unwrap_err().message(),
        "Parse line failed, text is:garbage"
    );
}
