//! How polished text reaches the focused application.
use voxtype::output::{ClipboardOutput, KeyboardOutput, OutputMode, TypingPlan, TYPE_CHUNK_SIZE};

#[test]
fn outputs_report_their_mode() {
    assert_eq!(ClipboardOutput::new().mode(), OutputMode::Clipboard);
    assert_eq!(KeyboardOutput::new().mode(), OutputMode::Keyboard);
    assert_eq!(ClipboardOutput::default().mode(), OutputMode::Clipboard);
    assert_eq!(KeyboardOutput::default().mode(), OutputMode::Keyboard);
}

#[test]
fn multiline_text_is_pasted() {
    assert!(matches!(KeyboardOutput::typing_plan("line one\nline two", false), TypingPlan::Paste));
    assert!(matches!(KeyboardOutput::typing_plan("one line", true), TypingPlan::Paste));
}

#[test]
fn single_line_is_typed_in_chunks() {
    let text: String = "字".repeat(450);
    match KeyboardOutput::typing_plan(&text, false) {
        TypingPlan::Type(chunks) => {
            assert_eq!(chunks.len(), 3);
            assert_eq!(chunks[0].chars().count(), TYPE_CHUNK_SIZE);
            assert_eq!(chunks[1].chars().count(), TYPE_CHUNK_SIZE);
            assert_eq!(chunks[2].chars().count(), 50);
            assert_eq!(chunks.concat(), text);
        }
        TypingPlan::Paste => panic!("expected typing"),
    }
    match KeyboardOutput::typing_plan("", false) {
        TypingPlan::Type(chunks) => assert!(chunks.is_empty()),
        TypingPlan::Paste => panic!("expected typing"),
    }
    match KeyboardOutput::typing_plan("hi", false) {
        TypingPlan::Type(chunks) => assert_eq!(chunks, vec!["hi".to_string()]),
        TypingPlan::Paste => panic!("expected typing"),
    }
}
