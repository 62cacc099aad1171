//! The chat-completion client's decisions: request messages, streamed
//! replies, reasoning fallback and error texts.
use voxtype::llm::{
    classify_sse_line, decode_sse_line, extract_from_reasoning, has_selected_text,
    is_thinking_model, llm_api_error, polish_messages, polish_reply_body, polish_reply_content,
    selected_text_message, truncate_error_body, wrap_input, SseBuffer, SseLine, StreamAccumulator,
};
use voxtype::prompt::{build_system_prompt, AppType};

#[test]
fn selected_text_must_be_more_than_white_space() {
    assert!(has_selected_text(Some("some text")));
    assert!(!has_selected_text(Some("  \n\t ")));
    assert!(!has_selected_text(Some("")));
    assert!(!has_selected_text(None));
}

#[test]
fn input_and_selection_are_framed() {
    assert_eq!(wrap_input("你好"), "[INPUT_TEXT]\n你好\n[/INPUT_TEXT]");
    assert_eq!(selected_text_message("abc"), "[Selected Text]\nabc");
}

#[test]
fn polish_messages_hold_prompt_selection_and_input() {
    let dict = vec!["VoxType".to_string()];
    let msgs = polish_messages(AppType::Chat, &dict, true, "en", Some("old text"), "raw words");
    assert_eq!(msgs.len(), 3);
    assert_eq!(msgs[0].role, "system");
    assert_eq!(msgs[0].content, build_system_prompt(AppType::Chat, &dict, true, "en", true));
    assert_eq!(msgs[1].role, "user");
    assert_eq!(msgs[1].content, "[Selected Text]\nold text");
    assert_eq!(msgs[2].role, "user");
    assert_eq!(msgs[2].content, "[INPUT_TEXT]\nraw words\n[/INPUT_TEXT]");

    let plain = polish_messages(AppType::General, &[], false, "", Some("   "), "hi");
    assert_eq!(plain.len(), 2);
    assert_eq!(plain[0].content, build_system_prompt(AppType::General, &[], false, "", false));
    assert_eq!(plain[1].content, "[INPUT_TEXT]\nhi\n[/INPUT_TEXT]");
}

#[test]
fn thinking_models_are_glm() {
    assert!(is_thinking_model("glm-4.7"));
    assert!(!is_thinking_model("gpt-4o"));
    assert!(!is_thinking_model("GLM-4"));
}

#[test]
fn error_body_is_cut_at_a_character_boundary() {
    let ascii = "a".repeat(300);
    assert_eq!(truncate_error_body(&ascii), "a".repeat(200));
    let wide = "中".repeat(100);
    // characters start at byte 0, 3, ..., 198: 67 of them
    assert_eq!(truncate_error_body(&wide), "中".repeat(67));
    assert_eq!(truncate_error_body("short"), "short");
    assert_eq!(
        llm_api_error("400 Bad Request", "oops"),
        "LLM API error 400 Bad Request: oops"
    );
}

#[test]
fn reasoning_yields_its_last_paragraph() {
    assert_eq!(
        extract_from_reasoning("我在想怎么整理。\n\n今天开会。"),
        Some("今天开会。".to_string())
    );
    assert_eq!(extract_from_reasoning("first\n\n  \n\n  answer  \n\n"), Some("answer".to_string()));
    assert_eq!(extract_from_reasoning("结论\n\n让我再检查一下"), None);
    assert_eq!(extract_from_reasoning("I need to clean this"), None);
    assert_eq!(extract_from_reasoning("Step 1: read"), None);
    assert_eq!(extract_from_reasoning(""), None);
    assert_eq!(extract_from_reasoning("\n\n\n\n"), None);
    assert_eq!(extract_from_reasoning(&"x".repeat(5001)), None);
    assert_eq!(extract_from_reasoning(&"x".repeat(5000)), Some("x".repeat(5000)));
}

#[test]
fn sse_buffer_hands_out_whole_lines() {
    let mut buf = SseBuffer::new();
    buf.feed(b"data: one\nda");
    assert_eq!(buf.next_line(), Some(b"data: one\n".to_vec()));
    assert_eq!(buf.next_line(), None);
    buf.feed(b"ta: two\n\n");
    assert_eq!(buf.next_line(), Some(b"data: two\n".to_vec()));
    assert_eq!(buf.next_line(), Some(b"\n".to_vec()));
    assert_eq!(buf.next_line(), None);
}

#[test]
fn sse_buffer_reassembles_split_characters() {
    let bytes = "data: 你好\n".as_bytes();
    let mut buf = SseBuffer::new();
    buf.feed(&bytes[..7]);
    assert_eq!(buf.next_line(), None);
    buf.feed(&bytes[7..]);
    let line = buf.next_line().unwrap();
    match decode_sse_line(line) {
        Some(SseLine::Data(d)) => assert_eq!(d, "你好"),
        other => panic!("unexpected {:?}", other),
    }
    assert!(decode_sse_line(vec![0xff, b'\n']).is_none());
}

#[test]
fn sse_lines_are_classified() {
    assert!(matches!(classify_sse_line("data: [DONE]\n"), SseLine::Done));
    match classify_sse_line("  data: {\"a\":1}  \n") {
        SseLine::Data(d) => assert_eq!(d, "{\"a\":1}"),
        other => panic!("unexpected {:?}", other),
    }
    assert!(matches!(classify_sse_line(": keep-alive"), SseLine::Other));
    assert!(matches!(classify_sse_line("event: message"), SseLine::Other));
    assert!(matches!(classify_sse_line(""), SseLine::Other));
}

#[test]
fn stream_accumulates_and_cleans_content() {
    let mut acc = StreamAccumulator::new();
    assert_eq!(
        acc.on_data("{\"choices\":[{\"delta\":{\"content\":\"Output: 今天\"}}]}"),
        Some("Output: 今天".to_string())
    );
    assert_eq!(acc.on_data("{\"choices\":[{\"delta\":{\"content\":\"\"}}]}"), None);
    assert_eq!(acc.on_data("not json"), None);
    assert_eq!(acc.on_data("{\"choices\":[{\"delta\":{\"content\":\"开会\"}}]}"), Some("开会".to_string()));
    let out = acc.finish();
    assert!(out.announced.is_none());
    assert_eq!(out.polished, "今天开会");
}

#[test]
fn stream_falls_back_to_reasoning() {
    let mut acc = StreamAccumulator::new();
    assert_eq!(
        acc.on_data("{\"choices\":[{\"delta\":{\"reasoning_content\":\"想一想\\n\\n\"}}]}"),
        None
    );
    assert_eq!(acc.on_delta(None, Some("最终答案")), None);
    let out = acc.finish();
    assert_eq!(out.announced, Some("最终答案".to_string()));
    assert_eq!(out.polished, "最终答案");

    let mut acc = StreamAccumulator::new();
    acc.on_delta(None, Some("让我想想"));
    let out = acc.finish();
    assert!(out.announced.is_none());
    assert_eq!(out.polished, "");
}

#[test]
fn whole_reply_is_cleaned() {
    assert_eq!(
        polish_reply_body("{\"choices\":[{\"message\":{\"content\":\"Output: text\"}}]}"),
        Ok("text".to_string())
    );
    assert_eq!(polish_reply_body("{\"choices\":[]}"), Ok(String::new()));
    assert!(polish_reply_body("<html>").is_err());
    assert_eq!(polish_reply_content(Some("  润色结果：好的  ")), "好的");
    assert_eq!(polish_reply_content(None), "");
}
