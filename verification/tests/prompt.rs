//! The system prompt.
use voxtype::prompt::{build_system_prompt, AppType};

#[test]
fn test_build_prompt_without_translation() {
    let prompt = build_system_prompt(AppType::General, &[], false, "", false);
    assert!(prompt.contains("静默的文本处理引擎"));
    assert!(!prompt.contains("AFTER cleaning"));
}

#[test]
fn test_build_prompt_with_translation_disabled() {
    let prompt = build_system_prompt(AppType::General, &[], false, "ja", false);
    assert!(!prompt.contains("translate the entire result into Japanese"));
    assert!(!prompt.contains("AFTER cleaning"));
}

#[test]
fn test_build_prompt_with_translation_enabled() {
    let prompt = build_system_prompt(AppType::General, &[], true, "ja", false);
    assert!(prompt.contains("translate the entire result into Japanese"));
}

#[test]
fn test_build_prompt_with_empty_target_lang() {
    let prompt = build_system_prompt(AppType::General, &[], true, "", false);
    assert!(!prompt.contains("AFTER cleaning"));
}

#[test]
fn test_build_prompt_with_whitespace_target_lang() {
    let prompt = build_system_prompt(AppType::General, &[], true, "   ", false);
    assert!(!prompt.contains("AFTER cleaning"));
}

#[test]
fn test_build_prompt_all_languages() {
    let cases = vec![
        ("en", "English"),
        ("zh", "Chinese"),
        ("ja", "Japanese"),
        ("ko", "Korean"),
        ("fr", "French"),
        ("de", "German"),
        ("es", "Spanish"),
        ("pt", "Portuguese"),
        ("ru", "Russian"),
        ("ar", "Arabic"),
        ("hi", "Hindi"),
        ("th", "Thai"),
        ("vi", "Vietnamese"),
        ("it", "Italian"),
        ("nl", "Dutch"),
        ("tr", "Turkish"),
        ("pl", "Polish"),
        ("uk", "Ukrainian"),
        ("id", "Indonesian"),
        ("ms", "Malay"),
    ];
    for (code, name) in cases {
        let prompt = build_system_prompt(AppType::General, &[], true, code, false);
        assert!(
            prompt.contains(name),
            "Expected prompt to contain '{}' for lang code '{}'",
            name,
            code
        );
    }
}

#[test]
fn test_build_prompt_unknown_language_passthrough() {
    let prompt = build_system_prompt(AppType::General, &[], true, "sv", false);
    assert!(prompt.contains("translate the entire result into sv"));
}

#[test]
fn test_build_prompt_with_app_type_email() {
    let prompt = build_system_prompt(AppType::Email, &[], false, "", false);
    // EMAIL_ADDON uses "formal register"
    assert!(prompt.contains("formal register"));
}

#[test]
fn test_build_prompt_with_dictionary() {
    let dict = vec!["VoxType".to_string(), "Tauri".to_string()];
    let prompt = build_system_prompt(AppType::General, &dict, false, "", false);
    assert!(prompt.contains("\"VoxType\""));
    assert!(prompt.contains("\"Tauri\""));
}

#[test]
fn test_build_prompt_with_dictionary_and_translation() {
    let dict = vec!["API".to_string()];
    let prompt = build_system_prompt(AppType::Chat, &dict, true, "zh", false);
    assert!(prompt.contains("conversational"));
    assert!(prompt.contains("\"API\""));
    assert!(prompt.contains("translate the entire result into Chinese"));
}

#[test]
fn test_prompt_has_list_rule() {
    let prompt = build_system_prompt(AppType::General, &[], false, "", false);
    assert!(prompt.contains("列表转化"));
    assert!(prompt.contains("编号列表"));
}

#[test]
fn test_prompt_has_paragraph_rule() {
    let prompt = build_system_prompt(AppType::General, &[], false, "", false);
    assert!(prompt.contains("话题切换时"));
}

#[test]
fn test_prompt_has_examples() {
    let prompt = build_system_prompt(AppType::General, &[], false, "", false);
    assert!(prompt.contains("方案调整及预算跟进"));
    assert!(prompt.contains("代码重构"));
    assert!(prompt.contains("项目进展顺利"));
    assert!(prompt.contains("明天下午三点开会"));
    assert!(prompt.contains("产品评审会"));
}

#[test]
fn test_prompt_examples_no_output_prefix() {
    // KEY TEST: ensure the prompt does NOT teach LLM to write "Output:" or "输出："
    let prompt = build_system_prompt(AppType::General, &[], false, "", false);
    assert!(
        !prompt.contains("\n输出："),
        "Prompt must not contain '输出：' line prefix in examples — it teaches the LLM to echo it"
    );
    assert!(
        !prompt.contains("\nOutput:"),
        "Prompt must not contain 'Output:' line prefix — it teaches the LLM to echo it"
    );
}

#[test]
fn test_prompt_selected_text_mode() {
    let prompt = build_system_prompt(AppType::General, &[], false, "", true);
    assert!(prompt.contains("SELECTED TEXT MODE"));
    assert!(prompt.contains("fix typos"));
}

#[test]
fn test_prompt_no_selected_text_mode() {
    let prompt = build_system_prompt(AppType::General, &[], false, "", false);
    assert!(!prompt.contains("SELECTED TEXT MODE"));
}

#[test]
fn test_prompt_chat_no_markdown() {
    let prompt = build_system_prompt(AppType::Chat, &[], false, "", false);
    assert!(prompt.contains("no over-formatting"));
    assert!(prompt.contains("no Markdown"));
}

#[test]
fn test_prompt_document_uses_markdown() {
    let prompt = build_system_prompt(AppType::Document, &[], false, "", false);
    assert!(prompt.contains("Markdown"));
}

#[test]
fn test_prompt_selected_text_with_translation() {
    let prompt = build_system_prompt(AppType::General, &[], true, "en", true);
    assert!(prompt.contains("SELECTED TEXT MODE"));
    assert!(prompt.contains("applying the user's instruction to the selected text"));
    assert!(prompt.contains("English"));
    // Selected text addon should come BEFORE translation
    let sel_pos = prompt.find("SELECTED TEXT MODE").unwrap();
    let trans_pos = prompt.find("AFTER applying").unwrap();
    assert!(
        sel_pos < trans_pos,
        "SELECTED TEXT MODE should appear before translation instruction"
    );
}

#[test]
fn test_prompt_no_selected_text_translation_wording() {
    let prompt = build_system_prompt(AppType::General, &[], true, "zh", false);
    assert!(prompt.contains("AFTER cleaning the text"));
    assert!(!prompt.contains("applying the user's instruction"));
}

#[test]
fn test_prompt_role_definition_present() {
    let prompt = build_system_prompt(AppType::General, &[], false, "", false);
    assert!(prompt.contains("静默的文本处理引擎"));
    assert!(prompt.contains("严禁回答"));
}

#[test]
fn test_prompt_filler_words_listed() {
    let prompt = build_system_prompt(AppType::General, &[], false, "", false);
    assert!(prompt.contains("嗯"));
    assert!(prompt.contains("那个"));
    assert!(prompt.contains("就是说"));
}

#[test]
fn test_prompt_has_repetition_merge_rule() {
    let prompt = build_system_prompt(AppType::General, &[], false, "", false);
    assert!(prompt.contains("去除内容重复"));
}

#[test]
fn test_prompt_has_punctuation_rule() {
    let prompt = build_system_prompt(AppType::General, &[], false, "", false);
    assert!(prompt.contains("标点与断句"));
    assert!(prompt.contains("断句精准"));
}

#[test]
fn test_prompt_v2_core_features() {
    let prompt = build_system_prompt(AppType::General, &[], false, "", false);
    assert!(prompt.contains("逻辑链回溯"));
    assert!(prompt.contains("意图对齐"));
    assert!(prompt.contains("标点与断句"));
    assert!(prompt.contains("关键细节保全"));
}

#[test]
fn test_prompt_v2_scenarios() {
    let prompt = build_system_prompt(AppType::General, &[], false, "", false);
    assert!(prompt.contains("会议/汇报"));
    assert!(prompt.contains("灵感/感悟"));
    assert!(prompt.contains("技术/代码"));
}

#[test]
fn test_prompt_v2_examples_present() {
    let prompt = build_system_prompt(AppType::General, &[], false, "", false);
    assert!(prompt.contains("方案调整及预算跟进"));
    assert!(prompt.contains("严禁回答/非助手测试"));
    assert!(prompt.contains("明天下午三点开会"));
    assert!(prompt.contains("去除内容重复"));
    assert!(prompt.contains("分段——话题切换"));
    assert!(prompt.contains("同话题内逻辑层次拆分"));
    assert!(prompt.contains("句中重头清理"));
}
