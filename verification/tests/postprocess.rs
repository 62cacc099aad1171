//! The cleaning of language-model output.
use voxtype::postprocess::clean_llm_output;

#[test]
fn clean_input_is_unchanged() {
    let clean = "今天天气不错，我打算去公园散步。";
    assert_eq!(clean_llm_output(clean), clean);
}

#[test]
fn removes_input_text_block() {
    let input = "[INPUT_TEXT]\n原始语音内容\n[/INPUT_TEXT]\n\n润色结果在这里";
    assert_eq!(clean_llm_output(input), "润色结果在这里");
}

#[test]
fn removes_output_label_prefix() {
    let input = "Output: 今天天气不错，我打算去公园散步。";
    assert_eq!(
        clean_llm_output(input),
        "今天天气不错，我打算去公园散步。"
    );
}

#[test]
fn removes_chinese_label_prefix() {
    let input = "润色结果：今天天气不错，我打算去公园散步。";
    assert_eq!(
        clean_llm_output(input),
        "今天天气不错，我打算去公园散步。"
    );
}

#[test]
fn removes_full_pollution_pattern() {
    // The exact pattern that was observed in production
    let input = "[INPUT_TEXT]\n对下面这句话进行润色，没有出现差错，但是觉得不够精炼，你看在提示词哪一条上面需要进行加强？\n[/INPUT_TEXT]\n\nOutput: 对下列语句进行润色，虽无误但觉不够精炼，请查看提示词中哪一项需强化。";
    assert_eq!(
        clean_llm_output(input),
        "对下列语句进行润色，虽无误但觉不够精炼，请查看提示词中哪一项需强化。"
    );
}

#[test]
fn handles_residual_lone_tags() {
    let input = "[INPUT_TEXT] 残余标签 [/INPUT_TEXT] 实际内容";
    assert_eq!(clean_llm_output(input), "实际内容");
}

#[test]
fn preserves_multiline_list_output() {
    let input = "今天要做以下几件事：\n1. 开会\n2. 写报告\n3. 健身";
    assert_eq!(clean_llm_output(input), input);
}

#[test]
fn strips_leading_trailing_blank_lines() {
    let input = "\n\n  实际内容  \n\n";
    assert_eq!(clean_llm_output(input), "实际内容");
}

#[test]
fn output_prefix_case_variants() {
    assert_eq!(clean_llm_output("output: text"), "text");
    assert_eq!(clean_llm_output("OUTPUT: text"), "text");
    assert_eq!(clean_llm_output("Result: text"), "text");
}

#[test]
fn does_not_strip_output_in_middle_of_text() {
    // "Output:" should only be stripped from the first content line
    let input = "这是第一行\nOutput: 这不应该被删除";
    assert_eq!(clean_llm_output(input), input);
}
