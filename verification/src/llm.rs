//! The decisions of the chat-completion client that polishes transcripts:
//! what is sent around the raw text, how a streamed reply is split into
//! server-sent-event lines and accumulated, how a thinking model's reasoning
//! is mined for an answer when it gave no content, and how an error body is
//! shortened.
use vstd::prelude::*;
use vstd::string::StringExecFns;
use vstd::utf8::{decode_utf8, encode_scalar, encode_utf8, valid_utf8};
use crate::postprocess::{clean_llm_output, clean_spec};
use crate::prompt::{build_system_prompt, system_prompt, words_view, AppType};
use crate::text::{
    lemma_trim_start_skip, matches_at,
    begins_with, chars_eq, chars_of, find_chars_from, find_from, lemma_find_from, slice_range,
    starts_with, string_of, trim, trim_chars,
};

verus! {

/// An optional text as plain values.
pub open spec fn string_view(o: Option<String>) -> Option<Seq<char>> {
    match o {
        Some(s) => Some(s@),
        None => None,
    }
}

/// An optional borrowed text as plain values.
pub open spec fn str_view(o: Option<&str>) -> Option<Seq<char>> {
    match o {
        Some(s) => Some(s@),
        None => None,
    }
}

/// The content and reasoning after a delta: each piece that came is
/// appended.
pub open spec fn apply_delta(
    acc: (Seq<char>, Seq<char>),
    content: Option<Seq<char>>,
    reasoning: Option<Seq<char>>,
) -> (Seq<char>, Seq<char>) {
    (
        match content {
            Some(c) => acc.0 + c,
            None => acc.0,
        },
        match reasoning {
            Some(r) => acc.1 + r,
            None => acc.1,
        },
    )
}

/// The content forwarded to the listener: a non-empty piece.
pub open spec fn delta_forward(content: Option<Seq<char>>) -> Option<Seq<char>> {
    match content {
        Some(c) => if c.len() > 0 {
            Some(c)
        } else {
            None
        },
        None => None,
    }
}

/// What serde_json reads in the payload of a streamed chunk: nothing when
/// it is not JSON, else the strings at `choices[0].delta.content` and
/// `choices[0].delta.reasoning_content` (each absent when missing or not a
/// string).
pub uninterp spec fn json_chat_delta(data: Seq<char>) -> Option<(Option<Seq<char>>, Option<Seq<char>>)>;

/// `serde_json::from_str` into a `serde_json::Value`, then the two strings
/// of the delta read by indexing and `as_str`. Claimed: the result is
/// `json_chat_delta` of the text; nothing more is said of JSON here.
#[verifier::external_body]
fn parse_chat_delta(data: &str) -> (r: Option<(Option<String>, Option<String>)>)
    ensures
        match r {
            None => json_chat_delta(data@) is None,
            Some((c, rc)) => json_chat_delta(data@) == Some((string_view(c), string_view(rc))),
        },
{
    match serde_json::from_str::<serde_json::Value>(data) {
        Ok(v) => {
            let d = &v["choices"][0]["delta"];
            Some((d["content"].as_str().map(String::from), d["reasoning_content"].as_str().map(String::from)))
        },
        Err(_) => None,
    }
}

/// What serde_json reads in a whole chat reply: nothing when it is not
/// JSON, else the string at `choices[0].message.content` (absent when
/// missing or not a string).
pub uninterp spec fn json_message_content(body: Seq<char>) -> Option<Option<Seq<char>>>;

/// `serde_json::from_str` into a `serde_json::Value`, then the message
/// content read by indexing and `as_str`. Claimed: `Ok` exactly when
/// `json_message_content` of the body is some, with that content; the text
/// of the error (serde_json's own) is not described.
#[verifier::external_body]
pub(crate) fn parse_message_content(body: &str) -> (r: Result<Option<String>, String>)
    ensures
        match r {
            Ok(c) => json_message_content(body@) == Some(string_view(c)),
            Err(_) => json_message_content(body@) is None,
        },
{
    match serde_json::from_str::<serde_json::Value>(body) {
        Ok(v) => Ok(v["choices"][0]["message"]["content"].as_str().map(String::from)),
        Err(e) => Err(e.to_string()),
    }
}

/// The polished text of a whole (not streamed) reply, given its message
/// content: the content, or the empty text, cleaned.
pub fn polish_reply_content(content: Option<&str>) -> (r: String)
    ensures
        r@ == clean_spec(
            match content {
                Some(c) => c@,
                None => Seq::empty(),
            },
        ),
{
    match content {
        Some(c) => clean_llm_output(c),
        None => {
            let empty = String::new();
            clean_llm_output(empty.as_str())
        },
    }
}

/// The polished text of a whole reply body; the error of a body that is
/// not JSON.
pub fn polish_reply_body(body: &str) -> (r: Result<String, String>)
    ensures
        match json_message_content(body@) {
            None => r is Err,
            Some(c) => r matches Ok(t) && t@ == clean_spec(
                match c {
                    Some(c) => c,
                    None => Seq::empty(),
                },
            ),
        },
{
    match parse_message_content(body) {
        Err(e) => Err(e),
        Ok(c) => {
            let cs: Option<&str> = match &c {
                Some(t) => Some(t.as_str()),
                None => None,
            };
            Ok(polish_reply_content(cs))
        },
    }
}

/// The error reported for a refused chat request: the status and the start
/// of the body.
pub fn llm_api_error(status: &str, body: &str) -> (m: String)
    ensures
        m@ == "LLM API error "@ + status@ + ": "@ + prefix_before(body@, 200),
{
    let mut m = String::from_str("LLM API error ");
    m.append(status);
    m.append(": ");
    m.append(truncate_error_body(body).as_str());
    m
}

/// A role and a text of a chat request.
#[derive(Debug)]
pub struct ChatMessage {
    pub role: String,
    pub content: String,
}

/// A message as plain values.
pub open spec fn message_view(m: ChatMessage) -> (Seq<char>, Seq<char>) {
    (m.role@, m.content@)
}

/// The messages of a polish request: the system prompt; the selected text,
/// when there is some that is more than white space; the raw transcript
/// inside its boundary tags.
pub open spec fn polish_messages_spec(
    system_prompt: Seq<char>,
    selected: Option<Seq<char>>,
    raw_text: Seq<char>,
) -> Seq<(Seq<char>, Seq<char>)> {
    let sys = seq![("system"@, system_prompt)];
    let input = seq![("user"@, "[INPUT_TEXT]\n"@ + raw_text + "\n[/INPUT_TEXT]"@)];
    if has_selected_text_spec(selected) {
        sys + seq![("user"@, "[Selected Text]\n"@ + selected.unwrap())] + input
    } else {
        sys + input
    }
}

/// The messages of a polish request, built around the system prompt.
pub fn polish_messages(app_type: AppType, dictionary: &[String], translate_enabled: bool, target_lang: &str, selected: Option<&str>, raw_text: &str) -> (v: Vec<ChatMessage>)
    ensures
        v@.map_values(|m: ChatMessage| message_view(m)) == polish_messages_spec(
            system_prompt(
                app_type,
                words_view(dictionary@),
                translate_enabled,
                target_lang@,
                has_selected_text_spec(str_view(selected)),
            ),
            str_view(selected),
            raw_text@,
        ),
{
    let has_selected = has_selected_text(selected);
    let prompt = build_system_prompt(app_type, dictionary, translate_enabled, target_lang, has_selected);
    let ghost sp = prompt@;
    let mut v: Vec<ChatMessage> = Vec::new();
    v.push(ChatMessage { role: String::from_str("system"), content: prompt });
    if has_selected {
        match selected {
            Some(s) => {
                v.push(ChatMessage { role: String::from_str("user"), content: selected_text_message(s) });
            },
            None => {},
        }
    }
    v.push(ChatMessage { role: String::from_str("user"), content: wrap_input(raw_text) });
    assert(v@.map_values(|m: ChatMessage| message_view(m)) =~= polish_messages_spec(
        sp,
        str_view(selected),
        raw_text@,
    ));
    v
}

/// Whether the request carries selected text: there is some, and it is more
/// than white space.
pub open spec fn has_selected_text_spec(selected: Option<Seq<char>>) -> bool {
    match selected {
        Some(s) => trim(s).len() > 0,
        None => false,
    }
}

/// Whether the request carries selected text.
pub fn has_selected_text(selected: Option<&str>) -> (r: bool)
    ensures
        r == has_selected_text_spec(
            match selected {
                Some(s) => Some(s@),
                None => None,
            },
        ),
{
    match selected {
        Some(s) => trim_chars(&chars_of(s)).len() > 0,
        None => false,
    }
}

/// The user message that hands the selected text to the model.
pub fn selected_text_message(selected: &str) -> (m: String)
    ensures
        m@ == "[Selected Text]\n"@ + selected@,
{
    let mut m = String::from_str("[Selected Text]\n");
    m.append(selected);
    m
}

/// The raw transcript inside the boundary tags, so that the model treats it
/// as content to polish and never as an instruction.
pub fn wrap_input(raw_text: &str) -> (m: String)
    ensures
        m@ == "[INPUT_TEXT]\n"@ + raw_text@ + "\n[/INPUT_TEXT]"@,
{
    let mut m = String::from_str("[INPUT_TEXT]\n");
    m.append(raw_text);
    m.append("\n[/INPUT_TEXT]");
    m
}

/// Whether the model is a thinking model that needs thinking switched on
/// explicitly (its name begins with `glm-`).
pub fn is_thinking_model(model: &str) -> (r: bool)
    ensures
        r == starts_with(model@, "glm-"@),
{
    begins_with(&chars_of(model), &chars_of("glm-"))
}

/// The number of bytes of the UTF-8 encoding of `c`.
pub open spec fn utf8_width(c: char) -> int {
    encode_scalar(c as u32).len() as int
}

/// The number of bytes of the UTF-8 encoding of `c`, computed.
pub fn char_width(c: char) -> (w: usize)
    ensures
        w == utf8_width(c),
        1 <= w <= 4,
{
    let u = c as u32;
    if u <= 0x7F {
        1
    } else if u <= 0x7FF {
        2
    } else if u <= 0xFFFF {
        proof {
            vstd::utf8::char_is_scalar(c);
        }
        3
    } else {
        proof {
            vstd::utf8::char_is_scalar(c);
        }
        4
    }
}

/// UTF-8 encoding distributes over concatenation.
pub proof fn lemma_encode_concat(a: Seq<char>, b: Seq<char>)
    ensures
        encode_utf8(a + b) == encode_utf8(a) + encode_utf8(b),
    decreases a.len(),
{
    if a.len() > 0 {
        assert((a + b).drop_first() =~= a.drop_first() + b);
        lemma_encode_concat(a.drop_first(), b);
        assert(encode_utf8(a + b) =~= encode_utf8(a) + encode_utf8(b));
    } else {
        assert(a + b =~= b);
        assert(encode_utf8(a) =~= Seq::<u8>::empty());
        assert(encode_utf8(a) + encode_utf8(b) =~= encode_utf8(b));
    }
}

/// The encoding of one character is its scalar's encoding.
pub proof fn lemma_encode_single(c: char)
    ensures
        encode_utf8(seq![c]) == encode_scalar(c as u32),
{
    let x = seq![c];
    assert(x.drop_first() =~= Seq::<char>::empty());
    assert(encode_utf8(x.drop_first()) =~= Seq::<u8>::empty());
    assert(encode_utf8(x) =~= encode_scalar(c as u32));
}

/// Whether the UTF-8 encoding of `s` is longer than `limit` bytes.
pub fn utf8_len_exceeds(s: &[char], limit: usize) -> (r: bool)
    ensures
        r == (encode_utf8(s@).len() > limit),
{
    let mut total: usize = 0;
    let mut i: usize = 0;
    assert(encode_utf8(s@.take(0)) =~= Seq::<u8>::empty());
    while i < s.len()
        invariant
            i <= s.len(),
            total <= limit,
            total == encode_utf8(s@.take(i as int)).len(),
        decreases s.len() - i,
    {
        let w = char_width(s[i]);
        proof {
            assert(s@.take(i + 1) =~= s@.take(i as int) + seq![s@[i as int]]);
            lemma_encode_concat(s@.take(i as int), seq![s@[i as int]]);
            lemma_encode_single(s@[i as int]);
        }
        if w > limit - total {
            proof {
                lemma_encode_prefix_len(s@, i + 1);
            }
            return true;
        }
        total = total + w;
        i = i + 1;
    }
    assert(s@.take(s.len() as int) =~= s@);
    false
}

/// The encoding of a prefix is no longer than the encoding of the whole.
pub proof fn lemma_encode_prefix_len(s: Seq<char>, i: int)
    requires
        0 <= i <= s.len(),
    ensures
        encode_utf8(s.take(i)).len() <= encode_utf8(s).len(),
{
    assert(s =~= s.take(i) + s.skip(i));
    lemma_encode_concat(s.take(i), s.skip(i));
}

/// The characters of `s` that start before byte `limit` of its UTF-8
/// encoding.
pub open spec fn prefix_before(s: Seq<char>, limit: int) -> Seq<char>
    decreases s.len(),
{
    if s.len() == 0 || limit <= 0 {
        Seq::empty()
    } else {
        seq![s[0]] + prefix_before(s.drop_first(), limit - utf8_width(s[0]))
    }
}

/// The start of an error body that is shown to the user: every character
/// that starts within the first 200 bytes, so a character is never cut.
pub fn truncate_error_body(text: &str) -> (r: String)
    ensures
        r@ == prefix_before(text@, 200),
{
    let v = chars_of(text);
    let mut offset: usize = 0;
    let mut i: usize = 0;
    assert(v@.skip(0) =~= v@);
    assert(v@.take(0) + v@ =~= v@);
    while i < v.len() && offset < 200
        invariant
            i <= v.len(),
            offset < 200 + 4,
            prefix_before(v@, 200) == v@.take(i as int) + prefix_before(
                v@.skip(i as int),
                200 - offset,
            ),
        decreases v.len() - i,
    {
        let w = char_width(v[i]);
        assert(v@.skip(i as int).drop_first() =~= v@.skip(i + 1));
        assert(v@.take(i + 1) =~= v@.take(i as int) + seq![v@[i as int]]);
        offset = offset + w;
        i = i + 1;
    }
    let r = slice_range(&v, 0, i);
    assert(r@ =~= v@.take(i as int));
    assert(prefix_before(v@.skip(i as int), 200 - offset) =~= Seq::<char>::empty());
    assert(v@.take(i as int) + Seq::<char>::empty() =~= v@.take(i as int));
    string_of(&r)
}

/// The separator between paragraphs of reasoning.
pub open spec fn paragraph_sep() -> Seq<char> {
    seq!['\n', '\n']
}

/// Keeps the newer paragraph if it is more than white space.
pub open spec fn newer_paragraph(acc: Option<Seq<char>>, piece: Seq<char>) -> Option<Seq<char>> {
    if trim(piece).len() > 0 {
        Some(trim(piece))
    } else {
        acc
    }
}

/// The last paragraph (trimmed and not empty) of `s[k..]`, splitting at
/// every `\n\n` from left to right, or `acc` if there is none.
pub open spec fn last_paragraph_from(s: Seq<char>, k: int, acc: Option<Seq<char>>) -> Option<
    Seq<char>,
>
    decreases s.len() + 1 - k,
{
    if k < 0 || k > s.len() {
        acc
    } else {
        match find_from(s, paragraph_sep(), k) {
            None => newer_paragraph(acc, s.subrange(k, s.len() as int)),
            Some(i) => {
                proof {
                    lemma_find_from(s, paragraph_sep(), k);
                }
                last_paragraph_from(s, i + 2, newer_paragraph(acc, s.subrange(k, i)))
            },
        }
    }
}

/// The last non-empty paragraph of `s`, trimmed.
pub open spec fn last_paragraph(s: Seq<char>) -> Option<Seq<char>> {
    last_paragraph_from(s, 0, None)
}

/// The number of openings that mark a paragraph as still reasoning.
pub open spec fn marker_count() -> int {
    11
}

/// The openings that mark a paragraph as still reasoning.
pub open spec fn reasoning_marker(k: int) -> Seq<char> {
    if k == 0 {
        "我需要"@
    } else if k == 1 {
        "I need to"@
    } else if k == 2 {
        "让我"@
    } else if k == 3 {
        "好的，让"@
    } else if k == 4 {
        "首先，我"@
    } else if k == 5 {
        "接下来，"@
    } else if k == 6 {
        "分析："@
    } else if k == 7 {
        "思路："@
    } else if k == 8 {
        "Step 1"@
    } else if k == 9 {
        "Step1"@
    } else {
        "**分析"@
    }
}

/// Whether a paragraph begins like reasoning.
pub open spec fn looks_like_reasoning(p: Seq<char>) -> bool {
    exists|k: int| 0 <= k < marker_count() && starts_with(p, #[trigger] reasoning_marker(k))
}

/// The longest answer, in bytes of UTF-8, taken from reasoning.
pub const MAX_REASONING_ANSWER_BYTES: usize = 5000;

/// What `extract_from_reasoning` gives: the last paragraph, unless it
/// begins like reasoning or is longer than 5000 bytes.
pub open spec fn extract_spec(reasoning: Seq<char>) -> Option<Seq<char>> {
    match last_paragraph(reasoning) {
        None => None,
        Some(p) => if looks_like_reasoning(p) || encode_utf8(p).len() > 5000 {
            None
        } else {
            Some(p)
        },
    }
}

fn reasoning_marker_str(k: usize) -> (r: &'static str)
    requires
        k < 11,
    ensures
        r@ == reasoning_marker(k as int),
{
    if k == 0 {
        "我需要"
    } else if k == 1 {
        "I need to"
    } else if k == 2 {
        "让我"
    } else if k == 3 {
        "好的，让"
    } else if k == 4 {
        "首先，我"
    } else if k == 5 {
        "接下来，"
    } else if k == 6 {
        "分析："
    } else if k == 7 {
        "思路："
    } else if k == 8 {
        "Step 1"
    } else if k == 9 {
        "Step1"
    } else {
        "**分析"
    }
}

/// Takes the final answer out of a thinking model's reasoning: the last
/// paragraph (paragraphs are separated by `\n\n`, trimmed, empty ones
/// skipped), unless it still begins like reasoning or is over 5000 bytes.
pub fn extract_from_reasoning(reasoning: &str) -> (r: Option<String>)
    ensures
        match r {
            Some(t) => extract_spec(reasoning@) == Some(t@),
            None => extract_spec(reasoning@) is None,
        },
{
    let s = chars_of(reasoning);
    let sep: Vec<char> = vec!['\n', '\n'];
    assert(sep@ =~= paragraph_sep());
    let mut last: Option<Vec<char>> = None;
    let mut k: usize = 0;
    loop
        invariant_except_break
            k <= s.len(),
            s@ == reasoning@,
            sep@ == paragraph_sep(),
            last_paragraph_from(s@, k as int, match last {
                Some(v) => Some(v@),
                None => None,
            }) == last_paragraph(s@),
        ensures
            s@ == reasoning@,
            (match last {
                Some(v) => Some(v@),
                None => None,
            }) == last_paragraph(s@),
        decreases s.len() + 1 - k,
    {
        match find_chars_from(&s, &sep, k) {
            None => {
                let piece = trim_chars(&slice_range(&s, k, s.len()));
                if piece.len() > 0 {
                    last = Some(piece);
                }
                break;
            },
            Some(i) => {
                let piece = trim_chars(&slice_range(&s, k, i));
                if piece.len() > 0 {
                    last = Some(piece);
                }
                k = i + 2;
            },
        }
    }
    let candidate = match last {
        None => {
            return None;
        },
        Some(c) => c,
    };
    let mut m: usize = 0;
    while m < 11
        invariant
            m <= 11,
            s@ == reasoning@,
            last_paragraph(s@) == Some(candidate@),
            forall|j: int| 0 <= j < m ==> !starts_with(candidate@, #[trigger] reasoning_marker(j)),
        decreases 11 - m,
    {
        if begins_with(&candidate, &chars_of(reasoning_marker_str(m))) {
            assert(starts_with(candidate@, reasoning_marker(m as int)));
            assert(looks_like_reasoning(candidate@));
            return None;
        }
        m = m + 1;
    }
    assert(!looks_like_reasoning(candidate@));
    if utf8_len_exceeds(&candidate, MAX_REASONING_ANSWER_BYTES) {
        return None;
    }
    Some(string_of(&candidate))
}

/// `String::from_utf8`: the text a byte vector encodes, if it is valid
/// UTF-8.
#[verifier::external_body]
fn string_from_utf8(bytes: Vec<u8>) -> (r: Option<String>)
    ensures
        r is Some <==> valid_utf8(bytes@),
        r matches Some(s) ==> s@ == decode_utf8(bytes@),
{
    String::from_utf8(bytes).ok()
}

/// The first index at or after `i` that holds the byte `x`.
pub open spec fn first_byte_from(b: Seq<u8>, x: u8, i: int) -> Option<int>
    decreases b.len() - i,
{
    if i < 0 || i >= b.len() {
        None
    } else if b[i] == x {
        Some(i)
    } else {
        first_byte_from(b, x, i + 1)
    }
}

/// Bytes of a streamed reply that have not yet formed a whole line.
pub struct SseBuffer {
    buf: Vec<u8>,
}

impl View for SseBuffer {
    type V = Seq<u8>;

    closed spec fn view(&self) -> Seq<u8> {
        self.buf@
    }
}

/// A first found byte lies in range and holds the byte, and no byte
/// before it (from `i` on) is that byte; when none is found, no byte from
/// `i` on is that byte.
pub proof fn lemma_first_byte_from(b: Seq<u8>, x: u8, i: int)
    requires
        0 <= i,
    ensures
        first_byte_from(b, x, i) matches Some(k) ==> i <= k < b.len() && b[k] == x && forall|j: int|
            i <= j < k ==> b[j] != x,
        first_byte_from(b, x, i) is None ==> forall|j: int| i <= j < b.len() ==> b[j] != x,
    decreases b.len() - i,
{
    if i < b.len() && b[i] != x {
        lemma_first_byte_from(b, x, i + 1);
    }
}

/// The next complete line of a buffer, through its `\n`, and what is left
/// after it; none while the buffer holds no `\n`.
pub open spec fn next_line_spec(b: Seq<u8>) -> Option<(Seq<u8>, Seq<u8>)> {
    match first_byte_from(b, 10u8, 0) {
        None => None,
        Some(p) => Some((b.take(p + 1), b.skip(p + 1))),
    }
}

/// Splitting off a line loses no byte: the line and the rest make up the
/// buffer, the line ends with its only `\n`; a buffer with no line holds
/// no `\n`.
pub proof fn law_sse_lines_lose_nothing(b: Seq<u8>)
    ensures
        next_line_spec(b) matches Some((line, rest)) ==> {
            &&& line + rest == b
            &&& line.len() > 0
            &&& line.last() == 10u8
            &&& forall|j: int| 0 <= j < line.len() - 1 ==> line[j] != 10u8
        },
        next_line_spec(b) is None ==> forall|j: int| 0 <= j < b.len() ==> b[j] != 10u8,
{
    lemma_first_byte_from(b, 10u8, 0);
    if let Some((line, rest)) = next_line_spec(b) {
        assert(line + rest =~= b);
    }
}

impl SseBuffer {
    /// An empty buffer.
    pub fn new() -> (r: Self)
        ensures
            r@ == Seq::<u8>::empty(),
    {
        SseBuffer { buf: Vec::new() }
    }

    /// Adds the bytes of a network chunk.
    pub fn feed(&mut self, chunk: &[u8])
        ensures
            final(self)@ == old(self)@ + chunk@,
    {
        let mut i: usize = 0;
        let ghost start = self.buf@;
        while i < chunk.len()
            invariant
                i <= chunk.len(),
                self.buf@ == start + chunk@.take(i as int),
            decreases chunk.len() - i,
        {
            self.buf.push(chunk[i]);
            i = i + 1;
            assert(self.buf@ =~= start + chunk@.take(i as int));
        }
        assert(chunk@.take(chunk.len() as int) =~= chunk@);
    }

    /// Takes the next complete line, up to and including its `\n`; none
    /// while no `\n` has arrived.
    pub fn next_line(&mut self) -> (r: Option<Vec<u8>>)
        ensures
            match next_line_spec(old(self)@) {
                None => r is None && final(self)@ == old(self)@,
                Some((line, rest)) => r matches Some(l) && l@ == line && final(self)@ == rest,
            },
    {
        let mut p: usize = 0;
        while p < self.buf.len() && self.buf[p] != 10u8
            invariant
                p <= self.buf.len(),
                first_byte_from(self.buf@, 10u8, 0) == first_byte_from(self.buf@, 10u8, p as int),
            decreases self.buf.len() - p,
        {
            p = p + 1;
        }
        if p == self.buf.len() {
            return None;
        }
        let mut line: Vec<u8> = Vec::new();
        let mut rest: Vec<u8> = Vec::new();
        let mut i: usize = 0;
        while i < self.buf.len()
            invariant
                p < self.buf.len(),
                i <= self.buf.len(),
                i <= p + 1 ==> line@ == self.buf@.take(i as int) && rest@ == Seq::<u8>::empty(),
                i > p + 1 ==> line@ == self.buf@.take(p + 1) && rest@ == self.buf@.subrange(
                    p + 1,
                    i as int,
                ),
            decreases self.buf.len() - i,
        {
            if i <= p {
                line.push(self.buf[i]);
            } else {
                rest.push(self.buf[i]);
            }
            i = i + 1;
            assert(i <= p + 1 ==> line@ =~= self.buf@.take(i as int));
            assert(i > p + 1 ==> rest@ =~= self.buf@.subrange(p + 1, i as int));
            assert(i > p + 1 ==> line@ =~= self.buf@.take(p + 1));
        }
        assert(rest@ =~= self.buf@.skip(p + 1));
        self.buf = rest;
        Some(line)
    }
}

/// A line of a streamed reply, as plain values.
pub enum SseLineView {
    Done,
    Data(Seq<char>),
    Other,
}

/// What a line of a streamed reply says.
#[derive(Debug)]
pub enum SseLine {
    /// `data: [DONE]`: the reply is complete.
    Done,
    /// `data: <payload>`.
    Data(String),
    /// Anything else (comments, event names, blank lines).
    Other,
}

/// The prefix of a data line.
pub open spec fn data_prefix() -> Seq<char> {
    "data: "@
}

/// What a line says, read after trimming it.
pub open spec fn sse_line_spec(line: Seq<char>) -> SseLineView {
    let t = trim(line);
    if starts_with(t, data_prefix()) {
        let d = t.skip(data_prefix().len() as int);
        if d == "[DONE]"@ {
            SseLineView::Done
        } else {
            SseLineView::Data(d)
        }
    } else {
        SseLineView::Other
    }
}

/// A line as plain values.
pub open spec fn sse_view(l: SseLine) -> SseLineView {
    match l {
        SseLine::Done => SseLineView::Done,
        SseLine::Data(d) => SseLineView::Data(d@),
        SseLine::Other => SseLineView::Other,
    }
}

/// Reads a line of a streamed reply.
pub fn classify_sse_line(line: &str) -> (r: SseLine)
    ensures
        sse_view(r) == sse_line_spec(line@),
{
    let t = trim_chars(&chars_of(line));
    let prefix = chars_of("data: ");
    if begins_with(&t, &prefix) {
        let d = slice_range(&t, prefix.len(), t.len());
        assert(d@ =~= t@.skip(data_prefix().len() as int));
        if chars_eq(&d, &chars_of("[DONE]")) {
            SseLine::Done
        } else {
            SseLine::Data(string_of(&d))
        }
    } else {
        SseLine::Other
    }
}

/// Decodes a complete line of bytes; none if it is not valid UTF-8 (such a
/// line is skipped).
pub fn decode_sse_line(bytes: Vec<u8>) -> (r: Option<SseLine>)
    ensures
        r is Some <==> valid_utf8(bytes@),
        r matches Some(l) ==> sse_view(l) == sse_line_spec(decode_utf8(bytes@)),
{
    match string_from_utf8(bytes) {
        None => None,
        Some(s) => Some(classify_sse_line(s.as_str())),
    }
}

/// The content and the reasoning of a streamed reply, as they arrive.
pub struct StreamAccumulator {
    full_text: String,
    reasoning_text: String,
}

impl View for StreamAccumulator {
    type V = (Seq<char>, Seq<char>);

    closed spec fn view(&self) -> (Seq<char>, Seq<char>) {
        (self.full_text@, self.reasoning_text@)
    }
}

/// What a finished stream yields: the text to announce to the listener
/// (an answer recovered from reasoning), and the cleaned reply.
#[derive(Debug)]
pub struct StreamOutcome {
    pub announced: Option<String>,
    pub polished: String,
}

/// The text a finished stream stands for: the content, or, when there was
/// none but there was reasoning, the answer recovered from the reasoning
/// (or nothing).
pub open spec fn stream_text(full: Seq<char>, reasoning: Seq<char>) -> Seq<char> {
    if full.len() == 0 && reasoning.len() > 0 {
        match extract_spec(reasoning) {
            Some(e) => e,
            None => Seq::empty(),
        }
    } else {
        full
    }
}

/// The text announced when a stream finishes.
pub open spec fn stream_announced(full: Seq<char>, reasoning: Seq<char>) -> Option<Seq<char>> {
    if full.len() == 0 && reasoning.len() > 0 {
        extract_spec(reasoning)
    } else {
        None
    }
}

impl StreamAccumulator {
    /// Nothing received yet.
    pub fn new() -> (r: Self)
        ensures
            r@ == (Seq::<char>::empty(), Seq::<char>::empty()),
    {
        StreamAccumulator { full_text: String::new(), reasoning_text: String::new() }
    }

    /// Takes one delta of the stream: non-empty content is kept and handed
    /// back to be forwarded to the listener; non-empty reasoning is kept.
    pub fn on_delta(&mut self, content: Option<&str>, reasoning: Option<&str>) -> (forward: Option<
        String,
    >)
        ensures
            final(self)@ == apply_delta(old(self)@, str_view(content), str_view(reasoning)),
            string_view(forward) == delta_forward(str_view(content)),
    {
        let mut forward: Option<String> = None;
        if let Some(c) = content {
            if !c.is_empty() {
                self.full_text.append(c);
                forward = Some(String::from_str(c));
            } else {
                assert(self.full_text@ =~= self.full_text@ + c@);
            }
        }
        if let Some(rc) = reasoning {
            if !rc.is_empty() {
                self.reasoning_text.append(rc);
            } else {
                assert(self.reasoning_text@ =~= self.reasoning_text@ + rc@);
            }
        }
        forward
    }

    /// Takes the payload of a data line: the content and reasoning of its
    /// delta, as `on_delta` does; a payload that is not JSON is skipped.
    pub fn on_data(&mut self, data: &str) -> (forward: Option<String>)
        ensures
            match json_chat_delta(data@) {
                None => forward is None && final(self)@ == old(self)@,
                Some((c, rc)) => final(self)@ == apply_delta(old(self)@, c, rc) && string_view(
                    forward,
                ) == delta_forward(c),
            },
    {
        match parse_chat_delta(data) {
            None => None,
            Some((c, rc)) => {
                let cs: Option<&str> = match &c {
                    Some(t) => Some(t.as_str()),
                    None => None,
                };
                let rs: Option<&str> = match &rc {
                    Some(t) => Some(t.as_str()),
                    None => None,
                };
                self.on_delta(cs, rs)
            },
        }
    }

    /// Takes one complete line of the stream: `data: [DONE]` ends the
    /// chunk's lines (`None`); a data line's payload is taken as `on_data`
    /// takes it, and what it forwards is handed back; any other line, or
    /// one that is not UTF-8, is skipped (`Some(None)`).
    pub fn on_line(&mut self, line: Vec<u8>) -> (r: Option<Option<String>>)
        ensures
            !valid_utf8(line@) ==> r == Some(None::<String>) && final(self)@ == old(self)@,
            valid_utf8(line@) ==> match sse_line_spec(decode_utf8(line@)) {
                SseLineView::Done => r is None && final(self)@ == old(self)@,
                SseLineView::Other => r == Some(None::<String>) && final(self)@ == old(self)@,
                SseLineView::Data(d) => match json_chat_delta(d) {
                    None => r == Some(None::<String>) && final(self)@ == old(self)@,
                    Some((c, rc)) => (r matches Some(f) && string_view(f) == delta_forward(c))
                        && final(self)@ == apply_delta(old(self)@, c, rc),
                },
            },
    {
        match decode_sse_line(line) {
            None => Some(None),
            Some(SseLine::Done) => None,
            Some(SseLine::Other) => Some(None),
            Some(SseLine::Data(d)) => Some(self.on_data(d.as_str())),
        }
    }

    /// Ends the stream: recovers an answer from the reasoning when the
    /// content stayed empty, and cleans the result.
    pub fn finish(self) -> (r: StreamOutcome)
        ensures
            match r.announced {
                Some(a) => stream_announced(self@.0, self@.1) == Some(a@),
                None => stream_announced(self@.0, self@.1) is None,
            },
            r.polished@ == clean_spec(stream_text(self@.0, self@.1)),
    {
        if self.full_text.as_str().is_empty() && !self.reasoning_text.as_str().is_empty() {
            match extract_from_reasoning(self.reasoning_text.as_str()) {
                Some(extracted) => {
                    let polished = clean_llm_output(extracted.as_str());
                    StreamOutcome { announced: Some(extracted), polished }
                },
                None => {
                    let empty = String::new();
                    StreamOutcome { announced: None, polished: clean_llm_output(empty.as_str()) }
                },
            }
        } else {
            StreamOutcome { announced: None, polished: clean_llm_output(self.full_text.as_str()) }
        }
    }
}

/// Every character that starts before the limit is kept whole: the shown
/// start of an error body is a prefix of it, and its UTF-8 encoding ends
/// at most three bytes past the limit.
pub proof fn law_error_body_prefix(s: Seq<char>, limit: int)
    requires
        limit >= 0,
    ensures
        prefix_before(s, limit).len() <= s.len(),
        s.take(prefix_before(s, limit).len() as int) == prefix_before(s, limit),
        encode_utf8(prefix_before(s, limit)).len() <= limit + 3,
    decreases s.len(),
{
    let r = prefix_before(s, limit);
    if s.len() == 0 || limit == 0 {
        assert(s.take(0) =~= r);
    } else {
        let w = utf8_width(s[0]);
        assert(1 <= w <= 4);
        let rest = prefix_before(s.drop_first(), limit - w);
        if limit - w >= 0 {
            law_error_body_prefix(s.drop_first(), limit - w);
        } else {
            assert(encode_utf8(rest) =~= Seq::<u8>::empty());
            assert(s.drop_first().take(0) =~= rest);
        }
        lemma_encode_concat(seq![s[0]], rest);
        lemma_encode_single(s[0]);
        assert(s.take(r.len() as int) =~= seq![s[0]] + s.drop_first().take(rest.len() as int));
    }
}

/// What is forwarded to the listener is exactly what the content grows by:
/// a delta's content is appended, and forwarded when it is not empty.
pub proof fn law_forwarded_is_appended(
    acc: (Seq<char>, Seq<char>),
    content: Option<Seq<char>>,
    reasoning: Option<Seq<char>>,
)
    ensures
        apply_delta(acc, content, reasoning).0 == acc.0 + match delta_forward(content) {
            Some(f) => f,
            None => Seq::empty(),
        },
{
    match content {
        Some(c) => {
            if c.len() == 0 {
                assert(acc.0 + c =~= acc.0 + Seq::<char>::empty());
            }
        },
        None => {
            assert(acc.0 =~= acc.0 + Seq::<char>::empty());
        },
    }
}

/// Reasoning is only a fallback: when the stream carried any content, the
/// reply is that content, cleaned, and nothing is recovered or announced,
/// whatever the reasoning was.
pub proof fn law_content_wins_over_reasoning(full: Seq<char>, reasoning: Seq<char>)
    requires
        full.len() > 0,
    ensures
        stream_text(full, reasoning) == full,
        stream_announced(full, reasoning) is None,
{
}

/// With no occurrence of `p` from `k` on, the search from `k` finds none.
proof fn lemma_find_none(s: Seq<char>, p: Seq<char>, k: int)
    requires
        0 <= k,
        forall|j: int| k <= j ==> !#[trigger] matches_at(s, p, j),
    ensures
        find_from(s, p, k) is None,
    decreases s.len() + 1 - k,
{
    if k + p.len() <= s.len() {
        assert(!matches_at(s, p, k));
        lemma_find_none(s, p, k + 1);
    }
}

/// A blank line, `\n\n`.
spec fn blank_line() -> Seq<char> {
    seq!['\n', '\n']
}

/// Past the last blank line, a search finds none.
proof fn lemma_no_blank_after(p: Seq<char>, q: Seq<char>, k: int)
    requires
        forall|j: int| !#[trigger] matches_at(q, blank_line(), j),
        p.len() + 2 <= k,
    ensures
        find_from(p + blank_line() + q, blank_line(), k) is None,
{
    let s = p + blank_line() + q;
    let m = p.len() as int;
    assert forall|j: int| k <= j implies !#[trigger] matches_at(s, blank_line(), j) by {
        if matches_at(s, blank_line(), j) {
            assert(s.subrange(j, j + 2) =~= q.subrange(j - m - 2, j - m));
            assert(matches_at(q, blank_line(), j - m - 2));
        }
    }
    lemma_find_none(s, blank_line(), k);
}

/// Trimming ignores one leading newline.
proof fn lemma_trim_newline(q: Seq<char>)
    ensures
        trim(seq!['\n'] + q) == trim(q),
        q.len() > 0 && q[0] == '\n' ==> trim(q.skip(1)) == trim(q),
{
    let t = seq!['\n'] + q;
    lemma_trim_start_skip(t, 1);
    assert(t.skip(1) =~= q);
    if q.len() > 0 && q[0] == '\n' {
        lemma_trim_start_skip(q, 1);
    }
}

/// From any start in the text before the last blank line, the last
/// paragraph is the trimmed text after it.
proof fn lemma_last_paragraph_tail(p: Seq<char>, q: Seq<char>, k: int, acc: Option<Seq<char>>)
    requires
        0 <= k <= p.len() + 2,
        forall|j: int| !#[trigger] matches_at(q, blank_line(), j),
        trim(q).len() > 0,
    ensures
        last_paragraph_from(p + blank_line() + q, k, acc) == Some(trim(q)),
    decreases p.len() + 2 - k,
{
    let s = p + blank_line() + q;
    let m = p.len() as int;
    assert(paragraph_sep() == blank_line());
    if k == m + 2 {
        lemma_no_blank_after(p, q, m + 2);
        assert(s.subrange(m + 2, s.len() as int) =~= q);
        assert(last_paragraph_from(s, k, acc) == Some(trim(q)));
    } else if k == m + 1 {
        if q[0] == '\n' {
            assert(s.subrange(m + 1, m + 3) =~= blank_line());
            assert(find_from(s, blank_line(), m + 1) == Some(m + 1));
            assert(s.subrange(m + 1, m + 1) =~= Seq::<char>::empty());
            assert(trim(Seq::<char>::empty()) =~= Seq::<char>::empty());
            lemma_no_blank_after(p, q, m + 3);
            assert(s.subrange(m + 3, s.len() as int) =~= q.skip(1));
            lemma_trim_newline(q);
            assert(last_paragraph_from(s, m + 3, acc) == Some(trim(q)));
            assert(last_paragraph_from(s, k, acc) == Some(trim(q)));
        } else {
            assert(!matches_at(s, blank_line(), m + 1)) by {
                if matches_at(s, blank_line(), m + 1) {
                    assert(s.subrange(m + 1, m + 3)[1] == q[0]);
                }
            }
            lemma_no_blank_after(p, q, m + 2);
            lemma_find_from(s, blank_line(), m + 2);
            assert forall|j: int| m + 1 <= j implies !#[trigger] matches_at(s, blank_line(), j) by {
                if j >= m + 2 {
                    assert(find_from(s, blank_line(), m + 2) is None);
                }
            }
            lemma_find_none(s, blank_line(), m + 1);
            assert(s.subrange(m + 1, s.len() as int) =~= seq!['\n'] + q);
            lemma_trim_newline(q);
            assert(last_paragraph_from(s, k, acc) == Some(trim(q)));
        }
    } else {
        assert(s.subrange(m, m + 2) =~= blank_line());
        assert(matches_at(s, blank_line(), m));
        lemma_find_from(s, blank_line(), k);
        let i = find_from(s, blank_line(), k)->0;
        assert(k <= i <= m);
        lemma_last_paragraph_tail(p, q, i + 2, newer_paragraph(acc, s.subrange(k, i)));
    }
}

/// The answer recovered from reasoning is its whole last paragraph:
/// whatever comes before the last blank line, the paragraph after it
/// (which may hold single newlines) is the answer, trimmed, unless it
/// begins like reasoning or is too long.
pub proof fn law_reasoning_answer_is_last_paragraph(p: Seq<char>, q: Seq<char>)
    requires
        forall|j: int| 0 <= j && j + 1 < q.len() ==> !(#[trigger] q[j] == '\n' && q[j + 1] == '\n'),
        trim(q).len() > 0,
        !looks_like_reasoning(trim(q)),
        encode_utf8(trim(q)).len() <= 5000,
    ensures
        extract_spec(p + seq!['\n', '\n'] + q) == Some(trim(q)),
{
    assert(blank_line() == seq!['\n', '\n']);
    assert forall|j: int| !#[trigger] matches_at(q, blank_line(), j) by {
        if matches_at(q, blank_line(), j) {
            assert(q.subrange(j, j + 2)[0] == q[j]);
            assert(q.subrange(j, j + 2)[1] == q[j + 1]);
        }
    }
    lemma_last_paragraph_tail(p, q, 0, None);
}

/// Every documented opening of a still-reasoning paragraph marks it as
/// reasoning, whatever follows.
pub proof fn law_reasoning_markers_reject(x: Seq<char>)
    ensures
        looks_like_reasoning("我需要"@ + x),
        looks_like_reasoning("I need to"@ + x),
        looks_like_reasoning("让我"@ + x),
        looks_like_reasoning("好的，让"@ + x),
        looks_like_reasoning("首先，我"@ + x),
        looks_like_reasoning("接下来，"@ + x),
        looks_like_reasoning("分析："@ + x),
        looks_like_reasoning("思路："@ + x),
        looks_like_reasoning("Step 1"@ + x),
        looks_like_reasoning("Step1"@ + x),
        looks_like_reasoning("**分析"@ + x),
{
    reveal_strlit("我需要");
    reveal_strlit("I need to");
    reveal_strlit("让我");
    reveal_strlit("好的，让");
    reveal_strlit("首先，我");
    reveal_strlit("接下来，");
    reveal_strlit("分析：");
    reveal_strlit("思路：");
    reveal_strlit("Step 1");
    reveal_strlit("Step1");
    reveal_strlit("**分析");
    assert(looks_like_reasoning("我需要"@ + x)) by {
        assert(reasoning_marker(0) == "我需要"@);
        assert(("我需要"@ + x).subrange(0, reasoning_marker(0).len() as int) =~= reasoning_marker(0));
        assert(starts_with("我需要"@ + x, reasoning_marker(0)));
    }
    assert(looks_like_reasoning("I need to"@ + x)) by {
        assert(reasoning_marker(1) == "I need to"@);
        assert(("I need to"@ + x).subrange(0, reasoning_marker(1).len() as int) =~= reasoning_marker(1));
        assert(starts_with("I need to"@ + x, reasoning_marker(1)));
    }
    assert(looks_like_reasoning("让我"@ + x)) by {
        assert(reasoning_marker(2) == "让我"@);
        assert(("让我"@ + x).subrange(0, reasoning_marker(2).len() as int) =~= reasoning_marker(2));
        assert(starts_with("让我"@ + x, reasoning_marker(2)));
    }
    assert(looks_like_reasoning("好的，让"@ + x)) by {
        assert(reasoning_marker(3) == "好的，让"@);
        assert(("好的，让"@ + x).subrange(0, reasoning_marker(3).len() as int) =~= reasoning_marker(3));
        assert(starts_with("好的，让"@ + x, reasoning_marker(3)));
    }
    assert(looks_like_reasoning("首先，我"@ + x)) by {
        assert(reasoning_marker(4) == "首先，我"@);
        assert(("首先，我"@ + x).subrange(0, reasoning_marker(4).len() as int) =~= reasoning_marker(4));
        assert(starts_with("首先，我"@ + x, reasoning_marker(4)));
    }
    assert(looks_like_reasoning("接下来，"@ + x)) by {
        assert(reasoning_marker(5) == "接下来，"@);
        assert(("接下来，"@ + x).subrange(0, reasoning_marker(5).len() as int) =~= reasoning_marker(5));
        assert(starts_with("接下来，"@ + x, reasoning_marker(5)));
    }
    assert(looks_like_reasoning("分析："@ + x)) by {
        assert(reasoning_marker(6) == "分析："@);
        assert(("分析："@ + x).subrange(0, reasoning_marker(6).len() as int) =~= reasoning_marker(6));
        assert(starts_with("分析："@ + x, reasoning_marker(6)));
    }
    assert(looks_like_reasoning("思路："@ + x)) by {
        assert(reasoning_marker(7) == "思路："@);
        assert(("思路："@ + x).subrange(0, reasoning_marker(7).len() as int) =~= reasoning_marker(7));
        assert(starts_with("思路："@ + x, reasoning_marker(7)));
    }
    assert(looks_like_reasoning("Step 1"@ + x)) by {
        assert(reasoning_marker(8) == "Step 1"@);
        assert(("Step 1"@ + x).subrange(0, reasoning_marker(8).len() as int) =~= reasoning_marker(8));
        assert(starts_with("Step 1"@ + x, reasoning_marker(8)));
    }
    assert(looks_like_reasoning("Step1"@ + x)) by {
        assert(reasoning_marker(9) == "Step1"@);
        assert(("Step1"@ + x).subrange(0, reasoning_marker(9).len() as int) =~= reasoning_marker(9));
        assert(starts_with("Step1"@ + x, reasoning_marker(9)));
    }
    assert(looks_like_reasoning("**分析"@ + x)) by {
        assert(reasoning_marker(10) == "**分析"@);
        assert(("**分析"@ + x).subrange(0, reasoning_marker(10).len() as int) =~= reasoning_marker(10));
        assert(starts_with("**分析"@ + x, reasoning_marker(10)));
    }
}

/// A paragraph whose first character begins no reasoning marker is never
/// taken for reasoning.
pub proof fn law_other_openings_are_answers(p: Seq<char>)
    requires
        p.len() > 0,
        p[0] != '*' && p[0] != 'I' && p[0] != 'S' && p[0] != '分' && p[0] != '好' && p[0] != '思' && p[0] != '我' && p[0] != '接' && p[0] != '让' && p[0] != '首',
    ensures
        !looks_like_reasoning(p),
{
    reveal_strlit("我需要");
    reveal_strlit("I need to");
    reveal_strlit("让我");
    reveal_strlit("好的，让");
    reveal_strlit("首先，我");
    reveal_strlit("接下来，");
    reveal_strlit("分析：");
    reveal_strlit("思路：");
    reveal_strlit("Step 1");
    reveal_strlit("Step1");
    reveal_strlit("**分析");
    assert forall|k: int| 0 <= k < marker_count() implies !starts_with(p, #[trigger] reasoning_marker(k)) by {
        assert(reasoning_marker(0)[0] == '我');
        assert(reasoning_marker(1)[0] == 'I');
        assert(reasoning_marker(2)[0] == '让');
        assert(reasoning_marker(3)[0] == '好');
        assert(reasoning_marker(4)[0] == '首');
        assert(reasoning_marker(5)[0] == '接');
        assert(reasoning_marker(6)[0] == '分');
        assert(reasoning_marker(7)[0] == '思');
        assert(reasoning_marker(8)[0] == 'S');
        assert(reasoning_marker(9)[0] == 'S');
        assert(reasoning_marker(10)[0] == '*');
        if starts_with(p, reasoning_marker(k)) {
            assert(p.subrange(0, reasoning_marker(k).len() as int)[0] == p[0]);
        }
    }
}

} // verus!
