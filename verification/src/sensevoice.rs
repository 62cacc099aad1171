//! The SenseVoice recognizer's text side: the tags at the head of each
//! decoded line (language, emotion, event, punctuation mode), the parse of a
//! decoded line, the greedy CTC collapse of token ids, the layout check of
//! the network's output and the padding of audio to whole VAD chunks.
use vstd::prelude::*;
use vstd::string::StringExecFns;
use crate::text::{chars_of, find, find_from, find_chars_from, lemma_find_from, slice_range, starts_with, string_of};

verus! {

/// Languages the recognizer tags a segment with.
#[derive(Debug, Copy, Clone, PartialEq, Eq, Structural)]
pub enum SenseVoiceLanguage {
    /// English
    En,
    /// Chinese (Mandarin)
    Zh,
    /// Cantonese
    Yue,
    /// Japanese
    Ja,
    /// Korean
    Ko,
    /// No speech / silence
    NoSpeech,
}

/// Emotions the recognizer tags a segment with.
#[derive(Debug, Copy, Clone, PartialEq, Eq, Structural)]
pub enum SenseVoiceEmo {
    Happy,
    Sad,
    Angry,
    Neutral,
    Fearful,
    Disgusted,
    Surprised,
    Unknown,
}

/// Audio events the recognizer tags a segment with.
#[derive(Debug, Copy, Clone, PartialEq, Eq, Structural)]
pub enum SenseVoiceEvent {
    Bgm,
    Speech,
    Applause,
    Laughter,
    Cry,
    Sneeze,
    Breath,
    Cough,
    Unknown,
}

/// Whether the transcript carries punctuation.
#[derive(Debug, Copy, Clone, PartialEq, Eq, Structural)]
pub enum SenseVoicePunctuationNormalization {
    /// With punctuation
    With,
    /// Without punctuation
    Woitn,
}

/// One recognized segment: its tags and its text.
#[derive(Debug)]
pub struct VoiceText {
    pub language: SenseVoiceLanguage,
    pub emotion: SenseVoiceEmo,
    pub event: SenseVoiceEvent,
    pub punctuation_normalization: SenseVoicePunctuationNormalization,
    pub content: String,
}

/// What `str::to_lowercase` returns for a string (full Unicode case mapping).
pub uninterp spec fn lowercase(s: Seq<char>) -> Seq<char>;

/// What `str::to_uppercase` returns for a string (full Unicode case mapping).
pub uninterp spec fn uppercase(s: Seq<char>) -> Seq<char>;

/// `str::to_lowercase`. The contract names its result: the Unicode lower
/// case mapping of the argument, which depends on nothing else.
#[verifier::external_body]
fn str_to_lowercase(s: &str) -> (r: String)
    ensures
        r@ == lowercase(s@),
{
    s.to_lowercase()
}

/// `str::to_uppercase`. The contract names its result: the Unicode upper
/// case mapping of the argument, which depends on nothing else.
#[verifier::external_body]
fn str_to_uppercase(s: &str) -> (r: String)
    ensures
        r@ == uppercase(s@),
{
    s.to_uppercase()
}

/// The language whose tag is `l` (already lower-cased).
pub open spec fn language_of(l: Seq<char>) -> Option<SenseVoiceLanguage> {
    if l == "en"@ {
        Some(SenseVoiceLanguage::En)
    } else if l == "zh"@ {
        Some(SenseVoiceLanguage::Zh)
    } else if l == "yue"@ {
        Some(SenseVoiceLanguage::Yue)
    } else if l == "ja"@ {
        Some(SenseVoiceLanguage::Ja)
    } else if l == "ko"@ {
        Some(SenseVoiceLanguage::Ko)
    } else if l == "nospeech"@ {
        Some(SenseVoiceLanguage::NoSpeech)
    } else {
        None
    }
}

/// The emotion whose tag is `u` (already upper-cased).
pub open spec fn emotion_of(u: Seq<char>) -> Option<SenseVoiceEmo> {
    if u == "HAPPY"@ {
        Some(SenseVoiceEmo::Happy)
    } else if u == "SAD"@ {
        Some(SenseVoiceEmo::Sad)
    } else if u == "ANGRY"@ {
        Some(SenseVoiceEmo::Angry)
    } else if u == "NEUTRAL"@ {
        Some(SenseVoiceEmo::Neutral)
    } else if u == "FEARFUL"@ {
        Some(SenseVoiceEmo::Fearful)
    } else if u == "DISGUSTED"@ {
        Some(SenseVoiceEmo::Disgusted)
    } else if u == "SURPRISED"@ {
        Some(SenseVoiceEmo::Surprised)
    } else if u == "EMO_UNKNOWN"@ {
        Some(SenseVoiceEmo::Unknown)
    } else {
        None
    }
}

/// The event whose tag is `u` (already upper-cased).
pub open spec fn event_of(u: Seq<char>) -> Option<SenseVoiceEvent> {
    if u == "BGM"@ {
        Some(SenseVoiceEvent::Bgm)
    } else if u == "SPEECH"@ {
        Some(SenseVoiceEvent::Speech)
    } else if u == "APPLAUSE"@ {
        Some(SenseVoiceEvent::Applause)
    } else if u == "LAUGHTER"@ {
        Some(SenseVoiceEvent::Laughter)
    } else if u == "CRY"@ {
        Some(SenseVoiceEvent::Cry)
    } else if u == "SNEEZE"@ {
        Some(SenseVoiceEvent::Sneeze)
    } else if u == "BREATH"@ {
        Some(SenseVoiceEvent::Breath)
    } else if u == "COUGH"@ {
        Some(SenseVoiceEvent::Cough)
    } else if u == "EVENT_UNK"@ {
        Some(SenseVoiceEvent::Unknown)
    } else {
        None
    }
}

/// The punctuation mode whose tag is `l` (already lower-cased).
pub open spec fn punctuation_of(l: Seq<char>) -> Option<SenseVoicePunctuationNormalization> {
    if l == "with"@ {
        Some(SenseVoicePunctuationNormalization::With)
    } else if l == "woitn"@ {
        Some(SenseVoicePunctuationNormalization::Woitn)
    } else {
        None
    }
}

impl SenseVoiceLanguage {
    /// The language of a tag, in any letter case.
    pub fn from_str(s: &str) -> (r: Option<Self>)
        ensures
            r == language_of(lowercase(s@)),
    {
        let l = chars_of(str_to_lowercase(s).as_str());
        if crate::text::chars_eq(&l, &chars_of("en")) {
            Some(SenseVoiceLanguage::En)
        } else if crate::text::chars_eq(&l, &chars_of("zh")) {
            Some(SenseVoiceLanguage::Zh)
        } else if crate::text::chars_eq(&l, &chars_of("yue")) {
            Some(SenseVoiceLanguage::Yue)
        } else if crate::text::chars_eq(&l, &chars_of("ja")) {
            Some(SenseVoiceLanguage::Ja)
        } else if crate::text::chars_eq(&l, &chars_of("ko")) {
            Some(SenseVoiceLanguage::Ko)
        } else if crate::text::chars_eq(&l, &chars_of("nospeech")) {
            Some(SenseVoiceLanguage::NoSpeech)
        } else {
            None
        }
    }
}

impl SenseVoiceEmo {
    /// The emotion of a tag, in any letter case.
    pub fn from_str(s: &str) -> (r: Option<Self>)
        ensures
            r == emotion_of(uppercase(s@)),
    {
        let u = chars_of(str_to_uppercase(s).as_str());
        if crate::text::chars_eq(&u, &chars_of("HAPPY")) {
            Some(SenseVoiceEmo::Happy)
        } else if crate::text::chars_eq(&u, &chars_of("SAD")) {
            Some(SenseVoiceEmo::Sad)
        } else if crate::text::chars_eq(&u, &chars_of("ANGRY")) {
            Some(SenseVoiceEmo::Angry)
        } else if crate::text::chars_eq(&u, &chars_of("NEUTRAL")) {
            Some(SenseVoiceEmo::Neutral)
        } else if crate::text::chars_eq(&u, &chars_of("FEARFUL")) {
            Some(SenseVoiceEmo::Fearful)
        } else if crate::text::chars_eq(&u, &chars_of("DISGUSTED")) {
            Some(SenseVoiceEmo::Disgusted)
        } else if crate::text::chars_eq(&u, &chars_of("SURPRISED")) {
            Some(SenseVoiceEmo::Surprised)
        } else if crate::text::chars_eq(&u, &chars_of("EMO_UNKNOWN")) {
            Some(SenseVoiceEmo::Unknown)
        } else {
            None
        }
    }
}

impl SenseVoiceEvent {
    /// The event of a tag, in any letter case.
    pub fn from_str(s: &str) -> (r: Option<Self>)
        ensures
            r == event_of(uppercase(s@)),
    {
        let u = chars_of(str_to_uppercase(s).as_str());
        if crate::text::chars_eq(&u, &chars_of("BGM")) {
            Some(SenseVoiceEvent::Bgm)
        } else if crate::text::chars_eq(&u, &chars_of("SPEECH")) {
            Some(SenseVoiceEvent::Speech)
        } else if crate::text::chars_eq(&u, &chars_of("APPLAUSE")) {
            Some(SenseVoiceEvent::Applause)
        } else if crate::text::chars_eq(&u, &chars_of("LAUGHTER")) {
            Some(SenseVoiceEvent::Laughter)
        } else if crate::text::chars_eq(&u, &chars_of("CRY")) {
            Some(SenseVoiceEvent::Cry)
        } else if crate::text::chars_eq(&u, &chars_of("SNEEZE")) {
            Some(SenseVoiceEvent::Sneeze)
        } else if crate::text::chars_eq(&u, &chars_of("BREATH")) {
            Some(SenseVoiceEvent::Breath)
        } else if crate::text::chars_eq(&u, &chars_of("COUGH")) {
            Some(SenseVoiceEvent::Cough)
        } else if crate::text::chars_eq(&u, &chars_of("EVENT_UNK")) {
            Some(SenseVoiceEvent::Unknown)
        } else {
            None
        }
    }
}

impl SenseVoicePunctuationNormalization {
    /// The punctuation mode of a tag, in any letter case.
    pub fn from_str(s: &str) -> (r: Option<Self>)
        ensures
            r == punctuation_of(lowercase(s@)),
    {
        let l = chars_of(str_to_lowercase(s).as_str());
        if crate::text::chars_eq(&l, &chars_of("with")) {
            Some(SenseVoicePunctuationNormalization::With)
        } else if crate::text::chars_eq(&l, &chars_of("woitn")) {
            Some(SenseVoicePunctuationNormalization::Woitn)
        } else {
            None
        }
    }
}

/// A segment's tags and text, as plain values.
pub open spec fn voice_view(
    t: VoiceText,
) -> (
    SenseVoiceLanguage,
    SenseVoiceEmo,
    SenseVoiceEvent,
    SenseVoicePunctuationNormalization,
    Seq<char>,
) {
    (t.language, t.emotion, t.event, t.punctuation_normalization, t.content@)
}

/// `<|`, which opens the first tag.
pub open spec fn tag_open() -> Seq<char> {
    seq!['<', '|']
}

/// `|><|`, between two tags.
pub open spec fn tag_sep() -> Seq<char> {
    seq!['|', '>', '<', '|']
}

/// `|>`, which closes the last tag.
pub open spec fn tag_close() -> Seq<char> {
    seq!['|', '>']
}

/// The five fields of a decoded line `<|lang|><|emotion|><|event|><|punct|>content`,
/// read as the pattern `^<\|(.*?)\|><\|(.*?)\|><\|(.*?)\|><\|(.*?)\|>(.*)$`
/// reads it: no field may hold a newline, so the line may hold none, and
/// each of the first four fields ends at the first separator that follows
/// its start.
pub open spec fn line_fields(line: Seq<char>) -> Option<
    (Seq<char>, Seq<char>, Seq<char>, Seq<char>, Seq<char>),
> {
    if find(line, seq!['\n']) is Some || !starts_with(line, tag_open()) {
        None
    } else {
        match find_from(line, tag_sep(), 2) {
            None => None,
            Some(a) => match find_from(line, tag_sep(), a + 4) {
                None => None,
                Some(b) => match find_from(line, tag_sep(), b + 4) {
                    None => None,
                    Some(c) => match find_from(line, tag_close(), c + 4) {
                        None => None,
                        Some(d) => Some(
                            (
                                line.subrange(2, a),
                                line.subrange(a + 4, b),
                                line.subrange(b + 4, c),
                                line.subrange(c + 4, d),
                                line.subrange(d + 2, line.len() as int),
                            ),
                        ),
                    },
                },
            },
        }
    }
}

/// What `parse_line` gives for a line: its fields when all four tags are
/// known (the language and punctuation tags in lower case, the emotion and
/// event tags in upper case).
pub open spec fn parse_line_spec(line: Seq<char>) -> Option<
    (
        SenseVoiceLanguage,
        SenseVoiceEmo,
        SenseVoiceEvent,
        SenseVoicePunctuationNormalization,
        Seq<char>,
    ),
> {
    match line_fields(line) {
        None => None,
        Some((l, m, v, p, content)) => match (
            language_of(lowercase(l)),
            emotion_of(uppercase(m)),
            event_of(uppercase(v)),
            punctuation_of(lowercase(p)),
        ) {
            (Some(lang), Some(emo), Some(ev), Some(punct)) => Some((lang, emo, ev, punct, content)),
            _ => None,
        },
    }
}

/// Parses a decoded line `<|lang|><|emotion|><|event|><|punct|>content`.
pub fn parse_line(line: &str) -> (r: Option<VoiceText>)
    ensures
        match r {
            Some(t) => parse_line_spec(line@) == Some(voice_view(t)),
            None => parse_line_spec(line@) is None,
        },
{
    let v = chars_of(line);
    let nl: Vec<char> = vec!['\n'];
    let open: Vec<char> = vec!['<', '|'];
    let sep: Vec<char> = vec!['|', '>', '<', '|'];
    let close: Vec<char> = vec!['|', '>'];
    assert(nl@ =~= seq!['\n']);
    assert(open@ =~= tag_open());
    assert(sep@ =~= tag_sep());
    assert(close@ =~= tag_close());
    if crate::text::find_chars(&v, &nl).is_some() || !crate::text::begins_with(&v, &open) {
        return None;
    }
    proof {
        lemma_find_from(v@, tag_sep(), 2);
    }
    let a = match find_chars_from(&v, &sep, 2) {
        None => { return None; },
        Some(a) => a,
    };
    proof {
        lemma_find_from(v@, tag_sep(), a + 4);
    }
    let b = match find_chars_from(&v, &sep, a + 4) {
        None => { return None; },
        Some(b) => b,
    };
    proof {
        lemma_find_from(v@, tag_sep(), b + 4);
    }
    let c = match find_chars_from(&v, &sep, b + 4) {
        None => { return None; },
        Some(c) => c,
    };
    proof {
        lemma_find_from(v@, tag_close(), c + 4);
    }
    let d = match find_chars_from(&v, &close, c + 4) {
        None => { return None; },
        Some(d) => d,
    };
    let lang_s = string_of(&slice_range(&v, 2, a));
    let emo_s = string_of(&slice_range(&v, a + 4, b));
    let event_s = string_of(&slice_range(&v, b + 4, c));
    let punct_s = string_of(&slice_range(&v, c + 4, d));
    let content = string_of(&slice_range(&v, d + 2, v.len()));
    let language = match SenseVoiceLanguage::from_str(lang_s.as_str()) {
        None => { return None; },
        Some(x) => x,
    };
    let emotion = match SenseVoiceEmo::from_str(emo_s.as_str()) {
        None => { return None; },
        Some(x) => x,
    };
    let event = match SenseVoiceEvent::from_str(event_s.as_str()) {
        None => { return None; },
        Some(x) => x,
    };
    let punctuation_normalization = match SenseVoicePunctuationNormalization::from_str(
        punct_s.as_str(),
    ) {
        None => { return None; },
        Some(x) => x,
    };
    Some(VoiceText { language, emotion, event, punctuation_normalization, content })
}

/// A parsed line is the tags and the content put back together.
pub proof fn law_parse_line_reassembles(line: Seq<char>)
    ensures
        line_fields(line) matches Some((l, m, v, p, content)) ==> line == tag_open() + l + tag_sep()
            + m + tag_sep() + v + tag_sep() + p + tag_close() + content,
{
    if let Some((l, m, v, p, content)) = line_fields(line) {
        let a = find_from(line, tag_sep(), 2)->0;
        lemma_find_from(line, tag_sep(), 2);
        let b = find_from(line, tag_sep(), a + 4)->0;
        lemma_find_from(line, tag_sep(), a + 4);
        let c = find_from(line, tag_sep(), b + 4)->0;
        lemma_find_from(line, tag_sep(), b + 4);
        let d = find_from(line, tag_close(), c + 4)->0;
        lemma_find_from(line, tag_close(), c + 4);
        assert(line =~= tag_open() + l + tag_sep() + m + tag_sep() + v + tag_sep() + p + tag_close()
            + content);
    }
}

/// An error of the recognizer, with its message.
#[derive(Debug)]
pub struct SenseVoiceSmallError {
    message: String,
}

impl View for SenseVoiceSmallError {
    type V = Seq<char>;

    /// The message.
    closed spec fn view(&self) -> Seq<char> {
        self.message@
    }
}

impl SenseVoiceSmallError {
    /// An error with the given message.
    pub fn new(message: &str) -> (e: Self)
        ensures
            e@ == message@,
    {
        SenseVoiceSmallError { message: String::from_str(message) }
    }

    /// The message.
    pub fn message(&self) -> (m: &str)
        ensures
            m@ == self@,
    {
        self.message.as_str()
    }

    /// The text the error displays: `SenseVoiceSmallError: <message>`.
    pub fn describe(&self) -> (d: String)
        ensures
            d@ == "SenseVoiceSmallError: "@ + self@,
    {
        let mut d = String::from_str("SenseVoiceSmallError: ");
        d.append(self.message.as_str());
        d
    }
}

impl VoiceText {
    /// The segment reported for a stretch of silence: no speech, unknown
    /// emotion and event, no punctuation, no text.
    pub fn no_speech() -> (t: Self)
        ensures
            t.language == SenseVoiceLanguage::NoSpeech,
            t.emotion == SenseVoiceEmo::Unknown,
            t.event == SenseVoiceEvent::Unknown,
            t.punctuation_normalization == SenseVoicePunctuationNormalization::Woitn,
            t.content@ == Seq::<char>::empty(),
    {
        VoiceText {
            language: SenseVoiceLanguage::NoSpeech,
            emotion: SenseVoiceEmo::Unknown,
            event: SenseVoiceEvent::Unknown,
            punctuation_normalization: SenseVoicePunctuationNormalization::Woitn,
            content: String::new(),
        }
    }
}

/// Why a recording cannot be transcribed, as `infer_file` reports it: a
/// sample rate other than 8 or 16 kHz, samples that are not integers, or
/// no samples.
pub open spec fn wav_input_error(sample_rate: u32, int_samples: bool, n_samples: nat) -> Option<
    Seq<char>,
> {
    if sample_rate != 8000 && sample_rate != 16000 {
        Some("Unsupported sample rate. Expect 8 kHz or 16 kHz."@)
    } else if !int_samples {
        Some("Unsupported sample format. Expect Int."@)
    } else if n_samples == 0 {
        Some("content is empty, check your audio file"@)
    } else {
        None
    }
}

/// Checks a recording read from a WAV file before it is transcribed: its
/// sample rate, its sample format and that it holds samples.
pub fn check_wav_input(sample_rate: u32, int_samples: bool, n_samples: usize) -> (r: Result<
    (),
    SenseVoiceSmallError,
>)
    ensures
        match wav_input_error(sample_rate, int_samples, n_samples as nat) {
            None => r is Ok,
            Some(m) => r matches Err(e) && e@ == m,
        },
{
    if sample_rate != 8000 && sample_rate != 16000 {
        Err(SenseVoiceSmallError::new("Unsupported sample rate. Expect 8 kHz or 16 kHz."))
    } else if !int_samples {
        Err(SenseVoiceSmallError::new("Unsupported sample format. Expect Int."))
    } else if n_samples == 0 {
        Err(SenseVoiceSmallError::new("content is empty, check your audio file"))
    } else {
        Ok(())
    }
}

/// Whether a file extension names an official `.pt` model: `pt` in any
/// letter case.
pub open spec fn is_pt_extension(ext: Option<Seq<char>>) -> bool {
    match ext {
        Some(e) => e.len() == 2 && (e[0] == 'p' || e[0] == 'P') && (e[1] == 't' || e[1] == 'T'),
        None => false,
    }
}

/// Checks that the recognizer's model file is an official `.pt` model,
/// given the file's extension (none when it has none or it is not UTF-8).
pub fn check_model_extension(ext: Option<&str>) -> (r: Result<(), SenseVoiceSmallError>)
    ensures
        is_pt_extension(match ext {
            Some(e) => Some(e@),
            None => None,
        }) ==> r is Ok,
        !is_pt_extension(match ext {
            Some(e) => Some(e@),
            None => None,
        }) ==> (r matches Err(e) && e@ == "Candle ASR now only supports official .pt model paths."@),
{
    let ok = match ext {
        Some(e) => {
            let v = chars_of(e);
            v.len() == 2 && (v[0] == 'p' || v[0] == 'P') && (v[1] == 't' || v[1] == 'T')
        },
        None => false,
    };
    if ok {
        Ok(())
    } else {
        Err(SenseVoiceSmallError::new("Candle ASR now only supports official .pt model paths."))
    }
}

/// Reads the recognizer's decoded text as a tagged segment; the error
/// names the text when it does not parse.
pub fn recognize_line(asr_text: &str) -> (r: Result<VoiceText, SenseVoiceSmallError>)
    ensures
        match r {
            Ok(t) => parse_line_spec(asr_text@) == Some(voice_view(t)),
            Err(e) => parse_line_spec(asr_text@) is None && e@ == "Parse line failed, text is:"@
                + asr_text@,
        },
{
    match parse_line(asr_text) {
        Some(t) => Ok(t),
        None => {
            let mut m = String::from_str("Parse line failed, text is:");
            m.append(asr_text);
            Err(SenseVoiceSmallError { message: m })
        },
    }
}

/// Whether the greedy CTC decoding keeps the `i`-th frame's token: it is
/// not the blank (0) and differs from the previous frame's token.
pub open spec fn ctc_keeps(ids: Seq<i32>, i: int) -> bool {
    ids[i] != 0 && (i == 0 || ids[i] != ids[i - 1])
}

/// The token ids that the greedy CTC decoding keeps, in order.
pub open spec fn ctc_collapse_spec(ids: Seq<i32>) -> Seq<u32>
    decreases ids.len(),
{
    if ids.len() == 0 {
        Seq::empty()
    } else {
        let rest = ctc_collapse_spec(ids.drop_last());
        if ctc_keeps(ids, ids.len() - 1) {
            rest.push(ids.last() as u32)
        } else {
            rest
        }
    }
}

/// Collapses per-frame token ids: drops repeats of the previous frame's
/// token and the blank token 0.
pub fn ctc_collapse(token_ids: &[i32]) -> (r: Vec<u32>)
    ensures
        r@ == ctc_collapse_spec(token_ids@),
{
    let mut unique_ids: Vec<u32> = Vec::new();
    let mut prev_id: Option<i32> = None;
    let mut i: usize = 0;
    while i < token_ids.len()
        invariant
            i <= token_ids.len(),
            unique_ids@ == ctc_collapse_spec(token_ids@.take(i as int)),
            prev_id == (if i == 0 {
                None
            } else {
                Some(token_ids@[i - 1])
            }),
        decreases token_ids.len() - i,
    {
        let id = token_ids[i];
        assert(token_ids@.take(i + 1).drop_last() =~= token_ids@.take(i as int));
        assert(ctc_keeps(token_ids@.take(i + 1), i as int) == ctc_keeps(token_ids@, i as int));
        if Some(id) != prev_id && id != 0 {
            unique_ids.push(id as u32);
            prev_id = Some(id);
        } else if Some(id) != prev_id {
            prev_id = Some(id);
        }
        i = i + 1;
    }
    assert(token_ids@.take(token_ids.len() as int) =~= token_ids@);
    unique_ids
}

/// The arrangement of the network's output tensor `[batch, d1, d2]`.
#[derive(Debug, Copy, Clone, PartialEq, Eq, Structural)]
pub enum OutputLayout {
    /// `[1, vocab, frames]`: one column of scores per frame.
    VocabThenFrames { frames: usize },
    /// `[1, frames, vocab]`: one row of scores per frame.
    FramesThenVocab { frames: usize },
}

/// Why the network's output cannot be decoded.
#[derive(Debug, Copy, Clone, PartialEq, Eq, Structural)]
pub enum OutputShapeError {
    /// The batch dimension is not 1.
    BatchNotOne,
    /// The shape does not describe the number of scores given.
    ShapeMismatch,
    /// Neither inner dimension is the vocabulary size.
    NoVocabDimension,
}

/// The layout of an output of shape `[s0, s1, s2]` with `len` scores, for a
/// vocabulary of `n_vocab` tokens (each dimension read as `i64 as usize`).
pub open spec fn output_layout_spec(shape: Seq<i64>, len: int, n_vocab: int) -> Result<
    OutputLayout,
    OutputShapeError,
> {
    let d0 = shape[0] as usize;
    let d1 = shape[1] as usize;
    let d2 = shape[2] as usize;
    if d0 != 1 {
        Err(OutputShapeError::BatchNotOne)
    } else if d1 * d2 != len {
        Err(OutputShapeError::ShapeMismatch)
    } else if d1 == n_vocab {
        Ok(OutputLayout::VocabThenFrames { frames: d2 })
    } else if d2 == n_vocab {
        Ok(OutputLayout::FramesThenVocab { frames: d1 })
    } else {
        Err(OutputShapeError::NoVocabDimension)
    }
}

/// Decides how to read the network's output: checks that the batch is 1,
/// that the shape accounts for exactly the scores given, and which inner
/// dimension is the vocabulary.
pub fn output_layout(shape: &[i64], len: usize, n_vocab: usize) -> (r: Result<
    OutputLayout,
    OutputShapeError,
>)
    requires
        shape.len() >= 3,
    ensures
        r == output_layout_spec(shape@, len as int, n_vocab as int),
{
    let d0 = shape[0] as usize;
    let d1 = shape[1] as usize;
    let d2 = shape[2] as usize;
    if d0 != 1 {
        return Err(OutputShapeError::BatchNotOne);
    }
    match d1.checked_mul(d2) {
        None => {
            return Err(OutputShapeError::ShapeMismatch);
        },
        Some(total) => {
            if total != len {
                return Err(OutputShapeError::ShapeMismatch);
            }
        },
    }
    if d1 == n_vocab {
        Ok(OutputLayout::VocabThenFrames { frames: d2 })
    } else if d2 == n_vocab {
        Ok(OutputLayout::FramesThenVocab { frames: d1 })
    } else {
        Err(OutputShapeError::NoVocabDimension)
    }
}

/// The number of samples the VAD reads at a time.
pub const CHUNK_SIZE: usize = 512;

/// The number of zero samples that bring `n` samples to whole chunks.
pub open spec fn padding_for(n: int) -> int {
    if n % (CHUNK_SIZE as int) == 0 {
        0
    } else {
        CHUNK_SIZE - n % (CHUNK_SIZE as int)
    }
}

/// The samples followed by the zeros that bring them to whole chunks.
pub fn pad_to_chunks(content: &[i16]) -> (r: Vec<i16>)
    requires
        content.len() + CHUNK_SIZE <= usize::MAX,
    ensures
        r@ == content@ + Seq::new(padding_for(content.len() as int) as nat, |i: int| 0i16),
        r.len() % CHUNK_SIZE == 0,
{
    let mut r: Vec<i16> = Vec::new();
    let mut i: usize = 0;
    while i < content.len()
        invariant
            i <= content.len(),
            r@ == content@.take(i as int),
        decreases content.len() - i,
    {
        r.push(content[i]);
        i = i + 1;
        assert(r@ =~= content@.take(i as int));
    }
    assert(content@.take(content.len() as int) =~= content@);
    let remainder = content.len() % CHUNK_SIZE;
    let pad = if remainder != 0 {
        CHUNK_SIZE - remainder
    } else {
        0
    };
    let mut j: usize = 0;
    while j < pad
        invariant
            j <= pad,
            pad == padding_for(content.len() as int),
            r@ == content@ + Seq::new(j as nat, |k: int| 0i16),
        decreases pad - j,
    {
        r.push(0);
        j = j + 1;
        assert(r@ =~= content@ + Seq::new(j as nat, |k: int| 0i16));
    }
    r
}

/// The texts of all segments, one after the other.
pub open spec fn joined_contents(segments: Seq<VoiceText>) -> Seq<char>
    decreases segments.len(),
{
    if segments.len() == 0 {
        Seq::empty()
    } else {
        joined_contents(segments.drop_last()) + segments.last().content@
    }
}

/// The transcript of a recording: the segments' texts joined, or nothing
/// when they are all empty.
pub fn transcript_of(segments: &[VoiceText]) -> (r: Option<String>)
    ensures
        match r {
            Some(t) => t@ == joined_contents(segments@) && t@.len() > 0,
            None => joined_contents(segments@).len() == 0,
        },
{
    let mut text = String::new();
    let mut i: usize = 0;
    while i < segments.len()
        invariant
            i <= segments.len(),
            text@ == joined_contents(segments@.take(i as int)),
        decreases segments.len() - i,
    {
        text.append(segments[i].content.as_str());
        assert(segments@.take(i + 1).drop_last() =~= segments@.take(i as int));
        i = i + 1;
    }
    assert(segments@.take(segments.len() as int) =~= segments@);
    if text.as_str().is_empty() {
        None
    } else {
        Some(text)
    }
}

/// Each language tag reads back as its own language, and no two tags name
/// the same language.
pub proof fn law_language_tags_distinct(a: Seq<char>, b: Seq<char>)
    ensures
        language_of("en"@) == Some(SenseVoiceLanguage::En),
        language_of("zh"@) == Some(SenseVoiceLanguage::Zh),
        language_of("yue"@) == Some(SenseVoiceLanguage::Yue),
        language_of("ja"@) == Some(SenseVoiceLanguage::Ja),
        language_of("ko"@) == Some(SenseVoiceLanguage::Ko),
        language_of("nospeech"@) == Some(SenseVoiceLanguage::NoSpeech),
        language_of(a) is Some && language_of(a) == language_of(b) ==> a == b,
{
    reveal_strlit("en");
    reveal_strlit("zh");
    reveal_strlit("yue");
    reveal_strlit("ja");
    reveal_strlit("ko");
    reveal_strlit("nospeech");
    assert("en"@[0] == 'e' && "zh"@[0] == 'z' && "yue"@[0] == 'y' && "ja"@[0] == 'j'
        && "ko"@[0] == 'k' && "nospeech"@[0] == 'n');
}

/// Each emotion tag reads back as its own emotion, and no two tags name the
/// same emotion.
pub proof fn law_emotion_tags_distinct(a: Seq<char>, b: Seq<char>)
    ensures
        emotion_of("HAPPY"@) == Some(SenseVoiceEmo::Happy),
        emotion_of("SAD"@) == Some(SenseVoiceEmo::Sad),
        emotion_of("ANGRY"@) == Some(SenseVoiceEmo::Angry),
        emotion_of("NEUTRAL"@) == Some(SenseVoiceEmo::Neutral),
        emotion_of("FEARFUL"@) == Some(SenseVoiceEmo::Fearful),
        emotion_of("DISGUSTED"@) == Some(SenseVoiceEmo::Disgusted),
        emotion_of("SURPRISED"@) == Some(SenseVoiceEmo::Surprised),
        emotion_of("EMO_UNKNOWN"@) == Some(SenseVoiceEmo::Unknown),
        emotion_of(a) is Some && emotion_of(a) == emotion_of(b) ==> a == b,
{
    reveal_strlit("HAPPY");
    reveal_strlit("SAD");
    reveal_strlit("ANGRY");
    reveal_strlit("NEUTRAL");
    reveal_strlit("FEARFUL");
    reveal_strlit("DISGUSTED");
    reveal_strlit("SURPRISED");
    reveal_strlit("EMO_UNKNOWN");
    assert("HAPPY"@[0] == 'H' && "HAPPY"@[1] == 'A' && "SAD"@[0] == 'S' && "SAD"@[1] == 'A' && "ANGRY"@[0] == 'A' && "ANGRY"@[1] == 'N' && "NEUTRAL"@[0] == 'N' && "NEUTRAL"@[1] == 'E' && "FEARFUL"@[0] == 'F' && "FEARFUL"@[1] == 'E' && "DISGUSTED"@[0] == 'D' && "DISGUSTED"@[1] == 'I' && "SURPRISED"@[0] == 'S' && "SURPRISED"@[1] == 'U' && "EMO_UNKNOWN"@[0] == 'E' && "EMO_UNKNOWN"@[1] == 'M');
}

/// Each event tag reads back as its own event, and no two tags name the
/// same event.
pub proof fn law_event_tags_distinct(a: Seq<char>, b: Seq<char>)
    ensures
        event_of("BGM"@) == Some(SenseVoiceEvent::Bgm),
        event_of("SPEECH"@) == Some(SenseVoiceEvent::Speech),
        event_of("APPLAUSE"@) == Some(SenseVoiceEvent::Applause),
        event_of("LAUGHTER"@) == Some(SenseVoiceEvent::Laughter),
        event_of("CRY"@) == Some(SenseVoiceEvent::Cry),
        event_of("SNEEZE"@) == Some(SenseVoiceEvent::Sneeze),
        event_of("BREATH"@) == Some(SenseVoiceEvent::Breath),
        event_of("COUGH"@) == Some(SenseVoiceEvent::Cough),
        event_of("EVENT_UNK"@) == Some(SenseVoiceEvent::Unknown),
        event_of(a) is Some && event_of(a) == event_of(b) ==> a == b,
{
    reveal_strlit("BGM");
    reveal_strlit("SPEECH");
    reveal_strlit("APPLAUSE");
    reveal_strlit("LAUGHTER");
    reveal_strlit("CRY");
    reveal_strlit("SNEEZE");
    reveal_strlit("BREATH");
    reveal_strlit("COUGH");
    reveal_strlit("EVENT_UNK");
    assert("BGM"@[0] == 'B' && "BGM"@[1] == 'G' && "SPEECH"@[0] == 'S' && "SPEECH"@[1] == 'P' && "APPLAUSE"@[0] == 'A' && "APPLAUSE"@[1] == 'P' && "LAUGHTER"@[0] == 'L' && "LAUGHTER"@[1] == 'A' && "CRY"@[0] == 'C' && "CRY"@[1] == 'R' && "SNEEZE"@[0] == 'S' && "SNEEZE"@[1] == 'N' && "BREATH"@[0] == 'B' && "BREATH"@[1] == 'R' && "COUGH"@[0] == 'C' && "COUGH"@[1] == 'O' && "EVENT_UNK"@[0] == 'E' && "EVENT_UNK"@[1] == 'V');
}

/// Each punctuation tag reads back as its own mode, and the two tags name
/// different modes.
pub proof fn law_punctuation_tags_distinct(a: Seq<char>, b: Seq<char>)
    ensures
        punctuation_of("with"@) == Some(SenseVoicePunctuationNormalization::With),
        punctuation_of("woitn"@) == Some(SenseVoicePunctuationNormalization::Woitn),
        punctuation_of(a) is Some && punctuation_of(a) == punctuation_of(b) ==> a == b,
{
    reveal_strlit("with");
    reveal_strlit("woitn");
    assert("with"@[0] == 'w' && "with"@[1] == 'i' && "woitn"@[0] == 'w' && "woitn"@[1] == 'o');
}

} // verus!
