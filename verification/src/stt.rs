//! The decisions of the speech-to-text providers: buffering audio under a
//! size limit, framing it as a WAV file, the request text of the Qwen
//! provider and the clean-up of its reply, and the WebSocket protocol of the
//! cloud provider.
use vstd::prelude::*;
use vstd::string::StringExecFns;
use base64::Engine;
use crate::text::{
    chars_of, find, find_chars_from, find_from, lemma_find_from, slice_range, starts_with,
    string_of, strip_repeated, strip_repeated_exec, trim, trim_chars,
};

use crate::llm::{json_message_content, parse_message_content, prefix_before, string_view, truncate_error_body};

verus! {

/// The most audio a provider buffers: 24 MiB of 16-bit PCM, about 12.5
/// minutes at 16 kHz mono.
pub const MAX_AUDIO_BYTES: usize = 24 * 1024 * 1024;

/// The settings a provider is connected with.
#[derive(Debug)]
pub struct SttConfig {
    /// The API key (or session token) of the service.
    pub api_key: String,
    /// Samples per second of the PCM audio.
    pub sample_rate: u32,
}

impl SttConfig {
    /// A copy with the same key and rate.
    pub fn copy(&self) -> (r: Self)
        ensures
            r.api_key@ == self.api_key@,
            r.sample_rate == self.sample_rate,
    {
        SttConfig { api_key: self.api_key.clone(), sample_rate: self.sample_rate }
    }
}

/// Why a provider refused a request.
#[derive(Debug, Copy, Clone, PartialEq, Eq, Structural)]
pub enum SttError {
    /// The local provider's buffer would exceed its limit.
    LocalAudioTooLong,
    /// The Qwen provider's buffer would exceed its limit.
    QwenAudioTooLong,
    /// The Qwen provider was connected without an API key.
    QwenMissingKey,
    /// The cloud provider was connected without a session token.
    CloudMissingToken,
    /// One chunk for the cloud provider is larger than the limit.
    CloudChunkTooLarge,
}

impl SttError {
    /// The message shown for the error.
    pub fn message(&self) -> (m: &'static str)
        ensures
            m@ == stt_error_message(*self),
    {
        match self {
            SttError::LocalAudioTooLong => "LocalSenseVoice: audio exceeds maximum length (~12 min)",
            SttError::QwenAudioTooLong => "Qwen3-ASR-Flash: audio exceeds maximum length (~12 min)",
            SttError::QwenMissingKey => "Qwen3-ASR-Flash API key is empty",
            SttError::CloudMissingToken => "Cloud STT: session token is missing. Please sign in first.",
            SttError::CloudChunkTooLarge => "Cloud STT: single chunk exceeds maximum size",
        }
    }
}

/// The message of each error.
pub open spec fn stt_error_message(e: SttError) -> Seq<char> {
    match e {
        SttError::LocalAudioTooLong => "LocalSenseVoice: audio exceeds maximum length (~12 min)"@,
        SttError::QwenAudioTooLong => "Qwen3-ASR-Flash: audio exceeds maximum length (~12 min)"@,
        SttError::QwenMissingKey => "Qwen3-ASR-Flash API key is empty"@,
        SttError::CloudMissingToken => "Cloud STT: session token is missing. Please sign in first."@,
        SttError::CloudChunkTooLarge => "Cloud STT: single chunk exceeds maximum size"@,
    }
}

/// The buffer after a chunk is offered: the chunk is appended unless the
/// buffer would grow past `MAX_AUDIO_BYTES`.
pub open spec fn append_limited(buffer: Seq<u8>, chunk: Seq<u8>) -> Seq<u8> {
    if buffer.len() + chunk.len() <= MAX_AUDIO_BYTES {
        buffer + chunk
    } else {
        buffer
    }
}

/// A buffer within the limit stays within it, whatever is offered; what it
/// held stays at its start.
pub proof fn law_buffer_within_limit(buffer: Seq<u8>, chunk: Seq<u8>)
    requires
        buffer.len() <= MAX_AUDIO_BYTES,
    ensures
        append_limited(buffer, chunk).len() <= MAX_AUDIO_BYTES,
        append_limited(buffer, chunk).take(buffer.len() as int) == buffer,
{
    assert(append_limited(buffer, chunk).take(buffer.len() as int) =~= buffer);
}

/// Appends `chunk` to `buffer` unless the result would be longer than
/// `MAX_AUDIO_BYTES`; tells whether it did.
pub fn append_audio(buffer: &mut Vec<u8>, chunk: &[u8]) -> (ok: bool)
    ensures
        ok == (old(buffer)@.len() + chunk@.len() <= MAX_AUDIO_BYTES),
        final(buffer)@ == append_limited(old(buffer)@, chunk@),
{
    if chunk.len() > MAX_AUDIO_BYTES || buffer.len() > MAX_AUDIO_BYTES - chunk.len() {
        return false;
    }
    let mut i: usize = 0;
    let ghost start = buffer@;
    while i < chunk.len()
        invariant
            i <= chunk.len(),
            buffer@ == start + chunk@.take(i as int),
        decreases chunk.len() - i,
    {
        buffer.push(chunk[i]);
        i = i + 1;
        assert(buffer@ =~= start + chunk@.take(i as int));
    }
    assert(chunk@.take(chunk.len() as int) =~= chunk@);
    true
}

/// The four bytes of `v` (taken modulo 2^32), least significant first.
pub open spec fn le32(v: int) -> Seq<u8> {
    let w = v % 0x1_0000_0000;
    seq![
        (w % 256) as u8,
        ((w / 256) % 256) as u8,
        ((w / 65536) % 256) as u8,
        ((w / 16777216) % 256) as u8,
    ]
}

/// The two bytes of `v`, least significant first.
pub open spec fn le16(v: int) -> Seq<u8> {
    seq![(v % 256) as u8, ((v / 256) % 256) as u8]
}

/// The bytes of a four-letter chunk name.
pub open spec fn tag4(a: u8, b: u8, c: u8, d: u8) -> Seq<u8> {
    seq![a, b, c, d]
}

/// A WAV file holding 16-bit mono PCM: the 44-byte RIFF header (sizes
/// taken modulo 2^32), then the samples.
pub open spec fn wav_spec(pcm: Seq<u8>, sample_rate: u32) -> Seq<u8> {
    tag4(0x52, 0x49, 0x46, 0x46) + le32(36 + pcm.len() as int) + tag4(0x57, 0x41, 0x56, 0x45) + tag4(
        0x66,
        0x6d,
        0x74,
        0x20,
    ) + le32(16) + le16(1) + le16(1) + le32(sample_rate as int) + le32(sample_rate * 2) + le16(
        2,
    ) + le16(16) + tag4(0x64, 0x61, 0x74, 0x61) + le32(pcm.len() as int) + pcm
}

fn push_le32(out: &mut Vec<u8>, v: u64)
    ensures
        final(out)@ == old(out)@ + le32(v as int),
{
    let w = v % 0x1_0000_0000;
    out.push((w % 256) as u8);
    out.push(((w / 256) % 256) as u8);
    out.push(((w / 65536) % 256) as u8);
    out.push(((w / 16777216) % 256) as u8);
    assert(final(out)@ =~= old(out)@ + le32(v as int));
}

fn push_le16(out: &mut Vec<u8>, v: u16)
    ensures
        final(out)@ == old(out)@ + le16(v as int),
{
    out.push((v % 256) as u8);
    out.push(((v / 256) % 256) as u8);
    assert(final(out)@ =~= old(out)@ + le16(v as int));
}

fn push_tag(out: &mut Vec<u8>, a: u8, b: u8, c: u8, d: u8)
    ensures
        final(out)@ == old(out)@ + tag4(a, b, c, d),
{
    out.push(a);
    out.push(b);
    out.push(c);
    out.push(d);
    assert(final(out)@ =~= old(out)@ + tag4(a, b, c, d));
}

/// Frames 16-bit mono PCM as a WAV file.
pub fn build_wav(pcm: &[u8], sample_rate: u32) -> (wav: Vec<u8>)
    ensures
        wav@ == wav_spec(pcm@, sample_rate),
{
    let n = pcm.len() as u64;
    let mut out: Vec<u8> = Vec::new();
    push_tag(&mut out, 0x52, 0x49, 0x46, 0x46);
    let riff_size: u64 = if n <= u64::MAX - 36 {
        n + 36
    } else {
        (n - (0x1_0000_0000 - 36)) % 0x1_0000_0000
    };
    assert(riff_size % 0x1_0000_0000 == (36 + pcm@.len() as int) % 0x1_0000_0000);
    push_le32(&mut out, riff_size);
    push_tag(&mut out, 0x57, 0x41, 0x56, 0x45);
    push_tag(&mut out, 0x66, 0x6d, 0x74, 0x20);
    push_le32(&mut out, 16);
    push_le16(&mut out, 1);
    push_le16(&mut out, 1);
    push_le32(&mut out, sample_rate as u64);
    push_le32(&mut out, sample_rate as u64 * 2);
    push_le16(&mut out, 2);
    push_le16(&mut out, 16);
    push_tag(&mut out, 0x64, 0x61, 0x74, 0x61);
    push_le32(&mut out, n);
    let ghost head = out@;
    let mut i: usize = 0;
    while i < pcm.len()
        invariant
            i <= pcm.len(),
            out@ == head + pcm@.take(i as int),
        decreases pcm.len() - i,
    {
        out.push(pcm[i]);
        i = i + 1;
        assert(out@ =~= head + pcm@.take(i as int));
    }
    assert(pcm@.take(pcm.len() as int) =~= pcm@);
    assert(out@ =~= wav_spec(pcm@, sample_rate));
    out
}

/// A WAV file holds its samples whole after the 44-byte header.
pub proof fn law_wav_holds_samples(pcm: Seq<u8>, sample_rate: u32)
    ensures
        wav_spec(pcm, sample_rate).len() == 44 + pcm.len(),
        wav_spec(pcm, sample_rate).skip(44) == pcm,
{
    assert(wav_spec(pcm, sample_rate).skip(44) =~= pcm);
}

/// The local SenseVoice provider's state: the settings it was connected
/// with and the audio buffered since.
pub struct LocalSenseVoiceProvider {
    stt_config: Option<SttConfig>,
    audio_buffer: Vec<u8>,
    sample_rate: u32,
}

/// A provider's state as plain values: whether it is connected, the
/// buffered audio and the sample rate.
pub struct ProviderModel {
    pub connected: bool,
    pub audio: Seq<u8>,
    pub sample_rate: u32,
}

impl View for LocalSenseVoiceProvider {
    type V = ProviderModel;

    closed spec fn view(&self) -> ProviderModel {
        ProviderModel {
            connected: self.stt_config is Some,
            audio: self.audio_buffer@,
            sample_rate: self.sample_rate,
        }
    }
}

impl LocalSenseVoiceProvider {
    /// Not connected, nothing buffered, 16 kHz.
    pub fn new() -> (p: Self)
        ensures
            p@ == (ProviderModel { connected: false, audio: Seq::empty(), sample_rate: 16000 }),
    {
        LocalSenseVoiceProvider { stt_config: None, audio_buffer: Vec::new(), sample_rate: 16000 }
    }

    /// Connects: keeps the settings and their sample rate and empties the
    /// buffer.
    pub fn connect(&mut self, config: &SttConfig)
        ensures
            final(self)@ == (ProviderModel {
                connected: true,
                audio: Seq::empty(),
                sample_rate: config.sample_rate,
            }),
    {
        self.stt_config = Some(config.copy());
        self.sample_rate = config.sample_rate;
        self.audio_buffer = Vec::new();
    }

    /// Buffers a chunk of audio, refusing it if the buffer would exceed
    /// the limit.
    pub fn send_audio(&mut self, chunk: &[u8]) -> (r: Result<(), SttError>)
        ensures
            old(self)@.audio.len() + chunk@.len() <= MAX_AUDIO_BYTES ==> r is Ok && final(self)@
                == (ProviderModel { audio: old(self)@.audio + chunk@, ..old(self)@ }),
            old(self)@.audio.len() + chunk@.len() > MAX_AUDIO_BYTES ==> r == Err::<(), SttError>(
                SttError::LocalAudioTooLong,
            ) && final(self)@ == old(self)@,
            final(self)@.audio == append_limited(old(self)@.audio, chunk@),
    {
        if append_audio(&mut self.audio_buffer, chunk) {
            Ok(())
        } else {
            Err(SttError::LocalAudioTooLong)
        }
    }

    /// Ends the recording: when connected and audio was buffered, hands it
    /// back framed as WAV and empties the buffer; otherwise nothing.
    pub fn take_recording(&mut self) -> (r: Option<Vec<u8>>)
        ensures
            !old(self)@.connected || old(self)@.audio.len() == 0 ==> r is None && final(self)@
                == old(self)@,
            old(self)@.connected && old(self)@.audio.len() > 0 ==> (r matches Some(w) && w@
                == wav_spec(old(self)@.audio, old(self)@.sample_rate) && final(self)@ == (
            ProviderModel { audio: Seq::empty(), ..old(self)@ })),
    {
        if self.stt_config.is_none() || self.audio_buffer.len() == 0 {
            return None;
        }
        let wav = build_wav(&self.audio_buffer, self.sample_rate);
        self.audio_buffer = Vec::new();
        Some(wav)
    }
}

/// The Qwen ASR provider's state: the settings it was connected with and
/// the audio buffered since.
pub struct QwenAsrSession {
    stt_config: Option<SttConfig>,
    audio_buffer: Vec<u8>,
}

/// The Qwen session as plain values: the key and rate it was connected
/// with, if any, and the buffered audio.
pub struct QwenModel {
    pub config: Option<(Seq<char>, u32)>,
    pub audio: Seq<u8>,
}

impl View for QwenAsrSession {
    type V = QwenModel;

    closed spec fn view(&self) -> QwenModel {
        QwenModel {
            config: match self.stt_config {
                Some(c) => Some((c.api_key@, c.sample_rate)),
                None => None,
            },
            audio: self.audio_buffer@,
        }
    }
}

impl QwenAsrSession {
    /// Not connected, nothing buffered.
    pub fn new() -> (s: Self)
        ensures
            s@ == (QwenModel { config: None, audio: Seq::empty() }),
    {
        QwenAsrSession { stt_config: None, audio_buffer: Vec::new() }
    }

    /// Connects with the given settings, which need an API key; the buffer
    /// is emptied.
    pub fn connect(&mut self, config: &SttConfig) -> (r: Result<(), SttError>)
        ensures
            config.api_key@.len() == 0 ==> r == Err::<(), SttError>(SttError::QwenMissingKey)
                && final(self)@ == old(self)@,
            config.api_key@.len() > 0 ==> r is Ok && final(self)@ == (QwenModel {
                config: Some((config.api_key@, config.sample_rate)),
                audio: Seq::empty(),
            }),
    {
        if config.api_key.as_str().is_empty() {
            return Err(SttError::QwenMissingKey);
        }
        self.stt_config = Some(config.copy());
        self.audio_buffer = Vec::new();
        Ok(())
    }

    /// The number of bytes of audio buffered.
    pub fn buffered_bytes(&self) -> (n: usize)
        ensures
            n == self@.audio.len(),
    {
        self.audio_buffer.len()
    }

    /// Buffers a chunk of audio, refusing it if the buffer would exceed
    /// the limit.
    pub fn send_audio(&mut self, chunk: &[u8]) -> (r: Result<(), SttError>)
        ensures
            old(self)@.audio.len() + chunk@.len() <= MAX_AUDIO_BYTES ==> r is Ok && final(self)@
                == (QwenModel { audio: old(self)@.audio + chunk@, ..old(self)@ }),
            old(self)@.audio.len() + chunk@.len() > MAX_AUDIO_BYTES ==> r == Err::<(), SttError>(
                SttError::QwenAudioTooLong,
            ) && final(self)@ == old(self)@,
            final(self)@.audio == append_limited(old(self)@.audio, chunk@),
    {
        if append_audio(&mut self.audio_buffer, chunk) {
            Ok(())
        } else {
            Err(SttError::QwenAudioTooLong)
        }
    }

    /// Ends the recording: when connected and audio was buffered, hands
    /// back the settings and the audio framed as WAV, and empties the
    /// buffer; otherwise nothing.
    pub fn take_recording(&mut self) -> (r: Option<(SttConfig, Vec<u8>)>)
        ensures
            old(self)@.config is None || old(self)@.audio.len() == 0 ==> r is None && final(self)@
                == old(self)@,
            old(self)@.config is Some && old(self)@.audio.len() > 0 ==> (r matches Some((c, w))
                && old(self)@.config == Some((c.api_key@, c.sample_rate)) && w@ == wav_spec(
                old(self)@.audio,
                c.sample_rate,
            ) && final(self)@ == (QwenModel { audio: Seq::empty(), ..old(self)@ })),
    {
        match &self.stt_config {
            None => None,
            Some(c) => {
                if self.audio_buffer.len() == 0 {
                    return None;
                }
                let config = c.copy();
                let wav = build_wav(&self.audio_buffer, config.sample_rate);
                self.audio_buffer = Vec::new();
                Some((config, wav))
            },
        }
    }
}

/// The standard Base64 alphabet (RFC 4648).
pub open spec fn b64_digit(v: int) -> char {
    if v < 26 {
        (65 + v) as char
    } else if v < 52 {
        (97 + v - 26) as char
    } else if v < 62 {
        (48 + v - 52) as char
    } else if v == 62 {
        '+'
    } else {
        '/'
    }
}

/// Standard Base64 with `=` padding (RFC 4648, section 4).
pub open spec fn base64_spec(data: Seq<u8>) -> Seq<char>
    decreases data.len(),
{
    if data.len() == 0 {
        Seq::empty()
    } else {
        let b0 = data[0] as int;
        if data.len() == 1 {
            seq![b64_digit(b0 / 4), b64_digit((b0 % 4) * 16), '=', '=']
        } else {
            let b1 = data[1] as int;
            if data.len() == 2 {
                seq![
                    b64_digit(b0 / 4),
                    b64_digit((b0 % 4) * 16 + b1 / 16),
                    b64_digit((b1 % 16) * 4),
                    '=',
                ]
            } else {
                let b2 = data[2] as int;
                seq![
                    b64_digit(b0 / 4),
                    b64_digit((b0 % 4) * 16 + b1 / 16),
                    b64_digit((b1 % 16) * 4 + b2 / 64),
                    b64_digit(b2 % 64),
                ] + base64_spec(data.skip(3))
            }
        }
    }
}

/// `base64::engine::general_purpose::STANDARD.encode`: standard Base64
/// with padding, as RFC 4648 defines it.
#[verifier::external_body]
fn base64_encode(data: &[u8]) -> (r: String)
    ensures
        r@ == base64_spec(data@),
{
    base64::engine::general_purpose::STANDARD.encode(data)
}

/// The `data:` URL that carries a WAV recording to the Qwen service.
pub fn qwen_audio_data_url(wav: &[u8]) -> (url: String)
    ensures
        url@ == "data:audio/wav;base64,"@ + base64_spec(wav@),
{
    let mut url = String::from_str("data:audio/wav;base64,");
    let b64 = base64_encode(wav);
    url.append(b64.as_str());
    url
}

/// The opening of a reasoning block in a Qwen reply.
pub open spec fn think_open() -> Seq<char> {
    seq!['<', 't', 'h', 'i', 'n', 'k']
}

/// The closing of a reasoning block in a Qwen reply.
pub open spec fn think_close() -> Seq<char> {
    seq!['<', '/', 't', 'h', 'i', 'n', 'k']
}

/// `s[k..]` without its `<think…</think` blocks: each `<think` and the text
/// up to and including the next `</think` go; a `<think` with no `</think`
/// after it goes alone and the text after it stays.
pub open spec fn strip_think_from(s: Seq<char>, k: int) -> Seq<char>
    decreases s.len() - k,
{
    if k < 0 || k >= s.len() {
        Seq::empty()
    } else {
        match find_from(s, think_open(), k) {
            None => s.subrange(k, s.len() as int),
            Some(o) => {
                proof {
                    lemma_find_from(s, think_open(), k);
                }
                let after = match find_from(s, think_close(), o + 6) {
                    Some(c) => {
                        proof {
                            lemma_find_from(s, think_close(), o + 6);
                        }
                        strip_think_from(s, c + 7)
                    },
                    None => strip_think_from(s, o + 6),
                };
                s.subrange(k, o) + after
            },
        }
    }
}

/// `s` without its reasoning blocks.
pub open spec fn strip_think_spec(s: Seq<char>) -> Seq<char> {
    strip_think_from(s, 0)
}

/// Removes the `<think…</think` blocks that Qwen models may put before the
/// transcription.
pub fn strip_think_tags(s: &str) -> (r: String)
    ensures
        r@ == strip_think_spec(s@),
{
    let v = chars_of(s);
    let open: Vec<char> = vec!['<', 't', 'h', 'i', 'n', 'k'];
    let close: Vec<char> = vec!['<', '/', 't', 'h', 'i', 'n', 'k'];
    assert(open@ =~= think_open());
    assert(close@ =~= think_close());
    let mut out: Vec<char> = Vec::new();
    let mut k: usize = 0;
    while k < v.len()
        invariant
            k <= v.len(),
            open@ == think_open(),
            close@ == think_close(),
            out@ + strip_think_from(v@, k as int) == strip_think_spec(v@),
        decreases v.len() - k,
    {
        let ghost k0 = k as int;
        let ghost before = out@;
        match find_chars_from(&v, &open, k) {
            Some(o) => {
                crate::text::extend_range(&mut out, &v, k, o);
                match find_chars_from(&v, &close, o + 6) {
                    Some(c) => {
                        k = c + 7;
                    },
                    None => {
                        k = o + 6;
                    },
                }
                assert(out@ + strip_think_from(v@, k as int) =~= before + strip_think_from(v@, k0));
            },
            None => {
                crate::text::extend_range(&mut out, &v, k, v.len());
                k = v.len();
                assert(out@ + strip_think_from(v@, k as int) =~= before + strip_think_from(v@, k0));
            },
        }
    }
    assert(out@ + strip_think_from(v@, k as int) =~= out@);
    string_of(&out)
}

/// The transcription in a Qwen reply: the message content trimmed, without
/// reasoning blocks, trimmed again; nothing if that leaves nothing.
pub open spec fn qwen_transcript_spec(content: Seq<char>) -> Option<Seq<char>> {
    let text = trim(strip_think_spec(trim(content)));
    if text.len() == 0 {
        None
    } else {
        Some(text)
    }
}

/// The transcription in the content of a Qwen reply.
pub fn qwen_transcript(content: &str) -> (r: Option<String>)
    ensures
        match r {
            Some(t) => qwen_transcript_spec(content@) == Some(t@),
            None => qwen_transcript_spec(content@) is None,
        },
{
    let raw = string_of(&trim_chars(&chars_of(content)));
    let stripped = strip_think_tags(raw.as_str());
    let text = trim_chars(&chars_of(stripped.as_str()));
    if text.len() == 0 {
        None
    } else {
        Some(string_of(&text))
    }
}

/// The transcription in a whole Qwen reply body: that of its message
/// content (the empty text when it has none); the error of a body that is
/// not JSON.
pub fn qwen_reply_transcript(body: &str) -> (r: Result<Option<String>, String>)
    ensures
        match json_message_content(body@) {
            None => r is Err,
            Some(c) => r matches Ok(t) && string_view(t) == qwen_transcript_spec(
                match c {
                    Some(c) => c,
                    None => Seq::empty(),
                },
            ),
        },
{
    match parse_message_content(body) {
        Err(e) => Err(e),
        Ok(Some(c)) => Ok(qwen_transcript(c.as_str())),
        Ok(None) => {
            let empty = String::new();
            Ok(qwen_transcript(empty.as_str()))
        },
    }
}

/// The error reported for a refused transcription request: the status and
/// the start of the body.
pub fn qwen_api_error(status: &str, body: &str) -> (m: String)
    ensures
        m@ == "Qwen3-ASR-Flash error ("@ + status@ + "): "@ + prefix_before(body@, 200),
{
    let mut m = String::from_str("Qwen3-ASR-Flash error (");
    m.append(status);
    m.append("): ");
    m.append(truncate_error_body(body).as_str());
    m
}

/// The least time a transcription request is given.
pub const QWEN_MIN_TIMEOUT_SECS: u64 = 180;

/// The time a transcription request is given, in whole seconds: three
/// times the length of the audio (16-bit samples, `2 * sample_rate` bytes a
/// second), rounded down, and at least 180; without a sample rate the audio
/// has no finite length and the time is the largest.
pub open spec fn qwen_timeout_spec(audio_bytes: nat, sample_rate: nat) -> nat {
    if sample_rate == 0 {
        if audio_bytes == 0 {
            180
        } else {
            u64::MAX as nat
        }
    } else {
        let t = (3 * audio_bytes) / (2 * sample_rate);
        if t < 180 {
            180
        } else if t > u64::MAX {
            u64::MAX as nat
        } else {
            t as nat
        }
    }
}

/// The time a transcription request is given, in seconds.
pub fn qwen_timeout_secs(audio_bytes: usize, sample_rate: u32) -> (t: u64)
    ensures
        t == qwen_timeout_spec(audio_bytes as nat, sample_rate as nat),
{
    if sample_rate == 0 {
        if audio_bytes == 0 {
            return QWEN_MIN_TIMEOUT_SECS;
        }
        return u64::MAX;
    }
    let num: u128 = 3 * (audio_bytes as u128);
    let den: u128 = 2 * (sample_rate as u128);
    let t: u128 = num / den;
    if t < 180 {
        QWEN_MIN_TIMEOUT_SECS
    } else if t > u64::MAX as u128 {
        u64::MAX
    } else {
        t as u64
    }
}

/// Text without any `<think` is left as it is.
pub proof fn law_strip_think_keeps_plain_text(s: Seq<char>)
    requires
        find(s, think_open()) is None,
    ensures
        strip_think_spec(s) == s,
{
    if s.len() > 0 {
        assert(s.subrange(0, s.len() as int) =~= s);
    } else {
        assert(strip_think_spec(s) =~= s);
    }
}

/// The WebSocket URL of the cloud service: the base URL without any
/// leading `http://`, then without any leading `https://`, behind `wss://`,
/// with the token as a query parameter.
pub open spec fn cloud_ws_url_spec(api_base_url: Seq<char>, token: Seq<char>) -> Seq<char> {
    let base = strip_repeated(strip_repeated(api_base_url, "http://"@), "https://"@);
    "wss://"@ + base + "/ws/stt?token="@ + token
}

/// The WebSocket URL of the cloud service.
pub fn cloud_ws_url(api_base_url: &str, token: &str) -> (url: String)
    ensures
        url@ == cloud_ws_url_spec(api_base_url@, token@),
{
    let once = strip_repeated_exec(&chars_of(api_base_url), &chars_of("http://"));
    let base = strip_repeated_exec(&once, &chars_of("https://"));
    let mut url = String::from_str("wss://");
    url.append(string_of(&base).as_str());
    url.append("/ws/stt?token=");
    url.append(token);
    url
}

/// The session token the cloud provider connects with; the settings must
/// carry one.
pub fn cloud_session_token(config: &SttConfig) -> (r: Result<String, SttError>)
    ensures
        config.api_key@.len() == 0 ==> r == Err::<String, SttError>(SttError::CloudMissingToken),
        config.api_key@.len() > 0 ==> (r matches Ok(t) && t@ == config.api_key@),
{
    if config.api_key.as_str().is_empty() {
        Err(SttError::CloudMissingToken)
    } else {
        Ok(config.api_key.clone())
    }
}

/// A chunk for the cloud provider must not exceed the limit on its own.
pub fn check_cloud_chunk(chunk: &[u8]) -> (r: Result<(), SttError>)
    ensures
        r is Ok <==> chunk@.len() <= MAX_AUDIO_BYTES,
        r is Err ==> r == Err::<(), SttError>(SttError::CloudChunkTooLarge),
{
    if chunk.len() > MAX_AUDIO_BYTES {
        Err(SttError::CloudChunkTooLarge)
    } else {
        Ok(())
    }
}

/// The Base64 payload of an audio frame for the cloud service; nothing for
/// an empty chunk, which is not sent.
pub fn cloud_audio_payload(pcm: &[u8]) -> (r: Option<String>)
    ensures
        pcm@.len() == 0 ==> r is None,
        pcm@.len() > 0 ==> (r matches Some(p) && p@ == base64_spec(pcm@)),
{
    if pcm.len() == 0 {
        None
    } else {
        Some(base64_encode(pcm))
    }
}

/// The string fields of a JSON text message from the cloud service; a
/// field is `None` when it is missing or not a string.
#[derive(Debug)]
pub struct WsTextMessage {
    pub kind: Option<String>,
    pub text: Option<String>,
    pub stash: Option<String>,
    pub transcript: Option<String>,
    pub message: Option<String>,
}

/// What arrives on the cloud service's WebSocket.
#[derive(Debug)]
pub enum WsInbound {
    /// A text frame: its fields when it is a JSON object, `None` when it
    /// does not parse.
    Text(Option<WsTextMessage>),
    Close,
    Ping,
    Pong,
    Binary,
    Frame,
    /// A read error, with its description.
    ReadError(String),
}

/// A transcription event for the listener.
#[derive(Debug)]
pub enum SttEvent {
    /// A live preview: confirmed text and prediction together.
    Partial { text: String },
    /// The final transcript (before polishing).
    Final { text: String },
    /// An error reported by the service or the connection.
    Error { message: String },
}

/// An event as plain values.
pub enum SttEventView {
    Partial(Seq<char>),
    Final(Seq<char>),
    Error(Seq<char>),
}

/// An event, or none, as plain values.
pub open spec fn stt_event_view(e: Option<SttEvent>) -> Option<SttEventView> {
    match e {
        None => None,
        Some(SttEvent::Partial { text }) => Some(SttEventView::Partial(text@)),
        Some(SttEvent::Final { text }) => Some(SttEventView::Final(text@)),
        Some(SttEvent::Error { message }) => Some(SttEventView::Error(message@)),
    }
}

/// What the reader does with an inbound message: an event for the
/// listener, the result handed to whoever waits for the polished text
/// (`Some(Some(text))`, or `Some(None)` for none), and whether to stop
/// reading.
#[derive(Debug)]
pub struct WsReaction {
    pub event: Option<SttEvent>,
    pub final_result: Option<Option<String>>,
    pub stop: bool,
}

/// A text message's fields as plain values.
pub open spec fn ws_fields_view(m: WsTextMessage) -> (
    Option<Seq<char>>,
    Option<Seq<char>>,
    Option<Seq<char>>,
    Option<Seq<char>>,
    Option<Seq<char>>,
) {
    (string_view(m.kind), string_view(m.text), string_view(m.stash), string_view(m.transcript), string_view(m.message))
}

/// What serde_json reads in a text frame of the cloud service: nothing when
/// it is not JSON, else the strings at `type`, `text`, `stash`,
/// `transcript` and `message` (each absent when missing or not a string).
pub uninterp spec fn json_ws_fields(text: Seq<char>) -> Option<
    (Option<Seq<char>>, Option<Seq<char>>, Option<Seq<char>>, Option<Seq<char>>, Option<Seq<char>>),
>;

/// `serde_json::from_str` into a `serde_json::Value`, then five string
/// fields read by indexing and `as_str`. Claimed: the result is
/// `json_ws_fields` of the text; nothing more is said of JSON here.
#[verifier::external_body]
fn parse_ws_fields(text: &str) -> (r: Option<WsTextMessage>)
    ensures
        match r {
            None => json_ws_fields(text@) is None,
            Some(m) => json_ws_fields(text@) == Some(ws_fields_view(m)),
        },
{
    let v: serde_json::Value = match serde_json::from_str(text) {
        Ok(v) => v,
        Err(_) => return None,
    };
    Some(WsTextMessage {
        kind: v["type"].as_str().map(String::from),
        text: v["text"].as_str().map(String::from),
        stash: v["stash"].as_str().map(String::from),
        transcript: v["transcript"].as_str().map(String::from),
        message: v["message"].as_str().map(String::from),
    })
}

/// A text frame of the cloud service, read.
pub fn ws_text_inbound(text: &str) -> (r: WsInbound)
    ensures
        r matches WsInbound::Text(m) && match m {
            None => json_ws_fields(text@) is None,
            Some(f) => json_ws_fields(text@) == Some(ws_fields_view(f)),
        },
{
    WsInbound::Text(parse_ws_fields(text))
}

/// A string field, or the empty text when it is absent.
pub open spec fn field_or_empty(f: Option<String>) -> Seq<char> {
    match f {
        Some(s) => s@,
        None => Seq::empty(),
    }
}

/// A result as plain values.
pub open spec fn final_view(f: Option<Option<String>>) -> Option<Option<Seq<char>>> {
    match f {
        None => None,
        Some(None) => Some(None),
        Some(Some(t)) => Some(Some(t@)),
    }
}

/// The reaction to an inbound message, as plain values.
pub open spec fn reaction_spec(msg: WsInbound) -> (
    Option<SttEventView>,
    Option<Option<Seq<char>>>,
    bool,
) {
    match msg {
        WsInbound::Text(Some(m)) => {
            let kind = field_or_empty(m.kind);
            if kind == "intermediate"@ {
                (
                    Some(SttEventView::Partial(field_or_empty(m.text) + field_or_empty(m.stash))),
                    None,
                    false,
                )
            } else if kind == "final"@ {
                (Some(SttEventView::Final(field_or_empty(m.transcript))), None, false)
            } else if kind == "polished"@ {
                (None, Some(Some(field_or_empty(m.text))), true)
            } else if kind == "error"@ {
                let message = match m.message {
                    Some(s) => s@,
                    None => "Unknown error"@,
                };
                (Some(SttEventView::Error(message)), Some(None), true)
            } else {
                (None, None, false)
            }
        },
        WsInbound::Close => (None, Some(None), true),
        WsInbound::ReadError(e) => (
            Some(SttEventView::Error("WebSocket error: "@ + e@)),
            Some(None),
            true,
        ),
        _ => (None, None, false),
    }
}

/// The reactions to the messages of a session, in order, up to and
/// including the first one that stops the reader.
pub open spec fn ws_session(msgs: Seq<WsInbound>) -> Seq<
    (Option<SttEventView>, Option<Option<Seq<char>>>, bool),
>
    decreases msgs.len(),
{
    if msgs.len() == 0 {
        Seq::empty()
    } else {
        let r = reaction_spec(msgs[0]);
        if r.2 {
            seq![r]
        } else {
            seq![r] + ws_session(msgs.drop_first())
        }
    }
}

/// Whoever waits for the polished text gets at most one answer, from the
/// message that ends the session: a result is handed over exactly when the
/// reader stops, and only the last reaction of a session can stop it. The
/// answer is the text of a `polished` message, or none after an `error`
/// message, a close or a read error.
pub proof fn law_ws_one_result_per_session(msgs: Seq<WsInbound>)
    ensures
        forall|i: int|
            0 <= i < ws_session(msgs).len() ==> ((#[trigger] ws_session(msgs)[i]).1 is Some
                <==> ws_session(msgs)[i].2),
        forall|i: int|
            0 <= i < ws_session(msgs).len() - 1 ==> !(#[trigger] ws_session(msgs)[i]).2,
        forall|i: int|
            0 <= i < msgs.len() && i < ws_session(msgs).len() ==> #[trigger] ws_session(msgs)[i]
                == reaction_spec(msgs[i]),
    decreases msgs.len(),
{
    if msgs.len() > 0 {
        let r = reaction_spec(msgs[0]);
        assert(r.1 is Some <==> r.2);
        if !r.2 {
            law_ws_one_result_per_session(msgs.drop_first());
            let rest = ws_session(msgs.drop_first());
            assert forall|i: int| 0 < i < ws_session(msgs).len() implies ws_session(msgs)[i]
                == rest[i - 1] by {}
            assert forall|i: int| 0 < i < msgs.len() implies msgs[i] == msgs.drop_first()[i - 1] by {}
        }
    }
}

/// A string field, or the empty text when it is absent, computed.
fn or_empty(f: &Option<String>) -> (s: String)
    ensures
        s@ == field_or_empty(*f),
{
    match f {
        Some(t) => t.clone(),
        None => String::new(),
    }
}

/// Decides what the reader does with an inbound message: previews and
/// transcripts go to the listener; the polished text ends the session and
/// goes to whoever waits for it; an error, a close or a read error ends the
/// session with no polished text; anything else is ignored.
pub fn react_to_ws(msg: WsInbound) -> (r: WsReaction)
    ensures
        (stt_event_view(r.event), final_view(r.final_result), r.stop) == reaction_spec(msg),
{
    match msg {
        WsInbound::Text(Some(m)) => {
            let kind = chars_of(or_empty(&m.kind).as_str());
            if crate::text::chars_eq(&kind, &chars_of("intermediate")) {
                let mut text = or_empty(&m.text);
                text.append(or_empty(&m.stash).as_str());
                WsReaction { event: Some(SttEvent::Partial { text }), final_result: None, stop: false }
            } else if crate::text::chars_eq(&kind, &chars_of("final")) {
                WsReaction {
                    event: Some(SttEvent::Final { text: or_empty(&m.transcript) }),
                    final_result: None,
                    stop: false,
                }
            } else if crate::text::chars_eq(&kind, &chars_of("polished")) {
                WsReaction { event: None, final_result: Some(Some(or_empty(&m.text))), stop: true }
            } else if crate::text::chars_eq(&kind, &chars_of("error")) {
                let message = match &m.message {
                    Some(s) => s.clone(),
                    None => String::from_str("Unknown error"),
                };
                WsReaction {
                    event: Some(SttEvent::Error { message }),
                    final_result: Some(None),
                    stop: true,
                }
            } else {
                WsReaction { event: None, final_result: None, stop: false }
            }
        },
        WsInbound::Close => WsReaction { event: None, final_result: Some(None), stop: true },
        WsInbound::ReadError(e) => {
            let mut message = String::from_str("WebSocket error: ");
            message.append(e.as_str());
            WsReaction {
                event: Some(SttEvent::Error { message }),
                final_result: Some(None),
                stop: true,
            }
        },
        _ => WsReaction { event: None, final_result: None, stop: false },
    }
}

/// A text frame of the documented protocol with the given type, as the
/// reader sees it.
pub open spec fn ws_frame(kind: Seq<char>, m: WsTextMessage) -> bool {
    m.kind matches Some(k) && k@ == kind
}

/// The documented protocol: `intermediate` shows the confirmed text and
/// the prediction together, `final` shows the transcript, `polished` ends
/// the session with its text, `error` reports its message (or "Unknown
/// error") and ends the session with no text; a close or a read error ends
/// it with no text.
pub proof fn law_ws_documented_protocol(m: WsTextMessage, e: String)
    ensures
        ws_frame("intermediate"@, m) ==> reaction_spec(WsInbound::Text(Some(m))) == (
            Some(SttEventView::Partial(field_or_empty(m.text) + field_or_empty(m.stash))),
            None::<Option<Seq<char>>>,
            false,
        ),
        ws_frame("final"@, m) ==> reaction_spec(WsInbound::Text(Some(m))) == (
            Some(SttEventView::Final(field_or_empty(m.transcript))),
            None::<Option<Seq<char>>>,
            false,
        ),
        ws_frame("polished"@, m) ==> reaction_spec(WsInbound::Text(Some(m))) == (
            None::<SttEventView>,
            Some(Some(field_or_empty(m.text))),
            true,
        ),
        ws_frame("error"@, m) && m.message is Some ==> reaction_spec(WsInbound::Text(Some(m))) == (
            Some(SttEventView::Error(m.message->0@)),
            Some(None::<Seq<char>>),
            true,
        ),
        ws_frame("error"@, m) && m.message is None ==> reaction_spec(WsInbound::Text(Some(m))) == (
            Some(SttEventView::Error("Unknown error"@)),
            Some(None::<Seq<char>>),
            true,
        ),
        reaction_spec(WsInbound::Close) == (None::<SttEventView>, Some(None::<Seq<char>>), true),
        reaction_spec(WsInbound::ReadError(e)) == (
            Some(SttEventView::Error("WebSocket error: "@ + e@)),
            Some(None::<Seq<char>>),
            true,
        ),
{
    reveal_strlit("intermediate");
    reveal_strlit("final");
    reveal_strlit("polished");
    reveal_strlit("error");
    assert("intermediate"@[0] == 'i' && "final"@[0] == 'f' && "polished"@[0] == 'p'
        && "error"@[0] == 'e');
}

} // verus!
