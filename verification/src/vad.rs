//! The decisions of the voice-activity detector: which stretches of audio
//! form speech segments, given, for each chunk of 512 samples, whether the
//! detector's network judged it speech.
//!
//! The durations of the configuration (milliseconds) are turned into counts
//! of chunks and samples once, exactly: a count reaches its limit when the
//! audio it stands for lasts at least the configured time.
use vstd::prelude::*;
use vstd::string::StringExecFns;
use crate::sensevoice::{pad_to_chunks, padding_for, CHUNK_SIZE};

verus! {

/// Milliseconds times samples per second, per chunk: a chunk of 512 samples
/// lasts `512000 / sample_rate` milliseconds.
pub const CHUNK_MS_SCALE: u64 = 512000;

/// The limits of segmentation, in chunks and samples.
#[derive(Debug, Copy, Clone, PartialEq, Eq, Structural)]
pub struct VadLimits {
    /// Samples per second.
    pub sample_rate: u32,
    /// Samples of context kept before speech starts.
    pub rollback_samples: u64,
    /// Consecutive silent chunks that end a segment.
    pub silence_chunks: u64,
    /// Chunks after which a segment is cut even while speech goes on.
    pub max_speech_chunks: u64,
    /// Segments shorter than this many samples are dropped as noise.
    pub min_speech_samples: u64,
    /// Dropped chunks while waiting after which one silence notification
    /// is sent; `None` for never.
    pub notify_silence_chunks: Option<u64>,
}

/// `a / b` rounded up.
pub open spec fn ceil_div(a: nat, b: nat) -> nat
    recommends
        b > 0,
{
    ((a + b - 1) / (b as int)) as nat
}

/// The fewest chunks that last at least `ms` milliseconds.
pub open spec fn chunks_for_ms(ms: u32, sample_rate: u32) -> nat {
    ceil_div((ms * sample_rate) as nat, CHUNK_MS_SCALE as nat)
}

/// The limits that a configuration in milliseconds gives.
pub open spec fn limits_for_ms(
    sample_rate: u32,
    silence_duration_ms: u32,
    max_speech_duration_ms: u32,
    rollback_duration_ms: u32,
    min_speech_duration_ms: u32,
    notify_silence_after_ms: Option<u32>,
) -> VadLimits {
    VadLimits {
        sample_rate,
        rollback_samples: ((rollback_duration_ms * sample_rate) / 1000) as u64,
        silence_chunks: chunks_for_ms(silence_duration_ms, sample_rate) as u64,
        max_speech_chunks: chunks_for_ms(max_speech_duration_ms, sample_rate) as u64,
        min_speech_samples: ceil_div((min_speech_duration_ms * sample_rate) as nat, 1000) as u64,
        notify_silence_chunks: match notify_silence_after_ms {
            Some(ms) => Some(chunks_for_ms(ms, sample_rate) as u64),
            None => None,
        },
    }
}

/// A count reaches `ceil_div(a, b)` exactly when `count * b` reaches `a`.
pub proof fn lemma_ceil_div(n: nat, a: nat, b: nat)
    requires
        b > 0,
    ensures
        n >= ceil_div(a, b) <==> n * b >= a,
        ceil_div(a, b) <= a,
{
    let q = ceil_div(a, b);
    assert(q * b >= a && (q == 0 || (q - 1) * b < a)) by (nonlinear_arith)
        requires
            b > 0,
            q == (a + b - 1) / (b as int),
    ;
    if n >= q {
        assert(n * b >= q * b) by (nonlinear_arith)
            requires
                n >= q,
                b > 0,
        ;
    } else {
        assert(n * b <= (q - 1) * b) by (nonlinear_arith)
            requires
                n <= q - 1,
                b > 0,
        ;
    }
    assert(q <= a) by (nonlinear_arith)
        requires
            b > 0,
            q == (a + b - 1) / (b as int),
    ;
}

/// `ceil_div(a, b)`, computed without overflow for `a` of two 32-bit factors.
fn ceil_div_u64(a: u64, b: u64) -> (r: u64)
    requires
        b > 0,
        a <= u32::MAX * u32::MAX,
        b <= CHUNK_MS_SCALE,
    ensures
        r == ceil_div(a as nat, b as nat),
{
    (a + (b - 1)) / b
}

impl VadLimits {
    /// The limits for a configuration in milliseconds at a sample rate:
    /// the fewest chunks that last the silence, longest-speech and
    /// notification times, the samples of the rollback time (rounded down)
    /// and the fewest samples that last the shortest speech.
    pub fn from_millis(
        sample_rate: u32,
        silence_duration_ms: u32,
        max_speech_duration_ms: u32,
        rollback_duration_ms: u32,
        min_speech_duration_ms: u32,
        notify_silence_after_ms: Option<u32>,
    ) -> (l: Self)
        ensures
            l == limits_for_ms(
                sample_rate,
                silence_duration_ms,
                max_speech_duration_ms,
                rollback_duration_ms,
                min_speech_duration_ms,
                notify_silence_after_ms,
            ),
    {
        let notify = match notify_silence_after_ms {
            Some(ms) => Some(chunks_for(ms, sample_rate)),
            None => None,
        };
        let rb = product(rollback_duration_ms, sample_rate);
        let min = product(min_speech_duration_ms, sample_rate);
        VadLimits {
            sample_rate,
            rollback_samples: rb / 1000,
            silence_chunks: chunks_for(silence_duration_ms, sample_rate),
            max_speech_chunks: chunks_for(max_speech_duration_ms, sample_rate),
            min_speech_samples: ceil_div_u64(min, 1000),
            notify_silence_chunks: notify,
        }
    }
}

/// The product of two 32-bit numbers, which fits in 64 bits.
fn product(a: u32, b: u32) -> (r: u64)
    ensures
        r == a * b,
        r <= u32::MAX * u32::MAX,
{
    assert(a * b <= u32::MAX * u32::MAX) by (nonlinear_arith)
        requires
            a <= u32::MAX,
            b <= u32::MAX,
    ;
    (a as u64) * (b as u64)
}

/// The fewest chunks that last at least `ms` milliseconds, computed.
fn chunks_for(ms: u32, sample_rate: u32) -> (r: u64)
    ensures
        r == chunks_for_ms(ms, sample_rate),
{
    ceil_div_u64(product(ms, sample_rate), CHUNK_MS_SCALE)
}

/// A count of chunks reaches a limit set in milliseconds exactly when the
/// chunks last at least that long: `n` chunks of `512 / sample_rate`
/// seconds reach `ms` when `n * 512000 >= ms * sample_rate`.
pub proof fn law_chunk_limit_is_duration(n: nat, ms: u32, sample_rate: u32)
    ensures
        n >= chunks_for_ms(ms, sample_rate) <==> n * CHUNK_MS_SCALE >= ms * sample_rate,
{
    lemma_ceil_div(n, (ms * sample_rate) as nat, CHUNK_MS_SCALE as nat);
}

/// A segment is shorter than the shortest speech exactly when its samples
/// last less than that many milliseconds: `len * 1000 < ms * sample_rate`.
pub proof fn law_min_speech_is_duration(len: nat, ms: u32, sample_rate: u32)
    ensures
        len < ceil_div((ms * sample_rate) as nat, 1000) <==> len * 1000 < ms * sample_rate,
{
    lemma_ceil_div(len, (ms * sample_rate) as nat, 1000);
}

/// The only sample rate the detector's network works on.
pub const VAD_SAMPLE_RATE: u32 = 16000;

/// Why the detector cannot run.
#[derive(Debug, Copy, Clone, PartialEq, Eq, Structural)]
pub enum VadError {
    /// The audio is not sampled at 16 kHz.
    UnsupportedSampleRate,
    /// A whole recording came without one speech verdict per chunk.
    VerdictCountMismatch,
}

/// The message of each error.
pub open spec fn vad_error_message(e: VadError) -> Seq<char> {
    match e {
        VadError::UnsupportedSampleRate => "FSMN-VAD currently supports 16k sample rate"@,
        VadError::VerdictCountMismatch => "one speech verdict per chunk is needed"@,
    }
}

impl VadError {
    /// The message shown for the error.
    pub fn message(&self) -> (m: &'static str)
        ensures
            m@ == vad_error_message(*self),
    {
        match self {
            VadError::UnsupportedSampleRate => "FSMN-VAD currently supports 16k sample rate",
            VadError::VerdictCountMismatch => "one speech verdict per chunk is needed",
        }
    }
}

/// Refuses every sample rate but 16 kHz, before any model is loaded.
pub fn check_vad_sample_rate(sample_rate: u32) -> (r: Result<(), VadError>)
    ensures
        r is Ok <==> sample_rate == VAD_SAMPLE_RATE,
        r is Err ==> r == Err::<(), VadError>(VadError::UnsupportedSampleRate),
{
    if sample_rate != VAD_SAMPLE_RATE {
        Err(VadError::UnsupportedSampleRate)
    } else {
        Ok(())
    }
}

/// Where one of the detector's files comes from.
#[derive(Debug)]
pub enum VadFile {
    /// A file given by the caller, loaded from disk (it must exist).
    Given(String),
    /// The model hub.
    Hub,
}

/// Where the detector's weights and normalization come from.
#[derive(Debug)]
pub struct VadSource {
    pub model: VadFile,
    pub cmvn: VadFile,
}

/// A file's source as plain values: the given path, or `None` for the
/// hub.
pub open spec fn vad_file_view(f: VadFile) -> Option<Seq<char>> {
    match f {
        VadFile::Given(p) => Some(p@),
        VadFile::Hub => None,
    }
}

/// The source of one file: its path when one is set, else the hub.
pub open spec fn vad_file_spec(path: Option<String>) -> Option<Seq<char>> {
    match path {
        Some(p) => Some(p@),
        None => None,
    }
}

/// The source of one file, chosen.
fn vad_file(path: Option<String>) -> (r: VadFile)
    ensures
        vad_file_view(r) == vad_file_spec(path),
{
    match path {
        Some(p) => VadFile::Given(p),
        None => VadFile::Hub,
    }
}

/// Chooses where the detector's files come from: each file whose path is
/// set is loaded from that path, bypassing the hub; only a file without a
/// path is taken from the hub.
pub fn vad_source(model_path: Option<String>, cmvn_path: Option<String>) -> (r: VadSource)
    ensures
        vad_file_view(r.model) == vad_file_spec(model_path),
        vad_file_view(r.cmvn) == vad_file_spec(cmvn_path),
{
    VadSource { model: vad_file(model_path), cmvn: vad_file(cmvn_path) }
}

/// Which of the detector's files is meant.
#[derive(Debug, Copy, Clone, PartialEq, Eq, Structural)]
pub enum VadFileKind {
    /// The weights.
    Model,
    /// The normalization.
    Cmvn,
}

/// The error text for a given file that does not exist.
pub open spec fn vad_file_not_found_spec(kind: VadFileKind, path: Seq<char>) -> Seq<char> {
    match kind {
        VadFileKind::Model => "VAD model file not found: "@ + path,
        VadFileKind::Cmvn => "VAD cmvn file not found: "@ + path,
    }
}

/// The error text for a given file that does not exist.
pub fn vad_file_not_found(kind: VadFileKind, path: &str) -> (m: String)
    ensures
        m@ == vad_file_not_found_spec(kind, path@),
{
    let mut m = match kind {
        VadFileKind::Model => String::from_str("VAD model file not found: "),
        VadFileKind::Cmvn => String::from_str("VAD cmvn file not found: "),
    };
    m.append(path);
    m
}

/// What the detector reports after a chunk.
#[derive(Debug)]
pub enum VadOutput {
    /// A finished speech segment.
    Segment(Vec<i16>),
    /// Silence has lasted long enough to be reported (once per wait).
    SilenceNotification,
}

/// A report as plain values.
pub enum VadEvent {
    Segment(Seq<i16>),
    SilenceNotification,
}

/// A report, or none, as plain values.
pub open spec fn event_view(o: Option<VadOutput>) -> Option<VadEvent> {
    match o {
        None => None,
        Some(VadOutput::Segment(v)) => Some(VadEvent::Segment(v@)),
        Some(VadOutput::SilenceNotification) => Some(VadEvent::SilenceNotification),
    }
}

/// The detector's state as plain values.
pub struct VadModel {
    pub limits: VadLimits,
    pub recording: bool,
    pub segment: Seq<i16>,
    pub history: Seq<i16>,
    pub silence_chunks: u64,
    pub speech_chunks: u64,
    pub waiting_dropped_chunks: u64,
    pub notified_silence: bool,
}

/// The segmenting state machine.
pub struct VadProcessor {
    limits: VadLimits,
    recording: bool,
    current_segment: Vec<i16>,
    history_buffer: Vec<i16>,
    silence_chunks: u64,
    speech_chunks: u64,
    waiting_dropped_chunks: u64,
    notified_silence: bool,
}

impl View for VadProcessor {
    type V = VadModel;

    closed spec fn view(&self) -> VadModel {
        VadModel {
            limits: self.limits,
            recording: self.recording,
            segment: self.current_segment@,
            history: self.history_buffer@,
            silence_chunks: self.silence_chunks,
            speech_chunks: self.speech_chunks,
            waiting_dropped_chunks: self.waiting_dropped_chunks,
            notified_silence: self.notified_silence,
        }
    }
}

/// One more, stopping at the largest count.
pub open spec fn bump(n: u64) -> u64 {
    if n < u64::MAX {
        (n + 1) as u64
    } else {
        n
    }
}

/// The state after `reset`: waiting, with nothing kept.
pub open spec fn reset_model(m: VadModel) -> VadModel {
    VadModel {
        limits: m.limits,
        recording: false,
        segment: Seq::empty(),
        history: Seq::empty(),
        silence_chunks: 0,
        speech_chunks: 0,
        waiting_dropped_chunks: 0,
        notified_silence: false,
    }
}

/// The samples of the current segment that are kept when it ends: all of
/// them, or without the trailing silent chunks.
pub open spec fn kept_samples(m: VadModel, trim_tail: bool) -> Seq<i16> {
    if trim_tail {
        let cut = m.silence_chunks * CHUNK_SIZE;
        if cut >= m.segment.len() {
            Seq::empty()
        } else {
            m.segment.take(m.segment.len() - cut)
        }
    } else {
        m.segment
    }
}

/// Ending the current segment: the state becomes the reset one, and the
/// kept samples are reported unless they are empty or too short.
pub open spec fn finalize_model(m: VadModel, trim_tail: bool) -> (VadModel, Option<VadEvent>) {
    if m.segment.len() == 0 {
        (reset_model(m), None)
    } else {
        let seg = kept_samples(m, trim_tail);
        if seg.len() == 0 || seg.len() < m.limits.min_speech_samples {
            (reset_model(m), None)
        } else {
            (reset_model(m), Some(VadEvent::Segment(seg)))
        }
    }
}

/// The context kept while waiting: the last `rollback_samples` samples.
pub open spec fn keep_last(h: Seq<i16>, n: int) -> Seq<i16> {
    if h.len() > n {
        h.skip(h.len() - n)
    } else {
        h
    }
}

/// One chunk through the state machine.
pub open spec fn step_model(m: VadModel, chunk: Seq<i16>, is_speech: bool) -> (
    VadModel,
    Option<VadEvent>,
) {
    if !m.recording {
        let history = keep_last(m.history + chunk, m.limits.rollback_samples as int);
        if is_speech {
            (
                VadModel {
                    recording: true,
                    segment: m.segment + history,
                    history: Seq::empty(),
                    silence_chunks: 0,
                    speech_chunks: 0,
                    waiting_dropped_chunks: 0,
                    notified_silence: false,
                    ..m
                },
                None,
            )
        } else {
            match m.limits.notify_silence_chunks {
                Some(limit) => {
                    let dropped = bump(m.waiting_dropped_chunks);
                    if dropped >= limit && !m.notified_silence {
                        (
                            VadModel {
                                history,
                                waiting_dropped_chunks: dropped,
                                notified_silence: true,
                                ..m
                            },
                            Some(VadEvent::SilenceNotification),
                        )
                    } else {
                        (VadModel { history, waiting_dropped_chunks: dropped, ..m }, None)
                    }
                },
                None => (VadModel { history, ..m }, None),
            }
        }
    } else {
        let grown = VadModel {
            segment: m.segment + chunk,
            speech_chunks: bump(m.speech_chunks),
            ..m
        };
        if is_speech {
            let g = VadModel { silence_chunks: 0, ..grown };
            if g.speech_chunks >= m.limits.max_speech_chunks {
                finalize_model(g, false)
            } else {
                (g, None)
            }
        } else {
            let g = VadModel { silence_chunks: bump(m.silence_chunks), ..grown };
            if g.silence_chunks >= m.limits.silence_chunks {
                finalize_model(g, true)
            } else {
                (g, None)
            }
        }
    }
}

/// The end of the audio: the current segment is reported if it is long
/// enough, and the state is reset whenever there was a segment.
pub open spec fn finish_model(m: VadModel) -> (VadModel, Option<VadEvent>) {
    if m.segment.len() == 0 {
        (m, None)
    } else if m.segment.len() < m.limits.min_speech_samples {
        (reset_model(m), None)
    } else {
        (reset_model(m), Some(VadEvent::Segment(m.segment)))
    }
}

/// While waiting, the detector holds no segment and counts neither speech
/// nor silence.
pub open spec fn waiting_clear(m: VadModel) -> bool {
    !m.recording ==> m.segment.len() == 0 && m.silence_chunks == 0 && m.speech_chunks == 0
}

/// A fresh detector is clear, and every chunk and the end of the audio
/// keep it so.
pub proof fn law_waiting_holds_no_segment(m: VadModel, chunk: Seq<i16>, is_speech: bool)
    ensures
        waiting_clear(initial_model(m.limits)),
        waiting_clear(m) ==> waiting_clear(step_model(m, chunk, is_speech).0),
        waiting_clear(m) ==> waiting_clear(finish_model(m).0),
{
}

/// The state of a fresh detector.
pub open spec fn initial_model(limits: VadLimits) -> VadModel {
    VadModel {
        limits,
        recording: false,
        segment: Seq::empty(),
        history: Seq::empty(),
        silence_chunks: 0,
        speech_chunks: 0,
        waiting_dropped_chunks: 0,
        notified_silence: false,
    }
}

impl VadProcessor {
    /// A detector waiting for speech; the detector's network works on
    /// 16 kHz audio only, so any other sample rate is refused.
    pub fn new(limits: VadLimits) -> (r: Result<Self, VadError>)
        ensures
            limits.sample_rate == VAD_SAMPLE_RATE ==> (r matches Ok(p) && p@ == initial_model(
                limits,
            ) && waiting_clear(p@)),
            limits.sample_rate != VAD_SAMPLE_RATE ==> (r matches Err(e) && e
                == VadError::UnsupportedSampleRate),
    {
        match check_vad_sample_rate(limits.sample_rate) {
            Err(e) => Err(e),
            Ok(()) => Ok(VadProcessor {
                limits,
                recording: false,
                current_segment: Vec::new(),
                history_buffer: Vec::new(),
                silence_chunks: 0,
                speech_chunks: 0,
                waiting_dropped_chunks: 0,
                notified_silence: false,
            }),
        }
    }

    /// The limits in use.
    pub fn limits(&self) -> (l: VadLimits)
        ensures
            l == self@.limits,
    {
        self.limits
    }

    /// Changes when silence is reported (after the fewest dropped chunks
    /// that last `ms` milliseconds); turning it off also forgets that it was
    /// reported.
    pub fn set_notify_silence_after_ms(&mut self, ms: Option<u32>)
        ensures
            final(self)@ == (VadModel {
                limits: VadLimits {
                    notify_silence_chunks: match ms {
                        Some(ms) => Some(chunks_for_ms(ms, old(self)@.limits.sample_rate) as u64),
                        None => None,
                    },
                    ..old(self)@.limits
                },
                notified_silence: if ms is None {
                    false
                } else {
                    old(self)@.notified_silence
                },
                ..old(self)@
            }),
            waiting_clear(old(self)@) ==> waiting_clear(final(self)@),
    {
        let chunks = match ms {
            Some(ms) => Some(chunks_for(ms, self.limits.sample_rate)),
            None => None,
        };
        self.limits.notify_silence_chunks = chunks;
        if chunks.is_none() {
            self.notified_silence = false;
        }
    }

    fn reset(&mut self)
        ensures
            final(self)@ == reset_model(old(self)@),
    {
        self.current_segment = Vec::new();
        self.history_buffer = Vec::new();
        self.silence_chunks = 0;
        self.speech_chunks = 0;
        self.recording = false;
        self.waiting_dropped_chunks = 0;
        self.notified_silence = false;
    }

    fn finalize_segment(&mut self, trim_tail: bool) -> (r: Option<VadOutput>)
        ensures
            (final(self)@, event_view(r)) == finalize_model(old(self)@, trim_tail),
    {
        if self.current_segment.len() == 0 {
            self.reset();
            return None;
        }
        let ghost m = self@;
        let len = self.current_segment.len();
        let mut segment: Vec<i16> = Vec::new();
        let valid_len: usize = if trim_tail {
            if self.silence_chunks > (len / CHUNK_SIZE) as u64 {
                0
            } else {
                len - (self.silence_chunks as usize) * CHUNK_SIZE
            }
        } else {
            len
        };
        assert(valid_len == kept_samples(m, trim_tail).len()) by (nonlinear_arith)
            requires
                m.segment.len() == len,
                trim_tail ==> (valid_len == (if m.silence_chunks > len / 512 {
                    0
                } else {
                    len - m.silence_chunks * 512
                })),
                !trim_tail ==> valid_len == len,
                kept_samples(m, trim_tail).len() == (if trim_tail {
                    if m.silence_chunks * 512 >= len {
                        0
                    } else {
                        len - m.silence_chunks * 512
                    }
                } else {
                    len as int
                }),
        ;
        let mut i: usize = 0;
        while i < valid_len
            invariant
                i <= valid_len <= len,
                len == self.current_segment.len(),
                self@ == m,
                segment@ == self.current_segment@.take(i as int),
            decreases valid_len - i,
        {
            segment.push(self.current_segment[i]);
            i = i + 1;
            assert(segment@ =~= self.current_segment@.take(i as int));
        }
        assert(segment@ =~= kept_samples(m, trim_tail));
        if (segment.len() as u64) < self.limits.min_speech_samples {
            segment = Vec::new();
        }
        self.reset();
        if segment.len() == 0 {
            None
        } else {
            Some(VadOutput::Segment(segment))
        }
    }

    /// Feeds one chunk, with the network's verdict on whether it is speech.
    pub fn process_chunk(&mut self, chunk: &[i16; CHUNK_SIZE], is_speech: bool) -> (r: Option<
        VadOutput,
    >)
        ensures
            (final(self)@, event_view(r)) == step_model(old(self)@, chunk@, is_speech),
            waiting_clear(old(self)@) ==> waiting_clear(final(self)@),
    {
        proof {
            law_waiting_holds_no_segment(old(self)@, chunk@, is_speech);
        }
        self.feed_chunk(chunk.as_slice(), is_speech)
    }

    /// One chunk of `CHUNK_SIZE` samples through the state machine.
    fn feed_chunk(&mut self, chunk: &[i16], is_speech: bool) -> (r: Option<VadOutput>)
        requires
            chunk@.len() == CHUNK_SIZE,
        ensures
            (final(self)@, event_view(r)) == step_model(old(self)@, chunk@, is_speech),
    {
        if !self.recording {
            let ghost m = self@;
            let mut hist = Vec::new();
            let keep = self.limits.rollback_samples;
            let ghost joined = self.history_buffer@ + chunk@;
            let mut j: usize = 0;
            while j < self.history_buffer.len()
                invariant
                    j <= self.history_buffer.len(),
                    self@ == m,
                    hist@ == self.history_buffer@.take(j as int),
                decreases self.history_buffer.len() - j,
            {
                hist.push(self.history_buffer[j]);
                j = j + 1;
                assert(hist@ =~= self.history_buffer@.take(j as int));
            }
            let mut k: usize = 0;
            while k < CHUNK_SIZE
                invariant
                    k <= CHUNK_SIZE,
                    chunk@.len() == CHUNK_SIZE,
                    self@ == m,
                    hist@ == self.history_buffer@ + chunk@.take(k as int),
                decreases CHUNK_SIZE - k,
            {
                hist.push(chunk[k]);
                k = k + 1;
                assert(hist@ =~= self.history_buffer@ + chunk@.take(k as int));
            }
            assert(chunk@.take(CHUNK_SIZE as int) =~= chunk@);
            let history = if (hist.len() as u64) > keep {
                let start = hist.len() - (keep as usize);
                let mut h: Vec<i16> = Vec::new();
                let mut t = start;
                while t < hist.len()
                    invariant
                        start <= t <= hist.len(),
                        h@ == hist@.subrange(start as int, t as int),
                    decreases hist.len() - t,
                {
                    h.push(hist[t]);
                    t = t + 1;
                    assert(h@ =~= hist@.subrange(start as int, t as int));
                }
                assert(h@ =~= joined.skip(joined.len() - keep));
                h
            } else {
                hist
            };
            assert(history@ == keep_last(joined, keep as int));
            if is_speech {
                self.recording = true;
                let mut seg = Vec::new();
                std::mem::swap(&mut seg, &mut self.current_segment);
                let ghost before = seg@;
                let mut t: usize = 0;
                while t < history.len()
                    invariant
                        t <= history.len(),
                        seg@ == before + history@.take(t as int),
                    decreases history.len() - t,
                {
                    seg.push(history[t]);
                    t = t + 1;
                    assert(seg@ =~= before + history@.take(t as int));
                }
                assert(history@.take(history.len() as int) =~= history@);
                self.current_segment = seg;
                self.history_buffer = Vec::new();
                self.silence_chunks = 0;
                self.speech_chunks = 0;
                self.waiting_dropped_chunks = 0;
                self.notified_silence = false;
                return None;
            }
            self.history_buffer = history;
            match self.limits.notify_silence_chunks {
                Some(limit) => {
                    if self.waiting_dropped_chunks < u64::MAX {
                        self.waiting_dropped_chunks = self.waiting_dropped_chunks + 1;
                    }
                    if self.waiting_dropped_chunks >= limit && !self.notified_silence {
                        self.notified_silence = true;
                        return Some(VadOutput::SilenceNotification);
                    }
                    None
                },
                None => None,
            }
        } else {
            let mut t: usize = 0;
            let ghost before = self.current_segment@;
            let ghost m = self@;
            while t < CHUNK_SIZE
                invariant
                    t <= CHUNK_SIZE,
                    chunk@.len() == CHUNK_SIZE,
                    self.current_segment@ == before + chunk@.take(t as int),
                    self@ == (VadModel { segment: before + chunk@.take(t as int), ..m }),
                decreases CHUNK_SIZE - t,
            {
                self.current_segment.push(chunk[t]);
                t = t + 1;
                assert(self.current_segment@ =~= before + chunk@.take(t as int));
            }
            assert(chunk@.take(CHUNK_SIZE as int) =~= chunk@);
            if self.speech_chunks < u64::MAX {
                self.speech_chunks = self.speech_chunks + 1;
            }
            if is_speech {
                self.silence_chunks = 0;
                if self.speech_chunks >= self.limits.max_speech_chunks {
                    return self.finalize_segment(false);
                }
            } else {
                if self.silence_chunks < u64::MAX {
                    self.silence_chunks = self.silence_chunks + 1;
                }
                if self.silence_chunks >= self.limits.silence_chunks {
                    return self.finalize_segment(true);
                }
            }
            None
        }
    }

    /// The end of the audio: reports the current segment if it is long
    /// enough.
    pub fn finish(&mut self) -> (r: Option<VadOutput>)
        ensures
            (final(self)@, event_view(r)) == finish_model(old(self)@),
            waiting_clear(old(self)@) ==> waiting_clear(final(self)@),
    {
        proof {
            law_waiting_holds_no_segment(old(self)@, Seq::empty(), false);
        }
        if self.current_segment.len() > 0 {
            if (self.current_segment.len() as u64) < self.limits.min_speech_samples {
                self.reset();
                return None;
            }
            let mut out: Vec<i16> = Vec::new();
            std::mem::swap(&mut out, &mut self.current_segment);
            self.reset();
            Some(VadOutput::Segment(out))
        } else {
            None
        }
    }
}

/// The `i`-th chunk of `CHUNK_SIZE` samples of `s`.
pub open spec fn chunk_at(s: Seq<i16>, i: int) -> Seq<i16> {
    s.subrange(i * CHUNK_SIZE, i * CHUNK_SIZE + CHUNK_SIZE)
}

/// The state and the reports after the first `n` chunks of `padded`, the
/// `i`-th judged speech when `verdicts[i]` holds.
pub open spec fn run_chunks(m: VadModel, padded: Seq<i16>, verdicts: Seq<bool>, n: nat) -> (
    VadModel,
    Seq<VadEvent>,
)
    decreases n,
{
    if n == 0 {
        (m, Seq::empty())
    } else {
        let (m1, evs) = run_chunks(m, padded, verdicts, (n - 1) as nat);
        let (m2, e) = step_model(m1, chunk_at(padded, n - 1), verdicts[n - 1]);
        (
            m2,
            match e {
                Some(x) => evs.push(x),
                None => evs,
            },
        )
    }
}

/// The audio followed by the zeros that bring it to whole chunks.
pub open spec fn padded_spec(content: Seq<i16>) -> Seq<i16> {
    content + Seq::new(padding_for(content.len() as int) as nat, |i: int| 0i16)
}

/// The reports for a whole recording: each chunk of the padded audio in
/// turn through a fresh detector, then the end of the audio; an error when
/// the audio is not at 16 kHz, or when the verdicts are not one per chunk.
pub open spec fn segment_all_spec(limits: VadLimits, content: Seq<i16>, verdicts: Seq<bool>) -> Result<
    Seq<VadEvent>,
    VadError,
> {
    let padded = padded_spec(content);
    let n = padded.len() as int / (CHUNK_SIZE as int);
    if limits.sample_rate != VAD_SAMPLE_RATE {
        Err(VadError::UnsupportedSampleRate)
    } else if verdicts.len() != n {
        Err(VadError::VerdictCountMismatch)
    } else {
        let (m, evs) = run_chunks(initial_model(limits), padded, verdicts, n as nat);
        Ok(
            match finish_model(m).1 {
                Some(x) => evs.push(x),
                None => evs,
            },
        )
    }
}

/// Reports as plain values.
pub open spec fn outputs_view(v: Seq<VadOutput>) -> Seq<VadEvent> {
    Seq::new(v.len(), |i: int| event_view(Some(v[i]))->0)
}

/// The samples `s[from..to]`.
fn copy_range(s: &[i16], from: usize, to: usize) -> (r: Vec<i16>)
    requires
        from <= to <= s@.len(),
    ensures
        r@ == s@.subrange(from as int, to as int),
{
    let mut r: Vec<i16> = Vec::new();
    let mut i = from;
    while i < to
        invariant
            from <= i <= to <= s@.len(),
            r@ == s@.subrange(from as int, i as int),
        decreases to - i,
    {
        r.push(s[i]);
        i = i + 1;
        assert(r@ =~= s@.subrange(from as int, i as int));
    }
    r
}

/// Cuts a whole recording into speech segments: the audio is padded with
/// silence to whole chunks, each chunk goes through a fresh detector with
/// its verdict (one per chunk, in order), and the end of the audio
/// reports the last segment. The audio must be at 16 kHz and the verdicts
/// must be one per chunk.
pub fn segment_all(limits: VadLimits, content: &[i16], verdicts: &[bool]) -> (r: Result<
    Vec<VadOutput>,
    VadError,
>)
    requires
        content@.len() + CHUNK_SIZE <= usize::MAX,
    ensures
        match r {
            Ok(v) => segment_all_spec(limits, content@, verdicts@) == Ok::<Seq<VadEvent>, VadError>(
                outputs_view(v@),
            ),
            Err(e) => segment_all_spec(limits, content@, verdicts@) == Err::<Seq<VadEvent>, VadError>(
                e,
            ),
        },
{
    let mut vad = match VadProcessor::new(limits) {
        Ok(v) => v,
        Err(e) => {
            return Err(e);
        },
    };
    let padded = pad_to_chunks(content);
    assert(padded@ =~= padded_spec(content@));
    let n = padded.len() / CHUNK_SIZE;
    if verdicts.len() != n {
        return Err(VadError::VerdictCountMismatch);
    }
    let mut out: Vec<VadOutput> = Vec::new();
    let mut i: usize = 0;
    while i < n
        invariant
            i <= n,
            n == padded@.len() as int / (CHUNK_SIZE as int),
            padded@.len() as int % (CHUNK_SIZE as int) == 0,
            verdicts@.len() == n,
            padded@.len() <= usize::MAX,
            (vad@, outputs_view(out@)) == run_chunks(initial_model(limits), padded@, verdicts@, i as nat),
        decreases n - i,
    {
        assert(i * 512 + 512 <= padded@.len()) by (nonlinear_arith)
            requires
                i < n,
                n == padded@.len() / 512,
                padded@.len() % 512 == 0,
        ;
        let start = i * CHUNK_SIZE;
        let piece = copy_range(&padded, start, start + CHUNK_SIZE);
        let ghost before = outputs_view(out@);
        let e = vad.feed_chunk(&piece, verdicts[i]);
        match e {
            Some(x) => {
                out.push(x);
                assert(outputs_view(out@) =~= before.push(event_view(Some(x))->0));
            },
            None => {},
        }
        i = i + 1;
    }
    let ghost before = outputs_view(out@);
    match vad.finish() {
        Some(x) => {
            out.push(x);
            assert(outputs_view(out@) =~= before.push(event_view(Some(x))->0));
        },
        None => {},
    }
    Ok(out)
}

/// Whether a report is a segment of at least `min` samples, and not empty.
pub open spec fn long_enough(e: Option<VadEvent>, min: u64) -> bool {
    match e {
        Some(VadEvent::Segment(seg)) => seg.len() > 0 && seg.len() >= min,
        _ => true,
    }
}

/// Every segment the detector reports, after a chunk or at the end, is
/// non-empty and at least the minimum length; and once it has reported a
/// segment it is back to waiting with nothing kept.
pub proof fn law_vad_segments(m: VadModel, chunk: Seq<i16>, is_speech: bool)
    ensures
        long_enough(step_model(m, chunk, is_speech).1, m.limits.min_speech_samples),
        long_enough(finish_model(m).1, m.limits.min_speech_samples),
        step_model(m, chunk, is_speech).1 matches Some(VadEvent::Segment(_)) ==> step_model(
            m,
            chunk,
            is_speech,
        ).0 == reset_model(m),
        finish_model(m).1 matches Some(VadEvent::Segment(_)) ==> finish_model(m).0
            == reset_model(m),
        step_model(m, chunk, is_speech).0.limits == m.limits,
{
}

/// While waiting, the kept context never exceeds the rollback length.
pub proof fn law_vad_history_bounded(m: VadModel, chunk: Seq<i16>, is_speech: bool)
    requires
        m.history.len() <= m.limits.rollback_samples,
    ensures
        step_model(m, chunk, is_speech).0.history.len() <= m.limits.rollback_samples,
{
}

/// Silence is reported at most once per wait: once reported, no further
/// chunk reports it again until speech starts or the setting is cleared.
pub proof fn law_vad_notifies_once(m: VadModel, chunk: Seq<i16>, is_speech: bool)
    requires
        !m.recording,
        m.notified_silence,
    ensures
        !(step_model(m, chunk, is_speech).1 matches Some(VadEvent::SilenceNotification)),
        !is_speech ==> step_model(m, chunk, is_speech).0.notified_silence,
{
}

/// Running chunks keeps the limits, and every report made on the way is a
/// long-enough segment or a notification.
proof fn lemma_run_chunks(m: VadModel, padded: Seq<i16>, verdicts: Seq<bool>, n: nat)
    ensures
        run_chunks(m, padded, verdicts, n).0.limits == m.limits,
        forall|i: int|
            0 <= i < run_chunks(m, padded, verdicts, n).1.len() ==> long_enough(
                Some(#[trigger] run_chunks(m, padded, verdicts, n).1[i]),
                m.limits.min_speech_samples,
            ),
    decreases n,
{
    if n > 0 {
        lemma_run_chunks(m, padded, verdicts, (n - 1) as nat);
        let (m1, evs) = run_chunks(m, padded, verdicts, (n - 1) as nat);
        law_vad_segments(m1, chunk_at(padded, n - 1), verdicts[n - 1]);
    }
}

/// Over a whole recording, every segment reported is non-empty and at
/// least the shortest speech long.
pub proof fn law_whole_recording_segments(limits: VadLimits, content: Seq<i16>, verdicts: Seq<bool>)
    ensures
        segment_all_spec(limits, content, verdicts) matches Ok(evs) ==> forall|i: int|
            0 <= i < evs.len() ==> long_enough(Some(#[trigger] evs[i]), limits.min_speech_samples),
{
    let padded = padded_spec(content);
    let n = padded.len() as int / (CHUNK_SIZE as int);
    if limits.sample_rate == VAD_SAMPLE_RATE && verdicts.len() == n {
        lemma_run_chunks(initial_model(limits), padded, verdicts, n as nat);
        let (m, evs) = run_chunks(initial_model(limits), padded, verdicts, n as nat);
        law_vad_segments(m, Seq::empty(), false);
    }
}

/// The state and the report after each chunk of a run of chunks that are
/// all judged silent.
pub open spec fn silent_run(m: VadModel, chunks: Seq<Seq<i16>>) -> (VadModel, Seq<Option<VadEvent>>)
    decreases chunks.len(),
{
    if chunks.len() == 0 {
        (m, Seq::empty())
    } else {
        let (m1, evs) = silent_run(m, chunks.drop_last());
        let (m2, e) = step_model(m1, chunks.last(), false);
        (m2, evs.push(e))
    }
}

/// The number of the silent chunk (counting from one) on which silence is
/// reported, for a limit of `limit` dropped chunks.
pub open spec fn first_notice(limit: u64) -> int {
    if limit == 0 {
        1
    } else {
        limit as int
    }
}

/// The reports, one per chunk, of a silent run that starts a wait.
pub open spec fn silent_reports(notify: Option<u64>, n: int) -> Seq<Option<VadEvent>> {
    Seq::new(
        n as nat,
        |i: int|
            match notify {
                Some(l) => if i + 1 == first_notice(l) {
                    Some(VadEvent::SilenceNotification)
                } else {
                    None
                },
                None => None,
            },
    )
}

/// Through a silent run that starts a wait, the detector keeps waiting and
/// counts the dropped chunks; it reports silence on exactly one chunk, the
/// first whose count reaches the limit, and never when notification is
/// off.
pub proof fn law_silence_reported_on_reaching_limit(m: VadModel, chunks: Seq<Seq<i16>>)
    requires
        !m.recording,
        m.waiting_dropped_chunks == 0,
        !m.notified_silence,
        chunks.len() < u64::MAX,
    ensures
        silent_run(m, chunks).1 == silent_reports(m.limits.notify_silence_chunks, chunks.len() as int),
        !silent_run(m, chunks).0.recording,
        silent_run(m, chunks).0.limits == m.limits,
        m.limits.notify_silence_chunks is Some ==> silent_run(m, chunks).0.waiting_dropped_chunks
            == chunks.len(),
    decreases chunks.len(),
{
    let notify = m.limits.notify_silence_chunks;
    if chunks.len() > 0 {
        let front = chunks.drop_last();
        law_silence_reported_on_reaching_limit(m, front);
        let (m1, evs) = silent_run(m, front);
        let k = front.len() as int;
        match notify {
            Some(l) => {
                assert(m1.notified_silence == (k >= first_notice(l))) by {
                    lemma_silent_notified(m, front);
                }
            },
            None => {
                lemma_silent_notified(m, front);
            },
        }
        assert(silent_run(m, chunks).1 =~= silent_reports(notify, chunks.len() as int));
    } else {
        assert(silent_run(m, chunks).1 =~= silent_reports(notify, 0));
    }
}

/// Through a silent run that starts a wait, silence has been reported once
/// the count has reached the limit, and not before; with notification off
/// the count stays and nothing is reported.
proof fn lemma_silent_notified(m: VadModel, chunks: Seq<Seq<i16>>)
    requires
        !m.recording,
        m.waiting_dropped_chunks == 0,
        !m.notified_silence,
        chunks.len() < u64::MAX,
    ensures
        !silent_run(m, chunks).0.recording,
        silent_run(m, chunks).0.limits == m.limits,
        match m.limits.notify_silence_chunks {
            Some(l) => silent_run(m, chunks).0.notified_silence == (chunks.len() >= first_notice(l))
                && silent_run(m, chunks).0.waiting_dropped_chunks == chunks.len(),
            None => !silent_run(m, chunks).0.notified_silence,
        },
    decreases chunks.len(),
{
    if chunks.len() > 0 {
        lemma_silent_notified(m, chunks.drop_last());
    }
}

/// While recording, a chunk judged speech resets the count of silent
/// chunks (or ends the segment, after which nothing is counted): a segment
/// can end on silence only after that many consecutive silent chunks.
pub proof fn law_speech_resets_silence(m: VadModel, chunk: Seq<i16>)
    ensures
        step_model(m, chunk, true).0.silence_chunks == 0,
{
}

/// A recording that has just heard speech keeps recording through fewer
/// silent chunks than the limit: none of them ends the segment or reports
/// anything, and the silence count is the number of silent chunks.
pub proof fn law_short_pause_keeps_recording(m: VadModel, chunks: Seq<Seq<i16>>)
    requires
        m.recording,
        m.silence_chunks == 0,
        chunks.len() < m.limits.silence_chunks,
    ensures
        silent_run(m, chunks).0.recording,
        silent_run(m, chunks).0.silence_chunks == chunks.len(),
        silent_run(m, chunks).0.limits == m.limits,
        silent_run(m, chunks).1.len() == chunks.len(),
        forall|i: int| 0 <= i < chunks.len() ==> (#[trigger] silent_run(m, chunks).1[i]) is None,
    decreases chunks.len(),
{
    if chunks.len() > 0 {
        law_short_pause_keeps_recording(m, chunks.drop_last());
        let (m1, evs) = silent_run(m, chunks.drop_last());
        let (m2, e) = step_model(m1, chunks.last(), false);
        assert(silent_run(m, chunks).1 == evs.push(e));
        assert forall|i: int| 0 <= i < chunks.len() implies (#[trigger] silent_run(m, chunks).1[i]) is None by {
            if i < chunks.len() - 1 {
                assert(silent_run(m, chunks).1[i] == evs[i]);
            }
        }
    }
}

/// While recording, speech goes on until the segment reaches the longest
/// speech: a speech chunk that leaves the count under the limit keeps
/// recording and reports nothing, and the one that reaches it ends the
/// segment without trimming.
pub proof fn law_long_speech_is_cut(m: VadModel, chunk: Seq<i16>)
    requires
        m.recording,
    ensures
        bump(m.speech_chunks) < m.limits.max_speech_chunks ==> step_model(m, chunk, true).0.recording
            && step_model(m, chunk, true).1 is None && step_model(m, chunk, true).0.segment
            == m.segment + chunk,
        bump(m.speech_chunks) >= m.limits.max_speech_chunks ==> !step_model(m, chunk, true).0.recording
            && (step_model(m, chunk, true).1 matches Some(VadEvent::Segment(seg)) ==> seg
            == m.segment + chunk),
{
}

/// A silent chunk that brings the silence count to the limit ends the
/// segment, and the reported samples leave out exactly the silent chunks
/// at its end.
pub proof fn law_silence_ends_segment(m: VadModel, chunk: Seq<i16>)
    requires
        m.recording,
        chunk.len() == CHUNK_SIZE,
        bump(m.silence_chunks) >= m.limits.silence_chunks,
    ensures
        !step_model(m, chunk, false).0.recording,
        step_model(m, chunk, false).1 matches Some(VadEvent::Segment(seg)) ==> seg == (m.segment
            + chunk).take((m.segment + chunk).len() - bump(m.silence_chunks) * CHUNK_SIZE),
{
}

} // verus!
