//! Segmentation of audio into speech by the voice-activity detector.
use voxtype::sensevoice::CHUNK_SIZE;
use voxtype::vad::{
    check_vad_sample_rate, segment_all, vad_file_not_found, vad_source, VadError, VadFile,
    VadFileKind, VadLimits, VadOutput, VadProcessor,
};

fn default_limits() -> VadLimits {
    VadLimits::from_millis(16000, 500, 9000, 200, 250, None)
}

fn chunk(v: i16) -> [i16; CHUNK_SIZE] {
    [v; CHUNK_SIZE]
}

#[test]
fn limits_from_millis_round_to_whole_chunks() {
    let l = default_limits();
    assert_eq!(l.sample_rate, 16000);
    // 500 ms of 32 ms chunks: 15.625, so 16 chunks
    assert_eq!(l.silence_chunks, 16);
    // 9000 ms: 281.25, so 282 chunks
    assert_eq!(l.max_speech_chunks, 282);
    assert_eq!(l.rollback_samples, 3200);
    assert_eq!(l.min_speech_samples, 4000);
    assert_eq!(l.notify_silence_chunks, None);
    let exact = VadLimits::from_millis(16000, 64, 32, 0, 1, Some(96));
    assert_eq!(exact.silence_chunks, 2);
    assert_eq!(exact.max_speech_chunks, 1);
    assert_eq!(exact.min_speech_samples, 16);
    assert_eq!(exact.notify_silence_chunks, Some(3));
}

#[test]
fn speech_then_silence_gives_one_trimmed_segment() {
    let mut vad = VadProcessor::new(default_limits()).unwrap();
    assert!(vad.process_chunk(&chunk(1), true).is_none());
    for _ in 0..20 {
        assert!(vad.process_chunk(&chunk(2), true).is_none());
    }
    for _ in 0..15 {
        assert!(vad.process_chunk(&chunk(0), false).is_none());
    }
    match vad.process_chunk(&chunk(0), false) {
        Some(VadOutput::Segment(seg)) => {
            assert_eq!(seg.len(), 21 * CHUNK_SIZE);
            assert_eq!(seg[0], 1);
            assert_eq!(seg[seg.len() - 1], 2);
        }
        other => panic!("expected a segment, got {:?}", other),
    }
    assert!(vad.finish().is_none());
}

#[test]
fn context_before_speech_is_kept_up_to_rollback() {
    let mut vad = VadProcessor::new(default_limits()).unwrap();
    for v in 1..=10 {
        assert!(vad.process_chunk(&chunk(v), false).is_none());
    }
    assert!(vad.process_chunk(&chunk(11), true).is_none());
    for _ in 0..5 {
        assert!(vad.process_chunk(&chunk(12), true).is_none());
    }
    match vad.finish() {
        Some(VadOutput::Segment(seg)) => {
            // 3200 samples of context, then the speech chunk, then five more
            assert_eq!(seg.len(), 3200 + 5 * CHUNK_SIZE);
            assert_eq!(seg[0], 5);
            assert_eq!(seg[3200 - CHUNK_SIZE], 11);
        }
        other => panic!("expected a segment, got {:?}", other),
    }
}

#[test]
fn short_noise_is_dropped() {
    let mut vad = VadProcessor::new(default_limits()).unwrap();
    assert!(vad.process_chunk(&chunk(3), true).is_none());
    for _ in 0..15 {
        assert!(vad.process_chunk(&chunk(0), false).is_none());
    }
    assert!(vad.process_chunk(&chunk(0), false).is_none());
    assert!(vad.finish().is_none());
}

#[test]
fn long_speech_is_cut_at_the_limit() {
    let limits = VadLimits::from_millis(16000, 500, 96, 0, 0, None);
    assert_eq!(limits.max_speech_chunks, 3);
    let mut vad = VadProcessor::new(limits).unwrap();
    assert!(vad.process_chunk(&chunk(1), true).is_none());
    assert!(vad.process_chunk(&chunk(1), true).is_none());
    assert!(vad.process_chunk(&chunk(1), true).is_none());
    match vad.process_chunk(&chunk(1), true) {
        Some(VadOutput::Segment(seg)) => assert_eq!(seg.len(), 3 * CHUNK_SIZE),
        other => panic!("expected a segment, got {:?}", other),
    }
}

#[test]
fn silence_is_reported_once_per_wait() {
    let mut vad = VadProcessor::new(default_limits()).unwrap();
    vad.set_notify_silence_after_ms(Some(64));
    assert_eq!(vad.limits().notify_silence_chunks, Some(2));
    assert!(vad.process_chunk(&chunk(0), false).is_none());
    assert!(matches!(vad.process_chunk(&chunk(0), false), Some(VadOutput::SilenceNotification)));
    assert!(vad.process_chunk(&chunk(0), false).is_none());
    assert!(vad.process_chunk(&chunk(0), false).is_none());
    vad.set_notify_silence_after_ms(None);
    assert_eq!(vad.limits().notify_silence_chunks, None);
    assert!(vad.process_chunk(&chunk(0), false).is_none());
}

#[test]
fn finish_without_speech_reports_nothing() {
    let mut vad = VadProcessor::new(default_limits()).unwrap();
    assert!(vad.finish().is_none());
    assert!(vad.process_chunk(&chunk(0), false).is_none());
    assert!(vad.finish().is_none());
}

#[test]
fn whole_recording_is_segmented() {
    let mut content: Vec<i16> = Vec::new();
    content.extend(std::iter::repeat(0).take(3 * CHUNK_SIZE));
    content.extend(std::iter::repeat(9).take(20 * CHUNK_SIZE));
    content.extend(std::iter::repeat(0).take(16 * CHUNK_SIZE + 100));
    // 40 chunks once padded
    let mut verdicts = vec![false; 3];
    verdicts.extend(vec![true; 20]);
    verdicts.extend(vec![false; 17]);
    let out = segment_all(default_limits(), &content, &verdicts).unwrap();
    assert_eq!(out.len(), 1);
    match &out[0] {
        VadOutput::Segment(seg) => {
            // the three chunks of context, then the speech
            assert_eq!(seg.len(), 23 * CHUNK_SIZE);
        }
        other => panic!("unexpected {:?}", other),
    }
    assert_eq!(
        segment_all(default_limits(), &content, &verdicts[1..]).err(),
        Some(VadError::VerdictCountMismatch)
    );
    assert_eq!(segment_all(default_limits(), &[], &[]).ok().map(|v| v.len()), Some(0));
}

#[test]
fn whole_recording_keeps_silence_notifications() {
    let limits = VadLimits::from_millis(16000, 500, 9000, 200, 250, Some(64));
    let content = vec![0i16; 5 * CHUNK_SIZE];
    let out = segment_all(limits, &content, &[false; 5]).unwrap();
    assert_eq!(out.len(), 1);
    assert!(matches!(out[0], VadOutput::SilenceNotification));
}

#[test]
fn only_16k_audio_is_accepted() {
    assert_eq!(check_vad_sample_rate(16000), Ok(()));
    assert_eq!(check_vad_sample_rate(8000), Err(VadError::UnsupportedSampleRate));
    assert_eq!(VadError::UnsupportedSampleRate.message(), "FSMN-VAD currently supports 16k sample rate");
    let limits8k = VadLimits::from_millis(8000, 500, 9000, 200, 250, None);
    assert_eq!(VadProcessor::new(limits8k).err(), Some(VadError::UnsupportedSampleRate));
    let content = vec![0i16; CHUNK_SIZE];
    // the rate is refused before the verdicts are looked at
    assert_eq!(segment_all(limits8k, &content, &[]).err(), Some(VadError::UnsupportedSampleRate));
    assert!(VadProcessor::new(default_limits()).is_ok());
}

#[test]
fn detector_files_come_from_given_paths_or_the_hub() {
    let both = vad_source(Some("m.pt".to_string()), Some("am.mvn".to_string()));
    assert!(matches!(both.model, VadFile::Given(ref p) if p == "m.pt"));
    assert!(matches!(both.cmvn, VadFile::Given(ref p) if p == "am.mvn"));
    let model_only = vad_source(Some("m.pt".to_string()), None);
    assert!(matches!(model_only.model, VadFile::Given(ref p) if p == "m.pt"));
    assert!(matches!(model_only.cmvn, VadFile::Hub));
    let cmvn_only = vad_source(None, Some("c".to_string()));
    assert!(matches!(cmvn_only.model, VadFile::Hub));
    assert!(matches!(cmvn_only.cmvn, VadFile::Given(ref p) if p == "c"));
    let neither = vad_source(None, None);
    assert!(matches!(neither.model, VadFile::Hub) && matches!(neither.cmvn, VadFile::Hub));
    assert_eq!(vad_file_not_found(VadFileKind::Model, "/x/model.pt"), "VAD model file not found: /x/model.pt");
    assert_eq!(vad_file_not_found(VadFileKind::Cmvn, "/x/am.mvn"), "VAD cmvn file not found: /x/am.mvn");
}
