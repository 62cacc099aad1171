//! The cache and status of the lazily loaded local model.
use voxtype::model::{
    bundled_asr_candidates, get_model, model_status_info, reset_model, set_resource_dir,
    store_model_err, store_model_ok, update_loading_status, AsrDirCandidate, LoadStatus,
    ModelCell, ModelLoadAction, ModelLoadStep, ModelManager,
};

const SEC: u64 = 1_000_000_000;

#[test]
fn resource_dir_is_set_once() {
    let mut m: ModelManager<u8> = ModelManager::new();
    assert!(bundled_asr_candidates(&m).is_empty());
    set_resource_dir(&mut m, Some("/res".to_string()));
    set_resource_dir(&mut m, Some("/other".to_string()));
    assert_eq!(m.resource_dir, Some(Some("/res".to_string())));
    assert_eq!(
        bundled_asr_candidates(&m),
        vec![
            AsrDirCandidate::ResourceSensevoice,
            AsrDirCandidate::ResourceResources,
            AsrDirCandidate::CrateResourcesSensevoice,
            AsrDirCandidate::CrateParentResourcesSensevoice,
            AsrDirCandidate::CrateSensevoice,
        ]
    );
    let mut none: ModelManager<u8> = ModelManager::new();
    set_resource_dir(&mut none, None);
    assert_eq!(bundled_asr_candidates(&none).len(), 3);
}

#[test]
fn status_moves_only_on_change() {
    let mut m: ModelManager<u8> = ModelManager::new();
    let info = model_status_info(&m, 0);
    assert_eq!(info.status, LoadStatus::Ready);
    assert_eq!(info.message, "");
    assert_eq!(info.elapsed_secs, 0);
    assert!(info.cache_exists);

    update_loading_status(&mut m, LoadStatus::Loading, "Loading SenseVoice model...", 5 * SEC);
    update_loading_status(&mut m, LoadStatus::Loading, "other", 6 * SEC);
    let info = model_status_info(&m, 8 * SEC + 1);
    assert_eq!(info.status, LoadStatus::Loading);
    assert_eq!(info.message, "Loading SenseVoice model...");
    assert_eq!(info.elapsed_secs, 3);

    store_model_ok(&mut m, 7, 12 * SEC);
    let info = model_status_info(&m, 100 * SEC);
    assert_eq!(info.status, LoadStatus::Ready);
    assert_eq!(info.message, "Model loaded and ready");
    assert_eq!(info.elapsed_secs, 7);
    assert!(matches!(m.cell, ModelCell::Ready(7)));
}

#[test]
fn failure_text_reports_the_elapsed_seconds() {
    let mut m: ModelManager<u8> = ModelManager::new();
    update_loading_status(&mut m, LoadStatus::Loading, "Downloading SenseVoice-Small model...", 0);
    let text = store_model_err(&mut m, "no network".to_string(), 12 * SEC + 500);
    assert_eq!(
        text,
        "SenseVoice model init failed after 12s.\n\nno network\n\nTips:\n\
         • Bundled: verify resources/sensevoice/ contains model.pt\n\
         • VAD: verify resources/sensevoice/vad/ contains model.pt + am.mvn\n\
         • Model size: ~200MB"
    );
    let info = model_status_info(&m, 50 * SEC);
    assert_eq!(info.status, LoadStatus::Failed);
    assert_eq!(info.message, "no network");
    assert_eq!(info.elapsed_secs, 12);
}

#[test]
fn loading_prefers_bundled_files_then_the_network() {
    let mut m: ModelManager<&str> = ModelManager::new();
    assert!(matches!(get_model(&mut m, ModelLoadStep::Start, 0), ModelLoadAction::LocateBundled));
    assert!(matches!(
        get_model(&mut m, ModelLoadStep::BundledFound(true), SEC),
        ModelLoadAction::LoadBundled
    ));
    assert_eq!(m.loading.message, "Loading SenseVoice model...");
    assert!(matches!(
        get_model(&mut m, ModelLoadStep::BundledLoaded(Err("bad file".to_string())), 2 * SEC),
        ModelLoadAction::LoadFromNetwork
    ));
    assert!(matches!(
        get_model(&mut m, ModelLoadStep::NetworkLoaded(Ok("model")), 4 * SEC),
        ModelLoadAction::UseCached
    ));
    assert_eq!(m.loading.status, LoadStatus::Ready);
    assert_eq!(m.loading.elapsed_secs, 3);
    assert!(matches!(get_model(&mut m, ModelLoadStep::Start, 5 * SEC), ModelLoadAction::UseCached));
}

#[test]
fn a_failure_is_cached_until_reset() {
    let mut m: ModelManager<u8> = ModelManager::new();
    assert!(matches!(
        get_model(&mut m, ModelLoadStep::BundledFound(false), 0),
        ModelLoadAction::LoadFromNetwork
    ));
    assert_eq!(m.loading.message, "Downloading SenseVoice-Small model...");
    match get_model(&mut m, ModelLoadStep::NetworkLoaded(Err("boom".to_string())), 2 * SEC) {
        ModelLoadAction::Fail(t) => assert!(t.starts_with("SenseVoice model init failed after 2s.\n\nboom")),
        other => panic!("unexpected {:?}", other),
    }
    match get_model(&mut m, ModelLoadStep::Start, 3 * SEC) {
        ModelLoadAction::Fail(t) => assert_eq!(t, "SenseVoice init failed: boom"),
        other => panic!("unexpected {:?}", other),
    }
    reset_model(&mut m);
    assert!(matches!(m.cell, ModelCell::Empty));
    assert_eq!(m.loading.status, LoadStatus::Ready);
    assert!(m.loading.started_at.is_none());
    assert!(matches!(get_model(&mut m, ModelLoadStep::Start, 4 * SEC), ModelLoadAction::LocateBundled));
}
