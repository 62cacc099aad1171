//! The bookkeeping around the lazily loaded local recognition model: the
//! cache of the loaded model (or of the failure), the loading status shown
//! to the user, the set-once resource directory, the order in which bundled
//! model directories are tried and the decisions of loading.
//!
//! Times are nanoseconds on a monotonic clock that the caller reads.
use vstd::prelude::*;
use vstd::string::StringExecFns;
use crate::text::{decimal, push_decimal};

verus! {

/// The recognizer's weights in a model directory.
pub const ASR_MODEL_FILE: &'static str = "model.pt";

/// The recognizer's tokenizer in a model directory.
pub const TOKENIZER_FILE: &'static str = "chn_jpn_yue_eng_ko_spectok.bpe.model";

/// The recognizer's feature normalization in a model directory.
pub const CMVN_FILE: &'static str = "am.mvn";

/// The directory, inside a model directory, of the detector's files.
pub const VAD_DIR: &'static str = "vad";

/// The detector's weights in its directory.
pub const VAD_MODEL_FILE: &'static str = "model.pt";

/// The detector's normalization in its directory.
pub const VAD_CMVN_FILE: &'static str = "am.mvn";

/// Where loading stands, as shown to the user.
#[derive(Debug, Clone, Copy, PartialEq, Eq, Structural)]
pub enum LoadStatus {
    Loading,
    Ready,
    Failed,
}

/// The status payload for the user interface.
#[derive(Debug)]
pub struct ModelStatusInfo {
    pub status: LoadStatus,
    pub message: String,
    pub elapsed_secs: u64,
    pub cache_exists: bool,
}

/// The cached outcome of loading.
pub enum ModelCell<M> {
    /// Nothing loaded or tried yet (or the cache was reset).
    Empty,
    /// The loaded model.
    Ready(M),
    /// Loading failed with this message; it is not retried until a reset.
    Failed(String),
}

/// The loading status and when loading started.
pub struct LoadingState {
    pub status: LoadStatus,
    pub message: String,
    pub started_at: Option<u64>,
    pub elapsed_secs: u64,
}

/// The model cache, the loading status and the resource directory.
pub struct ModelManager<M> {
    pub resource_dir: Option<Option<String>>,
    pub cell: ModelCell<M>,
    pub loading: LoadingState,
}

/// Whole seconds from `start` to `now`, none if `now` is earlier.
pub open spec fn elapsed_secs_spec(start: u64, now: u64) -> u64 {
    if now >= start {
        ((now - start) / 1_000_000_000) as u64
    } else {
        0
    }
}

fn elapsed_secs(start: u64, now: u64) -> (r: u64)
    ensures
        r == elapsed_secs_spec(start, now),
{
    if now >= start {
        (now - start) / 1_000_000_000
    } else {
        0
    }
}

/// The loading state as plain values.
pub struct LoadingView {
    pub status: LoadStatus,
    pub message: Seq<char>,
    pub started_at: Option<u64>,
    pub elapsed_secs: u64,
}

/// The loading state as plain values.
pub open spec fn loading_view(l: LoadingState) -> LoadingView {
    LoadingView {
        status: l.status,
        message: l.message@,
        started_at: l.started_at,
        elapsed_secs: l.elapsed_secs,
    }
}

/// The loading state after a move to `status` with `message` at `now`:
/// unchanged if the status is already `status`; else the new status and
/// message, and the start noted if it was not yet.
pub open spec fn moved_loading(l: LoadingView, status: LoadStatus, message: Seq<char>, now: u64) -> LoadingView {
    if l.status == status {
        l
    } else {
        LoadingView {
            status,
            message,
            started_at: match l.started_at {
                Some(t) => Some(t),
                None => Some(now),
            },
            elapsed_secs: l.elapsed_secs,
        }
    }
}

/// The loading state when loading ends with `status` and `message` at
/// `now`: the elapsed time is noted if loading had started.
pub open spec fn settled_loading(l: LoadingView, status: LoadStatus, message: Seq<char>, now: u64) -> LoadingView {
    LoadingView {
        status,
        message,
        started_at: l.started_at,
        elapsed_secs: match l.started_at {
            Some(t) => elapsed_secs_spec(t, now),
            None => l.elapsed_secs,
        },
    }
}

/// The loading state of a fresh manager: ready, no message, no timing.
pub open spec fn initial_loading(l: LoadingState) -> bool {
    &&& l.status == LoadStatus::Ready
    &&& l.message@.len() == 0
    &&& l.started_at is None
    &&& l.elapsed_secs == 0
}

impl<M> ModelManager<M> {
    /// Nothing loaded, status ready, resource directory not set.
    pub fn new() -> (m: Self)
        ensures
            m.resource_dir is None,
            m.cell is Empty,
            initial_loading(m.loading),
    {
        ModelManager {
            resource_dir: None,
            cell: ModelCell::Empty,
            loading: LoadingState {
                status: LoadStatus::Ready,
                message: String::new(),
                started_at: None,
                elapsed_secs: 0,
            },
        }
    }
}

/// Sets the resource directory once: a second call changes nothing.
pub fn set_resource_dir<M>(manager: &mut ModelManager<M>, path: Option<String>)
    ensures
        old(manager).resource_dir is None ==> final(manager).resource_dir == Some(path),
        old(manager).resource_dir is Some ==> final(manager).resource_dir == old(manager).resource_dir,
        final(manager).cell == old(manager).cell,
        final(manager).loading == old(manager).loading,
{
    if manager.resource_dir.is_none() {
        manager.resource_dir = Some(path);
    }
}

/// Moves the status to `status` with `message` if it is not there already,
/// and notes the start of loading the first time.
pub fn update_loading_status<M>(
    manager: &mut ModelManager<M>,
    status: LoadStatus,
    message: &str,
    now: u64,
)
    ensures
        final(manager).cell == old(manager).cell,
        final(manager).resource_dir == old(manager).resource_dir,
        loading_view(final(manager).loading) == moved_loading(
            loading_view(old(manager).loading),
            status,
            message@,
            now,
        ),
        old(manager).loading.status == status ==> final(manager).loading == old(manager).loading,
{
    if manager.loading.status != status {
        manager.loading.status = status;
        manager.loading.message = String::from_str(message);
        if manager.loading.started_at.is_none() {
            manager.loading.started_at = Some(now);
        }
    }
}

/// The elapsed time noted when loading ends.
pub open spec fn settled_elapsed(l: LoadingState, now: u64) -> u64 {
    match l.started_at {
        Some(t) => elapsed_secs_spec(t, now),
        None => l.elapsed_secs,
    }
}

/// Caches the loaded model and marks it ready.
pub fn store_model_ok<M>(manager: &mut ModelManager<M>, model: M, now: u64)
    ensures
        final(manager).cell == ModelCell::Ready(model),
        final(manager).resource_dir == old(manager).resource_dir,
        loading_view(final(manager).loading) == settled_loading(
            loading_view(old(manager).loading),
            LoadStatus::Ready,
            "Model loaded and ready"@,
            now,
        ),
{
    manager.cell = ModelCell::Ready(model);
    manager.loading.status = LoadStatus::Ready;
    manager.loading.message = String::from_str("Model loaded and ready");
    if let Some(start) = manager.loading.started_at {
        manager.loading.elapsed_secs = elapsed_secs(start, now);
    }
}

/// The text that explains a failed load.
pub open spec fn init_failure_text(elapsed: u64, err: Seq<char>) -> Seq<char> {
    "SenseVoice model init failed after "@ + decimal(elapsed as nat) + "s.\n\n"@ + err
        + "\n\nTips:\n• Bundled: verify resources/sensevoice/ contains model.pt\n• VAD: verify resources/sensevoice/vad/ contains model.pt + am.mvn\n• Model size: ~200MB"@
}

/// Caches the failure, marks loading failed and returns the text that
/// explains it.
pub fn store_model_err<M>(manager: &mut ModelManager<M>, err: String, now: u64) -> (text: String)
    ensures
        final(manager).cell matches ModelCell::Failed(e) && e@ == err@,
        final(manager).resource_dir == old(manager).resource_dir,
        text@ == init_failure_text(settled_elapsed(old(manager).loading, now), err@),
        loading_view(final(manager).loading) == settled_loading(
            loading_view(old(manager).loading),
            LoadStatus::Failed,
            err@,
            now,
        ),
{
    manager.cell = ModelCell::Failed(err.clone());
    manager.loading.status = LoadStatus::Failed;
    manager.loading.message = err.clone();
    if let Some(start) = manager.loading.started_at {
        manager.loading.elapsed_secs = elapsed_secs(start, now);
    }
    let mut text = String::from_str("SenseVoice model init failed after ");
    push_decimal(&mut text, manager.loading.elapsed_secs);
    text.append("s.\n\n");
    text.append(err.as_str());
    text.append(
        "\n\nTips:\n• Bundled: verify resources/sensevoice/ contains model.pt\n• VAD: verify resources/sensevoice/vad/ contains model.pt + am.mvn\n• Model size: ~200MB",
    );
    text
}

/// Empties the cache so that the next use loads again, and resets the
/// status.
pub fn reset_model<M>(manager: &mut ModelManager<M>)
    ensures
        final(manager).cell is Empty,
        initial_loading(final(manager).loading),
        final(manager).resource_dir == old(manager).resource_dir,
{
    manager.cell = ModelCell::Empty;
    manager.loading.status = LoadStatus::Ready;
    manager.loading.message = String::new();
    manager.loading.started_at = None;
    manager.loading.elapsed_secs = 0;
}

/// The elapsed time shown: counted live while loading, else the noted one.
pub open spec fn shown_elapsed(l: LoadingState, now: u64) -> u64 {
    match (l.status, l.started_at) {
        (LoadStatus::Loading, Some(t)) => elapsed_secs_spec(t, now),
        _ => l.elapsed_secs,
    }
}

/// The status payload for the user interface; the model files are bundled,
/// so the cache always exists.
pub fn model_status_info<M>(manager: &ModelManager<M>, now: u64) -> (info: ModelStatusInfo)
    ensures
        info.status == manager.loading.status,
        info.message@ == manager.loading.message@,
        info.elapsed_secs == shown_elapsed(manager.loading, now),
        info.cache_exists,
{
    let elapsed = match (manager.loading.status, manager.loading.started_at) {
        (LoadStatus::Loading, Some(start)) => elapsed_secs(start, now),
        _ => manager.loading.elapsed_secs,
    };
    ModelStatusInfo {
        status: manager.loading.status,
        message: manager.loading.message.clone(),
        elapsed_secs: elapsed,
        cache_exists: true,
    }
}

/// The directories where a bundled model may be, in the order they are
/// tried.
#[derive(Debug, Clone, Copy, PartialEq, Eq, Structural)]
pub enum AsrDirCandidate {
    /// `<resource dir>/sensevoice`
    ResourceSensevoice,
    /// `<resource dir>/resources`
    ResourceResources,
    /// `<crate dir>/resources/sensevoice`
    CrateResourcesSensevoice,
    /// `<crate dir>/../resources/sensevoice`
    CrateParentResourcesSensevoice,
    /// `<crate dir>/sensevoice`
    CrateSensevoice,
}

/// The candidates for a resource directory setting: none while it was
/// never set; the crate directories when it was set to nothing; the
/// resource directories first when it was set.
pub open spec fn asr_candidates_spec(resource_dir: Option<Option<String>>) -> Seq<AsrDirCandidate> {
    match resource_dir {
        None => Seq::empty(),
        Some(None) => seq![
            AsrDirCandidate::CrateResourcesSensevoice,
            AsrDirCandidate::CrateParentResourcesSensevoice,
            AsrDirCandidate::CrateSensevoice,
        ],
        Some(Some(_)) => seq![
            AsrDirCandidate::ResourceSensevoice,
            AsrDirCandidate::ResourceResources,
            AsrDirCandidate::CrateResourcesSensevoice,
            AsrDirCandidate::CrateParentResourcesSensevoice,
            AsrDirCandidate::CrateSensevoice,
        ],
    }
}

/// The directories to look in for a bundled model, in order; the first
/// that holds all model files is used.
pub fn bundled_asr_candidates<M>(manager: &ModelManager<M>) -> (r: Vec<AsrDirCandidate>)
    ensures
        r@ == asr_candidates_spec(manager.resource_dir),
{
    let mut r: Vec<AsrDirCandidate> = Vec::new();
    match &manager.resource_dir {
        None => {},
        Some(dir) => {
            if dir.is_some() {
                r.push(AsrDirCandidate::ResourceSensevoice);
                r.push(AsrDirCandidate::ResourceResources);
            }
            r.push(AsrDirCandidate::CrateResourcesSensevoice);
            r.push(AsrDirCandidate::CrateParentResourcesSensevoice);
            r.push(AsrDirCandidate::CrateSensevoice);
        },
    }
    assert(r@ =~= asr_candidates_spec(manager.resource_dir));
    r
}

/// What happened since the last step of loading.
pub enum ModelLoadStep<M> {
    /// The model is wanted.
    Start,
    /// The bundled directories were searched: whether a model was found.
    BundledFound(bool),
    /// Loading the bundled model ended.
    BundledLoaded(Result<M, String>),
    /// Loading from the network ended.
    NetworkLoaded(Result<M, String>),
}

/// What the caller does next.
#[derive(Debug)]
pub enum ModelLoadAction {
    /// Use the cached model.
    UseCached,
    /// Give up with this error text.
    Fail(String),
    /// Search the bundled directories.
    LocateBundled,
    /// Load the bundled model that was found.
    LoadBundled,
    /// Download and load the model.
    LoadFromNetwork,
}

/// An action as plain values.
pub enum LoadActionView {
    UseCached,
    Fail(Seq<char>),
    LocateBundled,
    LoadBundled,
    LoadFromNetwork,
}

/// An action as plain values.
pub open spec fn action_view(a: ModelLoadAction) -> LoadActionView {
    match a {
        ModelLoadAction::UseCached => LoadActionView::UseCached,
        ModelLoadAction::Fail(t) => LoadActionView::Fail(t@),
        ModelLoadAction::LocateBundled => LoadActionView::LocateBundled,
        ModelLoadAction::LoadBundled => LoadActionView::LoadBundled,
        ModelLoadAction::LoadFromNetwork => LoadActionView::LoadFromNetwork,
    }
}

/// The first decision when the model is wanted: the cached model, the
/// cached failure, or a search.
pub open spec fn start_action<M>(cell: ModelCell<M>) -> LoadActionView {
    match cell {
        ModelCell::Ready(_) => LoadActionView::UseCached,
        ModelCell::Failed(e) => LoadActionView::Fail("SenseVoice init failed: "@ + e@),
        ModelCell::Empty => LoadActionView::LocateBundled,
    }
}

/// One step of getting the model: bundled files are preferred, the network
/// is the fallback, a success is cached and used, a failure of the network
/// load is cached and reported.
pub fn get_model<M>(manager: &mut ModelManager<M>, step: ModelLoadStep<M>, now: u64) -> (a:
    ModelLoadAction)
    ensures
        final(manager).resource_dir == old(manager).resource_dir,
        match step {
            ModelLoadStep::Start => action_view(a) == start_action(old(manager).cell)
                && *final(manager) == *old(manager),
            ModelLoadStep::BundledFound(found) => {
                &&& action_view(a) == (if found {
                    LoadActionView::LoadBundled
                } else {
                    LoadActionView::LoadFromNetwork
                })
                &&& final(manager).cell == old(manager).cell
                &&& loading_view(final(manager).loading) == moved_loading(
                    loading_view(old(manager).loading),
                    LoadStatus::Loading,
                    if found {
                        "Loading SenseVoice model..."@
                    } else {
                        "Downloading SenseVoice-Small model..."@
                    },
                    now,
                )
            },
            ModelLoadStep::BundledLoaded(Err(_)) => {
                &&& action_view(a) == LoadActionView::LoadFromNetwork
                &&& final(manager).cell == old(manager).cell
                &&& loading_view(final(manager).loading) == moved_loading(
                    loading_view(old(manager).loading),
                    LoadStatus::Loading,
                    "Downloading SenseVoice-Small model..."@,
                    now,
                )
            },
            ModelLoadStep::BundledLoaded(Ok(m)) | ModelLoadStep::NetworkLoaded(Ok(m)) => {
                &&& action_view(a) == LoadActionView::UseCached
                &&& final(manager).cell == ModelCell::Ready(m)
                &&& loading_view(final(manager).loading) == settled_loading(
                    loading_view(old(manager).loading),
                    LoadStatus::Ready,
                    "Model loaded and ready"@,
                    now,
                )
            },
            ModelLoadStep::NetworkLoaded(Err(e)) => {
                &&& final(manager).cell matches ModelCell::Failed(f) && f@ == e@
                &&& action_view(a) == LoadActionView::Fail(
                    init_failure_text(settled_elapsed(old(manager).loading, now), e@),
                )
                &&& loading_view(final(manager).loading) == settled_loading(
                    loading_view(old(manager).loading),
                    LoadStatus::Failed,
                    e@,
                    now,
                )
            },
        },
{
    match step {
        ModelLoadStep::Start => match &manager.cell {
            ModelCell::Ready(_) => ModelLoadAction::UseCached,
            ModelCell::Failed(e) => {
                let mut t = String::from_str("SenseVoice init failed: ");
                t.append(e.as_str());
                ModelLoadAction::Fail(t)
            },
            ModelCell::Empty => ModelLoadAction::LocateBundled,
        },
        ModelLoadStep::BundledFound(found) => {
            if found {
                update_loading_status(manager, LoadStatus::Loading, "Loading SenseVoice model...", now);
                ModelLoadAction::LoadBundled
            } else {
                update_loading_status(
                    manager,
                    LoadStatus::Loading,
                    "Downloading SenseVoice-Small model...",
                    now,
                );
                ModelLoadAction::LoadFromNetwork
            }
        },
        ModelLoadStep::BundledLoaded(Ok(m)) => {
            store_model_ok(manager, m, now);
            ModelLoadAction::UseCached
        },
        ModelLoadStep::BundledLoaded(Err(_)) => {
            update_loading_status(
                manager,
                LoadStatus::Loading,
                "Downloading SenseVoice-Small model...",
                now,
            );
            ModelLoadAction::LoadFromNetwork
        },
        ModelLoadStep::NetworkLoaded(Ok(m)) => {
            store_model_ok(manager, m, now);
            ModelLoadAction::UseCached
        },
        ModelLoadStep::NetworkLoaded(Err(e)) => {
            let text = store_model_err(manager, e, now);
            ModelLoadAction::Fail(text)
        },
    }
}

/// A failure stays cached: asking again reports it without loading, and
/// only a reset makes the next request load again; a loaded model is
/// reused.
pub proof fn law_model_cache<M>(m: M, e: String)
    ensures
        start_action(ModelCell::<M>::Failed(e)) == LoadActionView::Fail(
            "SenseVoice init failed: "@ + e@,
        ),
        start_action(ModelCell::<M>::Empty) == LoadActionView::LocateBundled,
        start_action(ModelCell::Ready(m)) == LoadActionView::UseCached,
{
}

} // verus!
