//! Reconcile passes of the supervisor, against a controller made of plain values.

use execlaw_server::backend_spec::{
    host_port_for, BackendMode, BackendPurpose, BackendRow, ServiceError,
};
use execlaw_server::backend_supervisor::{
    alert_fingerprint, classify_stage_from_log, pull_progress, resolves_alert, tail_truncate,
    BackendRuntimeStatus, BackendSupervisor, DownloadEvent, DownloadProgress, DownloadTask, Effect,
    LifecycleStage, Request, ServiceHandle, ServiceStatus, Step, MAX_RESTART_ATTEMPTS,
};
use execlaw_server::json::{JsonMember, JsonNumber, JsonValue};

/// A controller and a table of rows.
struct World {
    rows: Vec<BackendRow>,
    running: Option<ServiceHandle>,
    pinned_status: Option<ServiceStatus>,
    spawn_error: Option<String>,
    healthy: bool,
    log: String,
    spawns: usize,
    stops: usize,
    alerts: Vec<String>,
    task: DownloadTask,
    cached: bool,
    now: i64,
}

impl World {
    fn new(rows: Vec<BackendRow>) -> World {
        World {
            rows,
            running: None,
            pinned_status: None,
            spawn_error: None,
            healthy: true,
            log: String::new(),
            spawns: 0,
            stops: 0,
            alerts: vec![],
            task: DownloadTask::new(),
            cached: false,
            now: 1_000,
        }
    }

    fn spawn(&mut self, name: String, host_port: u16) -> Result<ServiceHandle, ServiceError> {
        self.spawns += 1;
        if let Some(e) = &self.spawn_error {
            return Err(ServiceError::ImagePull(e.clone()));
        }
        let handle = ServiceHandle { container_id: format!("c{}", self.spawns), name, host_port };
        self.running = Some(handle.clone());
        Ok(handle)
    }

    fn stop(&mut self) {
        self.stops += 1;
        self.running = None;
    }

    fn inspect(&self) -> ServiceStatus {
        match (self.pinned_status, &self.running) {
            (Some(s), _) => s,
            (None, Some(_)) => ServiceStatus::Starting,
            (None, None) => ServiceStatus::NotFound,
        }
    }

    fn apply(&mut self, index: usize, effects: Vec<Effect>) {
        for effect in effects {
            match effect {
                Effect::RaiseAlert(a) => self.alerts.push(a.detail),
                Effect::ResolveAlerts => self.alerts.clear(),
                Effect::StopService(_) => self.stop(),
                Effect::ClearEndpoint => self.rows[index].endpoint = None,
                Effect::WriteEndpoint(url) => self.rows[index].endpoint = Some(url),
                Effect::StartDownload(_) | Effect::StartPull { .. } => {
                    self.task = DownloadTask::new();
                }
            }
        }
    }

    fn reconcile_once(&mut self, sup: &mut BackendSupervisor) {
        for gone in sup.retire_unmanaged(&self.rows) {
            self.stop();
            if gone.clear_endpoint {
                for row in self.rows.iter_mut().filter(|r| r.purpose == gone.purpose) {
                    row.endpoint = None;
                }
            }
        }
        for i in 0..self.rows.len() {
            let purpose = self.rows[i].purpose;
            let mut step = sup.slot_of(purpose).begin_row(&self.rows[i], self.now);
            loop {
                let Step { effects, request } = step;
                self.apply(i, effects);
                match self.answer(sup, i, request) {
                    Some(next) => step = next,
                    None => break,
                }
            }
        }
    }

    fn answer(&mut self, sup: &mut BackendSupervisor, i: usize, ask: Request) -> Option<Step> {
        let purpose = self.rows[i].purpose;
        let host = execlaw_server::backend_supervisor::HostCache {
            downloads: sup.host.downloads,
            primary: sup.host.primary.clone(),
        };
        let now = self.now;
        let slot = sup.slot_mut(purpose);
        Some(match ask {
            Request::Settled => return None,
            Request::TryAdopt { .. } => {
                let found = Ok(self.running.clone());
                slot.on_adopt(&self.rows[i], &host, found, now)
            }
            Request::PollDownload { spec, model_id } => {
                slot.on_download_poll(&self.rows[i], &host, spec, model_id, self.task.poll(), now)
            }
            Request::CheckCache { spec, model_id } => {
                slot.on_cache_check(&host, spec, model_id, self.cached)
            }
            Request::Spawn { spec } => {
                let outcome = self.spawn(spec.name.clone(), spec.host_port);
                slot.on_spawn(&self.rows[i], spec, outcome, now)
            }
            Request::SpawnOnCpu { spec, first_error } => {
                let outcome = self.spawn(spec.name.clone(), spec.host_port);
                slot.on_cpu_spawn(&self.rows[i], spec, first_error, outcome, now)
            }
            Request::Inspect { handle } => {
                let found = Ok(self.inspect());
                slot.on_inspect(&self.rows[i], handle, found, now)
            }
            Request::TailCrashLogs { handle, restart_count, .. } => {
                let log = Some(self.log.clone());
                slot.on_crash_logs(&self.rows[i], handle, restart_count, log)
            }
            Request::TailLogs { handle, .. } => {
                slot.on_logs(&self.rows[i], handle, Some(self.log.clone()))
            }
            Request::HealthCheck { handle, .. } => {
                slot.on_health(&self.rows[i], handle, Ok(self.healthy))
            }
            Request::PollPull { handle, model_id } => {
                slot.on_pull_poll(&self.rows[i], handle, model_id, self.task.poll(), now)
            }
            Request::CheckModel { handle, model_id } => {
                slot.on_model_check(&self.rows[i], handle, model_id, self.cached)
            }
        })
    }

    fn status(&self, sup: &BackendSupervisor, purpose: BackendPurpose) -> BackendRuntimeStatus {
        sup.snapshot_status(&self.rows, self.now)
            .into_iter()
            .find(|s| s.purpose == purpose)
            .unwrap()
    }
}

fn text(s: &str) -> JsonValue {
    JsonValue::Text(s.to_owned())
}

fn member(key: &str, value: JsonValue) -> JsonMember {
    JsonMember { key: key.to_owned(), value }
}

fn row(purpose: BackendPurpose, spec: Vec<JsonMember>) -> BackendRow {
    BackendRow {
        purpose,
        inference_backend: "service-vllm".to_owned(),
        model_spec_json: JsonValue::Object(spec),
        gpu_id: Some("0".to_owned()),
        endpoint: None,
        notes: None,
        reasoning_enabled: true,
        mode: BackendMode::Managed,
        created_at: 100,
        updated_at: 100,
    }
}

fn managed(purpose: BackendPurpose, image: &str) -> BackendRow {
    row(
        purpose,
        vec![
            member("image", text(image)),
            member("args", JsonValue::Array(vec![text("--model"), text("X")])),
            member("container_port", JsonValue::Number(JsonNumber::Unsigned(8000))),
        ],
    )
}

fn external(purpose: BackendPurpose, endpoint: &str) -> BackendRow {
    BackendRow {
        mode: BackendMode::External,
        endpoint: Some(endpoint.to_owned()),
        ..row(purpose, vec![])
    }
}

fn ollama() -> BackendRow {
    BackendRow {
        inference_backend: "service-ollama".to_owned(),
        gpu_id: None,
        ..row(
            BackendPurpose::Standard,
            vec![
                member("runtime", text("native")),
                member("binary_hint", text("ollama")),
                member("args", JsonValue::Array(vec![text("serve")])),
                member("model", text("qwen2.5:32b")),
            ],
        )
    }
}

const STANDARD: BackendPurpose = BackendPurpose::Standard;

#[test]
fn reconcile_spawns_managed_row_and_writes_endpoint() {
    let mut world = World::new(vec![managed(STANDARD, "vllm:test")]);
    let mut sup = BackendSupervisor::new();
    world.reconcile_once(&mut sup);
    world.reconcile_once(&mut sup);
    let expected = format!("http://127.0.0.1:{}/v1", host_port_for(STANDARD));
    assert_eq!(world.rows[0].endpoint.as_deref(), Some(expected.as_str()));
    assert_eq!(world.spawns, 1);
    assert_eq!(world.status(&sup, STANDARD).status, ServiceStatus::Healthy);
}

#[test]
fn reconcile_skips_external_rows() {
    let mut world = World::new(vec![external(STANDARD, "http://192.168.1.50:8000/v1")]);
    let mut sup = BackendSupervisor::new();
    world.reconcile_once(&mut sup);
    assert_eq!(world.spawns, 0);
}

#[test]
fn reconcile_stops_container_when_row_flips_to_external() {
    let mut world = World::new(vec![managed(STANDARD, "vllm:test")]);
    let mut sup = BackendSupervisor::new();
    world.reconcile_once(&mut sup);
    world.reconcile_once(&mut sup);
    assert_eq!(world.spawns, 1);
    world.rows[0] = external(STANDARD, "http://remote/v1");
    world.reconcile_once(&mut sup);
    assert_eq!(world.stops, 1);
    assert_eq!(world.rows[0].endpoint.as_deref(), Some("http://remote/v1"));
}

#[test]
fn reconcile_marks_crash_looping_after_repeated_failures() {
    let mut world = World::new(vec![managed(STANDARD, "vllm:bad")]);
    let mut sup = BackendSupervisor::new();
    world.reconcile_once(&mut sup);
    world.pinned_status = Some(ServiceStatus::CrashLooping { restart_count: 5 });
    for _ in 0..6 {
        world.reconcile_once(&mut sup);
    }
    let s = world.status(&sup, STANDARD);
    assert!(matches!(s.status, ServiceStatus::CrashLooping { .. }));
    assert!(s.restart_attempts >= MAX_RESTART_ATTEMPTS);
}

#[test]
fn restart_drops_handle_and_kicks() {
    let mut world = World::new(vec![managed(STANDARD, "vllm:test")]);
    let mut sup = BackendSupervisor::new();
    world.reconcile_once(&mut sup);
    world.reconcile_once(&mut sup);
    assert_eq!(world.spawns, 1);
    assert!(sup.restart(STANDARD).is_some());
    world.stop();
    world.reconcile_once(&mut sup);
    assert_eq!(world.spawns, 2);
    assert_eq!(world.stops, 1);
}

#[test]
fn spawn_error_increments_restart_attempts_and_records_crash_looping() {
    let mut world = World::new(vec![managed(STANDARD, "vllm:nope")]);
    world.spawn_error = Some("registry 404".to_owned());
    let mut sup = BackendSupervisor::new();
    for _ in 0..3 {
        world.reconcile_once(&mut sup);
    }
    let s = world.status(&sup, STANDARD);
    assert!(matches!(s.status, ServiceStatus::CrashLooping { .. }));
    assert!(s.restart_attempts > 0);
    assert!(world.spawns >= 1);
    // The failure counts once, says why, and the passes behind it wait.
    assert_eq!((s.restart_attempts, world.spawns), (1, 1));
    assert_eq!(world.alerts, vec!["container spawn failed: registry 404".to_owned()]);
}

#[test]
fn failed_spawns_are_tried_again_after_doubling_rests() {
    let mut world = World::new(vec![managed(STANDARD, "vllm:nope")]);
    world.spawn_error = Some("registry 404".to_owned());
    let mut sup = BackendSupervisor::new();
    let mut tried = vec![];
    for _ in 0..200 {
        let before = world.spawns;
        world.reconcile_once(&mut sup);
        if world.spawns > before {
            tried.push(world.now);
        }
        world.now += 1;
    }
    assert_eq!(tried, vec![1_000, 1_005, 1_015, 1_035, 1_075]);
    assert_eq!(world.status(&sup, STANDARD).restart_attempts, MAX_RESTART_ATTEMPTS);
}

#[test]
fn a_crashed_service_rests_before_it_is_started_anew() {
    let mut world = World::new(vec![managed(STANDARD, "vllm:bad")]);
    let mut sup = BackendSupervisor::new();
    world.reconcile_once(&mut sup);
    world.pinned_status = Some(ServiceStatus::CrashLooping { restart_count: 1 });
    world.reconcile_once(&mut sup);
    assert_eq!((world.spawns, world.stops), (1, 1));
    world.pinned_status = None;
    world.now += 4;
    world.reconcile_once(&mut sup);
    assert_eq!(world.spawns, 1);
    world.now += 1;
    world.reconcile_once(&mut sup);
    assert_eq!(world.spawns, 2);
    assert_eq!(world.status(&sup, STANDARD).status, ServiceStatus::Healthy);
}

#[test]
fn a_save_ends_a_rest() {
    let mut world = World::new(vec![managed(STANDARD, "vllm:nope")]);
    world.spawn_error = Some("registry 404".to_owned());
    let mut sup = BackendSupervisor::new();
    world.reconcile_once(&mut sup);
    world.spawn_error = None;
    world.reconcile_once(&mut sup);
    assert_eq!(world.spawns, 1);
    sup.reset_attempts(STANDARD);
    world.reconcile_once(&mut sup);
    assert_eq!(world.spawns, 2);
}

#[test]
fn a_switch_to_external_clears_the_supervisors_own_endpoint() {
    let small = BackendPurpose::Small;
    let mut world = World::new(vec![managed(STANDARD, "vllm:test")]);
    let mut sup = BackendSupervisor::new();
    world.reconcile_once(&mut sup);
    let own = world.rows[0].endpoint.clone().unwrap();
    assert!(world.status(&sup, STANDARD).elapsed_secs.is_some());
    world.rows = vec![external(STANDARD, &own), external(small, &own)];
    world.reconcile_once(&mut sup);
    assert_eq!((world.spawns, world.stops), (1, 1));
    assert_eq!(world.rows[0].endpoint, None);
    // Another purpose's row is not the supervisor's to clear.
    assert_eq!(world.rows[1].endpoint.as_deref(), Some(own.as_str()));
    let s = world.status(&sup, STANDARD);
    assert_eq!((s.status, s.restart_attempts), (ServiceStatus::Stopped, 0));
    assert_eq!(s.elapsed_secs, None);
    assert!(sup.slot_of(STANDARD).handle.is_none());
    // The service is let go once.
    assert!(sup.retire_unmanaged(&world.rows).is_empty());
}

#[test]
fn a_removed_row_retires_its_service() {
    let mut world = World::new(vec![managed(STANDARD, "vllm:test")]);
    let mut sup = BackendSupervisor::new();
    world.reconcile_once(&mut sup);
    let gone = sup.retire_unmanaged(&vec![]);
    assert_eq!(gone.len(), 1);
    assert_eq!(gone[0].purpose, STANDARD);
    assert_eq!(gone[0].handle.container_id, "c1");
    assert!(!gone[0].clear_endpoint);
}

#[test]
fn failed_spawns_park_a_backend_at_the_cap() {
    let mut world = World::new(vec![managed(STANDARD, "vllm:nope")]);
    world.spawn_error = Some("registry 404".to_owned());
    let mut sup = BackendSupervisor::new();
    for _ in 0..20 {
        world.reconcile_once(&mut sup);
        world.now += 60;
    }
    assert_eq!(world.spawns, MAX_RESTART_ATTEMPTS as usize);
    assert_eq!(world.status(&sup, STANDARD).restart_attempts, MAX_RESTART_ATTEMPTS);
}

#[test]
fn reset_attempts_unparks_a_crashlooping_row() {
    let mut world = World::new(vec![managed(STANDARD, "vllm:bad")]);
    let mut sup = BackendSupervisor::new();
    world.reconcile_once(&mut sup);
    world.pinned_status = Some(ServiceStatus::CrashLooping { restart_count: 5 });
    for _ in 0..6 {
        world.reconcile_once(&mut sup);
    }
    assert!(world.status(&sup, STANDARD).restart_attempts >= MAX_RESTART_ATTEMPTS);

    sup.reset_attempts(STANDARD);
    world.pinned_status = Some(ServiceStatus::Healthy);
    world.reconcile_once(&mut sup);
    world.reconcile_once(&mut sup);
    let unstuck = world.status(&sup, STANDARD);
    assert_eq!(unstuck.restart_attempts, 0);
    assert_eq!(unstuck.status, ServiceStatus::Healthy);
}

#[test]
fn snapshot_status_lists_external_as_stopped_and_managed_as_observed() {
    let mut world = World::new(vec![
        external(BackendPurpose::Small, "http://x"),
        managed(STANDARD, "vllm:test"),
    ]);
    let mut sup = BackendSupervisor::new();
    world.reconcile_once(&mut sup);
    world.reconcile_once(&mut sup);
    let small = world.status(&sup, BackendPurpose::Small);
    assert_eq!(small.mode, BackendMode::External);
    assert_eq!(small.status, ServiceStatus::Stopped);
    let standard = world.status(&sup, STANDARD);
    assert_eq!(standard.mode, BackendMode::Managed);
    assert_eq!(standard.status, ServiceStatus::Healthy);
}

#[test]
fn classify_stage_recognises_vllm_loading_markers() {
    for line in [
        "INFO 04-28 02:36:35 [gpu_model_runner.py] Starting to load model QuantTrio/Qwen3.5-27B-AWQ...",
        "Loading safetensors checkpoint shards: 0% Complete",
        "Loading checkpoint shards: 33%",
        "Capturing CUDA graph shapes for warmup batch 4",
        "Loading weights took 22.34 seconds",
    ] {
        let s = classify_stage_from_log(Some(line));
        assert_eq!(s, Some(LifecycleStage::LoadingModel), "{line}");
    }
    for line in [
        "INFO 04-28 02:36:35 [parallel_state.py] world_size=1 rank=0",
        "[transformers] use_fast parameter is deprecated",
        "",
    ] {
        let s = classify_stage_from_log(Some(line));
        assert_eq!(s, None, "{line}");
    }
}

#[test]
fn snapshot_reports_stage_elapsed_and_log_line() {
    let mut world = World::new(vec![managed(STANDARD, "vllm:test")]);
    world.log = "INFO 02:36:35 Starting to load model QuantTrio/Qwen3.5-27B-AWQ\n".to_owned();
    world.healthy = false;
    let mut sup = BackendSupervisor::new();
    world.reconcile_once(&mut sup);
    world.now += 42;
    world.reconcile_once(&mut sup);
    let s = world.status(&sup, STANDARD);
    assert_eq!(s.stage, LifecycleStage::LoadingModel);
    assert_eq!(s.elapsed_secs, Some(42));
    assert!(s.last_log_line.as_deref().unwrap_or("").contains("Starting to load model"));

    world.healthy = true;
    world.reconcile_once(&mut sup);
    let s = world.status(&sup, STANDARD);
    assert_eq!(s.stage, LifecycleStage::Healthy);
    assert_eq!(s.last_log_line, None);
    assert_eq!(s.status, ServiceStatus::Healthy);
}

#[test]
fn supervisor_adopts_existing_running_container_on_first_reconcile() {
    let mut world = World::new(vec![managed(STANDARD, "vllm:test")]);
    let before = world.spawn("execlaw-backend-Standard".to_owned(), 8101).unwrap();
    let spawned = world.spawns;
    let mut sup = BackendSupervisor::new();
    world.reconcile_once(&mut sup);
    assert_eq!(world.spawns, spawned);
    world.reconcile_once(&mut sup);
    assert_eq!(world.status(&sup, STANDARD).status, ServiceStatus::Healthy);
    assert_eq!(world.stops, 0);
    assert_eq!(before.name, "execlaw-backend-Standard");
}

#[test]
fn supervisor_does_not_adopt_a_stopped_container() {
    let mut world = World::new(vec![managed(STANDARD, "vllm:test")]);
    world.spawn("execlaw-backend-Standard".to_owned(), 8101).unwrap();
    world.stop();
    let baseline = world.spawns;
    let mut sup = BackendSupervisor::new();
    world.reconcile_once(&mut sup);
    assert!(world.spawns > baseline);
}

#[test]
fn restart_clears_stage_and_elapsed() {
    let mut world = World::new(vec![managed(STANDARD, "vllm:test")]);
    let mut sup = BackendSupervisor::new();
    world.reconcile_once(&mut sup);
    world.reconcile_once(&mut sup);
    let before = world.status(&sup, STANDARD);
    assert_eq!(before.stage, LifecycleStage::Healthy);
    assert!(before.elapsed_secs.is_some());
    sup.restart(STANDARD);
    let after = world.status(&sup, STANDARD);
    assert_eq!(after.stage, LifecycleStage::Idle);
    assert_eq!(after.elapsed_secs, None);
}

#[test]
fn a_spawn_waits_for_the_download() {
    let mut world = World::new(vec![managed(STANDARD, "vllm:test")]);
    let mut sup = BackendSupervisor::new().with_hf_downloader("/cache".to_owned());
    world.reconcile_once(&mut sup);
    assert_eq!(world.status(&sup, STANDARD).stage, LifecycleStage::DownloadingModel);
    let progress = DownloadProgress {
        bytes_downloaded: 5,
        total_bytes: 10,
        file_idx: 1,
        file_count: 2,
    };
    world.task.on_event(DownloadEvent::OverallProgress(progress));
    world.reconcile_once(&mut sup);
    assert_eq!(world.spawns, 0);
    assert_eq!(world.status(&sup, STANDARD).download_progress, Some(progress));
    world.task.on_event(DownloadEvent::Complete);
    world.task.on_end(None);
    world.reconcile_once(&mut sup);
    assert_eq!(world.spawns, 1);
    assert_eq!(world.status(&sup, STANDARD).download_progress, None);
}

#[test]
fn a_failed_download_counts_as_an_attempt() {
    let mut world = World::new(vec![managed(STANDARD, "vllm:test")]);
    let mut sup = BackendSupervisor::new().with_hf_downloader("/cache".to_owned());
    world.reconcile_once(&mut sup);
    world.task.on_event(DownloadEvent::Failed("disk full".to_owned()));
    world.task.on_end(None);
    world.reconcile_once(&mut sup);
    let s = world.status(&sup, STANDARD);
    assert_eq!(s.status, ServiceStatus::CrashLooping { restart_count: 1 });
    assert_eq!(
        world.alerts,
        vec!["host-side HuggingFace download for X failed: disk full".to_owned()]
    );
}

#[test]
fn a_native_daemon_is_healthy_once_its_model_is_pulled() {
    let mut world = World::new(vec![ollama()]);
    let mut sup = BackendSupervisor::new();
    world.reconcile_once(&mut sup);
    assert_eq!(world.status(&sup, STANDARD).stage, LifecycleStage::DownloadingModel);
    world.task.on_event(DownloadEvent::OverallProgress(pull_progress(3, 9)));
    world.reconcile_once(&mut sup);
    assert_eq!(world.status(&sup, STANDARD).download_progress, Some(pull_progress(3, 9)));
    world.task.on_end(None);
    world.reconcile_once(&mut sup);
    assert_eq!(world.status(&sup, STANDARD).status, ServiceStatus::Healthy);
}

#[test]
fn an_invalid_row_starts_nothing_and_says_so() {
    let mut world = World::new(vec![row(STANDARD, vec![])]);
    let mut sup = BackendSupervisor::new();
    world.reconcile_once(&mut sup);
    assert_eq!(world.spawns, 0);
    assert_eq!(world.status(&sup, STANDARD).stage, LifecycleStage::Failed);
    assert!(world.alerts[0].starts_with("invalid model_spec_json: "));
}

#[test]
fn a_crash_is_explained_by_its_log() {
    let mut world = World::new(vec![managed(STANDARD, "vllm:bad")]);
    let mut sup = BackendSupervisor::new();
    world.reconcile_once(&mut sup);
    world.pinned_status = Some(ServiceStatus::CrashLooping { restart_count: 2 });
    world.log = "boom\n".to_owned();
    world.reconcile_once(&mut sup);
    assert_eq!(
        world.alerts[0],
        "inference container crash-looping (restart_count=2). Last lines of container output:\n\nboom\n"
    );
    assert_eq!(world.stops, 1);
    assert_eq!(world.rows[0].endpoint, None);
    assert_eq!(sup.logs(STANDARD, None), "boom\n");
}

#[test]
fn alerts_belong_to_their_purpose() {
    let raised = alert_fingerprint(STANDARD, "vllm:x");
    assert_eq!(raised, "backend_supervisor:Standard:vllm:x");
    assert!(resolves_alert(STANDARD, &raised));
    assert!(!resolves_alert(BackendPurpose::Small, &raised));
}

#[test]
fn a_long_log_keeps_its_end() {
    assert_eq!(tail_truncate("short", 5), "short");
    assert_eq!(tail_truncate("abcdef", 3), "…(truncated, showing last 3 bytes)…\ndef");
    // A character is never cut: the two bytes of `é` do not fit beside `f`.
    assert_eq!(tail_truncate("aéf", 2), "…(truncated, showing last 2 bytes)…\nf");
}
