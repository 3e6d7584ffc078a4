//! The supervisor of managed inference backends.
//!
//! One reconcile pass takes every managed row through a fixed sequence of
//! questions to the outside: is a container to adopt, is the model cached, did
//! the spawn work, what does inspection say, is the service healthy. Each
//! answer is a method of `ManagedSlot` that updates the slot and returns what
//! to do and what to ask next. After a failed attempt a slot rests, each time twice
//! as long; after too many in a row it is parked until the operator resets it.

use vstd::prelude::*;
use crate::backend_spec::{
    attach_hf_cache_mount, binary_hint_from_row, cpu_fallback, downgrade_voice_cuda_spec,
    extract_model_id, extract_ollama_model_id, health_path, health_path_for_hint, host_port_for,
    is_ollama_row, ollama_row, port_of, row_hint, row_ollama_tag, row_repository, row_spec,
    shown_image, spec_from_row, spec_image_for_alert, with_cache, BackendMode, BackendPurpose,
    BackendRow, ServiceError, ServiceSpec, SpecModel,
};
use crate::text::{
    ascii_lowercase, blank, byte_count, byte_len, chars_of, contains, decimal, decimal_text,
    has_text, is_blank, last_line, last_line_spec, opt_view, same, starts_with, to_ascii_lowercase,
};
use vstd::utf8::{encode_scalar, encode_utf8};

verus! {

/// Hard cap on consecutive failed attempts before a slot is parked.
pub const MAX_RESTART_ATTEMPTS: u32 = 5;

/// How long a slot rests after its first failed attempt.
pub const FIRST_BACKOFF_SECS: i64 = 5;

/// How many log lines explain a crash.
pub const CRASH_LOG_LINES: usize = 80;

/// How many log lines are read while a service warms up.
pub const WARMUP_LOG_LINES: usize = 40;

/// How many bytes of log an alert carries.
pub const ALERT_LOG_BYTES: usize = 8192;

/// What the controller reports of a service.
#[derive(Clone, Copy, Debug, PartialEq, Eq, Structural)]
pub enum ServiceStatus {
    NotFound,
    Stopped,
    Pulling,
    Starting,
    Healthy,
    CrashLooping { restart_count: u32 },
}

/// Higher-resolution lifecycle stage, reported beside `ServiceStatus`.
#[derive(Clone, Copy, Debug, PartialEq, Eq, Structural)]
pub enum LifecycleStage {
    /// No container yet.
    Idle,
    /// Model weights are being downloaded; the spawn waits for them.
    DownloadingModel,
    /// The image is being pulled.
    PullingImage,
    /// The container is up, the service in it not yet.
    ContainerStarting,
    /// The service is loading its model.
    LoadingModel,
    /// The service answers its health probe.
    Healthy,
    /// The container exited, kept exiting or never started.
    Failed,
}

impl LifecycleStage {
    /// The name of a stage.
    pub open spec fn name(self) -> Seq<char> {
        match self {
            LifecycleStage::Idle => "Idle"@,
            LifecycleStage::DownloadingModel => "DownloadingModel"@,
            LifecycleStage::PullingImage => "PullingImage"@,
            LifecycleStage::ContainerStarting => "ContainerStarting"@,
            LifecycleStage::LoadingModel => "LoadingModel"@,
            LifecycleStage::Healthy => "Healthy"@,
            LifecycleStage::Failed => "Failed"@,
        }
    }

    /// The name of a stage.
    pub fn as_str(&self) -> (r: &'static str)
        ensures
            r@ == self.name(),
    {
        match self {
            LifecycleStage::Idle => "Idle",
            LifecycleStage::DownloadingModel => "DownloadingModel",
            LifecycleStage::PullingImage => "PullingImage",
            LifecycleStage::ContainerStarting => "ContainerStarting",
            LifecycleStage::LoadingModel => "LoadingModel",
            LifecycleStage::Healthy => "Healthy",
            LifecycleStage::Failed => "Failed",
        }
    }
}

/// How far a model download has come.
#[derive(Clone, Copy, Debug, PartialEq, Eq, Structural)]
pub struct DownloadProgress {
    pub bytes_downloaded: u64,
    pub total_bytes: u64,
    pub file_idx: usize,
    pub file_count: usize,
}

/// A log line that announces that the service loads its model.
pub open spec fn announces_load(line: Seq<char>) -> bool {
    let l = ascii_lowercase(line);
    ||| has_text(l, "starting to load model"@)
    ||| has_text(l, "loading safetensors"@)
    ||| has_text(l, "loading checkpoint"@)
    ||| has_text(l, "loading model"@)
    ||| has_text(l, "capturing cuda graph"@)
    ||| has_text(l, "loading weights"@)
    ||| has_text(l, "model weights"@)
}

/// The stage that a log line shows: only a clear loading marker counts.
pub open spec fn stage_in_log(line: Option<Seq<char>>) -> Option<LifecycleStage> {
    match line {
        Some(l) => if announces_load(l) {
            Some(LifecycleStage::LoadingModel)
        } else {
            None
        },
        None => None,
    }
}

/// The stage that a log line shows.
pub fn classify_stage_from_log(line: Option<&str>) -> (r: Option<LifecycleStage>)
    ensures
        r == stage_in_log(
            match line {
                Some(l) => Some(l@),
                None => None,
            },
        ),
{
    match line {
        Some(text) => {
            let lower: String = to_ascii_lowercase(text);
            let l: &str = lower.as_str();
            if contains(l, "starting to load model") || contains(l, "loading safetensors")
                || contains(l, "loading checkpoint") || contains(l, "loading model") || contains(
                l,
                "capturing cuda graph",
            ) || contains(l, "loading weights") || contains(l, "model weights") {
                Some(LifecycleStage::LoadingModel)
            } else {
                None
            }
        },
        None => None,
    }
}

/// The longest end of `s` that takes at most `max` bytes.
pub open spec fn kept_tail(s: Seq<char>, max: nat) -> Seq<char>
    decreases s.len(),
{
    if s.len() == 0 || byte_count(s) <= max {
        s
    } else {
        kept_tail(s.skip(1), max)
    }
}

/// `s` within `max` bytes: whole, or its end behind a note.
pub open spec fn tail_within(s: Seq<char>, max: nat) -> Seq<char> {
    if byte_count(s) <= max {
        s
    } else {
        "…(truncated, showing last "@ + decimal(max) + " bytes)…\n"@ + kept_tail(s, max)
    }
}

fn char_bytes(c: char) -> (n: usize)
    ensures
        n == encode_scalar(c as u32).len(),
        1 <= n <= 4,
{
    let u: u32 = c as u32;
    if u <= 0x7f {
        1
    } else if u <= 0x7ff {
        2
    } else if u <= 0xffff {
        3
    } else {
        4
    }
}

/// Trims a log to a byte budget and keeps its end, where the error stands.
pub fn tail_truncate(s: &str, max_bytes: usize) -> (r: String)
    ensures
        r@ == tail_within(s@, max_bytes as nat),
{
    let mut bytes: usize = byte_len(s);
    if bytes <= max_bytes {
        return s.to_owned();
    }
    let v: Vec<char> = chars_of(s);
    let mut k: usize = 0;
    assert(s@.skip(0) =~= s@);
    while k < v.len() && bytes > max_bytes
        invariant
            v@ == s@,
            k <= v.len(),
            bytes == byte_count(s@.skip(k as int)),
            kept_tail(s@, max_bytes as nat) == kept_tail(s@.skip(k as int), max_bytes as nat),
        decreases v.len() - k,
    {
        let ghost rest = s@.skip(k as int);
        assert(rest[0] == v@[k as int]);
        assert(rest.drop_first() =~= s@.skip(k + 1));
        assert(rest.skip(1) =~= s@.skip(k + 1));
        let width: usize = char_bytes(v[k]);
        assert(encode_utf8(rest) == encode_scalar(rest[0] as u32) + encode_utf8(s@.skip(k + 1)));
        bytes -= width;
        k += 1;
    }
    let total: usize = v.len();
    assert(s@.subrange(k as int, total as int) =~= s@.skip(k as int));
    let mut out: String = "…(truncated, showing last ".to_owned();
    let budget: String = decimal_text(max_bytes as u64);
    out.append(budget.as_str());
    out.append(" bytes)…\n");
    out.append(s.substring_char(k, total));
    out
}

/// A running service, as the controller names it.
#[derive(Debug)]
pub struct ServiceHandle {
    pub container_id: String,
    pub name: String,
    pub host_port: u16,
}

impl Clone for ServiceHandle {
    fn clone(&self) -> (r: ServiceHandle)
        ensures
            r == *self,
    {
        ServiceHandle {
            container_id: self.container_id.clone(),
            name: self.name.clone(),
            host_port: self.host_port,
        }
    }
}

/// The loopback URL of a service, without a path.
pub open spec fn service_url(handle: ServiceHandle) -> Seq<char> {
    "http://127.0.0.1:"@ + decimal(handle.host_port as nat)
}

/// Where the health of a row's service is asked for.
pub open spec fn probe_url(handle: ServiceHandle, row: BackendRow) -> Seq<char> {
    service_url(handle) + health_path(row_hint(row))
}

/// The OpenAI-compatible base URL of a service.
pub open spec fn base_url(handle: ServiceHandle) -> Seq<char> {
    service_url(handle) + "/v1"@
}

fn url_with(handle: &ServiceHandle, path: &str) -> (r: String)
    ensures
        r@ == service_url(*handle) + path@,
{
    let mut out: String = "http://127.0.0.1:".to_owned();
    let port: String = decimal_text(handle.host_port as u64);
    out.append(port.as_str());
    out.append(path);
    out
}

/// An alert to raise. Equal fingerprints fold into one firing row.
#[derive(Debug)]
pub struct CrashAlert {
    pub fingerprint: String,
    pub source: String,
    pub title: String,
    pub detail: String,
}

/// What every alert of a purpose begins with.
pub open spec fn fingerprint_prefix(purpose: BackendPurpose) -> Seq<char> {
    "backend_supervisor:"@ + purpose.name() + ":"@
}

/// The fingerprint of the alerts of a purpose and an image.
pub open spec fn fingerprint_of(purpose: BackendPurpose, image: Seq<char>) -> Seq<char> {
    fingerprint_prefix(purpose) + image
}

impl CrashAlert {
    /// This is the alert for that purpose, image and detail.
    pub open spec fn tells(
        self,
        purpose: BackendPurpose,
        image: Seq<char>,
        detail: Seq<char>,
    ) -> bool {
        &&& self.fingerprint@ == fingerprint_of(purpose, image)
        &&& self.source@ == "core.backend_supervisor"@
        &&& self.title@ == purpose.name() + " backend crash-looping"@
        &&& self.detail@ == detail
    }
}

/// The fingerprint of the alerts of a purpose and an image.
pub fn alert_fingerprint(purpose: BackendPurpose, image: &str) -> (r: String)
    ensures
        r@ == fingerprint_of(purpose, image@),
{
    let mut out: String = "backend_supervisor:".to_owned();
    out.append(purpose.as_str());
    out.append(":");
    out.append(image);
    out
}

/// The alert that a backend keeps crashing.
pub fn crashloop_alert(purpose: BackendPurpose, image: &str, detail: String) -> (r: CrashAlert)
    ensures
        r.tells(purpose, image@, detail@),
{
    let mut title: String = purpose.as_str().to_owned();
    title.append(" backend crash-looping");
    CrashAlert {
        fingerprint: alert_fingerprint(purpose, image),
        source: "core.backend_supervisor".to_owned(),
        title,
        detail,
    }
}

/// Whether a firing alert belongs to a purpose, so that a healthy observation
/// of the purpose resolves it.
pub fn resolves_alert(purpose: BackendPurpose, fingerprint: &str) -> (r: bool)
    ensures
        r == fingerprint_prefix(purpose).is_prefix_of(fingerprint@),
{
    let prefix: String = alert_fingerprint(purpose, "");
    proof {
        reveal_strlit("");
        assert(fingerprint_prefix(purpose) + ""@ =~= fingerprint_prefix(purpose));
    }
    starts_with(fingerprint, prefix.as_str())
}

/// A healthy observation of a purpose resolves the alerts of that purpose,
/// whatever their image, and no other purpose's.
pub proof fn healthy_resolves_only_its_own_alerts(
    healthy: BackendPurpose,
    raised: BackendPurpose,
    image: Seq<char>,
)
    ensures
        fingerprint_prefix(healthy).is_prefix_of(fingerprint_of(raised, image)) <==> healthy
            == raised,
{
    reveal_strlit("backend_supervisor:");
    reveal_strlit(":");
    reveal_strlit("Standard");
    reveal_strlit("Small");
    reveal_strlit("VoiceStt");
    reveal_strlit("VoiceTts");
    reveal_strlit("Vision");
    let p = fingerprint_prefix(healthy);
    let f = fingerprint_of(raised, image);
    if healthy == raised {
        assert(f.subrange(0, p.len() as int) =~= p);
    } else if p.is_prefix_of(f) {
        assert(f.subrange(0, p.len() as int)[20] == f[20]);
        assert(p[20] == healthy.name()[1]);
        assert(f[20] == raised.name()[1]);
        assert(f.subrange(0, p.len() as int)[24] == f[24]);
        assert(healthy.name().len() > 5 ==> p[24] == healthy.name()[5]);
        assert(raised.name().len() > 5 ==> f[24] == raised.name()[5]);
    }
}

/// What the supervisor knows of one managed backend.
#[derive(Debug)]
pub struct ManagedSlot {
    /// The running service, where there is one.
    pub handle: Option<ServiceHandle>,
    /// Last observed status.
    pub status: ServiceStatus,
    /// Consecutive failed attempts.
    pub restart_attempts: u32,
    /// The second until which the slot rests after a failed attempt.
    pub retry_at: Option<i64>,
    /// Most recent container log.
    pub last_log_tail: Option<String>,
    /// Most recent log line that is not blank.
    pub last_log_line: Option<String>,
    /// Unix time of the most recent spawn or adoption.
    pub spawn_started_at: Option<i64>,
    pub stage: LifecycleStage,
    /// Progress of the download under way.
    pub download_progress: Option<DownloadProgress>,
    /// The model that a download or pull under way is for.
    pub download_task: Option<String>,
}

/// The slot of a backend that nothing is known of.
pub open spec fn fresh_slot() -> ManagedSlot {
    ManagedSlot {
        handle: None,
        status: ServiceStatus::Stopped,
        restart_attempts: 0,
        retry_at: None,
        last_log_tail: None,
        last_log_line: None,
        spawn_started_at: None,
        stage: LifecycleStage::Idle,
        download_progress: None,
        download_task: None,
    }
}

impl Default for ManagedSlot {
    fn default() -> (r: ManagedSlot)
        ensures
            r == fresh_slot(),
    {
        ManagedSlot {
            handle: None,
            status: ServiceStatus::Stopped,
            restart_attempts: 0,
            retry_at: None,
            last_log_tail: None,
            last_log_line: None,
            spawn_started_at: None,
            stage: LifecycleStage::Idle,
            download_progress: None,
            download_task: None,
        }
    }
}

/// What to do at once; nothing waits for the outcome.
#[derive(Debug)]
pub enum Effect {
    RaiseAlert(CrashAlert),
    /// Resolve the firing alerts of the row's purpose.
    ResolveAlerts,
    StopService(ServiceHandle),
    ClearEndpoint,
    WriteEndpoint(String),
    StartDownload(String),
    StartPull { host_port: u16, model_id: String },
}

/// What to ask the outside next. The answer goes to the method named after the
/// request.
#[derive(Debug)]
pub enum Request {
    /// Nothing: the row is done for this pass.
    Settled,
    /// Look for a container of that name: `on_adopt`.
    TryAdopt { name: String, host_port: u16 },
    /// Look at the download under way: `on_download_poll`.
    PollDownload { spec: ServiceSpec, model_id: String },
    /// Is the model in the host's cache: `on_cache_check`.
    CheckCache { spec: ServiceSpec, model_id: String },
    /// Start the service: `on_spawn`.
    Spawn { spec: ServiceSpec },
    /// Start the CPU variant after a failure: `on_cpu_spawn`.
    SpawnOnCpu { spec: ServiceSpec, first_error: ServiceError },
    /// What is the service doing: `on_inspect`.
    Inspect { handle: ServiceHandle },
    /// Read the log of a crashing service: `on_crash_logs`.
    TailCrashLogs { handle: ServiceHandle, restart_count: u32, lines: usize },
    /// Read the log of a service that warms up: `on_logs`.
    TailLogs { handle: ServiceHandle, lines: usize },
    /// Probe the URL: `on_health`.
    HealthCheck { handle: ServiceHandle, url: String },
    /// Look at the pull under way: `on_pull_poll`.
    PollPull { handle: ServiceHandle, model_id: String },
    /// Does the daemon have the model: `on_model_check`.
    CheckModel { handle: ServiceHandle, model_id: String },
}

/// How many more questions a question can lead to. Every answer leads to fewer, so
/// a pass over a row comes to its end.
pub open spec fn questions_left(request: Request) -> nat {
    match request {
        Request::Settled => 0,
        Request::TailCrashLogs { .. } => 1,
        Request::PollPull { .. } => 1,
        Request::CheckModel { .. } => 1,
        Request::HealthCheck { .. } => 2,
        Request::TailLogs { .. } => 3,
        Request::Inspect { .. } => 4,
        Request::SpawnOnCpu { .. } => 5,
        Request::Spawn { .. } => 6,
        Request::PollDownload { .. } => 7,
        Request::CheckCache { .. } => 7,
        Request::TryAdopt { .. } => 8,
    }
}

/// What follows an answer.
#[derive(Debug)]
pub struct Step {
    pub effects: Vec<Effect>,
    pub request: Request,
}

/// A download or pull under way, as a poll finds it. `progress` is absent where
/// it could not be read.
#[derive(Debug)]
pub struct TaskPoll {
    pub progress: Option<Option<DownloadProgress>>,
    pub done: bool,
    pub failure: Option<String>,
}

/// What a download reports while it runs.
#[derive(Debug)]
pub enum DownloadEvent {
    OverallProgress(DownloadProgress),
    Failed(String),
    Complete,
    Other,
}

/// A download or pull under way, as its task keeps it for the polls.
#[derive(Debug)]
pub struct DownloadTask {
    pub progress: Option<DownloadProgress>,
    pub failure: Option<String>,
    pub done: bool,
}

impl DownloadTask {
    /// A task that has just begun.
    pub fn new() -> (r: DownloadTask)
        ensures
            r == (DownloadTask { progress: None, failure: None, done: false }),
    {
        DownloadTask { progress: None, failure: None, done: false }
    }

    /// Takes in a report: the latest progress and the latest failure stay.
    pub fn on_event(&mut self, event: DownloadEvent)
        ensures
            *final(self) == match event {
                DownloadEvent::OverallProgress(p) => DownloadTask {
                    progress: Some(p),
                    ..*old(self)
                },
                DownloadEvent::Failed(e) => DownloadTask { failure: Some(e), ..*old(self) },
                _ => *old(self),
            },
    {
        match event {
            DownloadEvent::OverallProgress(p) => {
                self.progress = Some(p);
            },
            DownloadEvent::Failed(e) => {
                self.failure = Some(e);
            },
            _ => {},
        }
    }

    /// The task has ended, or could not begin for a reason.
    pub fn on_end(&mut self, failure: Option<String>)
        ensures
            *final(self) == (DownloadTask {
                failure: if failure is Some {
                    failure
                } else {
                    old(self).failure
                },
                done: true,
                ..*old(self)
            }),
    {
        if failure.is_some() {
            self.failure = failure;
        }
        self.done = true;
    }

    /// What a poll finds.
    pub fn poll(&self) -> (r: TaskPoll)
        ensures
            r == (TaskPoll {
                progress: Some(self.progress),
                done: self.done,
                failure: self.failure,
            }),
    {
        TaskPoll { progress: Some(self.progress), done: self.done, failure: self.failure.clone() }
    }
}

/// How far a pull has come: it is one file.
pub fn pull_progress(completed: u64, total: u64) -> (r: DownloadProgress)
    ensures
        r == (DownloadProgress {
            bytes_downloaded: completed,
            total_bytes: total,
            file_idx: 1,
            file_count: 1,
        }),
{
    DownloadProgress { bytes_downloaded: completed, total_bytes: total, file_idx: 1, file_count: 1 }
}

/// What the host offers beyond the container controller.
#[derive(Debug)]
pub struct HostCache {
    /// Models are downloaded on the host before a spawn.
    pub downloads: bool,
    /// The directory they are downloaded to.
    pub primary: Option<String>,
}

impl Step {
    /// The row is done for this pass, with nothing to do.
    pub open spec fn rests(self) -> bool {
        self.effects@.len() == 0 && self.request is Settled
    }

    /// The row is done for this pass, with one thing to do.
    pub open spec fn only(self, effect: Effect) -> bool {
        self.effects@ == seq![effect] && self.request is Settled
    }

    /// The row is done for this pass, with that alert raised.
    pub open spec fn alerts(
        self,
        purpose: BackendPurpose,
        image: Seq<char>,
        detail: Seq<char>,
    ) -> bool {
        &&& self.effects@.len() == 1
        &&& self.effects@[0] matches Effect::RaiseAlert(a)
        &&& a.tells(purpose, image, detail)
        &&& self.request is Settled
    }

    /// Nothing to do but to ask.
    pub open spec fn asks(self, request: Request) -> bool {
        self.effects@.len() == 0 && self.request == request
    }

    /// Nothing to do but to start a service of that specification.
    pub open spec fn spawns(self, spec: SpecModel) -> bool {
        &&& self.effects@.len() == 0
        &&& self.request matches Request::Spawn { spec: s }
        &&& s@ == spec
    }

    /// Nothing to do but to probe the row's service.
    pub open spec fn probes(self, handle: ServiceHandle, row: BackendRow) -> bool {
        &&& self.effects@.len() == 0
        &&& self.request matches Request::HealthCheck { handle: h, url }
        &&& h == handle
        &&& url@ == probe_url(handle, row)
    }

    /// The row is done for this pass: the purpose's alerts are resolved, and
    /// the service's base URL is written unless the row already has it.
    pub open spec fn promotes(self, handle: ServiceHandle, row: BackendRow) -> bool {
        &&& self.request is Settled
        &&& self.effects@.len() >= 1
        &&& self.effects@[0] is ResolveAlerts
        &&& if opt_view(row.endpoint) == Some(base_url(handle)) {
            self.effects@.len() == 1
        } else {
            &&& self.effects@.len() == 2
            &&& self.effects@[1] matches Effect::WriteEndpoint(url)
            &&& url@ == base_url(handle)
        }
    }
}

fn settle() -> (r: Step)
    ensures
        r.rests(),
{
    Step { effects: Vec::new(), request: Request::Settled }
}

fn settle_with(effect: Effect) -> (r: Step)
    ensures
        r.only(effect),
{
    let mut effects: Vec<Effect> = Vec::new();
    effects.push(effect);
    assert(effects@ =~= seq![effect]);
    Step { effects, request: Request::Settled }
}

fn ask(request: Request) -> (r: Step)
    ensures
        r.asks(request),
{
    Step { effects: Vec::new(), request }
}

/// A download or pull is under way.
pub open spec fn waiting(slot: ManagedSlot) -> ManagedSlot {
    ManagedSlot {
        stage: LifecycleStage::DownloadingModel,
        status: ServiceStatus::Pulling,
        ..slot
    }
}

/// How long a slot rests after so many failed attempts in a row: each rest is
/// twice as long as the one before it.
pub open spec fn backoff(attempts: nat) -> nat
    decreases attempts,
{
    if attempts <= 1 {
        FIRST_BACKOFF_SECS as nat
    } else {
        2 * backoff((attempts - 1) as nat)
    }
}

/// The second until which a slot rests that has failed so often, last at `now`. At
/// the cap the slot is parked, and no time ends its rest.
pub open spec fn retry_time(attempts: u32, now: i64) -> Option<i64> {
    if attempts >= MAX_RESTART_ATTEMPTS {
        None
    } else if now + backoff(attempts as nat) > i64::MAX {
        Some(i64::MAX)
    } else {
        Some((now + backoff(attempts as nat)) as i64)
    }
}

/// Below the cap no rest is longer than this.
proof fn lemma_backoff_bound(attempts: nat)
    requires
        attempts < MAX_RESTART_ATTEMPTS,
    ensures
        backoff(attempts) <= 40,
{
    reveal_with_fuel(backoff, 5);
}

fn retry_after(attempts: u32, now: i64) -> (r: Option<i64>)
    ensures
        r == retry_time(attempts, now),
{
    if attempts >= MAX_RESTART_ATTEMPTS {
        return None;
    }
    let mut rest: i64 = FIRST_BACKOFF_SECS;
    let mut n: u32 = 1;
    while n < attempts
        invariant
            1 <= n,
            n <= attempts || n == 1,
            attempts < MAX_RESTART_ATTEMPTS,
            rest == backoff(n as nat),
        decreases attempts - n,
    {
        proof {
            lemma_backoff_bound((n + 1) as nat);
        }
        rest = rest * 2;
        n = n + 1;
    }
    proof {
        lemma_backoff_bound(attempts as nat);
        assert(rest == backoff(attempts as nat));
    }
    if now > i64::MAX - rest {
        Some(i64::MAX)
    } else {
        Some(now + rest)
    }
}

/// One more attempt failed, at the second `now`.
pub open spec fn failed(slot: ManagedSlot, now: i64) -> ManagedSlot {
    let attempts = (slot.restart_attempts + 1) as u32;
    ManagedSlot {
        status: ServiceStatus::CrashLooping { restart_count: attempts },
        stage: LifecycleStage::Failed,
        restart_attempts: attempts,
        retry_at: retry_time(attempts, now),
        download_progress: None,
        ..slot
    }
}

/// The image is about to be pulled and the service started.
pub open spec fn pulling(slot: ManagedSlot) -> ManagedSlot {
    ManagedSlot {
        status: ServiceStatus::Pulling,
        stage: LifecycleStage::PullingImage,
        download_progress: None,
        ..slot
    }
}

/// A running container was taken over. The failed attempts count on until the
/// service is healthy.
pub open spec fn adopted(slot: ManagedSlot, handle: ServiceHandle, now: i64) -> ManagedSlot {
    ManagedSlot {
        handle: Some(handle),
        status: ServiceStatus::Starting,
        stage: LifecycleStage::ContainerStarting,
        spawn_started_at: Some(now),
        retry_at: None,
        download_progress: None,
        ..slot
    }
}

/// A container was started.
pub open spec fn spawned(slot: ManagedSlot, handle: ServiceHandle, now: i64) -> ManagedSlot {
    ManagedSlot {
        last_log_line: None,
        last_log_tail: None,
        download_task: None,
        ..adopted(slot, handle, now)
    }
}

/// The service answers.
pub open spec fn healthy(slot: ManagedSlot) -> ManagedSlot {
    ManagedSlot {
        status: ServiceStatus::Healthy,
        stage: LifecycleStage::Healthy,
        restart_attempts: 0,
        retry_at: None,
        last_log_tail: None,
        last_log_line: None,
        download_progress: None,
        ..slot
    }
}

/// Progress is shown only while a model is being downloaded.
pub open spec fn shown_progress(
    stage: LifecycleStage,
    progress: Option<DownloadProgress>,
) -> Option<DownloadProgress> {
    if stage == LifecycleStage::DownloadingModel {
        progress
    } else {
        None
    }
}

/// The service does not answer yet. A loading marker in the log moves the stage
/// on; once the model loads, the stage stays there until the service answers.
pub open spec fn warming(slot: ManagedSlot) -> ManagedSlot {
    let stage = if slot.stage == LifecycleStage::LoadingModel {
        LifecycleStage::LoadingModel
    } else {
        match stage_in_log(opt_view(slot.last_log_line)) {
            Some(s) => s,
            None => if slot.stage == LifecycleStage::PullingImage {
                LifecycleStage::ContainerStarting
            } else {
                slot.stage
            },
        }
    };
    ManagedSlot {
        status: ServiceStatus::Starting,
        stage,
        download_progress: shown_progress(stage, slot.download_progress),
        ..slot
    }
}

/// The slot's log fields after a log was read: a blank log changes nothing.
pub open spec fn logged(before: ManagedSlot, after: ManagedSlot, log: Seq<char>) -> bool {
    if blank(log) {
        after == before
    } else {
        &&& after == (ManagedSlot {
            last_log_line: after.last_log_line,
            last_log_tail: after.last_log_tail,
            ..before
        })
        &&& opt_view(after.last_log_line) == last_line_spec(log)
        &&& opt_view(after.last_log_tail) == Some(log)
    }
}

/// The slot after a poll: what it showed of the progress, where it could be
/// read.
pub open spec fn polled(slot: ManagedSlot, poll: TaskPoll) -> ManagedSlot {
    ManagedSlot {
        download_progress: match poll.progress {
            Some(p) => p,
            None => slot.download_progress,
        },
        ..slot
    }
}

/// The slot once a download or pull has ended.
pub open spec fn ended(slot: ManagedSlot) -> ManagedSlot {
    ManagedSlot { download_task: None, download_progress: None, ..slot }
}

/// The specification that a row's service starts with once its model is cached.
pub open spec fn cached_spec(spec: SpecModel, host: HostCache) -> SpecModel {
    match host.primary {
        Some(dir) => with_cache(spec, dir@),
        None => spec,
    }
}

/// The detail of a crash alert.
pub open spec fn crash_detail(restart_count: u32, log: Seq<char>) -> Seq<char> {
    let head = "inference container crash-looping (restart_count="@ + decimal(restart_count as nat);
    if blank(log) {
        head + "); container produced no log output"@
    } else {
        head + "). Last lines of container output:\n\n"@ + tail_within(
            log,
            ALERT_LOG_BYTES as nat,
        )
    }
}

/// What an inspection that finds a crash loop at the second `now` makes of the
/// slot.
pub open spec fn crashing(slot: ManagedSlot, restart_count: u32, now: i64) -> ManagedSlot {
    let attempts = if restart_count > slot.restart_attempts + 1 {
        restart_count
    } else {
        (slot.restart_attempts + 1) as u32
    };
    ManagedSlot {
        status: ServiceStatus::CrashLooping { restart_count },
        stage: LifecycleStage::Failed,
        download_progress: None,
        restart_attempts: attempts,
        retry_at: retry_time(attempts, now),
        ..slot
    }
}

/// How a service without a container is started: not at all for an invalid row,
/// behind its model download where the host downloads models, at once
/// otherwise.
pub open spec fn prepares(
    before: ManagedSlot,
    after: ManagedSlot,
    row: BackendRow,
    host: HostCache,
    step: Step,
) -> bool {
    match row_spec(row) {
        Err(msg) => {
            &&& after == (ManagedSlot {
                status: ServiceStatus::Stopped,
                stage: LifecycleStage::Failed,
                download_progress: None,
                ..before
            })
            &&& step.alerts(row.purpose, shown_image(row), "invalid model_spec_json: "@ + msg)
        },
        Ok(spec) => match row_repository(row) {
            Some(model) if host.downloads => {
                &&& after == before
                &&& step.effects@.len() == 0
                &&& if before.download_task is Some {
                    step.request matches Request::PollDownload { spec: s, model_id } && s@ == spec
                        && model_id@ == model
                } else {
                    step.request matches Request::CheckCache { spec: s, model_id } && s@ == spec
                        && model_id@ == model
                }
            },
            _ => after == pulling(before) && step.spawns(spec),
        },
    }
}

fn crash_text(restart_count: u32, log: &str) -> (r: String)
    ensures
        r@ == crash_detail(restart_count, log@),
{
    let mut out: String = "inference container crash-looping (restart_count=".to_owned();
    let count: String = decimal_text(restart_count as u64);
    out.append(count.as_str());
    if is_blank(log) {
        out.append("); container produced no log output");
    } else {
        out.append("). Last lines of container output:\n\n");
        let tail: String = tail_truncate(log, ALERT_LOG_BYTES);
        out.append(tail.as_str());
    }
    out
}

/// A well-formed slot that has attempts left stays well formed.
pub open spec fn keeps_form(before: ManagedSlot, after: ManagedSlot) -> bool {
    before.wf() && before.restart_attempts < MAX_RESTART_ATTEMPTS ==> after.wf()
}

impl ManagedSlot {
    /// The cap is reached and the slot waits for the operator.
    pub open spec fn parked(self) -> bool {
        self.status is CrashLooping && self.restart_attempts >= MAX_RESTART_ATTEMPTS
    }

    /// The slot rests at the second `now` after a failed attempt.
    pub open spec fn resting(self, now: i64) -> bool {
        self.retry_at matches Some(t) && now < t
    }

    /// Only a parked slot has used up its attempts, a slot that rests has failed and
    /// is not parked, and progress is shown only while a model is being downloaded.
    pub open spec fn wf(self) -> bool {
        &&& self.restart_attempts >= MAX_RESTART_ATTEMPTS ==> self.status is CrashLooping
        &&& self.retry_at is Some ==> 0 < self.restart_attempts < MAX_RESTART_ATTEMPTS
        &&& self.download_progress is Some ==> self.stage == LifecycleStage::DownloadingModel
    }

    fn fail(&mut self, now: i64)
        requires
            old(self).restart_attempts < MAX_RESTART_ATTEMPTS,
        ensures
            *final(self) == failed(*old(self), now),
    {
        self.restart_attempts = self.restart_attempts + 1;
        self.retry_at = retry_after(self.restart_attempts, now);
        self.status = ServiceStatus::CrashLooping { restart_count: self.restart_attempts };
        self.stage = LifecycleStage::Failed;
        self.download_progress = None;
    }

    fn wait(&mut self)
        ensures
            *final(self) == waiting(*old(self)),
    {
        self.stage = LifecycleStage::DownloadingModel;
        self.status = ServiceStatus::Pulling;
    }

    fn start(&mut self, spec: ServiceSpec) -> (r: Step)
        ensures
            *final(self) == pulling(*old(self)),
            r.spawns(spec@),
    {
        self.status = ServiceStatus::Pulling;
        self.stage = LifecycleStage::PullingImage;
        self.download_progress = None;
        ask(Request::Spawn { spec })
    }

    fn started(&mut self, handle: ServiceHandle, now: i64)
        ensures
            *final(self) == spawned(*old(self), handle, now),
    {
        self.handle = Some(handle);
        self.status = ServiceStatus::Starting;
        self.stage = LifecycleStage::ContainerStarting;
        self.spawn_started_at = Some(now);
        self.retry_at = None;
        self.last_log_line = None;
        self.last_log_tail = None;
        self.download_progress = None;
        self.download_task = None;
    }

    fn warm(&mut self)
        ensures
            *final(self) == warming(*old(self)),
    {
        self.status = ServiceStatus::Starting;
        if self.stage != LifecycleStage::LoadingModel {
            let shown: Option<LifecycleStage> = match &self.last_log_line {
                Some(line) => classify_stage_from_log(Some(line.as_str())),
                None => None,
            };
            match shown {
                Some(stage) => {
                    self.stage = stage;
                },
                None => {
                    if self.stage == LifecycleStage::PullingImage {
                        self.stage = LifecycleStage::ContainerStarting;
                    }
                },
            }
        }
        if self.stage != LifecycleStage::DownloadingModel {
            self.download_progress = None;
        }
    }

    fn promote(&mut self, row: &BackendRow, handle: &ServiceHandle) -> (r: Step)
        ensures
            *final(self) == healthy(*old(self)),
            r.promotes(*handle, *row),
    {
        self.status = ServiceStatus::Healthy;
        self.stage = LifecycleStage::Healthy;
        self.restart_attempts = 0;
        self.retry_at = None;
        self.last_log_tail = None;
        self.last_log_line = None;
        self.download_progress = None;
        let mut effects: Vec<Effect> = Vec::new();
        effects.push(Effect::ResolveAlerts);
        let endpoint: String = url_with(handle, "/v1");
        let known: bool = match &row.endpoint {
            Some(e) => same(e.as_str(), endpoint.as_str()),
            None => false,
        };
        if !known {
            effects.push(Effect::WriteEndpoint(endpoint));
        }
        Step { effects, request: Request::Settled }
    }

    fn observe(&mut self, poll: &TaskPoll)
        ensures
            *final(self) == polled(*old(self), *poll),
    {
        if let Some(p) = poll.progress {
            self.download_progress = p;
        }
    }

    fn end_task(&mut self)
        ensures
            *final(self) == ended(*old(self)),
    {
        self.download_task = None;
        self.download_progress = None;
    }

    /// The first question about a row. A row that is not managed is none of the
    /// supervisor's. A parked slot is left alone, and so is one that rests after a
    /// failed attempt; a running service is inspected, and otherwise a container left
    /// by an earlier process is looked for before anything is started.
    pub fn begin_row(&self, row: &BackendRow, now: i64) -> (r: Step)
        ensures
            questions_left(r.request) <= 8,
            row.mode != BackendMode::Managed ==> r.rests(),
            self.parked() || self.resting(now) ==> r.rests(),
            row.mode == BackendMode::Managed && !self.parked() && !self.resting(now) ==> match self.handle {
                Some(handle) => r.asks(Request::Inspect { handle }),
                None => {
                    &&& r.effects@.len() == 0
                    &&& r.request matches Request::TryAdopt { name, host_port }
                    &&& name@ == "execlaw-backend-"@ + row.purpose.name()
                    &&& host_port == port_of(row.purpose)
                },
            },
    {
        if row.mode != BackendMode::Managed {
            return settle();
        }
        let looping: bool = match self.status {
            ServiceStatus::CrashLooping { .. } => true,
            _ => false,
        };
        if looping && self.restart_attempts >= MAX_RESTART_ATTEMPTS {
            return settle();
        }
        if let Some(t) = self.retry_at {
            if now < t {
                return settle();
            }
        }
        match &self.handle {
            Some(h) => ask(Request::Inspect { handle: h.clone() }),
            None => {
                let mut name: String = "execlaw-backend-".to_owned();
                name.append(row.purpose.as_str());
                ask(Request::TryAdopt { name, host_port: host_port_for(row.purpose) })
            },
        }
    }

    /// Decides how a service without a container is started: not at all for an
    /// invalid row, behind its model download where the host downloads models,
    /// at once otherwise.
    pub fn prepare_spawn(&mut self, row: &BackendRow, host: &HostCache) -> (r: Step)
        ensures
            questions_left(r.request) <= 7,
            keeps_form(*old(self), *final(self)),
            prepares(*old(self), *final(self), *row, *host, r),
    {
        match spec_from_row(row) {
            Err(msg) => {
                self.status = ServiceStatus::Stopped;
                self.stage = LifecycleStage::Failed;
                self.download_progress = None;
                let image: String = spec_image_for_alert(row);
                let mut detail: String = "invalid model_spec_json: ".to_owned();
                detail.append(msg.as_str());
                settle_with(
                    Effect::RaiseAlert(crashloop_alert(row.purpose, image.as_str(), detail)),
                )
            },
            Ok(spec) => {
                if host.downloads {
                    if let Some(model_id) = extract_model_id(row) {
                        return if self.download_task.is_some() {
                            ask(Request::PollDownload { spec, model_id })
                        } else {
                            ask(Request::CheckCache { spec, model_id })
                        };
                    }
                }
                self.start(spec)
            },
        }
    }

    /// A container to adopt was looked for. A found one is taken over and
    /// inspected; none, or a failed search, leads to a start.
    pub fn on_adopt(
        &mut self,
        row: &BackendRow,
        host: &HostCache,
        found: Result<Option<ServiceHandle>, ServiceError>,
        now: i64,
    ) -> (r: Step)
        ensures
            questions_left(r.request) <= 7,
            keeps_form(*old(self), *final(self)),
            found matches Ok(Some(h)) ==> *final(self) == adopted(*old(self), h, now) && r.asks(
                Request::Inspect { handle: h },
            ),
            !(found matches Ok(Some(h))) ==> prepares(*old(self), *final(self), *row, *host, r),
    {
        match found {
            Ok(Some(handle)) => {
                self.handle = Some(handle.clone());
                self.status = ServiceStatus::Starting;
                self.stage = LifecycleStage::ContainerStarting;
                self.spawn_started_at = Some(now);
                self.retry_at = None;
                self.download_progress = None;
                ask(Request::Inspect { handle })
            },
            _ => self.prepare_spawn(row, host),
        }
    }

    /// The download under way was looked at. While it runs the row waits; a
    /// failure counts as a failed attempt; success leads to the start.
    pub fn on_download_poll(
        &mut self,
        row: &BackendRow,
        host: &HostCache,
        spec: ServiceSpec,
        model_id: String,
        poll: TaskPoll,
        now: i64,
    ) -> (r: Step)
        requires
            old(self).restart_attempts < MAX_RESTART_ATTEMPTS,
        ensures
            questions_left(r.request) < questions_left(Request::PollDownload { spec, model_id }),
            keeps_form(*old(self), *final(self)),
            !poll.done ==> *final(self) == waiting(polled(*old(self), poll)) && r.rests(),
            poll.done && poll.failure is Some ==> *final(self) == failed(ended(*old(self)), now)
                && r.alerts(
                row.purpose,
                spec@.image,
                "host-side HuggingFace download for "@ + model_id@ + " failed: "@
                    + (poll.failure->0)@,
            ),
            poll.done && poll.failure is None ==> *final(self) == pulling(ended(*old(self)))
                && r.spawns(cached_spec(spec@, *host)),
    {
        self.observe(&poll);
        if !poll.done {
            self.wait();
            return settle();
        }
        self.end_task();
        if let Some(err) = poll.failure {
            self.fail(now);
            let mut detail: String = "host-side HuggingFace download for ".to_owned();
            detail.append(model_id.as_str());
            detail.append(" failed: ");
            detail.append(err.as_str());
            return settle_with(
                Effect::RaiseAlert(crashloop_alert(row.purpose, spec.image.as_str(), detail)),
            );
        }
        self.start_cached(host, spec)
    }

    fn start_cached(&mut self, host: &HostCache, spec: ServiceSpec) -> (r: Step)
        ensures
            *final(self) == pulling(*old(self)),
            r.spawns(cached_spec(spec@, *host)),
    {
        let mut spec = spec;
        if let Some(dir) = &host.primary {
            attach_hf_cache_mount(&mut spec, dir.as_str());
        }
        self.start(spec)
    }

    /// The host's cache was asked for the model. A missing model starts a
    /// download and the row waits.
    pub fn on_cache_check(
        &mut self,
        host: &HostCache,
        spec: ServiceSpec,
        model_id: String,
        cached: bool,
    ) -> (r: Step)
        ensures
            questions_left(r.request) < questions_left(Request::CheckCache { spec, model_id }),
            keeps_form(*old(self), *final(self)),
            cached ==> *final(self) == pulling(*old(self)) && r.spawns(cached_spec(spec@, *host)),
            !cached ==> *final(self) == waiting(
                ManagedSlot { download_task: Some(model_id), ..*old(self) },
            ) && r.only(Effect::StartDownload(model_id)),
    {
        if cached {
            return self.start_cached(host, spec);
        }
        self.download_task = Some(model_id.clone());
        self.wait();
        settle_with(Effect::StartDownload(model_id))
    }

    /// The service was started. A failure of a CUDA voice image on too old a
    /// host is tried again on the CPU; any other failure counts.
    pub fn on_spawn(
        &mut self,
        row: &BackendRow,
        spec: ServiceSpec,
        outcome: Result<ServiceHandle, ServiceError>,
        now: i64,
    ) -> (r: Step)
        requires
            old(self).restart_attempts < MAX_RESTART_ATTEMPTS,
        ensures
            questions_left(r.request) < questions_left(Request::Spawn { spec }),
            keeps_form(*old(self), *final(self)),
            outcome matches Ok(h) ==> *final(self) == spawned(*old(self), h, now) && r.asks(
                Request::Inspect { handle: h },
            ),
            outcome matches Err(e) ==> match cpu_fallback(row.purpose, spec@.image, e.text()) {
                Some(image) => {
                    &&& *final(self) == *old(self)
                    &&& r.effects@.len() == 0
                    &&& r.request matches Request::SpawnOnCpu { spec: s, first_error }
                    &&& s@ == (SpecModel { image, gpu_id: None, gpu_vendor: None, ..spec@ })
                    &&& first_error == e
                },
                None => *final(self) == failed(*old(self), now) && r.alerts(
                    row.purpose,
                    spec@.image,
                    "container spawn failed: "@ + e.text(),
                ),
            },
    {
        match outcome {
            Ok(handle) => {
                self.started(handle.clone(), now);
                ask(Request::Inspect { handle })
            },
            Err(e) => {
                let mut spec = spec;
                if downgrade_voice_cuda_spec(row.purpose, &mut spec, &e) {
                    return ask(Request::SpawnOnCpu { spec, first_error: e });
                }
                self.spawn_failed(row.purpose, spec.image.as_str(), &e, now)
            },
        }
    }

    fn spawn_failed(
        &mut self,
        purpose: BackendPurpose,
        image: &str,
        e: &ServiceError,
        now: i64,
    ) -> (r: Step)
        requires
            old(self).restart_attempts < MAX_RESTART_ATTEMPTS,
        ensures
            *final(self) == failed(*old(self), now),
            r.alerts(purpose, image@, "container spawn failed: "@ + e.text()),
    {
        self.fail(now);
        let mut detail: String = "container spawn failed: ".to_owned();
        detail.append(e.message());
        settle_with(Effect::RaiseAlert(crashloop_alert(purpose, image, detail)))
    }

    /// The CPU variant was started after the CUDA one failed. Its failure is
    /// reported with the first error.
    pub fn on_cpu_spawn(
        &mut self,
        row: &BackendRow,
        spec: ServiceSpec,
        first_error: ServiceError,
        outcome: Result<ServiceHandle, ServiceError>,
        now: i64,
    ) -> (r: Step)
        requires
            old(self).restart_attempts < MAX_RESTART_ATTEMPTS,
        ensures
            questions_left(r.request) < questions_left(Request::SpawnOnCpu { spec, first_error }),
            keeps_form(*old(self), *final(self)),
            outcome matches Ok(h) ==> *final(self) == spawned(*old(self), h, now) && r.rests(),
            outcome is Err ==> *final(self) == failed(*old(self), now) && r.alerts(
                row.purpose,
                spec@.image,
                "container spawn failed: "@ + first_error.text(),
            ),
    {
        match outcome {
            Ok(handle) => {
                self.started(handle, now);
                settle()
            },
            Err(_) => self.spawn_failed(row.purpose, spec.image.as_str(), &first_error, now),
        }
    }

    fn probe(handle: ServiceHandle, row: &BackendRow) -> (r: Step)
        ensures
            r.probes(handle, *row),
    {
        let url: String = url_with(&handle, health_path_for_hint(binary_hint_from_row(row)));
        ask(Request::HealthCheck { handle, url })
    }

    /// The service was inspected. A failed inspection changes nothing; a
    /// vanished or stopped container is let go; a crash loop asks for the log;
    /// anything else leads to the health probe, with a look at the log while
    /// the service is not healthy yet.
    pub fn on_inspect(
        &mut self,
        row: &BackendRow,
        handle: ServiceHandle,
        found: Result<ServiceStatus, ServiceError>,
        now: i64,
    ) -> (r: Step)
        requires
            old(self).restart_attempts < MAX_RESTART_ATTEMPTS,
        ensures
            questions_left(r.request) < questions_left(Request::Inspect { handle }),
            keeps_form(*old(self), *final(self)),
            found is Err ==> *final(self) == *old(self) && r.rests(),
            found == Ok::<ServiceStatus, ServiceError>(ServiceStatus::NotFound) ==> *final(self)
                == (ManagedSlot {
                handle: None,
                status: ServiceStatus::Stopped,
                stage: LifecycleStage::Idle,
                download_progress: None,
                ..*old(self)
            }) && r.only(Effect::ClearEndpoint),
            found == Ok::<ServiceStatus, ServiceError>(ServiceStatus::Stopped) ==> *final(self)
                == (ManagedSlot {
                handle: None,
                status: ServiceStatus::Stopped,
                stage: LifecycleStage::Idle,
                download_progress: None,
                ..*old(self)
            }) && r.rests(),
            found matches Ok(ServiceStatus::CrashLooping { restart_count }) ==> *final(self)
                == crashing(*old(self), restart_count, now) && r.asks(
                Request::TailCrashLogs { handle, restart_count, lines: CRASH_LOG_LINES },
            ),
            (found matches Ok(s) && (s is Pulling || s is Starting || s is Healthy)) ==> {
                &&& *final(self) == *old(self)
                &&& old(self).stage == LifecycleStage::Healthy ==> r.probes(handle, *row)
                &&& old(self).stage != LifecycleStage::Healthy ==> r.asks(
                    Request::TailLogs { handle, lines: WARMUP_LOG_LINES },
                )
            },
    {
        match found {
            Err(_) => settle(),
            Ok(ServiceStatus::NotFound) => {
                self.handle = None;
                self.status = ServiceStatus::Stopped;
                self.stage = LifecycleStage::Idle;
                self.download_progress = None;
                settle_with(Effect::ClearEndpoint)
            },
            Ok(ServiceStatus::CrashLooping { restart_count }) => {
                self.status = ServiceStatus::CrashLooping { restart_count };
                self.stage = LifecycleStage::Failed;
                self.download_progress = None;
                let next: u32 = self.restart_attempts + 1;
                self.restart_attempts = if restart_count > next {
                    restart_count
                } else {
                    next
                };
                self.retry_at = retry_after(self.restart_attempts, now);
                ask(Request::TailCrashLogs { handle, restart_count, lines: CRASH_LOG_LINES })
            },
            Ok(ServiceStatus::Stopped) => {
                self.status = ServiceStatus::Stopped;
                self.stage = LifecycleStage::Idle;
                self.handle = None;
                self.download_progress = None;
                settle()
            },
            Ok(_) => {
                if self.stage != LifecycleStage::Healthy {
                    ask(Request::TailLogs { handle, lines: WARMUP_LOG_LINES })
                } else {
                    ManagedSlot::probe(handle, row)
                }
            },
        }
    }

    /// The log of a crashing service was read; a log that could not be read
    /// counts as empty. The alert explains the crash, the endpoint is cleared,
    /// and below the cap the container is stopped so that the next pass after the
    /// slot's rest starts it anew.
    pub fn on_crash_logs(
        &mut self,
        row: &BackendRow,
        handle: ServiceHandle,
        restart_count: u32,
        log: Option<String>,
    ) -> (r: Step)
        ensures
            old(self).wf() ==> final(self).wf(),
            ({
                let text = match log {
                    Some(l) => l@,
                    None => Seq::<char>::empty(),
                };
                let stop = old(self).restart_attempts < MAX_RESTART_ATTEMPTS;
                &&& r.request is Settled
                &&& r.effects@.len() == if stop {
                    3nat
                } else {
                    2
                }
                &&& r.effects@[0] matches Effect::RaiseAlert(a)
                &&& a.tells(row.purpose, shown_image(*row), crash_detail(restart_count, text))
                &&& stop ==> r.effects@[1] == Effect::StopService(handle)
                &&& r.effects@.last() is ClearEndpoint
                &&& final(self).handle == if stop {
                    None
                } else {
                    old(self).handle
                }
                &&& opt_view(final(self).last_log_tail) == Some(text)
                &&& opt_view(final(self).last_log_line) == if blank(text) {
                    opt_view(old(self).last_log_line)
                } else {
                    last_line_spec(text)
                }
                &&& *final(self) == (ManagedSlot {
                    handle: final(self).handle,
                    last_log_tail: final(self).last_log_tail,
                    last_log_line: final(self).last_log_line,
                    ..*old(self)
                })
            }),
    {
        let text: String = match log {
            Some(l) => l,
            None => String::new(),
        };
        let image: String = spec_image_for_alert(row);
        let detail: String = crash_text(restart_count, text.as_str());
        if !is_blank(text.as_str()) {
            self.last_log_line = last_line(text.as_str());
        }
        self.last_log_tail = Some(text);
        let mut effects: Vec<Effect> = Vec::new();
        effects.push(Effect::RaiseAlert(crashloop_alert(row.purpose, image.as_str(), detail)));
        if self.restart_attempts < MAX_RESTART_ATTEMPTS {
            effects.push(Effect::StopService(handle));
            self.handle = None;
        }
        effects.push(Effect::ClearEndpoint);
        Step { effects, request: Request::Settled }
    }

    /// The log of a service that warms up was read; one that could not be read
    /// counts as empty.
    pub fn on_logs(&mut self, row: &BackendRow, handle: ServiceHandle, log: Option<String>) -> (r:
        Step)
        ensures
            questions_left(r.request) < 3,
            keeps_form(*old(self), *final(self)),
            logged(
                *old(self),
                *final(self),
                match log {
                    Some(l) => l@,
                    None => Seq::<char>::empty(),
                },
            ),
            r.probes(handle, *row),
    {
        if let Some(text) = log {
            if !is_blank(text.as_str()) {
                self.last_log_line = last_line(text.as_str());
                self.last_log_tail = Some(text);
            }
        }
        ManagedSlot::probe(handle, row)
    }

    /// The service was probed. A daemon that answers before its model is there
    /// is held back until the model is pulled; any other answering service is
    /// healthy; a silent one warms up.
    pub fn on_health(
        &mut self,
        row: &BackendRow,
        handle: ServiceHandle,
        answer: Result<bool, ServiceError>,
    ) -> (r: Step)
        ensures
            questions_left(r.request) < 2,
            keeps_form(*old(self), *final(self)),
            answer != Ok::<bool, ServiceError>(true) ==> *final(self) == warming(*old(self))
                && r.rests(),
            answer == Ok::<bool, ServiceError>(true) ==> if ollama_row(*row) && row_ollama_tag(
                *row,
            ) is Some {
                &&& *final(self) == *old(self)
                &&& r.effects@.len() == 0
                &&& old(self).download_task is Some ==> (r.request matches Request::PollPull {
                    handle: h,
                    model_id,
                } && h == handle && Some(model_id@) == row_ollama_tag(*row))
                &&& old(self).download_task is None ==> (r.request matches Request::CheckModel {
                    handle: h,
                    model_id,
                } && h == handle && Some(model_id@) == row_ollama_tag(*row))
            } else {
                *final(self) == healthy(*old(self)) && r.promotes(handle, *row)
            },
    {
        match answer {
            Ok(true) => {
                if is_ollama_row(row) {
                    if let Some(model_id) = extract_ollama_model_id(row) {
                        return if self.download_task.is_some() {
                            ask(Request::PollPull { handle, model_id })
                        } else {
                            ask(Request::CheckModel { handle, model_id })
                        };
                    }
                }
                self.promote(row, &handle)
            },
            _ => {
                self.warm();
                settle()
            },
        }
    }

    /// The pull under way was looked at. While it runs the row waits; a failure
    /// counts as a failed attempt; success makes the service healthy.
    pub fn on_pull_poll(
        &mut self,
        row: &BackendRow,
        handle: ServiceHandle,
        model_id: String,
        poll: TaskPoll,
        now: i64,
    ) -> (r: Step)
        requires
            old(self).restart_attempts < MAX_RESTART_ATTEMPTS,
        ensures
            questions_left(r.request) < questions_left(Request::PollPull { handle, model_id }),
            keeps_form(*old(self), *final(self)),
            !poll.done ==> *final(self) == waiting(polled(*old(self), poll)) && r.rests(),
            poll.done && poll.failure is Some ==> *final(self) == failed(ended(*old(self)), now)
                && r.alerts(
                row.purpose,
                "(native Ollama)"@,
                "Ollama pull of "@ + model_id@ + " failed: "@ + (poll.failure->0)@,
            ),
            poll.done && poll.failure is None ==> *final(self) == healthy(ended(*old(self)))
                && r.promotes(handle, *row),
    {
        self.observe(&poll);
        if !poll.done {
            self.wait();
            return settle();
        }
        self.end_task();
        if let Some(err) = poll.failure {
            self.fail(now);
            let mut detail: String = "Ollama pull of ".to_owned();
            detail.append(model_id.as_str());
            detail.append(" failed: ");
            detail.append(err.as_str());
            return settle_with(
                Effect::RaiseAlert(crashloop_alert(row.purpose, "(native Ollama)", detail)),
            );
        }
        self.promote(row, &handle)
    }

    /// The daemon was asked for the model. A missing model starts a pull and
    /// the row waits.
    pub fn on_model_check(
        &mut self,
        row: &BackendRow,
        handle: ServiceHandle,
        model_id: String,
        present: bool,
    ) -> (r: Step)
        ensures
            questions_left(r.request) < questions_left(Request::CheckModel { handle, model_id }),
            keeps_form(*old(self), *final(self)),
            present ==> *final(self) == healthy(*old(self)) && r.promotes(handle, *row),
            !present ==> *final(self) == waiting(
                ManagedSlot { download_task: Some(model_id), ..*old(self) },
            ) && r.only(Effect::StartPull { host_port: handle.host_port, model_id }),
    {
        if present {
            return self.promote(row, &handle);
        }
        self.download_task = Some(model_id.clone());
        self.wait();
        settle_with(Effect::StartPull { host_port: handle.host_port, model_id })
    }
}

/// The slot after a save of its row: the attempts start over, and a crash loop
/// is forgotten, so that the next pass decides anew. The container stays.
pub open spec fn reset(slot: ManagedSlot) -> ManagedSlot {
    ManagedSlot {
        restart_attempts: 0,
        retry_at: None,
        status: if slot.status is CrashLooping {
            ServiceStatus::Stopped
        } else {
            slot.status
        },
        ..slot
    }
}

/// The slot of a backend that is no longer managed, once its container is told
/// to stop.
pub open spec fn retired(slot: ManagedSlot) -> ManagedSlot {
    ManagedSlot {
        handle: None,
        status: ServiceStatus::Stopped,
        restart_attempts: 0,
        retry_at: None,
        ..slot
    }
}

/// Live status of one configured backend.
#[derive(Debug)]
pub struct BackendRuntimeStatus {
    pub purpose: BackendPurpose,
    pub mode: BackendMode,
    pub status: ServiceStatus,
    pub endpoint: Option<String>,
    /// Failed attempts of a crash loop; 0 in any other status.
    pub restart_attempts: u32,
    pub stage: LifecycleStage,
    /// Seconds since the most recent spawn; none for a row that is not managed.
    pub elapsed_secs: Option<u64>,
    pub last_log_line: Option<String>,
    pub download_progress: Option<DownloadProgress>,
}

/// The seconds from `then` to `now`; none before `then`, and the time that an
/// `i64` can hold at most.
pub open spec fn seconds_between(then: i64, now: i64) -> u64 {
    if now <= then {
        0
    } else if now - then > i64::MAX {
        i64::MAX as u64
    } else {
        (now - then) as u64
    }
}

/// The live status of a row: a row that is not managed is `Stopped`.
pub open spec fn status_of(slot: ManagedSlot, row: BackendRow, now: i64) -> BackendRuntimeStatus {
    let status = if row.mode == BackendMode::Managed {
        slot.status
    } else {
        ServiceStatus::Stopped
    };
    BackendRuntimeStatus {
        purpose: row.purpose,
        mode: row.mode,
        status,
        endpoint: row.endpoint,
        restart_attempts: if status is CrashLooping {
            slot.restart_attempts
        } else {
            0
        },
        stage: slot.stage,
        elapsed_secs: match slot.spawn_started_at {
            Some(t) if row.mode == BackendMode::Managed => Some(seconds_between(t, now)),
            _ => None,
        },
        last_log_line: slot.last_log_line,
        download_progress: slot.download_progress,
    }
}

/// The row that a purpose is configured by: the last one.
pub open spec fn row_of(rows: Seq<BackendRow>, purpose: BackendPurpose) -> Option<BackendRow>
    decreases rows.len(),
{
    if rows.len() == 0 {
        None
    } else if rows.last().purpose == purpose {
        Some(rows.last())
    } else {
        row_of(rows.drop_last(), purpose)
    }
}

/// The purpose has a row, and it is managed.
pub open spec fn still_managed(rows: Seq<BackendRow>, purpose: BackendPurpose) -> bool {
    row_of(rows, purpose) matches Some(row) && row.mode == BackendMode::Managed
}

/// A service that is let go.
#[derive(Debug)]
pub struct Retirement {
    pub purpose: BackendPurpose,
    /// The service to stop.
    pub handle: ServiceHandle,
    /// The row still names that service, and its endpoint is to be cleared.
    pub clear_endpoint: bool,
}

/// The service that a slot lets go of: the one it has, where its row is gone or no
/// longer managed. An endpoint that the operator wrote stays.
pub open spec fn retirement(
    slot: ManagedSlot,
    rows: Seq<BackendRow>,
    purpose: BackendPurpose,
) -> Seq<Retirement> {
    match slot.handle {
        Some(handle) if !still_managed(rows, purpose) => seq![
            Retirement {
                purpose,
                handle,
                clear_endpoint: row_of(rows, purpose) matches Some(row) && opt_view(row.endpoint)
                    == Some(base_url(handle)),
            },
        ],
        _ => Seq::empty(),
    }
}

/// The slot of a purpose after a pass has looked for services to let go.
pub open spec fn kept_slot(
    slot: ManagedSlot,
    rows: Seq<BackendRow>,
    purpose: BackendPurpose,
) -> ManagedSlot {
    if slot.handle is Some && !still_managed(rows, purpose) {
        retired(slot)
    } else {
        slot
    }
}

/// The supervisor's state: one slot per purpose, and what the host offers.
#[derive(Debug)]
pub struct BackendSupervisor {
    pub host: HostCache,
    pub standard: ManagedSlot,
    pub small: ManagedSlot,
    pub voice_stt: ManagedSlot,
    pub voice_tts: ManagedSlot,
    pub vision: ManagedSlot,
}

fn elapsed(then: i64, now: i64) -> (r: u64)
    ensures
        r == seconds_between(then, now),
{
    if now <= then {
        return 0;
    }
    let span: i128 = now as i128 - then as i128;
    if span > i64::MAX as i128 {
        i64::MAX as u64
    } else {
        span as u64
    }
}

fn find_row(rows: &Vec<BackendRow>, purpose: BackendPurpose) -> (r: Option<&BackendRow>)
    ensures
        match r {
            Some(row) => row_of(rows@, purpose) == Some(*row),
            None => row_of(rows@, purpose) is None,
        },
{
    let mut i: usize = rows.len();
    assert(rows@.take(i as int) =~= rows@);
    while i > 0
        invariant
            i <= rows.len(),
            row_of(rows@, purpose) == row_of(rows@.take(i as int), purpose),
        decreases i,
    {
        if rows[i - 1].purpose == purpose {
            return Some(&rows[i - 1]);
        }
        assert(rows@.take(i as int).drop_last() =~= rows@.take(i - 1));
        i -= 1;
    }
    None
}

impl BackendSupervisor {
    /// The slot of a purpose.
    pub open spec fn slot(self, purpose: BackendPurpose) -> ManagedSlot {
        match purpose {
            BackendPurpose::Standard => self.standard,
            BackendPurpose::Small => self.small,
            BackendPurpose::VoiceStt => self.voice_stt,
            BackendPurpose::VoiceTts => self.voice_tts,
            BackendPurpose::Vision => self.vision,
        }
    }

    /// Every slot is well formed.
    pub open spec fn wf(self) -> bool {
        &&& self.slot(BackendPurpose::Standard).wf()
        &&& self.slot(BackendPurpose::Small).wf()
        &&& self.slot(BackendPurpose::VoiceStt).wf()
        &&& self.slot(BackendPurpose::VoiceTts).wf()
        &&& self.slot(BackendPurpose::Vision).wf()
    }

    /// A supervisor that has seen nothing, on a host that downloads nothing.
    pub fn new() -> (r: BackendSupervisor)
        ensures
            r.wf(),
            forall|p: BackendPurpose| #[trigger] r.slot(p) == fresh_slot(),
            r.host == (HostCache { downloads: false, primary: None }),
    {
        BackendSupervisor {
            host: HostCache { downloads: false, primary: None },
            standard: ManagedSlot::default(),
            small: ManagedSlot::default(),
            voice_stt: ManagedSlot::default(),
            voice_tts: ManagedSlot::default(),
            vision: ManagedSlot::default(),
        }
    }

    /// The same supervisor on a host that downloads models into
    /// `primary_cache`.
    pub fn with_hf_downloader(self, primary_cache: String) -> (r: BackendSupervisor)
        ensures
            self.wf() ==> r.wf(),
            forall|p: BackendPurpose| #[trigger] r.slot(p) == self.slot(p),
            r.host == (HostCache { downloads: true, primary: Some(primary_cache) }),
    {
        BackendSupervisor {
            host: HostCache { downloads: true, primary: Some(primary_cache) },
            standard: self.standard,
            small: self.small,
            voice_stt: self.voice_stt,
            voice_tts: self.voice_tts,
            vision: self.vision,
        }
    }

    /// The slot of a purpose.
    pub fn slot_of(&self, purpose: BackendPurpose) -> (r: &ManagedSlot)
        ensures
            *r == self.slot(purpose),
    {
        match purpose {
            BackendPurpose::Standard => &self.standard,
            BackendPurpose::Small => &self.small,
            BackendPurpose::VoiceStt => &self.voice_stt,
            BackendPurpose::VoiceTts => &self.voice_tts,
            BackendPurpose::Vision => &self.vision,
        }
    }

    /// The slot of a purpose, to be changed.
    pub fn slot_mut(&mut self, purpose: BackendPurpose) -> (r: &mut ManagedSlot)
        ensures
            *r == old(self).slot(purpose),
            final(self).slot(purpose) == *final(r),
            forall|p: BackendPurpose|
                p != purpose ==> #[trigger] final(self).slot(p) == old(self).slot(p),
            final(self).host == old(self).host,
    {
        match purpose {
            BackendPurpose::Standard => &mut self.standard,
            BackendPurpose::Small => &mut self.small,
            BackendPurpose::VoiceStt => &mut self.voice_stt,
            BackendPurpose::VoiceTts => &mut self.voice_tts,
            BackendPurpose::Vision => &mut self.vision,
        }
    }

    /// The operator saved a row: its attempts start over.
    pub fn reset_attempts(&mut self, purpose: BackendPurpose)
        ensures
            old(self).wf() ==> final(self).wf(),
            final(self).slot(purpose) == reset(old(self).slot(purpose)),
            forall|p: BackendPurpose|
                p != purpose ==> #[trigger] final(self).slot(p) == old(self).slot(p),
            final(self).host == old(self).host,
    {
        let slot: &mut ManagedSlot = self.slot_mut(purpose);
        slot.restart_attempts = 0;
        slot.retry_at = None;
        let looping: bool = match slot.status {
            ServiceStatus::CrashLooping { .. } => true,
            _ => false,
        };
        if looping {
            slot.status = ServiceStatus::Stopped;
        }
    }

    /// The operator restarts a backend: its slot starts over, and the service
    /// it had is returned to be stopped.
    pub fn restart(&mut self, purpose: BackendPurpose) -> (r: Option<ServiceHandle>)
        ensures
            old(self).wf() ==> final(self).wf(),
            r == old(self).slot(purpose).handle,
            final(self).slot(purpose) == fresh_slot(),
            forall|p: BackendPurpose|
                p != purpose ==> #[trigger] final(self).slot(p) == old(self).slot(p),
            final(self).host == old(self).host,
    {
        let slot: &mut ManagedSlot = self.slot_mut(purpose);
        let handle: Option<ServiceHandle> = slot.handle.take();
        *slot = ManagedSlot::default();
        handle
    }

    fn retire_slot(
        &mut self,
        purpose: BackendPurpose,
        rows: &Vec<BackendRow>,
        out: &mut Vec<Retirement>,
    )
        ensures
            final(out)@ == old(out)@ + retirement(old(self).slot(purpose), rows@, purpose),
            final(self).slot(purpose) == kept_slot(old(self).slot(purpose), rows@, purpose),
            forall|p: BackendPurpose|
                p != purpose ==> #[trigger] final(self).slot(p) == old(self).slot(p),
            final(self).host == old(self).host,
    {
        let row: Option<&BackendRow> = find_row(rows, purpose);
        if let Some(row) = row {
            if row.mode == BackendMode::Managed {
                assert(out@ =~= out@ + Seq::<Retirement>::empty());
                return;
            }
        }
        let slot: &mut ManagedSlot = self.slot_mut(purpose);
        match slot.handle.take() {
            Some(handle) => {
                slot.status = ServiceStatus::Stopped;
                slot.restart_attempts = 0;
                slot.retry_at = None;
                let clear_endpoint: bool = match row {
                    Some(row) => match &row.endpoint {
                        Some(endpoint) => {
                            let own: String = url_with(&handle, "/v1");
                            same(endpoint.as_str(), own.as_str())
                        },
                        None => false,
                    },
                    None => false,
                };
                out.push(Retirement { purpose, handle, clear_endpoint });
            },
            None => {
                assert(out@ =~= out@ + Seq::<Retirement>::empty());
            },
        }
    }

    /// Lets go of every service whose row is gone or no longer managed, once each,
    /// and says which rows still name the service that they lose.
    pub fn retire_unmanaged(&mut self, rows: &Vec<BackendRow>) -> (r: Vec<Retirement>)
        ensures
            old(self).wf() ==> final(self).wf(),
            r@ == retirement(old(self).standard, rows@, BackendPurpose::Standard) + retirement(
                old(self).small,
                rows@,
                BackendPurpose::Small,
            ) + retirement(old(self).voice_stt, rows@, BackendPurpose::VoiceStt) + retirement(
                old(self).voice_tts,
                rows@,
                BackendPurpose::VoiceTts,
            ) + retirement(old(self).vision, rows@, BackendPurpose::Vision),
            forall|p: BackendPurpose| #[trigger]
                final(self).slot(p) == kept_slot(old(self).slot(p), rows@, p),
            final(self).host == old(self).host,
    {
        let mut out: Vec<Retirement> = Vec::new();
        self.retire_slot(BackendPurpose::Standard, rows, &mut out);
        self.retire_slot(BackendPurpose::Small, rows, &mut out);
        self.retire_slot(BackendPurpose::VoiceStt, rows, &mut out);
        self.retire_slot(BackendPurpose::VoiceTts, rows, &mut out);
        self.retire_slot(BackendPurpose::Vision, rows, &mut out);
        assert(Seq::<Retirement>::empty() + retirement(
            old(self).standard,
            rows@,
            BackendPurpose::Standard,
        ) =~= retirement(old(self).standard, rows@, BackendPurpose::Standard));
        out
    }

    /// The live status of every configured backend, in the order of the rows.
    pub fn snapshot_status(&self, rows: &Vec<BackendRow>, now: i64) -> (r: Vec<
        BackendRuntimeStatus,
    >)
        ensures
            r@.len() == rows@.len(),
            forall|i: int|
                0 <= i < rows@.len() ==> #[trigger] r@[i] == status_of(
                    self.slot(rows@[i].purpose),
                    rows@[i],
                    now,
                ),
    {
        let mut out: Vec<BackendRuntimeStatus> = Vec::new();
        let mut i: usize = 0;
        while i < rows.len()
            invariant
                i <= rows.len(),
                out@.len() == i,
                forall|j: int|
                    0 <= j < i ==> #[trigger] out@[j] == status_of(
                        self.slot(rows@[j].purpose),
                        rows@[j],
                        now,
                    ),
            decreases rows.len() - i,
        {
            let row: &BackendRow = &rows[i];
            let slot: &ManagedSlot = self.slot_of(row.purpose);
            let status: ServiceStatus = if row.mode == BackendMode::Managed {
                slot.status
            } else {
                ServiceStatus::Stopped
            };
            let restart_attempts: u32 = match status {
                ServiceStatus::CrashLooping { .. } => slot.restart_attempts,
                _ => 0,
            };
            let elapsed_secs: Option<u64> = match slot.spawn_started_at {
                Some(t) if row.mode == BackendMode::Managed => Some(elapsed(t, now)),
                _ => None,
            };
            out.push(
                BackendRuntimeStatus {
                    purpose: row.purpose,
                    mode: row.mode,
                    status,
                    endpoint: row.endpoint.clone(),
                    restart_attempts,
                    stage: slot.stage,
                    elapsed_secs,
                    last_log_line: slot.last_log_line.clone(),
                    download_progress: slot.download_progress,
                },
            );
            i += 1;
        }
        out
    }

    /// The log of a backend: the live one where there is a service and it has
    /// something to say, else the one that was read last, else nothing.
    pub fn logs(&self, purpose: BackendPurpose, live: Option<String>) -> (r: String)
        ensures
            ({
                let slot = self.slot(purpose);
                r@ == if slot.handle is Some && live is Some && !blank((live->0)@) {
                    (live->0)@
                } else if slot.last_log_tail is Some {
                    (slot.last_log_tail->0)@
                } else {
                    Seq::<char>::empty()
                }
            }),
    {
        let slot: &ManagedSlot = self.slot_of(purpose);
        if slot.handle.is_some() {
            if let Some(text) = live {
                if !is_blank(text.as_str()) {
                    return text;
                }
            }
        }
        match &slot.last_log_tail {
            Some(t) => t.clone(),
            None => String::new(),
        }
    }
}

/// Whatever happens to a slot that has attempts left, it stays well formed; and
/// so does any well-formed slot that the operator resets or that is retired.
pub proof fn slots_stay_well_formed(
    slot: ManagedSlot,
    other: ManagedSlot,
    handle: ServiceHandle,
    now: i64,
    restart_count: u32,
    poll: TaskPoll,
)
    requires
        slot.wf(),
        slot.restart_attempts < MAX_RESTART_ATTEMPTS,
        other.wf(),
    ensures
        waiting(polled(slot, poll)).wf(),
        failed(ended(slot), now).wf(),
        pulling(ended(slot)).wf(),
        adopted(slot, handle, now).wf(),
        spawned(slot, handle, now).wf(),
        healthy(slot).wf(),
        warming(slot).wf(),
        crashing(slot, restart_count, now).wf(),
        reset(other).wf(),
        retired(other).wf(),
        fresh_slot().wf(),
        !other.parked() ==> other.restart_attempts < MAX_RESTART_ATTEMPTS,
{
}

/// A slot after failed attempts at these seconds.
pub open spec fn failed_times(slot: ManagedSlot, times: Seq<i64>) -> ManagedSlot
    decreases times.len(),
{
    if times.len() == 0 {
        slot
    } else {
        failed(failed_times(slot, times.drop_last()), times.last())
    }
}

/// A slot is parked by as many failed attempts in a row as the cap leaves it,
/// and by no fewer.
pub proof fn failures_in_a_row_park(slot: ManagedSlot, times: Seq<i64>)
    requires
        slot.restart_attempts < MAX_RESTART_ATTEMPTS,
        times.len() <= MAX_RESTART_ATTEMPTS - slot.restart_attempts,
    ensures
        failed_times(slot, times).restart_attempts == slot.restart_attempts + times.len(),
        failed_times(slot, times).parked() <==> times.len() == MAX_RESTART_ATTEMPTS
            - slot.restart_attempts,
    decreases times.len(),
{
    if times.len() > 0 {
        failures_in_a_row_park(slot, times.drop_last());
    }
}

/// After a failed attempt or a crash that does not park it, a slot rests for as
/// long as its failed attempts ask for, and no longer; the rest doubles with each
/// failure in a row.
pub proof fn rests_grow_exponentially(slot: ManagedSlot, restart_count: u32, now: i64, then: i64)
    requires
        slot.restart_attempts < MAX_RESTART_ATTEMPTS,
        now <= i64::MAX - 40,
    ensures
        ({
            let after = failed(slot, now);
            !after.parked() ==> (after.resting(then) <==> then < now + backoff(
                after.restart_attempts as nat,
            ))
        }),
        ({
            let after = crashing(slot, restart_count, now);
            !after.parked() ==> (after.resting(then) <==> then < now + backoff(
                after.restart_attempts as nat,
            ))
        }),
        backoff(1) == FIRST_BACKOFF_SECS,
        slot.restart_attempts > 0 ==> backoff((slot.restart_attempts + 1) as nat) == 2 * backoff(
            slot.restart_attempts as nat,
        ),
{
    let once = failed(slot, now).restart_attempts;
    if once < MAX_RESTART_ATTEMPTS {
        lemma_backoff_bound(once as nat);
    }
    let crashed = crashing(slot, restart_count, now).restart_attempts;
    if crashed < MAX_RESTART_ATTEMPTS {
        lemma_backoff_bound(crashed as nat);
    }
}

/// A reset frees a parked slot: it has all its attempts again, and the next pass
/// looks at its container or for one.
pub proof fn reset_frees_a_parked_slot(slot: ManagedSlot)
    requires
        slot.parked(),
    ensures
        !reset(slot).parked(),
        reset(slot).restart_attempts == 0,
        forall|now: i64| !reset(slot).resting(now),
        reset(slot).handle == slot.handle,
        reset(slot).status == ServiceStatus::Stopped,
{
}

/// A service is let go once: on the same rows the next pass finds none.
pub proof fn nothing_is_retired_twice(
    slot: ManagedSlot,
    rows: Seq<BackendRow>,
    purpose: BackendPurpose,
)
    ensures
        retirement(kept_slot(slot, rows, purpose), rows, purpose).len() == 0,
        kept_slot(kept_slot(slot, rows, purpose), rows, purpose) == kept_slot(
            slot,
            rows,
            purpose,
        ),
{
}

/// Once a service is seen to load its model, a probe that it does not answer
/// leaves the stage there.
pub proof fn loading_is_never_taken_back(slot: ManagedSlot)
    requires
        slot.stage == LifecycleStage::LoadingModel,
    ensures
        warming(slot).stage == LifecycleStage::LoadingModel,
        warming(warming(slot)) == warming(slot),
{
}

/// The kept end of a log is an end of it, fits the budget, and is the longest
/// such end.
pub proof fn kept_tail_is_the_longest_that_fits(s: Seq<char>, max: nat, k: int)
    requires
        0 <= k <= s.len(),
        byte_count(s.skip(k)) <= max,
    ensures
        kept_tail(s, max).len() <= s.len(),
        kept_tail(s, max) == s.skip(s.len() - kept_tail(s, max).len()),
        byte_count(kept_tail(s, max)) <= max,
        kept_tail(s, max).len() >= s.len() - k,
    decreases s.len(),
{
    if s.len() == 0 || byte_count(s) <= max {
        assert(s.skip(0) =~= s);
        assert(s.len() == 0 ==> encode_utf8(s).len() == 0);
    } else {
        assert(s.skip(0) =~= s);
        let rest = s.skip(1);
        assert(rest.skip(k - 1) =~= s.skip(k));
        kept_tail_is_the_longest_that_fits(rest, max, k - 1);
        let kept = kept_tail(rest, max);
        assert(rest.skip(rest.len() - kept.len()) =~= s.skip(s.len() - kept.len()));
    }
}

/// The last row of a purpose configures it, and a purpose without a row has none.
pub proof fn the_last_row_configures_its_purpose(
    rows: Seq<BackendRow>,
    purpose: BackendPurpose,
    i: int,
)
    requires
        -1 <= i < rows.len(),
        forall|j: int| i < j < rows.len() ==> (#[trigger] rows[j]).purpose != purpose,
        i >= 0 ==> rows[i].purpose == purpose,
    ensures
        row_of(rows, purpose) == (if i >= 0 {
            Some(rows[i])
        } else {
            None
        }),
    decreases rows.len(),
{
    if i < rows.len() - 1 {
        let front = rows.drop_last();
        assert(rows[rows.len() - 1].purpose != purpose);
        assert forall|j: int| i < j < front.len() implies (#[trigger] front[j]).purpose
            != purpose by {
            assert(front[j] == rows[j]);
        }
        if i >= 0 {
            assert(front[i] == rows[i]);
        }
        the_last_row_configures_its_purpose(front, purpose, i);
    }
}

/// A managed row shows what its slot knows; any other row is stopped and has no
/// running time. Failed attempts are shown in a crash loop only.
pub proof fn a_status_shows_its_slot(slot: ManagedSlot, row: BackendRow, now: i64)
    ensures
        status_of(slot, row, now).purpose == row.purpose,
        status_of(slot, row, now).mode == row.mode,
        status_of(slot, row, now).endpoint == row.endpoint,
        status_of(slot, row, now).stage == slot.stage,
        status_of(slot, row, now).last_log_line == slot.last_log_line,
        status_of(slot, row, now).download_progress == slot.download_progress,
        row.mode is Managed ==> status_of(slot, row, now).status == slot.status,
        !(row.mode is Managed) ==> status_of(slot, row, now).status is Stopped,
        !(row.mode is Managed) ==> status_of(slot, row, now).elapsed_secs is None,
        row.mode is Managed && slot.status is CrashLooping ==> status_of(
            slot,
            row,
            now,
        ).restart_attempts == slot.restart_attempts,
        !(row.mode is Managed) || !(slot.status is CrashLooping) ==> status_of(
            slot,
            row,
            now,
        ).restart_attempts == 0,
        row.mode is Managed && slot.spawn_started_at is None ==> status_of(
            slot,
            row,
            now,
        ).elapsed_secs is None,
        row.mode is Managed && 0 <= slot.spawn_started_at->0 <= now ==> (
        slot.spawn_started_at matches Some(t) ==> (status_of(
            slot,
            row,
            now,
        ).elapsed_secs matches Some(e) && e == now - t)),
        row.mode is Managed && slot.spawn_started_at->0 > now ==> (
        slot.spawn_started_at matches Some(t) ==> status_of(slot, row, now).elapsed_secs == Some(
            0u64,
        )),
{
}

/// A service that answers is written down as its row's endpoint, under the port it
/// listens on, unless the row has it already; its purpose's alerts are resolved.
pub proof fn a_healthy_service_is_written_down(step: Step, handle: ServiceHandle, row: BackendRow)
    requires
        step.promotes(handle, row),
    ensures
        step.request is Settled,
        step.effects@[0] is ResolveAlerts,
        opt_view(row.endpoint) == Some(
            "http://127.0.0.1:"@ + decimal(handle.host_port as nat) + "/v1"@,
        ) <==> step.effects@.len() == 1,
        step.effects@.len() == 2 ==> (step.effects@[1] matches Effect::WriteEndpoint(url) && url@
            == "http://127.0.0.1:"@ + decimal(handle.host_port as nat) + "/v1"@),
        step.effects@.len() == 1 || step.effects@.len() == 2,
{
}

/// A service is let go where its slot has one and its row is gone or not managed,
/// and the endpoint is cleared where it is the service's own.
pub proof fn only_unmanaged_services_are_let_go(
    slot: ManagedSlot,
    rows: Seq<BackendRow>,
    purpose: BackendPurpose,
    i: int,
)
    requires
        -1 <= i < rows.len(),
        forall|j: int| i < j < rows.len() ==> (#[trigger] rows[j]).purpose != purpose,
        i >= 0 ==> rows[i].purpose == purpose,
    ensures
        retirement(slot, rows, purpose).len() == 1 <==> slot.handle is Some && (i < 0
            || !(rows[i].mode is Managed)),
        retirement(slot, rows, purpose).len() == 0 || retirement(slot, rows, purpose).len() == 1,
        retirement(slot, rows, purpose).len() == 1 ==> {
            let out = retirement(slot, rows, purpose)[0];
            &&& out.purpose == purpose
            &&& slot.handle == Some(out.handle)
            &&& out.clear_endpoint <==> i >= 0 && opt_view(rows[i].endpoint) == Some(
                "http://127.0.0.1:"@ + decimal(out.handle.host_port as nat) + "/v1"@,
            )
        },
        retirement(slot, rows, purpose).len() == 1 ==> {
            let after = kept_slot(slot, rows, purpose);
            &&& after.handle is None
            &&& after.status is Stopped
            &&& after.restart_attempts == 0
            &&& after.retry_at is None
        },
        retirement(slot, rows, purpose).len() == 0 ==> kept_slot(slot, rows, purpose) == slot,
{
    the_last_row_configures_its_purpose(rows, purpose, i);
}

/// A failed attempt is counted once and shown as a crash loop; the container and
/// the task of the slot stay.
pub proof fn a_failed_attempt_is_counted(slot: ManagedSlot, now: i64)
    requires
        slot.restart_attempts < u32::MAX,
    ensures
        failed(slot, now).restart_attempts == slot.restart_attempts + 1,
        failed(slot, now).status == (ServiceStatus::CrashLooping {
            restart_count: (slot.restart_attempts + 1) as u32,
        }),
        failed(slot, now).stage is Failed,
        failed(slot, now).download_progress is None,
        failed(slot, now).handle == slot.handle,
        failed(slot, now).download_task == slot.download_task,
        failed(slot, now).last_log_line == slot.last_log_line,
        failed(slot, now).last_log_tail == slot.last_log_tail,
{
}

/// A crash loop counts at least one attempt more, and never fewer than the
/// container restarted; its restarts are shown as the engine counts them.
pub proof fn a_crash_loop_counts_its_restarts(slot: ManagedSlot, restart_count: u32, now: i64)
    requires
        slot.restart_attempts < u32::MAX,
    ensures
        crashing(slot, restart_count, now).restart_attempts > slot.restart_attempts,
        crashing(slot, restart_count, now).restart_attempts >= restart_count,
        crashing(slot, restart_count, now).restart_attempts == restart_count || crashing(
            slot,
            restart_count,
            now,
        ).restart_attempts == slot.restart_attempts + 1,
        crashing(slot, restart_count, now).status == (ServiceStatus::CrashLooping { restart_count }),
        crashing(slot, restart_count, now).stage is Failed,
        crashing(slot, restart_count, now).handle == slot.handle,
        crashing(slot, restart_count, now).last_log_line == slot.last_log_line,
        crashing(slot, restart_count, now).last_log_tail == slot.last_log_tail,
{
}

/// A service that answers starts over: no attempt counts, nothing is waited for,
/// and it keeps its container and its running time.
pub proof fn an_answer_clears_the_failures(slot: ManagedSlot)
    ensures
        healthy(slot).status is Healthy,
        healthy(slot).stage is Healthy,
        healthy(slot).restart_attempts == 0,
        healthy(slot).retry_at is None,
        healthy(slot).last_log_line is None,
        healthy(slot).last_log_tail is None,
        healthy(slot).download_progress is None,
        healthy(slot).handle == slot.handle,
        healthy(slot).spawn_started_at == slot.spawn_started_at,
{
}

/// A container that was taken over or started is the slot's own from that second on,
/// and the failed attempts count on. One that was started has no log yet.
pub proof fn a_started_container_is_the_slots_own(
    slot: ManagedSlot,
    handle: ServiceHandle,
    now: i64,
)
    ensures
        adopted(slot, handle, now).handle == Some(handle),
        adopted(slot, handle, now).status is Starting,
        adopted(slot, handle, now).stage is ContainerStarting,
        adopted(slot, handle, now).spawn_started_at == Some(now),
        adopted(slot, handle, now).retry_at is None,
        adopted(slot, handle, now).restart_attempts == slot.restart_attempts,
        adopted(slot, handle, now).last_log_line == slot.last_log_line,
        spawned(slot, handle, now).handle == Some(handle),
        spawned(slot, handle, now).status is Starting,
        spawned(slot, handle, now).stage is ContainerStarting,
        spawned(slot, handle, now).spawn_started_at == Some(now),
        spawned(slot, handle, now).retry_at is None,
        spawned(slot, handle, now).restart_attempts == slot.restart_attempts,
        spawned(slot, handle, now).last_log_line is None,
        spawned(slot, handle, now).last_log_tail is None,
        spawned(slot, handle, now).download_task is None,
        pulling(slot).status is Pulling,
        pulling(slot).stage is PullingImage,
        pulling(slot).handle == slot.handle,
        pulling(slot).restart_attempts == slot.restart_attempts,
{
}

/// While a service warms up its stage moves to loading once the log announces it,
/// leaves the pull behind, and stays where it is otherwise.
pub proof fn a_warming_service_shows_its_stage(slot: ManagedSlot, line: String)
    requires
        slot.last_log_line == Some(line),
    ensures
        warming(slot).status is Starting,
        has_text(ascii_lowercase(line@), "loading model"@) || has_text(
            ascii_lowercase(line@),
            "loading weights"@,
        ) || has_text(ascii_lowercase(line@), "loading safetensors"@) || has_text(
            ascii_lowercase(line@),
            "loading checkpoint"@,
        ) || has_text(ascii_lowercase(line@), "starting to load model"@) || has_text(
            ascii_lowercase(line@),
            "capturing cuda graph"@,
        ) || has_text(ascii_lowercase(line@), "model weights"@) ==> warming(
            slot,
        ).stage is LoadingModel,
        !(warming(slot).stage is PullingImage),
        warming(slot).stage is LoadingModel || warming(slot).stage == slot.stage || (
        slot.stage is PullingImage && warming(slot).stage is ContainerStarting),
        warming(slot).stage is DownloadingModel ==> warming(slot).download_progress
            == slot.download_progress,
        !(warming(slot).stage is DownloadingModel) ==> warming(slot).download_progress is None,
        warming(slot).handle == slot.handle,
        warming(slot).restart_attempts == slot.restart_attempts,
        warming(slot).last_log_line == slot.last_log_line,
{
}

/// A log that says nothing is not remembered, and any other is: whole, and by its
/// last line.
pub proof fn a_log_is_remembered(before: ManagedSlot, after: ManagedSlot, log: Seq<char>)
    requires
        logged(before, after, log),
    ensures
        blank(log) ==> after == before,
        !blank(log) ==> opt_view(after.last_log_tail) == Some(log),
        !blank(log) ==> opt_view(after.last_log_line) == last_line_spec(log),
        after.status == before.status,
        after.stage == before.stage,
        after.handle == before.handle,
        after.restart_attempts == before.restart_attempts,
        after.retry_at == before.retry_at,
{
}

/// An alert says whose service crashes, how often it restarted, and the end of what
/// it wrote.
pub proof fn a_crash_is_told_with_its_log(restart_count: u32, log: Seq<char>)
    ensures
        ("inference container crash-looping (restart_count="@ + decimal(
            restart_count as nat,
        )).is_prefix_of(crash_detail(restart_count, log)),
        !blank(log) && byte_count(log) <= ALERT_LOG_BYTES ==> log.is_suffix_of(
            crash_detail(restart_count, log),
        ),
        !blank(log) ==> kept_tail(log, ALERT_LOG_BYTES as nat).is_suffix_of(
            crash_detail(restart_count, log),
        ),
{
    let head = "inference container crash-looping (restart_count="@ + decimal(restart_count as nat);
    let whole = crash_detail(restart_count, log);
    assert(whole.take(head.len() as int) =~= head);
    if !blank(log) {
        let kept = kept_tail(log, ALERT_LOG_BYTES as nat);
        assert(whole.skip(whole.len() - kept.len()) =~= kept);
    }
}

/// A row that can be started waits for its model where the host downloads models and
/// the row names one, and is spawned at once otherwise; a row that cannot be started
/// is stopped, and an alert tells why.
pub proof fn a_service_starts_once_its_model_is_there(
    before: ManagedSlot,
    after: ManagedSlot,
    row: BackendRow,
    host: HostCache,
    step: Step,
)
    requires
        prepares(before, after, row, host, step),
    ensures
        row_spec(row) is Err ==> after.stage is Failed && after.status is Stopped
            && step.request is Settled && step.effects@.len() == 1 && (
        step.effects@[0] matches Effect::RaiseAlert(a) && a.detail@ == "invalid model_spec_json: "@
            + row_spec(row)->Err_0),
        row_spec(row) is Ok && host.downloads && row_repository(row) is Some
            && before.download_task is None ==> after == before && step.effects@.len() == 0 && (
        step.request matches Request::CheckCache { spec, model_id } && spec@ == row_spec(row)->Ok_0
            && Some(model_id@) == row_repository(row)),
        row_spec(row) is Ok && host.downloads && row_repository(row) is Some
            && before.download_task is Some ==> after == before && step.effects@.len() == 0 && (
        step.request matches Request::PollDownload { spec, model_id } && spec@ == row_spec(
            row,
        )->Ok_0 && Some(model_id@) == row_repository(row)),
        row_spec(row) is Ok && (!host.downloads || row_repository(row) is None)
            ==> after.status is Pulling && after.stage is PullingImage && step.effects@.len() == 0
            && (step.request matches Request::Spawn { spec } && spec@ == row_spec(row)->Ok_0),
{
}

/// An alert names the purpose and the image of the service that crashes.
pub proof fn an_alert_names_its_service(
    step: Step,
    purpose: BackendPurpose,
    image: Seq<char>,
    detail: Seq<char>,
)
    requires
        step.alerts(purpose, image, detail),
    ensures
        step.request is Settled,
        step.effects@.len() == 1,
        step.effects@[0] matches Effect::RaiseAlert(a) && a.fingerprint@ == "backend_supervisor:"@
            + purpose.name() + ":"@ + image && a.source@ == "core.backend_supervisor"@ && a.title@
            == purpose.name() + " backend crash-looping"@ && a.detail@ == detail,
{
}

/// A service is probed under the port it listens on, at its engine's path.
pub proof fn a_service_is_probed_under_its_port(step: Step, handle: ServiceHandle, row: BackendRow)
    requires
        step.probes(handle, row),
    ensures
        step.effects@.len() == 0,
        step.request matches Request::HealthCheck { handle: h, url } && h == handle && url@
            == "http://127.0.0.1:"@ + decimal(handle.host_port as nat) + health_path(row_hint(row)),
{
}

/// The cache is handed to a service where the host has one.
pub proof fn the_hosts_cache_is_handed_on(spec: SpecModel, host: HostCache)
    ensures
        host.primary matches Some(dir) ==> cached_spec(spec, host) == with_cache(spec, dir@),
        host.primary is None ==> cached_spec(spec, host) == spec,
{
}

} // verus!
