//! Backend rows, the specifications made from them, and the flags they need.

use execlaw_server::backend_spec::{
    attach_hf_cache_mount, binary_hint_from_row, default_tool_parser_for_args,
    downgrade_voice_cuda_spec, extract_model_id, extract_ollama_model_id, health_path_for,
    health_path_for_hint, host_port_for, inject_required_vllm_tool_args, is_ollama_row,
    is_vllm_image, parse_gpu_vendor, spec_from_row, spec_image_for_alert, BackendMode,
    BackendPurpose, BackendRow, GpuVendor, ServiceError, ServiceRuntime, ServiceSpec,
};
use execlaw_server::json::{JsonMember, JsonNumber, JsonValue};

fn text(s: &str) -> JsonValue {
    JsonValue::Text(s.to_owned())
}

fn number(n: u64) -> JsonValue {
    JsonValue::Number(JsonNumber::Unsigned(n))
}

fn array(items: Vec<JsonValue>) -> JsonValue {
    JsonValue::Array(items)
}

fn texts(items: &[&str]) -> JsonValue {
    array(items.iter().map(|s| text(s)).collect())
}

fn object(members: Vec<(&str, JsonValue)>) -> JsonValue {
    JsonValue::Object(
        members
            .into_iter()
            .map(|(key, value)| JsonMember { key: key.to_owned(), value })
            .collect(),
    )
}

fn row(backend: &str, gpu_id: Option<&str>, spec: JsonValue) -> BackendRow {
    BackendRow {
        purpose: BackendPurpose::Standard,
        inference_backend: backend.to_owned(),
        model_spec_json: spec,
        gpu_id: gpu_id.map(str::to_owned),
        endpoint: None,
        notes: None,
        reasoning_enabled: true,
        mode: BackendMode::Managed,
        created_at: 0,
        updated_at: 100,
    }
}

fn ollama_row(model: &str) -> BackendRow {
    row(
        "service-ollama",
        Some("apple-m3"),
        object(vec![
            ("runtime", text("native")),
            ("binary_hint", text("ollama")),
            ("args", texts(&["serve"])),
            ("container_port", number(11434)),
            ("model", text(model)),
        ]),
    )
}

fn owned(items: &[&str]) -> Vec<String> {
    items.iter().map(|s| (*s).to_owned()).collect()
}

#[test]
fn is_ollama_row_detects_apple_native_envelope() {
    let row = ollama_row("qwen2.5:7b-instruct-q4_K_M");
    assert!(is_ollama_row(&row));
}

#[test]
fn is_ollama_row_rejects_vllm_envelope() {
    // Otherwise the supervisor would pull against a container that has no such endpoint.
    let row = row(
        "service-vllm",
        Some("0"),
        object(vec![
            ("image", text("vllm/vllm-openai:v0.6.2")),
            ("args", texts(&["--model", "Qwen/Qwen2.5-7B-Instruct-AWQ"])),
            ("container_port", number(8000)),
        ]),
    );
    assert!(!is_ollama_row(&row));
}

#[test]
fn extract_ollama_model_id_reads_top_level_model_field() {
    let row = ollama_row("qwen2.5:32b-instruct-q4_K_M");
    assert_eq!(extract_ollama_model_id(&row).as_deref(), Some("qwen2.5:32b-instruct-q4_K_M"));
}

#[test]
fn extract_ollama_model_id_returns_none_for_blank_model_field() {
    let row = ollama_row("");
    assert!(extract_ollama_model_id(&row).is_none());
}

#[test]
fn health_path_picks_ollama_api_tags_for_native_ollama() {
    let spec = ServiceSpec {
        binary_hint: "ollama".into(),
        runtime: ServiceRuntime::Native,
        ..Default::default()
    };
    assert_eq!(health_path_for(&spec), "/api/tags");
}

#[test]
fn health_path_picks_slash_health_for_docker_vllm() {
    let spec = ServiceSpec {
        image: "vllm/vllm-openai:nightly".into(),
        binary_hint: String::new(),
        ..Default::default()
    };
    assert_eq!(health_path_for(&spec), "/health");
}

#[test]
fn health_path_picks_slash_health_for_unknown_hint() {
    let spec = ServiceSpec { binary_hint: "made-up-engine".into(), ..Default::default() };
    assert_eq!(health_path_for(&spec), "/health");
}

#[test]
fn parse_gpu_vendor_recognises_apple() {
    assert_eq!(parse_gpu_vendor("apple"), Some(GpuVendor::Apple));
    assert_eq!(parse_gpu_vendor("Apple"), Some(GpuVendor::Apple));
}

#[test]
fn host_port_is_stable_per_purpose() {
    for p in [
        BackendPurpose::Standard,
        BackendPurpose::Small,
        BackendPurpose::VoiceStt,
        BackendPurpose::VoiceTts,
    ] {
        assert_eq!(host_port_for(p), host_port_for(p));
    }
    let mut ports = std::collections::HashSet::new();
    for p in [
        BackendPurpose::Standard,
        BackendPurpose::Small,
        BackendPurpose::VoiceStt,
        BackendPurpose::VoiceTts,
    ] {
        assert!(ports.insert(host_port_for(p)), "port collision for {}", p.as_str());
    }
}

#[test]
fn inject_tool_args_appends_when_missing_on_vllm_image() {
    let original = owned(&["--model=Qwen3.5"]);
    let mut out = original.clone();
    inject_required_vllm_tool_args("vllm/vllm-openai:nightly", &original, &mut out);
    assert!(out.contains(&"--enable-auto-tool-choice".into()));
    assert!(out.contains(&"--tool-call-parser=qwen3_xml".into()));
    assert!(out.contains(&"--enable-prefix-caching".into()));
}

#[test]
fn inject_tool_args_picks_qwen3_coder_for_qwen3_6_models() {
    for model in [
        "--model=QuantTrio/Qwen3.6-27B-AWQ",
        "--model=Qwen/Qwen3.6-27B",
        "--model=some/Qwen3_6-MoE",
    ] {
        let original = owned(&[model]);
        let mut out = original.clone();
        inject_required_vllm_tool_args("vllm/vllm-openai:v0.20.2", &original, &mut out);
        assert!(
            out.contains(&"--tool-call-parser=qwen3_coder".into()),
            "expected qwen3_coder parser for {model}, got: {out:?}"
        );
    }
}

#[test]
fn inject_tool_args_respects_existing_operator_overrides() {
    let original = owned(&[
        "--model=meta-llama/Llama-3-8B",
        "--enable-auto-tool-choice",
        "--tool-call-parser=llama3_json",
        "--no-enable-prefix-caching",
    ]);
    let mut out = original.clone();
    inject_required_vllm_tool_args("vllm/vllm-openai:nightly", &original, &mut out);
    assert_eq!(out.len(), 4, "no duplicates added: {out:?}");
}

#[test]
fn inject_tool_args_skips_non_vllm_images() {
    let original = owned(&["--model=base.en"]);
    let mut out = original.clone();
    inject_required_vllm_tool_args(
        "ghcr.io/fedirz/faster-whisper-server:latest",
        &original,
        &mut out,
    );
    assert_eq!(out, original);
}

#[test]
fn parser_default_picks_llama_for_llama_models() {
    assert_eq!(
        default_tool_parser_for_args(&["--model=meta-llama/Llama-3-8B".into()]),
        "llama3_json",
    );
    assert_eq!(
        default_tool_parser_for_args(&["--model".into(), "meta-llama/Meta-Llama-3-70B".into()]),
        "llama3_json",
    );
}

#[test]
fn parser_default_picks_qwen3_xml_for_qwen3_models() {
    assert_eq!(
        default_tool_parser_for_args(&["--model=QuantTrio/Qwen3.5-27B-AWQ".into()]),
        "qwen3_xml",
    );
    assert_eq!(default_tool_parser_for_args(&["--model=Qwen/Qwen3-32B".into()]), "qwen3_xml");
}

#[test]
fn parser_default_picks_hermes_for_qwen2_and_unknown() {
    assert_eq!(
        default_tool_parser_for_args(&["--model=Qwen/Qwen2.5-3B-Instruct-AWQ".into()]),
        "hermes",
    );
    assert_eq!(default_tool_parser_for_args(&["--model=mystery/model".into()]), "hermes");
}

#[test]
fn spec_from_row_extracts_image_args_env() {
    let row = row(
        "service-vllm",
        Some("0"),
        object(vec![
            ("image", text("vllm/vllm-openai:v0.6.2")),
            ("args", texts(&["--model", "Qwen3.5-27B-AWQ", "--gpu-memory-utilization", "0.9"])),
            (
                "env",
                array(vec![texts(&["HF_HOME", "/cache"]), texts(&["NO_PROXY", "localhost"])]),
            ),
            ("container_port", number(8000)),
        ]),
    );
    let spec = spec_from_row(&row).unwrap();
    assert_eq!(spec.image, "vllm/vllm-openai:v0.6.2");
    assert_eq!(spec.args.len(), 7);
    assert!(spec.args.contains(&"--enable-auto-tool-choice".into()));
    assert!(spec.args.contains(&"--tool-call-parser=qwen3_xml".into()));
    assert!(spec.args.contains(&"--enable-prefix-caching".into()));
    assert_eq!(spec.env.len(), 2);
    assert_eq!(spec.host_port, host_port_for(BackendPurpose::Standard));
    assert_eq!(spec.container_port, 8000);
    assert_eq!(spec.gpu_id.as_deref(), Some("0"));
}

#[test]
fn spec_from_row_routes_apple_preset_to_native_runtime() {
    let mut row = ollama_row("qwen2.5:32b-instruct-q4_K_M");
    row.gpu_id = None;
    let spec = spec_from_row(&row).expect("native preset row must round-trip");
    assert_eq!(spec.runtime, ServiceRuntime::Native);
    assert_eq!(spec.binary_hint, "ollama");
    assert_eq!(spec.container_port, 11434);
    assert!(spec.image.is_empty());
    assert_eq!(health_path_for(&spec), "/api/tags");
    assert_eq!(spec.args, vec!["serve".to_owned()]);
}

#[test]
fn spec_from_row_docker_runtime_still_requires_image() {
    let row = row("service-vllm", None, object(vec![("args", texts(&["--model", "X"]))]));
    assert!(spec_from_row(&row).is_err());
}

#[test]
fn spec_from_row_rejects_missing_image() {
    let row = row("service-vllm", None, object(vec![("args", texts(&["--model", "X"]))]));
    assert!(spec_from_row(&row).is_err());
}

#[test]
fn spec_from_row_rejects_what_is_no_object() {
    let row = row("service-vllm", None, text("vllm"));
    assert_eq!(
        spec_from_row(&row).unwrap_err(),
        "model_spec_json must be a JSON object for managed mode"
    );
}

#[test]
fn cuda_voice_spec_downgrades_to_matching_cpu_backend() {
    let mut spec = ServiceSpec {
        image: "execlaw/service-whisper-cuda:v1".into(),
        gpu_id: Some("0".into()),
        gpu_vendor: Some(GpuVendor::Nvidia),
        ..Default::default()
    };
    let error = ServiceError::Runtime(
        "start: nvidia-container-cli: requirement error: unsatisfied condition: cuda>=13.0".into(),
    );
    assert!(downgrade_voice_cuda_spec(BackendPurpose::VoiceStt, &mut spec, &error));
    assert_eq!(spec.image, "execlaw/service-whisper-cpu:v1");
    assert_eq!(spec.gpu_id, None);
    assert_eq!(spec.gpu_vendor, None);
}

#[test]
fn cuda_fallback_does_not_change_unrelated_backend_specs() {
    let mut spec = ServiceSpec {
        image: "execlaw/service-whisper-cuda:v1".into(),
        gpu_id: Some("0".into()),
        gpu_vendor: Some(GpuVendor::Nvidia),
        ..Default::default()
    };
    let error = ServiceError::Runtime("image not found".into());
    assert!(!downgrade_voice_cuda_spec(BackendPurpose::VoiceStt, &mut spec, &error));
    assert_eq!(spec.image, "execlaw/service-whisper-cuda:v1");
    assert_eq!(spec.gpu_id.as_deref(), Some("0"));
}

#[test]
fn extract_model_id_handles_eq_form_and_separate_arg() {
    let first = row(
        "service-vllm",
        Some("0"),
        object(vec![
            ("image", text("vllm/vllm-openai:nightly")),
            (
                "args",
                texts(&["--model=Qwen/Qwen2.5-32B-Instruct-AWQ", "--gpu-memory-utilization=0.9"]),
            ),
            ("container_port", number(8000)),
        ]),
    );
    assert_eq!(extract_model_id(&first).as_deref(), Some("Qwen/Qwen2.5-32B-Instruct-AWQ"));

    let second = row(
        "service-vllm",
        Some("0"),
        object(vec![
            ("image", text("vllm:nightly")),
            ("args", texts(&["--model", "QuantTrio/Qwen3.5-27B-AWQ"])),
        ]),
    );
    assert_eq!(extract_model_id(&second).as_deref(), Some("QuantTrio/Qwen3.5-27B-AWQ"));

    let third = row(
        "service-vllm",
        Some("0"),
        object(vec![
            ("image", text("vllm:nightly")),
            ("args", texts(&["--gpu-memory-utilization=0.9"])),
        ]),
    );
    assert_eq!(extract_model_id(&third), None);
}

#[test]
fn attach_hf_cache_mount_is_idempotent_and_sets_offline_env() {
    let mut spec = ServiceSpec {
        name: "execlaw-backend-Standard".into(),
        image: "vllm:nightly".into(),
        gpu_id: Some("0".into()),
        gpu_vendor: Some(GpuVendor::Nvidia),
        host_port: 8101,
        container_port: 8000,
        ..Default::default()
    };
    let cache = "/home/me/.execlaw/hf-cache";
    attach_hf_cache_mount(&mut spec, cache);
    assert_eq!(spec.mounts.len(), 1);
    assert_eq!(spec.mounts[0].container_path, "/root/.cache/huggingface");
    assert!(spec.mounts[0].read_only);
    assert!(spec.env.iter().any(|(k, v)| k == "HF_HOME" && v == "/root/.cache/huggingface"));
    assert!(spec.env.iter().any(|(k, v)| k == "HF_HUB_OFFLINE" && v == "1"));

    attach_hf_cache_mount(&mut spec, cache);
    assert_eq!(spec.mounts.len(), 1);
    assert_eq!(spec.env.iter().filter(|(k, _)| k == "HF_HOME").count(), 1);
    assert_eq!(spec.env.iter().filter(|(k, _)| k == "HF_HUB_OFFLINE").count(), 1);
}

#[test]
fn tool_args_are_added_only_once() {
    let original = owned(&["--model=Qwen3.5"]);
    let mut once = original.clone();
    inject_required_vllm_tool_args("vllm:x", &original, &mut once);
    let mut twice = once.clone();
    inject_required_vllm_tool_args("vllm:x", &once, &mut twice);
    assert_eq!(twice, once);
}

#[test]
fn small_readers_of_a_row() {
    assert!(is_vllm_image("VLLM/openai"));
    assert!(!is_vllm_image("ollama/ollama"));
    assert_eq!(health_path_for_hint("ollama"), "/api/tags");
    assert_eq!(binary_hint_from_row(&ollama_row("m")), "ollama");
    assert_eq!(spec_image_for_alert(&ollama_row("m")), "(unknown image)");
    assert_eq!(parse_gpu_vendor("rtx"), None);
    assert_eq!(host_port_for(BackendPurpose::Vision), 8105);
}
