use cactus::types::{
    GPUInfo, LoadedModel, ModelType, PredictionRequest, QualityPreset, ServerResponse,
    WorkerStatus,
};
use cactus::worker::{
    build_heartbeat, AgentPhase, ExecutorOutcome, ExecutorTask, ModelStore, WorkerAgent,
};

fn gpu(total: u64, free: u64) -> GPUInfo {
    GPUInfo {
        device_name: String::from("test-gpu"),
        total_memory: total,
        allocated_memory: total - free,
        reserved_memory: 0,
        free_memory: free,
        cuda_version: String::from("12.0"),
        compute_capability: String::from("8.6"),
    }
}

fn agent() -> WorkerAgent {
    WorkerAgent::new(
        String::from("http://127.0.0.1:8001"),
        8002,
        Some(String::from("10.0.0.5")),
    )
}

#[test]
fn quality_preset_formulas() {
    assert_eq!(QualityPreset::Fast.get_inference_steps(), 20);
    assert_eq!(QualityPreset::Balanced.get_inference_steps(), 30);
    assert_eq!(QualityPreset::Quality.get_inference_steps(), 50);
    assert_eq!(QualityPreset::Fast.get_guidance_scale_tenths(), 75);
    assert_eq!(QualityPreset::Balanced.get_guidance_scale_tenths(), 85);
    assert_eq!(QualityPreset::Quality.get_guidance_scale_tenths(), 95);
}

#[test]
fn lifecycle_up_then_stopped() {
    let mut a = agent();
    assert_eq!(a.phase, AgentPhase::Init);
    assert!(!a.running);
    a.start_running();
    assert!(a.running);
    a.on_register_result(true);
    assert_eq!(a.phase, AgentPhase::Up);
    a.on_stop();
    assert_eq!(a.phase, AgentPhase::Stopped);
    assert!(!a.running);
}

#[test]
fn lifecycle_failed_registration() {
    let mut a = agent();
    a.start_running();
    a.on_register_result(false);
    assert_eq!(a.phase, AgentPhase::Failed);
}

#[test]
fn lifecycle_fatal_error() {
    let mut a = agent();
    a.start_running();
    a.on_register_result(true);
    a.on_fatal();
    assert_eq!(a.phase, AgentPhase::Failed);
    assert!(!a.running);
}

#[test]
fn not_found_reply_asks_for_reregistration() {
    let mut a = agent();
    a.on_register_result(true);
    let not_found = ServerResponse {
        status: String::from("error"),
        message: String::from("client not found"),
    };
    a.on_heartbeat_reply(Some(&not_found));
    assert!(a.needs_reregister);
    assert_eq!(a.phase, AgentPhase::Up);
    let ok = ServerResponse {
        status: String::from("success"),
        message: String::from("Heartbeat updated"),
    };
    a.on_heartbeat_reply(Some(&ok));
    assert!(!a.needs_reregister);
    // A transport failure keeps the last decision.
    a.on_heartbeat_reply(None);
    assert!(!a.needs_reregister);
}

#[test]
fn registration_payload_without_gpu_uses_fallback() {
    let a = agent();
    let reg = a.build_registration(None, 1234);
    assert_eq!(reg.client_id, a.client_id);
    assert_eq!(reg.ip_address, "10.0.0.5");
    assert_eq!(reg.port, 8002);
    assert_eq!(reg.gpu_info.device_name, "CPU");
    assert_eq!(reg.gpu_info.total_memory, 0);
    assert_eq!(reg.gpu_info.cuda_version, "N/A");
    assert_eq!(reg.last_heartbeat, 1234);
    assert_eq!(reg.status, WorkerStatus::Online);
    assert!(!reg.capabilities.gpu_available);
}

#[test]
fn registration_payload_with_gpu() {
    let a = agent();
    let reg = a.build_registration(Some(gpu(16384, 16000)), 99);
    assert_eq!(reg.gpu_info.total_memory, 16384);
    assert!(reg.capabilities.gpu_available);
}

#[test]
fn heartbeat_under_contention_still_forms() {
    // When neither the model store nor the status could be read within
    // the bounded lock timeout, the heartbeat still goes out with the
    // defaults.
    let hb = build_heartbeat(7, "10.0.0.5", 8002, None, None, None, 5000);
    assert_eq!(hb.client_id, 7);
    assert!(hb.loaded_models.is_empty());
    assert_eq!(hb.status, WorkerStatus::Online);
    assert_eq!(hb.last_heartbeat, 5000);
    assert_eq!(hb.ip_address.as_deref(), Some("10.0.0.5:8002"));
    assert_eq!(hb.gpu_info.device_name, "CPU");
    assert!(!hb.capabilities.gpu_available);
}

#[test]
fn heartbeat_carries_snapshots() {
    let mut store = ModelStore::new();
    store.record(LoadedModel {
        model_type: String::from("stable_diffusion"),
        device: String::from("cuda"),
        model_cid: String::from("cid-a"),
    });
    let hb = build_heartbeat(
        7,
        "10.0.0.5",
        8002,
        Some(&store),
        Some(WorkerStatus::Busy),
        Some(gpu(16384, 12000)),
        6000,
    );
    assert_eq!(hb.loaded_models, vec![String::from("stable_diffusion")]);
    assert_eq!(hb.status, WorkerStatus::Busy);
    assert!(hb.capabilities.gpu_available);
    assert_eq!(hb.capabilities.model_cids.len(), 1);
    assert_eq!(hb.capabilities.model_cids[0].model, "stable_diffusion");
    assert_eq!(hb.capabilities.model_cids[0].cid, "cid-a");
}

#[test]
fn begin_prediction_flips_busy_and_plans_task() {
    let mut a = agent();
    let req = PredictionRequest {
        model_type: ModelType::StableDiffusion,
        model_cid: String::from("cid-a"),
        image_url: None,
        prompt: Some(String::from("cat")),
        quality_preset: Some(QualityPreset::Fast),
    };
    match a.begin_prediction(&req) {
        Ok(ExecutorTask::GenerateImage {
            prompt,
            model_cid,
            inference_steps,
            guidance_scale_tenths,
        }) => {
            assert_eq!(prompt, "cat");
            assert_eq!(model_cid, "cid-a");
            assert_eq!(inference_steps, 20);
            assert_eq!(guidance_scale_tenths, 75);
        }
        _ => panic!("a complete request must plan a task"),
    }
    assert_eq!(a.status, WorkerStatus::Busy);
}

#[test]
fn begin_prediction_rejects_incomplete_payload() {
    let mut a = agent();
    let req = PredictionRequest {
        model_type: ModelType::CovidXRay,
        model_cid: String::from("cid-b"),
        image_url: None,
        prompt: None,
        quality_preset: None,
    };
    match a.begin_prediction(&req) {
        Err(resp) => {
            assert!(!resp.success);
            assert_eq!(
                resp.error.as_deref(),
                Some("image_url is required for COVID X-Ray model")
            );
        }
        Ok(_) => panic!("an incomplete request must be refused"),
    }
    assert_eq!(a.status, WorkerStatus::Online);
}

#[test]
fn finish_prediction_wraps_outcome_and_returns_online() {
    let mut a = agent();
    let req = PredictionRequest {
        model_type: ModelType::CovidXRay,
        model_cid: String::from("cid-b"),
        image_url: Some(String::from("http://example.test/x.png")),
        prompt: None,
        quality_preset: None,
    };
    match a.begin_prediction(&req) {
        Ok(ExecutorTask::ProcessXray { image_url, model_cid }) => {
            assert_eq!(image_url, "http://example.test/x.png");
            assert_eq!(model_cid, "cid-b");
        }
        _ => panic!("a complete request must plan a task"),
    }
    let resp = a.finish_prediction(ExecutorOutcome::Failed {
        error: String::from("Failed to load model: boom"),
    });
    assert!(!resp.success);
    assert_eq!(resp.error.as_deref(), Some("Failed to load model: boom"));
    assert_eq!(a.status, WorkerStatus::Online);
}

#[test]
fn finish_prediction_success_body() {
    let mut a = agent();
    let resp = a.finish_prediction(ExecutorOutcome::Generated {
        prompt: String::from("cat"),
        generation_time_ms: 1200,
        parameters: Vec::new(),
        timestamp: String::from("2024-01-01T00:00:00Z"),
        image_base64: String::from("aGVsbG8="),
    });
    assert!(resp.success);
    assert_eq!(resp.prompt.as_deref(), Some("cat"));
    assert_eq!(resp.generation_time_ms, Some(1200));
    assert_eq!(resp.image_base64.as_deref(), Some("aGVsbG8="));
    assert!(resp.error.is_none());
}

#[test]
fn model_store_bookkeeping() {
    let mut store = ModelStore::new();
    assert!(store.get_loaded_models().is_empty());
    store.record(LoadedModel {
        model_type: String::from("stable_diffusion"),
        device: String::from("cuda"),
        model_cid: String::from("cid-1"),
    });
    store.record(LoadedModel {
        model_type: String::from("covid_xray"),
        device: String::from("cuda"),
        model_cid: String::from("cid-2"),
    });
    assert_eq!(
        store.get_loaded_models(),
        vec![String::from("stable_diffusion"), String::from("covid_xray")]
    );
    assert_eq!(store.get_model_cid("stable_diffusion").as_deref(), Some("cid-1"));
    assert_eq!(store.get_model_cid("nothing"), None);
    // Re-recording a model replaces its entry.
    store.record(LoadedModel {
        model_type: String::from("stable_diffusion"),
        device: String::from("cuda"),
        model_cid: String::from("cid-3"),
    });
    assert_eq!(store.get_model_cid("stable_diffusion").as_deref(), Some("cid-3"));
    assert_eq!(store.get_loaded_models().len(), 2);
    store.unload_model("stable_diffusion");
    assert_eq!(store.get_loaded_models(), vec![String::from("covid_xray")]);
}

#[test]
fn new_agent_defaults_to_loopback() {
    let a = WorkerAgent::new(String::from("http://127.0.0.1:8001"), 8002, None);
    assert_eq!(a.ip_address, "127.0.0.1");
    assert_eq!(a.status, WorkerStatus::Online);
    assert!(!a.needs_reregister);
}
