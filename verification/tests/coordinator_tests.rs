use cactus::coordinator::{
    forward_plan, handle_heartbeat, handle_register, note_forward_failure, render_clients_table,
    route_predict_at, validate_predict, RouteDecision,
};
use cactus::registry::ClientRegistry;
use cactus::types::{
    ClientCapabilities, ClientError, GPUClient, GPUInfo, HeartbeatUpdate, ModelType,
    PredictionRequest, QualityPreset, WorkerStatus,
};

fn gpu(total: u64, free: u64) -> GPUInfo {
    GPUInfo {
        device_name: String::from("test-gpu"),
        total_memory: total,
        allocated_memory: total - free,
        reserved_memory: 0,
        free_memory: free,
        cuda_version: String::from("12.0"),
        compute_capability: String::from("8.6"),
    }
}

fn worker(id: u128, total: u64) -> GPUClient {
    GPUClient {
        client_id: id,
        ip_address: String::from("127.0.0.1"),
        port: 8002,
        gpu_info: gpu(total, total / 2),
        loaded_models: Vec::new(),
        last_heartbeat: 0,
        status: WorkerStatus::Online,
        capabilities: ClientCapabilities {
            models: Vec::new(),
            model_cids: Vec::new(),
            gpu_available: total > 0,
        },
    }
}

fn sd_request(prompt: &str) -> PredictionRequest {
    PredictionRequest {
        model_type: ModelType::StableDiffusion,
        model_cid: String::from("cid-a"),
        image_url: None,
        prompt: Some(prompt.to_string()),
        quality_preset: Some(QualityPreset::Fast),
    }
}

#[test]
fn empty_prompt_is_rejected_without_selection() {
    let mut reg = ClientRegistry::new();
    reg.register_client(worker(1, 16384)).unwrap();
    let req = sd_request("");
    match route_predict_at(&mut reg, &req, 100) {
        RouteDecision::Invalid(e) => {
            assert_eq!(e.status, 400);
            assert_eq!(e.message, "Empty prompt");
        }
        _ => panic!("an empty prompt must be rejected"),
    }
    // The registry was not touched: the worker is still there, without
    // any speculative model mark.
    let listed = reg.list_active_at(100);
    assert_eq!(listed.len(), 1);
    assert!(listed[0].loaded_models.is_empty());
}

#[test]
fn missing_image_url_is_rejected() {
    let req = PredictionRequest {
        model_type: ModelType::CovidXRay,
        model_cid: String::from("cid-b"),
        image_url: None,
        prompt: None,
        quality_preset: None,
    };
    let e = validate_predict(&req).expect("must be invalid");
    assert_eq!(e.status, 400);
    assert_eq!(e.message, "image_url is required for COVID X-Ray model");
}

#[test]
fn missing_prompt_or_preset_is_rejected() {
    let req = PredictionRequest {
        model_type: ModelType::StableDiffusion,
        model_cid: String::from("cid-a"),
        image_url: None,
        prompt: None,
        quality_preset: None,
    };
    let e = validate_predict(&req).expect("must be invalid");
    assert_eq!(e.status, 400);
    assert_eq!(
        e.message,
        "prompt and quality_preset are required for Stable Diffusion model"
    );
}

#[test]
fn valid_request_passes_validation() {
    assert!(validate_predict(&sd_request("cat")).is_none());
    let covid = PredictionRequest {
        model_type: ModelType::CovidXRay,
        model_cid: String::from("cid-b"),
        image_url: Some(String::from("http://example.test/xray.png")),
        prompt: None,
        quality_preset: None,
    };
    assert!(validate_predict(&covid).is_none());
}

#[test]
fn no_worker_gives_503_naming_the_model() {
    let mut reg = ClientRegistry::new();
    match route_predict_at(&mut reg, &sd_request("cat"), 100) {
        RouteDecision::NoWorker(e) => {
            assert_eq!(e.status, 503);
            assert_eq!(
                e.message,
                "No available client found for model type stable_diffusion"
            );
            assert!(e.message.contains("stable_diffusion"));
        }
        _ => panic!("an empty registry cannot serve"),
    }
}

#[test]
fn happy_path_forwards_and_marks_model() {
    let mut reg = ClientRegistry::new();
    reg.register_client(worker(1, 16384)).unwrap();
    match route_predict_at(&mut reg, &sd_request("cat"), 100) {
        RouteDecision::Forward(w) => {
            assert_eq!(w.client_id, 1);
            assert!(w.loaded_models.iter().any(|m| m == "stable_diffusion"));
        }
        _ => panic!("the registered worker must be chosen"),
    }
    let listed = reg.list_active_at(100);
    assert!(listed[0].loaded_models.iter().any(|m| m == "stable_diffusion"));
}

#[test]
fn forward_failure_marks_worker_error_then_unavailable() {
    let mut reg = ClientRegistry::new();
    reg.register_client(worker(1, 16384)).unwrap();
    let w = match route_predict_at(&mut reg, &sd_request("cat"), 100) {
        RouteDecision::Forward(w) => w,
        _ => panic!("the registered worker must be chosen"),
    };
    let e = note_forward_failure(&mut reg, &w, String::from("connection refused"), 200);
    assert_eq!(e.status, 500);
    assert_eq!(e.message, "connection refused");
    let listed = reg.list_active_at(200);
    assert_eq!(listed.len(), 1);
    assert_eq!(listed[0].status, WorkerStatus::Error);
    // The next identical request finds no eligible worker.
    match route_predict_at(&mut reg, &sd_request("cat"), 300) {
        RouteDecision::NoWorker(e) => assert_eq!(e.status, 503),
        _ => panic!("the error-marked worker must be filtered out"),
    }
}

#[test]
fn register_body_is_success() {
    let mut reg = ClientRegistry::new();
    let resp = handle_register(&mut reg, worker(1, 16384));
    assert_eq!(resp.status, "success");
    assert_eq!(resp.message, "Client registered successfully");
}

#[test]
fn heartbeat_body_reports_unknown_client_in_band() {
    let mut reg = ClientRegistry::new();
    let hb = HeartbeatUpdate {
        client_id: 9,
        loaded_models: Vec::new(),
        status: WorkerStatus::Online,
        last_heartbeat: 5,
        ip_address: None,
        capabilities: ClientCapabilities {
            models: Vec::new(),
            model_cids: Vec::new(),
            gpu_available: false,
        },
        gpu_info: gpu(0, 0),
    };
    let resp = handle_heartbeat(&mut reg, hb.clone());
    assert_eq!(resp.status, "error");
    assert_eq!(resp.message, "client not found");

    reg.register_client(worker(9, 16384)).unwrap();
    let resp = handle_heartbeat(&mut reg, hb);
    assert_eq!(resp.status, "success");
    assert_eq!(resp.message, "Heartbeat updated");
}

#[test]
fn forward_plan_builds_numeric_url_with_port() {
    let w = worker(1, 16384);
    let url = forward_plan(&w, &sd_request("cat")).unwrap();
    assert_eq!(url, "http://127.0.0.1:8002/predict");
}

#[test]
fn forward_plan_builds_domain_url_without_port() {
    let mut w = worker(1, 16384);
    w.ip_address = String::from("worker.example.test");
    let url = forward_plan(&w, &sd_request("cat")).unwrap();
    assert_eq!(url, "http://worker.example.test/predict");
}

#[test]
fn forward_plan_rejects_incomplete_payload() {
    let w = worker(1, 16384);
    let req = PredictionRequest {
        model_type: ModelType::CovidXRay,
        model_cid: String::from("cid-b"),
        image_url: None,
        prompt: None,
        quality_preset: None,
    };
    match forward_plan(&w, &req) {
        Err(ClientError::InvalidRequest(msg)) => {
            assert_eq!(msg, "image_url is required for COVID X-Ray model");
        }
        _ => panic!("an incomplete payload must be refused before the send"),
    }
}

#[test]
fn client_error_messages() {
    assert_eq!(
        ClientError::RequestFailed(String::from("x")).message(),
        "Request failed: x"
    );
    assert_eq!(
        ClientError::InvalidResponse(String::from("y")).message(),
        "Invalid response: y"
    );
    assert_eq!(
        ClientError::ServerError(String::from("z")).message(),
        "Server error: z"
    );
    assert_eq!(
        ClientError::InvalidRequest(String::from("w")).message(),
        "Invalid request: w"
    );
}

#[test]
fn clients_table_lists_one_row_per_worker() {
    let mut w = worker(3, 16384);
    w.loaded_models = vec![String::from("a"), String::from("b")];
    let rows = render_clients_table(&vec![w]);
    assert_eq!(rows.len(), 3);
    assert_eq!(rows[0], "Connected Clients:");
    assert_eq!(rows[1], "Client ID IP Address Port Status Models");
    assert_eq!(rows[2], "3 127.0.0.1 8002 online a, b");
}
