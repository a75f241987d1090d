use cactus::registry::ClientRegistry;
use cactus::types::{
    ClientCapabilities, GPUClient, GPUInfo, HeartbeatUpdate, RegistryError, WorkerStatus,
};

fn gpu(total: u64, free: u64) -> GPUInfo {
    GPUInfo {
        device_name: String::from("test-gpu"),
        total_memory: total,
        allocated_memory: total - free,
        reserved_memory: 0,
        free_memory: free,
        cuda_version: String::from("12.0"),
        compute_capability: String::from("8.6"),
    }
}

fn worker(id: u128, total: u64, free: u64, models: Vec<&str>) -> GPUClient {
    GPUClient {
        client_id: id,
        ip_address: String::from("127.0.0.1"),
        port: 8002,
        gpu_info: gpu(total, free),
        loaded_models: models.iter().map(|m| m.to_string()).collect(),
        last_heartbeat: 0,
        status: WorkerStatus::Online,
        capabilities: ClientCapabilities {
            models: models.iter().map(|m| m.to_string()).collect(),
            model_cids: Vec::new(),
            gpu_available: total > 0,
        },
    }
}

#[test]
fn register_then_select_single_worker() {
    let mut reg = ClientRegistry::new();
    reg.register_client(worker(1, 16384, 16000, vec!["stable_diffusion"])).unwrap();
    let chosen = reg.select_at("stable_diffusion", 1000);
    let w = chosen.expect("the only eligible worker must be chosen");
    assert_eq!(w.client_id, 1);
}

#[test]
fn select_prefers_larger_gpu() {
    let mut reg = ClientRegistry::new();
    reg.register_client(worker(1, 4096, 4000, vec![])).unwrap();
    reg.register_client(worker(2, 12288, 12000, vec![])).unwrap();
    let w = reg.select_at("stable_diffusion", 1000).expect("one worker is eligible");
    assert_eq!(w.client_id, 2);
}

#[test]
fn small_gpu_never_wins_vram_filter() {
    // The 4096 MiB worker is below the stable-diffusion floor and must
    // never be selected, however often we ask.
    let mut reg = ClientRegistry::new();
    reg.register_client(worker(1, 4096, 4000, vec![])).unwrap();
    reg.register_client(worker(2, 12288, 12000, vec![])).unwrap();
    for _ in 0..5 {
        let w = reg.select_at("stable_diffusion", 1000).unwrap();
        assert_eq!(w.client_id, 2);
    }
}

#[test]
fn vram_boundary_8191_vs_8192() {
    let mut reg = ClientRegistry::new();
    reg.register_client(worker(1, 8191, 8000, vec![])).unwrap();
    assert!(reg.select_at("stable_diffusion", 1000).is_none());

    let mut reg = ClientRegistry::new();
    reg.register_client(worker(1, 8192, 8000, vec![])).unwrap();
    let w = reg.select_at("stable_diffusion", 1000).unwrap();
    assert_eq!(w.client_id, 1);
}

#[test]
fn resident_model_overrides_vram_floor() {
    // A worker below the floor that already has the model loaded is
    // eligible.
    let mut reg = ClientRegistry::new();
    reg.register_client(worker(1, 4096, 4000, vec!["stable_diffusion"])).unwrap();
    let w = reg.select_at("stable_diffusion", 1000).unwrap();
    assert_eq!(w.client_id, 1);
}

#[test]
fn zero_memory_worker_never_selected() {
    let mut reg = ClientRegistry::new();
    reg.register_client(worker(1, 0, 0, vec!["stable_diffusion", "covid_xray"])).unwrap();
    assert!(reg.select_at("stable_diffusion", 1000).is_none());
    assert!(reg.select_at("covid_xray", 1000).is_none());
}

#[test]
fn covid_model_has_no_vram_floor() {
    let mut reg = ClientRegistry::new();
    reg.register_client(worker(1, 1024, 1000, vec![])).unwrap();
    let w = reg.select_at("covid_xray", 1000).unwrap();
    assert_eq!(w.client_id, 1);
}

#[test]
fn speculative_load_marks_model() {
    let mut reg = ClientRegistry::new();
    reg.register_client(worker(1, 16384, 16000, vec![])).unwrap();
    let w = reg.select_at("stable_diffusion", 1000).unwrap();
    assert!(w.loaded_models.iter().any(|m| m == "stable_diffusion"));
    let listed = reg.list_active_at(1000);
    assert_eq!(listed.len(), 1);
    assert!(listed[0].loaded_models.iter().any(|m| m == "stable_diffusion"));
}

#[test]
fn liveness_boundary_at_window() {
    // A heartbeat exactly as old as the window is evicted; one
    // millisecond younger is retained.
    let mut reg = ClientRegistry::new();
    reg.register_client(worker(1, 16384, 16000, vec![])).unwrap();
    reg.scan_at(30_000);
    assert_eq!(reg.list_active_at(30_000).len(), 0);

    let mut reg = ClientRegistry::new();
    reg.register_client(worker(1, 16384, 16000, vec![])).unwrap();
    reg.scan_at(29_999);
    assert_eq!(reg.list_active_at(29_999).len(), 1);
}

#[test]
fn selection_evicts_stale_records() {
    // Registered at t=0, asked at t=31 s: no worker, and the registry is
    // empty afterwards.
    let mut reg = ClientRegistry::new();
    reg.register_client(worker(1, 16384, 16000, vec!["stable_diffusion"])).unwrap();
    assert!(reg.select_at("stable_diffusion", 31_000).is_none());
    assert_eq!(reg.list_active_at(31_000).len(), 0);
}

#[test]
fn heartbeat_for_unknown_id_is_not_found() {
    let mut reg = ClientRegistry::new();
    let hb = HeartbeatUpdate {
        client_id: 42,
        loaded_models: Vec::new(),
        status: WorkerStatus::Online,
        last_heartbeat: 5,
        ip_address: None,
        capabilities: ClientCapabilities {
            models: Vec::new(),
            model_cids: Vec::new(),
            gpu_available: false,
        },
        gpu_info: gpu(0, 0),
    };
    assert_eq!(reg.update_client(hb), Err(RegistryError::ClientNotFound));
}

#[test]
fn heartbeat_refreshes_record() {
    let mut reg = ClientRegistry::new();
    reg.register_client(worker(7, 16384, 16000, vec![])).unwrap();
    let hb = HeartbeatUpdate {
        client_id: 7,
        loaded_models: vec![String::from("covid_xray")],
        status: WorkerStatus::Busy,
        last_heartbeat: 9000,
        ip_address: Some(String::from("10.0.0.9")),
        capabilities: ClientCapabilities {
            models: vec![String::from("covid_xray")],
            model_cids: Vec::new(),
            gpu_available: true,
        },
        gpu_info: gpu(16384, 8000),
    };
    assert!(reg.update_client(hb).is_ok());
    let listed = reg.list_active_at(9000);
    assert_eq!(listed.len(), 1);
    assert_eq!(listed[0].client_id, 7);
    assert_eq!(listed[0].status, WorkerStatus::Busy);
    assert_eq!(listed[0].last_heartbeat, 9000);
    assert_eq!(listed[0].ip_address, "10.0.0.9");
    assert_eq!(listed[0].loaded_models, vec![String::from("covid_xray")]);
}

#[test]
fn reregistration_replaces_record() {
    let mut reg = ClientRegistry::new();
    reg.register_client(worker(7, 4096, 4000, vec![])).unwrap();
    reg.register_client(worker(7, 16384, 16000, vec![])).unwrap();
    let listed = reg.list_active_at(0);
    assert_eq!(listed.len(), 1);
    assert_eq!(listed[0].gpu_info.total_memory, 16384);
}

#[test]
fn busy_and_error_workers_are_ineligible() {
    let mut reg = ClientRegistry::new();
    let mut busy = worker(1, 16384, 16000, vec!["stable_diffusion"]);
    busy.status = WorkerStatus::Busy;
    reg.register_client(busy).unwrap();
    assert!(reg.select_at("stable_diffusion", 0).is_none());

    let mut err = worker(2, 16384, 16000, vec!["stable_diffusion"]);
    err.status = WorkerStatus::Error;
    reg.register_client(err).unwrap();
    assert!(reg.select_at("stable_diffusion", 0).is_none());
}

#[test]
fn ties_break_by_free_memory() {
    let mut reg = ClientRegistry::new();
    reg.register_client(worker(1, 16384, 1000, vec![])).unwrap();
    reg.register_client(worker(2, 16384, 9000, vec![])).unwrap();
    let w = reg.select_at("stable_diffusion", 0).unwrap();
    assert_eq!(w.client_id, 2);
}

#[test]
fn custom_window_is_honored() {
    let mut reg = ClientRegistry::with_window(3000);
    reg.register_client(worker(1, 16384, 16000, vec![])).unwrap();
    assert_eq!(reg.list_active_at(2999).len(), 1);
    assert_eq!(reg.list_active_at(3000).len(), 0);
}
