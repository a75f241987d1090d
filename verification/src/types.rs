//! Wire and registry data types, their mathematical views, and the
//! validity predicates shared by the coordinator and the worker agent.

use vstd::prelude::*;
use crate::strutil::names_view;
use crate::strutil::dup_strings;

verus! {

/// The view of an optional viewable value.
pub open spec fn opt_view<T: View>(o: Option<T>) -> Option<T::V> {
    match o {
        Option::Some(t) => Option::Some(t@),
        Option::None => Option::None,
    }
}

/// Liveness window: a record whose last heartbeat is at least this many
/// milliseconds old is dead and is evicted at the next selection or scan.
pub const DEFAULT_LIVENESS_WINDOW_MS: u64 = 30000;

/// Minimum GPU memory (MiB) a worker needs before it may be asked to load
/// the stable-diffusion model when the model is not already resident.
pub const STABLE_DIFFUSION_MIN_VRAM_MIB: u64 = 8192;

/// The model families the broker routes.
#[derive(Clone, Copy, PartialEq, Eq, Structural, Debug)]
pub enum ModelType {
    CovidXRay,
    StableDiffusion,
}

/// Symbolic quality knob for stable-diffusion inference.
#[derive(Clone, Copy, PartialEq, Eq, Structural, Debug)]
pub enum QualityPreset {
    Fast,
    Balanced,
    Quality,
}

/// A worker's condition as the registry sees it.
#[derive(Clone, Copy, PartialEq, Eq, Structural, Debug)]
pub enum WorkerStatus {
    Online,
    Busy,
    Error,
    Offline,
}

impl QualityPreset {
    /// Number of denoising steps the preset stands for.
    pub fn get_inference_steps(&self) -> (r: u32)
        ensures
            r == self.spec_inference_steps(),
    {
        match self {
            QualityPreset::Fast => 20,
            QualityPreset::Balanced => 30,
            QualityPreset::Quality => 50,
        }
    }

    pub open spec fn spec_inference_steps(self) -> u32 {
        match self {
            QualityPreset::Fast => 20,
            QualityPreset::Balanced => 30,
            QualityPreset::Quality => 50,
        }
    }

    /// Guidance scale the preset stands for, in tenths (75 stands for 7.5).
    pub fn get_guidance_scale_tenths(&self) -> (r: u32)
        ensures
            r == self.spec_guidance_scale_tenths(),
    {
        match self {
            QualityPreset::Fast => 75,
            QualityPreset::Balanced => 85,
            QualityPreset::Quality => 95,
        }
    }

    pub open spec fn spec_guidance_scale_tenths(self) -> u32 {
        match self {
            QualityPreset::Fast => 75,
            QualityPreset::Balanced => 85,
            QualityPreset::Quality => 95,
        }
    }
}

impl ModelType {
    /// The wire name of the model family.
    pub fn model_name(&self) -> (r: String)
        ensures
            r@ == self.spec_model_name(),
    {
        match self {
            ModelType::CovidXRay => String::from_str("covid_xray"),
            ModelType::StableDiffusion => String::from_str("stable_diffusion"),
        }
    }

    pub open spec fn spec_model_name(self) -> Seq<char> {
        match self {
            ModelType::CovidXRay => "covid_xray"@,
            ModelType::StableDiffusion => "stable_diffusion"@,
        }
    }
}

/// The wire name of a worker status.
pub open spec fn spec_status_name(s: WorkerStatus) -> Seq<char> {
    match s {
        WorkerStatus::Online => "online"@,
        WorkerStatus::Busy => "busy"@,
        WorkerStatus::Error => "error"@,
        WorkerStatus::Offline => "offline"@,
    }
}

/// The wire name of a worker status, executably.
pub fn status_name(s: WorkerStatus) -> (r: String)
    ensures
        r@ == spec_status_name(s),
{
    match s {
        WorkerStatus::Online => String::from_str("online"),
        WorkerStatus::Busy => String::from_str("busy"),
        WorkerStatus::Error => String::from_str("error"),
        WorkerStatus::Offline => String::from_str("offline"),
    }
}

/// Parse a wire status name; `None` for an unknown name.
pub fn parse_status(s: &str) -> (r: Option<WorkerStatus>)
    ensures
        match r {
            Option::Some(st) => s@ == spec_status_name(st),
            Option::None => forall|st: WorkerStatus| s@ != spec_status_name(st),
        },
{
    if crate::strutil::str_eq(s, "online") {
        Option::Some(WorkerStatus::Online)
    } else if crate::strutil::str_eq(s, "busy") {
        Option::Some(WorkerStatus::Busy)
    } else if crate::strutil::str_eq(s, "error") {
        Option::Some(WorkerStatus::Error)
    } else if crate::strutil::str_eq(s, "offline") {
        Option::Some(WorkerStatus::Offline)
    } else {
        proof {
            assert forall|st: WorkerStatus| s@ != spec_status_name(st) by {
                match st {
                    WorkerStatus::Online => {},
                    WorkerStatus::Busy => {},
                    WorkerStatus::Error => {},
                    WorkerStatus::Offline => {},
                }
            }
        }
        Option::None
    }
}

/// Snapshot of a GPU as the probe reports it. All memory figures are MiB;
/// `total_memory == 0` is the "no GPU / CPU-only" sentinel.
#[derive(Clone, Debug)]
pub struct GPUInfo {
    pub device_name: String,
    pub total_memory: u64,
    pub allocated_memory: u64,
    pub reserved_memory: u64,
    pub free_memory: u64,
    pub cuda_version: String,
    pub compute_capability: String,
}

#[verifier::ext_equal]
pub struct GPUInfoView {
    pub device_name: Seq<char>,
    pub total_memory: u64,
    pub allocated_memory: u64,
    pub reserved_memory: u64,
    pub free_memory: u64,
    pub cuda_version: Seq<char>,
    pub compute_capability: Seq<char>,
}

impl View for GPUInfo {
    type V = GPUInfoView;

    open spec fn view(&self) -> GPUInfoView {
        GPUInfoView {
            device_name: self.device_name@,
            total_memory: self.total_memory,
            allocated_memory: self.allocated_memory,
            reserved_memory: self.reserved_memory,
            free_memory: self.free_memory,
            cuda_version: self.cuda_version@,
            compute_capability: self.compute_capability@,
        }
    }
}

impl GPUInfo {
    /// The snapshot reported for a host without a usable GPU.
    pub fn cpu_fallback() -> (r: GPUInfo)
        ensures
            r@ == GPUInfoView::spec_cpu_fallback(),
    {
        GPUInfo {
            device_name: String::from_str("CPU"),
            total_memory: 0,
            allocated_memory: 0,
            reserved_memory: 0,
            free_memory: 0,
            cuda_version: String::from_str("N/A"),
            compute_capability: String::from_str("N/A"),
        }
    }

    pub fn duplicate(&self) -> (r: GPUInfo)
        ensures
            r@ == self@,
    {
        GPUInfo {
            device_name: self.device_name.clone(),
            total_memory: self.total_memory,
            allocated_memory: self.allocated_memory,
            reserved_memory: self.reserved_memory,
            free_memory: self.free_memory,
            cuda_version: self.cuda_version.clone(),
            compute_capability: self.compute_capability.clone(),
        }
    }
}

impl GPUInfoView {
    pub open spec fn spec_cpu_fallback() -> GPUInfoView {
        GPUInfoView {
            device_name: "CPU"@,
            total_memory: 0,
            allocated_memory: 0,
            reserved_memory: 0,
            free_memory: 0,
            cuda_version: "N/A"@,
            compute_capability: "N/A"@,
        }
    }
}

/// One model-name-to-content-id association.
#[derive(Clone, Debug)]
pub struct ModelCidEntry {
    pub model: String,
    pub cid: String,
}

#[verifier::ext_equal]
pub struct ModelCidEntryView {
    pub model: Seq<char>,
    pub cid: Seq<char>,
}

impl View for ModelCidEntry {
    type V = ModelCidEntryView;

    open spec fn view(&self) -> ModelCidEntryView {
        ModelCidEntryView { model: self.model@, cid: self.cid@ }
    }
}

impl ModelCidEntry {
    pub fn duplicate(&self) -> (r: ModelCidEntry)
        ensures
            r@ == self@,
    {
        ModelCidEntry { model: self.model.clone(), cid: self.cid.clone() }
    }
}

/// The views of a sequence of model-cid associations.
pub open spec fn cids_view(v: Seq<ModelCidEntry>) -> Seq<ModelCidEntryView> {
    Seq::new(v.len(), |i: int| v[i]@)
}

/// An element-for-element copy of a vector of model-cid associations.
pub fn dup_cid_entries(v: &Vec<ModelCidEntry>) -> (r: Vec<ModelCidEntry>)
    ensures
        cids_view(r@) == cids_view(v@),
{
    let n = v.len();
    let mut out: Vec<ModelCidEntry> = Vec::new();
    let mut i: usize = 0;
    while i < n
        invariant
            i <= n,
            n == v@.len(),
            out@.len() == i,
            forall|j: int| 0 <= j < i ==> out@[j]@ == v@[j]@,
        decreases n - i,
    {
        out.push(v[i].duplicate());
        i = i + 1;
    }
    proof {
        assert(cids_view(out@) =~= cids_view(v@));
    }
    out
}

/// What a worker declares it can do.
#[derive(Clone, Debug)]
pub struct ClientCapabilities {
    pub models: Vec<String>,
    pub model_cids: Vec<ModelCidEntry>,
    pub gpu_available: bool,
}

#[verifier::ext_equal]
pub struct ClientCapabilitiesView {
    pub models: Seq<Seq<char>>,
    pub model_cids: Seq<ModelCidEntryView>,
    pub gpu_available: bool,
}

impl View for ClientCapabilities {
    type V = ClientCapabilitiesView;

    open spec fn view(&self) -> ClientCapabilitiesView {
        ClientCapabilitiesView {
            models: names_view(self.models@),
            model_cids: cids_view(self.model_cids@),
            gpu_available: self.gpu_available,
        }
    }
}

impl ClientCapabilities {
    pub fn duplicate(&self) -> (r: ClientCapabilities)
        ensures
            r@ == self@,
    {
        let r = ClientCapabilities {
            models: dup_strings(&self.models),
            model_cids: dup_cid_entries(&self.model_cids),
            gpu_available: self.gpu_available,
        };
        proof {
            assert(r@ =~= self@);
        }
        r
    }
}

/// The authoritative record the registry keeps for one worker.
#[derive(Clone, Debug)]
pub struct GPUClient {
    pub client_id: u128,
    pub ip_address: String,
    pub port: u16,
    pub gpu_info: GPUInfo,
    pub loaded_models: Vec<String>,
    pub last_heartbeat: u64,
    pub status: WorkerStatus,
    pub capabilities: ClientCapabilities,
}

#[verifier::ext_equal]
pub struct GPUClientView {
    pub client_id: u128,
    pub ip_address: Seq<char>,
    pub port: u16,
    pub gpu_info: GPUInfoView,
    pub loaded_models: Seq<Seq<char>>,
    pub last_heartbeat: u64,
    pub status: WorkerStatus,
    pub capabilities: ClientCapabilitiesView,
}

impl View for GPUClient {
    type V = GPUClientView;

    open spec fn view(&self) -> GPUClientView {
        GPUClientView {
            client_id: self.client_id,
            ip_address: self.ip_address@,
            port: self.port,
            gpu_info: self.gpu_info@,
            loaded_models: names_view(self.loaded_models@),
            last_heartbeat: self.last_heartbeat,
            status: self.status,
            capabilities: self.capabilities@,
        }
    }
}

impl GPUClient {
    /// A copy of the record; the registry hands out nothing else.
    pub fn duplicate(&self) -> (r: GPUClient)
        ensures
            r@ == self@,
    {
        let r = GPUClient {
            client_id: self.client_id,
            ip_address: self.ip_address.clone(),
            port: self.port,
            gpu_info: self.gpu_info.duplicate(),
            loaded_models: dup_strings(&self.loaded_models),
            last_heartbeat: self.last_heartbeat,
            status: self.status,
            capabilities: self.capabilities.duplicate(),
        };
        proof {
            assert(r@ =~= self@);
        }
        r
    }
}

/// A worker's periodic liveness report.
#[derive(Clone, Debug)]
pub struct HeartbeatUpdate {
    pub client_id: u128,
    pub loaded_models: Vec<String>,
    pub status: WorkerStatus,
    pub last_heartbeat: u64,
    pub ip_address: Option<String>,
    pub capabilities: ClientCapabilities,
    pub gpu_info: GPUInfo,
}

#[verifier::ext_equal]
pub struct HeartbeatUpdateView {
    pub client_id: u128,
    pub loaded_models: Seq<Seq<char>>,
    pub status: WorkerStatus,
    pub last_heartbeat: u64,
    pub ip_address: Option<Seq<char>>,
    pub capabilities: ClientCapabilitiesView,
    pub gpu_info: GPUInfoView,
}

impl View for HeartbeatUpdate {
    type V = HeartbeatUpdateView;

    open spec fn view(&self) -> HeartbeatUpdateView {
        HeartbeatUpdateView {
            client_id: self.client_id,
            loaded_models: names_view(self.loaded_models@),
            status: self.status,
            last_heartbeat: self.last_heartbeat,
            ip_address: opt_view(self.ip_address),
            capabilities: self.capabilities@,
            gpu_info: self.gpu_info@,
        }
    }
}

/// A prediction request as it crosses both wire hops.
#[derive(Clone, Debug)]
pub struct PredictionRequest {
    pub model_type: ModelType,
    pub model_cid: String,
    pub image_url: Option<String>,
    pub prompt: Option<String>,
    pub quality_preset: Option<QualityPreset>,
}

#[verifier::ext_equal]
pub struct PredictionRequestView {
    pub model_type: ModelType,
    pub model_cid: Seq<char>,
    pub image_url: Option<Seq<char>>,
    pub prompt: Option<Seq<char>>,
    pub quality_preset: Option<QualityPreset>,
}

impl View for PredictionRequest {
    type V = PredictionRequestView;

    open spec fn view(&self) -> PredictionRequestView {
        PredictionRequestView {
            model_type: self.model_type,
            model_cid: self.model_cid@,
            image_url: opt_view(self.image_url),
            prompt: opt_view(self.prompt),
            quality_preset: self.quality_preset,
        }
    }
}

impl PredictionRequest {
    pub fn duplicate(&self) -> (r: PredictionRequest)
        ensures
            r@ == self@,
    {
        let r = PredictionRequest {
            model_type: self.model_type,
            model_cid: self.model_cid.clone(),
            image_url: match self.image_url {
                Option::Some(ref s) => Option::Some(s.clone()),
                Option::None => Option::None,
            },
            prompt: match self.prompt {
                Option::Some(ref s) => Option::Some(s.clone()),
                Option::None => Option::None,
            },
            quality_preset: self.quality_preset,
        };
        proof {
            assert(r@ =~= self@);
        }
        r
    }
}

/// One named numeric parameter of a prediction result. The value is kept
/// as its decimal text.
#[derive(Clone, Debug)]
pub struct ParamEntry {
    pub name: String,
    pub value: String,
}

#[verifier::ext_equal]
pub struct ParamEntryView {
    pub name: Seq<char>,
    pub value: Seq<char>,
}

impl View for ParamEntry {
    type V = ParamEntryView;

    open spec fn view(&self) -> ParamEntryView {
        ParamEntryView { name: self.name@, value: self.value@ }
    }
}

/// A prediction result; `error` is present exactly when `success` is false.
#[derive(Clone, Debug)]
pub struct PredictionResponse {
    pub success: bool,
    pub prompt: Option<String>,
    pub generation_time_ms: Option<u64>,
    pub parameters: Option<Vec<ParamEntry>>,
    pub timestamp: Option<String>,
    pub image_base64: Option<String>,
    pub error: Option<String>,
}

#[verifier::ext_equal]
pub struct PredictionResponseView {
    pub success: bool,
    pub prompt: Option<Seq<char>>,
    pub generation_time_ms: Option<u64>,
    pub parameters: Option<Seq<ParamEntryView>>,
    pub timestamp: Option<Seq<char>>,
    pub image_base64: Option<Seq<char>>,
    pub error: Option<Seq<char>>,
}

impl View for PredictionResponse {
    type V = PredictionResponseView;

    open spec fn view(&self) -> PredictionResponseView {
        PredictionResponseView {
            success: self.success,
            prompt: opt_view(self.prompt),
            generation_time_ms: self.generation_time_ms,
            parameters: match self.parameters {
                Option::Some(ref v) => Option::Some(params_view(v@)),
                Option::None => Option::None,
            },
            timestamp: opt_view(self.timestamp),
            image_base64: opt_view(self.image_base64),
            error: opt_view(self.error),
        }
    }
}

/// The views of a sequence of named parameters.
pub open spec fn params_view(v: Seq<ParamEntry>) -> Seq<ParamEntryView> {
    Seq::new(v.len(), |i: int| v[i]@)
}

impl PredictionResponseView {
    /// Well-formedness: the error field is present iff the call failed.
    pub open spec fn wf(self) -> bool {
        self.error is Some <==> !self.success
    }
}

/// Body of the bookkeeping endpoints' replies.
#[derive(Clone, Debug)]
pub struct ServerResponse {
    pub status: String,
    pub message: String,
}

#[verifier::ext_equal]
pub struct ServerResponseView {
    pub status: Seq<char>,
    pub message: Seq<char>,
}

impl View for ServerResponse {
    type V = ServerResponseView;

    open spec fn view(&self) -> ServerResponseView {
        ServerResponseView { status: self.status@, message: self.message@ }
    }
}

/// An error reply of the prediction endpoint: an HTTP status code and a
/// message.
#[derive(Clone, Debug)]
pub struct PredictionError {
    pub status: u16,
    pub message: String,
}

#[verifier::ext_equal]
pub struct PredictionErrorView {
    pub status: u16,
    pub message: Seq<char>,
}

impl View for PredictionError {
    type V = PredictionErrorView;

    open spec fn view(&self) -> PredictionErrorView {
        PredictionErrorView { status: self.status, message: self.message@ }
    }
}

/// Failures of the coordinator-to-worker hop.
#[derive(Clone, Debug)]
pub enum ClientError {
    RequestFailed(String),
    InvalidResponse(String),
    ServerError(String),
    InvalidRequest(String),
}

impl ClientError {
    /// A readable rendering of the error, in place of `Display`.
    pub fn message(&self) -> (r: String)
        ensures
            r@ == self.spec_message(),
    {
        match self {
            ClientError::RequestFailed(msg) => {
                let mut s = String::from_str("Request failed: ");
                s.append(msg.as_str());
                s
            },
            ClientError::InvalidResponse(msg) => {
                let mut s = String::from_str("Invalid response: ");
                s.append(msg.as_str());
                s
            },
            ClientError::ServerError(msg) => {
                let mut s = String::from_str("Server error: ");
                s.append(msg.as_str());
                s
            },
            ClientError::InvalidRequest(msg) => {
                let mut s = String::from_str("Invalid request: ");
                s.append(msg.as_str());
                s
            },
        }
    }

    pub open spec fn spec_message(self) -> Seq<char> {
        match self {
            ClientError::RequestFailed(msg) => "Request failed: "@ + msg@,
            ClientError::InvalidResponse(msg) => "Invalid response: "@ + msg@,
            ClientError::ServerError(msg) => "Server error: "@ + msg@,
            ClientError::InvalidRequest(msg) => "Invalid request: "@ + msg@,
        }
    }
}

/// Registry-level failures.
#[derive(Clone, Copy, PartialEq, Eq, Structural, Debug)]
pub enum RegistryError {
    ClientNotFound,
}

/// One model resident on a worker, as the worker's bookkeeping records it.
#[derive(Clone, Debug)]
pub struct LoadedModel {
    pub model_type: String,
    pub device: String,
    pub model_cid: String,
}

#[verifier::ext_equal]
pub struct LoadedModelView {
    pub model_type: Seq<char>,
    pub device: Seq<char>,
    pub model_cid: Seq<char>,
}

impl View for LoadedModel {
    type V = LoadedModelView;

    open spec fn view(&self) -> LoadedModelView {
        LoadedModelView {
            model_type: self.model_type@,
            device: self.device@,
            model_cid: self.model_cid@,
        }
    }
}

/// A request carries everything its variant needs: an image URL for the
/// X-ray model; a prompt and a quality preset for stable diffusion.
pub open spec fn request_complete(r: PredictionRequestView) -> bool {
    match r.model_type {
        ModelType::CovidXRay => r.image_url is Some,
        ModelType::StableDiffusion => r.prompt is Some && r.quality_preset is Some,
    }
}

/// The coordinator additionally rejects an empty stable-diffusion prompt.
pub open spec fn request_valid(r: PredictionRequestView) -> bool {
    &&& request_complete(r)
    &&& (r.model_type is StableDiffusion ==> r.prompt->Some_0.len() > 0)
}

} // verus!
