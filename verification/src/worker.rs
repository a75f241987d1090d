//! The worker agent: its lifecycle state machine, its bookkeeping of
//! resident models, and the construction of its registration and
//! heartbeat payloads. The agent decides; the host process performs the
//! network calls and the model execution and hands the outcomes back.

use vstd::prelude::*;
use crate::types::{
    ClientCapabilities, GPUClient, GPUInfo, GPUInfoView, HeartbeatUpdate, LoadedModel,
    LoadedModelView, ModelCidEntry, ModelType, ParamEntry, PredictionRequest,
    PredictionRequestView, PredictionResponse, ServerResponse, WorkerStatus, opt_view,
    params_view, request_complete, request_valid,
};
use crate::coordinator::spec_validation_error;
use crate::strutil::{dup_strings, names_view, str_eq, dec_digits, u64_to_string};
use crate::host::fresh_id;

verus! {

/// The lifecycle phase of the agent.
#[derive(Clone, Copy, PartialEq, Eq, Structural, Debug)]
pub enum AgentPhase {
    Init,
    Up,
    Stopped,
    Failed,
}

/// The views of a sequence of resident-model entries.
pub open spec fn models_view(v: Seq<LoadedModel>) -> Seq<LoadedModelView> {
    Seq::new(v.len(), |i: int| v[i]@)
}

/// The model names of the entries, in order.
pub open spec fn store_keys(s: Seq<LoadedModelView>) -> Seq<Seq<char>> {
    Seq::new(s.len(), |i: int| s[i].model_type)
}

/// Index of the first entry with this model name, if any.
pub open spec fn store_idx_of(s: Seq<LoadedModelView>, key: Seq<char>) -> Option<int>
    decreases s.len(),
{
    if s.len() == 0 {
        Option::None
    } else if s[0].model_type == key {
        Option::Some(0int)
    } else {
        match store_idx_of(s.skip(1), key) {
            Option::Some(i) => Option::Some(i + 1),
            Option::None => Option::None,
        }
    }
}

/// What `store_idx_of` returns: the first index carrying the key, or a
/// promise that none does.
pub proof fn lemma_store_idx_of_props(s: Seq<LoadedModelView>, key: Seq<char>)
    ensures
        match store_idx_of(s, key) {
            Option::Some(i) => 0 <= i < s.len() && s[i].model_type == key && forall|j: int|
                0 <= j < i ==> s[j].model_type != key,
            Option::None => forall|j: int| 0 <= j < s.len() ==> s[j].model_type != key,
        },
    decreases s.len(),
{
    if s.len() > 0 && s[0].model_type != key {
        lemma_store_idx_of_props(s.skip(1), key);
        assert(forall|j: int| 0 <= j < s.len() - 1 ==> s.skip(1)[j] == s[j + 1]);
        match store_idx_of(s.skip(1), key) {
            Option::Some(i) => {
                assert forall|j: int| 0 <= j < i + 1 implies s[j].model_type != key by {
                    if j > 0 {
                        assert(s.skip(1)[j - 1].model_type != key);
                    }
                }
            },
            Option::None => {
                assert forall|j: int| 0 <= j < s.len() implies s[j].model_type != key by {
                    if j > 0 {
                        assert(s.skip(1)[j - 1].model_type != key);
                    }
                }
            },
        }
    }
}

/// The first index carrying the key determines `store_idx_of`.
pub proof fn lemma_store_idx_of_exact(s: Seq<LoadedModelView>, key: Seq<char>, i: int)
    requires
        0 <= i < s.len(),
        s[i].model_type == key,
        forall|j: int| 0 <= j < i ==> s[j].model_type != key,
    ensures
        store_idx_of(s, key) == Option::Some(i),
    decreases s.len(),
{
    if i > 0 {
        assert(forall|j: int| 0 <= j < s.len() - 1 ==> s.skip(1)[j] == s[j + 1]);
        lemma_store_idx_of_exact(s.skip(1), key, i - 1);
    }
}

/// Recording a model inserts its entry or replaces the one with the same
/// name.
pub open spec fn spec_record(s: Seq<LoadedModelView>, m: LoadedModelView) -> Seq<
    LoadedModelView,
> {
    match store_idx_of(s, m.model_type) {
        Option::Some(i) => s.update(i, m),
        Option::None => s.push(m),
    }
}

/// Unloading removes the entry with the name, or changes nothing.
pub open spec fn spec_unload(s: Seq<LoadedModelView>, key: Seq<char>) -> Seq<LoadedModelView> {
    match store_idx_of(s, key) {
        Option::Some(i) => s.remove(i),
        Option::None => s,
    }
}

/// No two entries share a model name.
pub open spec fn store_keys_unique(s: Seq<LoadedModelView>) -> bool {
    forall|i: int, j: int| 0 <= i < j < s.len() ==> s[i].model_type != s[j].model_type
}

/// The worker's bookkeeping of resident models, keyed by model name.
pub struct ModelStore {
    pub entries: Vec<LoadedModel>,
}

impl View for ModelStore {
    type V = Seq<LoadedModelView>;

    open spec fn view(&self) -> Seq<LoadedModelView> {
        models_view(self.entries@)
    }
}

impl ModelStore {
    pub open spec fn wf(self) -> bool {
        store_keys_unique(self@)
    }

    pub fn new() -> (r: ModelStore)
        ensures
            r@ == Seq::<LoadedModelView>::empty(),
            r.wf(),
    {
        let r = ModelStore { entries: Vec::new() };
        proof {
            assert(r@ =~= Seq::<LoadedModelView>::empty());
        }
        r
    }

    /// Index of the entry with this model name, scanning from the front.
    fn find_key(&self, key: &str) -> (r: Option<usize>)
        ensures
            match r {
                Option::Some(i) => store_idx_of(self@, key@) == Option::Some(i as int),
                Option::None => store_idx_of(self@, key@) is None,
            },
    {
        let n = self.entries.len();
        let mut i: usize = 0;
        while i < n
            invariant
                i <= n,
                n == self.entries@.len(),
                forall|j: int| 0 <= j < i ==> self@[j].model_type != key@,
            decreases n - i,
        {
            if str_eq(self.entries[i].model_type.as_str(), key) {
                proof {
                    lemma_store_idx_of_exact(self@, key@, i as int);
                }
                return Option::Some(i);
            }
            i = i + 1;
        }
        proof {
            lemma_store_idx_of_props(self@, key@);
            if store_idx_of(self@, key@) is Some {
                let p = store_idx_of(self@, key@)->Some_0;
                assert(self@[p].model_type == key@);
            }
        }
        Option::None
    }

    /// Record a model as resident, replacing a prior entry of the same
    /// name.
    pub fn record(&mut self, m: LoadedModel)
        requires
            old(self).wf(),
        ensures
            final(self)@ == spec_record(old(self)@, m@),
            final(self).wf(),
    {
        let ghost pre = self@;
        let idx = self.find_key(m.model_type.as_str());
        proof {
            lemma_store_idx_of_props(pre, m.model_type@);
        }
        match idx {
            Option::Some(i) => {
                self.entries.set(i, m);
                proof {
                    assert(final(self)@ =~= pre.update(i as int, m@));
                }
            },
            Option::None => {
                self.entries.push(m);
                proof {
                    assert(self@ =~= pre.push(m@));
                }
            },
        }
    }

    /// Forget the entry with this model name, if one exists.
    pub fn unload_model(&mut self, model_type: &str)
        requires
            old(self).wf(),
        ensures
            final(self)@ == spec_unload(old(self)@, model_type@),
            final(self).wf(),
    {
        let ghost pre = self@;
        let idx = self.find_key(model_type);
        proof {
            lemma_store_idx_of_props(pre, model_type@);
        }
        match idx {
            Option::Some(i) => {
                let _ = self.entries.remove(i);
                proof {
                    assert(final(self)@ =~= pre.remove(i as int));
                    assert forall|a: int, b: int|
                        0 <= a < b < final(self)@.len() implies final(self)@[a].model_type
                        != final(self)@[b].model_type by {
                        let pa = if a < i { a } else { a + 1 };
                        let pb = if b < i { b } else { b + 1 };
                        assert(final(self)@[a] == pre[pa]);
                        assert(final(self)@[b] == pre[pb]);
                    }
                }
            },
            Option::None => {},
        }
    }

    /// The content id recorded for this model name.
    pub fn get_model_cid(&self, model_type: &str) -> (r: Option<String>)
        ensures
            match r {
                Option::Some(cid) => store_idx_of(self@, model_type@) matches Some(i) && cid@
                    == self@[i].model_cid,
                Option::None => store_idx_of(self@, model_type@) is None,
            },
    {
        let idx = self.find_key(model_type);
        proof {
            lemma_store_idx_of_props(self@, model_type@);
        }
        match idx {
            Option::Some(i) => Option::Some(self.entries[i].model_cid.clone()),
            Option::None => Option::None,
        }
    }

    /// The names of the resident models, in order.
    pub fn get_loaded_models(&self) -> (r: Vec<String>)
        ensures
            names_view(r@) == store_keys(self@),
    {
        let n = self.entries.len();
        let mut out: Vec<String> = Vec::new();
        let mut i: usize = 0;
        while i < n
            invariant
                i <= n,
                n == self.entries@.len(),
                out@.len() == i,
                forall|j: int| 0 <= j < i ==> out@[j]@ == self@[j].model_type,
            decreases n - i,
        {
            out.push(self.entries[i].model_type.clone());
            i = i + 1;
        }
        proof {
            assert(names_view(out@) =~= store_keys(self@));
        }
        out
    }

    /// The model-name-to-content-id associations, in order.
    pub fn cid_entries(&self) -> (r: Vec<ModelCidEntry>)
        ensures
            crate::types::cids_view(r@) == Seq::new(
                self@.len(),
                |i: int| crate::types::ModelCidEntryView {
                    model: self@[i].model_type,
                    cid: self@[i].model_cid,
                },
            ),
    {
        let n = self.entries.len();
        let mut out: Vec<ModelCidEntry> = Vec::new();
        let mut i: usize = 0;
        while i < n
            invariant
                i <= n,
                n == self.entries@.len(),
                out@.len() == i,
                forall|j: int|
                    0 <= j < i ==> out@[j]@.model == self@[j].model_type && out@[j]@.cid
                        == self@[j].model_cid,
            decreases n - i,
        {
            out.push(
                ModelCidEntry {
                    model: self.entries[i].model_type.clone(),
                    cid: self.entries[i].model_cid.clone(),
                },
            );
            i = i + 1;
        }
        proof {
            assert(crate::types::cids_view(out@) =~= Seq::new(
                self@.len(),
                |i: int| crate::types::ModelCidEntryView {
                    model: self@[i].model_type,
                    cid: self@[i].model_cid,
                },
            ));
        }
        out
    }
}

/// What the agent asks the model executor to do for one request.
pub enum ExecutorTask {
    ProcessXray { image_url: String, model_cid: String },
    GenerateImage {
        prompt: String,
        model_cid: String,
        inference_steps: u32,
        guidance_scale_tenths: u32,
    },
}

/// What came back from the model executor.
pub enum ExecutorOutcome {
    XRay { parameters: Vec<ParamEntry>, prediction_time_ms: u64, timestamp: String },
    Generated {
        prompt: String,
        generation_time_ms: u64,
        parameters: Vec<ParamEntry>,
        timestamp: String,
        image_base64: String,
    },
    Failed { error: String },
}

/// The task a complete request stands for.
pub open spec fn task_matches(t: ExecutorTask, r: PredictionRequestView) -> bool {
    match r.model_type {
        ModelType::CovidXRay => t matches ExecutorTask::ProcessXray { image_url, model_cid }
            && image_url@ == r.image_url->Some_0 && model_cid@ == r.model_cid,
        ModelType::StableDiffusion => t matches ExecutorTask::GenerateImage {
            prompt,
            model_cid,
            inference_steps,
            guidance_scale_tenths,
        } && prompt@ == r.prompt->Some_0 && model_cid@ == r.model_cid && inference_steps
            == r.quality_preset->Some_0.spec_inference_steps() && guidance_scale_tenths
            == r.quality_preset->Some_0.spec_guidance_scale_tenths(),
    }
}

/// The response an executor outcome stands for.
pub open spec fn outcome_response(o: ExecutorOutcome) -> crate::types::PredictionResponseView {
    match o {
        ExecutorOutcome::XRay { parameters, prediction_time_ms, timestamp } =>
            crate::types::PredictionResponseView {
            success: true,
            prompt: Option::None,
            generation_time_ms: Option::Some(prediction_time_ms),
            parameters: Option::Some(params_view(parameters@)),
            timestamp: Option::Some(timestamp@),
            image_base64: Option::None,
            error: Option::None,
        },
        ExecutorOutcome::Generated {
            prompt,
            generation_time_ms,
            parameters,
            timestamp,
            image_base64,
        } => crate::types::PredictionResponseView {
            success: true,
            prompt: Option::Some(prompt@),
            generation_time_ms: Option::Some(generation_time_ms),
            parameters: Option::Some(params_view(parameters@)),
            timestamp: Option::Some(timestamp@),
            image_base64: Option::Some(image_base64@),
            error: Option::None,
        },
        ExecutorOutcome::Failed { error } => crate::types::PredictionResponseView {
            success: false,
            prompt: Option::None,
            generation_time_ms: Option::None,
            parameters: Option::None,
            timestamp: Option::None,
            image_base64: Option::None,
            error: Option::Some(error@),
        },
    }
}

/// The agent of one worker: identity, lifecycle phase, serving status,
/// and resident-model bookkeeping.
pub struct WorkerAgent {
    pub client_id: u128,
    pub server_url: String,
    pub ip_address: String,
    pub port: u16,
    pub phase: AgentPhase,
    pub running: bool,
    pub status: WorkerStatus,
    pub models: ModelStore,
    pub needs_reregister: bool,
}

impl WorkerAgent {
    pub open spec fn wf(self) -> bool {
        self.models.wf()
    }

    /// A fresh agent: a newly drawn identity, the given coordinator URL
    /// and port, the given public address or the loopback default.
    pub fn new(server_url: String, port: u16, public_ip: Option<String>) -> (r: WorkerAgent)
        ensures
            r.server_url@ == server_url@,
            r.port == port,
            match public_ip {
                Option::Some(ip) => r.ip_address@ == ip@,
                Option::None => r.ip_address@ == "127.0.0.1"@,
            },
            r.phase is Init,
            !r.running,
            r.status is Online,
            r.models@ == Seq::<LoadedModelView>::empty(),
            !r.needs_reregister,
            r.wf(),
    {
        let id = fresh_id();
        let ip = match public_ip {
            Option::Some(ip) => ip,
            Option::None => String::from_str("127.0.0.1"),
        };
        WorkerAgent {
            client_id: id,
            server_url,
            ip_address: ip,
            port,
            phase: AgentPhase::Init,
            running: false,
            status: WorkerStatus::Online,
            models: ModelStore::new(),
            needs_reregister: false,
        }
    }

    /// The agent enters its running state before it registers.
    pub fn start_running(&mut self)
        ensures
            *final(self) == (WorkerAgent { running: true, ..*old(self) }),
    {
        self.running = true;
    }

    /// First registration decides the phase: up on success, failed on a
    /// fatal registration error.
    pub fn on_register_result(&mut self, ok: bool)
        ensures
            *final(self) == (WorkerAgent {
                phase: if ok {
                    AgentPhase::Up
                } else {
                    AgentPhase::Failed
                },
                needs_reregister: false,
                ..*old(self)
            }),
    {
        self.phase = if ok {
            AgentPhase::Up
        } else {
            AgentPhase::Failed
        };
        self.needs_reregister = false;
    }

    /// The stop signal: the running flag falls, and an agent that was up
    /// is stopped.
    pub fn on_stop(&mut self)
        ensures
            *final(self) == (WorkerAgent {
                running: false,
                phase: if old(self).phase is Up {
                    AgentPhase::Stopped
                } else {
                    old(self).phase
                },
                ..*old(self)
            }),
    {
        self.running = false;
        if matches!(self.phase, AgentPhase::Up) {
            self.phase = AgentPhase::Stopped;
        }
    }

    /// A non-recoverable serving error.
    pub fn on_fatal(&mut self)
        ensures
            *final(self) == (WorkerAgent {
                running: false,
                phase: AgentPhase::Failed,
                ..*old(self)
            }),
    {
        self.running = false;
        self.phase = AgentPhase::Failed;
    }

    /// Digest the coordinator's answer to a heartbeat. The agent stays up
    /// whatever came back; a "client not found" body asks for a fresh
    /// registration before the next heartbeat.
    pub fn on_heartbeat_reply(&mut self, reply: Option<&ServerResponse>)
        ensures
            *final(self) == (WorkerAgent {
                needs_reregister: match opt_view(reply) {
                    Option::Some(v) => v.status == "error"@ && v.message == "client not found"@,
                    Option::None => old(self).needs_reregister,
                },
                ..*old(self)
            }),
    {
        match reply {
            Option::Some(resp) => {
                let nf = str_eq(resp.status.as_str(), "error") && str_eq(
                    resp.message.as_str(),
                    "client not found",
                );
                self.needs_reregister = nf;
            },
            Option::None => {},
        }
    }

    /// The registration payload: the agent's identity, the probe's GPU
    /// snapshot or the CPU fallback, and the resident models.
    pub fn build_registration(&self, gpu: Option<GPUInfo>, now: u64) -> (r: GPUClient)
        ensures
            r@.client_id == self.client_id,
            r@.ip_address == self.ip_address@,
            r@.port == self.port,
            r@.gpu_info == match opt_view(gpu) {
                Option::Some(g) => g,
                Option::None => GPUInfoView::spec_cpu_fallback(),
            },
            r@.loaded_models == store_keys(self.models@),
            r@.last_heartbeat == now,
            r@.status is Online,
            r@.capabilities.models == store_keys(self.models@),
            r@.capabilities.gpu_available == (gpu is Some),
    {
        let gpu_available = match gpu {
            Option::Some(_) => true,
            Option::None => false,
        };
        let gpu_info = match gpu {
            Option::Some(g) => g,
            Option::None => GPUInfo::cpu_fallback(),
        };
        let loaded_models = self.models.get_loaded_models();
        let capabilities = ClientCapabilities {
            models: self.models.get_loaded_models(),
            model_cids: self.models.cid_entries(),
            gpu_available,
        };
        GPUClient {
            client_id: self.client_id,
            ip_address: self.ip_address.clone(),
            port: self.port,
            gpu_info,
            loaded_models,
            last_heartbeat: now,
            status: WorkerStatus::Online,
            capabilities,
        }
    }

    /// The heartbeat payload from this agent's own state: the uncontended
    /// case of `build_heartbeat`.
    pub fn heartbeat_now(&self, gpu: Option<GPUInfo>, now: u64) -> (r: HeartbeatUpdate)
        ensures
            heartbeat_post(
                r@,
                self.client_id,
                self.ip_address@,
                self.port,
                Option::Some(self.models@),
                Option::Some(self.status),
                opt_view(gpu),
                now,
            ),
    {
        build_heartbeat(
            self.client_id,
            self.ip_address.as_str(),
            self.port,
            Option::Some(&self.models),
            Option::Some(self.status),
            gpu,
            now,
        )
    }

    /// Take a request in: an incomplete payload is answered with a failed
    /// response and the agent is untouched; a complete one flips the
    /// status to busy and yields the executor task.
    pub fn begin_prediction(&mut self, req: &PredictionRequest) -> (r: Result<
        ExecutorTask,
        PredictionResponse,
    >)
        ensures
            r is Ok <==> request_valid(req@),
            r matches Err(resp) ==> *final(self) == *old(self) && resp@.success == false
                && resp@.error == Option::Some(spec_validation_error(req@)) && resp@.wf()
                && resp@.prompt is None && resp@.generation_time_ms is None && resp@.parameters
                is None && resp@.timestamp is None && resp@.image_base64 is None,
            r matches Ok(t) ==> *final(self) == (WorkerAgent {
                status: WorkerStatus::Busy,
                ..*old(self)
            }) && task_matches(t, req@),
    {
        match crate::coordinator::validate_predict(req) {
            Option::Some(e) => Result::Err(
                PredictionResponse {
                    success: false,
                    prompt: Option::None,
                    generation_time_ms: Option::None,
                    parameters: Option::None,
                    timestamp: Option::None,
                    image_base64: Option::None,
                    error: Option::Some(e.message),
                },
            ),
            Option::None => {
                self.status = WorkerStatus::Busy;
                match req.model_type {
                    ModelType::CovidXRay => {
                        let url = match &req.image_url {
                            Option::Some(u) => u.clone(),
                            Option::None => String::new(),
                        };
                        Result::Ok(
                            ExecutorTask::ProcessXray {
                                image_url: url,
                                model_cid: req.model_cid.clone(),
                            },
                        )
                    },
                    ModelType::StableDiffusion => {
                        let prompt = match &req.prompt {
                            Option::Some(p) => p.clone(),
                            Option::None => String::new(),
                        };
                        let preset = match &req.quality_preset {
                            Option::Some(q) => *q,
                            Option::None => crate::types::QualityPreset::Fast,
                        };
                        Result::Ok(
                            ExecutorTask::GenerateImage {
                                prompt,
                                model_cid: req.model_cid.clone(),
                                inference_steps: preset.get_inference_steps(),
                                guidance_scale_tenths: preset.get_guidance_scale_tenths(),
                            },
                        )
                    },
                }
            },
        }
    }

    /// Wrap the executor's outcome: the status returns to online and the
    /// outcome becomes the response body. Executor errors never crash the
    /// agent; they come back as a failed response.
    pub fn finish_prediction(&mut self, outcome: ExecutorOutcome) -> (r: PredictionResponse)
        ensures
            *final(self) == (WorkerAgent { status: WorkerStatus::Online, ..*old(self) }),
            r@ == outcome_response(outcome),
            r@.wf(),
    {
        self.status = WorkerStatus::Online;
        match outcome {
            ExecutorOutcome::XRay { parameters, prediction_time_ms, timestamp } => {
                let r = PredictionResponse {
                    success: true,
                    prompt: Option::None,
                    generation_time_ms: Option::Some(prediction_time_ms),
                    parameters: Option::Some(parameters),
                    timestamp: Option::Some(timestamp),
                    image_base64: Option::None,
                    error: Option::None,
                };
                r
            },
            ExecutorOutcome::Generated {
                prompt,
                generation_time_ms,
                parameters,
                timestamp,
                image_base64,
            } => {
                let r = PredictionResponse {
                    success: true,
                    prompt: Option::Some(prompt),
                    generation_time_ms: Option::Some(generation_time_ms),
                    parameters: Option::Some(parameters),
                    timestamp: Option::Some(timestamp),
                    image_base64: Option::Some(image_base64),
                    error: Option::None,
                };
                r
            },
            ExecutorOutcome::Failed { error } => {
                let r = PredictionResponse {
                    success: false,
                    prompt: Option::None,
                    generation_time_ms: Option::None,
                    parameters: Option::None,
                    timestamp: Option::None,
                    image_base64: Option::None,
                    error: Option::Some(error),
                };
                r
            },
        }
    }
}

/// What a heartbeat payload must hold, given what the emitter could read:
/// snapshots that a bounded lock acquisition yielded, or the defaults —
/// no models, status online — when it timed out. The emitter always makes
/// progress, whatever it could not read.
pub open spec fn heartbeat_post(
    r: crate::types::HeartbeatUpdateView,
    client_id: u128,
    ip: Seq<char>,
    port: u16,
    models: Option<Seq<LoadedModelView>>,
    status: Option<WorkerStatus>,
    gpu: Option<GPUInfoView>,
    now: u64,
) -> bool {
    &&& r.client_id == client_id
    &&& r.loaded_models == match models {
        Option::Some(s) => store_keys(s),
        Option::None => Seq::<Seq<char>>::empty(),
    }
    &&& r.status == match status {
        Option::Some(s) => s,
        Option::None => WorkerStatus::Online,
    }
    &&& r.last_heartbeat == now
    &&& r.ip_address == Option::Some(ip + ":"@ + dec_digits(port as nat))
    &&& r.capabilities.models == r.loaded_models
    &&& r.capabilities.gpu_available == match gpu {
        Option::Some(g) => g.total_memory > 0,
        Option::None => false,
    }
    &&& r.gpu_info == match gpu {
        Option::Some(g) => g,
        Option::None => GPUInfoView::spec_cpu_fallback(),
    }
}

/// Build one heartbeat from whatever the emitter could read within its
/// bounded lock timeouts: `None` for a snapshot that could not be taken
/// in time, replaced by the defaults.
pub fn build_heartbeat(
    client_id: u128,
    ip: &str,
    port: u16,
    models: Option<&ModelStore>,
    status: Option<WorkerStatus>,
    gpu: Option<GPUInfo>,
    now: u64,
) -> (r: HeartbeatUpdate)
    ensures
        heartbeat_post(
            r@,
            client_id,
            ip@,
            port,
            match models {
                Option::Some(m) => Option::Some(m@),
                Option::None => Option::None,
            },
            status,
            opt_view(gpu),
            now,
        ),
{
    let loaded_models = match models {
        Option::Some(m) => m.get_loaded_models(),
        Option::None => Vec::new(),
    };
    let model_cids = match models {
        Option::Some(m) => m.cid_entries(),
        Option::None => Vec::new(),
    };
    let st = match status {
        Option::Some(s) => s,
        Option::None => WorkerStatus::Online,
    };
    let gpu_available = match &gpu {
        Option::Some(g) => g.total_memory > 0,
        Option::None => false,
    };
    let gpu_info = match gpu {
        Option::Some(g) => g,
        Option::None => GPUInfo::cpu_fallback(),
    };
    let mut addr = String::from_str(ip);
    addr.append(":");
    let port_str = u64_to_string(port as u64);
    addr.append(port_str.as_str());
    let r = HeartbeatUpdate {
        client_id,
        loaded_models: dup_strings(&loaded_models),
        status: st,
        last_heartbeat: now,
        ip_address: Option::Some(addr),
        capabilities: ClientCapabilities {
            models: loaded_models,
            model_cids,
            gpu_available,
        },
        gpu_info,
    };
    proof {
        assert(names_view(Seq::<String>::empty()) =~= Seq::<Seq<char>>::empty());
    }
    r
}

} // verus!
