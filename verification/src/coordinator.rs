//! The coordinator's request handling: payload validation, the routing
//! decision for a prediction, the error write-back after a failed forward,
//! and the bodies of the bookkeeping endpoints. The network calls around
//! these functions live in the host process; everything that decides is
//! here.

use vstd::prelude::*;
use crate::types::{
    GPUClient, GPUClientView, HeartbeatUpdate, HeartbeatUpdateView, ModelType, PredictionError,
    PredictionRequest, PredictionRequestView, ServerResponse, WorkerStatus, opt_view,
    request_complete, request_valid,
};
use crate::registry::{
    ClientRegistry, best_idx, eligible, idx_of, live_filter, select_post, spec_heartbeat,
    spec_register, apply_update,
};
use crate::strutil::{dup_strings, spec_join, dec_digits, u64_to_string, names_view};
use crate::host::now_ms;

verus! {

/// The message of the 400 reply for an invalid request.
pub open spec fn spec_validation_error(r: PredictionRequestView) -> Seq<char> {
    match r.model_type {
        ModelType::CovidXRay => "image_url is required for COVID X-Ray model"@,
        ModelType::StableDiffusion => if r.prompt is None || r.quality_preset is None {
            "prompt and quality_preset are required for Stable Diffusion model"@
        } else {
            "Empty prompt"@
        },
    }
}

/// The message of the 503 reply when no worker is eligible.
pub open spec fn spec_no_worker_message(m: ModelType) -> Seq<char> {
    "No available client found for model type "@ + m.spec_model_name()
}

/// Validate a prediction request as the coordinator does: each variant
/// must carry its payload, and a stable-diffusion prompt must not be
/// empty. `None` means the request is valid.
pub fn validate_predict(req: &PredictionRequest) -> (r: Option<PredictionError>)
    ensures
        r is None <==> request_valid(req@),
        r matches Some(e) ==> e@.status == 400 && e@.message == spec_validation_error(req@),
{
    match req.model_type {
        ModelType::CovidXRay => {
            match req.image_url {
                Option::Some(_) => Option::None,
                Option::None => Option::Some(
                    PredictionError {
                        status: 400,
                        message: String::from_str("image_url is required for COVID X-Ray model"),
                    },
                ),
            }
        },
        ModelType::StableDiffusion => {
            match (&req.prompt, &req.quality_preset) {
                (Option::Some(p), Option::Some(_)) => {
                    if p.as_str().unicode_len() == 0 {
                        Option::Some(
                            PredictionError {
                                status: 400,
                                message: String::from_str("Empty prompt"),
                            },
                        )
                    } else {
                        Option::None
                    }
                },
                _ => Option::Some(
                    PredictionError {
                        status: 400,
                        message: String::from_str(
                            "prompt and quality_preset are required for Stable Diffusion model",
                        ),
                    },
                ),
            }
        },
    }
}

/// What the coordinator decides for one prediction request.
pub enum RouteDecision {
    /// The payload is invalid: reply 400 without touching the registry.
    Invalid(PredictionError),
    /// No eligible worker: reply 503 naming the model.
    NoWorker(PredictionError),
    /// Forward the request to this worker.
    Forward(GPUClient),
}

impl RouteDecision {
    /// The view of the worker this decision forwards to, if any.
    pub open spec fn forwarded(self) -> Option<GPUClientView> {
        match self {
            RouteDecision::Forward(w) => Option::Some(w@),
            _ => Option::None,
        }
    }
}

/// The routing decision for a prediction request at time `now`: validate,
/// then select. An invalid request never reaches selection and leaves the
/// registry untouched; a valid one is routed to the worker the selection
/// policy picks, or refused with 503 when none is eligible.
pub fn route_predict_at(reg: &mut ClientRegistry, req: &PredictionRequest, now: u64) -> (r:
    RouteDecision)
    requires
        old(reg).wf(),
    ensures
        final(reg).wf(),
        final(reg).window() == old(reg).window(),
        r is Invalid <==> !request_valid(req@),
        r matches RouteDecision::Invalid(e) ==> final(reg)@ == old(reg)@ && e@.status == 400
            && e@.message == spec_validation_error(req@),
        request_valid(req@) ==> select_post(
            old(reg)@,
            final(reg)@,
            r.forwarded(),
            req.model_type.spec_model_name(),
            now,
            old(reg).window(),
        ),
        request_valid(req@) ==> (r is NoWorker <==> !exists|i: int|
            0 <= i < live_filter(old(reg)@, now, old(reg).window()).len() && eligible(
                #[trigger] live_filter(old(reg)@, now, old(reg).window())[i],
                req.model_type.spec_model_name(),
            )),
        r matches RouteDecision::NoWorker(e) ==> e@.status == 503 && e@.message
            == spec_no_worker_message(req.model_type),
        r matches RouteDecision::Forward(w) ==> exists|i: int|
            0 <= i < final(reg)@.len() && (#[trigger] final(reg)@[i]).client_id == w@.client_id
                && crate::strutil::seq_has_name(
                final(reg)@[i].loaded_models,
                req.model_type.spec_model_name(),
            ),
{
    match validate_predict(req) {
        Option::Some(e) => RouteDecision::Invalid(e),
        Option::None => {
            let model_name = req.model_type.model_name();
            match reg.select_at(model_name.as_str(), now) {
                Option::Some(w) => RouteDecision::Forward(w),
                Option::None => {
                    let mut msg = String::from_str("No available client found for model type ");
                    msg.append(model_name.as_str());
                    RouteDecision::NoWorker(PredictionError { status: 503, message: msg })
                },
            }
        },
    }
}

/// The routing decision against the host clock; the policy is that of
/// `route_predict_at` at the moment the clock reports.
pub fn route_predict(reg: &mut ClientRegistry, req: &PredictionRequest) -> (r: RouteDecision)
    requires
        old(reg).wf(),
    ensures
        final(reg).wf(),
        final(reg).window() == old(reg).window(),
        r is Invalid <==> !request_valid(req@),
        r matches RouteDecision::Invalid(e) ==> final(reg)@ == old(reg)@ && e@.status == 400
            && e@.message == spec_validation_error(req@),
        request_valid(req@) ==> exists|now: u64|
            select_post(
                old(reg)@,
                final(reg)@,
                r.forwarded(),
                req.model_type.spec_model_name(),
                now,
                old(reg).window(),
            ),
        r matches RouteDecision::NoWorker(e) ==> e@.status == 503 && e@.message
            == spec_no_worker_message(req.model_type),
{
    let now = now_ms();
    route_predict_at(reg, req, now)
}

/// The heartbeat the coordinator synthesizes to mark a worker `error`
/// after a failed forward: every field preserved from the worker's record
/// except the status and the heartbeat time.
pub open spec fn mark_error_update(w: GPUClientView, now: u64) -> HeartbeatUpdateView {
    HeartbeatUpdateView {
        client_id: w.client_id,
        loaded_models: w.loaded_models,
        status: WorkerStatus::Error,
        last_heartbeat: now,
        ip_address: Option::Some(w.ip_address),
        capabilities: w.capabilities,
        gpu_info: w.gpu_info,
    }
}

/// After a transport failure or a non-2xx reply from the worker, mark the
/// worker `error` in the registry and build the 500 reply carrying the
/// upstream error message. This is the only path that writes
/// `status == error` into the registry.
pub fn note_forward_failure(
    reg: &mut ClientRegistry,
    worker: &GPUClient,
    error_message: String,
    now: u64,
) -> (r: PredictionError)
    requires
        old(reg).wf(),
    ensures
        final(reg).wf(),
        final(reg).window() == old(reg).window(),
        final(reg)@ == spec_heartbeat(old(reg)@, mark_error_update(worker@, now)),
        r@.status == 500,
        r@.message == error_message@,
        idx_of(old(reg)@, worker.client_id) matches Some(i) ==> final(reg)@[i].status
            is Error && final(reg)@[i].last_heartbeat == now && final(reg)@[i].client_id
            == worker.client_id,
{
    let update = HeartbeatUpdate {
        client_id: worker.client_id,
        loaded_models: dup_strings(&worker.loaded_models),
        status: WorkerStatus::Error,
        last_heartbeat: now,
        ip_address: Option::Some(worker.ip_address.clone()),
        capabilities: worker.capabilities.duplicate(),
        gpu_info: worker.gpu_info.duplicate(),
    };
    let ghost pre = reg@;
    proof {
        assert(update@ =~= mark_error_update(worker@, now));
        crate::registry::lemma_idx_of_props(pre, worker.client_id);
    }
    let _ = reg.update_client(update);
    PredictionError { status: 500, message: error_message }
}

/// The body of the registration endpoint: registration never fails.
pub fn handle_register(reg: &mut ClientRegistry, client: GPUClient) -> (r: ServerResponse)
    requires
        old(reg).wf(),
    ensures
        final(reg).wf(),
        final(reg).window() == old(reg).window(),
        final(reg)@ == spec_register(old(reg)@, client@),
        r@.status == "success"@,
        r@.message == "Client registered successfully"@,
{
    let _ = reg.register_client(client);
    ServerResponse {
        status: String::from_str("success"),
        message: String::from_str("Client registered successfully"),
    }
}

/// The body of the heartbeat endpoint. An unknown id is answered in the
/// body — status "error", message "client not found" — not with an HTTP
/// failure, so the worker may choose to re-register.
pub fn handle_heartbeat(reg: &mut ClientRegistry, update: HeartbeatUpdate) -> (r: ServerResponse)
    requires
        old(reg).wf(),
    ensures
        final(reg).wf(),
        final(reg).window() == old(reg).window(),
        final(reg)@ == spec_heartbeat(old(reg)@, update@),
        idx_of(old(reg)@, update.client_id) is Some ==> r@.status == "success"@ && r@.message
            == "Heartbeat updated"@,
        idx_of(old(reg)@, update.client_id) is None ==> r@.status == "error"@ && r@.message
            == "client not found"@,
{
    match reg.update_client(update) {
        Result::Ok(()) => ServerResponse {
            status: String::from_str("success"),
            message: String::from_str("Heartbeat updated"),
        },
        Result::Err(_) => ServerResponse {
            status: String::from_str("error"),
            message: String::from_str("client not found"),
        },
    }
}

/// A worker address that reads as a domain name: it holds a dot and is
/// not made of digits and dots alone.
pub open spec fn spec_is_domain(ip: Seq<char>) -> bool {
    crate::strutil::contains_char(ip, '.') && !crate::strutil::all_digit_or_dot(ip)
}

/// The URL of a worker's prediction endpoint: a domain name is addressed
/// without the port, a numeric address with it.
pub open spec fn spec_predict_url(w: GPUClientView) -> Seq<char> {
    if spec_is_domain(w.ip_address) {
        "http://"@ + w.ip_address + "/predict"@
    } else {
        "http://"@ + w.ip_address + ":"@ + dec_digits(w.port as nat) + "/predict"@
    }
}

/// The message of the hop-side rejection of an incomplete request.
pub open spec fn spec_missing_payload_error(r: PredictionRequestView) -> Seq<char> {
    match r.model_type {
        ModelType::CovidXRay => "image_url is required for COVID X-Ray model"@,
        ModelType::StableDiffusion =>
            "prompt and quality_preset are required for Stable Diffusion model"@,
    }
}

/// The compute half of forwarding a request to a worker: check the
/// payload is complete and build the worker's prediction URL. The send
/// itself is the host's.
pub fn forward_plan(worker: &GPUClient, req: &PredictionRequest) -> (r: Result<
    String,
    crate::types::ClientError,
>)
    ensures
        r is Ok <==> request_complete(req@),
        r matches Ok(url) ==> url@ == spec_predict_url(worker@),
        r matches Err(e) ==> e matches crate::types::ClientError::InvalidRequest(msg) && msg@
            == spec_missing_payload_error(req@),
{
    let complete = match req.model_type {
        ModelType::CovidXRay => match &req.image_url {
            Option::Some(_) => true,
            Option::None => false,
        },
        ModelType::StableDiffusion => match (&req.prompt, &req.quality_preset) {
            (Option::Some(_), Option::Some(_)) => true,
            _ => false,
        },
    };
    if !complete {
        let msg = match req.model_type {
            ModelType::CovidXRay => String::from_str(
                "image_url is required for COVID X-Ray model",
            ),
            ModelType::StableDiffusion => String::from_str(
                "prompt and quality_preset are required for Stable Diffusion model",
            ),
        };
        return Result::Err(crate::types::ClientError::InvalidRequest(msg));
    }
    let is_domain = crate::strutil::has_char(worker.ip_address.as_str(), '.')
        && !crate::strutil::check_all_digit_or_dot(worker.ip_address.as_str());
    let mut url = String::from_str("http://");
    url.append(worker.ip_address.as_str());
    if !is_domain {
        url.append(":");
        let port = u64_to_string(worker.port as u64);
        url.append(port.as_str());
    }
    url.append("/predict");
    Result::Ok(url)
}

/// The canonical decimal rendering of a 128-bit identifier.
pub fn u128_to_string(n: u128) -> (r: String)
    ensures
        r@ == dec_digits(n as nat),
    decreases n,
{
    if n < 10 {
        u64_to_string(n as u64)
    } else {
        let mut s = u128_to_string(n / 10);
        let d = u64_to_string((n % 10) as u64);
        s.append(d.as_str());
        proof {
            assert(s@ =~= dec_digits(n as nat));
        }
        s
    }
}

/// One row of the client table.
pub open spec fn spec_table_row(c: GPUClientView) -> Seq<char> {
    dec_digits(c.client_id as nat) + " "@ + c.ip_address + " "@ + dec_digits(c.port as nat)
        + " "@ + crate::types::spec_status_name(c.status) + " "@ + spec_join(
        c.loaded_models,
        ", "@,
    )
}

/// The printable client table: a title, a column header, then one row per
/// record, in order.
pub fn render_clients_table(clients: &Vec<GPUClient>) -> (r: Vec<String>)
    ensures
        r@.len() == clients@.len() + 2,
        r@[0]@ == "Connected Clients:"@,
        r@[1]@ == "Client ID IP Address Port Status Models"@,
        forall|i: int|
            0 <= i < clients@.len() ==> r@[i + 2]@ == spec_table_row(#[trigger] clients@[i]@),
{
    let mut out: Vec<String> = Vec::new();
    out.push(String::from_str("Connected Clients:"));
    out.push(String::from_str("Client ID IP Address Port Status Models"));
    let n = clients.len();
    let mut i: usize = 0;
    while i < n
        invariant
            i <= n,
            n == clients@.len(),
            out@.len() == i + 2,
            out@[0]@ == "Connected Clients:"@,
            out@[1]@ == "Client ID IP Address Port Status Models"@,
            forall|j: int|
                0 <= j < i ==> out@[j + 2]@ == spec_table_row(#[trigger] clients@[j]@),
        decreases n - i,
    {
        let c = &clients[i];
        let mut row = u128_to_string(c.client_id);
        row.append(" ");
        row.append(c.ip_address.as_str());
        row.append(" ");
        let port = u64_to_string(c.port as u64);
        row.append(port.as_str());
        row.append(" ");
        let status = crate::types::status_name(c.status);
        row.append(status.as_str());
        row.append(" ");
        let models = crate::strutil::join_names(&c.loaded_models, ", ");
        row.append(models.as_str());
        proof {
            reveal_strlit(" ");
            assert(row@ =~= spec_table_row(clients@[i as int]@));
        }
        out.push(row);
        i = i + 1;
    }
    out
}

} // verus!
