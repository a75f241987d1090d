//! The coordinator's registry: the authoritative directory of workers,
//! with liveness-based eviction and the worker-selection policy.
//!
//! Every operation is a total function of the registry state; the host
//! process serializes calls behind one writer-exclusive lock, so a
//! concurrent history is exactly a sequential application of `apply_op`
//! steps (see `lemma_history_composes`).

use vstd::prelude::*;
use crate::types::{
    GPUClient, GPUClientView, HeartbeatUpdate, HeartbeatUpdateView, RegistryError, WorkerStatus,
    DEFAULT_LIVENESS_WINDOW_MS, STABLE_DIFFUSION_MIN_VRAM_MIB, opt_view,
};
use crate::strutil::{str_eq, contains_name, seq_has_name};
use crate::host::now_ms;

verus! {

/// The views of a vector of records.
pub open spec fn records_view(v: Seq<GPUClient>) -> Seq<GPUClientView> {
    Seq::new(v.len(), |i: int| v[i]@)
}

/// Age of a heartbeat: how many milliseconds `last` lies before `now`.
/// A heartbeat from the future counts as fresh.
pub open spec fn hb_age(now: u64, last: u64) -> int {
    if now >= last {
        now - last
    } else {
        0
    }
}

/// A record is live while its heartbeat is younger than the window.
pub open spec fn is_live(r: GPUClientView, now: u64, window: u64) -> bool {
    hb_age(now, r.last_heartbeat) < window
}

/// Minimum GPU memory (MiB) demanded of a worker that would have to load
/// the model first.
pub open spec fn min_vram(m: Seq<char>) -> u64 {
    if m == "stable_diffusion"@ {
        STABLE_DIFFUSION_MIN_VRAM_MIB
    } else {
        0
    }
}

/// The capability filter of selection: online, a real GPU, and either the
/// model already resident or enough memory to load it.
pub open spec fn eligible(r: GPUClientView, m: Seq<char>) -> bool {
    &&& r.status is Online
    &&& r.gpu_info.total_memory > 0
    &&& (seq_has_name(r.loaded_models, m) || r.gpu_info.total_memory >= min_vram(m))
}

/// The ranking of selection: `a` beats `b` when it has strictly more total
/// GPU memory, or the same total and strictly more free memory.
pub open spec fn better(a: GPUClientView, b: GPUClientView) -> bool {
    ||| a.gpu_info.total_memory > b.gpu_info.total_memory
    ||| (a.gpu_info.total_memory == b.gpu_info.total_memory
        && a.gpu_info.free_memory > b.gpu_info.free_memory)
}

/// The live records, in order.
pub open spec fn live_filter(s: Seq<GPUClientView>, now: u64, window: u64) -> Seq<GPUClientView>
    decreases s.len(),
{
    if s.len() == 0 {
        Seq::empty()
    } else {
        let prefix = live_filter(s.drop_last(), now, window);
        if is_live(s.last(), now, window) {
            prefix.push(s.last())
        } else {
            prefix
        }
    }
}

/// Index of the first record with this id, if any.
pub open spec fn idx_of(s: Seq<GPUClientView>, id: u128) -> Option<int>
    decreases s.len(),
{
    if s.len() == 0 {
        Option::None
    } else if s[0].client_id == id {
        Option::Some(0int)
    } else {
        match idx_of(s.skip(1), id) {
            Option::Some(i) => Option::Some(i + 1),
            Option::None => Option::None,
        }
    }
}

/// Index of the chosen record among `s[0..n]`: the first eligible record
/// that no later eligible record strictly beats.
pub open spec fn best_idx_upto(s: Seq<GPUClientView>, m: Seq<char>, n: int) -> Option<int>
    decreases n,
{
    if n <= 0 {
        Option::None
    } else {
        let prev = best_idx_upto(s, m, n - 1);
        if !eligible(s[n - 1], m) {
            prev
        } else {
            match prev {
                Option::None => Option::Some(n - 1),
                Option::Some(p) => if better(s[n - 1], s[p]) {
                    Option::Some(n - 1)
                } else {
                    Option::Some(p)
                },
            }
        }
    }
}

/// Index of the chosen record of the whole sequence.
pub open spec fn best_idx(s: Seq<GPUClientView>, m: Seq<char>) -> Option<int> {
    best_idx_upto(s, m, s.len() as int)
}

/// What a heartbeat leaves of a record: everything refreshed except the
/// identity, the port, and (when the update names none) the address.
pub open spec fn apply_update(r: GPUClientView, u: HeartbeatUpdateView) -> GPUClientView {
    GPUClientView {
        loaded_models: u.loaded_models,
        status: u.status,
        last_heartbeat: u.last_heartbeat,
        capabilities: u.capabilities,
        gpu_info: u.gpu_info,
        ip_address: match u.ip_address {
            Option::Some(ip) => ip,
            Option::None => r.ip_address,
        },
        ..r
    }
}

/// Registration inserts a new record or replaces the one with the same id.
pub open spec fn spec_register(s: Seq<GPUClientView>, c: GPUClientView) -> Seq<GPUClientView> {
    match idx_of(s, c.client_id) {
        Option::Some(i) => s.update(i, c),
        Option::None => s.push(c),
    }
}

/// A heartbeat refreshes the record with its id, or changes nothing.
pub open spec fn spec_heartbeat(s: Seq<GPUClientView>, u: HeartbeatUpdateView) -> Seq<
    GPUClientView,
> {
    match idx_of(s, u.client_id) {
        Option::Some(i) => s.update(i, apply_update(s[i], u)),
        Option::None => s,
    }
}

/// The speculative-load mark: the chosen record is remembered as having
/// the model resident.
pub open spec fn with_model(r: GPUClientView, m: Seq<char>) -> GPUClientView {
    if seq_has_name(r.loaded_models, m) {
        r
    } else {
        GPUClientView { loaded_models: r.loaded_models.push(m), ..r }
    }
}

/// The registry state selection leaves behind.
pub open spec fn spec_select_state(
    s: Seq<GPUClientView>,
    m: Seq<char>,
    now: u64,
    window: u64,
) -> Seq<GPUClientView> {
    let live = live_filter(s, now, window);
    match best_idx(live, m) {
        Option::None => live,
        Option::Some(k) => live.update(k, with_model(live[k], m)),
    }
}

/// Full account of one selection: how the state and the result relate to
/// the state before, at time `now`.
pub open spec fn select_post(
    pre: Seq<GPUClientView>,
    post: Seq<GPUClientView>,
    r: Option<GPUClientView>,
    m: Seq<char>,
    now: u64,
    window: u64,
) -> bool {
    let live = live_filter(pre, now, window);
    match r {
        Option::None => post == live && best_idx(live, m) is None,
        Option::Some(w) => {
            &&& best_idx(live, m) is Some
            &&& ({
                let k = best_idx(live, m)->Some_0;
                post == live.update(k, with_model(live[k], m)) && w == with_model(live[k], m)
            })
        },
    }
}

/// No two records share an id.
pub open spec fn ids_unique(s: Seq<GPUClientView>) -> bool {
    forall|i: int, j: int|
        0 <= i < j < s.len() ==> s[i].client_id != s[j].client_id
}

/// One registry operation, as an abstract step.
pub enum RegOpView {
    Register(GPUClientView),
    Heartbeat(HeartbeatUpdateView),
    Select(Seq<char>, u64),
    Scan(u64),
}

/// The sequential meaning of one operation.
pub open spec fn apply_op(s: Seq<GPUClientView>, op: RegOpView, window: u64) -> Seq<
    GPUClientView,
> {
    match op {
        RegOpView::Register(c) => spec_register(s, c),
        RegOpView::Heartbeat(u) => spec_heartbeat(s, u),
        RegOpView::Select(m, now) => spec_select_state(s, m, now, window),
        RegOpView::Scan(now) => live_filter(s, now, window),
    }
}

/// The sequential meaning of a history of operations.
pub open spec fn apply_ops(s: Seq<GPUClientView>, ops: Seq<RegOpView>, window: u64) -> Seq<
    GPUClientView,
>
    decreases ops.len(),
{
    if ops.len() == 0 {
        s
    } else {
        apply_ops(apply_op(s, ops[0], window), ops.skip(1), window)
    }
}

/// Registry atomicity. Each operation takes the registry exclusively and
/// its contract pins the state it leaves, so a concurrent history —
/// serialized by the registry's lock — is the sequential application of
/// its operations; this law shows such histories compose: running one
/// batch after another equals running the concatenated history.
pub proof fn lemma_history_composes(
    s: Seq<GPUClientView>,
    ops1: Seq<RegOpView>,
    ops2: Seq<RegOpView>,
    window: u64,
)
    ensures
        apply_ops(s, ops1 + ops2, window) == apply_ops(apply_ops(s, ops1, window), ops2, window),
    decreases ops1.len(),
{
    if ops1.len() == 0 {
        assert(ops1 + ops2 =~= ops2);
    } else {
        assert((ops1 + ops2)[0] == ops1[0]);
        assert((ops1 + ops2).skip(1) =~= ops1.skip(1) + ops2);
        lemma_history_composes(apply_op(s, ops1[0], window), ops1.skip(1), ops2, window);
    }
}

/// Everything the live filter keeps is live and comes from the input.
pub proof fn lemma_live_filter_props(s: Seq<GPUClientView>, now: u64, window: u64)
    ensures
        forall|i: int|
            0 <= i < live_filter(s, now, window).len() ==> is_live(
                #[trigger] live_filter(s, now, window)[i],
                now,
                window,
            ),
        forall|i: int|
            0 <= i < live_filter(s, now, window).len() ==> exists|j: int|
                0 <= j < s.len() && #[trigger] live_filter(s, now, window)[i] == s[j],
        forall|j: int|
            0 <= j < s.len() && is_live(#[trigger] s[j], now, window) ==> exists|i: int|
                0 <= i < live_filter(s, now, window).len() && live_filter(s, now, window)[i]
                    == s[j],
    decreases s.len(),
{
    if s.len() > 0 {
        lemma_live_filter_props(s.drop_last(), now, window);
        assert(forall|j: int| 0 <= j < s.len() - 1 ==> s.drop_last()[j] == s[j]);
        let prefix = live_filter(s.drop_last(), now, window);
        let whole = live_filter(s, now, window);
        assert forall|i: int| 0 <= i < whole.len() implies is_live(
            #[trigger] whole[i],
            now,
            window,
        ) && exists|j: int| 0 <= j < s.len() && whole[i] == s[j] by {
            if i < prefix.len() {
                assert(whole[i] == prefix[i]);
                let j = choose|j: int| 0 <= j < s.len() - 1 && prefix[i] == s.drop_last()[j];
                assert(whole[i] == s[j]);
            } else {
                assert(whole[i] == s.last());
                assert(whole[i] == s[s.len() - 1]);
            }
        }
        assert forall|j: int| 0 <= j < s.len() && is_live(#[trigger] s[j], now, window) implies
            exists|i: int| 0 <= i < whole.len() && whole[i] == s[j] by {
            if j < s.len() - 1 {
                let i = choose|i: int|
                    0 <= i < prefix.len() && prefix[i] == s.drop_last()[j];
                assert(whole[i] == s[j]);
            } else {
                assert(is_live(s.last(), now, window));
                assert(whole[whole.len() - 1] == s[j]);
            }
        }
    }
}

/// The live filter keeps id uniqueness.
pub proof fn lemma_live_filter_unique(s: Seq<GPUClientView>, now: u64, window: u64)
    requires
        ids_unique(s),
    ensures
        ids_unique(live_filter(s, now, window)),
    decreases s.len(),
{
    if s.len() > 0 {
        assert(ids_unique(s.drop_last()));
        lemma_live_filter_unique(s.drop_last(), now, window);
        lemma_live_filter_props(s.drop_last(), now, window);
        let prefix = live_filter(s.drop_last(), now, window);
        if is_live(s.last(), now, window) {
            assert forall|i: int| 0 <= i < prefix.len() implies prefix[i].client_id
                != s.last().client_id by {
                let j = choose|j: int| 0 <= j < s.len() - 1 && prefix[i] == s.drop_last()[j];
                assert(s[j] == prefix[i]);
                assert(s[j].client_id != s[s.len() - 1].client_id);
            }
        }
    }
}

/// What `idx_of` returns: the first index carrying the id, or a promise
/// that none does.
pub proof fn lemma_idx_of_props(s: Seq<GPUClientView>, id: u128)
    ensures
        match idx_of(s, id) {
            Option::Some(i) => 0 <= i < s.len() && s[i].client_id == id && forall|j: int|
                0 <= j < i ==> s[j].client_id != id,
            Option::None => forall|j: int| 0 <= j < s.len() ==> s[j].client_id != id,
        },
    decreases s.len(),
{
    if s.len() > 0 && s[0].client_id != id {
        lemma_idx_of_props(s.skip(1), id);
        assert(forall|j: int| 0 <= j < s.len() - 1 ==> s.skip(1)[j] == s[j + 1]);
        match idx_of(s.skip(1), id) {
            Option::Some(i) => {
                assert(idx_of(s, id) == Option::Some(i + 1));
                assert(s[i + 1].client_id == id);
                assert forall|j: int| 0 <= j < i + 1 implies s[j].client_id != id by {
                    if j > 0 {
                        assert(s.skip(1)[j - 1].client_id != id);
                    }
                }
            },
            Option::None => {
                assert forall|j: int| 0 <= j < s.len() implies s[j].client_id != id by {
                    if j > 0 {
                        assert(s.skip(1)[j - 1].client_id != id);
                    }
                }
            },
        }
    }
}

/// The first index carrying the id determines `idx_of`.
pub proof fn lemma_idx_of_exact(s: Seq<GPUClientView>, id: u128, i: int)
    requires
        0 <= i < s.len(),
        s[i].client_id == id,
        forall|j: int| 0 <= j < i ==> s[j].client_id != id,
    ensures
        idx_of(s, id) == Option::Some(i),
    decreases s.len(),
{
    if i > 0 {
        assert(forall|j: int| 0 <= j < s.len() - 1 ==> s.skip(1)[j] == s[j + 1]);
        lemma_idx_of_exact(s.skip(1), id, i - 1);
    }
}

/// Selection soundness and completeness over a prefix: the chosen index is
/// eligible and unbeaten among `s[0..n]`, and it exists whenever any
/// eligible record does.
pub proof fn lemma_best_idx_props(s: Seq<GPUClientView>, m: Seq<char>, n: int)
    requires
        0 <= n <= s.len(),
    ensures
        match best_idx_upto(s, m, n) {
            Option::Some(p) => 0 <= p < n && eligible(s[p], m) && forall|j: int|
                0 <= j < n && eligible(#[trigger] s[j], m) ==> !better(s[j], s[p]),
            Option::None => forall|j: int| 0 <= j < n ==> !eligible(#[trigger] s[j], m),
        },
    decreases n,
{
    if n > 0 {
        lemma_best_idx_props(s, m, n - 1);
    }
}

/// A worker without GPU memory is never selected, whatever the model: the
/// chosen record always reports strictly positive total memory.
pub proof fn lemma_no_gpu_never_selected(
    s: Seq<GPUClientView>,
    m: Seq<char>,
    now: u64,
    window: u64,
    k: int,
)
    requires
        best_idx(live_filter(s, now, window), m) == Option::Some(k),
    ensures
        0 <= k < live_filter(s, now, window).len(),
        live_filter(s, now, window)[k].gpu_info.total_memory > 0,
    decreases s.len(),
{
    let live = live_filter(s, now, window);
    lemma_best_idx_props(live, m, live.len() as int);
}

/// The registry: the records and the liveness window.
pub struct ClientRegistry {
    pub clients: Vec<GPUClient>,
    pub liveness_window_ms: u64,
}

impl View for ClientRegistry {
    type V = Seq<GPUClientView>;

    open spec fn view(&self) -> Seq<GPUClientView> {
        records_view(self.clients@)
    }
}

impl ClientRegistry {
    pub open spec fn wf(self) -> bool {
        ids_unique(self@)
    }

    pub open spec fn window(self) -> u64 {
        self.liveness_window_ms
    }

    /// A fresh, empty registry with the default liveness window.
    pub fn new() -> (r: ClientRegistry)
        ensures
            r@ == Seq::<GPUClientView>::empty(),
            r.window() == DEFAULT_LIVENESS_WINDOW_MS,
            r.wf(),
    {
        let r = ClientRegistry { clients: Vec::new(), liveness_window_ms: DEFAULT_LIVENESS_WINDOW_MS };
        proof {
            assert(r@ =~= Seq::<GPUClientView>::empty());
        }
        r
    }

    /// A fresh, empty registry with a chosen liveness window.
    pub fn with_window(window_ms: u64) -> (r: ClientRegistry)
        ensures
            r@ == Seq::<GPUClientView>::empty(),
            r.window() == window_ms,
            r.wf(),
    {
        let r = ClientRegistry { clients: Vec::new(), liveness_window_ms: window_ms };
        proof {
            assert(r@ =~= Seq::<GPUClientView>::empty());
        }
        r
    }

    /// Index of the record with this id, scanning from the front.
    fn find_index(&self, id: u128) -> (r: Option<usize>)
        ensures
            match r {
                Option::Some(i) => idx_of(self@, id) == Option::Some(i as int),
                Option::None => idx_of(self@, id) is None,
            },
    {
        let n = self.clients.len();
        let mut i: usize = 0;
        while i < n
            invariant
                i <= n,
                n == self.clients@.len(),
                forall|j: int| 0 <= j < i ==> self@[j].client_id != id,
            decreases n - i,
        {
            if self.clients[i].client_id == id {
                proof {
                    lemma_idx_of_exact(self@, id, i as int);
                }
                return Option::Some(i);
            }
            i = i + 1;
        }
        proof {
            lemma_idx_of_props(self@, id);
            if idx_of(self@, id) is Some {
                let p = idx_of(self@, id)->Some_0;
                assert(self@[p].client_id == id);
            }
        }
        Option::None
    }

    /// Insert the record, or replace the one with the same id. Never fails.
    pub fn register_client(&mut self, client: GPUClient) -> (r: Result<(), RegistryError>)
        requires
            old(self).wf(),
        ensures
            final(self)@ == spec_register(old(self)@, client@),
            final(self)@ == apply_op(old(self)@, RegOpView::Register(client@), old(self).window()),
            final(self).window() == old(self).window(),
            final(self).wf(),
            r is Ok,
    {
        let ghost pre = self@;
        let idx = self.find_index(client.client_id);
        proof {
            lemma_idx_of_props(pre, client.client_id);
        }
        match idx {
            Option::Some(i) => {
                self.clients.set(i, client);
                proof {
                    assert(final(self)@ =~= pre.update(i as int, client@));
                }
            },
            Option::None => {
                self.clients.push(client);
                proof {
                    assert(self@ =~= pre.push(client@));
                }
            },
        }
        Ok(())
    }

    /// Refresh the record the heartbeat names; `ClientNotFound` when the
    /// id is unknown. The last writer wins: a heartbeat is accepted
    /// whatever its timestamp says.
    pub fn update_client(&mut self, update: HeartbeatUpdate) -> (r: Result<(), RegistryError>)
        requires
            old(self).wf(),
        ensures
            final(self)@ == spec_heartbeat(old(self)@, update@),
            final(self)@ == apply_op(old(self)@, RegOpView::Heartbeat(update@), old(self).window()),
            final(self).window() == old(self).window(),
            final(self).wf(),
            r is Ok <==> idx_of(old(self)@, update.client_id) is Some,
            r is Err ==> r == Result::<(), RegistryError>::Err(RegistryError::ClientNotFound),
    {
        let ghost pre = self@;
        let ghost uv = update@;
        let idx = self.find_index(update.client_id);
        proof {
            lemma_idx_of_props(pre, update.client_id);
        }
        match idx {
            Option::Some(i) => {
                let HeartbeatUpdate {
                    client_id: _,
                    loaded_models,
                    status,
                    last_heartbeat,
                    ip_address,
                    capabilities,
                    gpu_info,
                } = update;
                let merged = GPUClient {
                    client_id: self.clients[i].client_id,
                    port: self.clients[i].port,
                    ip_address: match ip_address {
                        Option::Some(ip) => ip,
                        Option::None => self.clients[i].ip_address.clone(),
                    },
                    loaded_models,
                    status,
                    last_heartbeat,
                    capabilities,
                    gpu_info,
                };
                proof {
                    assert(merged@ =~= apply_update(pre[i as int], uv));
                }
                self.clients.set(i, merged);
                proof {
                    assert(final(self)@ =~= pre.update(i as int, apply_update(pre[i as int], uv)));
                }
                Ok(())
            },
            Option::None => Err(RegistryError::ClientNotFound),
        }
    }

    /// Drop every record that is not live at `now`. After the scan, every
    /// record in the registry has a heartbeat younger than the window.
    pub fn scan_at(&mut self, now: u64)
        requires
            old(self).wf(),
        ensures
            final(self)@ == live_filter(old(self)@, now, old(self).window()),
            final(self)@ == apply_op(old(self)@, RegOpView::Scan(now), old(self).window()),
            final(self).window() == old(self).window(),
            final(self).wf(),
            forall|i: int|
                0 <= i < final(self)@.len() ==> hb_age(now, #[trigger] final(self)@[i].last_heartbeat)
                    < old(self).window(),
    {
        let ghost pre = self@;
        let window = self.liveness_window_ms;
        let n = self.clients.len();
        let mut kept: Vec<GPUClient> = Vec::new();
        let mut i: usize = 0;
        while i < n
            invariant
                i <= n,
                n == self.clients@.len(),
                records_view(self.clients@) == pre,
                records_view(kept@) =~= live_filter(pre.take(i as int), now, window),
            decreases n - i,
        {
            let c = &self.clients[i];
            let live = if now >= c.last_heartbeat {
                now - c.last_heartbeat < window
            } else {
                0 < window
            };
            proof {
                assert(pre.take(i as int + 1).drop_last() =~= pre.take(i as int));
                assert(pre.take(i as int + 1).last() == pre[i as int]);
            }
            if live {
                let copy = self.clients[i].duplicate();
                kept.push(copy);
                proof {
                    assert(records_view(kept@) =~= live_filter(pre.take(i as int + 1), now, window));
                }
            } else {
                proof {
                    assert(records_view(kept@) =~= live_filter(pre.take(i as int + 1), now, window));
                }
            }
            i = i + 1;
        }
        self.clients = kept;
        proof {
            assert(pre.take(n as int) =~= pre);
            lemma_live_filter_unique(pre, now, window);
            lemma_live_filter_props(pre, now, window);
        }
    }

    /// Drop every record that is not live now, against the host clock.
    pub fn cleanup_inactive_clients(&mut self)
        requires
            old(self).wf(),
        ensures
            final(self).window() == old(self).window(),
            final(self).wf(),
            exists|now: u64|
                final(self)@ == live_filter(old(self)@, now, old(self).window()) && forall|i: int|
                    0 <= i < final(self)@.len() ==> hb_age(
                        now,
                        #[trigger] final(self)@[i].last_heartbeat,
                    ) < old(self).window(),
    {
        let now = now_ms();
        self.scan_at(now);
    }

    /// Snapshot of the records live at `now`, without mutation.
    pub fn list_active_at(&self, now: u64) -> (r: Vec<GPUClient>)
        ensures
            records_view(r@) == live_filter(self@, now, self.window()),
    {
        let window = self.liveness_window_ms;
        let n = self.clients.len();
        let mut out: Vec<GPUClient> = Vec::new();
        let mut i: usize = 0;
        while i < n
            invariant
                i <= n,
                n == self.clients@.len(),
                records_view(out@) =~= live_filter(self@.take(i as int), now, window),
                window == self.window(),
            decreases n - i,
        {
            let c = &self.clients[i];
            let live = if now >= c.last_heartbeat {
                now - c.last_heartbeat < window
            } else {
                0 < window
            };
            proof {
                assert(self@.take(i as int + 1).drop_last() =~= self@.take(i as int));
                assert(self@.take(i as int + 1).last() == self@[i as int]);
            }
            if live {
                out.push(self.clients[i].duplicate());
            }
            proof {
                assert(records_view(out@) =~= live_filter(self@.take(i as int + 1), now, window));
            }
            i = i + 1;
        }
        proof {
            assert(self@.take(n as int) =~= self@);
        }
        out
    }

    /// Snapshot of the records live now, against the host clock.
    pub fn get_active_clients(&self) -> (r: Vec<GPUClient>)
        ensures
            exists|now: u64| records_view(r@) == live_filter(self@, now, self.window()),
    {
        let now = now_ms();
        self.list_active_at(now)
    }

    /// Selection at time `now`: evict the stale, filter to the eligible,
    /// pick the top-ranked record, mark the model loaded on it, and hand
    /// back a copy.
    ///
    /// The postcondition carries the selection laws: soundness (the chosen
    /// record is eligible and unbeaten), completeness (a record is chosen
    /// exactly when an eligible one exists), and the speculative-load mark
    /// (the stored record of the chosen worker lists the model).
    pub fn select_at(&mut self, model_name: &str, now: u64) -> (r: Option<GPUClient>)
        requires
            old(self).wf(),
        ensures
            final(self).window() == old(self).window(),
            final(self).wf(),
            select_post(
                old(self)@,
                final(self)@,
                opt_view(r),
                model_name@,
                now,
                old(self).window(),
            ),
            final(self)@ == apply_op(
                old(self)@,
                RegOpView::Select(model_name@, now),
                old(self).window(),
            ),
            (r is Some <==> exists|i: int|
                0 <= i < live_filter(old(self)@, now, old(self).window()).len() && eligible(
                    #[trigger] live_filter(old(self)@, now, old(self).window())[i],
                    model_name@,
                )),
            r matches Some(w) ==> ({
                let live = live_filter(old(self)@, now, old(self).window());
                let k = best_idx(live, model_name@)->Some_0;
                &&& 0 <= k < live.len()
                &&& eligible(live[k], model_name@)
                &&& forall|j: int|
                    0 <= j < live.len() && eligible(#[trigger] live[j], model_name@) ==> !better(
                        live[j],
                        live[k],
                    )
            }),
            r matches Some(w) ==> exists|i: int|
                0 <= i < final(self)@.len() && (#[trigger] final(self)@[i]).client_id
                    == w@.client_id && seq_has_name(final(self)@[i].loaded_models, model_name@),
    {
        let ghost pre = self@;
        let ghost window = self.window();
        self.scan_at(now);
        let ghost live = live_filter(pre, now, window);
        proof {
            lemma_best_idx_props(live, model_name@, live.len() as int);
        }
        let n = self.clients.len();
        let mut best: Option<usize> = Option::None;
        let mut i: usize = 0;
        while i < n
            invariant
                i <= n,
                n == self.clients@.len(),
                self@ == live,
                match best {
                    Option::Some(b) => b < n && best_idx_upto(live, model_name@, i as int)
                        == Option::Some(b as int),
                    Option::None => best_idx_upto(live, model_name@, i as int) is None,
                },
            decreases n - i,
        {
            let c = &self.clients[i];
            let elig = eligible_check(c, model_name);
            if elig {
                match best {
                    Option::None => {
                        best = Option::Some(i);
                    },
                    Option::Some(b) => {
                        let cb = &self.clients[b];
                        let beats = c.gpu_info.total_memory > cb.gpu_info.total_memory
                            || (c.gpu_info.total_memory == cb.gpu_info.total_memory
                                && c.gpu_info.free_memory > cb.gpu_info.free_memory);
                        if beats {
                            best = Option::Some(i);
                        }
                    },
                }
            }
            i = i + 1;
        }
        match best {
            Option::None => {
                proof {
                    assert(self@ =~= live_filter(pre, now, window));
                }
                Option::None
            },
            Option::Some(k) => {
                let ghost chosen_pre = live[k as int];
                let already = contains_name(&self.clients[k].loaded_models, model_name);
                if !already {
                    let mut rec = self.clients[k].duplicate();
                    rec.loaded_models.push(model_name.to_owned());
                    proof {
                        assert(rec@ =~= with_model(chosen_pre, model_name@));
                    }
                    self.clients.set(k, rec);
                    proof {
                        assert(self@ =~= live.update(k as int, with_model(chosen_pre, model_name@)));
                    }
                } else {
                    proof {
                        assert(with_model(chosen_pre, model_name@) == chosen_pre);
                        assert(self@ =~= live.update(k as int, with_model(chosen_pre, model_name@)));
                    }
                }
                let out = self.clients[k].duplicate();
                proof {
                    assert(self@[k as int] == with_model(chosen_pre, model_name@));
                    let wm = with_model(chosen_pre, model_name@);
                    if !seq_has_name(chosen_pre.loaded_models, model_name@) {
                        assert(wm.loaded_models[chosen_pre.loaded_models.len() as int]
                            == model_name@);
                    }
                    assert(seq_has_name(wm.loaded_models, model_name@));
                }
                Option::Some(out)
            },
        }
    }

    /// Selection against the host clock; the policy and its laws are those
    /// of `select_at` at the moment the clock reports.
    pub fn find_best_client(&mut self, model_name: &str) -> (r: Option<GPUClient>)
        requires
            old(self).wf(),
        ensures
            final(self).window() == old(self).window(),
            final(self).wf(),
            exists|now: u64|
                select_post(
                    old(self)@,
                    final(self)@,
                    opt_view(r),
                    model_name@,
                    now,
                    old(self).window(),
                ),
            r matches Some(w) ==> exists|i: int|
                0 <= i < final(self)@.len() && (#[trigger] final(self)@[i]).client_id
                    == w@.client_id && seq_has_name(final(self)@[i].loaded_models, model_name@),
    {
        let now = now_ms();
        self.select_at(model_name, now)
    }
}

/// Whether the record passes the capability filter for the model.
pub fn eligible_check(c: &GPUClient, model_name: &str) -> (r: bool)
    ensures
        r == eligible(c@, model_name@),
{
    match c.status {
        WorkerStatus::Online => {},
        _ => {
            return false;
        },
    }
    if c.gpu_info.total_memory == 0 {
        return false;
    }
    if contains_name(&c.loaded_models, model_name) {
        return true;
    }
    c.gpu_info.total_memory >= min_vram_for(model_name)
}

/// The minimum-VRAM rule, executably.
pub fn min_vram_for(model_name: &str) -> (r: u64)
    ensures
        r == min_vram(model_name@),
{
    if str_eq(model_name, "stable_diffusion") {
        STABLE_DIFFUSION_MIN_VRAM_MIB
    } else {
        0
    }
}

} // verus!
