//! The event-driven heart of the supervisor. The surrounding program drains
//! the engine's event stream and performs all engine calls; this module makes
//! every decision: which events matter, which containers the startup sweep
//! should heal, what a stop event does to the restart bookkeeping, and how
//! the configuration store changes when a restart, create or remove
//! concludes.
use vstd::prelude::*;

use crate::debounce::{spec_note_stop, RestartDebouncer, RestartRecord};
use crate::models::{ConfigView, ContainerConfig, CoreError};
use crate::store::{migrated_view, ConfigStore};
use crate::strutil::str_eq;

verus! {

/// An engine event, reduced to what the monitor reads: whether it concerns a
/// container, the action name, and the id of the container it is about.
pub struct EngineEvent {
    pub container_event: bool,
    pub action: Option<String>,
    pub actor_id: Option<String>,
}

/// What the monitor decides about one event.
pub enum EventClass {
    /// A container stopped unexpectedly: run the restart decision for it.
    Stop { id: String },
    /// A container started: clear its failure history and refresh its entry.
    Start { id: String },
    /// Anything else is ignored.
    Ignored,
}

/// The actions that mark a container as having stopped.
pub open spec fn is_stop_action(a: Seq<char>) -> bool {
    a == "die"@ || a == "stop"@ || a == "kill"@
}

/// Classify one engine event: a container-lifecycle event whose action is
/// `die`, `stop` or `kill` demands a restart decision; a `start` resets the
/// container's baseline; everything else is ignored.
pub fn classify_event(ev: EngineEvent) -> (r: EventClass)
    ensures
        match r {
            EventClass::Stop { id } => {
                &&& ev.container_event
                &&& ev.action.deep_view() matches Some(a) && is_stop_action(a)
                &&& ev.actor_id.deep_view() == Some(id@)
            },
            EventClass::Start { id } => {
                &&& ev.container_event
                &&& ev.action.deep_view() == Some("start"@)
                &&& ev.actor_id.deep_view() == Some(id@)
            },
            EventClass::Ignored => {
                ||| !ev.container_event
                ||| ev.action.deep_view() is None
                ||| ev.actor_id.deep_view() is None
                ||| (ev.action.deep_view() matches Some(a) && !is_stop_action(a) && a
                    != "start"@)
            },
        },
{
    if !ev.container_event {
        return EventClass::Ignored;
    }
    let action = match ev.action {
        Some(a) => a,
        None => {
            return EventClass::Ignored;
        },
    };
    let id = match ev.actor_id {
        Some(i) => i,
        None => {
            return EventClass::Ignored;
        },
    };
    let a = action.as_str();
    if str_eq(a, "die") || str_eq(a, "stop") || str_eq(a, "kill") {
        EventClass::Stop { id }
    } else if str_eq(a, "start") {
        EventClass::Start { id }
    } else {
        EventClass::Ignored
    }
}

/// What the engine reports about one container in a listing.
pub struct ContainerSummary {
    pub id: Option<String>,
    pub image: Option<String>,
}

/// Mathematical image of a `ContainerSummary`.
#[verifier::ext_equal]
pub struct SummaryView {
    pub id: Option<Seq<char>>,
    pub image: Option<Seq<char>>,
}

impl View for ContainerSummary {
    type V = SummaryView;

    open spec fn view(&self) -> SummaryView {
        SummaryView { id: self.id.deep_view(), image: self.image.deep_view() }
    }
}

impl DeepView for ContainerSummary {
    type V = SummaryView;

    open spec fn deep_view(&self) -> SummaryView {
        self.view()
    }
}

/// The ids the startup sweep will try to heal, in listing order: every
/// summary that carries an id.
pub open spec fn spec_sweep_ids(l: Seq<SummaryView>) -> Seq<Seq<char>>
    decreases l.len(),
{
    if l.len() == 0 {
        Seq::empty()
    } else {
        spec_sweep_ids(l.drop_last()) + (match l.last().id {
            Some(id) => seq![id],
            None => Seq::empty(),
        })
    }
}

/// Plan the startup sweep over a listing of stopped containers: the ids to
/// run the restart decision for, a pure function of the listing alone. Run
/// twice on the same engine state it plans the same attempts.
pub fn sweep_ids(containers: &Vec<ContainerSummary>) -> (r: Vec<String>)
    ensures
        r.deep_view() == spec_sweep_ids(containers.deep_view()),
{
    let mut out: Vec<String> = Vec::new();
    let mut i: usize = 0;
    while i < containers.len()
        invariant
            i <= containers@.len(),
            out.deep_view() == spec_sweep_ids(containers.deep_view().take(i as int)),
        decreases containers@.len() - i,
    {
        let ghost prefix = containers.deep_view().take(i as int);
        match &containers[i] {
            ContainerSummary { id: Some(id), image: _ } => {
                out.push(id.clone());
            },
            _ => (),
        }
        i = i + 1;
        proof {
            let stepped = containers.deep_view().take(i as int);
            assert(stepped.drop_last() =~= prefix);
            assert(stepped.last() == containers.deep_view()[i - 1]);
            assert(out.deep_view() =~= spec_sweep_ids(stepped));
        }
    }
    proof {
        assert(containers.deep_view().take(containers@.len() as int) =~= containers.deep_view());
    }
    out
}

/// One named network a container is attached to, and the address the engine
/// reports on it.
pub struct NetworkEntry {
    pub name: String,
    pub ip_address: Option<String>,
}

/// Mathematical image of a `NetworkEntry`.
#[verifier::ext_equal]
pub struct NetworkEntryView {
    pub name: Seq<char>,
    pub ip_address: Option<Seq<char>>,
}

impl View for NetworkEntry {
    type V = NetworkEntryView;

    open spec fn view(&self) -> NetworkEntryView {
        NetworkEntryView { name: self.name@, ip_address: self.ip_address.deep_view() }
    }
}

impl DeepView for NetworkEntry {
    type V = NetworkEntryView;

    open spec fn deep_view(&self) -> NetworkEntryView {
        self.view()
    }
}

/// The address of the first entry named `bridge`, if such an entry exists:
/// whatever it holds, even nothing.
pub open spec fn spec_bridge_ip(l: Seq<NetworkEntryView>) -> Option<Option<Seq<char>>>
    decreases l.len(),
{
    if l.len() == 0 {
        None
    } else if l.first().name == "bridge"@ {
        Some(l.first().ip_address)
    } else {
        spec_bridge_ip(l.drop_first())
    }
}

/// The first non-empty address among the entries, if any.
pub open spec fn spec_first_nonempty_ip(l: Seq<NetworkEntryView>) -> Option<Seq<char>>
    decreases l.len(),
{
    if l.len() == 0 {
        None
    } else {
        match l.first().ip_address {
            Some(ip) => if ip.len() > 0 {
                Some(ip)
            } else {
                spec_first_nonempty_ip(l.drop_first())
            },
            None => spec_first_nonempty_ip(l.drop_first()),
        }
    }
}

/// The address picked for a container: the bridge network's, if a bridge
/// entry exists; otherwise the first non-empty address in listing order.
pub open spec fn spec_select_ip(l: Seq<NetworkEntryView>) -> Option<Seq<char>> {
    match spec_bridge_ip(l) {
        Some(ip) => ip,
        None => spec_first_nonempty_ip(l),
    }
}

proof fn lemma_bridge_ip_skip(l: Seq<NetworkEntryView>, i: int)
    requires
        0 <= i <= l.len(),
        forall|j: int| 0 <= j < i ==> (#[trigger] l[j]).name != "bridge"@,
    ensures
        spec_bridge_ip(l) == spec_bridge_ip(l.skip(i)),
    decreases i,
{
    if i > 0 {
        lemma_bridge_ip_skip(l.drop_first(), i - 1);
        assert(l.drop_first().skip(i - 1) =~= l.skip(i));
    } else {
        assert(l.skip(0) =~= l);
    }
}

proof fn lemma_first_ip_skip(l: Seq<NetworkEntryView>, i: int)
    requires
        0 <= i <= l.len(),
        forall|j: int|
            0 <= j < i ==> match (#[trigger] l[j]).ip_address {
                Some(ip) => ip.len() == 0,
                None => true,
            },
    ensures
        spec_first_nonempty_ip(l) == spec_first_nonempty_ip(l.skip(i)),
    decreases i,
{
    if i > 0 {
        lemma_first_ip_skip(l.drop_first(), i - 1);
        assert(l.drop_first().skip(i - 1) =~= l.skip(i));
    } else {
        assert(l.skip(0) =~= l);
    }
}

/// Pick a container's best-effort address from the networks the engine
/// reports: prefer the `bridge` network, else take the first non-empty
/// address.
pub fn select_ip(networks: &Vec<NetworkEntry>) -> (r: Option<String>)
    ensures
        r.deep_view() == spec_select_ip(networks.deep_view()),
{
    let ghost l = networks.deep_view();
    let mut i: usize = 0;
    while i < networks.len()
        invariant
            l == networks.deep_view(),
            i <= networks@.len(),
            l.len() == networks@.len(),
            forall|j: int| 0 <= j < i ==> (#[trigger] l[j]).name != "bridge"@,
        decreases networks@.len() - i,
    {
        if str_eq(networks[i].name.as_str(), "bridge") {
            proof {
                lemma_bridge_ip_skip(l, i as int);
                assert(l.skip(i as int).first() == l[i as int]);
            }
            return crate::models::clone_opt_string(&networks[i].ip_address);
        }
        i = i + 1;
    }
    proof {
        lemma_bridge_ip_skip(l, l.len() as int);
        assert(l.skip(l.len() as int) =~= Seq::<NetworkEntryView>::empty());
    }
    let mut k: usize = 0;
    while k < networks.len()
        invariant
            l == networks.deep_view(),
            k <= networks@.len(),
            l.len() == networks@.len(),
            spec_bridge_ip(l) is None,
            forall|j: int|
                0 <= j < k ==> match (#[trigger] l[j]).ip_address {
                    Some(ip) => ip.len() == 0,
                    None => true,
                },
        decreases networks@.len() - k,
    {
        match &networks[k].ip_address {
            Some(ip) => {
                if !ip.as_str().is_empty() {
                    proof {
                        lemma_first_ip_skip(l, k as int);
                        assert(l.skip(k as int).first() == l[k as int]);
                    }
                    return Some(ip.clone());
                }
            },
            None => (),
        }
        k = k + 1;
    }
    proof {
        lemma_first_ip_skip(l, l.len() as int);
        assert(l.skip(l.len() as int) =~= Seq::<NetworkEntryView>::empty());
    }
    None
}

/// The reconciliation core: the configuration store and the per-container
/// restart bookkeeping, advanced by the decisions below. The surrounding
/// program owns one of these behind its own lock and performs the engine
/// calls the decisions ask for.
pub struct ContainerMonitor {
    configs: ConfigStore,
    records: RestartDebouncer,
}

impl ContainerMonitor {
    /// Both parts are well-formed.
    pub closed spec fn wf(&self) -> bool {
        self.configs.wf() && self.records.wf()
    }

    /// The store's meaning: container id to configuration view.
    pub closed spec fn configs_view(&self) -> Map<Seq<char>, ConfigView> {
        self.configs@
    }

    /// The bookkeeping's meaning: container id to restart record.
    pub closed spec fn records_view(&self) -> Map<Seq<char>, RestartRecord> {
        self.records@
    }

    /// A monitor that knows nothing yet.
    pub fn new() -> (r: Self)
        ensures
            r.wf(),
            r.configs_view() == Map::<Seq<char>, ConfigView>::empty(),
            r.records_view() == Map::<Seq<char>, RestartRecord>::empty(),
    {
        ContainerMonitor { configs: ConfigStore::new(), records: RestartDebouncer::new() }
    }

    /// A point-in-time copy of every known configuration.
    pub fn get_container_configs(&self) -> (r: Vec<ContainerConfig>)
        requires
            self.wf(),
        ensures
            r@.len() == self.configs_view().dom().len(),
            forall|i: int|
                0 <= i < r@.len() ==> self.configs_view().contains_key(
                    (#[trigger] r@[i])@.container_id,
                ) && r@[i]@ == self.configs_view()[r@[i]@.container_id],
            forall|k: Seq<char>|
                self.configs_view().contains_key(k) ==> exists|i: int|
                    0 <= i < r@.len() && (#[trigger] r@[i])@.container_id == k,
            forall|i: int, j: int|
                0 <= i < j < r@.len() ==> (#[trigger] r@[i])@.container_id
                    != (#[trigger] r@[j])@.container_id,
    {
        self.configs.all()
    }

    /// A point-in-time copy of the configuration stored for `id`, if any.
    pub fn get_config(&self, id: &str) -> (r: Option<ContainerConfig>)
        requires
            self.wf(),
        ensures
            match r {
                Some(c) => self.configs_view().contains_key(id@) && c@ == self.configs_view()[id@],
                None => !self.configs_view().contains_key(id@),
            },
    {
        self.configs.snapshot(id)
    }

    /// The status string shown for a container: what the engine's inspect
    /// reported, or `unknown` when it reported nothing.
    pub fn get_container_status(status: Option<String>) -> (r: String)
        ensures
            r@ == match status.deep_view() {
                Some(s) => s,
                None => "unknown"@,
            },
    {
        match status {
            Some(s) => s,
            None => String::from_str("unknown"),
        }
    }

    /// Judge a health probe of the engine connection: a failed probe is the
    /// connection error, recoverable on the next probe.
    pub fn ensure_connection(healthy: bool) -> (r: Result<(), CoreError>)
        ensures
            healthy ==> r is Ok,
            !healthy ==> r == Err::<(), CoreError>(CoreError::Connection),
    {
        if healthy {
            Ok(())
        } else {
            Err(CoreError::Connection)
        }
    }

    /// Record a configuration discovered by the startup enumeration. The
    /// initial load is idempotent: an id already known keeps its entry, so a
    /// concurrent in-flight restart's update is never clobbered.
    pub fn load_initial(&mut self, cfg: ContainerConfig) -> (added: bool)
        requires
            old(self).wf(),
        ensures
            final(self).wf(),
            added == !old(self).configs_view().contains_key(cfg@.container_id),
            added ==> final(self).configs_view() == old(self).configs_view().insert(
                cfg@.container_id,
                cfg@,
            ),
            !added ==> final(self).configs_view() == old(self).configs_view(),
            final(self).records_view() == old(self).records_view(),
    {
        self.configs.insert_if_absent(cfg)
    }

    /// Insert or replace the entry for a container just inspected, created
    /// or restarted in place.
    pub fn refresh_config(&mut self, cfg: ContainerConfig)
        requires
            old(self).wf(),
        ensures
            final(self).wf(),
            final(self).configs_view() == old(self).configs_view().insert(
                cfg@.container_id,
                cfg@,
            ),
            final(self).records_view() == old(self).records_view(),
    {
        self.configs.upsert(cfg)
    }

    /// A container stopped at time `now`: advance its restart record and
    /// return the attempt number this stop was given. The restart itself is
    /// always attempted; the count never suppresses it.
    pub fn on_stop_event(&mut self, id: &str, now: u64) -> (count: u32)
        requires
            old(self).wf(),
        ensures
            final(self).wf(),
            final(self).records_view() == old(self).records_view().insert(
                id@,
                spec_note_stop(
                    if old(self).records_view().contains_key(id@) {
                        Some(old(self).records_view()[id@])
                    } else {
                        None
                    },
                    now,
                ),
            ),
            count == final(self).records_view()[id@].restart_count,
            final(self).configs_view() == old(self).configs_view(),
    {
        self.records.note_stop(id, now)
    }

    /// A container started: its failure history is forgotten, and when a
    /// fresh inspect is handed in, its stored configuration is refreshed.
    pub fn on_start_event(&mut self, id: &str, fresh: Option<ContainerConfig>)
        requires
            old(self).wf(),
        ensures
            final(self).wf(),
            final(self).records_view() == old(self).records_view().remove(id@),
            final(self).configs_view() == match fresh.deep_view() {
                Some(c) => old(self).configs_view().insert(c.container_id, c),
                None => old(self).configs_view(),
            },
    {
        self.records.clear(id);
        match fresh {
            Some(cfg) => self.configs.upsert(cfg),
            None => (),
        }
    }

    /// The restart record currently held for `id`, if any.
    pub fn restart_record(&self, id: &str) -> (r: Option<RestartRecord>)
        requires
            self.wf(),
        ensures
            match r {
                Some(rec) => self.records_view().contains_key(id@) && rec
                    == self.records_view()[id@],
                None => !self.records_view().contains_key(id@),
            },
    {
        self.records.get(id)
    }

    /// Open the recreate workflow for `id` from its stored configuration;
    /// a container the store does not know cannot be rebuilt.
    pub fn begin_restart(&self, id: &str) -> (r: Result<
        (crate::restart::RecreateWorkflow, crate::restart::EngineOp),
        CoreError,
    >)
        requires
            self.wf(),
        ensures
            match r {
                Ok(pair) => {
                    &&& self.configs_view().contains_key(id@)
                    &&& pair.0@ == (crate::restart::WorkflowView {
                        old_id: id@,
                        config: self.configs_view()[id@],
                        state: crate::restart::WfState::Stopping,
                    })
                    &&& pair.1@ == (crate::restart::EngineOpView::Stop {
                        id: id@,
                        timeout_secs: crate::restart::STOP_TIMEOUT_SECS,
                    })
                },
                Err(e) => e == CoreError::NotFound && !self.configs_view().contains_key(id@),
            },
    {
        match self.configs.snapshot(id) {
            Some(cfg) => Ok(crate::restart::RecreateWorkflow::begin(id.to_owned(), cfg)),
            None => Err(CoreError::NotFound),
        }
    }

    /// A recreate-strategy restart of `old_id` succeeded and produced
    /// `new_id`: migrate the store entry atomically, carrying name, image and
    /// configuration forward under the new id.
    pub fn complete_restart(&mut self, old_id: &str, new_id: String, ip: Option<String>) -> (r:
        Result<(), CoreError>)
        requires
            old(self).wf(),
        ensures
            final(self).wf(),
            final(self).records_view() == old(self).records_view(),
            match r {
                Ok(()) => old(self).configs_view().contains_key(old_id@)
                    && final(self).configs_view() == old(self).configs_view().remove(
                    old_id@,
                ).insert(
                    new_id@,
                    migrated_view(old(self).configs_view()[old_id@], new_id@, ip.deep_view()),
                ),
                Err(e) => {
                    &&& e == CoreError::NotFound
                    &&& !old(self).configs_view().contains_key(old_id@)
                    &&& final(self).configs_view() == old(self).configs_view()
                },
            },
    {
        self.configs.migrate(old_id, new_id, ip)
    }

    /// Conclude a remove operation: the entry is deleted only once the
    /// engine has confirmed the container is gone; an engine failure leaves
    /// the store untouched and surfaces as the error.
    pub fn finish_remove(&mut self, id: &str, engine_result: Result<(), CoreError>) -> (r: Result<
        (),
        CoreError,
    >)
        requires
            old(self).wf(),
        ensures
            final(self).wf(),
            final(self).records_view() == old(self).records_view(),
            match engine_result {
                Ok(()) => r is Ok && final(self).configs_view() == old(self).configs_view().remove(
                    id@,
                ),
                Err(e) => r == Err::<(), CoreError>(e) && final(self).configs_view()
                    == old(self).configs_view(),
            },
    {
        match engine_result {
            Ok(()) => {
                self.configs.remove(id);
                Ok(())
            },
            Err(e) => Err(e),
        }
    }
}

} // verus!
