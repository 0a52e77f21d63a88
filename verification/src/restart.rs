//! The restart workflow, recreate strategy: stop the container (escalating to
//! kill when the stop fails), let it settle, remove it, create a fresh
//! container from the stored configuration under the original name, start it,
//! and after a short delay inspect it to confirm it is running. Every step's
//! engine call is performed by the surrounding program; this module is the
//! state machine that decides, from each call's result, the next call or the
//! workflow's outcome.
use vstd::prelude::*;

use crate::models::{ConfigView, ContainerConfig, CoreError};
use crate::store::ConfigStore;

verus! {

/// Seconds the engine is given to stop a container before the workflow
/// escalates to kill.
pub const STOP_TIMEOUT_SECS: u64 = 10;

/// Seconds the workflow waits after a stop or kill before removing the
/// container.
pub const SETTLE_DELAY_SECS: u64 = 2;

/// Seconds the workflow waits after starting the new container before
/// inspecting it.
pub const VERIFY_DELAY_SECS: u64 = 2;

/// One engine call the surrounding program must perform for the workflow.
pub enum EngineOp {
    /// Stop the container, bounded by the timeout.
    Stop { id: String, timeout_secs: u64 },
    /// Kill the container outright.
    Kill { id: String },
    /// Sleep for the given number of seconds.
    Wait { secs: u64 },
    /// Remove the container.
    Remove { id: String, force: bool },
    /// Create a container under `name` from the carried configuration; the
    /// engine answers with the new container's id.
    Create { name: String, config: ContainerConfig },
    /// Start the container.
    Start { id: String },
    /// Inspect the container; the engine answers whether it is running.
    Inspect { id: String },
}

/// Mathematical image of an `EngineOp`.
#[verifier::ext_equal]
pub enum EngineOpView {
    Stop { id: Seq<char>, timeout_secs: u64 },
    Kill { id: Seq<char> },
    Wait { secs: u64 },
    Remove { id: Seq<char>, force: bool },
    Create { name: Seq<char>, config: ConfigView },
    Start { id: Seq<char> },
    Inspect { id: Seq<char> },
}

impl View for EngineOp {
    type V = EngineOpView;

    open spec fn view(&self) -> EngineOpView {
        match self {
            EngineOp::Stop { id, timeout_secs } => EngineOpView::Stop {
                id: id@,
                timeout_secs: *timeout_secs,
            },
            EngineOp::Kill { id } => EngineOpView::Kill { id: id@ },
            EngineOp::Wait { secs } => EngineOpView::Wait { secs: *secs },
            EngineOp::Remove { id, force } => EngineOpView::Remove { id: id@, force: *force },
            EngineOp::Create { name, config } => EngineOpView::Create {
                name: name@,
                config: config@,
            },
            EngineOp::Start { id } => EngineOpView::Start { id: id@ },
            EngineOp::Inspect { id } => EngineOpView::Inspect { id: id@ },
        }
    }
}

impl DeepView for EngineOp {
    type V = EngineOpView;

    open spec fn deep_view(&self) -> EngineOpView {
        self.view()
    }
}

/// What the engine answered to the last operation.
pub enum EngineReply {
    /// A stop, kill, remove or start call finished; `ok` says whether it
    /// succeeded.
    Completed { ok: bool },
    /// The requested wait elapsed.
    Waited,
    /// A create call finished: the new container's id, or nothing on failure.
    Created { new_id: Option<String> },
    /// An inspect call finished: whether the container is running, or
    /// nothing when the inspect itself failed.
    Inspected { running: Option<bool> },
}

/// Mathematical image of an `EngineReply`.
#[verifier::ext_equal]
pub enum EngineReplyView {
    Completed { ok: bool },
    Waited,
    Created { new_id: Option<Seq<char>> },
    Inspected { running: Option<bool> },
}

impl View for EngineReply {
    type V = EngineReplyView;

    open spec fn view(&self) -> EngineReplyView {
        match self {
            EngineReply::Completed { ok } => EngineReplyView::Completed { ok: *ok },
            EngineReply::Waited => EngineReplyView::Waited,
            EngineReply::Created { new_id } => EngineReplyView::Created {
                new_id: new_id.deep_view(),
            },
            EngineReply::Inspected { running } => EngineReplyView::Inspected { running: *running },
        }
    }
}

/// Where the workflow stands. States that carry an id carry the new
/// container's id, known once the create step has answered.
#[verifier::ext_equal]
pub enum WfState {
    /// The stop call is out.
    Stopping,
    /// The stop failed; the kill call is out.
    Killing,
    /// Stopped; waiting the settle delay before removing.
    Settling,
    /// The remove call is out.
    Removing,
    /// The create call is out.
    Creating,
    /// The start call for the new container is out.
    Starting { new_id: Seq<char> },
    /// Started; waiting the verification delay before inspecting.
    Verifying { new_id: Seq<char> },
    /// The inspect call for the new container is out.
    Inspecting { new_id: Seq<char> },
    /// The new container is confirmed running.
    Succeeded { new_id: Seq<char> },
    /// Some step failed; the container stays eligible for the next stop
    /// event or sweep.
    Failed { error: CoreError },
}

/// Whether the workflow has ended.
pub open spec fn is_terminal(s: WfState) -> bool {
    s is Succeeded || s is Failed
}

/// The reply shape each non-terminal state awaits.
pub open spec fn reply_fits(s: WfState, r: EngineReplyView) -> bool {
    match s {
        WfState::Stopping => r is Completed,
        WfState::Killing => r is Completed,
        WfState::Settling => r is Waited,
        WfState::Removing => r is Completed,
        WfState::Creating => r is Created,
        WfState::Starting { .. } => r is Completed,
        WfState::Verifying { .. } => r is Waited,
        WfState::Inspecting { .. } => r is Inspected,
        WfState::Succeeded { .. } => false,
        WfState::Failed { .. } => false,
    }
}

/// The transition relation of the recreate workflow: from a state and the
/// engine's reply to the next state. A failed stop escalates to kill; a
/// failed kill, remove, create or start fails the workflow; an inspect that
/// cannot be made fails it as an inspect error; an inspect that does not
/// report the container running fails it as a verification error.
pub open spec fn wf_next(s: WfState, r: EngineReplyView) -> WfState
    recommends
        reply_fits(s, r),
{
    match (s, r) {
        (WfState::Stopping, EngineReplyView::Completed { ok }) => if ok {
            WfState::Settling
        } else {
            WfState::Killing
        },
        (WfState::Killing, EngineReplyView::Completed { ok }) => if ok {
            WfState::Settling
        } else {
            WfState::Failed { error: CoreError::Workflow }
        },
        (WfState::Settling, EngineReplyView::Waited) => WfState::Removing,
        (WfState::Removing, EngineReplyView::Completed { ok }) => if ok {
            WfState::Creating
        } else {
            WfState::Failed { error: CoreError::Workflow }
        },
        (WfState::Creating, EngineReplyView::Created { new_id }) => match new_id {
            Some(id) => WfState::Starting { new_id: id },
            None => WfState::Failed { error: CoreError::Workflow },
        },
        (WfState::Starting { new_id }, EngineReplyView::Completed { ok }) => if ok {
            WfState::Verifying { new_id }
        } else {
            WfState::Failed { error: CoreError::Workflow }
        },
        (WfState::Verifying { new_id }, EngineReplyView::Waited) => WfState::Inspecting { new_id },
        (WfState::Inspecting { new_id }, EngineReplyView::Inspected { running }) => match running {
            Some(true) => WfState::Succeeded { new_id },
            Some(false) => WfState::Failed { error: CoreError::Verification },
            None => WfState::Failed { error: CoreError::Inspect },
        },
        _ => s,
    }
}

/// The engine call a state asks for; terminal states ask for nothing.
pub open spec fn op_for(s: WfState, old_id: Seq<char>, cfg: ConfigView) -> Option<EngineOpView> {
    match s {
        WfState::Stopping => Some(
            EngineOpView::Stop { id: old_id, timeout_secs: STOP_TIMEOUT_SECS },
        ),
        WfState::Killing => Some(EngineOpView::Kill { id: old_id }),
        WfState::Settling => Some(EngineOpView::Wait { secs: SETTLE_DELAY_SECS }),
        WfState::Removing => Some(EngineOpView::Remove { id: old_id, force: true }),
        WfState::Creating => Some(EngineOpView::Create { name: cfg.name, config: cfg }),
        WfState::Starting { new_id } => Some(EngineOpView::Start { id: new_id }),
        WfState::Verifying { .. } => Some(EngineOpView::Wait { secs: VERIFY_DELAY_SECS }),
        WfState::Inspecting { new_id } => Some(EngineOpView::Inspect { id: new_id }),
        WfState::Succeeded { .. } => None,
        WfState::Failed { .. } => None,
    }
}

/// Mathematical image of a `RecreateWorkflow`.
#[verifier::ext_equal]
pub struct WorkflowView {
    pub old_id: Seq<char>,
    pub config: ConfigView,
    pub state: WfState,
}

enum Phase {
    Stopping,
    Killing,
    Settling,
    Removing,
    Creating,
    Starting { new_id: String },
    Verifying { new_id: String },
    Inspecting { new_id: String },
    Succeeded { new_id: String },
    Failed { error: CoreError },
}

spec fn phase_view(p: Phase) -> WfState {
    match p {
        Phase::Stopping => WfState::Stopping,
        Phase::Killing => WfState::Killing,
        Phase::Settling => WfState::Settling,
        Phase::Removing => WfState::Removing,
        Phase::Creating => WfState::Creating,
        Phase::Starting { new_id } => WfState::Starting { new_id: new_id@ },
        Phase::Verifying { new_id } => WfState::Verifying { new_id: new_id@ },
        Phase::Inspecting { new_id } => WfState::Inspecting { new_id: new_id@ },
        Phase::Succeeded { new_id } => WfState::Succeeded { new_id: new_id@ },
        Phase::Failed { error } => WfState::Failed { error },
    }
}

/// A restart in flight: the id being replaced, the stored configuration the
/// new container is built from, and where the workflow stands.
pub struct RecreateWorkflow {
    old_id: String,
    config: ContainerConfig,
    phase: Phase,
}

impl View for RecreateWorkflow {
    type V = WorkflowView;

    closed spec fn view(&self) -> WorkflowView {
        WorkflowView { old_id: self.old_id@, config: self.config@, state: phase_view(self.phase) }
    }
}

impl RecreateWorkflow {
    /// Open a restart of `old_id` from its stored configuration. The first
    /// engine call is the bounded stop.
    pub fn begin(old_id: String, config: ContainerConfig) -> (r: (RecreateWorkflow, EngineOp))
        ensures
            r.0@ == (WorkflowView { old_id: old_id@, config: config@, state: WfState::Stopping }),
            r.1@ == (EngineOpView::Stop { id: old_id@, timeout_secs: STOP_TIMEOUT_SECS }),
    {
        let op = EngineOp::Stop { id: old_id.clone(), timeout_secs: STOP_TIMEOUT_SECS };
        (RecreateWorkflow { old_id, config, phase: Phase::Stopping }, op)
    }

    /// The id of the container being replaced.
    pub fn original_id(&self) -> (r: &str)
        ensures
            r@ == self@.old_id,
    {
        self.old_id.as_str()
    }

    /// Feed the engine's reply to the awaited call and get the next call to
    /// perform, or nothing once the workflow has ended.
    pub fn step(&mut self, reply: EngineReply) -> (op: Option<EngineOp>)
        requires
            !is_terminal(old(self)@.state),
            reply_fits(old(self)@.state, reply@),
        ensures
            final(self)@.old_id == old(self)@.old_id,
            final(self)@.config == old(self)@.config,
            final(self)@.state == wf_next(old(self)@.state, reply@),
            op.deep_view() == op_for(final(self)@.state, old(self)@.old_id, old(self)@.config),
    {
        let op: Option<EngineOp>;
        let next: Phase;
        match (&self.phase, reply) {
            (Phase::Stopping, EngineReply::Completed { ok }) => {
                if ok {
                    next = Phase::Settling;
                    op = Some(EngineOp::Wait { secs: SETTLE_DELAY_SECS });
                } else {
                    next = Phase::Killing;
                    op = Some(EngineOp::Kill { id: self.old_id.clone() });
                }
            },
            (Phase::Killing, EngineReply::Completed { ok }) => {
                if ok {
                    next = Phase::Settling;
                    op = Some(EngineOp::Wait { secs: SETTLE_DELAY_SECS });
                } else {
                    next = Phase::Failed { error: CoreError::Workflow };
                    op = None;
                }
            },
            (Phase::Settling, EngineReply::Waited) => {
                next = Phase::Removing;
                op = Some(EngineOp::Remove { id: self.old_id.clone(), force: true });
            },
            (Phase::Removing, EngineReply::Completed { ok }) => {
                if ok {
                    next = Phase::Creating;
                    op = Some(
                        EngineOp::Create { name: self.config.name.clone(), config: self.config.clone() },
                    );
                } else {
                    next = Phase::Failed { error: CoreError::Workflow };
                    op = None;
                }
            },
            (Phase::Creating, EngineReply::Created { new_id }) => {
                match new_id {
                    Some(id) => {
                        op = Some(EngineOp::Start { id: id.clone() });
                        next = Phase::Starting { new_id: id };
                    },
                    None => {
                        next = Phase::Failed { error: CoreError::Workflow };
                        op = None;
                    },
                }
            },
            (Phase::Starting { new_id }, EngineReply::Completed { ok }) => {
                if ok {
                    next = Phase::Verifying { new_id: new_id.clone() };
                    op = Some(EngineOp::Wait { secs: VERIFY_DELAY_SECS });
                } else {
                    next = Phase::Failed { error: CoreError::Workflow };
                    op = None;
                }
            },
            (Phase::Verifying { new_id }, EngineReply::Waited) => {
                op = Some(EngineOp::Inspect { id: new_id.clone() });
                next = Phase::Inspecting { new_id: new_id.clone() };
            },
            (Phase::Inspecting { new_id }, EngineReply::Inspected { running }) => {
                match running {
                    Some(true) => {
                        next = Phase::Succeeded { new_id: new_id.clone() };
                        op = None;
                    },
                    Some(false) => {
                        next = Phase::Failed { error: CoreError::Verification };
                        op = None;
                    },
                    None => {
                        next = Phase::Failed { error: CoreError::Inspect };
                        op = None;
                    },
                }
            },
            _ => {
                proof {
                    assert(false);
                }
                next = Phase::Failed { error: CoreError::Workflow };
                op = None;
            },
        }
        self.phase = next;
        op
    }

    /// The workflow's outcome: the new container's id on success, the error
    /// on failure, nothing while it still runs.
    pub fn finished(&self) -> (r: Option<Result<String, CoreError>>)
        ensures
            match r {
                Some(Ok(id)) => self@.state == (WfState::Succeeded { new_id: id@ }),
                Some(Err(e)) => self@.state == (WfState::Failed { error: e }),
                None => !is_terminal(self@.state),
            },
    {
        match &self.phase {
            Phase::Succeeded { new_id } => Some(Ok(new_id.clone())),
            Phase::Failed { error } => Some(Err(*error)),
            _ => None,
        }
    }
}

/// The restart side of the supervisor as the surrounding program drives it:
/// its own idempotent snapshot of container configurations, and the workflow
/// constructor the stop handler dispatches.
pub struct ContainerRestarter {
    configs: ConfigStore,
}

impl ContainerRestarter {
    /// The snapshot's meaning: container id to configuration view.
    pub closed spec fn configs_view(&self) -> Map<Seq<char>, ConfigView> {
        self.configs@
    }

    /// The snapshot is well-formed.
    pub closed spec fn wf(&self) -> bool {
        self.configs.wf()
    }

    /// A restarter that knows nothing yet.
    pub fn new() -> (r: Self)
        ensures
            r.wf(),
            r.configs_view() == Map::<Seq<char>, ConfigView>::empty(),
    {
        ContainerRestarter { configs: ConfigStore::new() }
    }

    /// Remember a container's configuration unless one is already held for
    /// its id: later saves never clobber an earlier snapshot.
    pub fn save_container_config(&mut self, cfg: ContainerConfig) -> (added: bool)
        requires
            old(self).wf(),
        ensures
            final(self).wf(),
            added == !old(self).configs_view().contains_key(cfg@.container_id),
            added ==> final(self).configs_view() == old(self).configs_view().insert(
                cfg@.container_id,
                cfg@,
            ),
            !added ==> final(self).configs_view() == old(self).configs_view(),
    {
        self.configs.insert_if_absent(cfg)
    }

    /// The configuration held for `id`, if any.
    pub fn get_config(&self, id: &str) -> (r: Option<ContainerConfig>)
        requires
            self.wf(),
        ensures
            match r {
                Some(c) => self.configs_view().contains_key(id@) && c@ == self.configs_view()[id@],
                None => !self.configs_view().contains_key(id@),
            },
    {
        self.configs.snapshot(id)
    }

    /// The status string shown for a container: what the engine's inspect
    /// reported, or `unknown` when it reported nothing.
    pub fn get_container_status(status: Option<String>) -> (r: String)
        ensures
            r@ == match status.deep_view() {
                Some(s) => s,
                None => "unknown"@,
            },
    {
        match status {
            Some(s) => s,
            None => String::from_str("unknown"),
        }
    }

    /// Open the recreate workflow for the container whose configuration is
    /// held under `id`; unknown ids cannot be restarted from memory.
    pub fn restart_container(&self, id: &str) -> (r: Result<(RecreateWorkflow, EngineOp), CoreError>)
        requires
            self.wf(),
        ensures
            match r {
                Ok(pair) => {
                    &&& self.configs_view().contains_key(id@)
                    &&& pair.0@ == (WorkflowView {
                        old_id: id@,
                        config: self.configs_view()[id@],
                        state: WfState::Stopping,
                    })
                    &&& pair.1@ == (EngineOpView::Stop {
                        id: id@,
                        timeout_secs: STOP_TIMEOUT_SECS,
                    })
                },
                Err(e) => e == CoreError::NotFound && !self.configs_view().contains_key(id@),
            },
    {
        match self.configs.snapshot(id) {
            Some(cfg) => Ok(RecreateWorkflow::begin(id.to_owned(), cfg)),
            None => Err(CoreError::NotFound),
        }
    }
}

} // verus!
