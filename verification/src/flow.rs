//! Flow status: the ordered per-module states of a flow job, the current
//! step pointer, and the approval conditions a suspended step may declare.

use vstd::prelude::*;

verus! {

/// One granted approval, as recorded on a module or a resume record.
pub struct Approval {
    pub resume_id: u16,
    pub approver: String,
}

/// The state of one module of a flow. Each module carries the stable name
/// the flow definition gives the step, under which callers address it.
pub enum FlowStatusModule {
    /// The module has not started: prior steps are still running.
    WaitingForPriorSteps { id: String },
    /// The module's job is executing.
    InProgress { id: String, job: u128 },
    /// The module is suspended until `count` external approvals arrive for
    /// its job.
    WaitingForEvents { id: String, job: u128, count: u32 },
    /// The module finished successfully.
    Success { id: String, job: u128, approvers: Vec<Approval> },
    /// The module failed.
    Failure { id: String, job: u128 },
}

impl FlowStatusModule {
    /// The stable name of the step this module state belongs to.
    pub open spec fn spec_id(&self) -> String {
        match self {
            FlowStatusModule::WaitingForPriorSteps { id } => *id,
            FlowStatusModule::InProgress { id, .. } => *id,
            FlowStatusModule::WaitingForEvents { id, .. } => *id,
            FlowStatusModule::Success { id, .. } => *id,
            FlowStatusModule::Failure { id, .. } => *id,
        }
    }

    /// The stable name of the step this module state belongs to.
    pub fn module_id(&self) -> (r: &String)
        ensures
            *r == self.spec_id(),
    {
        match self {
            FlowStatusModule::WaitingForPriorSteps { id } => id,
            FlowStatusModule::InProgress { id, .. } => id,
            FlowStatusModule::WaitingForEvents { id, .. } => id,
            FlowStatusModule::Success { id, .. } => id,
            FlowStatusModule::Failure { id, .. } => id,
        }
    }

    /// The stable name of the step, taking the module.
    pub fn into_module_id(self) -> (r: String)
        ensures
            r == self.spec_id(),
    {
        match self {
            FlowStatusModule::WaitingForPriorSteps { id } => id,
            FlowStatusModule::InProgress { id, .. } => id,
            FlowStatusModule::WaitingForEvents { id, .. } => id,
            FlowStatusModule::Success { id, .. } => id,
            FlowStatusModule::Failure { id, .. } => id,
        }
    }

    /// The job this module state refers to, if any.
    pub open spec fn spec_job(&self) -> Option<u128> {
        match self {
            FlowStatusModule::WaitingForPriorSteps { .. } => None,
            FlowStatusModule::InProgress { job, .. } => Some(*job),
            FlowStatusModule::WaitingForEvents { job, .. } => Some(*job),
            FlowStatusModule::Success { job, .. } => Some(*job),
            FlowStatusModule::Failure { job, .. } => Some(*job),
        }
    }

    /// The job this module state refers to, if any.
    pub fn job(&self) -> (r: Option<u128>)
        ensures
            r == self.spec_job(),
    {
        match self {
            FlowStatusModule::WaitingForPriorSteps { .. } => None,
            FlowStatusModule::InProgress { job, .. } => Some(*job),
            FlowStatusModule::WaitingForEvents { job, .. } => Some(*job),
            FlowStatusModule::Success { job, .. } => Some(*job),
            FlowStatusModule::Failure { job, .. } => Some(*job),
        }
    }

    /// Whether this module waits on `job`'s approvals.
    pub open spec fn spec_waits_on(&self, job_id: u128) -> bool {
        match self {
            FlowStatusModule::WaitingForEvents { job, .. } => *job == job_id,
            _ => false,
        }
    }

    /// Whether this module waits on `job_id`'s approvals.
    pub fn waits_on(&self, job_id: u128) -> (r: bool)
        ensures
            r == self.spec_waits_on(job_id),
    {
        match self {
            FlowStatusModule::WaitingForEvents { job, .. } => *job == job_id,
            _ => false,
        }
    }
}

/// The approval policy a suspended step may declare.
pub struct ApprovalConditions {
    /// Anonymous callers are rejected.
    pub user_auth_required: bool,
    /// A non-admin approver must belong to at least one of these groups.
    pub user_groups_required: Vec<String>,
    /// The identity that triggered the flow may not approve its own step.
    pub self_approval_disabled: bool,
}

/// The nested module-state tree of a flow job.
pub struct FlowStatus {
    /// The index of the module the orchestrator is currently at.
    pub step: usize,
    /// Per-module states, in flow order.
    pub modules: Vec<FlowStatusModule>,
    /// The approval policy, if the suspended step declares one.
    pub approval_conditions: Option<ApprovalConditions>,
}

impl FlowStatus {
    /// The state of the module at the current step pointer, if the pointer
    /// is in range.
    pub open spec fn spec_current_step(&self) -> Option<FlowStatusModule> {
        if self.step < self.modules@.len() {
            Some(self.modules@[self.step as int])
        } else {
            None
        }
    }

    /// The state of the module at the current step pointer.
    pub fn current_step(&self) -> (r: Option<&FlowStatusModule>)
        ensures
            match r {
                Some(m) => self.spec_current_step() == Some(*m),
                None => self.spec_current_step() is None,
            },
    {
        if self.step < self.modules.len() {
            Some(&self.modules[self.step])
        } else {
            None
        }
    }

    /// Whether the current step waits on approvals for `job_id`.
    pub open spec fn spec_waiting_on(&self, job_id: u128) -> bool {
        match self.spec_current_step() {
            Some(m) => m.spec_waits_on(job_id),
            None => false,
        }
    }

    /// Whether the flow has not begun orchestrating: the current step is the
    /// first module and it is still waiting for prior steps. The check is
    /// made against the current step pointer, not a hardcoded first module,
    /// so a flow restarted mid-way is never misclassified as never-started.
    pub open spec fn spec_never_started(&self) -> bool {
        self.step == 0 && (self.spec_current_step() matches Some(m)
            && m is WaitingForPriorSteps)
    }

    /// Whether the flow has not begun orchestrating.
    pub fn never_started(&self) -> (r: bool)
        ensures
            r == self.spec_never_started(),
    {
        if self.step != 0 {
            return false;
        }
        match self.current_step() {
            Some(m) => matches!(m, FlowStatusModule::WaitingForPriorSteps { .. }),
            None => false,
        }
    }
}

} // verus!
