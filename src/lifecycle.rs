use vstd::prelude::*;
use crate::error::CoreError;
use crate::flag::{flag_of, has_placeholder, law_flags_unique, provision, provision_result};
use crate::model::{valid_containers, JudgeConfig, JudgeType, PodInfo, PortInfo};
use crate::planner::{is_plan_of, plan, ResourcePlan};
use crate::text::dec;

verus! {

/// Where an instance stands in its life.
#[derive(Clone, Copy, Debug, PartialEq, Eq, Structural)]
pub enum InstanceStatus {
    Pending,
    Running,
    Expiring,
    Terminated,
    Failed,
}

/// A call to the cluster's control plane on behalf of one instance.
#[derive(Clone, Copy, Debug, PartialEq, Eq, Structural)]
pub enum ClusterOp {
    CreateWorkload,
    CreateExposure,
    DeleteExposure,
    DeleteWorkload,
}

/// What the caller does next for an instance: perform a call and report its
/// outcome, or stop with success or an error.
#[derive(Clone, Copy, Debug, PartialEq, Eq, Structural)]
pub enum Step {
    Perform(ClusterOp),
    Done,
    Fail(CoreError),
}

/// Teardown attempts after which an expiring instance is given up as failed.
pub const MAX_TEARDOWN_ATTEMPTS: u32 = 3;

/// The lifecycle state of one instance: its status, which of its cluster
/// objects may exist (their creation was asked for and their deletion not
/// yet confirmed), the teardown attempts that failed, and the call whose
/// outcome is awaited.
#[derive(Clone, Copy, Debug, PartialEq, Eq, Structural)]
pub struct LifeState {
    pub status: InstanceStatus,
    pub workload_up: bool,
    pub exposure_up: bool,
    pub failures: u32,
    pub awaiting: Option<ClusterOp>,
}

/// Whether an instance counts as live for exclusivity.
pub open spec fn is_live(status: InstanceStatus) -> bool {
    status != InstanceStatus::Terminated && status != InstanceStatus::Failed
}

/// A terminated instance has no object left in the cluster.
pub open spec fn state_wf(s: LifeState) -> bool {
    s.status == InstanceStatus::Terminated ==> !s.workload_up && !s.exposure_up
}

/// The state of an instance that was just reserved: its workload's creation
/// is asked for and awaited.
pub open spec fn reserved_state() -> LifeState {
    LifeState {
        status: InstanceStatus::Pending,
        workload_up: true,
        exposure_up: false,
        failures: 0,
        awaiting: Some(ClusterOp::CreateWorkload),
    }
}

/// The next teardown call, exposure before workload; with nothing left the
/// instance is terminated.
pub open spec fn next_teardown(s: LifeState) -> (LifeState, Step) {
    if s.exposure_up {
        (LifeState { awaiting: Some(ClusterOp::DeleteExposure), ..s }, Step::Perform(ClusterOp::DeleteExposure))
    } else if s.workload_up {
        (LifeState { awaiting: Some(ClusterOp::DeleteWorkload), ..s }, Step::Perform(ClusterOp::DeleteWorkload))
    } else {
        (LifeState { status: InstanceStatus::Terminated, awaiting: None, ..s }, Step::Done)
    }
}

/// Stopping an instance.  A terminated instance is left as it is; one whose
/// start is under way cannot be stopped yet; otherwise teardown begins.
pub open spec fn stop_state(s: LifeState) -> (LifeState, Step) {
    if s.status == InstanceStatus::Terminated {
        (s, Step::Done)
    } else if s.status == InstanceStatus::Pending || s.awaiting is Some {
        (s, Step::Fail(CoreError::Conflict))
    } else {
        next_teardown(s)
    }
}

/// Expiring a running instance: it turns to expiring and teardown begins.
pub open spec fn expire_state(s: LifeState) -> (LifeState, Step) {
    if s.status == InstanceStatus::Running && s.awaiting is None {
        next_teardown(LifeState { status: InstanceStatus::Expiring, ..s })
    } else {
        (s, Step::Fail(CoreError::Conflict))
    }
}

/// The next rollback call of a failed start, exposure before workload; with
/// nothing left the start is reported failed.
pub open spec fn next_rollback(s: LifeState) -> (LifeState, Step) {
    if s.exposure_up {
        (LifeState { awaiting: Some(ClusterOp::DeleteExposure), ..s }, Step::Perform(ClusterOp::DeleteExposure))
    } else if s.workload_up {
        (LifeState { awaiting: Some(ClusterOp::DeleteWorkload), ..s }, Step::Perform(ClusterOp::DeleteWorkload))
    } else {
        (LifeState { status: InstanceStatus::Failed, awaiting: None, ..s }, Step::Fail(CoreError::ClusterUnavailable))
    }
}

/// The outcome of a call made while starting.  An object counts as present
/// from the moment its creation is asked for, since a creation that failed
/// or timed out may still have taken effect.  The instance runs once both
/// creations are confirmed; after a failure whatever may exist is deleted,
/// exposure first, before the start is reported failed.  A deletion that
/// fails ends the start at once, its object left to reclamation.
pub open spec fn start_reply(s: LifeState, op: ClusterOp, ok: bool) -> (LifeState, Step) {
    match op {
        ClusterOp::CreateWorkload => if ok {
            (LifeState { exposure_up: true, awaiting: Some(ClusterOp::CreateExposure), ..s }, Step::Perform(ClusterOp::CreateExposure))
        } else {
            next_rollback(s)
        },
        ClusterOp::CreateExposure => if ok {
            (LifeState { status: InstanceStatus::Running, awaiting: None, ..s }, Step::Done)
        } else {
            next_rollback(s)
        },
        ClusterOp::DeleteExposure => if ok {
            next_rollback(LifeState { exposure_up: false, ..s })
        } else {
            (LifeState { status: InstanceStatus::Failed, awaiting: None, ..s }, Step::Fail(CoreError::ClusterUnavailable))
        },
        ClusterOp::DeleteWorkload => if ok {
            next_rollback(LifeState { workload_up: false, ..s })
        } else {
            (LifeState { status: InstanceStatus::Failed, awaiting: None, ..s }, Step::Fail(CoreError::ClusterUnavailable))
        },
    }
}

/// The number of failed teardown attempts after one more failure.
pub open spec fn one_more_failure(n: u32) -> u32 {
    if n < u32::MAX { (n + 1) as u32 } else { n }
}

/// The outcome of a call made while tearing down.  A confirmed deletion
/// leads to the next one; a failure is counted, and an expiring instance
/// whose teardown failed too often is given up as failed.
pub open spec fn teardown_reply(s: LifeState, op: ClusterOp, ok: bool) -> (LifeState, Step) {
    if ok {
        if op == ClusterOp::DeleteExposure {
            next_teardown(LifeState { exposure_up: false, ..s })
        } else {
            next_teardown(LifeState { workload_up: false, ..s })
        }
    } else {
        let n = one_more_failure(s.failures);
        let status = if s.status == InstanceStatus::Expiring && n >= MAX_TEARDOWN_ATTEMPTS {
            InstanceStatus::Failed
        } else {
            s.status
        };
        (LifeState { status, failures: n, awaiting: None, ..s }, Step::Fail(CoreError::ClusterUnavailable))
    }
}

/// The outcome of a call, handed back for an instance.  Only the awaited call
/// is taken; any other reply changes nothing.
pub open spec fn reply_state(s: LifeState, op: ClusterOp, ok: bool) -> (LifeState, Step) {
    if s.awaiting != Some(op) {
        (s, Step::Fail(CoreError::Conflict))
    } else if s.status == InstanceStatus::Pending {
        start_reply(s, op, ok)
    } else {
        teardown_reply(s, op, ok)
    }
}

/// Drives an instance through successful replies to each call asked for, at
/// most `fuel` of them.
pub open spec fn drive_ok(s: LifeState, step: Step, fuel: nat) -> (LifeState, Step)
    decreases fuel,
{
    if fuel == 0 {
        (s, step)
    } else {
        match step {
            Step::Perform(op) => {
                let next = reply_state(s, op, true);
                drive_ok(next.0, next.1, (fuel - 1) as nat)
            },
            _ => (s, step),
        }
    }
}

impl LifeState {
    pub fn reserved() -> (r: LifeState)
        ensures
            r == reserved_state(),
    {
        LifeState {
            status: InstanceStatus::Pending,
            workload_up: true,
            exposure_up: false,
            failures: 0,
            awaiting: Some(ClusterOp::CreateWorkload),
        }
    }

    pub fn next_teardown(self) -> (r: (LifeState, Step))
        ensures
            r == next_teardown(self),
    {
        if self.exposure_up {
            (LifeState { awaiting: Some(ClusterOp::DeleteExposure), ..self }, Step::Perform(ClusterOp::DeleteExposure))
        } else if self.workload_up {
            (LifeState { awaiting: Some(ClusterOp::DeleteWorkload), ..self }, Step::Perform(ClusterOp::DeleteWorkload))
        } else {
            (LifeState { status: InstanceStatus::Terminated, awaiting: None, ..self }, Step::Done)
        }
    }

    pub fn next_rollback(self) -> (r: (LifeState, Step))
        ensures
            r == next_rollback(self),
    {
        if self.exposure_up {
            (LifeState { awaiting: Some(ClusterOp::DeleteExposure), ..self }, Step::Perform(ClusterOp::DeleteExposure))
        } else if self.workload_up {
            (LifeState { awaiting: Some(ClusterOp::DeleteWorkload), ..self }, Step::Perform(ClusterOp::DeleteWorkload))
        } else {
            (LifeState { status: InstanceStatus::Failed, awaiting: None, ..self }, Step::Fail(CoreError::ClusterUnavailable))
        }
    }

    pub fn stop(self) -> (r: (LifeState, Step))
        ensures
            r == stop_state(self),
    {
        match self.status {
            InstanceStatus::Terminated => (self, Step::Done),
            InstanceStatus::Pending => (self, Step::Fail(CoreError::Conflict)),
            _ => if self.awaiting.is_some() {
                (self, Step::Fail(CoreError::Conflict))
            } else {
                self.next_teardown()
            },
        }
    }

    pub fn expire(self) -> (r: (LifeState, Step))
        ensures
            r == expire_state(self),
    {
        match self.status {
            InstanceStatus::Running => if self.awaiting.is_none() {
                LifeState { status: InstanceStatus::Expiring, ..self }.next_teardown()
            } else {
                (self, Step::Fail(CoreError::Conflict))
            },
            _ => (self, Step::Fail(CoreError::Conflict)),
        }
    }

    pub fn reply(self, op: ClusterOp, ok: bool) -> (r: (LifeState, Step))
        ensures
            r == reply_state(self, op, ok),
    {
        let awaited = match self.awaiting {
            Some(a) => a == op,
            None => false,
        };
        if !awaited {
            return (self, Step::Fail(CoreError::Conflict));
        }
        match self.status {
            InstanceStatus::Pending => match op {
                ClusterOp::CreateWorkload => if ok {
                    (LifeState { exposure_up: true, awaiting: Some(ClusterOp::CreateExposure), ..self }, Step::Perform(ClusterOp::CreateExposure))
                } else {
                    self.next_rollback()
                },
                ClusterOp::CreateExposure => if ok {
                    (LifeState { status: InstanceStatus::Running, awaiting: None, ..self }, Step::Done)
                } else {
                    self.next_rollback()
                },
                ClusterOp::DeleteExposure => if ok {
                    LifeState { exposure_up: false, ..self }.next_rollback()
                } else {
                    (LifeState { status: InstanceStatus::Failed, awaiting: None, ..self }, Step::Fail(CoreError::ClusterUnavailable))
                },
                ClusterOp::DeleteWorkload => if ok {
                    LifeState { workload_up: false, ..self }.next_rollback()
                } else {
                    (LifeState { status: InstanceStatus::Failed, awaiting: None, ..self }, Step::Fail(CoreError::ClusterUnavailable))
                },
            },
            _ => if ok {
                match op {
                    ClusterOp::DeleteExposure => LifeState { exposure_up: false, ..self }.next_teardown(),
                    _ => LifeState { workload_up: false, ..self }.next_teardown(),
                }
            } else {
                let n = if self.failures < u32::MAX { self.failures + 1 } else { self.failures };
                let status = match self.status {
                    InstanceStatus::Expiring => if n >= MAX_TEARDOWN_ATTEMPTS {
                        InstanceStatus::Failed
                    } else {
                        self.status
                    },
                    _ => self.status,
                };
                (LifeState { status, failures: n, awaiting: None, ..self }, Step::Fail(CoreError::ClusterUnavailable))
            },
        }
    }
}

/// Stopping is idempotent.  A stop whose deletions the control plane
/// confirms ends in success with the instance terminated and none of its
/// objects left; stopping it again succeeds at once, asks for no call and
/// changes nothing.
pub proof fn law_stop_idempotent(s: LifeState)
    requires
        state_wf(s),
        s.status != InstanceStatus::Pending,
        s.awaiting is None,
    ensures
        ({
            let first = stop_state(s);
            let done = drive_ok(first.0, first.1, 2);
            &&& done.1 == Step::Done
            &&& done.0.status == InstanceStatus::Terminated
            &&& !done.0.workload_up
            &&& !done.0.exposure_up
            &&& stop_state(done.0) == (done.0, Step::Done)
        }),
{
    reveal_with_fuel(drive_ok, 3);
    let first = stop_state(s);
    if s.status != InstanceStatus::Terminated {
        if s.exposure_up {
            let a = reply_state(first.0, ClusterOp::DeleteExposure, true);
            assert(drive_ok(first.0, first.1, 2) == drive_ok(a.0, a.1, 1));
            if s.workload_up {
                let b = reply_state(a.0, ClusterOp::DeleteWorkload, true);
                assert(drive_ok(a.0, a.1, 1) == drive_ok(b.0, b.1, 0));
            }
        } else if s.workload_up {
            let a = reply_state(first.0, ClusterOp::DeleteWorkload, true);
            assert(drive_ok(first.0, first.1, 2) == drive_ok(a.0, a.1, 1));
        }
    }
}

/// A start that fails rolls back: whether the workload or the exposure
/// could not be created, once the control plane confirms the deletions the
/// start fails with `ClusterUnavailable`, the instance is no longer live and
/// none of its objects is left.
pub proof fn law_start_rollback(s: LifeState, workload_created: bool)
    requires
        s == reserved_state(),
    ensures
        ({
            let w = reply_state(s, ClusterOp::CreateWorkload, workload_created);
            let e = if workload_created { reply_state(w.0, ClusterOp::CreateExposure, false) } else { w };
            let d = drive_ok(e.0, e.1, 2);
            &&& d.1 == Step::Fail(CoreError::ClusterUnavailable)
            &&& !d.0.workload_up
            &&& !d.0.exposure_up
            &&& !is_live(d.0.status)
        }),
{
    reveal_with_fuel(drive_ok, 3);
    let w = reply_state(s, ClusterOp::CreateWorkload, workload_created);
    if workload_created {
        let e = reply_state(w.0, ClusterOp::CreateExposure, false);
        let a = reply_state(e.0, ClusterOp::DeleteExposure, true);
        assert(drive_ok(e.0, e.1, 2) == drive_ok(a.0, a.1, 1));
        let b = reply_state(a.0, ClusterOp::DeleteWorkload, true);
        assert(drive_ok(a.0, a.1, 1) == drive_ok(b.0, b.1, 0));
    } else {
        let a = reply_state(w.0, ClusterOp::DeleteWorkload, true);
        assert(drive_ok(w.0, w.1, 2) == drive_ok(a.0, a.1, 1));
    }
}

/// The game, team and challenge that an instance belongs to: the unit of
/// exclusivity.
#[derive(Clone, Copy, Debug, PartialEq, Eq, Structural)]
pub struct InstanceKey {
    pub game_id: u64,
    pub team_id: u64,
    pub challenge_id: u64,
}

/// The record of one instance.
#[derive(Debug)]
pub struct Container {
    pub container_id: u64,
    pub key: InstanceKey,
    /// Seconds since the epoch at which the instance was requested.
    pub start_time: i64,
    /// Seconds since the epoch at which the instance's lease ends.
    pub expire_time: i64,
    pub expose_ports: Vec<PortInfo>,
    pub state: LifeState,
    /// The provisioned flag; empty for challenges that are verified live.
    pub flag_content: String,
}

/// What a successful start hands back: the new instance, its cluster objects
/// and the first call to make.
#[derive(Debug)]
pub struct StartTicket {
    pub instance_id: u64,
    pub plan: ResourcePlan,
    pub step: Step,
}

/// The instance store: every instance record, and the identifier the next
/// instance will get.
#[derive(Debug)]
pub struct InstanceManager {
    pub instances: Vec<Container>,
    pub next_id: u64,
}

/// Whether `insts` holds a live instance under `key`.
pub open spec fn has_live(insts: Seq<Container>, key: InstanceKey) -> bool {
    exists|i: int| 0 <= i < insts.len() && insts[i].key == key && is_live(#[trigger] insts[i].state.status)
}

/// How many live instances `insts` holds under `key`.
pub open spec fn live_count(insts: Seq<Container>, key: InstanceKey) -> nat
    decreases insts.len(),
{
    if insts.len() == 0 {
        0
    } else {
        live_count(insts.drop_last(), key) + if insts.last().key == key && is_live(insts.last().state.status) {
            1nat
        } else {
            0nat
        }
    }
}

/// Whether `insts` holds a record with identifier `id`.
pub open spec fn has_id(insts: Seq<Container>, id: u64) -> bool {
    exists|i: int| 0 <= i < insts.len() && (#[trigger] insts[i]).container_id == id
}

/// The flag stored for an instance: the provisioned one, or empty.
pub open spec fn stored_flag(f: Option<Seq<char>>) -> Seq<char> {
    match f {
        Some(g) => g,
        None => Seq::empty(),
    }
}

/// The conditions under which a start succeeds.
pub open spec fn start_allowed(
    m: InstanceManager,
    key: InstanceKey,
    judge: JudgeConfig,
    pod: PodInfo,
    secret: Seq<char>,
    now: i64,
    lease: i64,
) -> bool {
    &&& !has_live(m.instances@, key)
    &&& m.next_id < u64::MAX
    &&& lease > 0
    &&& now + lease <= i64::MAX
    &&& provision_result(judge, secret, key.team_id, m.next_id) is Ok
    &&& valid_containers(pod.containers@)
}

/// `new` is `old` with one more record: a reserved instance under `key`,
/// whose identifier is `old`'s next one and whose lease runs from `now` for
/// `lease` seconds.
pub open spec fn started(
    old: InstanceManager,
    new: InstanceManager,
    key: InstanceKey,
    id: u64,
    now: i64,
    lease: i64,
) -> bool {
    let n = old.instances@.len();
    &&& id == old.next_id
    &&& new.next_id == old.next_id + 1
    &&& new.instances@.len() == n + 1
    &&& new.instances@.take(n as int) == old.instances@
    &&& new.instances@[n as int].container_id == id
    &&& new.instances@[n as int].key == key
    &&& new.instances@[n as int].start_time == now
    &&& new.instances@[n as int].expire_time == now + lease
    &&& new.instances@[n as int].state == reserved_state()
    &&& new.instances@[n as int].expose_ports@.len() == 0
}

/// `new` is `old` with the state of record `i` replaced by `s`; a call that
/// confirmed the exposure may also have stored its endpoints there.
pub open spec fn state_set(old: InstanceManager, new: InstanceManager, i: int, s: LifeState) -> bool {
    &&& new.next_id == old.next_id
    &&& new.instances@.len() == old.instances@.len()
    &&& forall|j: int| 0 <= j < old.instances@.len() && j != i ==> new.instances@[j] == old.instances@[j]
    &&& new.instances@[i].container_id == old.instances@[i].container_id
    &&& new.instances@[i].key == old.instances@[i].key
    &&& new.instances@[i].start_time == old.instances@[i].start_time
    &&& new.instances@[i].expire_time == old.instances@[i].expire_time
    &&& new.instances@[i].flag_content == old.instances@[i].flag_content
    &&& new.instances@[i].state == s
}

impl InstanceManager {
    /// Identifiers are unique and below the next one, at most one instance
    /// is live under each key, and terminated instances own no objects.
    pub open spec fn wf(&self) -> bool {
        &&& forall|i: int, j: int|
            0 <= i < j < self.instances@.len()
                ==> (#[trigger] self.instances@[i]).container_id != (#[trigger] self.instances@[j]).container_id
        &&& forall|i: int| 0 <= i < self.instances@.len() ==> (#[trigger] self.instances@[i]).container_id < self.next_id
        &&& forall|i: int, j: int|
            0 <= i < self.instances@.len() && 0 <= j < self.instances@.len() && i != j
                && (#[trigger] self.instances@[i]).key == (#[trigger] self.instances@[j]).key
                && is_live(self.instances@[i].state.status) ==> !is_live(self.instances@[j].state.status)
        &&& forall|i: int| 0 <= i < self.instances@.len() ==> state_wf((#[trigger] self.instances@[i]).state)
    }

    pub fn new() -> (r: InstanceManager)
        ensures
            r.wf(),
            r.instances@.len() == 0,
            r.next_id == 1,
    {
        InstanceManager { instances: Vec::new(), next_id: 1 }
    }

    /// The position of the record with identifier `id`.
    pub fn index_of(&self, id: u64) -> (r: Option<usize>)
        ensures
            r matches Some(i) ==> i < self.instances@.len() && self.instances@[i as int].container_id == id,
            r is None ==> !has_id(self.instances@, id),
    {
        let mut i: usize = 0;
        while i < self.instances.len()
            invariant
                i <= self.instances@.len(),
                forall|j: int| 0 <= j < i ==> (#[trigger] self.instances@[j]).container_id != id,
            decreases self.instances@.len() - i,
        {
            if self.instances[i].container_id == id {
                return Some(i);
            }
            i = i + 1;
        }
        None
    }

    /// The position of the live instance under `key`.
    pub fn live_index(&self, key: InstanceKey) -> (r: Option<usize>)
        ensures
            r matches Some(i) ==> i < self.instances@.len() && self.instances@[i as int].key == key
                && is_live(self.instances@[i as int].state.status),
            r is None ==> !has_live(self.instances@, key),
    {
        let mut i: usize = 0;
        while i < self.instances.len()
            invariant
                i <= self.instances@.len(),
                forall|j: int| 0 <= j < i ==> !((#[trigger] self.instances@[j]).key == key && is_live(self.instances@[j].state.status)),
            decreases self.instances@.len() - i,
        {
            let c = &self.instances[i];
            if c.key == key {
                match c.state.status {
                    InstanceStatus::Terminated => {},
                    InstanceStatus::Failed => {},
                    _ => {
                        return Some(i);
                    },
                }
            }
            i = i + 1;
        }
        None
    }

    fn set_state(&mut self, i: usize, st: LifeState)
        requires
            old(self).wf(),
            i < old(self).instances@.len(),
            state_wf(st),
            is_live(st.status) ==> is_live(old(self).instances@[i as int].state.status),
        ensures
            final(self).wf(),
            state_set(*old(self), *final(self), i as int, st),
            final(self).instances@[i as int].expose_ports@ == old(self).instances@[i as int].expose_ports@,
    {
        self.instances[i].state = st;
        proof {
            assert forall|a: int, b: int|
                0 <= a < self.instances@.len() && 0 <= b < self.instances@.len() && a != b
                    && (#[trigger] self.instances@[a]).key == (#[trigger] self.instances@[b]).key
                    && is_live(self.instances@[a].state.status)
                    implies !is_live(self.instances@[b].state.status) by {
                assert(old(self).instances@[a].key == old(self).instances@[b].key);
            }
            assert forall|a: int, b: int|
                0 <= a < b < self.instances@.len()
                    implies (#[trigger] self.instances@[a]).container_id != (#[trigger] self.instances@[b]).container_id by {
                assert(old(self).instances@[a].container_id != old(self).instances@[b].container_id);
            }
            assert forall|a: int| 0 <= a < self.instances@.len()
                implies (#[trigger] self.instances@[a]).container_id < self.next_id by {
                assert(old(self).instances@[a].container_id < old(self).next_id);
            }
            assert forall|a: int| 0 <= a < self.instances@.len()
                implies state_wf((#[trigger] self.instances@[a]).state) by {
                if a != i as int {
                    assert(state_wf(old(self).instances@[a].state));
                }
            }
        }
    }

    /// Reserves an instance under `key` and prepares its objects.  A live
    /// instance under the same key makes the start fail with `Conflict`; a
    /// flag that cannot be provisioned, a lease that is not positive or a
    /// declaration that cannot be planned make it fail with `PlanInvalid`;
    /// in both cases nothing is recorded.  Otherwise the instance is recorded
    /// as pending, with its lease running from `now`, and the creation of
    /// its workload is the first call to make.
    pub fn start(
        &mut self,
        key: InstanceKey,
        judge: &JudgeConfig,
        pod: &PodInfo,
        secret: &str,
        now: i64,
        lease: i64,
    ) -> (r: Result<StartTicket, CoreError>)
        requires
            old(self).wf(),
        ensures
            final(self).wf(),
            r matches Err(CoreError::Conflict) <==> has_live(old(self).instances@, key),
            r is Ok <==> start_allowed(*old(self), key, *judge, *pod, secret@, now, lease),
            r matches Err(e) ==> e == if has_live(old(self).instances@, key) {
                CoreError::Conflict
            } else if old(self).next_id == u64::MAX {
                CoreError::QuotaExceeded
            } else {
                CoreError::PlanInvalid
            },
            r is Err ==> final(self).instances@ == old(self).instances@ && final(self).next_id == old(self).next_id,
            r matches Ok(t) ==> {
                &&& started(*old(self), *final(self), key, t.instance_id, now, lease)
                &&& t.step == Step::Perform(ClusterOp::CreateWorkload)
                &&& provision_result(*judge, secret@, key.team_id, t.instance_id) matches Ok(f)
                    && final(self).instances@.last().flag_content@ == stored_flag(f)
                &&& is_plan_of(t.plan, *pod, key.team_id, key.challenge_id, t.instance_id,
                    if judge.judge_type == JudgeType::Static {
                        Some(final(self).instances@.last().flag_content)
                    } else {
                        None
                    })
            },
    {
        if self.live_index(key).is_some() {
            return Err(CoreError::Conflict);
        }
        if self.next_id == u64::MAX {
            return Err(CoreError::QuotaExceeded);
        }
        if lease <= 0 || now > i64::MAX - lease {
            return Err(CoreError::PlanInvalid);
        }
        let id = self.next_id;
        let flag = match provision(judge, key.team_id, id, secret) {
            Ok(f) => f,
            Err(e) => {
                return Err(e);
            },
        };
        let flag_content = match &flag {
            Some(f) => f.clone(),
            None => String::new(),
        };
        let injected = match judge.judge_type {
            JudgeType::Static => Some(flag_content.clone()),
            _ => None,
        };
        let planned = match plan(pod, key.team_id, key.challenge_id, id, &injected) {
            Ok(p) => p,
            Err(e) => {
                return Err(e);
            },
        };
        let record = Container {
            container_id: id,
            key,
            start_time: now,
            expire_time: now + lease,
            expose_ports: Vec::new(),
            state: LifeState::reserved(),
            flag_content,
        };
        let ghost old_insts = self.instances@;
        self.instances.push(record);
        self.next_id = id + 1;
        proof {
            let n = old_insts.len() as int;
            assert(self.instances@.take(n) =~= old_insts);
            assert forall|a: int, b: int|
                0 <= a < self.instances@.len() && 0 <= b < self.instances@.len() && a != b
                    && (#[trigger] self.instances@[a]).key == (#[trigger] self.instances@[b]).key
                    && is_live(self.instances@[a].state.status)
                    implies !is_live(self.instances@[b].state.status) by {
                if a == n {
                    assert(old_insts[b] == self.instances@[b]);
                } else if b == n {
                    assert(old_insts[a] == self.instances@[a]);
                } else {
                    assert(old_insts[a] == self.instances@[a]);
                    assert(old_insts[b] == self.instances@[b]);
                }
            }
            assert forall|a: int, b: int|
                0 <= a < b < self.instances@.len()
                    implies (#[trigger] self.instances@[a]).container_id != (#[trigger] self.instances@[b]).container_id by {
                assert(old_insts[a] == self.instances@[a]);
                if b < n {
                    assert(old_insts[b] == self.instances@[b]);
                }
            }
            assert forall|a: int| 0 <= a < self.instances@.len()
                implies (#[trigger] self.instances@[a]).container_id < self.next_id by {
                if a < n {
                    assert(old_insts[a] == self.instances@[a]);
                }
            }
            assert forall|a: int| 0 <= a < self.instances@.len()
                implies state_wf((#[trigger] self.instances@[a]).state) by {
                if a < n {
                    assert(old_insts[a] == self.instances@[a]);
                }
            }
        }
        Ok(StartTicket { instance_id: id, plan: planned, step: Step::Perform(ClusterOp::CreateWorkload) })
    }

    /// Hands back the outcome of the call that an instance awaited.  The
    /// instance moves as `reply_state` says; when the exposure was confirmed
    /// during a start its endpoints are recorded.  An unknown identifier
    /// fails with `NotFound` and changes nothing.
    pub fn reply(&mut self, id: u64, op: ClusterOp, ok: bool, endpoints: Vec<PortInfo>) -> (r: Step)
        requires
            old(self).wf(),
        ensures
            final(self).wf(),
            !has_id(old(self).instances@, id) ==> r == Step::Fail(CoreError::NotFound)
                && final(self).instances@ == old(self).instances@ && final(self).next_id == old(self).next_id,
            forall|i: int| 0 <= i < old(self).instances@.len() && (#[trigger] old(self).instances@[i]).container_id == id ==> {
                let s = old(self).instances@[i].state;
                let exposed = s.status == InstanceStatus::Pending && s.awaiting == Some(ClusterOp::CreateExposure)
                    && op == ClusterOp::CreateExposure && ok;
                &&& state_set(*old(self), *final(self), i, reply_state(s, op, ok).0)
                &&& r == reply_state(s, op, ok).1
                &&& final(self).instances@[i].expose_ports@ == if exposed {
                    endpoints@
                } else {
                    old(self).instances@[i].expose_ports@
                }
            },
    {
        match self.index_of(id) {
            None => Step::Fail(CoreError::NotFound),
            Some(i) => {
                let s = self.instances[i].state;
                let exposed = match (s.status, s.awaiting, op) {
                    (InstanceStatus::Pending, Some(ClusterOp::CreateExposure), ClusterOp::CreateExposure) => ok,
                    _ => false,
                };
                let (next, step) = s.reply(op, ok);
                self.set_state(i, next);
                if exposed {
                    self.instances[i].expose_ports = endpoints;
                }
                proof {
                    assert forall|j: int| 0 <= j < old(self).instances@.len()
                        && (#[trigger] old(self).instances@[j]).container_id == id implies j == i as int by {
                        if j != i as int {
                            if j < i as int {
                                assert(old(self).instances@[j].container_id != old(self).instances@[i as int].container_id);
                            } else {
                                assert(old(self).instances@[i as int].container_id != old(self).instances@[j].container_id);
                            }
                        }
                    }
                }
                step
            },
        }
    }

    /// Stops an instance.  A terminated instance is left as it is and the
    /// stop succeeds at once; otherwise its exposure, then its workload, are
    /// to be deleted, and each confirmation is handed back through `reply`.
    /// An unknown identifier fails with `NotFound`.
    pub fn stop(&mut self, id: u64) -> (r: Step)
        requires
            old(self).wf(),
        ensures
            final(self).wf(),
            !has_id(old(self).instances@, id) ==> r == Step::Fail(CoreError::NotFound)
                && final(self).instances@ == old(self).instances@ && final(self).next_id == old(self).next_id,
            forall|i: int| 0 <= i < old(self).instances@.len() && (#[trigger] old(self).instances@[i]).container_id == id ==> {
                &&& state_set(*old(self), *final(self), i, stop_state(old(self).instances@[i].state).0)
                &&& final(self).instances@[i].expose_ports@ == old(self).instances@[i].expose_ports@
                &&& r == stop_state(old(self).instances@[i].state).1
            },
    {
        match self.index_of(id) {
            None => Step::Fail(CoreError::NotFound),
            Some(i) => {
                let (next, step) = self.instances[i].state.stop();
                self.set_state(i, next);
                proof {
                    assert forall|j: int| 0 <= j < old(self).instances@.len()
                        && (#[trigger] old(self).instances@[j]).container_id == id implies j == i as int by {
                        if j != i as int {
                            if j < i as int {
                                assert(old(self).instances@[j].container_id != old(self).instances@[i as int].container_id);
                            } else {
                                assert(old(self).instances@[i as int].container_id != old(self).instances@[j].container_id);
                            }
                        }
                    }
                }
                step
            },
        }
    }

    /// Begins the reclamation of a running instance: it turns to expiring
    /// and its teardown begins as for a stop.  An unknown identifier fails
    /// with `NotFound`.
    pub fn expire(&mut self, id: u64) -> (r: Step)
        requires
            old(self).wf(),
        ensures
            final(self).wf(),
            !has_id(old(self).instances@, id) ==> r == Step::Fail(CoreError::NotFound)
                && final(self).instances@ == old(self).instances@ && final(self).next_id == old(self).next_id,
            forall|i: int| 0 <= i < old(self).instances@.len() && (#[trigger] old(self).instances@[i]).container_id == id ==> {
                &&& state_set(*old(self), *final(self), i, expire_state(old(self).instances@[i].state).0)
                &&& final(self).instances@[i].expose_ports@ == old(self).instances@[i].expose_ports@
                &&& r == expire_state(old(self).instances@[i].state).1
            },
    {
        match self.index_of(id) {
            None => Step::Fail(CoreError::NotFound),
            Some(i) => {
                let (next, step) = self.instances[i].state.expire();
                self.set_state(i, next);
                proof {
                    assert forall|j: int| 0 <= j < old(self).instances@.len()
                        && (#[trigger] old(self).instances@[j]).container_id == id implies j == i as int by {
                        if j != i as int {
                            if j < i as int {
                                assert(old(self).instances@[j].container_id != old(self).instances@[i as int].container_id);
                            } else {
                                assert(old(self).instances@[i as int].container_id != old(self).instances@[j].container_id);
                            }
                        }
                    }
                }
                step
            },
        }
    }

    /// Extends the lease of a running instance to `lease` seconds from `now`;
    /// a lease is never shortened.  An unknown identifier fails with
    /// `NotFound`, an instance that is not running with `Conflict`, and a
    /// lease that is not positive or ends beyond the clock's range with
    /// `PlanInvalid`; in those cases nothing changes.
    pub fn renew(&mut self, id: u64, now: i64, lease: i64) -> (r: Result<i64, CoreError>)
        requires
            old(self).wf(),
        ensures
            final(self).wf(),
            !has_id(old(self).instances@, id) ==> r == Err::<i64, CoreError>(CoreError::NotFound),
            r is Err ==> final(self).instances@ == old(self).instances@ && final(self).next_id == old(self).next_id,
            forall|i: int| 0 <= i < old(self).instances@.len() && (#[trigger] old(self).instances@[i]).container_id == id ==> {
                let c = old(self).instances@[i];
                if c.state.status != InstanceStatus::Running || c.state.awaiting is Some {
                    r == Err::<i64, CoreError>(CoreError::Conflict)
                } else if lease <= 0 || now + lease > i64::MAX {
                    r == Err::<i64, CoreError>(CoreError::PlanInvalid)
                } else {
                    let e = if now + lease > c.expire_time { (now + lease) as i64 } else { c.expire_time };
                    &&& r == Ok::<i64, CoreError>(e)
                    &&& final(self).next_id == old(self).next_id
                    &&& final(self).instances@ == old(self).instances@.update(i, Container { expire_time: e, ..c })
                }
            },
    {
        match self.index_of(id) {
            None => Err(CoreError::NotFound),
            Some(i) => {
                let running = match self.instances[i].state.status {
                    InstanceStatus::Running => self.instances[i].state.awaiting.is_none(),
                    _ => false,
                };
                if !running {
                    return Err(CoreError::Conflict);
                }
                if lease <= 0 || now > i64::MAX - lease {
                    return Err(CoreError::PlanInvalid);
                }
                let until = now + lease;
                let e = if until > self.instances[i].expire_time { until } else { self.instances[i].expire_time };
                self.instances[i].expire_time = e;
                proof {
                    assert(self.instances@ =~= old(self).instances@.update(i as int, Container { expire_time: e, ..old(self).instances@[i as int] }));
                    assert forall|a: int, b: int|
                        0 <= a < self.instances@.len() && 0 <= b < self.instances@.len() && a != b
                            && (#[trigger] self.instances@[a]).key == (#[trigger] self.instances@[b]).key
                            && is_live(self.instances@[a].state.status)
                            implies !is_live(self.instances@[b].state.status) by {
                        assert(old(self).instances@[a].key == old(self).instances@[b].key);
                    }
                    assert forall|a: int, b: int|
                        0 <= a < b < self.instances@.len()
                            implies (#[trigger] self.instances@[a]).container_id != (#[trigger] self.instances@[b]).container_id by {
                        assert(old(self).instances@[a].container_id != old(self).instances@[b].container_id);
                    }
                    assert forall|a: int| 0 <= a < self.instances@.len()
                        implies (#[trigger] self.instances@[a]).container_id < self.next_id by {
                        assert(old(self).instances@[a].container_id < old(self).next_id);
                    }
                    assert forall|a: int| 0 <= a < self.instances@.len()
                        implies state_wf((#[trigger] self.instances@[a]).state) by {
                        assert(state_wf(old(self).instances@[a].state));
                    }
                }
                proof {
                    assert forall|j: int| 0 <= j < old(self).instances@.len()
                        && (#[trigger] old(self).instances@[j]).container_id == id implies j == i as int by {
                        if j != i as int {
                            if j < i as int {
                                assert(old(self).instances@[j].container_id != old(self).instances@[i as int].container_id);
                            } else {
                                assert(old(self).instances@[i as int].container_id != old(self).instances@[j].container_id);
                            }
                        }
                    }
                }
                Ok(e)
            },
        }
    }

    /// The identifiers of the running instances whose lease has ended by `now`.
    pub fn expired_ids(&self, now: i64) -> (r: Vec<u64>)
        ensures
            forall|k: int| 0 <= k < r@.len() ==> expired_id(self.instances@, #[trigger] r@[k], now),
            forall|i: int| 0 <= i < self.instances@.len() && lease_over(#[trigger] self.instances@[i], now)
                ==> r@.contains(self.instances@[i].container_id),
    {
        let mut r: Vec<u64> = Vec::new();
        let mut i: usize = 0;
        while i < self.instances.len()
            invariant
                i <= self.instances@.len(),
                forall|k: int| 0 <= k < r@.len() ==> expired_id(self.instances@, #[trigger] r@[k], now),
                forall|a: int| 0 <= a < i && lease_over(#[trigger] self.instances@[a], now)
                    ==> r@.contains(self.instances@[a].container_id),
            decreases self.instances@.len() - i,
        {
            let c = &self.instances[i];
            let running = match c.state.status {
                InstanceStatus::Running => c.state.awaiting.is_none(),
                _ => false,
            };
            if running && c.expire_time <= now {
                let ghost before = r@;
                r.push(c.container_id);
                proof {
                    assert(r@[r@.len() - 1] == self.instances@[i as int].container_id);
                    assert forall|a: int| 0 <= a < i + 1 && lease_over(#[trigger] self.instances@[a], now)
                        implies r@.contains(self.instances@[a].container_id) by {
                        if a < i {
                            let w = choose|w: int| 0 <= w < before.len() && before[w] == self.instances@[a].container_id;
                            assert(r@[w] == before[w]);
                        } else {
                            assert(r@[r@.len() - 1] == self.instances@[a].container_id);
                        }
                    }
                    assert forall|k: int| 0 <= k < r@.len() implies expired_id(self.instances@, #[trigger] r@[k], now) by {
                        if k < before.len() {
                            assert(r@[k] == before[k]);
                        } else {
                            assert(self.instances@[i as int].container_id == r@[k]);
                        }
                    }
                }
            }
            i = i + 1;
        }
        r
    }

    /// The flag of the running instance under `key`, if there is one.
    pub fn running_flag(&self, key: InstanceKey) -> (r: Option<String>)
        requires
            self.wf(),
        ensures
            r is Some <==> has_running(self.instances@, key),
            r matches Some(f) ==> forall|i: int| 0 <= i < self.instances@.len()
                && (#[trigger] self.instances@[i]).key == key && is_live(self.instances@[i].state.status)
                ==> f@ == self.instances@[i].flag_content@,
    {
        match self.live_index(key) {
            None => None,
            Some(i) => {
                proof {
                    assert forall|j: int| 0 <= j < self.instances@.len()
                        && (#[trigger] self.instances@[j]).key == key && is_live(self.instances@[j].state.status)
                        implies j == i as int by {
                        if j != i as int {
                            assert(self.instances@[i as int].key == self.instances@[j].key);
                        }
                    }
                }
                match self.instances[i].state.status {
                    InstanceStatus::Running => Some(self.instances[i].flag_content.clone()),
                    _ => None,
                }
            },
        }
    }

    /// Which of the observed instance labels name no live instance: the
    /// positions in `labels` of the objects to delete.
    pub fn orphans(&self, labels: &Vec<String>) -> (r: Vec<usize>)
        ensures
            forall|k: int| 0 <= k < r@.len() ==> r@[k] < labels@.len(),
            forall|j: int| 0 <= j < labels@.len() ==> (r@.contains(j as usize)
                <==> !owns_label(self.instances@, (#[trigger] labels@[j])@)),
    {
        let mut r: Vec<usize> = Vec::new();
        let mut j: usize = 0;
        while j < labels.len()
            invariant
                j <= labels@.len(),
                forall|k: int| 0 <= k < r@.len() ==> r@[k] < j,
                forall|b: int| 0 <= b < j ==> (r@.contains(b as usize)
                    <==> !owns_label(self.instances@, (#[trigger] labels@[b])@)),
            decreases labels@.len() - j,
        {
            let mut owned = false;
            let mut i: usize = 0;
            while i < self.instances.len()
                invariant
                    j < labels@.len(),
                    i <= self.instances@.len(),
                    owned <==> exists|a: int| 0 <= a < i && owns(#[trigger] self.instances@[a], labels@[j as int]@),
                decreases self.instances@.len() - i,
            {
                let c = &self.instances[i];
                let live = match c.state.status {
                    InstanceStatus::Terminated => false,
                    InstanceStatus::Failed => false,
                    _ => true,
                };
                if live {
                    let name = crate::text::decimal(c.container_id);
                    if name == labels[j] {
                        owned = true;
                    }
                }
                i = i + 1;
            }
            let ghost before = r@;
            if !owned {
                r.push(j);
            }
            proof {
                assert forall|b: int| 0 <= b < j + 1 implies (r@.contains(b as usize)
                    <==> !owns_label(self.instances@, (#[trigger] labels@[b])@)) by {
                    if b < j {
                        if before.contains(b as usize) {
                            let w = choose|w: int| 0 <= w < before.len() && before[w] == b as usize;
                            assert(r@[w] == before[w]);
                        }
                        if r@.contains(b as usize) {
                            let w = choose|w: int| 0 <= w < r@.len() && r@[w] == b as usize;
                            if w < before.len() {
                                assert(before[w] == r@[w]);
                            }
                        }
                    } else {
                        if !owned {
                            assert(r@[r@.len() - 1] == j);
                        } else {
                            if r@.contains(b as usize) {
                                let w = choose|w: int| 0 <= w < r@.len() && r@[w] == b as usize;
                            }
                        }
                    }
                }
            }
            j = j + 1;
        }
        r
    }
}

/// A running instance whose lease ended by `now`.
pub open spec fn lease_over(c: Container, now: i64) -> bool {
    c.state.status == InstanceStatus::Running && c.state.awaiting is None && c.expire_time <= now
}

/// Whether `id` is the identifier of an instance of `insts` whose lease ended by `now`.
pub open spec fn expired_id(insts: Seq<Container>, id: u64, now: i64) -> bool {
    exists|i: int| 0 <= i < insts.len() && (#[trigger] insts[i]).container_id == id && lease_over(insts[i], now)
}

/// Whether `insts` holds a running instance under `key`.
pub open spec fn has_running(insts: Seq<Container>, key: InstanceKey) -> bool {
    exists|i: int| 0 <= i < insts.len() && insts[i].key == key
        && (#[trigger] insts[i]).state.status == InstanceStatus::Running
}

/// A live instance whose identifier's numeral is `label`.
pub open spec fn owns(c: Container, label: Seq<char>) -> bool {
    is_live(c.state.status) && dec(c.container_id as nat) == label
}

/// Whether a live instance of `insts` is labelled `label`.
pub open spec fn owns_label(insts: Seq<Container>, label: Seq<char>) -> bool {
    exists|a: int| 0 <= a < insts.len() && owns(#[trigger] insts[a], label)
}

proof fn lemma_no_live_count(insts: Seq<Container>, key: InstanceKey)
    requires
        !has_live(insts, key),
    ensures
        live_count(insts, key) == 0,
    decreases insts.len(),
{
    if insts.len() > 0 {
        let d = insts.drop_last();
        assert forall|i: int| 0 <= i < d.len() && d[i].key == key implies !is_live(#[trigger] d[i].state.status) by {
            assert(d[i] == insts[i]);
        }
        lemma_no_live_count(d, key);
        assert(insts[insts.len() - 1] == insts.last());
    }
}

/// Starting twice under one key without a stop in between: once the first
/// start has succeeded, the second fails with `Conflict`, and exactly one
/// instance is live under the key.
pub proof fn law_start_twice(
    m0: InstanceManager,
    m1: InstanceManager,
    m2: InstanceManager,
    key: InstanceKey,
    id: u64,
    now: i64,
    lease: i64,
    second: Result<StartTicket, CoreError>,
)
    requires
        m0.wf(),
        !has_live(m0.instances@, key),
        started(m0, m1, key, id, now, lease),
        second matches Err(CoreError::Conflict) <==> has_live(m1.instances@, key),
        second is Err ==> m2.instances@ == m1.instances@,
    ensures
        second matches Err(CoreError::Conflict),
        m2.instances@ == m1.instances@,
        live_count(m2.instances@, key) == 1,
{
    let n = m0.instances@.len() as int;
    assert(is_live(m1.instances@[n].state.status));
    assert(has_live(m1.instances@, key));
    lemma_no_live_count(m0.instances@, key);
    assert(m1.instances@.drop_last() =~= m0.instances@);
}

/// A team that starts again after a stop gets a new instance, and with a
/// template the new instance's flag differs from the stopped one's.
pub proof fn law_restart_new_flag(
    m0: InstanceManager,
    m1: InstanceManager,
    key: InstanceKey,
    stopped: u64,
    id: u64,
    now: i64,
    lease: i64,
    template: Seq<char>,
    secret: Seq<char>,
)
    requires
        m0.wf(),
        has_id(m0.instances@, stopped),
        started(m0, m1, key, id, now, lease),
        has_placeholder(template),
    ensures
        id != stopped,
        flag_of(template, secret, key.team_id, id) != flag_of(template, secret, key.team_id, stopped),
{
    let i = choose|i: int| 0 <= i < m0.instances@.len() && (#[trigger] m0.instances@[i]).container_id == stopped;
    assert(m0.instances@[i].container_id < m0.next_id);
    law_flags_unique(template, secret, key.team_id, id, key.team_id, stopped);
}

} // verus!
