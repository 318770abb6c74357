use vstd::prelude::*;
use crate::error::CoreError;
use crate::lifecycle::{has_running, is_live, InstanceKey, InstanceManager};
use crate::model::{JudgeConfig, JudgeType};

verus! {

/// Where a judge record stands.
#[derive(Clone, Copy, Debug, PartialEq, Eq, Structural)]
pub enum JudgeStatus {
    Pending,
    Running,
    Done,
    Error,
}

/// The verdict of a judge record.
#[derive(Clone, Copy, Debug, PartialEq, Eq, Structural)]
pub enum JudgeResult {
    Unset,
    Correct,
    Incorrect,
}

/// How a verification procedure ended: it accepted the submission, rejected
/// it, or could not run to an answer (it crashed or timed out).
#[derive(Clone, Copy, Debug, PartialEq, Eq, Structural)]
pub enum ScriptOutcome {
    Accepted,
    Rejected,
    Errored,
}

/// One verification attempt of a team's submission.
#[derive(Debug)]
pub struct Judge {
    pub judge_id: u64,
    pub challenge_id: u64,
    pub team_id: u64,
    pub judge_type: JudgeType,
    pub judge_status: JudgeStatus,
    pub judge_result: JudgeResult,
    /// Seconds since the epoch at which the submission arrived.
    pub judge_time: i64,
    pub judge_content: String,
}

/// The verdict of a static comparison: correct exactly when the submission
/// equals the flag.
pub open spec fn static_result(content: Seq<char>, flag: Seq<char>) -> JudgeResult {
    if content == flag {
        JudgeResult::Correct
    } else {
        JudgeResult::Incorrect
    }
}

/// The final status and verdict that a procedure's outcome gives.  An error
/// never gives a verdict.
pub open spec fn script_verdict(o: ScriptOutcome) -> (JudgeStatus, JudgeResult) {
    match o {
        ScriptOutcome::Accepted => (JudgeStatus::Done, JudgeResult::Correct),
        ScriptOutcome::Rejected => (JudgeStatus::Done, JudgeResult::Incorrect),
        ScriptOutcome::Errored => (JudgeStatus::Error, JudgeResult::Unset),
    }
}

/// `new` is `old` with the given status and verdict, the rest kept.
pub open spec fn judged(old: Judge, new: Judge, status: JudgeStatus, result: JudgeResult) -> bool {
    &&& new.judge_id == old.judge_id
    &&& new.challenge_id == old.challenge_id
    &&& new.team_id == old.team_id
    &&& new.judge_type == old.judge_type
    &&& new.judge_time == old.judge_time
    &&& new.judge_content == old.judge_content
    &&& new.judge_status == status
    &&& new.judge_result == result
}

/// The judge configuration in force for a challenge in a game: the game's
/// override where there is one, else the challenge's own.
pub fn resolve_judge_config<'a>(
    game_override: &'a Option<JudgeConfig>,
    challenge_default: &'a Option<JudgeConfig>,
) -> (r: Option<&'a JudgeConfig>)
    ensures
        game_override matches Some(g) ==> r == Some(g),
        game_override is None ==> match challenge_default {
            Some(c) => r == Some(c),
            None => r is None,
        },
{
    match game_override {
        Some(g) => Some(g),
        None => match challenge_default {
            Some(c) => Some(c),
            None => None,
        },
    }
}

/// Byte-exact comparison of a submission with a flag.
pub fn compare_flag(content: &str, flag: &str) -> (r: JudgeResult)
    ensures
        r == static_result(content@, flag@),
{
    let a = String::from_str(content);
    let b = String::from_str(flag);
    if a == b {
        JudgeResult::Correct
    } else {
        JudgeResult::Incorrect
    }
}

impl Judge {
    /// A new record of a submission, pending and without verdict.
    pub fn new(
        judge_id: u64,
        key: InstanceKey,
        judge_type: JudgeType,
        content: &str,
        now: i64,
    ) -> (r: Judge)
        ensures
            r.judge_id == judge_id,
            r.challenge_id == key.challenge_id,
            r.team_id == key.team_id,
            r.judge_type == judge_type,
            r.judge_status == JudgeStatus::Pending,
            r.judge_result == JudgeResult::Unset,
            r.judge_time == now,
            r.judge_content@ == content@,
    {
        Judge {
            judge_id,
            challenge_id: key.challenge_id,
            team_id: key.team_id,
            judge_type,
            judge_status: JudgeStatus::Pending,
            judge_result: JudgeResult::Unset,
            judge_time: now,
            judge_content: String::from_str(content),
        }
    }

    /// Moves a pending record to running; any other record is left as it is.
    pub fn begin(&mut self)
        ensures
            judged(*old(self), *final(self),
                if old(self).judge_status == JudgeStatus::Pending { JudgeStatus::Running } else { old(self).judge_status },
                old(self).judge_result),
    {
        if self.judge_status == JudgeStatus::Pending {
            self.judge_status = JudgeStatus::Running;
        }
    }

    /// Records the outcome of a verification procedure on a running record:
    /// accepted is correct, rejected incorrect, and an error leaves the
    /// record in error without verdict.  A record that is not running is
    /// left as it is.
    pub fn finish_script(&mut self, outcome: ScriptOutcome)
        ensures
            old(self).judge_status == JudgeStatus::Running ==> judged(*old(self), *final(self),
                script_verdict(outcome).0, script_verdict(outcome).1),
            old(self).judge_status != JudgeStatus::Running ==> *final(self) == *old(self),
    {
        if self.judge_status == JudgeStatus::Running {
            match outcome {
                ScriptOutcome::Accepted => {
                    self.judge_status = JudgeStatus::Done;
                    self.judge_result = JudgeResult::Correct;
                },
                ScriptOutcome::Rejected => {
                    self.judge_status = JudgeStatus::Done;
                    self.judge_result = JudgeResult::Incorrect;
                },
                ScriptOutcome::Errored => {
                    self.judge_status = JudgeStatus::Error;
                    self.judge_result = JudgeResult::Unset;
                },
            }
        }
    }

    /// Ends a running record whose challenge has no running instance to
    /// verify against: it ends in error without verdict.  A record that is
    /// not running is left as it is and `Conflict` is returned.
    pub fn finish_no_instance(&mut self) -> (r: CoreError)
        ensures
            old(self).judge_status != JudgeStatus::Running ==> *final(self) == *old(self) && r == CoreError::Conflict,
            old(self).judge_status == JudgeStatus::Running ==> r == CoreError::NoInstance
                && judged(*old(self), *final(self), JudgeStatus::Error, JudgeResult::Unset),
    {
        if self.judge_status != JudgeStatus::Running {
            return CoreError::Conflict;
        }
        self.judge_status = JudgeStatus::Error;
        self.judge_result = JudgeResult::Unset;
        CoreError::NoInstance
    }

    /// Judges a running record statically against the flag of the running
    /// instance, if there is one.  Without one the record ends in error
    /// without verdict and `NoInstance` is returned.  A record that is not
    /// running is left as it is and `Conflict` is returned.
    pub fn finish_static(&mut self, flag: Option<&String>) -> (r: Result<JudgeResult, CoreError>)
        ensures
            old(self).judge_status != JudgeStatus::Running ==> *final(self) == *old(self)
                && r == Err::<JudgeResult, CoreError>(CoreError::Conflict),
            old(self).judge_status == JudgeStatus::Running ==> match flag {
                Some(f) => {
                    &&& r == Ok::<JudgeResult, CoreError>(static_result(old(self).judge_content@, f@))
                    &&& judged(*old(self), *final(self), JudgeStatus::Done, static_result(old(self).judge_content@, f@))
                },
                None => {
                    &&& r == Err::<JudgeResult, CoreError>(CoreError::NoInstance)
                    &&& judged(*old(self), *final(self), JudgeStatus::Error, JudgeResult::Unset)
                },
            },
    {
        if self.judge_status != JudgeStatus::Running {
            return Err(CoreError::Conflict);
        }
        match flag {
            Some(f) => {
                let v = compare_flag(self.judge_content.as_str(), f.as_str());
                self.judge_status = JudgeStatus::Done;
                self.judge_result = v;
                Ok(v)
            },
            None => {
                self.judge_status = JudgeStatus::Error;
                self.judge_result = JudgeResult::Unset;
                Err(CoreError::NoInstance)
            },
        }
    }
}

/// Judges a static submission against the instance store: the running
/// instance under the record's key supplies the flag; without one the
/// submission is answered with `NoInstance`.
pub fn judge_static(manager: &InstanceManager, record: &mut Judge, game_id: u64) -> (r: Result<JudgeResult, CoreError>)
    requires
        manager.wf(),
        old(record).judge_status == JudgeStatus::Running,
    ensures
        ({
            let key = InstanceKey { game_id, team_id: old(record).team_id, challenge_id: old(record).challenge_id };
            if has_running(manager.instances@, key) {
                exists|i: int| 0 <= i < manager.instances@.len() && (#[trigger] manager.instances@[i]).key == key
                    && is_live(manager.instances@[i].state.status)
                    && r == Ok::<JudgeResult, CoreError>(static_result(old(record).judge_content@, manager.instances@[i].flag_content@))
                    && judged(*old(record), *final(record), JudgeStatus::Done, static_result(old(record).judge_content@, manager.instances@[i].flag_content@))
            } else {
                &&& r == Err::<JudgeResult, CoreError>(CoreError::NoInstance)
                &&& judged(*old(record), *final(record), JudgeStatus::Error, JudgeResult::Unset)
            }
        }),
{
    let key = InstanceKey { game_id, team_id: record.team_id, challenge_id: record.challenge_id };
    let flag = manager.running_flag(key);
    match &flag {
        Some(f) => {
            proof {
                let i = choose|i: int| 0 <= i < manager.instances@.len() && manager.instances@[i].key == key
                    && (#[trigger] manager.instances@[i]).state.status == crate::lifecycle::InstanceStatus::Running;
                assert(is_live(manager.instances@[i].state.status));
            }
            record.finish_static(Some(f))
        },
        None => record.finish_static(None),
    }
}

/// A static submission is judged exactly: the provisioned flag itself is
/// correct, and a submission that differs from it in one character, by a
/// changed, an added or a missing character, is incorrect.
pub proof fn law_static_exact(flag: Seq<char>, i: int, c: char)
    ensures
        static_result(flag, flag) == JudgeResult::Correct,
        0 <= i < flag.len() && c != flag[i] ==> static_result(flag.update(i, c), flag) == JudgeResult::Incorrect,
        0 <= i <= flag.len() ==> static_result(flag.insert(i, c), flag) == JudgeResult::Incorrect,
        0 <= i < flag.len() ==> static_result(flag.remove(i), flag) == JudgeResult::Incorrect,
{
    if 0 <= i < flag.len() && c != flag[i] {
        assert(flag.update(i, c)[i] != flag[i]);
    }
    if 0 <= i <= flag.len() {
        assert(flag.insert(i, c).len() != flag.len());
    }
    if 0 <= i < flag.len() {
        assert(flag.remove(i).len() != flag.len());
    }
}

/// A procedure that errors never yields a verdict, let alone a correct one.
pub proof fn law_error_is_not_correct(o: ScriptOutcome)
    ensures
        o == ScriptOutcome::Errored ==> script_verdict(o) == (JudgeStatus::Error, JudgeResult::Unset),
        script_verdict(o).1 == JudgeResult::Correct ==> o == ScriptOutcome::Accepted,
{
}

/// The (team, challenge) pairs whose submission is being judged.  A second
/// submission of a held pair waits until the first is released.
#[derive(Debug)]
pub struct JudgeLocks {
    pub held: Vec<(u64, u64)>,
}

impl JudgeLocks {
    /// No pair is held twice.
    pub open spec fn wf(&self) -> bool {
        forall|a: int, b: int| 0 <= a < b < self.held@.len() ==> self.held@[a] != self.held@[b]
    }

    pub fn new() -> (r: JudgeLocks)
        ensures
            r.wf(),
            r.held@.len() == 0,
    {
        JudgeLocks { held: Vec::new() }
    }

    fn position(&self, team_id: u64, challenge_id: u64) -> (r: Option<usize>)
        ensures
            r matches Some(i) ==> i < self.held@.len() && self.held@[i as int] == (team_id, challenge_id),
            r is None ==> !self.held@.contains((team_id, challenge_id)),
    {
        let mut i: usize = 0;
        while i < self.held.len()
            invariant
                i <= self.held@.len(),
                forall|j: int| 0 <= j < i ==> self.held@[j] != (team_id, challenge_id),
            decreases self.held@.len() - i,
        {
            let (t, c) = self.held[i];
            if t == team_id && c == challenge_id {
                return Some(i);
            }
            i = i + 1;
        }
        None
    }

    /// Takes the pair's lock if it is free; tells whether it was taken.
    pub fn try_acquire(&mut self, team_id: u64, challenge_id: u64) -> (r: bool)
        requires
            old(self).wf(),
        ensures
            final(self).wf(),
            r == !old(self).held@.contains((team_id, challenge_id)),
            r ==> final(self).held@ == old(self).held@.push((team_id, challenge_id)),
            !r ==> final(self).held@ == old(self).held@,
    {
        match self.position(team_id, challenge_id) {
            Some(_) => false,
            None => {
                self.held.push((team_id, challenge_id));
                true
            },
        }
    }

    /// Gives the pair's lock back; other pairs stay as they are.
    pub fn release(&mut self, team_id: u64, challenge_id: u64)
        requires
            old(self).wf(),
        ensures
            final(self).wf(),
            !final(self).held@.contains((team_id, challenge_id)),
            forall|p: (u64, u64)| p != (team_id, challenge_id)
                ==> (final(self).held@.contains(p) <==> old(self).held@.contains(p)),
    {
        match self.position(team_id, challenge_id) {
            None => {},
            Some(i) => {
                let ghost before = self.held@;
                self.held.remove(i);
                proof {
                    assert(self.held@ =~= before.remove(i as int));
                    assert forall|p: (u64, u64)| p != (team_id, challenge_id)
                        implies (self.held@.contains(p) <==> before.contains(p)) by {
                        if before.contains(p) {
                            let w = choose|w: int| 0 <= w < before.len() && before[w] == p;
                            if w < i as int {
                                assert(self.held@[w] == p);
                            } else {
                                assert(w != i as int);
                                assert(self.held@[w - 1] == p);
                            }
                        }
                    }
                    if self.held@.contains((team_id, challenge_id)) {
                        let w = choose|w: int| 0 <= w < self.held@.len() && self.held@[w] == (team_id, challenge_id);
                        if w < i as int {
                            assert(before[w] == before[i as int]);
                        } else {
                            assert(before[w + 1] == before[i as int]);
                        }
                    }
                }
            },
        }
    }
}

} // verus!
