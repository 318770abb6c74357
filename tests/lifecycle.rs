use a1ctf::error::CoreError;
use a1ctf::judge::{judge_static, Judge, JudgeResult, JudgeStatus};
use a1ctf::lifecycle::{ClusterOp, InstanceKey, InstanceManager, InstanceStatus, Step};
use a1ctf::model::{A1Container, JudgeConfig, JudgeType, PodInfo, PortInfo, PortName};
use a1ctf::sweeper::backoff_secs;
use a1ctf::text::decimal;

const MINUTE: i64 = 60;

fn pod() -> PodInfo {
    PodInfo {
        name: "ezweb".to_string(),
        team_hash: "f489bf".to_string(),
        containers: vec![A1Container {
            name: "web".to_string(),
            image: "registry.local/web".to_string(),
            command: None,
            env: None,
            expose_ports: Some(vec![PortName { name: "http".to_string(), port: 80 }]),
        }],
    }
}

fn static_judge() -> JudgeConfig {
    JudgeConfig { judge_type: JudgeType::Static, judge_script: None, flag_template: Some("flag{[TOKEN]}".to_string()) }
}

fn key(team: u64) -> InstanceKey {
    InstanceKey { game_id: 1, team_id: team, challenge_id: 5 }
}

/// A stand-in for the cluster: the objects that exist, by kind and instance.
struct Cluster {
    objects: Vec<(&'static str, u64)>,
    refuse: Vec<ClusterOp>,
}

impl Cluster {
    fn new() -> Cluster {
        Cluster { objects: vec![], refuse: vec![] }
    }

    fn count(&self, id: u64) -> usize {
        self.objects.iter().filter(|(_, i)| *i == id).count()
    }

    fn has(&self, kind: &str, id: u64) -> bool {
        self.objects.iter().any(|(k, i)| *k == kind && *i == id)
    }

    /// Performs the calls an instance asks for until it is done or failed.
    fn drive(&mut self, m: &mut InstanceManager, id: u64, mut step: Step) -> Step {
        loop {
            let op = match step {
                Step::Perform(op) => op,
                other => return other,
            };
            let ok = !self.refuse.contains(&op);
            if ok {
                match op {
                    ClusterOp::CreateWorkload => self.objects.push(("workload", id)),
                    ClusterOp::CreateExposure => self.objects.push(("exposure", id)),
                    ClusterOp::DeleteExposure => self.objects.retain(|o| *o != ("exposure", id)),
                    ClusterOp::DeleteWorkload => self.objects.retain(|o| *o != ("workload", id)),
                }
            }
            let endpoints = vec![PortInfo { name: "http".to_string(), port: 80, ip: "10.0.0.9:31080".to_string() }];
            step = m.reply(id, op, ok, endpoints);
        }
    }
}

fn status_of(m: &InstanceManager, id: u64) -> InstanceStatus {
    m.instances.iter().find(|c| c.container_id == id).unwrap().state.status
}

fn start_running(m: &mut InstanceManager, cluster: &mut Cluster, team: u64, now: i64) -> u64 {
    let t = m.start(key(team), &static_judge(), &pod(), "secret", now, 60 * MINUTE).unwrap();
    assert_eq!(t.step, Step::Perform(ClusterOp::CreateWorkload));
    assert_eq!(cluster.drive(m, t.instance_id, t.step), Step::Done);
    t.instance_id
}

#[test]
fn start_reaches_running_with_endpoints() {
    let mut m = InstanceManager::new();
    let mut cluster = Cluster::new();
    let id = start_running(&mut m, &mut cluster, 7, 0);
    assert_eq!(status_of(&m, id), InstanceStatus::Running);
    assert!(cluster.has("workload", id) && cluster.has("exposure", id));
    let c = &m.instances[0];
    assert_eq!(c.expire_time, 60 * MINUTE);
    assert_eq!(c.expose_ports.len(), 1);
    assert_eq!(c.expose_ports[0].ip, "10.0.0.9:31080");
    assert!(c.flag_content.starts_with(&format!("flag{{7-{}-", id)));
}

#[test]
fn second_start_conflicts() {
    let mut m = InstanceManager::new();
    let mut cluster = Cluster::new();
    let id = start_running(&mut m, &mut cluster, 7, 0);
    let again = m.start(key(7), &static_judge(), &pod(), "secret", 10, 60 * MINUTE);
    assert_eq!(again.err(), Some(CoreError::Conflict));
    let live = m.instances.iter().filter(|c| c.key == key(7) && c.state.status == InstanceStatus::Running).count();
    assert_eq!(live, 1);
    assert_eq!(m.instances.len(), 1);
    assert_eq!(status_of(&m, id), InstanceStatus::Running);
    // another team is not affected
    start_running(&mut m, &mut cluster, 8, 10);
}

#[test]
fn stop_is_idempotent() {
    let mut m = InstanceManager::new();
    let mut cluster = Cluster::new();
    let id = start_running(&mut m, &mut cluster, 7, 0);
    let first = m.stop(id);
    assert_eq!(first, Step::Perform(ClusterOp::DeleteExposure));
    assert_eq!(cluster.drive(&mut m, id, first), Step::Done);
    assert_eq!(status_of(&m, id), InstanceStatus::Terminated);
    assert_eq!(cluster.count(id), 0);
    let second = m.stop(id);
    assert_eq!(second, Step::Done);
    assert_eq!(cluster.count(id), 0);
    assert_eq!(m.stop(999), Step::Fail(CoreError::NotFound));
}

#[test]
fn restart_gets_a_new_flag() {
    let mut m = InstanceManager::new();
    let mut cluster = Cluster::new();
    let id1 = start_running(&mut m, &mut cluster, 7, 0);
    let step = m.stop(id1);
    cluster.drive(&mut m, id1, step);
    let id2 = start_running(&mut m, &mut cluster, 7, 100);
    assert_ne!(id1, id2);
    assert_ne!(m.instances[0].flag_content, m.instances[1].flag_content);
}

#[test]
fn lease_expiry_then_no_instance() {
    let mut m = InstanceManager::new();
    let mut cluster = Cluster::new();
    let id = start_running(&mut m, &mut cluster, 7, 0);
    assert!(m.expired_ids(59 * MINUTE).is_empty());
    let due = m.expired_ids(61 * MINUTE);
    assert_eq!(due, vec![id]);
    let step = m.expire(id);
    assert_eq!(status_of(&m, id), InstanceStatus::Expiring);
    assert_eq!(cluster.drive(&mut m, id, step), Step::Done);
    assert_eq!(status_of(&m, id), InstanceStatus::Terminated);
    assert_eq!(cluster.count(id), 0);
    let mut record = Judge::new(1, key(7), JudgeType::Static, "flag{anything}", 62 * MINUTE);
    record.begin();
    assert_eq!(judge_static(&m, &mut record, 1), Err(CoreError::NoInstance));
    assert_eq!(record.judge_status, JudgeStatus::Error);
    assert_eq!(record.judge_result, JudgeResult::Unset);
}

#[test]
fn failed_exposure_rolls_back_workload() {
    let mut m = InstanceManager::new();
    let mut cluster = Cluster::new();
    cluster.refuse = vec![ClusterOp::CreateExposure];
    let t = m.start(key(7), &static_judge(), &pod(), "secret", 0, 60 * MINUTE).unwrap();
    let id = t.instance_id;
    let end = cluster.drive(&mut m, id, t.step);
    assert_eq!(end, Step::Fail(CoreError::ClusterUnavailable));
    assert!(!cluster.has("workload", id));
    assert_eq!(cluster.count(id), 0);
    assert_eq!(status_of(&m, id), InstanceStatus::Failed);
    // the key is free again
    let again = m.start(key(7), &static_judge(), &pod(), "secret", 1, 60 * MINUTE);
    assert!(again.is_ok());
}

#[test]
fn failed_workload_creation_fails_start() {
    let mut m = InstanceManager::new();
    let mut cluster = Cluster::new();
    cluster.refuse = vec![ClusterOp::CreateWorkload];
    let t = m.start(key(7), &static_judge(), &pod(), "secret", 0, 60 * MINUTE).unwrap();
    assert_eq!(cluster.drive(&mut m, t.instance_id, t.step), Step::Fail(CoreError::ClusterUnavailable));
    assert_eq!(cluster.count(t.instance_id), 0);
}

#[test]
fn start_rejects_bad_input_before_any_call() {
    let mut m = InstanceManager::new();
    let no_template = JudgeConfig { judge_type: JudgeType::Static, judge_script: None, flag_template: Some("flag{fixed}".to_string()) };
    assert_eq!(m.start(key(7), &no_template, &pod(), "s", 0, 60).err(), Some(CoreError::PlanInvalid));
    assert_eq!(m.start(key(7), &static_judge(), &pod(), "s", 0, 0).err(), Some(CoreError::PlanInvalid));
    assert_eq!(m.start(key(7), &static_judge(), &pod(), "s", i64::MAX, 1).err(), Some(CoreError::PlanInvalid));
    let mut portless = pod();
    portless.containers[0].expose_ports = None;
    assert_eq!(m.start(key(7), &static_judge(), &portless, "s", 0, 60).err(), Some(CoreError::PlanInvalid));
    assert!(m.instances.is_empty());
    assert_eq!(m.next_id, 1);
}

#[test]
fn renew_extends_only_running() {
    let mut m = InstanceManager::new();
    let mut cluster = Cluster::new();
    let id = start_running(&mut m, &mut cluster, 7, 0);
    assert_eq!(m.renew(id, 30 * MINUTE, 60 * MINUTE), Ok(90 * MINUTE));
    assert_eq!(m.renew(id, 0, 10), Ok(90 * MINUTE));
    assert_eq!(m.renew(id, 0, 0), Err(CoreError::PlanInvalid));
    assert_eq!(m.renew(77, 0, 10), Err(CoreError::NotFound));
    let step = m.stop(id);
    cluster.drive(&mut m, id, step);
    assert_eq!(m.renew(id, 0, 10), Err(CoreError::Conflict));
}

#[test]
fn teardown_failures_are_counted_and_given_up() {
    let mut m = InstanceManager::new();
    let mut cluster = Cluster::new();
    let id = start_running(&mut m, &mut cluster, 7, 0);
    cluster.refuse = vec![ClusterOp::DeleteExposure];
    let step = m.expire(id);
    assert_eq!(cluster.drive(&mut m, id, step), Step::Fail(CoreError::ClusterUnavailable));
    assert_eq!(status_of(&m, id), InstanceStatus::Expiring);
    for _ in 0..2 {
        let step = m.stop(id);
        assert_eq!(cluster.drive(&mut m, id, step), Step::Fail(CoreError::ClusterUnavailable));
    }
    assert_eq!(status_of(&m, id), InstanceStatus::Failed);
    // reconciliation finds its objects orphaned, and a later stop clears them
    let labels = vec![decimal(id), decimal(id + 40)];
    assert_eq!(m.orphans(&labels), vec![0, 1]);
    cluster.refuse.clear();
    let step = m.stop(id);
    assert_eq!(cluster.drive(&mut m, id, step), Step::Done);
    assert_eq!(cluster.count(id), 0);
    assert_eq!(status_of(&m, id), InstanceStatus::Terminated);
}

#[test]
fn orphans_are_objects_of_no_live_instance() {
    let mut m = InstanceManager::new();
    let mut cluster = Cluster::new();
    let a = start_running(&mut m, &mut cluster, 7, 0);
    let b = start_running(&mut m, &mut cluster, 8, 0);
    let step = m.stop(b);
    cluster.drive(&mut m, b, step);
    let labels = vec![decimal(a), decimal(b), "123456".to_string(), "not-a-number".to_string()];
    assert_eq!(m.orphans(&labels), vec![1, 2, 3]);
}

#[test]
fn unexpected_reply_is_refused() {
    let mut m = InstanceManager::new();
    let t = m.start(key(7), &static_judge(), &pod(), "s", 0, 60).unwrap();
    assert_eq!(m.reply(t.instance_id, ClusterOp::CreateExposure, true, vec![]), Step::Fail(CoreError::Conflict));
    assert_eq!(m.reply(4242, ClusterOp::CreateWorkload, true, vec![]), Step::Fail(CoreError::NotFound));
    assert_eq!(m.stop(t.instance_id), Step::Fail(CoreError::Conflict));
}

#[test]
fn backoff_doubles_up_to_cap() {
    assert_eq!(backoff_secs(0), 5);
    assert_eq!(backoff_secs(1), 5);
    assert_eq!(backoff_secs(2), 10);
    assert_eq!(backoff_secs(3), 20);
    assert_eq!(backoff_secs(7), 300);
    assert_eq!(backoff_secs(u32::MAX), 300);
}
