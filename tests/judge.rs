use a1ctf::error::CoreError;
use a1ctf::judge::{
    compare_flag, judge_static, resolve_judge_config, Judge, JudgeLocks, JudgeResult, JudgeStatus,
    ScriptOutcome,
};
use a1ctf::lifecycle::{ClusterOp, InstanceKey, InstanceManager, Step};
use a1ctf::model::{A1Container, JudgeConfig, JudgeType, PodInfo, PortName};

fn key() -> InstanceKey {
    InstanceKey { game_id: 3, team_id: 11, challenge_id: 4 }
}

fn running_manager() -> (InstanceManager, String) {
    let pod = PodInfo {
        name: "crackme".to_string(),
        team_hash: "aa11".to_string(),
        containers: vec![A1Container {
            name: "svc".to_string(),
            image: "registry.local/svc".to_string(),
            command: None,
            env: None,
            expose_ports: Some(vec![PortName { name: "tcp".to_string(), port: 1337 }]),
        }],
    };
    let judge = JudgeConfig { judge_type: JudgeType::Static, judge_script: None, flag_template: Some("ctf{[TOKEN]}".to_string()) };
    let mut m = InstanceManager::new();
    let t = m.start(key(), &judge, &pod, "pepper", 0, 3600).unwrap();
    let id = t.instance_id;
    assert_eq!(m.reply(id, ClusterOp::CreateWorkload, true, vec![]), Step::Perform(ClusterOp::CreateExposure));
    assert_eq!(m.reply(id, ClusterOp::CreateExposure, true, vec![]), Step::Done);
    let flag = m.instances[0].flag_content.clone();
    (m, flag)
}

fn submission(content: &str) -> Judge {
    let mut j = Judge::new(1, key(), JudgeType::Static, content, 100);
    assert_eq!(j.judge_status, JudgeStatus::Pending);
    assert_eq!(j.judge_result, JudgeResult::Unset);
    j.begin();
    assert_eq!(j.judge_status, JudgeStatus::Running);
    j
}

#[test]
fn exact_flag_is_correct() {
    let (m, flag) = running_manager();
    let mut j = submission(&flag);
    assert_eq!(judge_static(&m, &mut j, 3), Ok(JudgeResult::Correct));
    assert_eq!(j.judge_status, JudgeStatus::Done);
    assert_eq!(j.judge_result, JudgeResult::Correct);
}

#[test]
fn single_character_mutations_are_incorrect() {
    let (m, flag) = running_manager();
    let chars: Vec<char> = flag.chars().collect();
    for i in 0..chars.len() {
        let mut changed = chars.clone();
        changed[i] = if chars[i] == 'x' { 'y' } else { 'x' };
        let s: String = changed.into_iter().collect();
        let mut j = submission(&s);
        assert_eq!(judge_static(&m, &mut j, 3), Ok(JudgeResult::Incorrect));
        let mut shorter = chars.clone();
        shorter.remove(i);
        let s: String = shorter.into_iter().collect();
        let mut j = submission(&s);
        assert_eq!(judge_static(&m, &mut j, 3), Ok(JudgeResult::Incorrect));
    }
    let mut j = submission(&format!("{}!", flag));
    assert_eq!(judge_static(&m, &mut j, 3), Ok(JudgeResult::Incorrect));
}

#[test]
fn submission_without_instance() {
    let m = InstanceManager::new();
    let mut j = submission("ctf{guess}");
    assert_eq!(judge_static(&m, &mut j, 3), Err(CoreError::NoInstance));
    assert_eq!(j.judge_status, JudgeStatus::Error);
    assert_eq!(j.judge_result, JudgeResult::Unset);
    let (m, flag) = running_manager();
    let mut other_game = submission(&flag);
    assert_eq!(judge_static(&m, &mut other_game, 4), Err(CoreError::NoInstance));
}

#[test]
fn script_outcomes() {
    let mut ok = submission("x");
    ok.finish_script(ScriptOutcome::Accepted);
    assert_eq!((ok.judge_status, ok.judge_result), (JudgeStatus::Done, JudgeResult::Correct));
    let mut no = submission("x");
    no.finish_script(ScriptOutcome::Rejected);
    assert_eq!((no.judge_status, no.judge_result), (JudgeStatus::Done, JudgeResult::Incorrect));
    let mut err = submission("x");
    err.finish_script(ScriptOutcome::Errored);
    assert_eq!((err.judge_status, err.judge_result), (JudgeStatus::Error, JudgeResult::Unset));
}

#[test]
fn terminal_records_are_not_changed() {
    let mut j = submission("x");
    j.finish_script(ScriptOutcome::Errored);
    j.finish_script(ScriptOutcome::Accepted);
    assert_eq!((j.judge_status, j.judge_result), (JudgeStatus::Error, JudgeResult::Unset));
    assert_eq!(j.finish_static(Some(&"x".to_string())), Err(CoreError::Conflict));
    assert_eq!(j.judge_result, JudgeResult::Unset);
    j.begin();
    assert_eq!(j.judge_status, JudgeStatus::Error);
    let mut pending = Judge::new(2, key(), JudgeType::Script, "y", 0);
    pending.finish_script(ScriptOutcome::Accepted);
    assert_eq!(pending.judge_status, JudgeStatus::Pending);
}

#[test]
fn flag_comparison_is_byte_exact() {
    assert_eq!(compare_flag("flag{a}", "flag{a}"), JudgeResult::Correct);
    assert_eq!(compare_flag("flag{A}", "flag{a}"), JudgeResult::Incorrect);
    assert_eq!(compare_flag("flag{a} ", "flag{a}"), JudgeResult::Incorrect);
    assert_eq!(compare_flag("", ""), JudgeResult::Correct);
}

#[test]
fn game_override_wins() {
    let base = Some(JudgeConfig { judge_type: JudgeType::Static, judge_script: None, flag_template: Some("a[TOKEN]".to_string()) });
    let over = Some(JudgeConfig { judge_type: JudgeType::Script, judge_script: Some("v.sh".to_string()), flag_template: None });
    assert_eq!(resolve_judge_config(&over, &base).unwrap().judge_type, JudgeType::Script);
    assert_eq!(resolve_judge_config(&None, &base).unwrap().judge_type, JudgeType::Static);
    assert!(resolve_judge_config(&None, &None).is_none());
}

#[test]
fn judge_lock_per_pair() {
    let mut locks = JudgeLocks::new();
    assert!(locks.try_acquire(1, 2));
    assert!(!locks.try_acquire(1, 2));
    assert!(locks.try_acquire(1, 3));
    assert!(locks.try_acquire(2, 2));
    locks.release(1, 2);
    assert!(locks.try_acquire(1, 2));
    assert!(!locks.try_acquire(1, 3));
    locks.release(9, 9);
    assert_eq!(locks.held.len(), 3);
}
