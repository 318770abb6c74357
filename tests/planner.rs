use a1ctf::error::CoreError;
use a1ctf::flag::{find_placeholder, provision, token};
use a1ctf::model::{A1Container, EnvVar, JudgeConfig, JudgeType, PodInfo, PortName};
use a1ctf::planner::{exposed_endpoints, needs_namespace, object_name, plan, validate_containers, ExposedPort};

fn container(name: &str, ports: &[(&str, i32)]) -> A1Container {
    A1Container {
        name: name.to_string(),
        image: format!("registry.local/{}", name),
        command: None,
        env: None,
        expose_ports: if ports.is_empty() {
            None
        } else {
            Some(ports.iter().map(|(n, p)| PortName { name: n.to_string(), port: *p }).collect())
        },
    }
}

fn pod() -> PodInfo {
    let mut web = container("web", &[("http", 80)]);
    web.env = Some(vec![EnvVar { name: "MODE".to_string(), value: "ctf".to_string() }]);
    web.command = Some(vec!["serve".to_string(), "--port=80".to_string()]);
    PodInfo {
        name: "ezweb".to_string(),
        team_hash: "f489bf".to_string(),
        containers: vec![web, container("db", &[]), container("nc", &[("pwn", 70), ("dbg", 9000)])],
    }
}

#[test]
fn plan_names_labels_and_ports() {
    let p = plan(&pod(), 7, 12, 3, &None).unwrap();
    assert_eq!(p.workload_name, "ezweb-f489bf");
    assert_eq!(p.service_name, "ezweb-f489bf");
    let labels: Vec<(String, String)> = p.labels.iter().map(|l| (l.key.clone(), l.value.clone())).collect();
    assert_eq!(
        labels,
        vec![
            ("app".to_string(), "ezweb-f489bf".to_string()),
            ("a1ctf/team".to_string(), "7".to_string()),
            ("a1ctf/challenge".to_string(), "12".to_string()),
            ("a1ctf/instance".to_string(), "3".to_string()),
        ]
    );
    let names: Vec<&str> = p.containers.iter().map(|c| c.name.as_str()).collect();
    assert_eq!(names, vec!["web-f489bf", "db-f489bf", "nc-f489bf"]);
    assert_eq!(p.containers[0].image, "registry.local/web");
    assert_eq!(p.containers[0].command, Some(vec!["serve".to_string(), "--port=80".to_string()]));
    assert_eq!(p.containers[0].env.len(), 1);
    assert_eq!(p.containers[1].ports.len(), 0);
    let sp: Vec<(String, i32, String)> =
        p.service_ports.iter().map(|s| (s.name.clone(), s.port, s.target.clone())).collect();
    assert_eq!(
        sp,
        vec![
            ("fd-web-f489bf-80".to_string(), 80, "http".to_string()),
            ("fd-nc-f489bf-70".to_string(), 70, "pwn".to_string()),
            ("fd-nc-f489bf-9000".to_string(), 9000, "dbg".to_string()),
        ]
    );
}

#[test]
fn plan_injects_flag() {
    let p = plan(&pod(), 7, 12, 3, &Some("flag{x}".to_string())).unwrap();
    let web = &p.containers[0];
    assert_eq!(web.env.len(), 2);
    assert_eq!(web.env[0].name, "MODE");
    assert_eq!(web.env[1].name, "FLAG");
    assert_eq!(web.env[1].value, "flag{x}");
    assert_eq!(p.containers[1].env.len(), 1);
    assert_eq!(p.containers[1].env[0].value, "flag{x}");
}

#[test]
fn plan_is_deterministic() {
    let a = plan(&pod(), 1, 2, 3, &None).unwrap();
    let b = plan(&pod(), 1, 2, 3, &None).unwrap();
    assert_eq!(a.workload_name, b.workload_name);
    assert_eq!(a.service_ports.len(), b.service_ports.len());
    let mut other = pod();
    other.team_hash = "0c0ffe".to_string();
    assert_eq!(object_name(&other), "ezweb-0c0ffe");
    assert_ne!(plan(&other, 1, 2, 3, &None).unwrap().workload_name, a.workload_name);
}

#[test]
fn plan_rejects_malformed_declarations() {
    let mut no_ports = pod();
    no_ports.containers = vec![container("db", &[])];
    assert!(!validate_containers(&no_ports.containers));
    assert_eq!(plan(&no_ports, 1, 1, 1, &None).err(), Some(CoreError::PlanInvalid));
    let mut empty = pod();
    empty.containers = vec![];
    assert_eq!(plan(&empty, 1, 1, 1, &None).err(), Some(CoreError::PlanInvalid));
    let mut bad_port = pod();
    bad_port.containers.push(container("x", &[("p", 0)]));
    assert_eq!(plan(&bad_port, 1, 1, 1, &None).err(), Some(CoreError::PlanInvalid));
    let mut high_port = pod();
    high_port.containers.push(container("x", &[("p", 65536)]));
    assert_eq!(plan(&high_port, 1, 1, 1, &None).err(), Some(CoreError::PlanInvalid));
}

fn static_judge(template: Option<&str>) -> JudgeConfig {
    JudgeConfig { judge_type: JudgeType::Static, judge_script: None, flag_template: template.map(|t| t.to_string()) }
}

#[test]
fn placeholder_search() {
    assert_eq!(find_placeholder("flag{[TOKEN]}"), Some(5));
    assert_eq!(find_placeholder("[TOKEN][TOKEN]"), Some(0));
    assert_eq!(find_placeholder("flag{[TOKEN}"), None);
    assert_eq!(find_placeholder(""), None);
}

#[test]
fn token_layout() {
    assert_eq!(token("s", 7, 3), "7-3-fdd48012e1788e529e90130ac7bb70db");
}

#[test]
fn static_flag_from_template() {
    let f = provision(&static_judge(Some("flag{[TOKEN]}")), 7, 3, "s").unwrap();
    assert_eq!(f, Some("flag{7-3-fdd48012e1788e529e90130ac7bb70db}".to_string()));
    let g = provision(&static_judge(Some("A[TOKEN]B[TOKEN]")), 42, 1, "k").unwrap();
    assert_eq!(g, Some("A42-1-7acbb9a71f91b075f01caad02d7d0db6B[TOKEN]".to_string()));
}

#[test]
fn flags_differ_between_teams_and_instances() {
    let j = static_judge(Some("flag{[TOKEN]}"));
    let a = provision(&j, 7, 3, "s").unwrap().unwrap();
    let b = provision(&j, 8, 3, "s").unwrap().unwrap();
    let c = provision(&j, 7, 4, "s").unwrap().unwrap();
    assert_eq!(b, "flag{8-3-d399a1ec7a1a6c06d4f9249922aad56d}");
    assert_ne!(a, b);
    assert_ne!(a, c);
    assert_ne!(b, c);
    let d = provision(&j, 71, 3, "s").unwrap().unwrap();
    let e = provision(&j, 7, 13, "s").unwrap().unwrap();
    assert_ne!(d, e);
}

#[test]
fn provisioning_fails_closed() {
    assert_eq!(provision(&static_judge(Some("flag{static}")), 1, 1, "s"), Err(CoreError::PlanInvalid));
    assert_eq!(provision(&static_judge(None), 1, 1, "s"), Err(CoreError::PlanInvalid));
    let dynamic = JudgeConfig { judge_type: JudgeType::Dynamic, judge_script: Some("check.py".to_string()), flag_template: None };
    assert_eq!(provision(&dynamic, 1, 1, "s"), Ok(None));
    let script = JudgeConfig { judge_type: JudgeType::Script, judge_script: None, flag_template: Some("x".to_string()) };
    assert_eq!(provision(&script, 1, 1, "s"), Ok(None));
}

#[test]
fn endpoints_from_node_ports() {
    let ports = vec![
        ExposedPort { name: "fd-web-f489bf-80".to_string(), port: 80, node_port: Some(31080) },
        ExposedPort { name: "fd-nc-f489bf-70".to_string(), port: 70, node_port: Some(30070) },
    ];
    let e = exposed_endpoints(&ports, "node-3").unwrap();
    assert_eq!(e.len(), 2);
    assert_eq!(e[0].ip, "node-3:31080");
    assert_eq!(e[1].ip, "node-3:30070");
    assert_eq!(e[1].port, 70);
    assert_eq!(e[1].name, "fd-nc-f489bf-70");
    let mut pending = ports.clone();
    pending[1].node_port = None;
    assert!(exposed_endpoints(&pending, "node-3").is_none());
    let mut bad = ports.clone();
    bad[0].node_port = Some(0);
    assert!(exposed_endpoints(&bad, "node-3").is_none());
    assert_eq!(exposed_endpoints(&vec![], "n").unwrap().len(), 0);
}

#[test]
fn namespace_creation_only_when_absent() {
    let existing = vec!["default".to_string(), "kube-system".to_string()];
    assert!(needs_namespace(&existing, "a1ctf-challenges"));
    let mut with = existing.clone();
    with.push("a1ctf-challenges".to_string());
    assert!(!needs_namespace(&with, "a1ctf-challenges"));
    assert!(needs_namespace(&vec![], "a1ctf-challenges"));
}
