use vstd::prelude::*;
use crate::error::CoreError;
use crate::model::{
    declared_env, declared_ports, valid_containers, valid_port, A1Container, EnvVar, PodInfo,
    PortInfo, PortName,
};
use crate::text::{dec, push_char, push_decimal};

verus! {

/// Name of the environment entry that carries a provisioned flag.
pub const FLAG_ENV: &'static str = "FLAG";

/// A key and value attached to every cluster object of an instance.
#[derive(Clone, Debug)]
pub struct Label {
    pub key: String,
    pub value: String,
}

/// One concrete container of a plan.
#[derive(Clone, Debug)]
pub struct ContainerPlan {
    pub name: String,
    pub image: String,
    pub command: Option<Vec<String>>,
    pub env: Vec<EnvVar>,
    pub ports: Vec<PortName>,
}

/// One externally reachable port of the exposure object, aimed at a named
/// container port.
#[derive(Clone, Debug)]
pub struct ServicePortPlan {
    pub name: String,
    pub port: i32,
    pub target: String,
}

/// The concrete cluster objects of one instance: a workload of containers and
/// an exposure object, named and labelled deterministically.
#[derive(Clone, Debug)]
pub struct ResourcePlan {
    pub workload_name: String,
    pub service_name: String,
    pub labels: Vec<Label>,
    pub containers: Vec<ContainerPlan>,
    pub service_ports: Vec<ServicePortPlan>,
}

/// Two names joined by a dash.
pub open spec fn joined(a: Seq<char>, b: Seq<char>) -> Seq<char> {
    a + seq!['-'] + b
}

/// The name of an exposed port: `fd-<container>-<team token>-<port>`.
pub open spec fn service_port_name(container: Seq<char>, hash: Seq<char>, port: i32) -> Seq<char> {
    seq!['f', 'd', '-'] + container + seq!['-'] + hash + seq!['-'] + dec(port as nat)
}

/// What a planned exposed port holds: its name, its port and the container
/// port it targets.
pub open spec fn port_view(sp: ServicePortPlan) -> (Seq<char>, i32, Seq<char>) {
    (sp.name@, sp.port, sp.target@)
}

/// The exposed ports that one declared container contributes.
pub open spec fn container_service_ports(c: A1Container, hash: Seq<char>) -> Seq<(Seq<char>, i32, Seq<char>)> {
    declared_ports(c).map_values(|p: PortName| (service_port_name(c.name@, hash, p.port), p.port, p.name@))
}

/// The exposed ports of all declared containers, in declaration order.
pub open spec fn planned_service_ports(cs: Seq<A1Container>, hash: Seq<char>) -> Seq<(Seq<char>, i32, Seq<char>)>
    decreases cs.len(),
{
    if cs.len() == 0 {
        Seq::empty()
    } else {
        planned_service_ports(cs.drop_last(), hash) + container_service_ports(cs.last(), hash)
    }
}

/// `a` holds the same names and values as `b`, in order.
pub open spec fn same_env(a: Seq<EnvVar>, b: Seq<EnvVar>) -> bool {
    &&& a.len() == b.len()
    &&& forall|k: int| 0 <= k < a.len() ==> (#[trigger] a[k]).name@ == b[k].name@ && a[k].value@ == b[k].value@
}

/// `a` holds the same names and ports as `b`, in order.
pub open spec fn same_ports(a: Seq<PortName>, b: Seq<PortName>) -> bool {
    &&& a.len() == b.len()
    &&& forall|k: int| 0 <= k < a.len() ==> (#[trigger] a[k]).name@ == b[k].name@ && a[k].port == b[k].port
}

/// The texts of an optional list of strings.
pub open spec fn strings_view(o: Option<Vec<String>>) -> Option<Seq<String>> {
    match o {
        Some(v) => Some(v@),
        None => None,
    }
}

/// The environment of a planned container: what the container declares,
/// then the flag where one is given.
pub open spec fn env_planned(env: Seq<EnvVar>, c: A1Container, flag: Option<String>) -> bool {
    let d = declared_env(c);
    match flag {
        Some(f) => {
            &&& env.len() == d.len() + 1
            &&& same_env(env.take(d.len() as int), d)
            &&& env[d.len() as int].name@ == FLAG_ENV@
            &&& env[d.len() as int].value@ == f@
        },
        None => same_env(env, d),
    }
}

/// A planned container is the declared one, renamed for the team.
pub open spec fn container_planned(p: ContainerPlan, c: A1Container, hash: Seq<char>, flag: Option<String>) -> bool {
    &&& p.name@ == joined(c.name@, hash)
    &&& p.image@ == c.image@
    &&& strings_view(p.command) == strings_view(c.command)
    &&& env_planned(p.env@, c, flag)
    &&& same_ports(p.ports@, declared_ports(c))
}

/// The labels of an instance's objects: the shared object name, the team,
/// the challenge and the instance.
pub open spec fn labels_planned(labels: Seq<Label>, name: Seq<char>, team_id: u64, challenge_id: u64, instance_id: u64) -> bool {
    &&& labels.len() == 4
    &&& labels[0].key@ == "app"@ && labels[0].value@ == name
    &&& labels[1].key@ == "a1ctf/team"@ && labels[1].value@ == dec(team_id as nat)
    &&& labels[2].key@ == "a1ctf/challenge"@ && labels[2].value@ == dec(challenge_id as nat)
    &&& labels[3].key@ == "a1ctf/instance"@ && labels[3].value@ == dec(instance_id as nat)
}

/// The name shared by the workload and the exposure object of a pod.
pub fn object_name(pod: &PodInfo) -> (r: String)
    ensures
        r@ == joined(pod.name@, pod.team_hash@),
{
    let mut r = pod.name.clone();
    push_char(&mut r, '-');
    r.append(pod.team_hash.as_str());
    proof {
        assert(r@ =~= joined(pod.name@, pod.team_hash@));
    }
    r
}

fn copy_strings(v: &Vec<String>) -> (r: Vec<String>)
    ensures
        r@ == v@,
{
    let mut r: Vec<String> = Vec::new();
    let mut i: usize = 0;
    while i < v.len()
        invariant
            i <= v.len(),
            r@ == v@.take(i as int),
        decreases v.len() - i,
    {
        r.push(v[i].clone());
        proof {
            assert(v@.take(i as int + 1) =~= v@.take(i as int).push(v@[i as int]));
        }
        i = i + 1;
    }
    proof {
        assert(v@.take(v.len() as int) =~= v@);
    }
    r
}

fn copy_env(v: &Vec<EnvVar>) -> (r: Vec<EnvVar>)
    ensures
        same_env(r@, v@),
{
    let mut r: Vec<EnvVar> = Vec::new();
    let mut i: usize = 0;
    while i < v.len()
        invariant
            i <= v.len(),
            same_env(r@, v@.take(i as int)),
        decreases v.len() - i,
    {
        r.push(EnvVar { name: v[i].name.clone(), value: v[i].value.clone() });
        i = i + 1;
    }
    proof {
        assert(v@.take(v.len() as int) =~= v@);
    }
    r
}

fn copy_ports(v: &Vec<PortName>) -> (r: Vec<PortName>)
    ensures
        same_ports(r@, v@),
{
    let mut r: Vec<PortName> = Vec::new();
    let mut i: usize = 0;
    while i < v.len()
        invariant
            i <= v.len(),
            same_ports(r@, v@.take(i as int)),
        decreases v.len() - i,
    {
        r.push(PortName { name: v[i].name.clone(), port: v[i].port });
        i = i + 1;
    }
    proof {
        assert(v@.take(v.len() as int) =~= v@);
    }
    r
}

/// Whether declared containers can be planned.
pub fn validate_containers(cs: &Vec<A1Container>) -> (r: bool)
    ensures
        r == valid_containers(cs@),
{
    if cs.len() == 0 {
        return false;
    }
    let mut any_port = false;
    let mut i: usize = 0;
    while i < cs.len()
        invariant
            i <= cs.len(),
            any_port == exists|a: int| 0 <= a < i && declared_ports(#[trigger] cs@[a]).len() > 0,
            forall|a: int, b: int|
                0 <= a < i && 0 <= b < declared_ports(cs@[a]).len()
                    ==> valid_port(#[trigger] declared_ports(#[trigger] cs@[a])[b].port),
        decreases cs.len() - i,
    {
        match &cs[i].expose_ports {
            Some(ports) => {
                let mut j: usize = 0;
                while j < ports.len()
                    invariant
                        i < cs.len(),
                        j <= ports.len(),
                        declared_ports(cs@[i as int]) == ports@,
                        forall|b: int| 0 <= b < j ==> valid_port(#[trigger] ports@[b].port),
                    decreases ports.len() - j,
                {
                    if ports[j].port < 1 || ports[j].port > 65535 {
                        assert(!valid_port(declared_ports(cs@[i as int])[j as int].port));
                        return false;
                    }
                    j = j + 1;
                }
                if ports.len() > 0 {
                    any_port = true;
                }
            },
            None => {},
        }
        proof {
            assert forall|a: int, b: int|
                0 <= a < i + 1 && 0 <= b < declared_ports(cs@[a]).len()
                    implies valid_port(#[trigger] declared_ports(#[trigger] cs@[a])[b].port) by {
                if a == i as int {
                }
            }
        }
        i = i + 1;
    }
    any_port
}

/// `p` is the plan of `pod` for the given owner, with `flag` injected.
pub open spec fn is_plan_of(
    p: ResourcePlan,
    pod: PodInfo,
    team_id: u64,
    challenge_id: u64,
    instance_id: u64,
    flag: Option<String>,
) -> bool {
    let name = joined(pod.name@, pod.team_hash@);
    &&& p.workload_name@ == name
    &&& p.service_name@ == name
    &&& labels_planned(p.labels@, name, team_id, challenge_id, instance_id)
    &&& p.containers@.len() == pod.containers@.len()
    &&& forall|i: int| 0 <= i < p.containers@.len()
        ==> container_planned(#[trigger] p.containers@[i], pod.containers@[i], pod.team_hash@, flag)
    &&& p.service_ports@.map_values(|sp: ServicePortPlan| port_view(sp))
        == planned_service_ports(pod.containers@, pod.team_hash@)
}

fn plan_container(c: &A1Container, hash: &String, flag: &Option<String>) -> (r: ContainerPlan)
    ensures
        container_planned(r, *c, hash@, *flag),
{
    let mut name = c.name.clone();
    push_char(&mut name, '-');
    name.append(hash.as_str());
    proof {
        assert(name@ =~= joined(c.name@, hash@));
    }
    let command = match &c.command {
        Some(v) => Some(copy_strings(v)),
        None => None,
    };
    let mut env = match &c.env {
        Some(v) => copy_env(v),
        None => Vec::new(),
    };
    let ghost declared = env@;
    match flag {
        Some(f) => {
            env.push(EnvVar { name: String::from_str(FLAG_ENV), value: f.clone() });
            proof {
                assert(env@.take(declared.len() as int) =~= declared);
            }
        },
        None => {},
    }
    let ports = match &c.expose_ports {
        Some(v) => copy_ports(v),
        None => Vec::new(),
    };
    ContainerPlan { name, image: c.image.clone(), command, env, ports }
}

fn service_port(c: &A1Container, hash: &String, p: &PortName) -> (r: ServicePortPlan)
    requires
        valid_port(p.port),
    ensures
        port_view(r) == (service_port_name(c.name@, hash@, p.port), p.port, p.name@),
{
    let mut name = String::new();
    push_char(&mut name, 'f');
    push_char(&mut name, 'd');
    push_char(&mut name, '-');
    name.append(c.name.as_str());
    push_char(&mut name, '-');
    name.append(hash.as_str());
    push_char(&mut name, '-');
    push_decimal(&mut name, p.port as u64);
    proof {
        assert(name@ =~= service_port_name(c.name@, hash@, p.port));
    }
    ServicePortPlan { name, port: p.port, target: p.name.clone() }
}

fn push_service_ports(out: &mut Vec<ServicePortPlan>, c: &A1Container, hash: &String)
    requires
        forall|j: int| 0 <= j < declared_ports(*c).len() ==> valid_port(#[trigger] declared_ports(*c)[j].port),
    ensures
        final(out)@.map_values(|sp: ServicePortPlan| port_view(sp))
            == old(out)@.map_values(|sp: ServicePortPlan| port_view(sp)) + container_service_ports(*c, hash@),
{
    match &c.expose_ports {
        Some(ports) => {
            let ghost start = out@;
            let mut j: usize = 0;
            while j < ports.len()
                invariant
                    j <= ports.len(),
                    ports@ == declared_ports(*c),
                    forall|k: int| 0 <= k < ports@.len() ==> valid_port(#[trigger] ports@[k].port),
                    out@.map_values(|sp: ServicePortPlan| port_view(sp))
                        == start.map_values(|sp: ServicePortPlan| port_view(sp))
                            + ports@.take(j as int).map_values(
                                |p: PortName| (service_port_name(c.name@, hash@, p.port), p.port, p.name@),
                            ),
                decreases ports.len() - j,
            {
                let sp = service_port(c, hash, &ports[j]);
                let ghost before = out@;
                out.push(sp);
                proof {
                    assert(out@.map_values(|sp: ServicePortPlan| port_view(sp))
                        =~= before.map_values(|sp: ServicePortPlan| port_view(sp)).push(port_view(sp)));
                    assert(ports@.take(j as int + 1).map_values(
                        |p: PortName| (service_port_name(c.name@, hash@, p.port), p.port, p.name@),
                    ) =~= ports@.take(j as int).map_values(
                        |p: PortName| (service_port_name(c.name@, hash@, p.port), p.port, p.name@),
                    ).push(port_view(sp)));
                }
                j = j + 1;
            }
            proof {
                assert(ports@.take(ports@.len() as int) =~= ports@);
            }
        },
        None => {
            proof {
                assert(container_service_ports(*c, hash@) =~= Seq::empty());
                assert(out@.map_values(|sp: ServicePortPlan| port_view(sp))
                    =~= out@.map_values(|sp: ServicePortPlan| port_view(sp)) + container_service_ports(*c, hash@));
            }
        },
    }
}

fn label(key: &str, value: String) -> (r: Label)
    ensures
        r.key@ == key@,
        r.value@ == value@,
{
    Label { key: String::from_str(key), value }
}

/// Turns a challenge's declared containers into the concrete objects of one
/// instance: every name combines the declared name with the team's token,
/// every object carries the instance's labels, and the flag, where one is
/// given, is handed to every container as an environment entry.
pub fn plan(
    pod: &PodInfo,
    team_id: u64,
    challenge_id: u64,
    instance_id: u64,
    flag: &Option<String>,
) -> (r: Result<ResourcePlan, CoreError>)
    ensures
        r is Err <==> !valid_containers(pod.containers@),
        r matches Err(e) ==> e == CoreError::PlanInvalid,
        r matches Ok(p) ==> is_plan_of(p, *pod, team_id, challenge_id, instance_id, *flag),
{
    if !validate_containers(&pod.containers) {
        return Err(CoreError::PlanInvalid);
    }
    let name = object_name(pod);
    let mut labels: Vec<Label> = Vec::new();
    labels.push(label("app", name.clone()));
    labels.push(label("a1ctf/team", crate::text::decimal(team_id)));
    labels.push(label("a1ctf/challenge", crate::text::decimal(challenge_id)));
    labels.push(label("a1ctf/instance", crate::text::decimal(instance_id)));
    let cs = &pod.containers;
    let mut containers: Vec<ContainerPlan> = Vec::new();
    let mut service_ports: Vec<ServicePortPlan> = Vec::new();
    let mut i: usize = 0;
    while i < cs.len()
        invariant
            i <= cs.len(),
            valid_containers(cs@),
            containers@.len() == i,
            forall|k: int| 0 <= k < i ==> container_planned(#[trigger] containers@[k], cs@[k], pod.team_hash@, *flag),
            service_ports@.map_values(|sp: ServicePortPlan| port_view(sp))
                == planned_service_ports(cs@.take(i as int), pod.team_hash@),
        decreases cs.len() - i,
    {
        containers.push(plan_container(&cs[i], &pod.team_hash, flag));
        proof {
            assert forall|j: int| 0 <= j < declared_ports(cs@[i as int]).len()
                implies valid_port(#[trigger] declared_ports(cs@[i as int])[j].port) by {
                assert(valid_port(declared_ports(cs@[i as int])[j].port));
            }
        }
        push_service_ports(&mut service_ports, &cs[i], &pod.team_hash);
        proof {
            let t = cs@.take(i as int + 1);
            assert(t.drop_last() =~= cs@.take(i as int));
            assert(t.last() == cs@[i as int]);
        }
        i = i + 1;
    }
    proof {
        assert(cs@.take(cs@.len() as int) =~= cs@);
    }
    let service_name = name.clone();
    Ok(ResourcePlan { workload_name: name, service_name, labels, containers, service_ports })
}

/// A port of a realised exposure object as the control plane reports it:
/// its name, the port inside the instance and the node port assigned to it,
/// if one was.
#[derive(Clone, Debug)]
pub struct ExposedPort {
    pub name: String,
    pub port: i32,
    pub node_port: Option<i32>,
}

/// The address at which a node port is reachable: `<node>:<port>`.
pub open spec fn endpoint_address(node: Seq<char>, node_port: i32) -> Seq<char> {
    node + seq![':'] + dec(node_port as nat)
}

/// Whether every reported port has a node port in range.
pub open spec fn all_assigned(ports: Seq<ExposedPort>) -> bool {
    forall|k: int| 0 <= k < ports.len() ==> ((#[trigger] ports[k]).node_port matches Some(n) && valid_port(n))
}

/// The endpoints of an instance from its exposure object's ports and the
/// address of the node that runs it.  Without a node port for every port the
/// exposure is not realised yet and there are no endpoints.
pub fn exposed_endpoints(ports: &Vec<ExposedPort>, node: &str) -> (r: Option<Vec<PortInfo>>)
    ensures
        r is Some <==> all_assigned(ports@),
        r matches Some(e) ==> {
            &&& e@.len() == ports@.len()
            &&& forall|k: int| 0 <= k < e@.len() ==> {
                &&& (#[trigger] e@[k]).name@ == ports@[k].name@
                &&& e@[k].port == ports@[k].port
                &&& e@[k].ip@ == endpoint_address(node@, ports@[k].node_port.unwrap())
            }
        },
{
    let mut e: Vec<PortInfo> = Vec::new();
    let mut k: usize = 0;
    while k < ports.len()
        invariant
            k <= ports@.len(),
            e@.len() == k,
            all_assigned(ports@.take(k as int)),
            forall|j: int| 0 <= j < k ==> {
                &&& (#[trigger] e@[j]).name@ == ports@[j].name@
                &&& e@[j].port == ports@[j].port
                &&& e@[j].ip@ == endpoint_address(node@, ports@[j].node_port.unwrap())
            },
        decreases ports@.len() - k,
    {
        let p = &ports[k];
        let np = match p.node_port {
            Some(n) => n,
            None => {
                assert(!(ports@[k as int].node_port is Some));
                return None;
            },
        };
        if np < 1 || np > 65535 {
            assert(!valid_port(ports@[k as int].node_port.unwrap()));
            return None;
        }
        let mut ip = String::from_str(node);
        push_char(&mut ip, ':');
        push_decimal(&mut ip, np as u64);
        proof {
            assert(ip@ =~= endpoint_address(node@, np));
        }
        e.push(PortInfo { name: p.name.clone(), port: p.port, ip });
        proof {
            assert forall|j: int| 0 <= j < k + 1 implies ((#[trigger] ports@.take(k as int + 1)[j]).node_port matches Some(n) && valid_port(n)) by {
                if j < k {
                    assert(ports@.take(k as int + 1)[j] == ports@.take(k as int)[j]);
                }
            }
        }
        k = k + 1;
    }
    proof {
        assert(ports@.take(ports@.len() as int) =~= ports@);
    }
    Some(e)
}

/// Whether the namespace `wanted` must still be created, given the names of
/// the namespaces that exist.
pub fn needs_namespace(existing: &Vec<String>, wanted: &str) -> (r: bool)
    ensures
        r == !(exists|k: int| 0 <= k < existing@.len() && (#[trigger] existing@[k])@ == wanted@),
{
    let w = String::from_str(wanted);
    let mut k: usize = 0;
    while k < existing.len()
        invariant
            k <= existing@.len(),
            w@ == wanted@,
            forall|j: int| 0 <= j < k ==> (#[trigger] existing@[j])@ != wanted@,
        decreases existing@.len() - k,
    {
        if existing[k] == w {
            return false;
        }
        k = k + 1;
    }
    true
}

} // verus!
