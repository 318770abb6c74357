use vstd::prelude::*;

verus! {

/// How a challenge's submissions are verified.
#[derive(Clone, Copy, Debug, PartialEq, Eq, Structural)]
pub enum JudgeType {
    /// Byte-exact comparison with the flag provisioned for the instance.
    Static,
    /// A procedure run against the live instance.
    Dynamic,
    /// A verification script run against the live instance.
    Script,
}

/// A challenge's judge specification.
#[derive(Clone, Debug)]
pub struct JudgeConfig {
    pub judge_type: JudgeType,
    /// Reference to the verification procedure, for dynamic and script judging.
    pub judge_script: Option<String>,
    /// Flag template with a placeholder for the team-unique token.
    pub flag_template: Option<String>,
}

/// A named port that a container exposes.
#[derive(Clone, Debug)]
pub struct PortName {
    pub name: String,
    pub port: i32,
}

/// An environment entry handed to a container.
#[derive(Clone, Debug)]
pub struct EnvVar {
    pub name: String,
    pub value: String,
}

/// One declared process of a challenge: its image and what it is given.
#[derive(Clone, Debug)]
pub struct A1Container {
    pub name: String,
    pub image: String,
    pub command: Option<Vec<String>>,
    pub env: Option<Vec<EnvVar>>,
    pub expose_ports: Option<Vec<PortName>>,
}

/// A challenge's declared containers, to be realised for the team whose
/// stable token is `team_hash`.
#[derive(Clone, Debug)]
pub struct PodInfo {
    pub name: String,
    pub team_hash: String,
    pub containers: Vec<A1Container>,
}

/// An exposed endpoint of a running instance: the port's name, the port
/// inside the instance and the address at which it is reachable.
#[derive(Clone, Debug)]
pub struct PortInfo {
    pub name: String,
    pub port: i32,
    pub ip: String,
}

/// The ports a container declares (none where it declares no list).
pub open spec fn declared_ports(c: A1Container) -> Seq<PortName> {
    match c.expose_ports {
        Some(v) => v@,
        None => Seq::empty(),
    }
}

/// The environment a container declares (none where it declares no list).
pub open spec fn declared_env(c: A1Container) -> Seq<EnvVar> {
    match c.env {
        Some(v) => v@,
        None => Seq::empty(),
    }
}

/// Whether a port number can be exposed.
pub open spec fn valid_port(p: i32) -> bool {
    1 <= p && p <= 65535
}

/// Whether a set of declared containers can be planned: at least one
/// container, at least one exposed port, and every port in range.
pub open spec fn valid_containers(cs: Seq<A1Container>) -> bool {
    &&& cs.len() > 0
    &&& exists|i: int| 0 <= i < cs.len() && declared_ports(#[trigger] cs[i]).len() > 0
    &&& forall|i: int, j: int|
        0 <= i < cs.len() && 0 <= j < declared_ports(cs[i]).len()
            ==> valid_port(#[trigger] declared_ports(#[trigger] cs[i])[j].port)
}

} // verus!
