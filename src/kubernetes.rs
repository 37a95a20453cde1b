//! The container-orchestration cluster: namespaces, pods and services as
//! simplified records, and the choice of the cluster-config file.
//!
//! The cluster client hands over each object as a plain record (the
//! `*Object` types); the mapping from those to the adapter's records is here.
use vstd::prelude::*;
use crate::errors::{ErrorView, IntegrationError};
use crate::text::{contains, has_infix, signed_decimal, signed_decimal_text};
use crate::types::{IntegrationCredentials, lookup};

verus! {

/// A namespace.
#[derive(Debug, Clone, PartialEq, Eq)]
pub struct K8sNamespace {
    pub name: String,
    /// `Active`, `Terminating`, or `Unknown`.
    pub status: String,
    /// The creation time (RFC 3339), or `Unknown`.
    pub created_at: String,
}

/// A pod.
#[derive(Debug, Clone, PartialEq, Eq)]
pub struct K8sPod {
    pub name: String,
    pub namespace: String,
    /// `Running`, `Pending`, `Failed`, `Succeeded`, `Terminated` or `Unknown`.
    pub status: String,
    /// The names of its containers.
    pub containers: Vec<String>,
    /// The node it runs on.
    pub node: Option<String>,
}

/// A port that a service exposes.
#[derive(Debug, Clone, PartialEq, Eq)]
pub struct K8sServicePort {
    pub name: Option<String>,
    pub port: u32,
    /// The target port, a number or a name, as text.
    pub target_port: Option<String>,
    /// `TCP` where the service does not say.
    pub protocol: String,
}

/// A service.
#[derive(Debug, Clone, PartialEq, Eq)]
pub struct K8sService {
    pub name: String,
    pub namespace: String,
    /// `ClusterIP`, `NodePort`, `LoadBalancer`, `ExternalName`.
    pub service_type: String,
    pub ports: Vec<K8sServicePort>,
    /// The number of load-balancer ingress points, where the cluster reports them.
    pub endpoint_count: Option<u32>,
}

/// A namespace as the cluster reports it.
#[derive(Debug, Clone, PartialEq, Eq)]
pub struct NamespaceObject {
    pub name: Option<String>,
    pub phase: Option<String>,
    /// The creation time, already written as RFC 3339.
    pub created_at: Option<String>,
}

/// What a container's state says, as far as a pod's status needs it.
#[derive(Debug, Clone, Copy, PartialEq, Eq, Structural)]
pub struct ContainerState {
    pub waiting: bool,
    pub terminated: bool,
}

/// A pod as the cluster reports it.
#[derive(Debug, Clone, PartialEq, Eq)]
pub struct PodObject {
    pub name: Option<String>,
    pub namespace: Option<String>,
    pub phase: Option<String>,
    /// The states of its containers, in the order the cluster reports them.
    pub container_states: Vec<ContainerState>,
    /// The names of the containers of its spec (none without a spec).
    pub containers: Vec<String>,
    pub node_name: Option<String>,
}

/// The target port of a service port.
#[derive(Debug, Clone, PartialEq, Eq)]
pub enum TargetPort {
    Number(i32),
    Name(String),
}

/// A service port as the cluster reports it.
#[derive(Debug, Clone, PartialEq, Eq)]
pub struct ServicePortObject {
    pub name: Option<String>,
    pub port: i32,
    pub target_port: Option<TargetPort>,
    pub protocol: Option<String>,
}

/// A service as the cluster reports it.
#[derive(Debug, Clone, PartialEq, Eq)]
pub struct ServiceObject {
    pub name: Option<String>,
    pub namespace: Option<String>,
    pub service_type: Option<String>,
    pub ports: Vec<ServicePortObject>,
    /// How many ingress points its load balancer lists, where it lists any.
    pub ingress_count: Option<usize>,
}

/// An optional text, or `fallback`.
pub open spec fn text_or(s: Option<String>, fallback: Seq<char>) -> Seq<char> {
    match s {
        Some(t) => t@,
        None => fallback,
    }
}

fn text_or_else(s: Option<String>, fallback: &str) -> (r: String)
    ensures
        r@ == text_or(s, fallback@),
{
    match s {
        Some(t) => t,
        None => String::from_str(fallback),
    }
}

/// The status that the containers' states give a pod without a phase: the
/// first container that waits makes it pending, the first that has ended
/// makes it terminated.
pub open spec fn container_status(states: Seq<ContainerState>) -> Option<Seq<char>>
    decreases states.len(),
{
    if states.len() == 0 {
        None
    } else if states[0].waiting {
        Some("Pending"@)
    } else if states[0].terminated {
        Some("Terminated"@)
    } else {
        container_status(states.drop_first())
    }
}

/// The status of a pod: its phase; else what its containers say; else `Unknown`.
pub open spec fn pod_status(phase: Option<String>, states: Seq<ContainerState>) -> Seq<char> {
    match phase {
        Some(p) => p@,
        None => match container_status(states) {
            Some(s) => s,
            None => "Unknown"@,
        },
    }
}

proof fn lemma_container_status_skip(states: Seq<ContainerState>, i: int)
    requires
        0 <= i <= states.len(),
        forall|k: int| 0 <= k < i ==> !(#[trigger] states[k]).waiting && !states[k].terminated,
    ensures
        container_status(states) == container_status(states.subrange(i, states.len() as int)),
    decreases i,
{
    if i > 0 {
        lemma_container_status_skip(states, i - 1);
        let t = states.subrange(i - 1, states.len() as int);
        assert(t.drop_first() =~= states.subrange(i, states.len() as int));
        assert(t[0] == states[i - 1]);
    } else {
        assert(states.subrange(0, states.len() as int) =~= states);
    }
}

fn status_from_containers(states: &Vec<ContainerState>) -> (r: Option<String>)
    ensures
        match r {
            Some(s) => container_status(states@) == Some(s@),
            None => container_status(states@) is None,
        },
{
    let mut i: usize = 0;
    while i < states.len()
        invariant
            i <= states@.len(),
            forall|k: int| 0 <= k < i ==> !(#[trigger] states@[k]).waiting && !states@[k].terminated,
        decreases states@.len() - i,
    {
        let s = states[i];
        if s.waiting || s.terminated {
            proof {
                lemma_container_status_skip(states@, i as int);
                let rest = states@.subrange(i as int, states@.len() as int);
                assert(rest[0] == states@[i as int]);
            }
            if s.waiting {
                return Some(String::from_str("Pending"));
            }
            return Some(String::from_str("Terminated"));
        }
        i = i + 1;
    }
    proof {
        lemma_container_status_skip(states@, i as int);
        assert(states@.subrange(i as int, states@.len() as int).len() == 0);
    }
    None
}

/// The record of a namespace: unnamed as empty, without phase or time as `Unknown`.
pub fn namespace_from(object: NamespaceObject) -> (r: K8sNamespace)
    ensures
        r.name@ == text_or(object.name, Seq::empty()),
        r.status@ == text_or(object.phase, "Unknown"@),
        r.created_at@ == text_or(object.created_at, "Unknown"@),
{
    let name = match object.name {
        Some(n) => n,
        None => String::new(),
    };
    K8sNamespace {
        name,
        status: text_or_else(object.phase, "Unknown"),
        created_at: text_or_else(object.created_at, "Unknown"),
    }
}

/// The record of a pod listed in `namespace` (its own namespace where it names one).
pub fn pod_from(object: PodObject, namespace: &str) -> (r: K8sPod)
    ensures
        r.name@ == text_or(object.name, Seq::empty()),
        r.namespace@ == text_or(object.namespace, namespace@),
        r.status@ == pod_status(object.phase, object.container_states@),
        r.containers == object.containers,
        r.node == object.node_name,
{
    let status = match object.phase {
        Some(p) => p,
        None => match status_from_containers(&object.container_states) {
            Some(s) => s,
            None => String::from_str("Unknown"),
        },
    };
    let name = match object.name {
        Some(n) => n,
        None => String::new(),
    };
    K8sPod {
        name,
        namespace: text_or_else(object.namespace, namespace),
        status,
        containers: object.containers,
        node: object.node_name,
    }
}

/// A service port, with its texts as character sequences.
pub struct PortView {
    pub name: Option<Seq<char>>,
    pub port: u32,
    pub target_port: Option<Seq<char>>,
    pub protocol: Seq<char>,
}

impl View for K8sServicePort {
    type V = PortView;

    open spec fn view(&self) -> PortView {
        PortView {
            name: match self.name {
                Some(n) => Some(n@),
                None => None,
            },
            port: self.port,
            target_port: match self.target_port {
                Some(t) => Some(t@),
                None => None,
            },
            protocol: self.protocol@,
        }
    }
}

/// The record of a service port: the target port as text whether it is a
/// number or a name, and `TCP` where no protocol is given.
pub open spec fn port_spec(p: ServicePortObject) -> PortView {
    PortView {
        name: match p.name {
            Some(n) => Some(n@),
            None => None,
        },
        port: #[verifier::truncate] (p.port as u32),
        target_port: match p.target_port {
            Some(TargetPort::Number(n)) => Some(signed_decimal(n as int)),
            Some(TargetPort::Name(s)) => Some(s@),
            None => None,
        },
        protocol: text_or(p.protocol, "TCP"@),
    }
}

fn port_from(p: ServicePortObject) -> (r: K8sServicePort)
    ensures
        r@ == port_spec(p),
{
    let target_port = match p.target_port {
        Some(TargetPort::Number(n)) => Some(signed_decimal_text(n as i64)),
        Some(TargetPort::Name(s)) => Some(s),
        None => None,
    };
    K8sServicePort {
        name: p.name,
        port: #[verifier::truncate] (p.port as u32),
        target_port,
        protocol: text_or_else(p.protocol, "TCP"),
    }
}

/// The record of a service listed in `namespace`: `ClusterIP` where no type
/// is given, each port mapped, and the ingress points counted.
pub fn service_from(object: ServiceObject, namespace: &str) -> (r: K8sService)
    ensures
        r.name@ == text_or(object.name, Seq::empty()),
        r.namespace@ == text_or(object.namespace, namespace@),
        r.service_type@ == text_or(object.service_type, "ClusterIP"@),
        r.ports@.map_values(|p: K8sServicePort| p@) == object.ports@.map_values(|p: ServicePortObject| port_spec(p)),
        r.endpoint_count == match object.ingress_count {
            Some(n) => Some(#[verifier::truncate] (n as u32)),
            None => None::<u32>,
        },
{
    let ghost source = object.ports@;
    let mut rest = object.ports;
    let mut mapped: Vec<K8sServicePort> = Vec::new();
    proof {
        assert(source.subrange(0, 0) =~= Seq::<ServicePortObject>::empty());
        assert(mapped@.map_values(|p: K8sServicePort| p@) =~= source.subrange(0, 0).map_values(|p: ServicePortObject| port_spec(p)));
        assert(rest@ =~= source.subrange(0, source.len() as int));
    }
    while rest.len() > 0
        invariant
            mapped@.len() <= source.len(),
            rest@ == source.subrange(mapped@.len() as int, source.len() as int),
            mapped@.map_values(|p: K8sServicePort| p@)
                == source.subrange(0, mapped@.len() as int).map_values(|p: ServicePortObject| port_spec(p)),
        decreases rest@.len(),
    {
        let ghost i = mapped@.len() as int;
        let p = rest.remove(0);
        let ghost before = mapped@.map_values(|p: K8sServicePort| p@);
        let q = port_from(p);
        let ghost qv = q@;
        mapped.push(q);
        proof {
            assert(p == source[i]);
            assert(mapped@.map_values(|p: K8sServicePort| p@) =~= before.push(qv));
            assert(source.subrange(0, i + 1) =~= source.subrange(0, i).push(source[i]));
            assert(mapped@.map_values(|p: K8sServicePort| p@) =~= source.subrange(0, i + 1).map_values(|p: ServicePortObject| port_spec(p)));
            assert(rest@ =~= source.subrange(i + 1, source.len() as int));
        }
    }
    proof {
        assert(source.subrange(0, source.len() as int) =~= source);
    }
    let name = match object.name {
        Some(s) => s,
        None => String::new(),
    };
    let endpoint_count = match object.ingress_count {
        Some(c) => Some(#[verifier::truncate] (c as u32)),
        None => None,
    };
    K8sService {
        name,
        namespace: text_or_else(object.namespace, namespace),
        service_type: text_or_else(object.service_type, "ClusterIP"),
        ports: mapped,
        endpoint_count,
    }
}

/// The error of a listing that failed: a network error that names what was listed.
pub fn list_failure(what: &str, detail: &str) -> (r: IntegrationError)
    ensures
        r@ == ErrorView::Network("Failed to list "@ + what@ + ": "@ + detail@),
{
    let mut message = String::from_str("Failed to list ");
    message.append(what);
    message.append(": ");
    message.append(detail);
    IntegrationError::NetworkError { message }
}

/// The error of a pod lookup that failed: a missing pod where the cluster's
/// error says `NotFound`, a network error otherwise.
pub fn pod_failure(detail: &str) -> (r: IntegrationError)
    ensures
        has_infix(detail@, "NotFound"@) ==> r@ == ErrorView::NotFound,
        !has_infix(detail@, "NotFound"@) ==> r@ == ErrorView::Network("Failed to get pod: "@ + detail@),
{
    if contains(detail, "NotFound") {
        IntegrationError::NotFound
    } else {
        let mut message = String::from_str("Failed to get pod: ");
        message.append(detail);
        IntegrationError::NetworkError { message }
    }
}

/// The custom credential field that names the cluster-config file.
pub const KUBECONFIG_FIELD: &'static str = "kubeconfig_path";

/// The cluster-config file of MicroK8s, under the home directory.
pub const MICROK8S_CONFIG: &'static str = "/.kube/microk8s-config";

/// The usual cluster-config file, under the home directory.
pub const DEFAULT_CONFIG: &'static str = "/.kube/config";

/// Why no cluster-config file could be chosen.
pub const NO_KUBECONFIG: &'static str = "Kubernetes integration requires a kubeconfig_path in custom fields or default kubeconfig file";

/// Why a path under the home directory cannot be expanded.
pub const NO_HOME: &'static str = "Failed to determine home directory";

/// The cluster-config file to use: the one the credentials name; else,
/// under the home directory, the MicroK8s file where it exists, else the
/// usual one where it exists.
pub open spec fn kubeconfig_choice(
    custom: Seq<(String, String)>,
    home: Option<Seq<char>>,
    microk8s_exists: bool,
    default_exists: bool,
) -> Result<Seq<char>, ErrorView> {
    match lookup(custom, KUBECONFIG_FIELD@) {
        Some(p) => Ok(p@),
        None => match home {
            Some(h) => if microk8s_exists {
                Ok(h + MICROK8S_CONFIG@)
            } else if default_exists {
                Ok(h + DEFAULT_CONFIG@)
            } else {
                Err(ErrorView::Config(NO_KUBECONFIG@))
            },
            None => Err(ErrorView::Config(NO_KUBECONFIG@)),
        },
    }
}

/// The two usual cluster-config files under a home directory: MicroK8s's
/// first, then the plain one.
pub fn default_kubeconfigs(home: &str) -> (r: (String, String))
    ensures
        r.0@ == home@ + MICROK8S_CONFIG@,
        r.1@ == home@ + DEFAULT_CONFIG@,
{
    let mut first = String::from_str(home);
    first.append(MICROK8S_CONFIG);
    let mut second = String::from_str(home);
    second.append(DEFAULT_CONFIG);
    (first, second)
}

/// Chooses the cluster-config file; `microk8s_exists` and `default_exists`
/// tell whether the two usual files exist under `home`.
pub fn choose_kubeconfig(
    credentials: &IntegrationCredentials,
    home: Option<&str>,
    microk8s_exists: bool,
    default_exists: bool,
) -> (r: Result<String, IntegrationError>)
    ensures
        match (r, kubeconfig_choice(
            credentials.custom@,
            match home {
                Some(h) => Some(h@),
                None => None,
            },
            microk8s_exists,
            default_exists,
        )) {
            (Ok(p), Ok(q)) => p@ == q,
            (Err(e), Err(f)) => e@ == f,
            _ => false,
        },
{
    match credentials.custom_value(KUBECONFIG_FIELD) {
        Some(p) => Ok(p),
        None => match home {
            Some(h) => {
                let (first, second) = default_kubeconfigs(h);
                if microk8s_exists {
                    Ok(first)
                } else if default_exists {
                    Ok(second)
                } else {
                    Err(IntegrationError::config(NO_KUBECONFIG))
                }
            },
            None => Err(IntegrationError::config(NO_KUBECONFIG)),
        },
    }
}

/// A path with a leading `~` taken as the home directory: the rest of the
/// path, without one leading separator, joined to the home directory as
/// `Path::join` joins (a rest that is still absolute stands alone).
pub open spec fn expanded_path(path: Seq<char>, home: Option<Seq<char>>) -> Result<Seq<char>, ErrorView> {
    if path.len() > 0 && path[0] == '~' {
        match home {
            None => Err(ErrorView::Config(NO_HOME@)),
            Some(h) => {
                let rest = path.drop_first();
                let tail = if rest.len() > 0 && (rest[0] == '/' || rest[0] == '\\') {
                    rest.drop_first()
                } else {
                    rest
                };
                if tail.len() > 0 && tail[0] == '/' {
                    Ok(tail)
                } else if h.len() > 0 && h.last() == '/' {
                    Ok(h + tail)
                } else {
                    Ok(h + "/"@ + tail)
                }
            },
        }
    } else {
        Ok(path)
    }
}

/// Expands a leading `~` of a path to the home directory.
pub fn expand_home(path: &str, home: Option<&str>) -> (r: Result<String, IntegrationError>)
    ensures
        match (r, expanded_path(path@, match home {
            Some(h) => Some(h@),
            None => None,
        })) {
            (Ok(p), Ok(q)) => p@ == q,
            (Err(e), Err(f)) => e@ == f,
            _ => false,
        },
{
    let n = path.unicode_len();
    if n == 0 || path.get_char(0) != '~' {
        return Ok(String::from_str(path));
    }
    let h = match home {
        Some(h) => h,
        None => return Err(IntegrationError::config(NO_HOME)),
    };
    let skip: usize = if n > 1 && (path.get_char(1) == '/' || path.get_char(1) == '\\') {
        2
    } else {
        1
    };
    let tail = path.substring_char(skip, n);
    proof {
        let rest = path@.drop_first();
        if rest.len() > 0 {
            assert(rest[0] == path@[1]);
        }
        if skip == 2 {
            assert(rest.drop_first() =~= path@.subrange(2, n as int));
        } else {
            assert(rest =~= path@.subrange(1, n as int));
        }
    }
    if skip < n && path.get_char(skip) == '/' {
        proof {
            assert(tail@[0] == path@[skip as int]);
        }
        return Ok(String::from_str(tail));
    }
    let mut joined = String::from_str(h);
    let m = h.unicode_len();
    if m == 0 || h.get_char(m - 1) != '/' {
        joined.append("/");
    }
    joined.append(tail);
    Ok(joined)
}

/// The error for a cluster-config file that does not exist.
pub fn missing_kubeconfig(path: &str) -> (r: IntegrationError)
    ensures
        r@ == ErrorView::Config("Kubeconfig file not found: "@ + path@),
{
    let mut message = String::from_str("Kubeconfig file not found: ");
    message.append(path);
    IntegrationError::ConfigError { message }
}

} // verus!
