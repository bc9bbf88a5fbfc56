//! The cluster objects that a job is made of, and what is read of them.

use vstd::prelude::*;
use vstd::string::*;
use crate::controller::launch::{copy_words, Variables};
use crate::model::backend::LaunchResult;
use crate::model::crd::{ContainerSpec, EnvVar};
use crate::model::error::BuboError;
use crate::scheduler::gang::Placement;
use crate::string_map::StringMap;
use crate::text::dec;

verus! {

/// Name, namespace and labels of an object.
#[derive(Clone, Debug)]
pub struct ObjectMeta {
    pub name: String,
    pub namespace: String,
    pub labels: StringMap<String>,
}

/// Content of an [`ObjectMeta`].
pub ghost struct MetaView {
    pub name: Seq<char>,
    pub namespace: Seq<char>,
    pub labels: Variables,
}

impl View for ObjectMeta {
    type V = MetaView;

    open spec fn view(&self) -> MetaView {
        MetaView { name: self.name@, namespace: self.namespace@, labels: self.labels@ }
    }
}

/// A named port.
#[derive(Clone, Debug)]
pub struct Port {
    pub name: String,
    pub port: u16,
}

impl DeepView for Port {
    type V = (Seq<char>, u16);

    open spec fn deep_view(&self) -> (Seq<char>, u16) {
        (self.name@, self.port)
    }
}

/// A service.
#[derive(Clone, Debug)]
pub struct Service {
    pub metadata: ObjectMeta,
    /// Cluster address; "None" for a headless service.
    pub cluster_ip: String,
    /// Labels of the pods that it leads to.
    pub selector: StringMap<String>,
    /// Ports, each leading to the port with the same number.
    pub ports: Vec<Port>,
}

/// A map of configuration files.
#[derive(Clone, Debug)]
pub struct ConfigMap {
    pub metadata: ObjectMeta,
    pub data: StringMap<String>,
}

/// Identity that the processes of a pod run under.
#[derive(Clone, Debug)]
pub struct SecurityContext {
    pub run_as_user: i64,
    pub run_as_group: i64,
    pub supplemental_groups: Option<Vec<i64>>,
}

/// The container of a pod.
#[derive(Clone, Debug)]
pub struct Container {
    pub name: String,
    pub image: String,
    /// Command, where it replaces that of the image.
    pub command: Option<Vec<String>>,
    /// Arguments, where they replace those of the image.
    pub args: Option<Vec<String>>,
    pub env: Vec<EnvVar>,
    pub ports: Vec<Port>,
}

/// A pod with one container.
#[derive(Clone, Debug)]
pub struct Pod {
    pub metadata: ObjectMeta,
    pub container: Container,
    pub hostname: Option<String>,
    pub subdomain: Option<String>,
    pub node_name: Option<String>,
    pub restart_policy: String,
    pub host_network: Option<bool>,
    pub security_context: Option<SecurityContext>,
}

/// What is read of a pod that exists.
#[derive(Clone, Debug)]
pub struct PodReport {
    pub labels: Option<StringMap<String>>,
    pub phase: Option<String>,
    pub message: Option<String>,
}

/// Content of a [`PodReport`].
pub ghost struct ReportView {
    pub labels: Option<Variables>,
    pub phase: Option<Seq<char>>,
    pub message: Option<Seq<char>>,
}

impl DeepView for PodReport {
    type V = ReportView;

    open spec fn deep_view(&self) -> ReportView {
        ReportView {
            labels: self.labels.deep_view(),
            phase: self.phase.deep_view(),
            message: self.message.deep_view(),
        }
    }
}

/// A list of words where it has any.
pub open spec fn unless_empty(words: Seq<Seq<char>>) -> Option<Seq<Seq<char>>> {
    if words.len() == 0 {
        None
    } else {
        Some(words)
    }
}

/// A list of words where it has any.
pub fn some_words(words: &Vec<String>) -> (r: Option<Vec<String>>)
    ensures
        r.deep_view() == unless_empty(words.deep_view()),
{
    if words.is_empty() {
        None
    } else {
        Some(copy_words(words))
    }
}

/// Appends an environment variable.
pub fn push_env(env: &mut Vec<EnvVar>, name: &str, value: &str)
    ensures
        final(env).deep_view() == old(env).deep_view().push((name@, value@)),
{
    let ghost before = env.deep_view();
    env.push(EnvVar { name: name.to_owned(), value: value.to_owned() });
    proof {
        assert(env.deep_view() =~= before.push((name@, value@)));
    }
}

/// A list of its own with the same variables.
pub fn copy_env(env: &Vec<EnvVar>) -> (r: Vec<EnvVar>)
    ensures
        r.deep_view() == env.deep_view(),
{
    let ghost all = env.deep_view();
    let mut r: Vec<EnvVar> = Vec::new();
    let mut i: usize = 0;
    proof {
        assert(r.deep_view() =~= all.take(0));
    }
    while i < env.len()
        invariant
            i <= env.len(),
            all == env.deep_view(),
            r.deep_view() == all.take(i as int),
        decreases env.len() - i,
    {
        push_env(&mut r, env[i].name.as_str(), env[i].value.as_str());
        proof {
            assert(all.take(i + 1) =~= all.take(i as int).push(all[i as int]));
        }
        i += 1;
    }
    proof {
        assert(all.take(all.len() as int) =~= all);
    }
    r
}

/// The port that workers are reached at.
pub open spec fn ssh_ports() -> Seq<(Seq<char>, u16)> {
    seq![("ssh"@, 22u16)]
}

/// The port that workers are reached at.
pub fn ssh_port_list() -> (r: Vec<Port>)
    ensures
        r.deep_view() == ssh_ports(),
{
    let mut ports: Vec<Port> = Vec::new();
    ports.push(Port { name: "ssh".to_owned(), port: 22 });
    proof {
        assert(ports.deep_view() =~= ssh_ports());
    }
    ports
}

impl Service {
    /// Whether this is a headless service for the pods with the labels `labels`, which
    /// it bears itself.
    pub open spec fn is_headless(
        self,
        name: Seq<char>,
        namespace: Seq<char>,
        labels: Variables,
    ) -> bool {
        &&& self.metadata@ == MetaView { name, namespace, labels }
        &&& self.cluster_ip@ == "None"@
        &&& self.selector@ == labels
        &&& self.ports.deep_view() == ssh_ports()
    }

    /// A headless service for the pods with the labels `labels`.
    pub fn headless(name: String, namespace: &str, labels: StringMap<String>) -> (r: Service)
        ensures
            r.is_headless(name@, namespace@, labels@),
    {
        let selector = labels.duplicate();
        Service {
            metadata: ObjectMeta { name, namespace: namespace.to_owned(), labels },
            cluster_ip: "None".to_owned(),
            selector,
            ports: ssh_port_list(),
        }
    }
}

impl ConfigMap {
    /// Whether this is a map that holds `text` as its only file, "hostfile".
    pub open spec fn is_hostfile(
        self,
        name: Seq<char>,
        namespace: Seq<char>,
        labels: Variables,
        text: Seq<char>,
    ) -> bool {
        &&& self.metadata@ == MetaView { name, namespace, labels }
        &&& self.data@ == Map::<Seq<char>, Seq<char>>::empty().insert("hostfile"@, text)
    }

    /// A map that holds `text` as its only file, "hostfile".
    pub fn with_hostfile(
        name: String,
        namespace: &str,
        labels: StringMap<String>,
        text: String,
    ) -> (r: ConfigMap)
        ensures
            r.is_hostfile(name@, namespace@, labels@, text@),
    {
        let mut data: StringMap<String> = StringMap::new();
        data.insert("hostfile".to_owned(), text);
        ConfigMap {
            metadata: ObjectMeta { name, namespace: namespace.to_owned(), labels },
            data,
        }
    }
}

impl Pod {
    /// Whether this is a worker pod on `node`: it runs the job's container, can be
    /// reached under the subdomain `service`, and is not restarted.
    pub open spec fn is_worker(
        self,
        meta: MetaView,
        spec: ContainerSpec,
        env: Seq<(Seq<char>, Seq<char>)>,
        service: Seq<char>,
        node: Seq<char>,
    ) -> bool {
        &&& self.metadata@ == meta
        &&& self.container.name@ == "worker"@
        &&& self.container.image@ == spec.image@
        &&& self.container.command.deep_view() == unless_empty(spec.command.deep_view())
        &&& self.container.args.deep_view() == unless_empty(spec.args.deep_view())
        &&& self.container.env.deep_view() == env
        &&& self.container.ports.deep_view() == ssh_ports()
        &&& self.hostname.deep_view() == Some(meta.name)
        &&& self.subdomain.deep_view() == Some(service)
        &&& self.node_name.deep_view() == Some(node)
        &&& self.restart_policy@ == "Never"@
        &&& self.host_network == (if spec.host_network {
            Some(true)
        } else {
            None
        })
    }

    /// A worker pod without an identity of its own.
    pub fn worker(
        metadata: ObjectMeta,
        spec: &ContainerSpec,
        env: Vec<EnvVar>,
        service: String,
        node: &str,
    ) -> (r: Pod)
        ensures
            r.is_worker(metadata@, *spec, env.deep_view(), service@, node@),
            r.security_context is None,
    {
        let hostname = metadata.name.clone();
        Pod {
            metadata,
            container: Container {
                name: "worker".to_owned(),
                image: spec.image.clone(),
                command: some_words(&spec.command),
                args: some_words(&spec.args),
                env,
                ports: ssh_port_list(),
            },
            hostname: Some(hostname),
            subdomain: Some(service),
            node_name: Some(node.to_owned()),
            restart_policy: "Never".to_owned(),
            host_network: if spec.host_network {
                Some(true)
            } else {
                None
            },
            security_context: None,
        }
    }

    /// Whether this is a launcher pod: it runs `command` in the job's image on `node`,
    /// and is not restarted.
    pub open spec fn is_launcher(
        self,
        meta: MetaView,
        image: Seq<char>,
        command: Seq<Seq<char>>,
        env: Seq<(Seq<char>, Seq<char>)>,
        node: Option<Seq<char>>,
    ) -> bool {
        &&& self.metadata@ == meta
        &&& self.container.name@ == "launcher"@
        &&& self.container.image@ == image
        &&& self.container.command.deep_view() == Some(command)
        &&& self.container.args is None
        &&& self.container.env.deep_view() == env
        &&& self.container.ports@.len() == 0
        &&& self.hostname is None
        &&& self.subdomain is None
        &&& self.node_name.deep_view() == node
        &&& self.restart_policy@ == "Never"@
        &&& self.host_network is None
    }

    /// A launcher pod without an identity of its own.
    pub fn launcher(
        metadata: ObjectMeta,
        image: &String,
        command: Vec<String>,
        env: Vec<EnvVar>,
        node: Option<String>,
    ) -> (r: Pod)
        ensures
            r.is_launcher(
                metadata@,
                image@,
                command.deep_view(),
                env.deep_view(),
                node.deep_view(),
            ),
            r.security_context is None,
    {
        Pod {
            metadata,
            container: Container {
                name: "launcher".to_owned(),
                image: image.clone(),
                command: Some(command),
                args: None,
                env,
                ports: Vec::new(),
            },
            hostname: None,
            subdomain: None,
            node_name: node,
            restart_policy: "Never".to_owned(),
            host_network: None,
            security_context: None,
        }
    }
}

/// An object to create when a job is launched.
#[derive(Clone, Debug)]
pub enum LaunchStep {
    Service(Service),
    ConfigMap(ConfigMap),
    Pod(Pod),
}

/// What a launch creates, in order, and how it ends once everything is created.
pub struct LaunchPlan {
    pub steps: Vec<LaunchStep>,
    pub outcome: Result<LaunchResult, BuboError>,
}

/// The node that a launcher goes to: the first of the placement.
pub open spec fn first_node(placement: Placement) -> Option<Seq<char>> {
    if placement.nodes@.len() == 0 {
        None
    } else {
        Some(placement.nodes@[0]@)
    }
}

/// The first node of a placement.
pub fn first_node_of(placement: &Placement) -> (r: Option<String>)
    ensures
        r.deep_view() == first_node(*placement),
{
    if placement.nodes.len() == 0 {
        None
    } else {
        Some(placement.nodes[0].clone())
    }
}

/// Names of the worker pods of a job on `n` nodes.
pub open spec fn worker_names(job: Seq<char>, n: nat) -> Seq<Seq<char>> {
    Seq::new(n, |k: int| job + "-worker-"@ + dec((k as u32) as nat))
}

} // verus!
