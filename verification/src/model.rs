//! The records that the orchestrator reads and writes: a forwarding
//! configuration, the summary returned for it, and its persisted state.

use vstd::prelude::*;

verus! {

/// The text of an optional string.
pub open spec fn text_of(value: Option<String>) -> Option<Seq<char>> {
    match value {
        Some(s) => Some(s@),
        None => None,
    }
}

/// The text of an optional string, the empty text where there is none.
pub open spec fn text_or_empty(value: Option<Seq<char>>) -> Seq<char> {
    match value {
        Some(s) => s,
        None => Seq::empty(),
    }
}

/// A copy of an optional string.
pub fn copy_text(value: &Option<String>) -> (out: Option<String>)
    ensures
        out == *value,
{
    match value {
        Some(s) => Some(s.clone()),
        None => None,
    }
}

/// The string held by `value`, or an empty one.
pub fn text_or_default(value: &Option<String>) -> (out: String)
    ensures
        out@ == text_or_empty(text_of(*value)),
{
    match value {
        Some(s) => s.clone(),
        None => String::new(),
    }
}

/// One forward as the user configured it.
#[derive(Clone, Debug, PartialEq, Eq)]
pub struct Config {
    /// Stable identity; a configuration without one is ephemeral.
    pub id: Option<i64>,
    /// Name of the target service.
    pub service: Option<String>,
    /// Namespace of the target.
    pub namespace: String,
    /// Requested local port; 0 asks for any free port.
    pub local_port: Option<u16>,
    /// Port on the target.
    pub remote_port: Option<u16>,
    /// Cluster context.
    pub context: String,
    /// `service`, `pod` or `proxy`.
    pub workload_type: Option<String>,
    /// `tcp` or `udp`.
    pub protocol: String,
    /// Where a proxy pod connects to.
    pub remote_address: Option<String>,
    /// Address the local listener binds to.
    pub local_address: Option<String>,
    /// Host name to install in the hosts file.
    pub alias: Option<String>,
    /// Whether the hosts file is edited for this forward.
    pub domain_enabled: Option<bool>,
    /// Path of the kubeconfig file.
    pub kubeconfig: Option<String>,
    /// Label selector of the target pod.
    pub target: Option<String>,
}

/// A configuration as plain values.
pub struct ConfigView {
    pub id: Option<int>,
    pub service: Option<Seq<char>>,
    pub namespace: Seq<char>,
    pub local_port: Option<int>,
    pub remote_port: Option<int>,
    pub context: Seq<char>,
    pub workload_type: Option<Seq<char>>,
    pub protocol: Seq<char>,
    pub remote_address: Option<Seq<char>>,
    pub local_address: Option<Seq<char>>,
    pub alias: Option<Seq<char>>,
    pub domain_enabled: Option<bool>,
    pub kubeconfig: Option<Seq<char>>,
    pub target: Option<Seq<char>>,
}

impl View for Config {
    type V = ConfigView;

    open spec fn view(&self) -> ConfigView {
        ConfigView {
            id: match self.id {
                Some(v) => Some(v as int),
                None => None,
            },
            service: text_of(self.service),
            namespace: self.namespace@,
            local_port: match self.local_port {
                Some(v) => Some(v as int),
                None => None,
            },
            remote_port: match self.remote_port {
                Some(v) => Some(v as int),
                None => None,
            },
            context: self.context@,
            workload_type: text_of(self.workload_type),
            protocol: self.protocol@,
            remote_address: text_of(self.remote_address),
            local_address: text_of(self.local_address),
            alias: text_of(self.alias),
            domain_enabled: self.domain_enabled,
            kubeconfig: text_of(self.kubeconfig),
            target: text_of(self.target),
        }
    }
}

impl ConfigView {
    /// The identifier, 0 where there is none.
    pub open spec fn id_or_zero(self) -> int {
        match self.id {
            Some(v) => v,
            None => 0,
        }
    }

    /// The service name, empty where there is none.
    pub open spec fn service_or_empty(self) -> Seq<char> {
        text_or_empty(self.service)
    }

    /// The remote port, 0 where there is none.
    pub open spec fn remote_port_or_zero(self) -> int {
        match self.remote_port {
            Some(v) => v,
            None => 0,
        }
    }

    /// Whether the hosts file is edited for this forward.
    pub open spec fn wants_domain(self) -> bool {
        self.domain_enabled == Some(true)
    }

    /// Whether the target is a pod chosen by label.
    pub open spec fn targets_pod(self) -> bool {
        self.workload_type == Some("pod"@)
    }
}

impl Config {
    /// A configuration with no identity, no ports and empty texts.
    pub fn empty() -> (out: Config)
        ensures
            out@ == (ConfigView {
                id: None,
                service: None,
                namespace: Seq::empty(),
                local_port: None,
                remote_port: None,
                context: Seq::empty(),
                workload_type: None,
                protocol: Seq::empty(),
                remote_address: None,
                local_address: None,
                alias: None,
                domain_enabled: None,
                kubeconfig: None,
                target: None,
            }),
    {
        Config {
            id: None,
            service: None,
            namespace: String::new(),
            local_port: None,
            remote_port: None,
            context: String::new(),
            workload_type: None,
            protocol: String::new(),
            remote_address: None,
            local_address: None,
            alias: None,
            domain_enabled: None,
            kubeconfig: None,
            target: None,
        }
    }

    /// A copy of this configuration.
    pub fn duplicate(&self) -> (out: Config)
        ensures
            out == *self,
    {
        Config {
            id: self.id,
            service: copy_text(&self.service),
            namespace: self.namespace.clone(),
            local_port: self.local_port,
            remote_port: self.remote_port,
            context: self.context.clone(),
            workload_type: copy_text(&self.workload_type),
            protocol: self.protocol.clone(),
            remote_address: copy_text(&self.remote_address),
            local_address: copy_text(&self.local_address),
            alias: copy_text(&self.alias),
            domain_enabled: self.domain_enabled,
            kubeconfig: copy_text(&self.kubeconfig),
            target: copy_text(&self.target),
        }
    }

    /// Whether the hosts file is edited for this forward.
    pub fn wants_domain(&self) -> (out: bool)
        ensures
            out == self@.wants_domain(),
    {
        match self.domain_enabled {
            Some(flag) => flag,
            None => false,
        }
    }

    /// Whether the target is a pod chosen by label.
    pub fn targets_pod(&self) -> (out: bool)
        ensures
            out == self@.targets_pod(),
    {
        match &self.workload_type {
            Some(kind) => text_is(kind.as_str(), "pod"),
            None => false,
        }
    }

    /// The identifier, 0 where there is none.
    pub fn id_or_zero(&self) -> (out: i64)
        ensures
            out as int == self@.id_or_zero(),
    {
        match self.id {
            Some(v) => v,
            None => 0,
        }
    }

    /// The remote port, 0 where there is none.
    pub fn remote_port_or_zero(&self) -> (out: u16)
        ensures
            out as int == self@.remote_port_or_zero(),
    {
        match self.remote_port {
            Some(v) => v,
            None => 0,
        }
    }
}

impl Default for Config {
    /// A configuration with no identity, no ports and empty texts.
    fn default() -> (out: Config)
        ensures
            out@.id.is_none(),
            out@.service.is_none(),
            out@.namespace.len() == 0,
            out@.local_port.is_none(),
            out@.remote_port.is_none(),
            out@.context.len() == 0,
            out@.workload_type.is_none(),
            out@.protocol.len() == 0,
            out@.remote_address.is_none(),
            out@.local_address.is_none(),
            out@.alias.is_none(),
            out@.domain_enabled.is_none(),
            out@.kubeconfig.is_none(),
            out@.target.is_none(),
    {
        Config::empty()
    }
}

/// Whether two strings hold the same text.
pub fn text_is(a: &str, b: &str) -> (out: bool)
    ensures
        out == (a@ == b@),
{
    let left = crate::text::to_chars(a);
    let right = crate::text::to_chars(b);
    crate::text::same_chars(&left, &right)
}

/// The summary returned for one configuration.
#[derive(Clone, Debug, PartialEq, Eq)]
pub struct CustomResponse {
    pub id: Option<i64>,
    pub service: String,
    pub namespace: String,
    /// The port actually bound.
    pub local_port: u16,
    pub remote_port: u16,
    pub context: String,
    pub protocol: String,
    /// Message for the user.
    pub stdout: String,
    /// Error text, empty on success.
    pub stderr: String,
    /// 0 on success.
    pub status: i32,
}

/// A summary as plain values.
pub struct ResponseView {
    pub id: Option<int>,
    pub service: Seq<char>,
    pub namespace: Seq<char>,
    pub local_port: int,
    pub remote_port: int,
    pub context: Seq<char>,
    pub protocol: Seq<char>,
    pub stdout: Seq<char>,
    pub stderr: Seq<char>,
    pub status: int,
}

impl View for CustomResponse {
    type V = ResponseView;

    open spec fn view(&self) -> ResponseView {
        ResponseView {
            id: match self.id {
                Some(v) => Some(v as int),
                None => None,
            },
            service: self.service@,
            namespace: self.namespace@,
            local_port: self.local_port as int,
            remote_port: self.remote_port as int,
            context: self.context@,
            protocol: self.protocol@,
            stdout: self.stdout@,
            stderr: self.stderr@,
            status: self.status as int,
        }
    }
}

impl CustomResponse {
    /// A copy of this summary.
    pub fn duplicate(&self) -> (out: CustomResponse)
        ensures
            out == *self,
    {
        CustomResponse {
            id: self.id,
            service: self.service.clone(),
            namespace: self.namespace.clone(),
            local_port: self.local_port,
            remote_port: self.remote_port,
            context: self.context.clone(),
            protocol: self.protocol.clone(),
            stdout: self.stdout.clone(),
            stderr: self.stderr.clone(),
            status: self.status,
        }
    }
}

/// Copies of the summaries of `responses`, in order.
pub fn copy_responses(responses: &Vec<CustomResponse>) -> (out: Vec<CustomResponse>)
    ensures
        out@ == responses@,
{
    let mut out: Vec<CustomResponse> = Vec::new();
    let mut i: usize = 0;
    while i < responses.len()
        invariant
            i <= responses.len(),
            out@ == responses@.subrange(0, i as int),
        decreases responses.len() - i,
    {
        out.push(responses[i].duplicate());
        i += 1;
        assert(out@ =~= responses@.subrange(0, i as int));
    }
    assert(responses@.subrange(0, responses.len() as int) =~= responses@);
    out
}

/// The summaries of a list as plain values.
pub open spec fn responses_view(responses: Seq<CustomResponse>) -> Seq<ResponseView> {
    Seq::new(responses.len(), |i: int| responses[i]@)
}

/// The configurations of a list as plain values.
pub open spec fn configs_view(configs: Seq<Config>) -> Seq<ConfigView> {
    Seq::new(configs.len(), |i: int| configs[i]@)
}

/// The persisted running flag of one configuration.
#[derive(Clone, Copy, Debug, PartialEq, Eq)]
pub struct ConfigState {
    pub config_id: i64,
    pub is_running: bool,
}

} // verus!
