//! Starting forwards: the decisions of one start call, taken one event at a
//! time. The caller does the outside work that each command names and hands
//! the outcome back as the next event.

use vstd::prelude::*;
use crate::keys::{composite_key, composite_key_spec, hosts_marker, hosts_marker_spec};
use crate::model::{
    copy_text, responses_view, text_is, text_of, text_or_default, text_or_empty, Config,
    ConfigState, ConfigView, CustomResponse, ResponseView, configs_view,
};
use crate::numeric::{decimal, format_i64, format_u64};
use crate::registry::{
    handle_of, insert_spec, remove_keys_spec, remove_spec, removed_handles_spec, Registry,
};
use crate::text::{
    extend_chars, extend_str, from_chars, join_lines, join_lines_spec, texts_view, to_chars,
    to_uppercase, uppercase,
};

verus! {

/// The transports that carry a forward.
#[derive(Clone, Copy, Debug, PartialEq, Eq)]
pub enum Transport {
    Tcp,
    Udp,
}

/// How the target of a forward is chosen.
#[derive(Debug, PartialEq, Eq)]
pub enum Selector {
    /// A pod with this label.
    PodLabel(String),
    /// The pods behind this service.
    ServiceName(String),
}

/// What a transport is built from.
#[derive(Debug, PartialEq, Eq)]
pub struct ForwardRequest {
    pub selector: Selector,
    pub remote_port: i32,
    pub namespace: String,
    /// The local port asked for; 0 asks for any free port.
    pub local_port: Option<u16>,
    pub local_address: Option<String>,
    pub context: Option<String>,
    pub kubeconfig: Option<String>,
    pub config_id: i64,
    pub workload_type: String,
}

/// A hosts-file block to install: one host name for one address, under a
/// marker.
#[derive(Debug, PartialEq, Eq)]
pub struct HostsInstall {
    pub marker: String,
    pub address: String,
    pub hostname: String,
}

/// How installing a hosts-file block ended.
#[derive(Debug, PartialEq, Eq)]
pub enum HostsOutcome {
    /// The block is in the file.
    Installed,
    /// The address is no IP address; nothing was written.
    InvalidAddress,
    /// The file could not be written; the text says why.
    WriteFailed(String),
}

/// What the caller reports to a start call.
pub enum StartEvent<H> {
    /// The call begins.
    Begin,
    /// Building the transport ended; an error carries its text.
    Built(Result<(), String>),
    /// Starting the transport ended: with the local port that was bound and
    /// the handle of the task, or with an error text.
    Forwarded(Result<(u16, H), String>),
    /// Installing the hosts-file block ended.
    HostsDone(HostsOutcome),
    /// The running flag was written, or writing it failed: both count.
    Reconciled,
}

/// What a start call asks of the caller next.
#[derive(Debug, PartialEq, Eq)]
pub enum StartCommand {
    /// Build the transport for this request.
    Build(ForwardRequest),
    /// Start the transport that was built.
    Forward(Transport),
    /// Install this hosts-file block.
    InstallHosts(HostsInstall),
    /// Write this running flag.
    Reconcile(ConfigState),
    /// The call is over, with its result.
    Finished(Result<Vec<CustomResponse>, String>),
}

/// The answer to one event.
pub struct StartStep<H> {
    /// Handles that left the registry: the caller aborts their tasks.
    pub abort: Vec<H>,
    /// The handle that the key of the new forward held before, if any.
    pub replaced: Option<H>,
    /// What to do next.
    pub next: StartCommand,
}

/// Where a start call stands.
#[derive(Clone, Copy, Debug, PartialEq, Eq, Structural)]
pub enum StartPhase {
    /// Nothing was reported yet.
    Ready,
    /// A transport is being built.
    Building,
    /// A transport is being started.
    Forwarding,
    /// A hosts-file block is being installed.
    Installing,
    /// A running flag is being written.
    Reconciling,
    /// The call is over.
    Done,
}

/// The state of one start call.
pub struct StartRun {
    configs: Vec<Config>,
    protocol: String,
    index: usize,
    phase: StartPhase,
    bound_port: u16,
    responses: Vec<CustomResponse>,
    errors: Vec<String>,
    warnings: Vec<String>,
    started: Vec<String>,
}

/// The state of a start call as plain values.
pub struct StartRunView {
    /// The configurations to start, in order.
    pub configs: Seq<ConfigView>,
    /// The protocol asked for.
    pub protocol: Seq<char>,
    /// How many configurations are dealt with.
    pub index: int,
    pub phase: StartPhase,
    /// The local port that the transport in hand has bound.
    pub bound_port: int,
    /// The summaries of the forwards that run.
    pub responses: Seq<ResponseView>,
    /// The errors met so far: each of them fails the call.
    pub errors: Seq<Seq<char>>,
    /// The warnings met so far: none of them fails the call.
    pub warnings: Seq<Seq<char>>,
    /// The registry keys of the forwards started by this call.
    pub started: Seq<Seq<char>>,
}

/// A request as plain values.
pub struct RequestView {
    pub pod_label: Option<Seq<char>>,
    pub service_name: Option<Seq<char>>,
    pub remote_port: int,
    pub namespace: Seq<char>,
    pub local_port: Option<int>,
    pub local_address: Option<Seq<char>>,
    pub context: Option<Seq<char>>,
    pub kubeconfig: Option<Seq<char>>,
    pub config_id: int,
    pub workload_type: Seq<char>,
}

impl View for ForwardRequest {
    type V = RequestView;

    open spec fn view(&self) -> RequestView {
        RequestView {
            pod_label: match self.selector {
                Selector::PodLabel(label) => Some(label@),
                Selector::ServiceName(_) => None,
            },
            service_name: match self.selector {
                Selector::PodLabel(_) => None,
                Selector::ServiceName(name) => Some(name@),
            },
            remote_port: self.remote_port as int,
            namespace: self.namespace@,
            local_port: match self.local_port {
                Some(v) => Some(v as int),
                None => None,
            },
            local_address: text_of(self.local_address),
            context: text_of(self.context),
            kubeconfig: text_of(self.kubeconfig),
            config_id: self.config_id as int,
            workload_type: self.workload_type@,
        }
    }
}

/// The request for the transport of `c`: a pod chosen by the label in
/// `target` where the workload is a pod, else the service.
pub open spec fn request_spec(c: ConfigView) -> RequestView {
    RequestView {
        pod_label: if c.targets_pod() {
            Some(text_or_empty(c.target))
        } else {
            None
        },
        service_name: if c.targets_pod() {
            None
        } else {
            Some(c.service_or_empty())
        },
        remote_port: c.remote_port_or_zero(),
        namespace: c.namespace,
        local_port: c.local_port,
        local_address: c.local_address,
        context: Some(c.context),
        kubeconfig: c.kubeconfig,
        config_id: c.id_or_zero(),
        workload_type: text_or_empty(c.workload_type),
    }
}

/// The transport that a protocol name stands for.
pub open spec fn transport_spec(protocol: Seq<char>) -> Option<Transport> {
    if protocol == "udp"@ {
        Some(Transport::Udp)
    } else if protocol == "tcp"@ {
        Some(Transport::Tcp)
    } else {
        None
    }
}

/// How the target of `c` is called in messages.
pub open spec fn target_kind_spec(c: ConfigView) -> Seq<char> {
    if c.targets_pod() {
        "pod label"@
    } else {
        "service"@
    }
}

/// The error recorded where no transport could be built for `c`.
pub open spec fn build_error_spec(c: ConfigView, why: Seq<char>) -> Seq<char> {
    "Failed to create PortForward for "@ + target_kind_spec(c) + " "@ + c.service_or_empty()
        + ": "@ + why
}

/// The error recorded where the transport of `c` did not start.
pub open spec fn transport_error_spec(c: ConfigView, protocol: Seq<char>, why: Seq<char>) -> Seq<
    char,
> {
    "Failed to start "@ + uppercase(protocol) + " port forwarding for "@ + target_kind_spec(c)
        + " "@ + c.service_or_empty() + ": "@ + why
}

/// The error recorded where the hosts file could not be written.
pub open spec fn hosts_error_spec(service: Seq<char>, why: Seq<char>) -> Seq<char> {
    "Failed to write to the hostfile for "@ + service + ": "@ + why
}

/// The warning recorded where the local address is no IP address.
pub open spec fn address_error_spec(address: Seq<char>) -> Seq<char> {
    "Invalid IP address format: "@ + address
}

/// The message of a forward that runs.
pub open spec fn started_message_spec(
    protocol: Seq<char>,
    local_port: int,
    remote_port: int,
    service: Seq<char>,
) -> Seq<char> {
    uppercase(protocol) + " forwarding from 127.0.0.1:"@ + decimal(local_port) + " -> "@
        + decimal(remote_port) + ":"@ + service
}

/// The summary of the forward of `c` that runs on `local_port`.
pub open spec fn success_spec(c: ConfigView, protocol: Seq<char>, local_port: int) -> ResponseView {
    ResponseView {
        id: c.id,
        service: c.service_or_empty(),
        namespace: c.namespace,
        local_port,
        remote_port: c.remote_port_or_zero(),
        context: c.context,
        protocol: c.protocol,
        stdout: started_message_spec(
            protocol,
            local_port,
            c.remote_port_or_zero(),
            c.service_or_empty(),
        ),
        stderr: Seq::empty(),
        status: 0,
    }
}

/// The registry key of the forward of `c`.
pub open spec fn config_key_spec(c: ConfigView) -> Seq<char> {
    composite_key_spec(c.id_or_zero(), c.service_or_empty())
}

/// Whether the hosts file is edited for `c`: the configuration asks for it
/// and names both a service and a local address.
pub open spec fn installs_hosts(c: ConfigView) -> bool {
    c.wants_domain() && c.service.is_some() && c.local_address.is_some()
}

/// The result of a start call that has dealt with all its configurations:
/// the summaries where no error was met, else the errors, one per line.
pub open spec fn outcome_spec(s: StartRunView) -> Result<Seq<ResponseView>, Seq<char>> {
    if s.errors.len() == 0 {
        Ok(s.responses)
    } else {
        Err(join_lines_spec(s.errors))
    }
}

/// The state after turning to the next configuration: building its
/// transport, or done where none is left.
pub open spec fn turn_spec(s: StartRunView, index: int) -> StartRunView {
    StartRunView {
        index,
        phase: if index < s.configs.len() {
            StartPhase::Building
        } else {
            StartPhase::Done
        },
        ..s
    }
}

/// The state with one more error.
pub open spec fn fail_spec(s: StartRunView, error: Seq<char>) -> StartRunView {
    StartRunView { errors: s.errors.push(error), ..s }
}

/// The state with one more warning.
pub open spec fn warn_spec(s: StartRunView, warning: Seq<char>) -> StartRunView {
    StartRunView { warnings: s.warnings.push(warning), ..s }
}

impl StartRunView {
    /// The configuration in hand.
    pub open spec fn current(self) -> ConfigView {
        self.configs[self.index]
    }

    /// Whether a configuration is in hand.
    pub open spec fn in_hand(self) -> bool {
        0 <= self.index < self.configs.len()
    }
}

/// A result as plain values.
pub open spec fn result_view(result: Result<Vec<CustomResponse>, String>) -> Result<
    Seq<ResponseView>,
    Seq<char>,
> {
    match result {
        Ok(responses) => Ok(responses_view(responses@)),
        Err(error) => Err(error@),
    }
}

/// Whether the event `event` is the one awaited in the phase `phase`.
pub open spec fn accepts<H>(phase: StartPhase, event: StartEvent<H>) -> bool {
    match event {
        StartEvent::Begin => phase == StartPhase::Ready,
        StartEvent::Built(_) => phase == StartPhase::Building,
        StartEvent::Forwarded(_) => phase == StartPhase::Forwarding,
        StartEvent::HostsDone(_) => phase == StartPhase::Installing,
        StartEvent::Reconciled => phase == StartPhase::Reconciling,
    }
}

impl StartRunView {
    /// What holds of every state of a start call: a configuration is in hand
    /// while one is worked on, it has what the phase needs of it, and a call
    /// that is over has dealt with all of them.
    pub open spec fn wf(self) -> bool {
        &&& 0 <= self.index <= self.configs.len()
        &&& 0 <= self.bound_port <= 0xffff
        &&& self.phase == StartPhase::Ready ==> self.index == 0
        &&& self.phase == StartPhase::Done ==> self.index == self.configs.len()
        &&& (self.phase == StartPhase::Building || self.phase == StartPhase::Forwarding)
            ==> self.in_hand()
        &&& self.phase == StartPhase::Installing ==> self.in_hand() && self.current().id.is_some()
            && installs_hosts(self.current())
        &&& self.phase == StartPhase::Reconciling ==> self.in_hand()
            && self.current().id.is_some() && self.current().service.is_some()
    }
}

/// Whether turning to the configuration `index` from the state `mid` and the
/// registry `reg`, with the handles `already` taken out before, ends in the
/// state `end`, the registry `end_reg` and the answer `step`.
///
/// While configurations are left, the next one is in hand and its transport
/// is to be built. When none is left the call is over: without errors its
/// result is the summaries, in the order of the configurations; with errors
/// every forward that this call started leaves the registry, its handle is
/// handed over to be aborted, and the result is the errors.
pub open spec fn turned<H>(
    mid: StartRunView,
    reg: Seq<(Seq<char>, H)>,
    already: Seq<H>,
    index: int,
    end: StartRunView,
    end_reg: Seq<(Seq<char>, H)>,
    step: StartStep<H>,
) -> bool {
    &&& end == turn_spec(mid, index)
    &&& step.replaced.is_none()
    &&& if index < mid.configs.len() {
        &&& step.next matches StartCommand::Build(request)
        &&& request@ == request_spec(mid.configs[index])
        &&& end_reg == reg
        &&& step.abort@ == already
    } else {
        &&& step.next matches StartCommand::Finished(result)
        &&& result_view(result) == outcome_spec(mid)
        &&& if mid.errors.len() == 0 {
            end_reg == reg && step.abort@ == already
        } else {
            end_reg == remove_keys_spec(reg, mid.started) && step.abort@ == already
                + removed_handles_spec(reg, mid.started)
        }
    }
}

/// Whether the command `next` asks to write the running flag of `c`.
pub open spec fn asks_reconcile(next: StartCommand, c: ConfigView) -> bool {
    next matches StartCommand::Reconcile(state) && state.config_id as int == c.id_or_zero()
        && state.is_running
}

/// Whether the command `next` asks to install the hosts-file block of `c`.
pub open spec fn asks_install(next: StartCommand, c: ConfigView) -> bool {
    next matches StartCommand::InstallHosts(block) && block.marker@ == hosts_marker_spec(
        c.service_or_empty(),
        decimal(c.id_or_zero()),
    ) && block.address@ == text_or_empty(c.local_address) && block.hostname@ == text_or_empty(
        c.alias,
    )
}

/// Whether the state `end`, the registry `end_reg` and the answer `step`
/// are what the event `event` leads to from the state `s` and the registry
/// `reg`.
pub open spec fn start_transition<H>(
    s: StartRunView,
    reg: Seq<(Seq<char>, H)>,
    event: StartEvent<H>,
    end: StartRunView,
    end_reg: Seq<(Seq<char>, H)>,
    step: StartStep<H>,
) -> bool {
    match event {
        StartEvent::Begin => turned(s, reg, Seq::empty(), 0, end, end_reg, step),
        StartEvent::Built(Err(why)) => turned(
            fail_spec(s, build_error_spec(s.current(), why@)),
            reg,
            Seq::empty(),
            s.index + 1,
            end,
            end_reg,
            step,
        ),
        StartEvent::Built(Ok(_)) => match transport_spec(s.protocol) {
            Some(transport) => {
                &&& end == StartRunView { phase: StartPhase::Forwarding, ..s }
                &&& end_reg == reg
                &&& step.abort@ == Seq::<H>::empty()
                &&& step.replaced.is_none()
                &&& step.next == StartCommand::Forward(transport)
            },
            None => turned(
                fail_spec(
                    s,
                    transport_error_spec(s.current(), s.protocol, "Unsupported protocol"@),
                ),
                reg,
                Seq::empty(),
                s.index + 1,
                end,
                end_reg,
                step,
            ),
        },
        StartEvent::Forwarded(Err(why)) => turned(
            fail_spec(s, transport_error_spec(s.current(), s.protocol, why@)),
            reg,
            Seq::empty(),
            s.index + 1,
            end,
            end_reg,
            step,
        ),
        StartEvent::Forwarded(Ok((port, handle))) => {
            &&& end == StartRunView {
                phase: if installs_hosts(s.current()) {
                    StartPhase::Installing
                } else {
                    StartPhase::Reconciling
                },
                bound_port: port as int,
                started: s.started.push(config_key_spec(s.current())),
                ..s
            }
            &&& end_reg == insert_spec(reg, config_key_spec(s.current()), handle)
            &&& step.replaced == handle_of(reg, config_key_spec(s.current()))
            &&& step.abort@ == Seq::<H>::empty()
            &&& if installs_hosts(s.current()) {
                asks_install(step.next, s.current())
            } else {
                asks_reconcile(step.next, s.current())
            }
        },
        StartEvent::HostsDone(HostsOutcome::Installed) => {
            &&& end == StartRunView { phase: StartPhase::Reconciling, ..s }
            &&& end_reg == reg
            &&& step.abort@ == Seq::<H>::empty()
            &&& step.replaced.is_none()
            &&& asks_reconcile(step.next, s.current())
        },
        StartEvent::HostsDone(HostsOutcome::InvalidAddress) => {
            &&& end == StartRunView {
                phase: StartPhase::Reconciling,
                ..warn_spec(s, address_error_spec(text_or_empty(s.current().local_address)))
            }
            &&& end_reg == reg
            &&& step.abort@ == Seq::<H>::empty()
            &&& step.replaced.is_none()
            &&& asks_reconcile(step.next, s.current())
        },
        StartEvent::HostsDone(HostsOutcome::WriteFailed(why)) => turned(
            fail_spec(s, hosts_error_spec(s.current().service_or_empty(), why@)),
            remove_spec(reg, config_key_spec(s.current())),
            match handle_of(reg, config_key_spec(s.current())) {
                Some(handle) => seq![handle],
                None => Seq::empty(),
            },
            s.index + 1,
            end,
            end_reg,
            step,
        ),
        StartEvent::Reconciled => turned(
            StartRunView {
                responses: s.responses.push(success_spec(s.current(), s.protocol, s.bound_port)),
                ..s
            },
            reg,
            Seq::empty(),
            s.index + 1,
            end,
            end_reg,
            step,
        ),
    }
}

/// The request for the transport of `config`.
fn build_request(config: &Config) -> (out: ForwardRequest)
    ensures
        out@ == request_spec(config@),
{
    let selector = if config.targets_pod() {
        Selector::PodLabel(text_or_default(&config.target))
    } else {
        Selector::ServiceName(text_or_default(&config.service))
    };
    ForwardRequest {
        selector,
        remote_port: config.remote_port_or_zero() as i32,
        namespace: config.namespace.clone(),
        local_port: config.local_port,
        local_address: copy_text(&config.local_address),
        context: Some(config.context.clone()),
        kubeconfig: copy_text(&config.kubeconfig),
        config_id: config.id_or_zero(),
        workload_type: text_or_default(&config.workload_type),
    }
}

/// The transport that the protocol name stands for.
pub fn pick_transport(protocol: &str) -> (out: Option<Transport>)
    ensures
        out == transport_spec(protocol@),
{
    if text_is(protocol, "udp") {
        Some(Transport::Udp)
    } else if text_is(protocol, "tcp") {
        Some(Transport::Tcp)
    } else {
        None
    }
}

/// Appends how the target of `config` is called in messages, and the
/// service name after a space.
fn push_target(out: &mut Vec<char>, config: &Config)
    ensures
        final(out)@ == old(out)@ + target_kind_spec(config@) + " "@
            + config@.service_or_empty(),
{
    if config.targets_pod() {
        extend_str(out, "pod label");
    } else {
        extend_str(out, "service");
    }
    extend_str(out, " ");
    let service = text_or_default(&config.service);
    extend_str(out, service.as_str());
}

/// The error recorded where no transport could be built for `config`.
fn build_error(config: &Config, why: &str) -> (out: String)
    ensures
        out@ == build_error_spec(config@, why@),
{
    let mut out = to_chars("Failed to create PortForward for ");
    push_target(&mut out, config);
    extend_str(&mut out, ": ");
    extend_str(&mut out, why);
    from_chars(&out)
}

/// The error recorded where the transport of `config` did not start.
fn transport_error(config: &Config, protocol: &str, why: &str) -> (out: String)
    ensures
        out@ == transport_error_spec(config@, protocol@, why@),
{
    let mut out = to_chars("Failed to start ");
    let upper = to_uppercase(protocol);
    extend_str(&mut out, upper.as_str());
    extend_str(&mut out, " port forwarding for ");
    push_target(&mut out, config);
    extend_str(&mut out, ": ");
    extend_str(&mut out, why);
    from_chars(&out)
}

/// The error recorded where the hosts file could not be written.
fn hosts_error(service: &str, why: &str) -> (out: String)
    ensures
        out@ == hosts_error_spec(service@, why@),
{
    let mut out = to_chars("Failed to write to the hostfile for ");
    extend_str(&mut out, service);
    extend_str(&mut out, ": ");
    extend_str(&mut out, why);
    from_chars(&out)
}

/// The warning recorded where the local address is no IP address.
fn address_error(address: &str) -> (out: String)
    ensures
        out@ == address_error_spec(address@),
{
    let mut out = to_chars("Invalid IP address format: ");
    extend_str(&mut out, address);
    from_chars(&out)
}

/// The summary of the forward of `config` that runs on `local_port`.
fn success_response(config: &Config, protocol: &str, local_port: u16) -> (out: CustomResponse)
    ensures
        out@ == success_spec(config@, protocol@, local_port as int),
{
    let service = text_or_default(&config.service);
    let remote_port = config.remote_port_or_zero();
    let upper = to_uppercase(protocol);
    let mut message = to_chars(upper.as_str());
    extend_str(&mut message, " forwarding from 127.0.0.1:");
    let local = format_u64(local_port as u64);
    extend_chars(&mut message, &local);
    extend_str(&mut message, " -> ");
    let remote = format_u64(remote_port as u64);
    extend_chars(&mut message, &remote);
    extend_str(&mut message, ":");
    extend_str(&mut message, service.as_str());
    CustomResponse {
        id: config.id,
        service,
        namespace: config.namespace.clone(),
        local_port,
        remote_port,
        context: config.context.clone(),
        protocol: config.protocol.clone(),
        stdout: from_chars(&message),
        stderr: String::new(),
        status: 0,
    }
}

/// The command to write the running flag of `config`.
fn reconcile_command(config: &Config) -> (out: StartCommand)
    ensures
        asks_reconcile(out, config@),
{
    StartCommand::Reconcile(ConfigState { config_id: config.id_or_zero(), is_running: true })
}

impl StartRun {
    /// The state as plain values.
    pub closed spec fn view(&self) -> StartRunView {
        StartRunView {
            configs: configs_view(self.configs@),
            protocol: self.protocol@,
            index: self.index as int,
            phase: self.phase,
            bound_port: self.bound_port as int,
            responses: responses_view(self.responses@),
            errors: texts_view(self.errors@),
            warnings: texts_view(self.warnings@),
            started: texts_view(self.started@),
        }
    }

    /// A start call for `configs` over `protocol`, before its first event.
    pub fn new(configs: Vec<Config>, protocol: &str) -> (run: StartRun)
        ensures
            run@ == (StartRunView {
                configs: configs_view(configs@),
                protocol: protocol@,
                index: 0,
                phase: StartPhase::Ready,
                bound_port: 0,
                responses: Seq::empty(),
                errors: Seq::empty(),
                warnings: Seq::empty(),
                started: Seq::empty(),
            }),
            run@.wf(),
    {
        let run = StartRun {
            configs,
            protocol: String::from_str(protocol),
            index: 0,
            phase: StartPhase::Ready,
            bound_port: 0,
            responses: Vec::new(),
            errors: Vec::new(),
            warnings: Vec::new(),
            started: Vec::new(),
        };
        assert(run@.responses =~= Seq::<ResponseView>::empty());
        assert(run@.errors =~= Seq::<Seq<char>>::empty());
        assert(run@.warnings =~= Seq::<Seq<char>>::empty());
        assert(run@.started =~= Seq::<Seq<char>>::empty());
        run
    }

    /// Where the call stands.
    pub fn phase(&self) -> (out: StartPhase)
        ensures
            out == self@.phase,
    {
        self.phase
    }

    /// How many configurations are dealt with.
    pub fn index(&self) -> (out: usize)
        ensures
            out == self@.index,
    {
        self.index
    }

    /// Whether `event` may be reported now: it is the event that the phase
    /// awaits, and a transport that started belongs to a configuration with
    /// an identity and a service name.
    pub fn can_take<H>(&self, event: &StartEvent<H>) -> (out: bool)
        requires
            self@.wf(),
        ensures
            out == (accepts(self@.phase, *event) && (event matches StartEvent::Forwarded(Ok(_))
                ==> self@.current().id.is_some() && self@.current().service.is_some())),
    {
        match event {
            StartEvent::Begin => self.phase == StartPhase::Ready,
            StartEvent::Built(_) => self.phase == StartPhase::Building,
            StartEvent::Forwarded(outcome) => {
                if self.phase == StartPhase::Forwarding {
                    match outcome {
                        Ok(_) => {
                            let config = &self.configs[self.index];
                            config.id.is_some() && config.service.is_some()
                        },
                        Err(_) => true,
                    }
                } else {
                    false
                }
            },
            StartEvent::HostsDone(_) => self.phase == StartPhase::Installing,
            StartEvent::Reconciled => self.phase == StartPhase::Reconciling,
        }
    }

    /// The warnings met so far, in order. A warning does not fail the call:
    /// the forward it belongs to stays.
    pub fn warnings(&self) -> (out: Vec<String>)
        ensures
            texts_view(out@) == self@.warnings,
    {
        let mut out: Vec<String> = Vec::new();
        let mut i: usize = 0;
        while i < self.warnings.len()
            invariant
                i <= self.warnings.len(),
                out@.len() == i,
                forall|j: int| 0 <= j < i ==> (#[trigger] out@[j])@ == self.warnings@[j]@,
            decreases self.warnings.len() - i,
        {
            out.push(self.warnings[i].clone());
            i += 1;
        }
        assert(texts_view(out@) =~= texts_view(self.warnings@));
        out
    }

    /// Records one more warning.
    fn warn(&mut self, warning: String)
        ensures
            final(self)@ == warn_spec(old(self)@, warning@),
    {
        self.warnings.push(warning);
        assert(texts_view(self.warnings@) =~= texts_view(old(self).warnings@).push(warning@));
    }

    /// Records one more error.
    fn fail(&mut self, error: String)
        ensures
            final(self)@ == fail_spec(old(self)@, error@),
    {
        self.errors.push(error);
        assert(texts_view(self.errors@) =~= texts_view(old(self).errors@).push(error@));
    }

    /// Turns to the configuration `index`, or ends the call where none is
    /// left.
    fn turn<H>(&mut self, registry: &mut Registry<H>, index: usize, already: Vec<H>) -> (step:
        StartStep<H>)
        requires
            index <= old(self)@.configs.len(),
            0 <= old(self)@.bound_port <= 0xffff,
            old(registry).wf(),
        ensures
            final(registry).wf(),
            final(self)@.wf(),
            turned(
                old(self)@,
                old(registry)@,
                already@,
                index as int,
                final(self)@,
                final(registry)@,
                step,
            ),
    {
        self.index = index;
        if index < self.configs.len() {
            self.phase = StartPhase::Building;
            let request = build_request(&self.configs[index]);
            StartStep { abort: already, replaced: None, next: StartCommand::Build(request) }
        } else {
            self.phase = StartPhase::Done;
            if self.errors.len() == 0 {
                let responses = crate::model::copy_responses(&self.responses);
                StartStep {
                    abort: already,
                    replaced: None,
                    next: StartCommand::Finished(Ok(responses)),
                }
            } else {
                let mut abort = already;
                let mut removed = registry.remove_all(&self.started);
                abort.append(&mut removed);
                let message = join_lines(&self.errors);
                StartStep { abort, replaced: None, next: StartCommand::Finished(Err(message)) }
            }
        }
    }
}

/// Takes one event of a start call and answers with what to do next.
///
/// The configurations are dealt with one after the other, in order. For
/// each: its transport is built, then started; the handle of the task is
/// stored in the registry under the key of the forward; where the
/// configuration asks for it, a hosts-file block is installed; the running
/// flag is written; the summary is recorded. A transport that cannot be
/// built or started, and an unknown protocol, are recorded as errors and the
/// call turns to the next configuration. A hosts file that cannot be written
/// is recorded as an error and takes the forward out of the registry again.
/// A local address that is no IP address is recorded as a warning only: no
/// block is installed, the forward stays and the call does not fail for it.
/// When all are dealt with, the call ends: with the summaries where no
/// error was recorded, else with the errors, after every forward that this
/// call started has left the registry.
pub fn start_port_forward<H>(
    run: &mut StartRun,
    registry: &mut Registry<H>,
    event: StartEvent<H>,
) -> (step: StartStep<H>)
    requires
        old(run)@.wf(),
        old(registry).wf(),
        accepts(old(run)@.phase, event),
        event matches StartEvent::Forwarded(Ok(_)) ==> old(run)@.current().id.is_some() && old(
            run,
        )@.current().service.is_some(),
    ensures
        final(run)@.wf(),
        final(registry).wf(),
        start_transition(
            old(run)@,
            old(registry)@,
            event,
            final(run)@,
            final(registry)@,
            step,
        ),
{
    assert(run@.configs.len() == run.configs@.len());
    let after: usize = if run.index < run.configs.len() {
        run.index + 1
    } else {
        run.index
    };
    match event {
        StartEvent::Begin => run.turn(registry, 0, Vec::new()),
        StartEvent::Built(Err(why)) => {
            let error = build_error(&run.configs[run.index], why.as_str());
            run.fail(error);
            run.turn(registry, after, Vec::new())
        },
        StartEvent::Built(Ok(_)) => {
            match pick_transport(run.protocol.as_str()) {
                Some(transport) => {
                    run.phase = StartPhase::Forwarding;
                    StartStep {
                        abort: Vec::new(),
                        replaced: None,
                        next: StartCommand::Forward(transport),
                    }
                },
                None => {
                    let error = transport_error(
                        &run.configs[run.index],
                        run.protocol.as_str(),
                        "Unsupported protocol",
                    );
                    run.fail(error);
                    let next = run.index + 1;
                    run.turn(registry, next, Vec::new())
                },
            }
        },
        StartEvent::Forwarded(Err(why)) => {
            let error = transport_error(
                &run.configs[run.index],
                run.protocol.as_str(),
                why.as_str(),
            );
            run.fail(error);
            run.turn(registry, after, Vec::new())
        },
        StartEvent::Forwarded(Ok((port, handle))) => {
            let config = &run.configs[run.index];
            let service = text_or_default(&config.service);
            let key = composite_key(config.id_or_zero(), service.as_str());
            let replaced = registry.insert(key.clone(), handle);
            let installs = config.wants_domain() && config.service.is_some()
                && config.local_address.is_some();
            let next = if installs {
                let id_text = from_chars(&format_i64(config.id_or_zero()));
                StartCommand::InstallHosts(
                    HostsInstall {
                        marker: hosts_marker(service.as_str(), id_text.as_str()),
                        address: text_or_default(&config.local_address),
                        hostname: text_or_default(&config.alias),
                    },
                )
            } else {
                reconcile_command(config)
            };
            run.started.push(key);
            run.bound_port = port;
            run.phase = if installs {
                StartPhase::Installing
            } else {
                StartPhase::Reconciling
            };
            proof {
                assert(texts_view(run.started@) =~= texts_view(old(run).started@).push(key@));
            }
            StartStep { abort: Vec::new(), replaced, next }
        },
        StartEvent::HostsDone(HostsOutcome::Installed) => {
            run.phase = StartPhase::Reconciling;
            let next = reconcile_command(&run.configs[run.index]);
            StartStep { abort: Vec::new(), replaced: None, next }
        },
        StartEvent::HostsDone(HostsOutcome::InvalidAddress) => {
            let address = text_or_default(&run.configs[run.index].local_address);
            let warning = address_error(address.as_str());
            run.warn(warning);
            run.phase = StartPhase::Reconciling;
            let next = reconcile_command(&run.configs[run.index]);
            StartStep { abort: Vec::new(), replaced: None, next }
        },
        StartEvent::HostsDone(HostsOutcome::WriteFailed(why)) => {
            let config = &run.configs[run.index];
            let service = text_or_default(&config.service);
            let key = composite_key(config.id_or_zero(), service.as_str());
            let error = hosts_error(service.as_str(), why.as_str());
            let mut already: Vec<H> = Vec::new();
            match registry.remove(key.as_str()) {
                Some(handle) => {
                    already.push(handle);
                },
                None => {},
            }
            run.fail(error);
            run.turn(registry, after, already)
        },
        StartEvent::Reconciled => {
            let response = success_response(
                &run.configs[run.index],
                run.protocol.as_str(),
                run.bound_port,
            );
            run.responses.push(response);
            proof {
                assert(responses_view(run.responses@) =~= responses_view(old(run).responses@).push(
                    response@,
                ));
            }
            run.turn(registry, after, Vec::new())
        },
    }
}

} // verus!
