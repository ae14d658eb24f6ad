//! Deploying helper pods and attaching forwards to them: the decisions of
//! one deploy call, taken one event at a time.

use vstd::prelude::*;
use crate::model::{
    copy_responses, copy_text, responses_view, text_of, text_or_default, Config, ConfigView,
    CustomResponse, ResponseView, configs_view,
};
use crate::naming::{
    current_username, helper_pod_name, helper_pod_name_spec, is_ascii_alphanumeric,
    random_alphanumeric,
};
use crate::numeric::{decimal, format_i64, format_u64};
use crate::start::{pick_transport, transport_spec};
use crate::template::{render_json_template, render_spec, values_view};
use crate::text::{extend_str, from_chars, lowercase, to_chars, to_lowercase};

verus! {

/// Where a deploy call stands.
#[derive(Clone, Copy, Debug, PartialEq, Eq, Structural)]
pub enum DeployPhase {
    /// Nothing was reported yet.
    Ready,
    /// A cluster client is being built.
    Connecting,
    /// The manifest template is being read.
    LoadingManifest,
    /// The pod is being created.
    Creating,
    /// The pod is awaited to run.
    Waiting,
    /// The forward to the pod is being started.
    Starting,
    /// The pod is being deleted after a failure.
    Deleting,
    /// The call is over.
    Done,
}

/// How building a cluster client ended.
#[derive(Debug, PartialEq, Eq)]
pub enum ClientOutcome {
    /// It failed; the text says why.
    Failed(String),
    /// It gave no client.
    Missing,
    /// A client is there.
    Ready,
}

/// What the caller reports to a deploy call.
pub enum DeployEvent {
    /// The call begins.
    Begin,
    /// Building the client ended, and the clock was read: seconds since the
    /// epoch, or why it could not be told.
    Connected { client: ClientOutcome, unix_seconds: Result<u64, String> },
    /// The manifest template, or why it could not be read.
    ManifestLoaded(Result<String, String>),
    /// Reading the manifest as a pod and creating the pod ended.
    PodCreated(Result<(), String>),
    /// Waiting for the pod to run ended.
    PodReady(Result<(), String>),
    /// Starting the forward ended: with its summaries or with its error.
    Started(Result<Vec<CustomResponse>, String>),
    /// The pod was deleted, or deleting it failed: both count.
    PodDeleted,
}

/// What a deploy call asks of the caller next.
#[derive(Debug, PartialEq, Eq)]
pub enum DeployCommand {
    /// Build a cluster client and read the clock.
    Connect { kubeconfig: Option<String>, context: String },
    /// Read the manifest template.
    LoadManifest,
    /// Read this manifest as a pod and create the pod.
    CreatePod { namespace: String, manifest: String },
    /// Wait until the pod runs.
    AwaitReady { namespace: String, name: String },
    /// Start the forward for this one configuration.
    Start { config: Config, protocol: String },
    /// Delete the pod, with this grace period where one is given.
    DeletePod { namespace: String, name: String, grace_period_seconds: Option<u32> },
    /// The call is over, with its result.
    Finished(Result<Vec<CustomResponse>, String>),
}

/// The state of one deploy call.
pub struct DeployRun {
    configs: Vec<Config>,
    index: usize,
    phase: DeployPhase,
    responses: Vec<CustomResponse>,
    pod_name: String,
    protocol: String,
    pending: String,
}

/// The state of a deploy call as plain values.
pub struct DeployView {
    /// The configurations to deploy, in order.
    pub configs: Seq<ConfigView>,
    /// How many configurations are dealt with.
    pub index: int,
    pub phase: DeployPhase,
    /// The summaries of the forwards that run.
    pub responses: Seq<ResponseView>,
    /// The name of the helper pod in hand.
    pub pod_name: Seq<char>,
    /// The protocol of the configuration in hand, in lower case.
    pub protocol: Seq<char>,
    /// The error to end with once the pod is deleted.
    pub pending: Seq<char>,
}

impl DeployView {
    /// The configuration in hand.
    pub open spec fn current(self) -> ConfigView {
        self.configs[self.index]
    }

    /// Whether a configuration is in hand.
    pub open spec fn in_hand(self) -> bool {
        0 <= self.index < self.configs.len()
    }

    /// What holds of every state of a deploy call: a configuration is in
    /// hand while one is worked on, and once its pod is named it has a
    /// service name and a remote port.
    pub open spec fn wf(self) -> bool {
        &&& 0 <= self.index <= self.configs.len()
        &&& self.phase == DeployPhase::Ready ==> self.index == 0
        &&& (self.phase != DeployPhase::Ready && self.phase != DeployPhase::Done)
            ==> self.in_hand()
        &&& self.phase == DeployPhase::LoadingManifest ==> self.current().service.is_some()
            && self.current().remote_port.is_some()
    }
}

/// Whether the helper pod in hand exists in the cluster as far as the call
/// knows: it was created and no deletion was asked for.
pub open spec fn pod_exists(phase: DeployPhase) -> bool {
    phase == DeployPhase::Waiting || phase == DeployPhase::Starting
}

/// Where a proxy pod connects to: the remote address of the configuration,
/// or its service where the address is absent or empty.
pub open spec fn remote_address_spec(c: ConfigView) -> Option<Seq<char>> {
    match c.remote_address {
        Some(address) => if address.len() == 0 {
            c.service
        } else {
            Some(address)
        },
        None => c.service,
    }
}

/// The identifier as the manifest shows it: in decimal, or `default`.
pub open spec fn manifest_id_spec(c: ConfigView) -> Seq<char> {
    match c.id {
        Some(id) => decimal(id),
        None => "default"@,
    }
}

/// The values that fill the manifest template, in the order in which they
/// are substituted.
pub open spec fn manifest_values_spec(c: ConfigView, pod_name: Seq<char>, protocol: Seq<char>) -> Seq<
    (Seq<char>, Seq<char>),
> {
    seq![
        ("hashed_name"@, pod_name),
        ("config_id"@, manifest_id_spec(c)),
        ("service_name"@, c.service_or_empty()),
        ("remote_address"@, crate::model::text_or_empty(remote_address_spec(c))),
        ("remote_port"@, decimal(c.remote_port_or_zero())),
        ("local_port"@, decimal(c.remote_port_or_zero())),
        ("protocol"@, protocol),
    ]
}

/// The configuration whose forward is started: that of the user, with the
/// helper pod as its service and the remote address filled in.
pub open spec fn forwarded_config_spec(c: ConfigView, pod_name: Seq<char>) -> ConfigView {
    ConfigView { service: Some(pod_name), remote_address: remote_address_spec(c), ..c }
}

/// A result as plain values.
pub open spec fn deploy_result_view(result: Result<Vec<CustomResponse>, String>) -> Result<
    Seq<ResponseView>,
    Seq<char>,
> {
    match result {
        Ok(responses) => Ok(responses_view(responses@)),
        Err(error) => Err(error@),
    }
}

/// Whether turning to the configuration `index` from the state `mid` ends in
/// the state `end` with the command `next`: a client is to be built for it,
/// or, where none is left, the call ends with the summaries.
pub open spec fn opened(mid: DeployView, index: int, end: DeployView, next: DeployCommand) -> bool {
    if index < mid.configs.len() {
        &&& end == DeployView { index, phase: DeployPhase::Connecting, ..mid }
        &&& next matches DeployCommand::Connect { kubeconfig, context }
        &&& text_of(kubeconfig) == mid.configs[index].kubeconfig
        &&& context@ == mid.configs[index].context
    } else {
        &&& end == DeployView { index, phase: DeployPhase::Done, ..mid }
        &&& next matches DeployCommand::Finished(Ok(responses))
        &&& responses_view(responses@) == mid.responses
    }
}

/// Whether the call ends with the error `error`.
pub open spec fn failed(s: DeployView, error: Seq<char>, end: DeployView, next: DeployCommand) -> bool {
    &&& end == DeployView { phase: DeployPhase::Done, ..s }
    &&& next matches DeployCommand::Finished(Err(given))
    &&& given@ == error
}

/// Whether the helper pod in hand is to be deleted, the call to end with
/// the error `error` afterwards.
pub open spec fn deleting(
    s: DeployView,
    error: Seq<char>,
    grace: Option<u32>,
    end: DeployView,
    next: DeployCommand,
) -> bool {
    &&& end == DeployView { phase: DeployPhase::Deleting, pending: error, ..s }
    &&& next matches DeployCommand::DeletePod { namespace, name, grace_period_seconds }
    &&& namespace@ == s.current().namespace
    &&& name@ == s.pod_name
    &&& grace_period_seconds == grace
}

/// The error of a deploy call whose forward did not start.
pub open spec fn start_error_spec(why: Seq<char>) -> Seq<char> {
    "Failed to start port forwarding "@ + why
}

/// Whether the state `end` and the command `next` are what the event
/// `event` leads to from the state `s`, where the name of a new helper pod
/// is made of the user name `username` and the random suffix `suffix`.
///
/// The configurations are dealt with one after the other. For each: a
/// client is built; the pod is named; the manifest template is read and
/// filled in; the pod is created and awaited; the forward is started with
/// the pod as its service. Any failure ends the whole call with its error.
/// A failure after the pod was created has the pod deleted first: at once
/// where waiting for it failed, else with the cluster's default grace.
pub open spec fn deploy_transition(
    s: DeployView,
    event: DeployEvent,
    username: Seq<char>,
    suffix: Seq<char>,
    end: DeployView,
    next: DeployCommand,
) -> bool {
    match event {
        DeployEvent::Begin => opened(s, 0, end, next),
        DeployEvent::Connected { client, unix_seconds } => match client {
            ClientOutcome::Failed(why) => failed(s, why@, end, next),
            ClientOutcome::Missing => failed(s, "Client not created"@, end, next),
            ClientOutcome::Ready => match unix_seconds {
                Err(why) => failed(s, why@, end, next),
                Ok(seconds) => {
                    &&& end == DeployView {
                        phase: DeployPhase::LoadingManifest,
                        pod_name: helper_pod_name_spec(
                            username,
                            s.current().protocol,
                            seconds as int,
                            suffix,
                        ),
                        protocol: lowercase(s.current().protocol),
                        ..s
                    }
                    &&& next == DeployCommand::LoadManifest
                },
            },
        },
        DeployEvent::ManifestLoaded(Err(why)) => failed(s, why@, end, next),
        DeployEvent::ManifestLoaded(Ok(template)) => {
            &&& end == DeployView { phase: DeployPhase::Creating, ..s }
            &&& next matches DeployCommand::CreatePod { namespace, manifest }
            &&& namespace@ == s.current().namespace
            &&& manifest@ == render_spec(
                template@,
                manifest_values_spec(s.current(), s.pod_name, s.protocol),
            )
        },
        DeployEvent::PodCreated(Err(why)) => failed(s, why@, end, next),
        DeployEvent::PodCreated(Ok(_)) => {
            &&& end == DeployView { phase: DeployPhase::Waiting, ..s }
            &&& next matches DeployCommand::AwaitReady { namespace, name }
            &&& namespace@ == s.current().namespace
            &&& name@ == s.pod_name
        },
        DeployEvent::PodReady(Err(why)) => deleting(s, why@, Some(0u32), end, next),
        DeployEvent::PodReady(Ok(_)) => match transport_spec(s.protocol) {
            Some(_) => {
                &&& end == DeployView { phase: DeployPhase::Starting, ..s }
                &&& next matches DeployCommand::Start { config, protocol }
                &&& config@ == forwarded_config_spec(s.current(), s.pod_name)
                &&& protocol@ == s.protocol
            },
            None => deleting(s, "Unsupported proxy type"@, None, end, next),
        },
        DeployEvent::Started(Err(why)) => deleting(s, start_error_spec(why@), None, end, next),
        DeployEvent::Started(Ok(responses)) => if responses@.len() > 0 {
            opened(
                DeployView { responses: s.responses.push(responses@.last()@), ..s },
                s.index + 1,
                end,
                next,
            )
        } else {
            deleting(s, "No response received from port forwarding"@, None, end, next)
        },
        DeployEvent::PodDeleted => failed(s, s.pending, end, next),
    }
}

/// Whether the event `event` is the one awaited in the phase `phase`.
pub open spec fn deploy_accepts(phase: DeployPhase, event: DeployEvent) -> bool {
    match event {
        DeployEvent::Begin => phase == DeployPhase::Ready,
        DeployEvent::Connected { .. } => phase == DeployPhase::Connecting,
        DeployEvent::ManifestLoaded(_) => phase == DeployPhase::LoadingManifest,
        DeployEvent::PodCreated(_) => phase == DeployPhase::Creating,
        DeployEvent::PodReady(_) => phase == DeployPhase::Waiting,
        DeployEvent::Started(_) => phase == DeployPhase::Starting,
        DeployEvent::PodDeleted => phase == DeployPhase::Deleting,
    }
}

/// Whether the event names a new helper pod: a client is there and the
/// clock was read.
pub open spec fn names_pod(event: DeployEvent) -> bool {
    event matches DeployEvent::Connected { client: ClientOutcome::Ready, unix_seconds: Ok(_) }
}

/// Where a proxy pod connects to.
fn remote_address(config: &Config) -> (out: Option<String>)
    ensures
        text_of(out) == remote_address_spec(config@),
{
    match &config.remote_address {
        Some(address) => {
            if address.as_str().unicode_len() == 0 {
                copy_text(&config.service)
            } else {
                Some(address.clone())
            }
        },
        None => copy_text(&config.service),
    }
}

/// The values that fill the manifest template.
fn manifest_values(config: &Config, pod_name: &str, protocol: &str) -> (out: Vec<(String, String)>)
    ensures
        values_view(out@) == manifest_values_spec(config@, pod_name@, protocol@),
{
    let id_text = match config.id {
        Some(id) => from_chars(&format_i64(id)),
        None => String::from_str("default"),
    };
    let port_text = from_chars(&format_u64(config.remote_port_or_zero() as u64));
    let mut out: Vec<(String, String)> = Vec::new();
    out.push((String::from_str("hashed_name"), String::from_str(pod_name)));
    out.push((String::from_str("config_id"), id_text));
    out.push((String::from_str("service_name"), text_or_default(&config.service)));
    out.push((String::from_str("remote_address"), text_or_default(&remote_address(config))));
    out.push((String::from_str("remote_port"), port_text.clone()));
    out.push((String::from_str("local_port"), port_text));
    out.push((String::from_str("protocol"), String::from_str(protocol)));
    assert(values_view(out@) =~= manifest_values_spec(config@, pod_name@, protocol@));
    out
}

/// The configuration whose forward is started.
fn forwarded_config(config: &Config, pod_name: &str) -> (out: Config)
    ensures
        out@ == forwarded_config_spec(config@, pod_name@),
{
    let mut out = config.duplicate();
    out.remote_address = remote_address(config);
    out.service = Some(String::from_str(pod_name));
    out
}

impl DeployRun {
    /// The state as plain values.
    pub closed spec fn view(&self) -> DeployView {
        DeployView {
            configs: configs_view(self.configs@),
            index: self.index as int,
            phase: self.phase,
            responses: responses_view(self.responses@),
            pod_name: self.pod_name@,
            protocol: self.protocol@,
            pending: self.pending@,
        }
    }

    /// A deploy call for `configs`, before its first event.
    pub fn new(configs: Vec<Config>) -> (run: DeployRun)
        ensures
            run@ == (DeployView {
                configs: configs_view(configs@),
                index: 0,
                phase: DeployPhase::Ready,
                responses: Seq::empty(),
                pod_name: Seq::empty(),
                protocol: Seq::empty(),
                pending: Seq::empty(),
            }),
            run@.wf(),
    {
        let run = DeployRun {
            configs,
            index: 0,
            phase: DeployPhase::Ready,
            responses: Vec::new(),
            pod_name: String::new(),
            protocol: String::new(),
            pending: String::new(),
        };
        assert(run@.responses =~= Seq::<ResponseView>::empty());
        run
    }

    /// Where the call stands.
    pub fn phase(&self) -> (out: DeployPhase)
        ensures
            out == self@.phase,
    {
        self.phase
    }

    /// Whether `event` may be reported now: it is the event that the phase
    /// awaits, and a pod is named only for a configuration with a service
    /// name and a remote port.
    pub fn can_take(&self, event: &DeployEvent) -> (out: bool)
        requires
            self@.wf(),
        ensures
            out == (deploy_accepts(self@.phase, *event) && (names_pod(*event)
                ==> self@.current().service.is_some() && self@.current().remote_port.is_some())),
    {
        match event {
            DeployEvent::Begin => self.phase == DeployPhase::Ready,
            DeployEvent::Connected { client, unix_seconds } => {
                if self.phase == DeployPhase::Connecting {
                    match (client, unix_seconds) {
                        (ClientOutcome::Ready, Ok(_)) => {
                            let config = &self.configs[self.index];
                            config.service.is_some() && config.remote_port.is_some()
                        },
                        _ => true,
                    }
                } else {
                    false
                }
            },
            DeployEvent::ManifestLoaded(_) => self.phase == DeployPhase::LoadingManifest,
            DeployEvent::PodCreated(_) => self.phase == DeployPhase::Creating,
            DeployEvent::PodReady(_) => self.phase == DeployPhase::Waiting,
            DeployEvent::Started(_) => self.phase == DeployPhase::Starting,
            DeployEvent::PodDeleted => self.phase == DeployPhase::Deleting,
        }
    }

    /// Turns to the configuration `index`, or ends the call where none is
    /// left.
    fn open(&mut self, index: usize) -> (next: DeployCommand)
        requires
            index <= old(self)@.configs.len(),
        ensures
            opened(old(self)@, index as int, final(self)@, next),
            final(self)@.wf(),
    {
        self.index = index;
        if index < self.configs.len() {
            self.phase = DeployPhase::Connecting;
            let config = &self.configs[index];
            DeployCommand::Connect {
                kubeconfig: copy_text(&config.kubeconfig),
                context: config.context.clone(),
            }
        } else {
            self.phase = DeployPhase::Done;
            DeployCommand::Finished(Ok(copy_responses(&self.responses)))
        }
    }

    /// Ends the call with `error`.
    fn fail(&mut self, error: String) -> (next: DeployCommand)
        requires
            old(self)@.wf(),
        ensures
            failed(old(self)@, error@, final(self)@, next),
            final(self)@.wf(),
    {
        self.phase = DeployPhase::Done;
        DeployCommand::Finished(Err(error))
    }

    /// Asks for the helper pod in hand to be deleted, the call to end with
    /// `error` afterwards.
    fn delete(&mut self, error: String, grace: Option<u32>) -> (next: DeployCommand)
        requires
            old(self)@.wf(),
            old(self)@.in_hand(),
        ensures
            deleting(old(self)@, error@, grace, final(self)@, next),
            final(self)@.wf(),
    {
        self.phase = DeployPhase::Deleting;
        self.pending = error;
        DeployCommand::DeletePod {
            namespace: self.configs[self.index].namespace.clone(),
            name: self.pod_name.clone(),
            grace_period_seconds: grace,
        }
    }
}

/// Takes one event of a deploy call and answers with what to do next, the
/// name of a new helper pod being made of `username` and `suffix`.
pub fn deploy_step(run: &mut DeployRun, event: DeployEvent, username: &str, suffix: &Vec<char>) -> (next:
    DeployCommand)
    requires
        old(run)@.wf(),
        deploy_accepts(old(run)@.phase, event),
        names_pod(event) ==> old(run)@.current().service.is_some() && old(
            run,
        )@.current().remote_port.is_some(),
    ensures
        final(run)@.wf(),
        deploy_transition(old(run)@, event, username@, suffix@, final(run)@, next),
{
    assert(run@.configs.len() == run.configs@.len());
    let after: usize = if run.index < run.configs.len() {
        run.index + 1
    } else {
        run.index
    };
    match event {
        DeployEvent::Begin => run.open(0),
        DeployEvent::Connected { client, unix_seconds } => match client {
            ClientOutcome::Failed(why) => run.fail(why),
            ClientOutcome::Missing => run.fail(String::from_str("Client not created")),
            ClientOutcome::Ready => match unix_seconds {
                Err(why) => run.fail(why),
                Ok(seconds) => {
                    let protocol = run.configs[run.index].protocol.as_str();
                    run.pod_name = helper_pod_name(username, protocol, seconds, suffix);
                    run.protocol = to_lowercase(protocol);
                    run.phase = DeployPhase::LoadingManifest;
                    DeployCommand::LoadManifest
                },
            },
        },
        DeployEvent::ManifestLoaded(Err(why)) => run.fail(why),
        DeployEvent::ManifestLoaded(Ok(template)) => {
            let config = &run.configs[run.index];
            let values = manifest_values(config, run.pod_name.as_str(), run.protocol.as_str());
            let manifest = render_json_template(template.as_str(), &values);
            run.phase = DeployPhase::Creating;
            DeployCommand::CreatePod { namespace: config.namespace.clone(), manifest }
        },
        DeployEvent::PodCreated(Err(why)) => run.fail(why),
        DeployEvent::PodCreated(Ok(_)) => {
            run.phase = DeployPhase::Waiting;
            DeployCommand::AwaitReady {
                namespace: run.configs[run.index].namespace.clone(),
                name: run.pod_name.clone(),
            }
        },
        DeployEvent::PodReady(Err(why)) => run.delete(why, Some(0)),
        DeployEvent::PodReady(Ok(_)) => {
            match pick_transport(run.protocol.as_str()) {
                Some(_) => {
                    run.phase = DeployPhase::Starting;
                    DeployCommand::Start {
                        config: forwarded_config(&run.configs[run.index], run.pod_name.as_str()),
                        protocol: run.protocol.clone(),
                    }
                },
                None => run.delete(String::from_str("Unsupported proxy type"), None),
            }
        },
        DeployEvent::Started(Err(why)) => {
            let mut message = to_chars("Failed to start port forwarding ");
            extend_str(&mut message, why.as_str());
            run.delete(from_chars(&message), None)
        },
        DeployEvent::Started(Ok(responses)) => {
            let mut responses = responses;
            match responses.pop() {
                Some(response) => {
                    run.responses.push(response);
                    proof {
                        assert(responses_view(run.responses@) =~= responses_view(
                            old(run).responses@,
                        ).push(response@));
                    }
                    run.open(after)
                },
                None => run.delete(
                    String::from_str("No response received from port forwarding"),
                    None,
                ),
            }
        },
        DeployEvent::PodDeleted => {
            let error = run.pending.clone();
            run.fail(error)
        },
    }
}

/// Takes one event of a deploy call and answers with what to do next.
///
/// Where the event names a new helper pod, the name is made of the name of
/// the user who runs the process and of six characters drawn at random: the
/// answer is what `deploy_step` gives for some user name and some suffix of
/// six ASCII letters and digits. For every other event the answer does not
/// depend on them.
pub fn deploy_and_forward_pod(run: &mut DeployRun, event: DeployEvent) -> (next: DeployCommand)
    requires
        old(run)@.wf(),
        deploy_accepts(old(run)@.phase, event),
        names_pod(event) ==> old(run)@.current().service.is_some() && old(
            run,
        )@.current().remote_port.is_some(),
    ensures
        final(run)@.wf(),
        exists|username: Seq<char>, suffix: Seq<char>|
            (names_pod(event) ==> suffix.len() == 6 && forall|i: int|
                0 <= i < suffix.len() ==> is_ascii_alphanumeric(#[trigger] suffix[i]))
                && #[trigger] deploy_transition(
                old(run)@,
                event,
                username,
                suffix,
                final(run)@,
                next,
            ),
{
    let names = match &event {
        DeployEvent::Connected { client: ClientOutcome::Ready, unix_seconds: Ok(_) } => true,
        _ => false,
    };
    if names {
        let username = current_username();
        let suffix = random_alphanumeric(6);
        let next = deploy_step(run, event, username.as_str(), &suffix);
        assert(deploy_transition(old(run)@, event, username@, suffix@, run@, next));
        next
    } else {
        let suffix: Vec<char> = Vec::new();
        let next = deploy_step(run, event, "", &suffix);
        assert(deploy_transition(old(run)@, event, ""@, suffix@, run@, next));
        next
    }
}

/// While the helper pod in hand exists, a deploy call never ends with an
/// error: an event then either goes on attaching the forward, or records
/// the summary of the forward that runs and turns to the next
/// configuration, or asks for the pod to be deleted. The error comes only
/// after the deletion was asked for.
pub proof fn lemma_failure_deletes_pod(
    s: DeployView,
    event: DeployEvent,
    username: Seq<char>,
    suffix: Seq<char>,
    end: DeployView,
    next: DeployCommand,
)
    requires
        s.wf(),
        deploy_accepts(s.phase, event),
        deploy_transition(s, event, username, suffix, end, next),
    ensures
        next matches DeployCommand::Finished(Err(_)) ==> !pod_exists(s.phase),
        pod_exists(s.phase) ==> {
            ||| pod_exists(end.phase)
            ||| end.responses.len() == s.responses.len() + 1
            ||| (next matches DeployCommand::DeletePod { namespace, name, .. } && name@
                == s.pod_name && namespace@ == s.current().namespace && end.phase
                == DeployPhase::Deleting)
        },
{
}

/// Whether these are the states that one deploy call goes through, the
/// events reported to it, the user names and suffixes at hand, and the
/// commands it gives: each event is the one awaited, and each state and
/// command is what the event before leads to.
pub open spec fn deploy_run(
    states: Seq<DeployView>,
    events: Seq<DeployEvent>,
    usernames: Seq<Seq<char>>,
    suffixes: Seq<Seq<char>>,
    commands: Seq<DeployCommand>,
) -> bool {
    &&& states.len() == events.len() + 1
    &&& commands.len() == events.len()
    &&& usernames.len() == events.len()
    &&& suffixes.len() == events.len()
    &&& forall|i: int|
        0 <= i < events.len() ==> deploy_accepts(states[i].phase, #[trigger] events[i]) && (
        names_pod(events[i]) ==> states[i].current().service.is_some()
            && states[i].current().remote_port.is_some()) && deploy_transition(
            states[i],
            events[i],
            usernames[i],
            suffixes[i],
            states[i + 1],
            commands[i],
        )
}

/// What holds of every state of a deploy call beyond `wf`: every
/// configuration dealt with has its summary.
pub open spec fn deploy_inv(s: DeployView) -> bool {
    s.wf() && s.responses.len() == s.index
}

/// Every event keeps `deploy_inv`.
pub proof fn lemma_deploy_inv_kept(
    s: DeployView,
    event: DeployEvent,
    username: Seq<char>,
    suffix: Seq<char>,
    end: DeployView,
    next: DeployCommand,
)
    requires
        deploy_inv(s),
        deploy_accepts(s.phase, event),
        names_pod(event) ==> s.current().service.is_some() && s.current().remote_port.is_some(),
        deploy_transition(s, event, username, suffix, end, next),
    ensures
        deploy_inv(end),
        end.configs == s.configs,
{
}

/// A call enters the deleting phase only from a state where the helper pod
/// in hand exists, and only with the command to delete that pod.
pub proof fn lemma_entering_deleting(
    s: DeployView,
    event: DeployEvent,
    username: Seq<char>,
    suffix: Seq<char>,
    end: DeployView,
    next: DeployCommand,
)
    requires
        s.wf(),
        deploy_accepts(s.phase, event),
        deploy_transition(s, event, username, suffix, end, next),
        end.phase == DeployPhase::Deleting,
    ensures
        pod_exists(s.phase),
        end.pod_name == s.pod_name,
        end.index == s.index,
        next matches DeployCommand::DeletePod { namespace, name, .. } && name@ == end.pod_name
            && namespace@ == end.current().namespace,
{
}

/// At every moment of a deploy call `deploy_inv` holds and the
/// configurations are those it began with.
pub proof fn lemma_deploy_run_keeps_inv(
    states: Seq<DeployView>,
    events: Seq<DeployEvent>,
    usernames: Seq<Seq<char>>,
    suffixes: Seq<Seq<char>>,
    commands: Seq<DeployCommand>,
    at: int,
)
    requires
        deploy_run(states, events, usernames, suffixes, commands),
        deploy_inv(states[0]),
        0 <= at < states.len(),
    ensures
        deploy_inv(states[at]),
        states[at].configs == states[0].configs,
    decreases at,
{
    if at > 0 {
        lemma_deploy_run_keeps_inv(states, events, usernames, suffixes, commands, at - 1);
        let event = events[at - 1];
        assert(deploy_transition(
            states[at - 1],
            event,
            usernames[at - 1],
            suffixes[at - 1],
            states[at],
            commands[at - 1],
        ));
        lemma_deploy_inv_kept(
            states[at - 1],
            event,
            usernames[at - 1],
            suffixes[at - 1],
            states[at],
            commands[at - 1],
        );
    }
}

/// A deploy call that returns an error leaves no helper pod of its own
/// behind without having asked for its deletion, whatever events were
/// reported on the way. When the error is returned, either no pod was
/// created yet for the configuration in hand, or the command just before
/// was to delete the pod in hand, given from a state where that pod
/// existed. Every configuration before the one in hand has its summary:
/// its pod carries a forward that runs.
pub proof fn lemma_deploy_call_leaves_no_pod(
    states: Seq<DeployView>,
    events: Seq<DeployEvent>,
    usernames: Seq<Seq<char>>,
    suffixes: Seq<Seq<char>>,
    commands: Seq<DeployCommand>,
)
    requires
        deploy_run(states, events, usernames, suffixes, commands),
        deploy_inv(states[0]),
        states[0].phase == DeployPhase::Ready,
        events.len() > 0,
        commands.last() matches DeployCommand::Finished(Err(_)),
    ensures
        ({
            let n = events.len() as int;
            let before = states[n - 1];
            &&& !pod_exists(before.phase)
            &&& before.responses.len() == before.index
            &&& states[n].responses == before.responses
            &&& if before.phase == DeployPhase::Deleting {
                &&& n >= 2
                &&& pod_exists(states[n - 2].phase)
                &&& commands[n - 2] matches DeployCommand::DeletePod { namespace, name, .. }
                    && name@ == before.pod_name && namespace@ == before.current().namespace
            } else {
                ||| before.phase == DeployPhase::Connecting
                ||| before.phase == DeployPhase::LoadingManifest
                ||| before.phase == DeployPhase::Creating
            }
        }),
{
    let n = events.len() as int;
    let before = states[n - 1];
    let event = events[n - 1];
    lemma_deploy_run_keeps_inv(states, events, usernames, suffixes, commands, n - 1);
    assert(commands.last() == commands[n - 1]);
    assert(deploy_transition(
        before,
        event,
        usernames[n - 1],
        suffixes[n - 1],
        states[n],
        commands[n - 1],
    ));
    lemma_failure_deletes_pod(
        before,
        event,
        usernames[n - 1],
        suffixes[n - 1],
        states[n],
        commands[n - 1],
    );
    if before.phase == DeployPhase::Deleting {
        assert(n >= 2);
        lemma_deploy_run_keeps_inv(states, events, usernames, suffixes, commands, n - 2);
        let earlier = events[n - 2];
        assert(deploy_transition(
            states[n - 2],
            earlier,
            usernames[n - 2],
            suffixes[n - 2],
            before,
            commands[n - 2],
        ));
        lemma_entering_deleting(
            states[n - 2],
            earlier,
            usernames[n - 2],
            suffixes[n - 2],
            before,
            commands[n - 2],
        );
    }
}

/// A deploy call that returns its summaries has attached a forward to the
/// helper pod of every configuration: the result holds one summary for each
/// configuration, whatever events were reported on the way.
pub proof fn lemma_deploy_call_attaches_each(
    states: Seq<DeployView>,
    events: Seq<DeployEvent>,
    usernames: Seq<Seq<char>>,
    suffixes: Seq<Seq<char>>,
    commands: Seq<DeployCommand>,
)
    requires
        deploy_run(states, events, usernames, suffixes, commands),
        deploy_inv(states[0]),
        states[0].phase == DeployPhase::Ready,
        events.len() > 0,
        commands.last() matches DeployCommand::Finished(Ok(_)),
    ensures
        commands.last() matches DeployCommand::Finished(Ok(responses)) && responses@.len()
            == states[0].configs.len(),
        states.last().phase == DeployPhase::Done,
{
    let n = events.len() as int;
    lemma_deploy_run_keeps_inv(states, events, usernames, suffixes, commands, n - 1);
    lemma_deploy_run_keeps_inv(states, events, usernames, suffixes, commands, n);
    assert(commands.last() == commands[n - 1]);
    assert(states.last() == states[n]);
    assert(deploy_transition(
        states[n - 1],
        events[n - 1],
        usernames[n - 1],
        suffixes[n - 1],
        states[n],
        commands[n - 1],
    ));
    match commands.last() {
        DeployCommand::Finished(Ok(responses)) => {
            assert(responses_view(responses@).len() == responses@.len());
        },
        _ => {},
    }
}

} // verus!
