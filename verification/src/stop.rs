//! Stopping one forward: the decisions of one stop call, taken one event at
//! a time.

use vstd::prelude::*;
use crate::keys::{
    hosts_marker, hosts_marker_spec, key_id, key_id_spec, key_prefix, key_prefix_spec, split_key,
    split_key_spec,
};
use crate::model::{Config, ConfigState, ConfigView, CustomResponse, ResponseView, configs_view};
use crate::registry::{handle_of, has_prefixed, remove_spec, Registry};
use crate::text::{extend_str, from_chars, to_chars};

verus! {

/// Where a stop call stands.
#[derive(Clone, Copy, Debug, PartialEq, Eq, Structural)]
pub enum StopPhase {
    /// Nothing was reported yet.
    Ready,
    /// The configurations are being loaded.
    Loading,
    /// The hosts-file block is being removed.
    Uninstalling,
    /// The call is over.
    Done,
}

/// What the caller reports to a stop call.
pub enum StopEvent {
    /// The call begins.
    Begin,
    /// The stored configurations, or why they could not be loaded.
    ConfigsLoaded(Result<Vec<Config>, String>),
    /// Removing the hosts-file block ended; an error carries its text.
    HostsDone(Result<(), String>),
}

/// What a stop call asks of the caller next.
#[derive(Debug, PartialEq, Eq)]
pub enum StopCommand {
    /// Load the stored configurations.
    LoadConfigs,
    /// Remove the hosts-file block with this marker.
    UninstallHosts(String),
    /// Write this running flag, whether or not that succeeds, and return
    /// this result: the call is over.
    Finish { state: ConfigState, result: Result<CustomResponse, String> },
}

/// The answer to one event.
pub struct StopStep<H> {
    /// Whether to fire the broadcast cancel signal first.
    pub signal_cancel: bool,
    /// The handle that left the registry: the caller aborts its task.
    pub abort: Option<H>,
    /// What to do next.
    pub next: StopCommand,
}

/// The state of one stop call.
pub struct StopRun {
    config_id: String,
    phase: StopPhase,
    id_text: String,
    service: String,
    id: i64,
}

/// The state of a stop call as plain values.
pub struct StopRunView {
    /// The identifier asked for, as the caller wrote it.
    pub config_id: Seq<char>,
    pub phase: StopPhase,
    /// The first half of the key that was found.
    pub id_text: Seq<char>,
    /// The second half of the key that was found: the service name.
    pub service: Seq<char>,
    /// The identifier that the first half stands for.
    pub id: int,
}

/// The summary of a forward that was stopped.
pub open spec fn stopped_spec(id: Option<int>, service: Seq<char>) -> ResponseView {
    ResponseView {
        id,
        service,
        namespace: Seq::empty(),
        local_port: 0,
        remote_port: 0,
        context: Seq::empty(),
        protocol: Seq::empty(),
        stdout: "Service port forwarding has been stopped"@,
        stderr: Seq::empty(),
        status: 0,
    }
}

/// The error of a stop call that found no forward.
pub open spec fn not_found_spec(config_id: Seq<char>) -> Seq<char> {
    "No port forwarding process found for config_id '"@ + config_id + "'"@
}

/// The error of a stop call that could not load the configurations.
pub open spec fn load_error_spec(why: Seq<char>) -> Seq<char> {
    "Failed to retrieve configs: "@ + why
}

/// The key of the first entry whose key begins with `prefix`.
pub open spec fn first_prefixed<H>(entries: Seq<(Seq<char>, H)>, prefix: Seq<char>) -> Option<
    Seq<char>,
>
    decreases entries.len(),
{
    if entries.len() == 0 {
        None
    } else if prefix.is_prefix_of(entries[0].0) {
        Some(entries[0].0)
    } else {
        first_prefixed(entries.skip(1), prefix)
    }
}

/// The first configuration with the identifier `id`.
pub open spec fn first_with_id(configs: Seq<ConfigView>, id: int) -> Option<ConfigView>
    decreases configs.len(),
{
    if configs.len() == 0 {
        None
    } else if configs[0].id == Some(id) {
        Some(configs[0])
    } else {
        first_with_id(configs.skip(1), id)
    }
}

/// Whether the hosts file holds a block for the configuration `id`: the
/// first configuration with that identifier asks for one.
pub open spec fn domain_of(configs: Seq<ConfigView>, id: int) -> bool {
    match first_with_id(configs, id) {
        Some(c) => c.wants_domain(),
        None => false,
    }
}

/// Whether the command `next` ends the call with the running flag of `id`
/// cleared and the result `result`.
pub open spec fn finishes(
    next: StopCommand,
    id: int,
    result: Result<ResponseView, Seq<char>>,
) -> bool {
    next matches StopCommand::Finish { state, result: given } && state.config_id as int == id
        && !state.is_running && match given {
        Ok(response) => result == Ok::<ResponseView, Seq<char>>(response@),
        Err(error) => result == Err::<ResponseView, Seq<char>>(error@),
    }
}

/// Whether the state `end`, the registry `end_reg` and the answer `step`
/// are what the event `event` leads to from the state `s` and the registry
/// `reg`.
///
/// At the beginning the cancel signal is fired and the first key that begins
/// with the identifier and a `_` is looked for. Where there is none, the
/// call ends with an error, the running flag cleared. Else the entry leaves
/// the registry, its handle is handed over to be aborted, and the
/// configurations are loaded. Where they cannot be loaded, the call ends
/// with an error. Where the configuration of the forward asks for a
/// hosts-file block, the block is removed, and a failure to do so ends the
/// call with that error. Otherwise the call ends with the summary of the
/// stopped forward. Every end clears the running flag.
pub open spec fn stop_transition<H>(
    s: StopRunView,
    reg: Seq<(Seq<char>, H)>,
    event: StopEvent,
    end: StopRunView,
    end_reg: Seq<(Seq<char>, H)>,
    step: StopStep<H>,
) -> bool {
    match event {
        StopEvent::Begin => {
            &&& step.signal_cancel
            &&& match first_prefixed(reg, key_prefix_spec(s.config_id)) {
                None => {
                    &&& end == StopRunView { phase: StopPhase::Done, ..s }
                    &&& end_reg == reg
                    &&& step.abort.is_none()
                    &&& finishes(
                        step.next,
                        key_id_spec(s.config_id),
                        Err(not_found_spec(s.config_id)),
                    )
                },
                Some(key) => {
                    &&& split_key_spec(key) matches Some(halves)
                    &&& end == StopRunView {
                        phase: StopPhase::Loading,
                        id_text: halves.0,
                        service: halves.1,
                        id: key_id_spec(halves.0),
                        ..s
                    }
                    &&& end_reg == remove_spec(reg, key)
                    &&& step.abort == handle_of(reg, key)
                    &&& step.next == StopCommand::LoadConfigs
                },
            }
        },
        StopEvent::ConfigsLoaded(Err(why)) => {
            &&& !step.signal_cancel
            &&& end == StopRunView { phase: StopPhase::Done, ..s }
            &&& end_reg == reg
            &&& step.abort.is_none()
            &&& finishes(step.next, key_id_spec(s.config_id), Err(load_error_spec(why@)))
        },
        StopEvent::ConfigsLoaded(Ok(configs)) => {
            &&& !step.signal_cancel
            &&& end_reg == reg
            &&& step.abort.is_none()
            &&& if domain_of(configs_view(configs@), s.id) {
                &&& end == StopRunView { phase: StopPhase::Uninstalling, ..s }
                &&& step.next matches StopCommand::UninstallHosts(marker)
                &&& marker@ == hosts_marker_spec(s.service, s.id_text)
            } else {
                &&& end == StopRunView { phase: StopPhase::Done, ..s }
                &&& finishes(step.next, s.id, Ok(stopped_spec(None, s.service)))
            }
        },
        StopEvent::HostsDone(outcome) => {
            &&& !step.signal_cancel
            &&& end == StopRunView { phase: StopPhase::Done, ..s }
            &&& end_reg == reg
            &&& step.abort.is_none()
            &&& finishes(
                step.next,
                s.id,
                match outcome {
                    Ok(_) => Ok(stopped_spec(None, s.service)),
                    Err(why) => Err(why@),
                },
            )
        },
    }
}

/// Whether the event `event` is the one awaited in the phase `phase`.
pub open spec fn stop_accepts(phase: StopPhase, event: StopEvent) -> bool {
    match event {
        StopEvent::Begin => phase == StopPhase::Ready,
        StopEvent::ConfigsLoaded(_) => phase == StopPhase::Loading,
        StopEvent::HostsDone(_) => phase == StopPhase::Uninstalling,
    }
}

/// The summary of a forward that was stopped.
pub fn stopped_response(id: Option<i64>, service: &str) -> (out: CustomResponse)
    ensures
        out@ == stopped_spec(
            match id {
                Some(v) => Some(v as int),
                None => None,
            },
            service@,
        ),
{
    CustomResponse {
        id,
        service: String::from_str(service),
        namespace: String::new(),
        local_port: 0,
        remote_port: 0,
        context: String::new(),
        protocol: String::new(),
        stdout: String::from_str("Service port forwarding has been stopped"),
        stderr: String::new(),
        status: 0,
    }
}

/// Whether the first configuration with the identifier `id` asks for a
/// hosts-file block.
pub fn has_domain(configs: &Vec<Config>, id: i64) -> (out: bool)
    ensures
        out == domain_of(configs_view(configs@), id as int),
{
    let mut i: usize = 0;
    let ghost all = configs_view(configs@);
    proof {
        assert(all.skip(0) =~= all);
    }
    while i < configs.len()
        invariant
            i <= configs.len(),
            all == configs_view(configs@),
            first_with_id(all, id as int) == first_with_id(all.skip(i as int), id as int),
        decreases configs.len() - i,
    {
        proof {
            assert(all.skip(i as int)[0] == all[i as int]);
            assert(all.skip(i as int).skip(1) =~= all.skip(i + 1));
        }
        let matches = match configs[i].id {
            Some(v) => v == id,
            None => false,
        };
        if matches {
            return configs[i].wants_domain();
        }
        i += 1;
    }
    false
}

impl StopRun {
    /// The state as plain values.
    pub closed spec fn view(&self) -> StopRunView {
        StopRunView {
            config_id: self.config_id@,
            phase: self.phase,
            id_text: self.id_text@,
            service: self.service@,
            id: self.id as int,
        }
    }

    /// A stop call for the configuration written `config_id`, before its
    /// first event.
    pub fn new(config_id: &str) -> (run: StopRun)
        ensures
            run@ == (StopRunView {
                config_id: config_id@,
                phase: StopPhase::Ready,
                id_text: Seq::empty(),
                service: Seq::empty(),
                id: 0,
            }),
    {
        StopRun {
            config_id: String::from_str(config_id),
            phase: StopPhase::Ready,
            id_text: String::new(),
            service: String::new(),
            id: 0,
        }
    }

    /// Where the call stands.
    pub fn phase(&self) -> (out: StopPhase)
        ensures
            out == self@.phase,
    {
        self.phase
    }

    /// Whether `event` is the event that the phase awaits.
    pub fn can_take(&self, event: &StopEvent) -> (out: bool)
        ensures
            out == stop_accepts(self@.phase, *event),
    {
        match event {
            StopEvent::Begin => self.phase == StopPhase::Ready,
            StopEvent::ConfigsLoaded(_) => self.phase == StopPhase::Loading,
            StopEvent::HostsDone(_) => self.phase == StopPhase::Uninstalling,
        }
    }
}

/// The command that ends a stop call.
fn finish(id: i64, result: Result<CustomResponse, String>) -> (out: StopCommand)
    ensures
        finishes(
            out,
            id as int,
            match result {
                Ok(response) => Ok(response@),
                Err(error) => Err(error@),
            },
        ),
{
    StopCommand::Finish { state: ConfigState { config_id: id, is_running: false }, result }
}

/// A key found by its prefix is the first key with that prefix.
proof fn lemma_first_prefixed_is<H>(entries: Seq<(Seq<char>, H)>, prefix: Seq<char>, at: int)
    requires
        0 <= at <= entries.len(),
        forall|j: int| 0 <= j < at ==> !prefix.is_prefix_of((#[trigger] entries[j]).0),
        at < entries.len() ==> prefix.is_prefix_of(entries[at].0),
    ensures
        first_prefixed(entries, prefix) == if at < entries.len() {
            Some(entries[at].0)
        } else {
            None
        },
    decreases at,
{
    if entries.len() == 0 {
    } else if at == 0 {
    } else {
        let rest = entries.skip(1);
        assert(!prefix.is_prefix_of(entries[0].0));
        assert forall|j: int| 0 <= j < at - 1 implies !prefix.is_prefix_of(
            (#[trigger] rest[j]).0,
        ) by {
            assert(rest[j] == entries[j + 1]);
        }
        if at < entries.len() {
            assert(rest[at - 1] == entries[at]);
        }
        lemma_first_prefixed_is(rest, prefix, at - 1);
    }
}

/// A key that begins with an identifier and a `_` splits in two halves.
proof fn lemma_prefixed_key_splits(key: Seq<char>, config_id: Seq<char>)
    requires
        key_prefix_spec(config_id).is_prefix_of(key),
    ensures
        split_key_spec(key).is_some(),
{
    let prefix = key_prefix_spec(config_id);
    assert(key[config_id.len() as int] == prefix[config_id.len() as int]);
    assert(key.contains('_'));
    crate::text::lemma_first_index(key, '_');
}

/// Takes one event of a stop call and answers with what to do next.
pub fn stop_port_forward<H>(run: &mut StopRun, registry: &mut Registry<H>, event: StopEvent) -> (step:
    StopStep<H>)
    requires
        old(registry).wf(),
        stop_accepts(old(run)@.phase, event),
    ensures
        final(registry).wf(),
        stop_transition(
            old(run)@,
            old(registry)@,
            event,
            final(run)@,
            final(registry)@,
            step,
        ),
{
    match event {
        StopEvent::Begin => {
            let prefix = key_prefix(run.config_id.as_str());
            let found = registry.first_key_with_prefix(prefix.as_str());
            proof {
                match &found {
                    Some(key) => {
                        let at = choose|i: int|
                            0 <= i < registry@.len() && (#[trigger] registry@[i]).0 == key@
                                && prefix@.is_prefix_of(key@) && forall|j: int|
                                0 <= j < i ==> !prefix@.is_prefix_of((#[trigger] registry@[j]).0);
                        lemma_first_prefixed_is(registry@, prefix@, at);
                        lemma_prefixed_key_splits(key@, run.config_id@);
                    },
                    None => {
                        assert forall|j: int| 0 <= j < registry@.len() implies !prefix@.is_prefix_of(
                            (#[trigger] registry@[j]).0,
                        ) by {
                            if prefix@.is_prefix_of(registry@[j].0) {
                                assert(has_prefixed(registry@, prefix@));
                            }
                        }
                        lemma_first_prefixed_is(registry@, prefix@, registry@.len() as int);
                    },
                }
            }
            match found {
                None => {
                    run.phase = StopPhase::Done;
                    let mut message = to_chars("No port forwarding process found for config_id '");
                    extend_str(&mut message, run.config_id.as_str());
                    extend_str(&mut message, "'");
                    let id = key_id(run.config_id.as_str());
                    StopStep {
                        signal_cancel: true,
                        abort: None,
                        next: finish(id, Err(from_chars(&message))),
                    }
                },
                Some(key) => {
                    let abort = registry.remove(key.as_str());
                    match split_key(key.as_str()) {
                        Some(parts) => {
                            run.id_text = parts.id_text;
                            run.service = parts.service;
                            run.id = parts.id;
                        },
                        None => {},
                    }
                    run.phase = StopPhase::Loading;
                    StopStep { signal_cancel: true, abort, next: StopCommand::LoadConfigs }
                },
            }
        },
        StopEvent::ConfigsLoaded(Err(why)) => {
            run.phase = StopPhase::Done;
            let mut message = to_chars("Failed to retrieve configs: ");
            extend_str(&mut message, why.as_str());
            let id = key_id(run.config_id.as_str());
            StopStep {
                signal_cancel: false,
                abort: None,
                next: finish(id, Err(from_chars(&message))),
            }
        },
        StopEvent::ConfigsLoaded(Ok(configs)) => {
            if has_domain(&configs, run.id) {
                run.phase = StopPhase::Uninstalling;
                let marker = hosts_marker(run.service.as_str(), run.id_text.as_str());
                StopStep {
                    signal_cancel: false,
                    abort: None,
                    next: StopCommand::UninstallHosts(marker),
                }
            } else {
                run.phase = StopPhase::Done;
                let response = stopped_response(None, run.service.as_str());
                StopStep { signal_cancel: false, abort: None, next: finish(run.id, Ok(response)) }
            }
        },
        StopEvent::HostsDone(outcome) => {
            run.phase = StopPhase::Done;
            let result = match outcome {
                Ok(_) => Ok(stopped_response(None, run.service.as_str())),
                Err(why) => Err(why),
            };
            StopStep { signal_cancel: false, abort: None, next: finish(run.id, result) }
        },
    }
}

/// The first key with a prefix is the key of an entry and begins with the
/// prefix; there is none only where no key begins with it.
pub proof fn lemma_first_prefixed<H>(entries: Seq<(Seq<char>, H)>, prefix: Seq<char>)
    ensures
        match first_prefixed(entries, prefix) {
            Some(key) => crate::registry::has_key(entries, key) && prefix.is_prefix_of(key),
            None => !has_prefixed(entries, prefix),
        },
    decreases entries.len(),
{
    if entries.len() == 0 {
    } else if prefix.is_prefix_of(entries[0].0) {
        assert(entries[0].0 == entries[0].0);
    } else {
        let rest = entries.skip(1);
        lemma_first_prefixed(rest, prefix);
        match first_prefixed(rest, prefix) {
            Some(key) => {
                let i = choose|i: int| 0 <= i < rest.len() && (#[trigger] rest[i]).0 == key;
                assert(entries[i + 1].0 == key);
            },
            None => {
                if has_prefixed(entries, prefix) {
                    let i = choose|i: int|
                        0 <= i < entries.len() && prefix.is_prefix_of((#[trigger] entries[i]).0);
                    assert(rest[i - 1].0 == entries[i].0);
                    assert(has_prefixed(rest, prefix));
                }
            },
        }
    }
}

/// When a stop call has taken its first event, no key of the registry begins
/// with the identifier and a `_`, provided that at most one key did before.
pub proof fn lemma_stop_clears_prefix<H>(
    s: StopRunView,
    reg: Seq<(Seq<char>, H)>,
    end: StopRunView,
    end_reg: Seq<(Seq<char>, H)>,
    step: StopStep<H>,
)
    requires
        crate::registry::distinct_keys(reg),
        forall|i: int, j: int|
            0 <= i < reg.len() && 0 <= j < reg.len() && key_prefix_spec(s.config_id).is_prefix_of(
                (#[trigger] reg[i]).0,
            ) && key_prefix_spec(s.config_id).is_prefix_of((#[trigger] reg[j]).0) ==> i == j,
        stop_transition(s, reg, StopEvent::Begin, end, end_reg, step),
    ensures
        !has_prefixed(end_reg, key_prefix_spec(s.config_id)),
{
    let prefix = key_prefix_spec(s.config_id);
    lemma_first_prefixed(reg, prefix);
    match first_prefixed(reg, prefix) {
        None => {},
        Some(key) => {
            crate::registry::lemma_remove_keys(reg, key);
            let at = choose|i: int| 0 <= i < reg.len() && (#[trigger] reg[i]).0 == key;
            if has_prefixed(end_reg, prefix) {
                let i = choose|i: int|
                    0 <= i < end_reg.len() && prefix.is_prefix_of((#[trigger] end_reg[i]).0);
                let other = end_reg[i].0;
                assert(crate::registry::has_key(end_reg, other));
                assert(crate::registry::has_key(reg, other));
                let j = choose|j: int| 0 <= j < reg.len() && (#[trigger] reg[j]).0 == other;
                assert(j == at);
            }
        },
    }
}

/// After its first event a stop call leaves the registry as it is, and
/// whenever it ends it has the running flag cleared.
pub proof fn lemma_stop_ends_cleared<H>(
    s: StopRunView,
    reg: Seq<(Seq<char>, H)>,
    event: StopEvent,
    end: StopRunView,
    end_reg: Seq<(Seq<char>, H)>,
    step: StopStep<H>,
)
    requires
        stop_transition(s, reg, event, end, end_reg, step),
    ensures
        !(event is Begin) ==> end_reg == reg,
        step.next matches StopCommand::Finish { state, .. } ==> !state.is_running,
        end.phase == StopPhase::Done <==> step.next is Finish,
{
}

} // verus!
