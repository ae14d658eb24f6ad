//! Stopping every forward: the decisions of one stop-all call, taken one
//! event at a time.

use vstd::prelude::*;
use crate::keys::{
    hosts_marker, hosts_marker_spec, key_id_spec, label_selector, label_selector_spec, split_key,
    split_key_spec,
};
use crate::model::{
    copy_responses, responses_view, text_is, Config, ConfigState, ConfigView, CustomResponse,
    ResponseView, configs_view,
};
use crate::registry::Registry;
use crate::stop::{stopped_response, stopped_spec};
use crate::text::{extend_str, from_chars, to_chars};

verus! {

/// Where a stop-all call stands.
#[derive(Clone, Copy, Debug, PartialEq, Eq, Structural)]
pub enum StopAllPhase {
    /// Nothing was reported yet.
    Ready,
    /// The running flags are being loaded.
    LoadingStates,
    /// The configurations are being loaded.
    LoadingConfigs,
    /// The hosts-file block of the first entry left is being removed.
    Uninstalling,
    /// Helper pods are being deleted and running flags cleared.
    Cleaning,
    /// The call is over.
    Done,
}

/// What the caller reports to a stop-all call.
pub enum StopAllEvent {
    /// The call begins.
    Begin,
    /// The stored running flags, or why they could not be loaded.
    StatesLoaded(Result<Vec<ConfigState>, String>),
    /// The stored configurations, or why they could not be loaded.
    ConfigsLoaded(Result<Vec<Config>, String>),
    /// Removing the hosts-file block ended; an error carries its text.
    HostsDone(Result<(), String>),
    /// The cleanup was carried out, as far as it went.
    CleanedUp,
}

/// The helper pods of one configuration to look for and delete.
#[derive(Debug, PartialEq, Eq)]
pub struct PodCleanup {
    pub kubeconfig: String,
    pub context: String,
    /// The label selector that finds the pods, in every namespace.
    pub selector: String,
}

/// A pod cleanup as plain values.
pub struct PodCleanupView {
    pub kubeconfig: Seq<char>,
    pub context: Seq<char>,
    pub selector: Seq<char>,
}

impl View for PodCleanup {
    type V = PodCleanupView;

    open spec fn view(&self) -> PodCleanupView {
        PodCleanupView {
            kubeconfig: self.kubeconfig@,
            context: self.context@,
            selector: self.selector@,
        }
    }
}

/// What a stop-all call asks of the caller next.
#[derive(Debug, PartialEq, Eq)]
pub enum StopAllCommand {
    /// Load the stored running flags.
    LoadStates,
    /// Load the stored configurations.
    LoadConfigs,
    /// Remove the hosts-file block with this marker.
    UninstallHosts(String),
    /// Delete the helper pods that these selectors find, then write these
    /// running flags; failures are not reported back.
    Cleanup { pods: Vec<PodCleanup>, states: Vec<ConfigState> },
    /// The call is over, with its result.
    Finished(Result<Vec<CustomResponse>, String>),
}

/// The answer to one event.
pub struct StopAllStep<H> {
    /// Whether to fire the broadcast cancel signal first.
    pub signal_cancel: bool,
    /// Handles that left the registry: the caller aborts their tasks.
    pub abort: Vec<H>,
    /// What to do next.
    pub next: StopAllCommand,
}

/// The state of one stop-all call.
pub struct StopAllRun<H> {
    phase: StopAllPhase,
    entries: Vec<(String, H)>,
    running: Vec<i64>,
    configs: Vec<Config>,
    responses: Vec<CustomResponse>,
}

/// The state of a stop-all call as plain values.
pub struct StopAllView<H> {
    pub phase: StopAllPhase,
    /// The entries taken from the registry and not dealt with yet.
    pub entries: Seq<(Seq<char>, H)>,
    /// The identifiers whose running flag was set.
    pub running: Seq<int>,
    /// The stored configurations.
    pub configs: Seq<ConfigView>,
    /// The summaries recorded so far.
    pub responses: Seq<ResponseView>,
}

/// Entries as plain values.
pub open spec fn entries_view<H>(entries: Seq<(String, H)>) -> Seq<(Seq<char>, H)> {
    Seq::new(entries.len(), |i: int| (entries[i].0@, entries[i].1))
}

/// The handles of `entries`, in order.
pub open spec fn handles_of<H>(entries: Seq<(Seq<char>, H)>) -> Seq<H> {
    Seq::new(entries.len(), |i: int| entries[i].1)
}

/// Identifiers as plain values.
pub open spec fn ids_view(ids: Seq<i64>) -> Seq<int> {
    Seq::new(ids.len(), |i: int| ids[i] as int)
}

/// The identifiers of the flags that are set, in order.
pub open spec fn running_ids(states: Seq<ConfigState>) -> Seq<int>
    decreases states.len(),
{
    if states.len() == 0 {
        Seq::empty()
    } else if states.last().is_running {
        running_ids(states.drop_last()).push(states.last().config_id as int)
    } else {
        running_ids(states.drop_last())
    }
}

/// The last configuration with the identifier `id`.
pub open spec fn last_with_id(configs: Seq<ConfigView>, id: int) -> Option<ConfigView>
    decreases configs.len(),
{
    if configs.len() == 0 {
        None
    } else if configs.last().id == Some(id) {
        Some(configs.last())
    } else {
        last_with_id(configs.drop_last(), id)
    }
}

/// Whether the forward stored under `key` has a hosts-file block: the key
/// splits, and the last configuration with its identifier asks for one.
pub open spec fn entry_domain(key: Seq<char>, configs: Seq<ConfigView>) -> bool {
    match split_key_spec(key) {
        Some(halves) => match last_with_id(configs, key_id_spec(halves.0)) {
            Some(c) => c.wants_domain(),
            None => false,
        },
        None => false,
    }
}

/// The summary for a key that does not split.
pub open spec fn malformed_spec() -> ResponseView {
    ResponseView {
        id: None,
        service: Seq::empty(),
        namespace: Seq::empty(),
        local_port: 0,
        remote_port: 0,
        context: Seq::empty(),
        protocol: Seq::empty(),
        stdout: Seq::empty(),
        stderr: "Invalid composite key format"@,
        status: 1,
    }
}

/// The summary of the forward stored under `key` once it is stopped, or
/// the summary for a malformed key.
pub open spec fn entry_response(key: Seq<char>) -> ResponseView {
    match split_key_spec(key) {
        Some(halves) => stopped_spec(Some(key_id_spec(halves.0)), halves.1),
        None => malformed_spec(),
    }
}

/// The summary of the forward stored under `key` whose hosts-file block
/// could not be removed.
pub open spec fn hosts_failed_spec(key: Seq<char>, why: Seq<char>) -> ResponseView {
    match split_key_spec(key) {
        Some(halves) => ResponseView {
            id: Some(key_id_spec(halves.0)),
            service: halves.1,
            namespace: Seq::empty(),
            local_port: 0,
            remote_port: 0,
            context: Seq::empty(),
            protocol: Seq::empty(),
            stdout: Seq::empty(),
            stderr: why,
            status: 1,
        },
        None => malformed_spec(),
    }
}

/// The marker of the hosts-file block of the forward stored under `key`.
pub open spec fn entry_marker(key: Seq<char>) -> Seq<char> {
    match split_key_spec(key) {
        Some(halves) => hosts_marker_spec(halves.1, halves.0),
        None => Seq::empty(),
    }
}

/// How many entries at the front of `entries` have no hosts-file block.
pub open spec fn plain_run<H>(entries: Seq<(Seq<char>, H)>, configs: Seq<ConfigView>) -> nat
    decreases entries.len(),
{
    if entries.len() == 0 || entry_domain(entries[0].0, configs) {
        0
    } else {
        1 + plain_run(entries.skip(1), configs)
    }
}

/// Whether the helper pods of `c` are looked for: its running flag was set,
/// it forwards UDP or through a proxy, and it names a kubeconfig.
pub open spec fn needs_pod_cleanup(c: ConfigView, running: Seq<int>) -> bool {
    running.contains(c.id_or_zero()) && (c.protocol == "udp"@ || c.workload_type == Some(
        "proxy"@,
    )) && c.kubeconfig.is_some()
}

/// The pod cleanups for `configs`, in order.
pub open spec fn cleanup_spec(configs: Seq<ConfigView>, running: Seq<int>) -> Seq<PodCleanupView>
    decreases configs.len(),
{
    if configs.len() == 0 {
        Seq::empty()
    } else {
        let before = cleanup_spec(configs.drop_last(), running);
        let c = configs.last();
        if needs_pod_cleanup(c, running) {
            before.push(
                PodCleanupView {
                    kubeconfig: c.kubeconfig.unwrap(),
                    context: c.context,
                    selector: label_selector_spec(c.id_or_zero()),
                },
            )
        } else {
            before
        }
    }
}

/// Pod cleanups as plain values.
pub open spec fn cleanups_view(pods: Seq<PodCleanup>) -> Seq<PodCleanupView> {
    Seq::new(pods.len(), |i: int| pods[i]@)
}

/// Whether `states` clears the running flag of every configuration, in
/// order.
pub open spec fn clears_all(states: Seq<ConfigState>, configs: Seq<ConfigView>) -> bool {
    &&& states.len() == configs.len()
    &&& forall|i: int|
        0 <= i < states.len() ==> (#[trigger] states[i]).config_id as int
            == configs[i].id_or_zero() && !states[i].is_running
}

/// The error of a stop-all call that could not load the running flags.
pub open spec fn states_error_spec(why: Seq<char>) -> Seq<char> {
    "Failed to retrieve config states: "@ + why
}

/// The error of a stop-all call that could not load the configurations.
pub open spec fn configs_error_spec(why: Seq<char>) -> Seq<char> {
    "Failed to retrieve configs: "@ + why
}

/// Whether dealing with the entries at the front of `mid.entries` that have
/// no hosts-file block, with the handles `already` taken before, ends in the
/// state `end` and the answer `step`.
///
/// Each such entry gets its summary and its handle is handed over. The call
/// then removes the hosts-file block of the first entry left, or, where none
/// is left, turns to the cleanup.
pub open spec fn advanced<H>(
    mid: StopAllView<H>,
    already: Seq<H>,
    end: StopAllView<H>,
    step: StopAllStep<H>,
) -> bool {
    let n = plain_run(mid.entries, mid.configs) as int;
    &&& !step.signal_cancel
    &&& end.entries == mid.entries.skip(n)
    &&& end.running == mid.running
    &&& end.configs == mid.configs
    &&& end.responses == mid.responses + Seq::new(
        n as nat,
        |i: int| entry_response(mid.entries[i].0),
    )
    &&& step.abort@ == already + Seq::new(n as nat, |i: int| mid.entries[i].1)
    &&& if n < mid.entries.len() {
        &&& end.phase == StopAllPhase::Uninstalling
        &&& step.next matches StopAllCommand::UninstallHosts(marker)
        &&& marker@ == entry_marker(mid.entries[n].0)
    } else {
        &&& end.phase == StopAllPhase::Cleaning
        &&& step.next matches StopAllCommand::Cleanup { pods, states }
        &&& cleanups_view(pods@) == cleanup_spec(mid.configs, mid.running)
        &&& clears_all(states@, mid.configs)
    }
}

/// Whether ending the call with the error `error` from the state `s` ends
/// in the state `end` and the answer `step`: every entry left is given up
/// and its handle handed over.
pub open spec fn gave_up<H>(
    s: StopAllView<H>,
    error: Seq<char>,
    end: StopAllView<H>,
    step: StopAllStep<H>,
) -> bool {
    &&& !step.signal_cancel
    &&& end == StopAllView { phase: StopAllPhase::Done, entries: Seq::empty(), ..s }
    &&& step.abort@ == handles_of(s.entries)
    &&& step.next matches StopAllCommand::Finished(Err(given))
    &&& given@ == error
}

/// Whether the state `end`, the registry `end_reg` and the answer `step`
/// are what the event `event` leads to from the state `s` and the registry
/// `reg`.
pub open spec fn stop_all_transition<H>(
    s: StopAllView<H>,
    reg: Seq<(Seq<char>, H)>,
    event: StopAllEvent,
    end: StopAllView<H>,
    end_reg: Seq<(Seq<char>, H)>,
    step: StopAllStep<H>,
) -> bool {
    match event {
        StopAllEvent::Begin => {
            &&& step.signal_cancel
            &&& end == StopAllView { phase: StopAllPhase::LoadingStates, entries: reg, ..s }
            &&& end_reg == Seq::<(Seq<char>, H)>::empty()
            &&& step.abort@ == Seq::<H>::empty()
            &&& step.next == StopAllCommand::LoadStates
        },
        StopAllEvent::StatesLoaded(Err(why)) => end_reg == reg && gave_up(
            s,
            states_error_spec(why@),
            end,
            step,
        ),
        StopAllEvent::StatesLoaded(Ok(states)) => {
            &&& !step.signal_cancel
            &&& end == StopAllView {
                phase: StopAllPhase::LoadingConfigs,
                running: running_ids(states@),
                ..s
            }
            &&& end_reg == reg
            &&& step.abort@ == Seq::<H>::empty()
            &&& step.next == StopAllCommand::LoadConfigs
        },
        StopAllEvent::ConfigsLoaded(Err(why)) => end_reg == reg && gave_up(
            s,
            configs_error_spec(why@),
            end,
            step,
        ),
        StopAllEvent::ConfigsLoaded(Ok(configs)) => end_reg == reg && advanced(
            StopAllView { configs: configs_view(configs@), ..s },
            Seq::empty(),
            end,
            step,
        ),
        StopAllEvent::HostsDone(outcome) => end_reg == reg && advanced(
            StopAllView {
                entries: s.entries.skip(1),
                responses: s.responses.push(
                    match outcome {
                        Ok(_) => entry_response(s.entries[0].0),
                        Err(why) => hosts_failed_spec(s.entries[0].0, why@),
                    },
                ),
                ..s
            },
            seq![s.entries[0].1],
            end,
            step,
        ),
        StopAllEvent::CleanedUp => {
            &&& !step.signal_cancel
            &&& end == StopAllView { phase: StopAllPhase::Done, ..s }
            &&& end_reg == reg
            &&& step.abort@ == Seq::<H>::empty()
            &&& step.next matches StopAllCommand::Finished(Ok(responses))
            &&& responses_view(responses@) == s.responses
        },
    }
}

/// Whether the event `event` is the one awaited in the phase `phase`.
pub open spec fn stop_all_accepts(phase: StopAllPhase, event: StopAllEvent) -> bool {
    match event {
        StopAllEvent::Begin => phase == StopAllPhase::Ready,
        StopAllEvent::StatesLoaded(_) => phase == StopAllPhase::LoadingStates,
        StopAllEvent::ConfigsLoaded(_) => phase == StopAllPhase::LoadingConfigs,
        StopAllEvent::HostsDone(_) => phase == StopAllPhase::Uninstalling,
        StopAllEvent::CleanedUp => phase == StopAllPhase::Cleaning,
    }
}

impl<H> StopAllView<H> {
    /// What holds of every state of a stop-all call: while a hosts-file
    /// block is being removed, the entry it belongs to is the first one left.
    pub open spec fn wf(self) -> bool {
        self.phase == StopAllPhase::Uninstalling ==> self.entries.len() > 0 && entry_domain(
            self.entries[0].0,
            self.configs,
        )
    }
}

/// The identifiers of the flags that are set, in order.
fn running_of(states: &Vec<ConfigState>) -> (out: Vec<i64>)
    ensures
        ids_view(out@) == running_ids(states@),
{
    let mut out: Vec<i64> = Vec::new();
    let mut i: usize = 0;
    proof {
        assert(states@.subrange(0, 0) =~= Seq::<ConfigState>::empty());
        assert(ids_view(out@) =~= Seq::<int>::empty());
    }
    while i < states.len()
        invariant
            i <= states.len(),
            ids_view(out@) == running_ids(states@.subrange(0, i as int)),
        decreases states.len() - i,
    {
        proof {
            let upto = states@.subrange(0, i + 1);
            assert(upto.drop_last() =~= states@.subrange(0, i as int));
            assert(upto.last() == states@[i as int]);
        }
        if states[i].is_running {
            let ghost before = ids_view(out@);
            out.push(states[i].config_id);
            proof {
                assert(ids_view(out@) =~= before.push(states@[i as int].config_id as int));
            }
        }
        i += 1;
    }
    proof {
        assert(states@.subrange(0, states.len() as int) =~= states@);
    }
    out
}

/// Whether the last configuration with the identifier `id` asks for a
/// hosts-file block.
fn last_has_domain(configs: &Vec<Config>, id: i64) -> (out: bool)
    ensures
        out == match last_with_id(configs_view(configs@), id as int) {
            Some(c) => c.wants_domain(),
            None => false,
        },
{
    let mut i: usize = configs.len();
    let ghost all = configs_view(configs@);
    proof {
        assert(all.subrange(0, i as int) =~= all);
    }
    while i > 0
        invariant
            i <= configs.len(),
            all == configs_view(configs@),
            last_with_id(all, id as int) == last_with_id(all.subrange(0, i as int), id as int),
        decreases i,
    {
        proof {
            let upto = all.subrange(0, i as int);
            assert(upto.last() == all[i - 1]);
            assert(upto.drop_last() =~= all.subrange(0, i - 1));
        }
        i -= 1;
        let matches = match configs[i].id {
            Some(v) => v == id,
            None => false,
        };
        if matches {
            return configs[i].wants_domain();
        }
    }
    false
}

/// Whether the forward stored under `key` has a hosts-file block.
fn entry_has_domain(key: &str, configs: &Vec<Config>) -> (out: bool)
    ensures
        out == entry_domain(key@, configs_view(configs@)),
{
    match split_key(key) {
        Some(parts) => last_has_domain(configs, parts.id),
        None => false,
    }
}

/// The summary for a key that does not split.
fn malformed_response() -> (out: CustomResponse)
    ensures
        out@ == malformed_spec(),
{
    CustomResponse {
        id: None,
        service: String::new(),
        namespace: String::new(),
        local_port: 0,
        remote_port: 0,
        context: String::new(),
        protocol: String::new(),
        stdout: String::new(),
        stderr: String::from_str("Invalid composite key format"),
        status: 1,
    }
}

/// The summary of the forward stored under `key` once it is stopped.
fn response_for_entry(key: &str) -> (out: CustomResponse)
    ensures
        out@ == entry_response(key@),
{
    match split_key(key) {
        Some(parts) => stopped_response(Some(parts.id), parts.service.as_str()),
        None => malformed_response(),
    }
}

/// The summary of the forward stored under `key` whose hosts-file block
/// could not be removed.
fn hosts_failed_response(key: &str, why: String) -> (out: CustomResponse)
    ensures
        out@ == hosts_failed_spec(key@, why@),
{
    match split_key(key) {
        Some(parts) => CustomResponse {
            id: Some(parts.id),
            service: parts.service,
            namespace: String::new(),
            local_port: 0,
            remote_port: 0,
            context: String::new(),
            protocol: String::new(),
            stdout: String::new(),
            stderr: why,
            status: 1,
        },
        None => malformed_response(),
    }
}

/// The marker of the hosts-file block of the forward stored under `key`.
fn marker_for_entry(key: &str) -> (out: String)
    ensures
        out@ == entry_marker(key@),
{
    match split_key(key) {
        Some(parts) => hosts_marker(parts.service.as_str(), parts.id_text.as_str()),
        None => String::new(),
    }
}

/// Whether `id` is one of `ids`.
fn contains_id(ids: &Vec<i64>, id: i64) -> (out: bool)
    ensures
        out == ids_view(ids@).contains(id as int),
{
    let mut i: usize = 0;
    while i < ids.len()
        invariant
            i <= ids.len(),
            forall|j: int| 0 <= j < i ==> ids_view(ids@)[j] != id as int,
        decreases ids.len() - i,
    {
        if ids[i] == id {
            assert(ids_view(ids@)[i as int] == id as int);
            return true;
        }
        i += 1;
    }
    false
}

/// The pod cleanups for `configs`, in order.
fn pod_cleanups(configs: &Vec<Config>, running: &Vec<i64>) -> (out: Vec<PodCleanup>)
    ensures
        cleanups_view(out@) == cleanup_spec(configs_view(configs@), ids_view(running@)),
{
    let mut out: Vec<PodCleanup> = Vec::new();
    let mut i: usize = 0;
    let ghost all = configs_view(configs@);
    proof {
        assert(all.subrange(0, 0) =~= Seq::<ConfigView>::empty());
        assert(cleanups_view(out@) =~= Seq::<PodCleanupView>::empty());
    }
    while i < configs.len()
        invariant
            i <= configs.len(),
            all == configs_view(configs@),
            cleanups_view(out@) == cleanup_spec(all.subrange(0, i as int), ids_view(running@)),
        decreases configs.len() - i,
    {
        let config = &configs[i];
        proof {
            let upto = all.subrange(0, i + 1);
            assert(upto.drop_last() =~= all.subrange(0, i as int));
            assert(upto.last() == config@);
        }
        let id = config.id_or_zero();
        let tunnels = text_is(config.protocol.as_str(), "udp") || match &config.workload_type {
            Some(kind) => text_is(kind.as_str(), "proxy"),
            None => false,
        };
        if contains_id(running, id) && tunnels {
            match &config.kubeconfig {
                Some(kubeconfig) => {
                    let ghost before = cleanups_view(out@);
                    let cleanup = PodCleanup {
                        kubeconfig: kubeconfig.clone(),
                        context: config.context.clone(),
                        selector: label_selector(id),
                    };
                    out.push(cleanup);
                    proof {
                        assert(cleanups_view(out@) =~= before.push(cleanup@));
                    }
                },
                None => {},
            }
        }
        i += 1;
    }
    proof {
        assert(all.subrange(0, configs.len() as int) =~= all);
    }
    out
}

/// The cleared running flag of every configuration, in order.
fn cleared_states(configs: &Vec<Config>) -> (out: Vec<ConfigState>)
    ensures
        clears_all(out@, configs_view(configs@)),
{
    let mut out: Vec<ConfigState> = Vec::new();
    let mut i: usize = 0;
    while i < configs.len()
        invariant
            i <= configs.len(),
            out@.len() == i,
            forall|j: int|
                0 <= j < i ==> (#[trigger] out@[j]).config_id as int == configs_view(
                    configs@,
                )[j].id_or_zero() && !out@[j].is_running,
        decreases configs.len() - i,
    {
        out.push(ConfigState { config_id: configs[i].id_or_zero(), is_running: false });
        i += 1;
    }
    out
}

/// Moves the handles of `entries` to the end of `abort` and leaves `entries`
/// empty.
fn give_up_entries<H>(entries: &mut Vec<(String, H)>, abort: &mut Vec<H>)
    ensures
        final(entries)@.len() == 0,
        final(abort)@ == old(abort)@ + handles_of(entries_view(old(entries)@)),
{
    let ghost all = handles_of(entries_view(entries@));
    let ghost mut taken: int = 0;
    while entries.len() > 0
        invariant
            0 <= taken,
            taken + entries@.len() == all.len(),
            handles_of(entries_view(entries@)) == all.skip(taken),
            abort@ == old(abort)@ + all.subrange(0, taken),
        decreases entries@.len(),
    {
        let ghost before = handles_of(entries_view(entries@));
        let (_, handle) = entries.remove(0);
        proof {
            assert(before[0] == handle);
            assert(all.skip(taken)[0] == all[taken]);
            assert forall|i: int| 0 <= i < entries@.len() implies handles_of(
                entries_view(entries@),
            )[i] == all.skip(taken + 1)[i] by {
                assert(before[i + 1] == all.skip(taken)[i + 1]);
            }
            assert(handles_of(entries_view(entries@)) =~= all.skip(taken + 1));
        }
        abort.push(handle);
        proof {
            taken = taken + 1;
            assert(abort@ =~= old(abort)@ + all.subrange(0, taken));
        }
    }
    proof {
        assert(all.subrange(0, all.len() as int) =~= all);
    }
}

impl<H> StopAllRun<H> {
    /// The state as plain values.
    pub closed spec fn view(&self) -> StopAllView<H> {
        StopAllView {
            phase: self.phase,
            entries: entries_view(self.entries@),
            running: ids_view(self.running@),
            configs: configs_view(self.configs@),
            responses: responses_view(self.responses@),
        }
    }

    /// A stop-all call before its first event.
    pub fn new() -> (run: StopAllRun<H>)
        ensures
            run@ == (StopAllView {
                phase: StopAllPhase::Ready,
                entries: Seq::<(Seq<char>, H)>::empty(),
                running: Seq::<int>::empty(),
                configs: Seq::<ConfigView>::empty(),
                responses: Seq::<ResponseView>::empty(),
            }),
            run@.wf(),
    {
        let run = StopAllRun {
            phase: StopAllPhase::Ready,
            entries: Vec::new(),
            running: Vec::new(),
            configs: Vec::new(),
            responses: Vec::new(),
        };
        assert(run@.entries =~= Seq::<(Seq<char>, H)>::empty());
        assert(run@.running =~= Seq::<int>::empty());
        assert(run@.configs =~= Seq::<ConfigView>::empty());
        assert(run@.responses =~= Seq::<ResponseView>::empty());
        run
    }

    /// Where the call stands.
    pub fn phase(&self) -> (out: StopAllPhase)
        ensures
            out == self@.phase,
    {
        self.phase
    }

    /// Whether `event` is the event that the phase awaits.
    pub fn can_take(&self, event: &StopAllEvent) -> (out: bool)
        ensures
            out == stop_all_accepts(self@.phase, *event),
    {
        match event {
            StopAllEvent::Begin => self.phase == StopAllPhase::Ready,
            StopAllEvent::StatesLoaded(_) => self.phase == StopAllPhase::LoadingStates,
            StopAllEvent::ConfigsLoaded(_) => self.phase == StopAllPhase::LoadingConfigs,
            StopAllEvent::HostsDone(_) => self.phase == StopAllPhase::Uninstalling,
            StopAllEvent::CleanedUp => self.phase == StopAllPhase::Cleaning,
        }
    }

    /// Ends the call with `error` and hands every entry left over.
    fn give_up(&mut self, error: String) -> (step: StopAllStep<H>)
        ensures
            gave_up(old(self)@, error@, final(self)@, step),
            final(self)@.wf(),
    {
        let mut abort: Vec<H> = Vec::new();
        give_up_entries(&mut self.entries, &mut abort);
        self.phase = StopAllPhase::Done;
        proof {
            assert(entries_view(self.entries@) =~= Seq::<(Seq<char>, H)>::empty());
            assert(abort@ =~= handles_of(old(self)@.entries));
        }
        StopAllStep { signal_cancel: false, abort, next: StopAllCommand::Finished(Err(error)) }
    }

    /// Deals with the entries at the front that have no hosts-file block.
    fn advance(&mut self, already: Vec<H>) -> (step: StopAllStep<H>)
        ensures
            advanced(old(self)@, already@, final(self)@, step),
            final(self)@.wf(),
    {
        let mut abort = already;
        let ghost start = self@;
        let ghost mut done: int = 0;
        proof {
            assert(start.entries.skip(0) =~= start.entries);
            assert(start.responses + Seq::new(0nat, |i: int| entry_response(start.entries[i].0))
                =~= start.responses);
            assert(already@ + Seq::new(0nat, |i: int| start.entries[i].1) =~= already@);
        }
        while self.entries.len() > 0 && !entry_has_domain(
            self.entries[0].0.as_str(),
            &self.configs,
        )
            invariant
                0 <= done <= start.entries.len(),
                self.phase == old(self).phase,
                self.configs == old(self).configs,
                self.running == old(self).running,
                start == old(self)@,
                self@.entries == start.entries.skip(done),
                plain_run(start.entries, start.configs) == done + plain_run(
                    self@.entries,
                    start.configs,
                ),
                self@.responses == start.responses + Seq::new(
                    done as nat,
                    |i: int| entry_response(start.entries[i].0),
                ),
                abort@ == already@ + Seq::new(done as nat, |i: int| start.entries[i].1),
            decreases self.entries@.len(),
        {
            let ghost before = self@;
            let (key, handle) = self.entries.remove(0);
            let response = response_for_entry(key.as_str());
            self.responses.push(response);
            abort.push(handle);
            proof {
                assert(before.entries[0] == start.entries[done]);
                assert(key@ == start.entries[done].0);
                assert(handle == start.entries[done].1);
                assert(self@.entries =~= before.entries.skip(1));
                assert(before.entries.skip(1) =~= start.entries.skip(done + 1));
                assert(self@.responses =~= before.responses.push(response@));
                assert(self@.responses =~= start.responses + Seq::new(
                    (done + 1) as nat,
                    |i: int| entry_response(start.entries[i].0),
                ));
                assert(abort@ =~= already@ + Seq::new(
                    (done + 1) as nat,
                    |i: int| start.entries[i].1,
                ));
                done = done + 1;
            }
        }
        proof {
            assert(plain_run(self@.entries, start.configs) == 0);
        }
        if self.entries.len() > 0 {
            self.phase = StopAllPhase::Uninstalling;
            let marker = marker_for_entry(self.entries[0].0.as_str());
            proof {
                assert(self@.entries[0] == start.entries[done]);
            }
            StopAllStep {
                signal_cancel: false,
                abort,
                next: StopAllCommand::UninstallHosts(marker),
            }
        } else {
            self.phase = StopAllPhase::Cleaning;
            let pods = pod_cleanups(&self.configs, &self.running);
            let states = cleared_states(&self.configs);
            StopAllStep {
                signal_cancel: false,
                abort,
                next: StopAllCommand::Cleanup { pods, states },
            }
        }
    }
}

/// Takes one event of a stop-all call and answers with what to do next.
///
/// At the beginning the cancel signal is fired and every entry leaves the
/// registry. The running flags and the configurations are loaded; where
/// either cannot be loaded the call ends with an error. Then each entry is
/// dealt with in turn: a key that does not split gets an error summary;
/// where the configuration of the forward asks for a hosts-file block, the
/// block is removed, and a failure to do so gets an error summary; every
/// other entry gets the summary of a stopped forward. The handle of every
/// entry is handed over to be aborted, whatever its summary. At last the
/// helper pods of the configurations that were running over UDP or a proxy
/// are to be deleted and the running flag of every configuration cleared,
/// and the call ends with the summaries.
pub fn stop_all_port_forward<H>(
    run: &mut StopAllRun<H>,
    registry: &mut Registry<H>,
    event: StopAllEvent,
) -> (step: StopAllStep<H>)
    requires
        old(run)@.wf(),
        old(registry).wf(),
        stop_all_accepts(old(run)@.phase, event),
    ensures
        final(run)@.wf(),
        final(registry).wf(),
        stop_all_transition(
            old(run)@,
            old(registry)@,
            event,
            final(run)@,
            final(registry)@,
            step,
        ),
{
    match event {
        StopAllEvent::Begin => {
            run.entries = registry.drain();
            run.phase = StopAllPhase::LoadingStates;
            proof {
                assert(entries_view(run.entries@) =~= old(registry)@);
            }
            StopAllStep { signal_cancel: true, abort: Vec::new(), next: StopAllCommand::LoadStates }
        },
        StopAllEvent::StatesLoaded(Err(why)) => {
            let mut message = to_chars("Failed to retrieve config states: ");
            extend_str(&mut message, why.as_str());
            run.give_up(from_chars(&message))
        },
        StopAllEvent::StatesLoaded(Ok(states)) => {
            run.running = running_of(&states);
            run.phase = StopAllPhase::LoadingConfigs;
            StopAllStep {
                signal_cancel: false,
                abort: Vec::new(),
                next: StopAllCommand::LoadConfigs,
            }
        },
        StopAllEvent::ConfigsLoaded(Err(why)) => {
            let mut message = to_chars("Failed to retrieve configs: ");
            extend_str(&mut message, why.as_str());
            run.give_up(from_chars(&message))
        },
        StopAllEvent::ConfigsLoaded(Ok(configs)) => {
            run.configs = configs;
            run.advance(Vec::new())
        },
        StopAllEvent::HostsDone(outcome) => {
            let ghost before = run@;
            let (key, handle) = run.entries.remove(0);
            let response = match outcome {
                Ok(_) => response_for_entry(key.as_str()),
                Err(why) => hosts_failed_response(key.as_str(), why),
            };
            run.responses.push(response);
            let mut already: Vec<H> = Vec::new();
            already.push(handle);
            proof {
                assert(run@.entries =~= before.entries.skip(1));
                assert(run@.responses =~= before.responses.push(response@));
                assert(already@ =~= seq![before.entries[0].1]);
            }
            run.advance(already)
        },
        StopAllEvent::CleanedUp => {
            run.phase = StopAllPhase::Done;
            let responses = copy_responses(&run.responses);
            StopAllStep {
                signal_cancel: false,
                abort: Vec::new(),
                next: StopAllCommand::Finished(Ok(responses)),
            }
        },
    }
}

/// When a stop-all call has taken its first event the registry is empty,
/// and no later event puts anything into it.
pub proof fn lemma_stop_all_empties<H>(
    s: StopAllView<H>,
    reg: Seq<(Seq<char>, H)>,
    event: StopAllEvent,
    end: StopAllView<H>,
    end_reg: Seq<(Seq<char>, H)>,
    step: StopAllStep<H>,
)
    requires
        stop_all_transition(s, reg, event, end, end_reg, step),
    ensures
        event is Begin ==> end_reg.len() == 0,
        !(event is Begin) ==> end_reg == reg,
{
}

/// Every handle taken from the registry is handed over to be aborted, once:
/// at each event, the handles that the call held are those it hands over
/// followed by those it still holds, and a call that is over holds none.
pub proof fn lemma_handles_conserved<H>(
    s: StopAllView<H>,
    reg: Seq<(Seq<char>, H)>,
    event: StopAllEvent,
    end: StopAllView<H>,
    end_reg: Seq<(Seq<char>, H)>,
    step: StopAllStep<H>,
)
    requires
        s.wf(),
        stop_all_accepts(s.phase, event),
        s.phase == StopAllPhase::Cleaning ==> s.entries.len() == 0,
        stop_all_transition(s, reg, event, end, end_reg, step),
    ensures
        event is Begin ==> step.abort@.len() == 0 && handles_of(end.entries) == handles_of(reg),
        !(event is Begin) ==> handles_of(s.entries) == step.abort@ + handles_of(end.entries),
        (end.phase == StopAllPhase::Done || end.phase == StopAllPhase::Cleaning)
            ==> end.entries.len() == 0,
{
    match event {
        StopAllEvent::ConfigsLoaded(Ok(configs)) => {
            let mid = StopAllView { configs: configs_view(configs@), ..s };
            lemma_plain_run_bound(mid.entries, mid.configs);
            assert(handles_of(s.entries) =~= step.abort@ + handles_of(end.entries));
        },
        StopAllEvent::HostsDone(_) => {
            lemma_plain_run_bound(s.entries.skip(1), s.configs);
            assert(handles_of(s.entries) =~= step.abort@ + handles_of(end.entries));
        },
        StopAllEvent::Begin => {},
        _ => {
            assert(handles_of(s.entries) =~= step.abort@ + handles_of(end.entries));
        },
    }
}

/// No more entries are at the front than there are entries.
pub proof fn lemma_plain_run_bound<H>(entries: Seq<(Seq<char>, H)>, configs: Seq<ConfigView>)
    ensures
        plain_run(entries, configs) <= entries.len(),
    decreases entries.len(),
{
    if entries.len() == 0 || entry_domain(entries[0].0, configs) {
    } else {
        lemma_plain_run_bound(entries.skip(1), configs);
    }
}

} // verus!
