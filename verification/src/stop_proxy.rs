//! Stopping a forward that goes through a helper pod: the decisions of one
//! stop-proxy call, taken one event at a time.

use vstd::prelude::*;
use crate::keys::{label_selector, label_selector_spec};
use crate::model::{Config, CustomResponse, ResponseView};
use crate::naming::{
    current_username, find_helper_pod, first_helper_pod, helper_pod_name_spec, is_helper_pod,
    lemma_filter_finds_named_pod, pods_view, PodRef, PodRefView,
};
use crate::numeric::{decimal, format_i64};
use crate::text::from_chars;

verus! {

/// Where a stop-proxy call stands.
#[derive(Clone, Copy, Debug, PartialEq, Eq, Structural)]
pub enum StopProxyPhase {
    /// Nothing was reported yet.
    Ready,
    /// The configuration is being loaded.
    Loading,
    /// The pods of the configuration are being listed.
    Listing,
    /// The helper pod is being deleted.
    Deleting,
    /// The forward is being stopped.
    Stopping,
    /// The call is over.
    Done,
}

/// What listing the pods of a configuration gave.
#[derive(Debug, PartialEq, Eq)]
pub enum PodListing {
    /// No client could be built; the text says why.
    ClientFailed(String),
    /// Building a client gave none.
    NoClient,
    /// The pods could not be listed; the text says why.
    ListFailed(String),
    /// The pods, in the order they came.
    Listed(Vec<PodRef>),
}

/// What the caller reports to a stop-proxy call.
pub enum StopProxyEvent {
    /// The call begins.
    Begin,
    /// The stored configuration, or why it could not be loaded.
    ConfigLoaded(Result<Config, String>),
    /// Listing the pods ended.
    PodsListed(PodListing),
    /// Deleting the helper pod ended; an error carries its text.
    PodDeleted(Result<(), String>),
    /// Stopping the forward ended: with its summary or with its error.
    Stopped(Result<CustomResponse, String>),
}

/// What a stop-proxy call asks of the caller next.
#[derive(Debug, PartialEq, Eq)]
pub enum StopProxyCommand {
    /// Load the stored configuration with this identifier.
    LoadConfig(i64),
    /// Build a client and list the pods of the namespace that the selector
    /// finds.
    ListPods { kubeconfig: String, context: String, namespace: String, selector: String },
    /// Delete this pod at once, its dependents in the background.
    DeletePod { namespace: String, name: String },
    /// Stop the forward of the configuration written so.
    StopForward(String),
    /// The call is over, with its result.
    Finished(Result<CustomResponse, String>),
}

/// The state of one stop-proxy call.
pub struct StopProxyRun {
    config_id: i64,
    namespace: String,
    phase: StopProxyPhase,
}

/// The state of a stop-proxy call as plain values.
pub struct StopProxyView {
    pub config_id: int,
    pub namespace: Seq<char>,
    pub phase: StopProxyPhase,
}

/// Whether the call ends with the result `result`.
pub open spec fn proxy_finished(
    s: StopProxyView,
    result: Result<ResponseView, Seq<char>>,
    end: StopProxyView,
    next: StopProxyCommand,
) -> bool {
    &&& end == StopProxyView { phase: StopProxyPhase::Done, ..s }
    &&& next matches StopProxyCommand::Finished(given)
    &&& match given {
        Ok(response) => result == Ok::<ResponseView, Seq<char>>(response@),
        Err(error) => result == Err::<ResponseView, Seq<char>>(error@),
    }
}

/// Whether the forward is to be stopped next.
pub open spec fn proxy_stops(s: StopProxyView, end: StopProxyView, next: StopProxyCommand) -> bool {
    &&& end == StopProxyView { phase: StopProxyPhase::Stopping, ..s }
    &&& next matches StopProxyCommand::StopForward(id_text)
    &&& id_text@ == decimal(s.config_id)
}

/// Whether the state `end` and the command `next` are what the event
/// `event` leads to from the state `s`, for the user `username`.
///
/// The configuration is loaded; it must name a kubeconfig. The pods of the
/// namespace that carry the label of the configuration are listed. The
/// first of them whose name begins with the prefix of the user's helper
/// pods is deleted; where there is none, nothing is deleted. Then the
/// forward is stopped, and the call ends with what stopping it gave. A
/// failure at any step before ends the call with its error.
pub open spec fn stop_proxy_transition(
    s: StopProxyView,
    event: StopProxyEvent,
    username: Seq<char>,
    end: StopProxyView,
    next: StopProxyCommand,
) -> bool {
    match event {
        StopProxyEvent::Begin => {
            &&& end == StopProxyView { phase: StopProxyPhase::Loading, ..s }
            &&& next matches StopProxyCommand::LoadConfig(id)
            &&& id as int == s.config_id
        },
        StopProxyEvent::ConfigLoaded(Err(why)) => proxy_finished(s, Err(why@), end, next),
        StopProxyEvent::ConfigLoaded(Ok(config)) => match config@.kubeconfig {
            None => proxy_finished(s, Err("Kubeconfig not found"@), end, next),
            Some(path) => {
                &&& end == StopProxyView { phase: StopProxyPhase::Listing, ..s }
                &&& next matches StopProxyCommand::ListPods {
                    kubeconfig,
                    context,
                    namespace,
                    selector,
                }
                &&& kubeconfig@ == path
                &&& context@ == config@.context
                &&& namespace@ == s.namespace
                &&& selector@ == label_selector_spec(s.config_id)
            },
        },
        StopProxyEvent::PodsListed(listing) => match listing {
            PodListing::ClientFailed(why) => proxy_finished(s, Err(why@), end, next),
            PodListing::NoClient => proxy_finished(s, Err("Client not created"@), end, next),
            PodListing::ListFailed(why) => proxy_finished(s, Err(why@), end, next),
            PodListing::Listed(pods) => match first_helper_pod(pods_view(pods@), username) {
                Some(pod) => {
                    &&& end == StopProxyView { phase: StopProxyPhase::Deleting, ..s }
                    &&& next matches StopProxyCommand::DeletePod { namespace, name }
                    &&& namespace@ == s.namespace
                    &&& name@ == pod
                },
                None => proxy_stops(s, end, next),
            },
        },
        StopProxyEvent::PodDeleted(Err(why)) => proxy_finished(s, Err(why@), end, next),
        StopProxyEvent::PodDeleted(Ok(_)) => proxy_stops(s, end, next),
        StopProxyEvent::Stopped(outcome) => proxy_finished(
            s,
            match outcome {
                Ok(response) => Ok(response@),
                Err(why) => Err(why@),
            },
            end,
            next,
        ),
    }
}

/// Whether the event `event` is the one awaited in the phase `phase`.
pub open spec fn stop_proxy_accepts(phase: StopProxyPhase, event: StopProxyEvent) -> bool {
    match event {
        StopProxyEvent::Begin => phase == StopProxyPhase::Ready,
        StopProxyEvent::ConfigLoaded(_) => phase == StopProxyPhase::Loading,
        StopProxyEvent::PodsListed(_) => phase == StopProxyPhase::Listing,
        StopProxyEvent::PodDeleted(_) => phase == StopProxyPhase::Deleting,
        StopProxyEvent::Stopped(_) => phase == StopProxyPhase::Stopping,
    }
}

impl StopProxyRun {
    /// The state as plain values.
    pub closed spec fn view(&self) -> StopProxyView {
        StopProxyView {
            config_id: self.config_id as int,
            namespace: self.namespace@,
            phase: self.phase,
        }
    }

    /// A stop-proxy call for the configuration `config_id` in `namespace`,
    /// before its first event.
    pub fn new(config_id: i64, namespace: &str) -> (run: StopProxyRun)
        ensures
            run@ == (StopProxyView {
                config_id: config_id as int,
                namespace: namespace@,
                phase: StopProxyPhase::Ready,
            }),
    {
        StopProxyRun {
            config_id,
            namespace: String::from_str(namespace),
            phase: StopProxyPhase::Ready,
        }
    }

    /// Where the call stands.
    pub fn phase(&self) -> (out: StopProxyPhase)
        ensures
            out == self@.phase,
    {
        self.phase
    }

    /// Whether `event` is the event that the phase awaits.
    pub fn can_take(&self, event: &StopProxyEvent) -> (out: bool)
        ensures
            out == stop_proxy_accepts(self@.phase, *event),
    {
        match event {
            StopProxyEvent::Begin => self.phase == StopProxyPhase::Ready,
            StopProxyEvent::ConfigLoaded(_) => self.phase == StopProxyPhase::Loading,
            StopProxyEvent::PodsListed(_) => self.phase == StopProxyPhase::Listing,
            StopProxyEvent::PodDeleted(_) => self.phase == StopProxyPhase::Deleting,
            StopProxyEvent::Stopped(_) => self.phase == StopProxyPhase::Stopping,
        }
    }

    /// Ends the call with `result`.
    fn finish(&mut self, result: Result<CustomResponse, String>) -> (next: StopProxyCommand)
        ensures
            proxy_finished(
                old(self)@,
                match result {
                    Ok(response) => Ok(response@),
                    Err(error) => Err(error@),
                },
                final(self)@,
                next,
            ),
    {
        self.phase = StopProxyPhase::Done;
        StopProxyCommand::Finished(result)
    }

    /// Asks for the forward to be stopped.
    fn stop(&mut self) -> (next: StopProxyCommand)
        ensures
            proxy_stops(old(self)@, final(self)@, next),
    {
        self.phase = StopProxyPhase::Stopping;
        StopProxyCommand::StopForward(from_chars(&format_i64(self.config_id)))
    }
}

/// Takes one event of a stop-proxy call and answers with what to do next,
/// the helper pods being those of `username`.
pub fn stop_proxy_step(run: &mut StopProxyRun, event: StopProxyEvent, username: &str) -> (next:
    StopProxyCommand)
    requires
        stop_proxy_accepts(old(run)@.phase, event),
    ensures
        stop_proxy_transition(old(run)@, event, username@, final(run)@, next),
{
    match event {
        StopProxyEvent::Begin => {
            run.phase = StopProxyPhase::Loading;
            StopProxyCommand::LoadConfig(run.config_id)
        },
        StopProxyEvent::ConfigLoaded(Err(why)) => run.finish(Err(why)),
        StopProxyEvent::ConfigLoaded(Ok(config)) => match config.kubeconfig {
            None => run.finish(Err(String::from_str("Kubeconfig not found"))),
            Some(kubeconfig) => {
                run.phase = StopProxyPhase::Listing;
                StopProxyCommand::ListPods {
                    kubeconfig,
                    context: config.context,
                    namespace: run.namespace.clone(),
                    selector: label_selector(run.config_id),
                }
            },
        },
        StopProxyEvent::PodsListed(listing) => match listing {
            PodListing::ClientFailed(why) => run.finish(Err(why)),
            PodListing::NoClient => run.finish(Err(String::from_str("Client not created"))),
            PodListing::ListFailed(why) => run.finish(Err(why)),
            PodListing::Listed(pods) => match find_helper_pod(&pods, username) {
                Some(name) => {
                    run.phase = StopProxyPhase::Deleting;
                    StopProxyCommand::DeletePod { namespace: run.namespace.clone(), name }
                },
                None => run.stop(),
            },
        },
        StopProxyEvent::PodDeleted(Err(why)) => run.finish(Err(why)),
        StopProxyEvent::PodDeleted(Ok(_)) => run.stop(),
        StopProxyEvent::Stopped(outcome) => run.finish(outcome),
    }
}

/// Takes one event of a stop-proxy call and answers with what to do next.
///
/// The helper pods are those of the user who runs the process: the answer is
/// what `stop_proxy_step` gives for some user name. Only the answer to a
/// list of pods depends on the name.
pub fn stop_proxy_forward(run: &mut StopProxyRun, event: StopProxyEvent) -> (next:
    StopProxyCommand)
    requires
        stop_proxy_accepts(old(run)@.phase, event),
    ensures
        exists|username: Seq<char>| #[trigger]
            stop_proxy_transition(old(run)@, event, username, final(run)@, next),
{
    let lists = match &event {
        StopProxyEvent::PodsListed(PodListing::Listed(_)) => true,
        _ => false,
    };
    if lists {
        let username = current_username();
        let next = stop_proxy_step(run, event, username.as_str());
        assert(stop_proxy_transition(old(run)@, event, username@, run@, next));
        next
    } else {
        let next = stop_proxy_step(run, event, "");
        assert(stop_proxy_transition(old(run)@, event, ""@, run@, next));
        next
    }
}

/// The first helper pod of a user among `pods` is the pod at `at`, where
/// that pod is one and no pod before it is.
pub proof fn lemma_first_helper_pod_is(pods: Seq<PodRefView>, username: Seq<char>, at: int)
    requires
        0 <= at < pods.len(),
        is_helper_pod(pods[at], username),
        forall|j: int| 0 <= j < at ==> !is_helper_pod(#[trigger] pods[j], username),
    ensures
        first_helper_pod(pods, username) == pods[at].name,
    decreases at,
{
    if at > 0 {
        let rest = pods.skip(1);
        assert(!is_helper_pod(pods[0], username));
        assert forall|j: int| 0 <= j < at - 1 implies !is_helper_pod(
            #[trigger] rest[j],
            username,
        ) by {
            assert(rest[j] == pods[j + 1]);
        }
        assert(rest[at - 1] == pods[at]);
        lemma_first_helper_pod_is(rest, username, at - 1);
    }
}

/// Stopping undoes deploying, whatever the user name: where the listed pods
/// hold the pod that was named for the user, with no helper pod of the user
/// before it, the call asks for that pod to be deleted.
pub proof fn lemma_stop_deletes_deployed_pod(
    s: StopProxyView,
    pods: Vec<PodRef>,
    at: int,
    username: Seq<char>,
    protocol: Seq<char>,
    unix_seconds: int,
    suffix: Seq<char>,
    end: StopProxyView,
    next: StopProxyCommand,
)
    requires
        0 <= at < pods@.len(),
        pods@[at]@.name == Some(helper_pod_name_spec(username, protocol, unix_seconds, suffix)),
        forall|j: int| 0 <= j < at ==> !is_helper_pod(#[trigger] pods_view(pods@)[j], username),
        stop_proxy_transition(
            s,
            StopProxyEvent::PodsListed(PodListing::Listed(pods)),
            username,
            end,
            next,
        ),
    ensures
        next matches StopProxyCommand::DeletePod { namespace, name } && name@
            == helper_pod_name_spec(username, protocol, unix_seconds, suffix) && namespace@
            == s.namespace,
        end.phase == StopProxyPhase::Deleting,
{
    let listed = pods_view(pods@);
    lemma_filter_finds_named_pod(username, protocol, unix_seconds, suffix, listed[at].namespace);
    assert(listed[at] == pods@[at]@);
    lemma_first_helper_pod_is(listed, username, at);
}

} // verus!
