//! What holds across the events of a start call, and what follows for a
//! call that ends well.

use vstd::prelude::*;
use crate::keys::{composite_key_spec, key_prefix_spec, lemma_decimal_has_no_separator};
use crate::model::ResponseView;
use crate::numeric::{decimal, lemma_parse_decimal};
use crate::registry::{
    distinct_keys, has_key, has_prefixed, lemma_insert_keys, lemma_remove_all_keys,
    lemma_remove_keys,
};
use crate::start::{
    accepts, config_key_spec, installs_hosts, start_transition, success_spec, HostsOutcome,
    StartCommand, StartEvent, StartPhase, StartRunView, StartStep, result_view,
};

verus! {

/// Whether a forward of the configuration in hand is in the registry
/// without its summary being recorded yet.
pub open spec fn forward_pending(s: StartRunView) -> bool {
    s.phase == StartPhase::Installing || s.phase == StartPhase::Reconciling
}

/// Whether every forward started has an identity and the key of its
/// configuration.
pub open spec fn started_named(s: StartRunView) -> bool {
    forall|k: int|
        0 <= k < s.started.len() ==> (#[trigger] s.started[k]) == config_key_spec(s.configs[k])
            && s.configs[k].id.is_some()
}

/// Whether every summary is that of the configuration at its place.
pub open spec fn summaries_recorded(s: StartRunView) -> bool {
    forall|k: int|
        0 <= k < s.responses.len() ==> (#[trigger] s.responses[k]) == success_spec(
            s.configs[k],
            s.protocol,
            s.responses[k].local_port,
        )
}

/// Whether the registry holds the keys it began with and those of the
/// forwards started, no others.
pub open spec fn keys_tracked<H>(
    s: StartRunView,
    reg: Seq<(Seq<char>, H)>,
    initial: Seq<(Seq<char>, H)>,
) -> bool {
    forall|key: Seq<char>|
        has_key(reg, key) <==> (has_key(initial, key) || s.started.contains(key))
}

/// How many forwards a call without error has started.
pub open spec fn started_count(s: StartRunView) -> int {
    if forward_pending(s) {
        s.index + 1
    } else {
        s.index
    }
}

/// What holds between a start call and the registry it fills, from the
/// registry `initial` that the call began with.
///
/// The keys of the registry stay distinct. While no error is recorded, every
/// configuration dealt with has its summary, in order; every forward started
/// has an identity and its key in the registry; and the registry holds the
/// keys it began with and those of the forwards started, no others.
pub open spec fn start_inv<H>(
    s: StartRunView,
    reg: Seq<(Seq<char>, H)>,
    initial: Seq<(Seq<char>, H)>,
) -> bool {
    &&& s.wf()
    &&& distinct_keys(reg)
    &&& s.errors.len() == 0 ==> s.responses.len() == s.index
    &&& s.errors.len() == 0 ==> s.started.len() == started_count(s)
    &&& s.errors.len() == 0 ==> started_named(s)
    &&& s.errors.len() == 0 ==> summaries_recorded(s)
    &&& s.errors.len() == 0 ==> keys_tracked(s, reg, initial)
}

/// A start call that has not taken an event yet stands in the relation to
/// the registry it finds.
pub proof fn lemma_start_inv_initially<H>(s: StartRunView, reg: Seq<(Seq<char>, H)>)
    requires
        s.wf(),
        s.phase == StartPhase::Ready,
        s.responses.len() == 0,
        s.errors.len() == 0,
        s.started.len() == 0,
        distinct_keys(reg),
    ensures
        start_inv(s, reg, reg),
{
}

/// A transport that started keeps the relation between the call and the
/// registry.
proof fn lemma_forwarded_keeps<H>(
    s: StartRunView,
    reg: Seq<(Seq<char>, H)>,
    initial: Seq<(Seq<char>, H)>,
    port: u16,
    handle: H,
    end: StartRunView,
    end_reg: Seq<(Seq<char>, H)>,
    step: StartStep<H>,
)
    requires
        start_inv(s, reg, initial),
        s.phase == StartPhase::Forwarding,
        s.current().id.is_some(),
        s.current().service.is_some(),
        start_transition(s, reg, StartEvent::Forwarded(Ok((port, handle))), end, end_reg, step),
    ensures
        start_inv(end, end_reg, initial),
{
    let key = config_key_spec(s.current());
    lemma_insert_keys(reg, key, handle);
    assert(end.started == s.started.push(key));
    assert(end.wf());
    assert(distinct_keys(end_reg));
    if end.errors.len() == 0 {
        assert(end.responses == s.responses);
        assert(end.responses.len() == end.index);
        assert(forward_pending(end));
        assert(!forward_pending(s));
        assert(end.started.len() == started_count(end));
        assert(started_named(end)) by {
            assert forall|k: int| 0 <= k < end.started.len() implies (#[trigger] end.started[k])
                == config_key_spec(end.configs[k]) && end.configs[k].id.is_some() by {
                if k < s.started.len() {
                    assert(end.started[k] == s.started[k]);
                }
            }
        }
        assert(summaries_recorded(end));
        assert forall|other: Seq<char>|
            has_key(end_reg, other) <==> (has_key(initial, other) || end.started.contains(
                other,
            )) by {
            if s.started.contains(other) {
                let i = choose|i: int| 0 <= i < s.started.len() && s.started[i] == other;
                assert(end.started[i] == other);
            }
            if end.started.contains(other) {
                let i = choose|i: int| 0 <= i < end.started.len() && end.started[i] == other;
                if i < s.started.len() {
                    assert(s.started[i] == other);
                }
            }
            if other == key {
                assert(end.started[s.started.len() as int] == key);
            }
        }
        assert(keys_tracked(end, end_reg, initial));
    }
}

/// A step that changes neither the lists of the call nor the registry keeps
/// the relation.
proof fn lemma_same_lists_keep<H>(
    s: StartRunView,
    end: StartRunView,
    reg: Seq<(Seq<char>, H)>,
    initial: Seq<(Seq<char>, H)>,
)
    requires
        start_inv(s, reg, initial),
        end.wf(),
        end.configs == s.configs,
        end.protocol == s.protocol,
        end.index == s.index,
        end.responses == s.responses,
        end.errors == s.errors,
        end.started == s.started,
        forward_pending(end) == forward_pending(s),
    ensures
        start_inv(end, reg, initial),
{
    if end.errors.len() == 0 {
        assert(started_named(s));
        assert(started_named(end));
        assert(summaries_recorded(s));
        assert(summaries_recorded(end));
        assert(keys_tracked(s, reg, initial));
        assert(keys_tracked(end, reg, initial));
    }
}

/// A state with an error recorded and a registry with distinct keys stand in
/// the relation.
proof fn lemma_failed_keeps<H>(
    end: StartRunView,
    end_reg: Seq<(Seq<char>, H)>,
    initial: Seq<(Seq<char>, H)>,
)
    requires
        end.wf(),
        end.errors.len() > 0,
        distinct_keys(end_reg),
    ensures
        start_inv(end, end_reg, initial),
{
}

/// Recording the summary of the forward in hand keeps the relation.
proof fn lemma_reconciled_keeps<H>(
    s: StartRunView,
    end: StartRunView,
    reg: Seq<(Seq<char>, H)>,
    initial: Seq<(Seq<char>, H)>,
)
    requires
        start_inv(s, reg, initial),
        s.phase == StartPhase::Reconciling,
        s.errors.len() == 0,
        end.wf(),
        end.configs == s.configs,
        end.protocol == s.protocol,
        end.index == s.index + 1,
        end.responses == s.responses.push(success_spec(s.current(), s.protocol, s.bound_port)),
        end.errors == s.errors,
        end.started == s.started,
        !forward_pending(end),
    ensures
        start_inv(end, reg, initial),
{
    assert(started_named(s));
    assert(started_named(end));
    assert(summaries_recorded(s));
    assert(summaries_recorded(end)) by {
        assert forall|k: int| 0 <= k < end.responses.len() implies (#[trigger] end.responses[k])
            == success_spec(end.configs[k], end.protocol, end.responses[k].local_port) by {
            if k < s.responses.len() {
                assert(end.responses[k] == s.responses[k]);
            }
        }
    }
    assert(keys_tracked(s, reg, initial));
    assert(keys_tracked(end, reg, initial));
}

/// Every event keeps the relation between the call and the registry.
pub proof fn lemma_start_inv_kept<H>(
    s: StartRunView,
    reg: Seq<(Seq<char>, H)>,
    initial: Seq<(Seq<char>, H)>,
    event: StartEvent<H>,
    end: StartRunView,
    end_reg: Seq<(Seq<char>, H)>,
    step: StartStep<H>,
)
    requires
        start_inv(s, reg, initial),
        accepts(s.phase, event),
        event matches StartEvent::Forwarded(Ok(_)) ==> s.current().id.is_some()
            && s.current().service.is_some(),
        start_transition(s, reg, event, end, end_reg, step),
    ensures
        start_inv(end, end_reg, initial),
{
    match event {
        StartEvent::Forwarded(Ok((port, handle))) => {
            lemma_forwarded_keeps(s, reg, initial, port, handle, end, end_reg, step);
        },
        StartEvent::HostsDone(HostsOutcome::WriteFailed(_)) => {
            let key = config_key_spec(s.current());
            lemma_remove_keys(reg, key);
            lemma_remove_all_keys(crate::registry::remove_spec(reg, key), end.started);
            lemma_failed_keeps(end, end_reg, initial);
        },
        StartEvent::HostsDone(HostsOutcome::Installed) => {
            lemma_same_lists_keep(s, end, reg, initial);
        },
        StartEvent::HostsDone(HostsOutcome::InvalidAddress) => {
            lemma_same_lists_keep(s, end, reg, initial);
        },
        StartEvent::Reconciled => {
            lemma_remove_all_keys(reg, end.started);
            if end.errors.len() == 0 {
                lemma_reconciled_keeps(s, end, reg, initial);
            } else {
                lemma_failed_keeps(end, end_reg, initial);
            }
        },
        StartEvent::Built(Ok(_)) => {
            if crate::start::transport_spec(s.protocol).is_some() {
                lemma_same_lists_keep(s, end, reg, initial);
            } else {
                lemma_remove_all_keys(reg, end.started);
                lemma_failed_keeps(end, end_reg, initial);
            }
        },
        StartEvent::Built(Err(_)) => {
            lemma_remove_all_keys(reg, end.started);
            lemma_failed_keeps(end, end_reg, initial);
        },
        StartEvent::Forwarded(Err(_)) => {
            lemma_remove_all_keys(reg, end.started);
            lemma_failed_keeps(end, end_reg, initial);
        },
        StartEvent::Begin => {
            lemma_remove_all_keys(reg, end.started);
            if end.errors.len() == 0 {
                lemma_same_lists_keep(s, end, reg, initial);
            } else {
                lemma_failed_keeps(end, end_reg, initial);
            }
        },
    }
}

/// The decimal texts of two numbers are the same only where the numbers
/// are.
pub proof fn lemma_decimal_injective(a: int, b: int)
    requires
        decimal(a) == decimal(b),
    ensures
        a == b,
{
    let lo = if a < b { a } else { b };
    let hi = if a < b { b } else { a };
    lemma_parse_decimal(a, true, lo, hi);
    lemma_parse_decimal(b, true, lo, hi);
}

/// A key begins with the prefix of an identifier only where it is a key of
/// that identifier.
pub proof fn lemma_prefix_names_id(a: int, b: int, service: Seq<char>)
    requires
        key_prefix_spec(decimal(a)).is_prefix_of(composite_key_spec(b, service)),
    ensures
        a == b,
{
    let pa = decimal(a);
    let pb = decimal(b);
    let key = composite_key_spec(b, service);
    let prefix = key_prefix_spec(pa);
    lemma_decimal_has_no_separator(a);
    lemma_decimal_has_no_separator(b);
    assert(forall|j: int| 0 <= j < prefix.len() ==> prefix[j] == key[j]);
    assert(prefix[pa.len() as int] == '_');
    assert(key[pb.len() as int] == '_');
    if pa.len() < pb.len() {
        assert(key[pa.len() as int] == pb[pa.len() as int]);
        assert(pb.contains(pb[pa.len() as int]));
    }
    if pb.len() < pa.len() {
        assert(prefix[pb.len() as int] == pa[pb.len() as int]);
        assert(pa.contains(pa[pb.len() as int]));
    }
    assert(pa =~= pb) by {
        assert forall|j: int| 0 <= j < pa.len() implies pa[j] == pb[j] by {
            assert(prefix[j] == pa[j]);
            assert(key[j] == pb[j]);
        }
    }
    lemma_decimal_injective(a, b);
}

/// A start call that ends without error has one summary for each
/// configuration, in the order of the configurations, and the registry
/// holds the key of each of them.
pub proof fn lemma_started_all<H>(
    end: StartRunView,
    end_reg: Seq<(Seq<char>, H)>,
    initial: Seq<(Seq<char>, H)>,
)
    requires
        start_inv(end, end_reg, initial),
        end.phase == StartPhase::Done,
        end.errors.len() == 0,
    ensures
        end.responses.len() == end.configs.len(),
        forall|k: int|
            0 <= k < end.configs.len() ==> (#[trigger] end.responses[k]) == success_spec(
                end.configs[k],
                end.protocol,
                end.responses[k].local_port,
            ),
        forall|k: int|
            0 <= k < end.configs.len() ==> has_key(
                end_reg,
                #[trigger] config_key_spec(end.configs[k]),
            ) && key_prefix_spec(decimal(end.configs[k].id_or_zero())).is_prefix_of(
                config_key_spec(end.configs[k]),
            ),
{
    assert forall|k: int| 0 <= k < end.configs.len() implies has_key(
        end_reg,
        #[trigger] config_key_spec(end.configs[k]),
    ) && key_prefix_spec(decimal(end.configs[k].id_or_zero())).is_prefix_of(
        config_key_spec(end.configs[k]),
    ) by {
        let key = config_key_spec(end.configs[k]);
        assert(end.started[k] == key);
        assert(end.started.contains(key));
        let prefix = key_prefix_spec(decimal(end.configs[k].id_or_zero()));
        assert(key.subrange(0, prefix.len() as int) =~= prefix);
    }
}

/// After a start call that ends without error, the registry holds exactly
/// one entry whose key begins with the prefix of a configuration's
/// identifier, provided that no two configurations of the call share an
/// identifier and that the registry held no key with such a prefix when the
/// call began.
pub proof fn lemma_one_entry_per_config<H>(
    end: StartRunView,
    end_reg: Seq<(Seq<char>, H)>,
    initial: Seq<(Seq<char>, H)>,
    k: int,
)
    requires
        start_inv(end, end_reg, initial),
        end.phase == StartPhase::Done,
        end.errors.len() == 0,
        0 <= k < end.configs.len(),
        forall|a: int, b: int|
            0 <= a < end.configs.len() && 0 <= b < end.configs.len() && a != b ==> (
            #[trigger] end.configs[a]).id != (#[trigger] end.configs[b]).id,
        !has_prefixed(initial, key_prefix_spec(decimal(end.configs[k].id_or_zero()))),
    ensures
        exists|i: int|
            0 <= i < end_reg.len() && key_prefix_spec(
                decimal(end.configs[k].id_or_zero()),
            ).is_prefix_of((#[trigger] end_reg[i]).0) && end_reg[i].0 == config_key_spec(
                end.configs[k],
            ) && forall|j: int|
                0 <= j < end_reg.len() && key_prefix_spec(
                    decimal(end.configs[k].id_or_zero()),
                ).is_prefix_of((#[trigger] end_reg[j]).0) ==> j == i,
{
    lemma_started_all(end, end_reg, initial);
    let prefix = key_prefix_spec(decimal(end.configs[k].id_or_zero()));
    let key = config_key_spec(end.configs[k]);
    assert(has_key(end_reg, key));
    let i = choose|i: int| 0 <= i < end_reg.len() && (#[trigger] end_reg[i]).0 == key;
    assert forall|j: int|
        0 <= j < end_reg.len() && prefix.is_prefix_of((#[trigger] end_reg[j]).0) implies j
        == i by {
        let other = end_reg[j].0;
        assert(has_key(end_reg, other));
        if has_key(initial, other) {
            let m = choose|m: int| 0 <= m < initial.len() && (#[trigger] initial[m]).0 == other;
            assert(prefix.is_prefix_of(initial[m].0));
            assert(has_prefixed(initial, prefix));
        }
        assert(end.started.contains(other));
        let m = choose|m: int| 0 <= m < end.started.len() && end.started[m] == other;
        assert(other == config_key_spec(end.configs[m]));
        lemma_prefix_names_id(
            end.configs[k].id_or_zero(),
            end.configs[m].id_or_zero(),
            end.configs[m].service_or_empty(),
        );
        assert(end.started[m] == config_key_spec(end.configs[m]));
        assert(end.configs[m].id.is_some());
        assert(end.started[k] == config_key_spec(end.configs[k]));
        assert(end.configs[k].id.is_some());
        assert(end.configs[m].id == end.configs[k].id);
        assert(m == k);
    }
}

/// A start call for no configuration ends at once, with an empty list of
/// summaries and the registry as it was.
pub proof fn lemma_empty_start<H>(
    s: StartRunView,
    reg: Seq<(Seq<char>, H)>,
    end: StartRunView,
    end_reg: Seq<(Seq<char>, H)>,
    step: StartStep<H>,
)
    requires
        s.configs.len() == 0,
        s.responses.len() == 0,
        s.errors.len() == 0,
        start_transition(s, reg, StartEvent::Begin, end, end_reg, step),
    ensures
        step.next matches StartCommand::Finished(Ok(responses)) && responses@.len() == 0,
        end_reg == reg,
        step.abort@.len() == 0,
{
    assert(result_view(step.next->Finished_0) == Ok::<Seq<ResponseView>, Seq<char>>(s.responses));
}

/// The summary of a forward reports the local port that the transport
/// bound, whatever port the configuration asked for: the port reported when
/// the transport started is the local port in the summary recorded when
/// the running flag was written.
pub proof fn lemma_summary_reports_bound_port<H>(
    s: StartRunView,
    reg: Seq<(Seq<char>, H)>,
    port: u16,
    handle: H,
    mid: StartRunView,
    mid_reg: Seq<(Seq<char>, H)>,
    first: StartStep<H>,
    end: StartRunView,
    end_reg: Seq<(Seq<char>, H)>,
    second: StartStep<H>,
)
    requires
        s.wf(),
        s.phase == StartPhase::Forwarding,
        !installs_hosts(s.current()),
        start_transition(s, reg, StartEvent::Forwarded(Ok((port, handle))), mid, mid_reg, first),
        start_transition(mid, mid_reg, StartEvent::Reconciled, end, end_reg, second),
    ensures
        end.responses.len() == s.responses.len() + 1,
        end.responses.last().local_port == port,
        end.responses.last() == success_spec(s.current(), s.protocol, port as int),
{
}

/// The same holds where a hosts-file block is installed in between, or
/// where the local address turned out to be no IP address: the local port
/// in the summary is the one reported when the transport started.
pub proof fn lemma_summary_reports_bound_port_with_hosts<H>(
    s: StartRunView,
    reg: Seq<(Seq<char>, H)>,
    port: u16,
    handle: H,
    outcome: HostsOutcome,
    first_end: StartRunView,
    first_reg: Seq<(Seq<char>, H)>,
    first: StartStep<H>,
    second_end: StartRunView,
    second_reg: Seq<(Seq<char>, H)>,
    second: StartStep<H>,
    end: StartRunView,
    end_reg: Seq<(Seq<char>, H)>,
    third: StartStep<H>,
)
    requires
        s.wf(),
        s.phase == StartPhase::Forwarding,
        installs_hosts(s.current()),
        !(outcome is WriteFailed),
        start_transition(
            s,
            reg,
            StartEvent::Forwarded(Ok((port, handle))),
            first_end,
            first_reg,
            first,
        ),
        start_transition(
            first_end,
            first_reg,
            StartEvent::HostsDone(outcome),
            second_end,
            second_reg,
            second,
        ),
        start_transition(second_end, second_reg, StartEvent::Reconciled, end, end_reg, third),
    ensures
        end.responses.len() == s.responses.len() + 1,
        end.responses.last().local_port == port,
        end.responses.last() == success_spec(s.current(), s.protocol, port as int),
{
}

/// A local address that is no IP address is a warning only: the errors of
/// the call stay as they are, the forward stays in the registry, no handle
/// is handed over to be aborted, and the running flag is written next.
pub proof fn lemma_bad_address_keeps_forward<H>(
    s: StartRunView,
    reg: Seq<(Seq<char>, H)>,
    end: StartRunView,
    end_reg: Seq<(Seq<char>, H)>,
    step: StartStep<H>,
)
    requires
        start_transition(
            s,
            reg,
            StartEvent::HostsDone(HostsOutcome::InvalidAddress),
            end,
            end_reg,
            step,
        ),
    ensures
        end.errors == s.errors,
        end.warnings.len() == s.warnings.len() + 1,
        end_reg == reg,
        step.abort@.len() == 0,
        end.phase == StartPhase::Reconciling,
        step.next is Reconcile,
{
}

/// Whether the state is that of a start call before its first event.
pub open spec fn begins(s: StartRunView) -> bool {
    &&& s.wf()
    &&& s.phase == StartPhase::Ready
    &&& s.responses.len() == 0
    &&& s.errors.len() == 0
    &&& s.started.len() == 0
}

/// Whether these are the states and registries that one start call goes
/// through, the events reported to it and the answers it gives: each event
/// is the one awaited, and each state, registry and answer is what the
/// event before leads to.
pub open spec fn start_run<H>(
    states: Seq<StartRunView>,
    regs: Seq<Seq<(Seq<char>, H)>>,
    events: Seq<StartEvent<H>>,
    steps: Seq<StartStep<H>>,
) -> bool {
    &&& states.len() == events.len() + 1
    &&& regs.len() == states.len()
    &&& steps.len() == events.len()
    &&& forall|i: int|
        0 <= i < events.len() ==> accepts(states[i].phase, #[trigger] events[i]) && (
        events[i] matches StartEvent::Forwarded(Ok(_)) ==> states[i].current().id.is_some()
            && states[i].current().service.is_some()) && start_transition(
            states[i],
            regs[i],
            events[i],
            states[i + 1],
            regs[i + 1],
            steps[i],
        )
}

/// An event changes neither the configurations nor the protocol of a call.
pub proof fn lemma_configs_kept<H>(
    s: StartRunView,
    reg: Seq<(Seq<char>, H)>,
    event: StartEvent<H>,
    end: StartRunView,
    end_reg: Seq<(Seq<char>, H)>,
    step: StartStep<H>,
)
    requires
        start_transition(s, reg, event, end, end_reg, step),
    ensures
        end.configs == s.configs,
        end.protocol == s.protocol,
{
}

/// At every moment of a start call the state and the registry stand in the
/// relation `start_inv` to the registry that the call began with, and the
/// configurations are those it began with.
pub proof fn lemma_run_keeps_inv<H>(
    states: Seq<StartRunView>,
    regs: Seq<Seq<(Seq<char>, H)>>,
    events: Seq<StartEvent<H>>,
    steps: Seq<StartStep<H>>,
    at: int,
)
    requires
        start_run(states, regs, events, steps),
        begins(states[0]),
        distinct_keys(regs[0]),
        0 <= at < states.len(),
    ensures
        start_inv(states[at], regs[at], regs[0]),
        states[at].configs == states[0].configs,
        states[at].protocol == states[0].protocol,
    decreases at,
{
    if at == 0 {
        lemma_start_inv_initially(states[0], regs[0]);
    } else {
        lemma_run_keeps_inv(states, regs, events, steps, at - 1);
        let event = events[at - 1];
        assert(start_transition(
            states[at - 1],
            regs[at - 1],
            event,
            states[at],
            regs[at],
            steps[at - 1],
        ));
        lemma_start_inv_kept(
            states[at - 1],
            regs[at - 1],
            regs[0],
            event,
            states[at],
            regs[at],
            steps[at - 1],
        );
        lemma_configs_kept(states[at - 1], regs[at - 1], event, states[at], regs[at], steps[at - 1]);
    }
}

/// An answer that ends a call well comes from a call that is over, has
/// recorded no error, and returns the summaries it recorded.
pub proof fn lemma_finished_well<H>(
    s: StartRunView,
    reg: Seq<(Seq<char>, H)>,
    event: StartEvent<H>,
    end: StartRunView,
    end_reg: Seq<(Seq<char>, H)>,
    step: StartStep<H>,
)
    requires
        start_transition(s, reg, event, end, end_reg, step),
        step.next matches StartCommand::Finished(Ok(_)),
    ensures
        end.phase == StartPhase::Done,
        end.errors.len() == 0,
        step.next matches StartCommand::Finished(Ok(responses)) && crate::model::responses_view(
            responses@,
        ) == end.responses,
{
}

/// A start call that returns its summaries has registered every
/// configuration: whatever events were reported on the way, the result holds
/// one summary for each configuration, in order, and the registry holds
/// exactly one entry whose key begins with the identifier of the
/// configuration and a `_`, namely the key of its forward. This holds
/// provided that no two configurations of the call share an identifier and
/// that the registry held no key with such a prefix when the call began.
pub proof fn lemma_start_call_registers_each_config<H>(
    states: Seq<StartRunView>,
    regs: Seq<Seq<(Seq<char>, H)>>,
    events: Seq<StartEvent<H>>,
    steps: Seq<StartStep<H>>,
    k: int,
)
    requires
        start_run(states, regs, events, steps),
        begins(states[0]),
        distinct_keys(regs[0]),
        events.len() > 0,
        steps.last().next matches StartCommand::Finished(Ok(_)),
        0 <= k < states[0].configs.len(),
        forall|a: int, b: int|
            0 <= a < states[0].configs.len() && 0 <= b < states[0].configs.len() && a != b ==> (
            #[trigger] states[0].configs[a]).id != (#[trigger] states[0].configs[b]).id,
        !has_prefixed(regs[0], key_prefix_spec(decimal(states[0].configs[k].id_or_zero()))),
    ensures
        steps.last().next matches StartCommand::Finished(Ok(responses)) && responses@.len()
            == states[0].configs.len() && responses@[k]@ == success_spec(
            states[0].configs[k],
            states[0].protocol,
            responses@[k]@.local_port,
        ),
        states[0].configs[k].id.is_some(),
        exists|i: int|
            0 <= i < regs.last().len() && (#[trigger] regs.last()[i]).0 == config_key_spec(
                states[0].configs[k],
            ) && key_prefix_spec(decimal(states[0].configs[k].id_or_zero())).is_prefix_of(
                regs.last()[i].0,
            ) && forall|j: int|
                0 <= j < regs.last().len() && key_prefix_spec(
                    decimal(states[0].configs[k].id_or_zero()),
                ).is_prefix_of((#[trigger] regs.last()[j]).0) ==> j == i,
{
    let n = events.len() as int;
    let end = states[n];
    let end_reg = regs[n];
    assert(states.last() == end);
    assert(regs.last() == end_reg);
    lemma_run_keeps_inv(states, regs, events, steps, n);
    let event = events[n - 1];
    assert(start_transition(states[n - 1], regs[n - 1], event, end, end_reg, steps[n - 1]));
    lemma_finished_well(states[n - 1], regs[n - 1], event, end, end_reg, steps[n - 1]);
    lemma_started_all(end, end_reg, regs[0]);
    lemma_one_entry_per_config(end, end_reg, regs[0], k);
    match steps.last().next {
        StartCommand::Finished(Ok(responses)) => {
            assert(crate::model::responses_view(responses@).len() == responses@.len());
            assert(crate::model::responses_view(responses@)[k] == responses@[k]@);
            assert(end.responses[k] == success_spec(
                end.configs[k],
                end.protocol,
                end.responses[k].local_port,
            ));
        },
        _ => {},
    }
    assert(end.started.len() == started_count(end));
    assert(!forward_pending(end));
    assert(end.index == end.configs.len());
    assert(started_named(end));
    assert(end.started[k] == config_key_spec(end.configs[k]));
    assert(end.configs[k].id.is_some());
}

} // verus!
