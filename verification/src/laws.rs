//! What holds of every pick, proved from the steps' contracts alone.

use vstd::prelude::*;
use crate::error::ErrorsView;
use crate::search::{probe_index, Event, PickView, Request, Stage, StepView};
use crate::utils::{port_verdict, BindOutcome, HostAddr, PortVerdict, Transport};
use crate::{PickerView, Protocol};

verus! {

/// A configuration whose range can be searched does not end the pick at once: the
/// pick opens on that very configuration and asks for the addresses to probe.
pub proof fn lemma_valid_range_opens(config: PickerView, first: StepView)
    requires
        config.valid_range(),
        config.begins(first),
    ensures
        first matches StepView::Ask(pick, request) && pick.wf() && pick.config == config
            && pick.asks(request),
{
}

/// A step that does not end the pick leaves it well formed, on the configuration
/// that it had before, and asking for what its new stage waits for.
pub proof fn lemma_step_keeps_configuration(
    state: PickView,
    event: Event,
    next: PickView,
    request: Request,
)
    requires
        state.wf(),
        state.follows(event, StepView::Ask(next, request)),
    ensures
        next.wf(),
        next.config == state.config,
        next.asks(request),
        state.stage is Probing ==> next.hosts == state.hosts && next.stage is Probing,
{
    match (state.stage, event) {
        (Stage::AwaitHost, Event::HostParsed(Some(addr))) => {
            assert(next.hosts == seq![addr]);
        },
        (Stage::AwaitInterfaces, Event::Interfaces(lists)) => {
            assert(next.hosts.contains(HostAddr::V4(0))) by {
                assert(HostAddr::V4(0).is_unspecified());
            }
        },
        _ => {},
    }
}

/// A pick ends with a port only if that port lies in the configured range and is not
/// excluded, and it ends without one only because no port was available, or because
/// the configured host turned out to be no IP address.
pub proof fn lemma_result_is_candidate(
    state: PickView,
    event: Event,
    result: Result<u16, ErrorsView>,
)
    requires
        state.wf(),
        state.follows(event, StepView::Done(result)),
    ensures
        match result {
            Ok(port) => state.config.is_candidate(port as int),
            Err(error) => error == ErrorsView::NoAvailablePort || (state.stage is AwaitHost
                && event matches Event::HostParsed(None)),
        },
{
}

/// When the search opens, fewer candidates can follow the first one than the range
/// has ports: no more candidates are ever tried than that.
pub proof fn lemma_search_opens_within_range(
    state: PickView,
    event: Event,
    next: PickView,
    request: Request,
)
    requires
        state.wf(),
        !(state.stage is Probing),
        state.follows(event, StepView::Ask(next, request)),
        next.stage is Probing,
    ensures
        next.candidates_left() < state.config.size(),
        next.position() == 0,
{
}

/// Every answer to a bind brings the pick nearer to its end. Where the port is given
/// up, fewer candidates can follow the new one than could follow the old one. Where
/// the port is kept, as many can follow, and one more bind stands in its favour. So
/// the bound on the binds that can still be asked for falls with every answer.
pub proof fn lemma_bind_spends_budget(
    state: PickView,
    outcome: BindOutcome,
    next: PickView,
    request: Request,
)
    requires
        state.wf(),
        state.stage is Probing,
        state.follows(Event::Bound(outcome), StepView::Ask(next, request)),
    ensures
        next.stage is Probing,
        outcome.counts_as_free() ==> {
            &&& next.stage->port == state.stage->port
            &&& next.candidates_left() == state.candidates_left()
            &&& next.position() == state.position() + 1
        },
        !outcome.counts_as_free() ==> {
            &&& next.candidates_left() < state.candidates_left()
            &&& next.position() == 0
        },
        0 <= state.position() < state.span(),
        0 <= next.binds_left() < state.binds_left(),
{
    lemma_step_keeps_configuration(state, Event::Bound(outcome), next, request);
    let span = state.span();
    let left = state.candidates_left() as int;
    let after = next.candidates_left() as int;
    assert(next.span() == span);
    assert(0 <= state.position() < span);
    assert(0 <= next.position() < span);
    if outcome.counts_as_free() {
        assert(after == left);
    } else {
        assert(after + 1 <= left);
        assert((after + 1) * span <= left * span) by (nonlinear_arith)
            requires
                after + 1 <= left,
                span >= 0,
        ;
        assert((after + 1) * span == after * span + span) by (nonlinear_arith);
    }
    assert(0 <= after * span) by (nonlinear_arith)
        requires
            after >= 0,
            span >= 0,
    ;
}

/// Whether state `k` of `states`, handed the outcome `k` of `outcomes`, goes on as
/// state `k + 1`.
pub open spec fn linked(states: Seq<PickView>, outcomes: Seq<BindOutcome>, k: int) -> bool {
    states[k].follows(
        Event::Bound(outcomes[k]),
        StepView::Ask(states[k + 1], states[k + 1].pending_bind()),
    )
}

/// Whether `states` are the stages through which a search went when its binds were
/// answered with `outcomes`, from the first bind for some candidate onwards.
pub open spec fn probes(states: Seq<PickView>, outcomes: Seq<BindOutcome>) -> bool {
    &&& states.len() == outcomes.len() + 1
    &&& states[0].wf()
    &&& states[0].stage is Probing
    &&& states[0].position() == 0
    &&& forall|k: int| 0 <= k < outcomes.len() ==> #[trigger] linked(states, outcomes, k)
}

/// Whether state `j` stood at a bind for `port` that `outcomes` answered in its
/// favour, and that bind was number `index` of those that a port needs.
pub open spec fn confirms(
    states: Seq<PickView>,
    outcomes: Seq<BindOutcome>,
    j: int,
    port: u16,
    index: int,
) -> bool {
    &&& states[j].stage matches Stage::Probing { port: candidate, host, transport }
    &&& candidate == port
    &&& host < states[j].hosts.len()
    &&& states[j].config.protocol.uses(transport)
    &&& probe_index(states[j].config.protocol, host as int, transport) == index
    &&& outcomes[j].counts_as_free()
}

/// In a search, each state probes on the hosts and the configuration of the first,
/// and the binds that stand in favour of its candidate are the latest ones that were
/// answered, in their order.
pub proof fn lemma_latest_answers_confirm(
    states: Seq<PickView>,
    outcomes: Seq<BindOutcome>,
    k: int,
)
    requires
        probes(states, outcomes),
        0 <= k < states.len(),
    ensures
        states[k].wf(),
        states[k].stage is Probing,
        states[k].hosts == states[0].hosts,
        states[k].config == states[0].config,
        0 <= states[k].position() <= k,
        forall|j: int|
            k - states[k].position() <= j < k ==> #[trigger] confirms(
                states,
                outcomes,
                j,
                states[k].stage->port,
                j - (k - states[k].position()),
            ),
    decreases k,
{
    if k > 0 {
        let before = states[k - 1];
        let state = states[k];
        lemma_latest_answers_confirm(states, outcomes, k - 1);
        assert(linked(states, outcomes, k - 1));
        lemma_bind_spends_budget(before, outcomes[k - 1], state, state.pending_bind());
        if outcomes[k - 1].counts_as_free() {
            assert forall|j: int| k - state.position() <= j < k implies #[trigger] confirms(
                states,
                outcomes,
                j,
                state.stage->port,
                j - (k - state.position()),
            ) by {
                if j < k - 1 {
                    assert(confirms(
                        states,
                        outcomes,
                        j,
                        before.stage->port,
                        j - (k - 1 - before.position()),
                    ));
                }
            }
        }
    }
}

/// A port is found only on the strength of the latest answers: where a search ends
/// with a port, the last binds that were answered are the binds of that very port
/// on every host and every transport that the protocol uses, in their order, and
/// each of them was answered in the port's favour.
pub proof fn lemma_found_port_was_free(
    states: Seq<PickView>,
    outcomes: Seq<BindOutcome>,
    last: BindOutcome,
    port: u16,
)
    requires
        probes(states, outcomes),
        states.last().follows(Event::Bound(last), StepView::Done(Ok(port))),
    ensures
        states.last().span() <= states.len(),
        forall|host: int, transport: Transport|
            0 <= host < states[0].hosts.len() && states[0].config.protocol.uses(transport) ==> {
                let k = states.len() - states.last().span() + #[trigger] probe_index(
                    states[0].config.protocol,
                    host,
                    transport,
                );
                &&& 0 <= k < states.len()
                &&& states[k].hosts == states[0].hosts
                &&& states[k].stage == (Stage::Probing { port, host: host as usize, transport })
                &&& outcomes.push(last)[k].counts_as_free()
            },
{
    let n = states.len() as int;
    let end = states.last();
    let protocol = states[0].config.protocol;
    lemma_latest_answers_confirm(states, outcomes, n - 1);
    assert(end.position() == end.span() - 1);
    assert forall|host: int, transport: Transport|
        0 <= host < states[0].hosts.len() && protocol.uses(transport) implies {
        let k = n - end.span() + #[trigger] probe_index(protocol, host, transport);
        &&& 0 <= k < n
        &&& states[k].hosts == states[0].hosts
        &&& states[k].stage == (Stage::Probing { port, host: host as usize, transport })
        &&& outcomes.push(last)[k].counts_as_free()
    } by {
        let k = n - end.span() + probe_index(protocol, host, transport);
        lemma_latest_answers_confirm(states, outcomes, k);
        if k < n - 1 {
            assert(confirms(states, outcomes, k, port, k - (n - 1 - end.position())));
        }
    }
}

/// The number of `outcomes` that spoke against a port.
pub open spec fn given_up(outcomes: Seq<BindOutcome>) -> nat
    decreases outcomes.len(),
{
    if outcomes.len() == 0 {
        0
    } else {
        given_up(outcomes.drop_last()) + if outcomes.last().counts_as_free() {
            0nat
        } else {
            1nat
        }
    }
}

/// A search gives up no more candidates than could follow its first one: each
/// answer against a port takes one from the candidates that can still follow. With
/// `lemma_search_opens_within_range` this bounds the candidates that a pick tries by
/// the number of ports in the range, whatever the strategy.
pub proof fn lemma_given_up_within_budget(
    states: Seq<PickView>,
    outcomes: Seq<BindOutcome>,
    k: int,
)
    requires
        probes(states, outcomes),
        0 <= k < states.len(),
    ensures
        given_up(outcomes.take(k)) + states[k].candidates_left() <= states[0].candidates_left(),
    decreases k,
{
    if k > 0 {
        lemma_given_up_within_budget(states, outcomes, k - 1);
        lemma_latest_answers_confirm(states, outcomes, k - 1);
        assert(linked(states, outcomes, k - 1));
        lemma_bind_spends_budget(
            states[k - 1],
            outcomes[k - 1],
            states[k],
            states[k].pending_bind(),
        );
        assert(outcomes.take(k).drop_last() == outcomes.take(k - 1));
        assert(outcomes.take(k).last() == outcomes[k - 1]);
    }
}

/// Whether state `j` stood at a bind for `port` that `outcomes` answered against it.
pub open spec fn gives_up_at(
    states: Seq<PickView>,
    outcomes: Seq<BindOutcome>,
    j: int,
    port: int,
) -> bool {
    states[j].stage->port == port && !outcomes[j].counts_as_free()
}

/// In ascending order no candidate is passed over: when a search that opened on the
/// lowest candidate from `from` upwards has come to some port, every candidate
/// below it was probed before, and given up on an answer against it.
pub proof fn lemma_lower_candidates_were_given_up(
    states: Seq<PickView>,
    outcomes: Seq<BindOutcome>,
    from: int,
    k: int,
    lower: int,
)
    requires
        probes(states, outcomes),
        !states[0].config.random,
        states[0].config.first_candidate(from, Some(states[0].stage->port)),
        0 <= k < states.len(),
        from <= lower < states[k].stage->port,
        states[0].config.is_candidate(lower),
    ensures
        exists|j: int| 0 <= j < k && #[trigger] gives_up_at(states, outcomes, j, lower),
    decreases k,
{
    if k > 0 {
        let before = states[k - 1];
        lemma_latest_answers_confirm(states, outcomes, k - 1);
        lemma_latest_answers_confirm(states, outcomes, k);
        assert(linked(states, outcomes, k - 1));
        lemma_bind_spends_budget(before, outcomes[k - 1], states[k], states[k].pending_bind());
        if lower < before.stage->port {
            lemma_lower_candidates_were_given_up(states, outcomes, from, k - 1, lower);
            let j = choose|j: int| 0 <= j < k - 1 && #[trigger] gives_up_at(states, outcomes, j, lower);
            assert(0 <= j < k && gives_up_at(states, outcomes, j, lower));
        } else {
            assert(!outcomes[k - 1].counts_as_free());
            assert(lower == before.stage->port);
            assert(gives_up_at(states, outcomes, k - 1, lower));
        }
    }
}

/// In ascending order a search ends without a port only when every candidate from
/// `from` upwards, where it opened, was probed and given up on an answer against it.
pub proof fn lemma_no_port_after_all_were_given_up(
    states: Seq<PickView>,
    outcomes: Seq<BindOutcome>,
    last: BindOutcome,
    from: int,
    candidate: int,
)
    requires
        probes(states, outcomes),
        !states[0].config.random,
        states[0].config.first_candidate(from, Some(states[0].stage->port)),
        states.last().follows(
            Event::Bound(last),
            StepView::Done(Err(ErrorsView::NoAvailablePort)),
        ),
        from <= candidate,
        states[0].config.is_candidate(candidate),
    ensures
        exists|j: int|
            0 <= j < states.len() && #[trigger] gives_up_at(states, outcomes.push(last), j, candidate),
{
    let n = states.len() as int;
    let all = outcomes.push(last);
    lemma_latest_answers_confirm(states, outcomes, n - 1);
    if candidate < states.last().stage->port {
        lemma_lower_candidates_were_given_up(states, outcomes, from, n - 1, candidate);
        let j = choose|j: int| 0 <= j < n - 1 && #[trigger] gives_up_at(states, outcomes, j, candidate);
        assert(all[j] == outcomes[j]);
        assert(gives_up_at(states, all, j, candidate));
    } else {
        assert(candidate == states.last().stage->port);
        assert(all[n - 1] == last);
        assert(gives_up_at(states, all, n - 1, candidate));
    }
}

} // verus!
