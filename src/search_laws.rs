//! What holds of every run of the search machine.
use vstd::prelude::*;
use crate::gateway::Gateway;
use crate::driver::{
    multi_result, poll_action, poll_model, resolved, run, single_result, start_multi,
    start_single, step, wf_model, Action, Outcome, Round, SearchModel,
};

verus! {

/// Running `a` and then `b` is running their concatenation.
pub proof fn lemma_run_append(m: SearchModel, a: Seq<Round>, b: Seq<Round>)
    ensures
        run(m, a + b) == run(run(m, a), b),
    decreases b.len(),
{
    if b.len() == 0 {
        assert(a + b =~= a);
    } else {
        lemma_run_append(m, a, b.drop_last());
        assert((a + b).drop_last() =~= a + b.drop_last());
        assert((a + b).last() == b.last());
    }
}

/// A search that is over stays as it is, whatever comes after.
pub proof fn lemma_finished_stays(m: SearchModel, rounds: Seq<Round>)
    requires
        m.finished,
    ensures
        run(m, rounds) == m,
    decreases rounds.len(),
{
    if rounds.len() > 0 {
        lemma_finished_stays(m, rounds.drop_last());
    }
}

/// Every state that the machine reaches from a well-formed one is well formed.
pub proof fn lemma_run_wf(m: SearchModel, rounds: Seq<Round>)
    requires
        wf_model(m),
    ensures
        wf_model(run(m, rounds)),
        run(m, rounds).deadline == m.deadline,
    decreases rounds.len(),
{
    if rounds.len() > 0 {
        lemma_run_wf(m, rounds.drop_last());
    }
}

/// A datagram that is malformed, or whose responder does not resolve, never
/// ends a search and adds nothing to it; neither does a receive that timed
/// out. The round changes only what the deadline check itself changes.
pub proof fn lemma_dropped_changes_nothing(m: SearchModel, elapsed: u64)
    ensures
        step(m, Round { elapsed, outcome: Outcome::Dropped }) == poll_model(m, elapsed),
        step(m, Round { elapsed, outcome: Outcome::TimedOut }) == poll_model(m, elapsed),
{
}

/// Rounds that only drop or time out leave a search without a deadline as
/// it was.
proof fn lemma_quiet_prefix(m: SearchModel, rounds: Seq<Round>, k: int)
    requires
        m.deadline is None,
        0 <= k <= rounds.len(),
        forall|i: int| 0 <= i < k ==> (rounds[i].outcome is Dropped || rounds[i].outcome is TimedOut),
    ensures
        run(m, rounds.take(k)) == m,
    decreases k,
{
    if k > 0 {
        lemma_quiet_prefix(m, rounds, k - 1);
        assert(rounds.take(k).drop_last() =~= rounds.take(k - 1));
    }
}

/// A first-match search ends with the first gateway that resolves: after any
/// number of dropped datagrams and timed-out receives, the gateway of the
/// first round that resolves is the result, whatever follows it.
pub proof fn lemma_first_resolved_wins(
    read_timeout: Option<u64>,
    rounds: Seq<Round>,
    n: int,
    g: Gateway,
)
    requires
        0 <= n < rounds.len(),
        forall|i: int| 0 <= i < n ==> (rounds[i].outcome is Dropped || rounds[i].outcome is TimedOut),
        rounds[n].outcome == Outcome::Resolved(g),
    ensures
        single_result(run(start_single(read_timeout), rounds)) == Some(Ok::<Gateway, crate::gateway::SearchError>(g)),
{
    let m0 = start_single(read_timeout);
    lemma_quiet_prefix(m0, rounds, n);
    assert(rounds.take(n + 1).drop_last() =~= rounds.take(n));
    let m1 = run(m0, rounds.take(n + 1));
    assert(m1.found =~= seq![g]);
    lemma_run_append(m0, rounds.take(n + 1), rounds.skip(n + 1));
    assert(rounds.take(n + 1) + rounds.skip(n + 1) =~= rounds);
    lemma_finished_stays(m1, rounds.skip(n + 1));
}

/// An accumulating search whose rounds all come before its deadline and none
/// of which fails holds exactly the gateways that resolved, in arrival order,
/// and is not over: before the deadline it receives again, waiting at most
/// the rest of the budget. The first deadline check at or after the deadline
/// ends it with that list.
pub proof fn lemma_accumulates_in_arrival_order(t: u64, rounds: Seq<Round>, end: u64)
    requires
        forall|i: int| 0 <= i < rounds.len() ==> rounds[i].elapsed < t && !(rounds[i].outcome is Failed),
        end >= t,
    ensures
        forall|e: u64| e < t ==> #[trigger] poll_action(run(start_multi(Some(t)), rounds), e)
            == Action::Receive(Some((t - e) as u64)),
        run(start_multi(Some(t)), rounds) == (SearchModel {
            deadline: Some(t),
            read_timeout: None,
            found: resolved(rounds),
            failure: None,
            finished: false,
        }),
        poll_action(run(start_multi(Some(t)), rounds), end) == Action::Finish,
        multi_result(poll_model(run(start_multi(Some(t)), rounds), end))
            == Some(Ok::<Seq<Gateway>, crate::gateway::SearchError>(resolved(rounds))),
    decreases rounds.len(),
{
    if rounds.len() > 0 {
        let prev = rounds.drop_last();
        assert forall|i: int| 0 <= i < prev.len() implies prev[i].elapsed < t && !(prev[i].outcome is Failed) by {
            assert(prev[i] == rounds[i]);
        }
        lemma_accumulates_in_arrival_order(t, prev, end);
        assert(rounds.last() == rounds[rounds.len() - 1]);
    }
}

/// Without a timeout, the accumulating search is the first-match search: the
/// same states after the same rounds, and as result either the same error
/// or a list of the one gateway.
pub proof fn lemma_untimed_multi_is_single(rounds: Seq<Round>)
    ensures
        run(start_multi(None), rounds) == run(start_single(None), rounds),
        multi_result(run(start_multi(None), rounds)) == match single_result(run(start_single(None), rounds)) {
            None => None,
            Some(Ok(g)) => Some(Ok(seq![g])),
            Some(Err(e)) => Some(Err(e)),
        },
{
    let m = run(start_single(None), rounds);
    lemma_run_wf(start_single(None), rounds);
    if m.finished && m.failure is None {
        assert(m.found =~= seq![m.found[0]]);
    }
}

/// Two accumulating searches with the same deadline, against responders that
/// resolve to the same gateways in any arrival order, return the same
/// gateways up to order.
pub proof fn lemma_arrival_order_irrelevant(
    t: u64,
    a: Seq<Round>,
    b: Seq<Round>,
    end_a: u64,
    end_b: u64,
)
    requires
        forall|i: int| 0 <= i < a.len() ==> a[i].elapsed < t && !(a[i].outcome is Failed),
        forall|i: int| 0 <= i < b.len() ==> b[i].elapsed < t && !(b[i].outcome is Failed),
        resolved(a).to_multiset() == resolved(b).to_multiset(),
        end_a >= t,
        end_b >= t,
    ensures
        multi_result(poll_model(run(start_multi(Some(t)), a), end_a)) matches Some(Ok(x))
            && multi_result(poll_model(run(start_multi(Some(t)), b), end_b)) matches Some(Ok(y))
            && x.to_multiset() == y.to_multiset(),
{
    lemma_accumulates_in_arrival_order(t, a, end_a);
    lemma_accumulates_in_arrival_order(t, b, end_b);
}

} // verus!
