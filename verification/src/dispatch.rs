//! Unicast and broadcast dispatch, built on top of the registry.
//!
//! Dispatch is decided against a point-in-time snapshot of the registry:
//! the caller takes the plan under the registry lock, releases the lock, and
//! performs the writes outside it, reporting each write's outcome back to
//! `tally_broadcast`. Messages are fire-and-forget: a write failure is
//! surfaced to the caller, never retried, and never removes the session —
//! the read loop remains the sole owner of cleanup.

use vstd::prelude::*;

use crate::registry::Registry;
use crate::session::Session;

verus! {

/// Why a dispatch can fail before any write is attempted.
#[derive(Clone, Copy, PartialEq, Eq, Structural, Debug)]
pub enum DispatchError {
    /// The unicast target id is absent from the registry: the session is
    /// gone, so the send fails instead of blocking.
    SessionNotFound,
}

/// Addressing mode of a message.
#[derive(Clone, Copy, PartialEq, Eq, Structural, Debug)]
pub enum Address {
    /// To exactly one session id.
    Unicast(u128),
    /// To every currently registered session.
    Broadcast,
}

/// An addressed byte payload.
pub struct Message {
    pub address: Address,
    pub payload: Vec<u8>,
}

/// The writes one dispatch performs: the target ids, each registered at
/// snapshot time, and the payload to hand to each of their I/O handles.
#[derive(Debug)]
pub struct WritePlan {
    pub targets: Vec<u128>,
    pub payload: Vec<u8>,
}

/// Dispatch fails exactly when it is a unicast whose target is not
/// registered; a broadcast cannot fail as a whole.
pub open spec fn spec_dispatch_fails(dom: Set<u128>, address: Address) -> bool {
    address matches Address::Unicast(id) && !dom.contains(id)
}

/// Decide who a message goes to, against the current registry snapshot.
/// A unicast to an unknown id fails with `SessionNotFound`; a unicast to a
/// registered id targets exactly that session; a broadcast targets exactly
/// the registered sessions, each once.
pub fn plan_dispatch(registry: &Registry, message: Message) -> (r: Result<
    WritePlan,
    DispatchError,
>)
    requires
        registry.wf(),
    ensures
        r is Err <==> spec_dispatch_fails(registry@.dom(), message.address),
        r is Err ==> r == Err::<WritePlan, DispatchError>(DispatchError::SessionNotFound),
        r matches Ok(plan) ==> {
            &&& plan.payload == message.payload
            &&& plan.targets@.no_duplicates()
            &&& forall|k: int|
                0 <= k < plan.targets@.len() ==> registry@.dom().contains(
                    #[trigger] plan.targets@[k],
                )
            &&& match message.address {
                Address::Unicast(id) => plan.targets@ == seq![id],
                Address::Broadcast => plan.targets@ == registry.id_seq() && forall|x: u128|
                    plan.targets@.contains(x) <==> registry@.dom().contains(x),
            }
        },
{
    match message.address {
        Address::Unicast(id) => {
            if registry.contains(id) {
                let mut targets: Vec<u128> = Vec::new();
                targets.push(id);
                proof {
                    assert(targets@ =~= seq![id]);
                    assert(targets@.no_duplicates());
                    assert forall|k: int|
                        0 <= k < targets@.len() implies registry@.dom().contains(
                        #[trigger] targets@[k],
                    ) by {
                        assert(targets@[k] == id);
                    }
                }
                Ok(WritePlan { targets, payload: message.payload })
            } else {
                Err(DispatchError::SessionNotFound)
            }
        },
        Address::Broadcast => {
            let targets = registry.snapshot_ids();
            proof {
                registry.lemma_wf_facts();
                assert forall|k: int|
                    0 <= k < targets@.len() implies registry@.dom().contains(
                    #[trigger] targets@[k],
                ) by {
                    assert(targets@.contains(targets@[k]));
                }
            }
            Ok(WritePlan { targets, payload: message.payload })
        },
    }
}

/// The targets whose write came out as `flag`, in target order.
pub open spec fn outcome_targets(targets: Seq<u128>, ok: Seq<bool>, flag: bool) -> Seq<u128>
    recommends
        targets.len() == ok.len(),
    decreases targets.len(),
{
    if targets.len() == 0 {
        Seq::empty()
    } else {
        outcome_targets(targets.drop_last(), ok.drop_last(), flag) + if ok.last() == flag {
            seq![targets.last()]
        } else {
            Seq::empty()
        }
    }
}

/// Who received a broadcast and who did not. Delivery across sessions has
/// no guaranteed order beyond the snapshot's own order.
pub struct BroadcastReport {
    pub delivered: Vec<u128>,
    pub failed: Vec<u128>,
}

/// Fold the per-target write outcomes of one broadcast into a report:
/// `delivered` holds exactly the targets whose write succeeded, `failed`
/// exactly the others, both in target order.
#[verifier::loop_isolation(false)]
pub fn tally_broadcast(targets: &Vec<u128>, write_ok: &Vec<bool>) -> (report: BroadcastReport)
    requires
        targets@.len() == write_ok@.len(),
    ensures
        report.delivered@ == outcome_targets(targets@, write_ok@, true),
        report.failed@ == outcome_targets(targets@, write_ok@, false),
{
    let mut delivered: Vec<u128> = Vec::new();
    let mut failed: Vec<u128> = Vec::new();
    let n = targets.len();
    for i in 0..n
        invariant
            delivered@ == outcome_targets(targets@.take(i as int), write_ok@.take(i as int), true),
            failed@ == outcome_targets(targets@.take(i as int), write_ok@.take(i as int), false),
    {
        if write_ok[i] {
            delivered.push(targets[i]);
        } else {
            failed.push(targets[i]);
        }
        proof {
            let t1 = targets@.take(i + 1);
            let o1 = write_ok@.take(i + 1);
            assert(t1.drop_last() =~= targets@.take(i as int));
            assert(o1.drop_last() =~= write_ok@.take(i as int));
            assert(t1.last() == targets@[i as int]);
            assert(o1.last() == write_ok@[i as int]);
            assert(delivered@ =~= outcome_targets(t1, o1, true));
            assert(failed@ =~= outcome_targets(t1, o1, false));
        }
    }
    proof {
        assert(targets@.take(n as int) =~= targets@);
        assert(write_ok@.take(n as int) =~= write_ok@);
    }
    BroadcastReport { delivered, failed }
}

/// When every write succeeds, a broadcast delivers the payload to every
/// target, in order, and nothing fails.
pub proof fn lemma_broadcast_all_ok(targets: Seq<u128>, ok: Seq<bool>)
    requires
        targets.len() == ok.len(),
        forall|i: int| 0 <= i < ok.len() ==> ok[i] == true,
    ensures
        outcome_targets(targets, ok, true) =~= targets,
        outcome_targets(targets, ok, false) =~= Seq::<u128>::empty(),
    decreases targets.len(),
{
    if targets.len() > 0 {
        assert forall|i: int| 0 <= i < ok.drop_last().len() implies ok.drop_last()[i] == true by {
            assert(ok.drop_last()[i] == ok[i]);
        }
        lemma_broadcast_all_ok(targets.drop_last(), ok.drop_last());
        assert(ok.last() == true);
    }
}

/// Partial-failure isolation: when exactly one of the writes of a broadcast
/// fails, the payload is still delivered to all the other targets, in
/// order; only the failing target is missing from the delivered list.
pub proof fn lemma_broadcast_partial_failure(targets: Seq<u128>, ok: Seq<bool>, j: int)
    requires
        targets.len() == ok.len(),
        0 <= j < ok.len(),
        ok[j] == false,
        forall|i: int| 0 <= i < ok.len() && i != j ==> ok[i] == true,
    ensures
        outcome_targets(targets, ok, true) =~= targets.remove(j),
        outcome_targets(targets, ok, false) =~= seq![targets[j]],
        outcome_targets(targets, ok, true).len() == targets.len() - 1,
    decreases targets.len(),
{
    if j == targets.len() - 1 {
        assert forall|i: int| 0 <= i < ok.drop_last().len() implies ok.drop_last()[i] == true by {
            assert(ok.drop_last()[i] == ok[i]);
        }
        lemma_broadcast_all_ok(targets.drop_last(), ok.drop_last());
        assert(targets.remove(j) =~= targets.drop_last());
    } else {
        assert forall|i: int|
            0 <= i < ok.drop_last().len() && i != j implies ok.drop_last()[i] == true by {
            assert(ok.drop_last()[i] == ok[i]);
        }
        assert(ok.drop_last()[j] == ok[j]);
        lemma_broadcast_partial_failure(targets.drop_last(), ok.drop_last(), j);
        assert(ok.last() == true);
        assert(targets.remove(j).drop_last() =~= targets.drop_last().remove(j));
        assert(targets.remove(j) =~= targets.drop_last().remove(j).push(targets.last()));
    }
}

/// A unicast aimed at an id that was just removed — however recently —
/// fails with `SessionNotFound` instead of crashing or blocking: removal
/// takes the id out of the registry's map, and dispatch refuses exactly the
/// absent ids.
pub proof fn lemma_unicast_after_remove(m: Map<u128, Session>, id: u128)
    ensures
        spec_dispatch_fails(m.remove(id).dom(), Address::Unicast(id)),
{
}

} // verus!
