//! Arbitration laws: properties that hold of every run of the arbiter,
//! stated over the same spec functions its contracts use and proved once
//! and for all.

use vstd::prelude::*;

use crate::alg::{spec_alg_from_user_int, CrcAlg, ReturnCode};
use crate::arbiter::{eligible, rejected_update, scan_post, set_waiting, submit_outcome, Delivery};
use crate::store::{
    has_id, lemma_id_index_unique, lemma_record_of, record_of, unique_ids, ClientId, App,
};

verus! {

/// For every recognized algorithm selector, submission succeeds exactly
/// when the client has a record with both a registered buffer and a
/// registered callback and no outstanding request; each failure carries
/// its specific code: a client without a record (so without buffer or
/// callback) or one missing either registration is rejected as invalid,
/// and a client whose request is still outstanding is busy.
pub proof fn lemma_submission_success_iff(recs: Seq<App>, id: ClientId, algorithm: int)
    requires
        unique_ids(recs),
        spec_alg_from_user_int(algorithm) is Some,
    ensures
        submit_outcome(recs, id, algorithm) == ReturnCode::Success <==> exists|i: int| #![auto]
            0 <= i < recs.len() && recs[i].id == id && recs[i].callback is Some
                && recs[i].buffer is Some && recs[i].waiting is None,
        !has_id(recs, id) ==> submit_outcome(recs, id, algorithm) == ReturnCode::InvalidArgument,
        has_id(recs, id) && record_of(recs, id).waiting is Some ==> submit_outcome(
            recs,
            id,
            algorithm,
        ) == ReturnCode::Busy,
        has_id(recs, id) && record_of(recs, id).waiting is None && !(record_of(recs, id).callback
            is Some && record_of(recs, id).buffer is Some) ==> submit_outcome(recs, id, algorithm)
            == ReturnCode::InvalidArgument,
{
    if submit_outcome(recs, id, algorithm) == ReturnCode::Success {
        let i = choose|i: int| #![auto] 0 <= i < recs.len() && recs[i].id == id;
        assert(record_of(recs, id) == recs[i]);
        assert(0 <= i < recs.len() && recs[i].id == id && recs[i].callback is Some
            && recs[i].buffer is Some && recs[i].waiting is None);
    }
    if exists|i: int| #![auto]
        0 <= i < recs.len() && recs[i].id == id && recs[i].callback is Some
            && recs[i].buffer is Some && recs[i].waiting is None {
        let i = choose|i: int| #![auto]
            0 <= i < recs.len() && recs[i].id == id && recs[i].callback is Some
                && recs[i].buffer is Some && recs[i].waiting is None;
        lemma_record_of(recs, i);
        assert(submit_outcome(recs, id, algorithm) == ReturnCode::Success);
    }
}

/// At most one client's request is in flight on the hardware at any
/// instant: under the arbiter's invariant, two records that the serving
/// marker both names are one and the same record. Every arbiter operation
/// keeps the invariant (each `ensures` its well-formedness), so this holds
/// across all interleavings of submissions and completions.
pub proof fn lemma_at_most_one_in_flight(
    recs: Seq<App>,
    serving: Option<ClientId>,
    i: int,
    j: int,
)
    requires
        unique_ids(recs),
        0 <= i < recs.len(),
        0 <= j < recs.len(),
        serving == Some(recs[i].id),
        serving == Some(recs[j].id),
    ensures
        i == j,
{
    lemma_id_index_unique(recs, i, j);
}

/// A rejected start never blocks the rest of one dispatch scan. If the
/// scan ended with no serving client, every eligible record — whatever
/// rejected records stood before it — was offered to the hardware and
/// rejected; if it ended serving some client, that client was eligible and
/// every eligible record ahead of it in store order was offered and
/// rejected, none skipped.
pub proof fn lemma_rejection_does_not_block(
    olds: Seq<App>,
    news: Seq<App>,
    dels: Seq<Delivery>,
    k: int,
    serving: Option<ClientId>,
)
    requires
        scan_post(olds, news, dels, k, serving),
    ensures
        serving is None ==> forall|i: int| #![auto]
            0 <= i < olds.len() && eligible(olds[i]) ==> news[i].waiting is None,
        serving matches Some(id) ==> exists|k2: int| #![auto]
            0 <= k2 < olds.len() && olds[k2].id == id && eligible(olds[k2]) && news[k2] == olds[k2]
                && (forall|i: int| #![auto]
                0 <= i < k2 && eligible(olds[i]) ==> news[i].waiting is None),
{
    if serving is None {
        assert(k == olds.len());
    } else {
        assert(0 <= k < olds.len() && olds[k].id == serving->0 && eligible(olds[k])
            && news[k] == olds[k] && (forall|i: int| #![auto]
            0 <= i < k && eligible(olds[i]) ==> news[i].waiting is None));
    }
}

/// After a completion notification for client `id` is routed and the
/// dispatch scan has run again: `id` has no pending request any more; if
/// the scan found no new request to start, every record that was eligible
/// after the routing was offered to the hardware and rejected; and if it
/// started one, the new serving client's record is eligible — its request
/// went to the hardware.
pub proof fn lemma_completion_resets(
    olds: Seq<App>,
    mid: Seq<App>,
    news: Seq<App>,
    dels: Seq<Delivery>,
    id: ClientId,
    k: int,
    serving: Option<ClientId>,
)
    requires
        unique_ids(olds),
        set_waiting(olds, mid, id, None::<CrcAlg>),
        scan_post(mid, news, dels, k, serving),
    ensures
        forall|i: int| #![auto] 0 <= i < news.len() && news[i].id == id ==> news[i].waiting is None,
        serving is None ==> forall|i: int| #![auto]
            0 <= i < mid.len() && eligible(mid[i]) ==> news[i].waiting is None,
        serving matches Some(id2) ==> exists|i: int| #![auto]
            0 <= i < news.len() && news[i].id == id2 && eligible(news[i]),
{
    assert forall|i: int|
        0 <= i < news.len() && news[i].id == id
        implies news[i].waiting is None by {
        assert(mid[i].id == olds[i].id);
        if eligible(mid[i]) && i < k {
            assert(rejected_update(mid[i], news[i]));
        } else {
            assert(news[i] == mid[i]);
        }
    }
    if serving is None {
        assert(k == mid.len());
    } else {
        assert(news[k] == mid[k]);
        assert(news[k].id == serving->0 && eligible(news[k]));
    }
}

} // verus!
