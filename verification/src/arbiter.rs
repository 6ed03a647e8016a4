//! The arbiter: request submission, the dispatch scan that starts the next
//! eligible request on the shared hardware unit, and the routing of the
//! hardware's asynchronous result back to the client that asked for it.

use vstd::prelude::*;

use crate::alg::{alg_from_user_int, spec_alg_from_user_int, CrcAlg, ReturnCode};
use crate::store::{
    has_id, lemma_id_index_unique, lemma_record_of, record_of, BufferHandle,
    CallbackHandle, ClientId, App, ClientStore,
};

verus! {

/// The hardware CRC engine, as the arbiter sees it. Implementations are
/// hardware drivers outside this crate; nothing is assumed of them — in
/// particular `compute` may accept or reject a request at will, and the
/// arbiter is verified for every answer the hardware can give.
pub trait CrcUnit {
    /// Asks the unit to start one computation over `buffer` with `alg`.
    /// The immediate status says whether the unit accepted (`Success`) or
    /// why it rejected; one asynchronous result notification is owed per
    /// accepted start. The unit borrows the buffer for the operation's
    /// duration; the record keeps owning it for bookkeeping.
    fn compute(&mut self, buffer: BufferHandle, alg: CrcAlg) -> ReturnCode;

    /// The unit's reported version word.
    fn get_version(&mut self) -> u32;

    /// Powers the unit down until it is next needed.
    fn disable(&mut self);
}

/// One callback invocation owed to a client: the three arguments
/// `(status, result value, 0)` for the client's registered callback.
#[derive(Clone, Copy, PartialEq, Eq, Structural, Debug)]
pub struct Delivery {
    /// The callback handle the client registered.
    pub callback: CallbackHandle,
    /// Success, or the specific failure (for example a start the hardware
    /// rejected).
    pub status: ReturnCode,
    /// The raw computed word; meaningful only on success.
    pub value: u32,
    /// The third callback argument, always zero.
    pub extra: u32,
}

/// A record the dispatch scan may start: a request is pending and a buffer
/// is present.
pub open spec fn eligible(r: App) -> bool {
    r.waiting is Some && r.buffer is Some
}

/// How a record looks after the hardware rejected its start: the pending
/// request is cleared, everything else is kept.
pub open spec fn rejected_update(o: App, n: App) -> bool {
    &&& n.id == o.id
    &&& n.callback == o.callback
    &&& n.buffer == o.buffer
    &&& n.waiting is None
}

/// The failure callback owed to a rejected record: the record's own
/// callback handle, the hardware's (non-`Success`) status, and zeroed
/// result arguments.
pub open spec fn reject_delivery_for(r: App, d: Delivery) -> bool {
    &&& r.callback == Some(d.callback)
    &&& !(d.status is Success)
    &&& d.value == 0
    &&& d.extra == 0
}

/// The failure deliveries one scan owes for a scanned prefix `olds` of
/// rejected records: one per eligible record with a callback, in store
/// order; records without a callback get none.
pub open spec fn deliveries_match(olds: Seq<App>, dels: Seq<Delivery>) -> bool
    decreases olds.len(),
{
    if olds.len() == 0 {
        dels.len() == 0
    } else if eligible(olds.last()) && olds.last().callback is Some {
        &&& dels.len() > 0
        &&& reject_delivery_for(olds.last(), dels.last())
        &&& deliveries_match(olds.drop_last(), dels.drop_last())
    } else {
        deliveries_match(olds.drop_last(), dels)
    }
}

/// What one dispatch scan did, starting from records `olds` with the
/// hardware idle. The first `k` records were scanned: every eligible one
/// among them was offered to the hardware, rejected, and cleared, with a
/// failure delivery owed to its callback; all other records are unchanged.
/// Either `k` is short of the end and the scan stopped there because the
/// hardware accepted record `k`'s request — which now occupies the unit,
/// its record untouched — or `k` is the end of the store and no request
/// was started.
pub open spec fn scan_post(
    olds: Seq<App>,
    news: Seq<App>,
    dels: Seq<Delivery>,
    k: int,
    serving: Option<ClientId>,
) -> bool {
    &&& 0 <= k <= olds.len()
    &&& news.len() == olds.len()
    &&& forall|i: int| #![auto]
        0 <= i < olds.len() && !(i < k && eligible(olds[i])) ==> news[i] == olds[i]
    &&& forall|i: int| #![auto]
        0 <= i < k && eligible(olds[i]) ==> rejected_update(olds[i], news[i])
    &&& deliveries_match(olds.take(k), dels)
    &&& if k < olds.len() {
            &&& eligible(olds[k])
            &&& serving == Some(olds[k].id)
        } else {
            serving is None
        }
}

/// The records after `id`'s pending request is set to `w`, and nothing
/// else changes. When no record belongs to `id`, nothing changes at all.
pub open spec fn set_waiting(
    olds: Seq<App>,
    news: Seq<App>,
    id: ClientId,
    w: Option<CrcAlg>,
) -> bool {
    &&& news.len() == olds.len()
    &&& forall|i: int| #![auto]
        0 <= i < olds.len() ==> news[i] == (if olds[i].id == id {
            (App {
                id: olds[i].id,
                callback: olds[i].callback,
                buffer: olds[i].buffer,
                waiting: w,
            })
        } else {
            olds[i]
        })
}

/// The completion delivery owed when the hardware's raw result `value` is
/// routed to client `id`: one success callback if `id`'s record exists and
/// has a callback registered, and none otherwise.
pub open spec fn completion_dels_ok(
    olds: Seq<App>,
    id: ClientId,
    value: u32,
    dels: Seq<Delivery>,
) -> bool {
    if exists|i: int| #![auto] 0 <= i < olds.len() && olds[i].id == id && olds[i].callback is Some {
        exists|i: int| #![auto]
            0 <= i < olds.len() && olds[i].id == id && olds[i].callback is Some
            && dels =~= seq![
                (Delivery {
                    callback: olds[i].callback->0,
                    status: ReturnCode::Success,
                    value: value,
                    extra: 0,
                }),
            ]
    } else {
        dels.len() == 0
    }
}

/// What submitting selector `algorithm` as client `id` returns, with the
/// preconditions checked in order: an unrecognized selector is rejected
/// first; then a client without a record — who can have registered neither
/// buffer nor callback — is rejected; a client whose previous request is
/// still outstanding is busy; a client missing a callback or a buffer is
/// rejected; otherwise the request is accepted.
pub open spec fn submit_outcome(recs: Seq<App>, id: ClientId, algorithm: int) -> ReturnCode {
    if spec_alg_from_user_int(algorithm) is None {
        ReturnCode::InvalidArgument
    } else if !has_id(recs, id) {
        ReturnCode::InvalidArgument
    } else if record_of(recs, id).waiting is Some {
        ReturnCode::Busy
    } else if record_of(recs, id).callback is Some && record_of(recs, id).buffer is Some {
        ReturnCode::Success
    } else {
        ReturnCode::InvalidArgument
    }
}

/// What an accepted submission followed by the dispatch scan did, from
/// records `olds` with serving marker `serving0` to records `news` with
/// serving marker `serving` and deliveries `dels`: first `id`'s pending
/// request became `alg` (state `mid`), then, with the hardware already
/// occupied, nothing else happened, or else one scan ran from `mid`.
pub open spec fn submit_scan_post(
    olds: Seq<App>,
    news: Seq<App>,
    dels: Seq<Delivery>,
    serving0: Option<ClientId>,
    serving: Option<ClientId>,
    id: ClientId,
    alg: CrcAlg,
    mid: Seq<App>,
    k: int,
) -> bool {
    &&& set_waiting(olds, mid, id, Some(alg))
    &&& if serving0 is Some {
        &&& serving == serving0
        &&& news =~= mid
        &&& dels.len() == 0
    } else {
        scan_post(mid, news, dels, k, serving)
    }
}

/// The arbiter. It owns the hardware unit, the client record store, and
/// the marker naming the client whose request currently occupies the
/// hardware; `None` means the unit is idle.
pub struct Crc<C: CrcUnit> {
    /// The hardware capability.
    pub crc_unit: C,
    /// The client records, in registration order.
    pub apps: ClientStore,
    /// Whose request is on the hardware, if any.
    pub serving_app: Option<ClientId>,
}

impl<C: CrcUnit> Crc<C> {
    /// Well-formedness, established by `new` and preserved by every
    /// operation: the record store is well-formed, so at most one record
    /// can carry the identity that `serving_app` names.
    pub open spec fn wf(self) -> bool {
        self.apps.wf()
    }

    /// Creates an arbiter around a hardware unit and an (ordinarily empty)
    /// record store; the hardware starts idle.
    pub fn new(crc_unit: C, apps: ClientStore) -> (c: Crc<C>)
        requires
            apps.wf(),
        ensures
            c.wf(),
            c.crc_unit == crc_unit,
            c.apps == apps,
            c.serving_app is None,
    {
        Crc { crc_unit, apps, serving_app: None }
    }

    /// The dispatch scan. With the hardware already occupied it is a no-op.
    /// Otherwise it walks the records in store order and starts the first
    /// eligible request the hardware accepts; a rejected request gets a
    /// failure callback, loses its pending state, and does not stop the
    /// scan. If nothing was started the unit is powered down. The returned
    /// deliveries are the callback invocations owed, in order.
    pub fn serve_waiting_apps(&mut self) -> (dels: Vec<Delivery>)
        requires
            old(self).wf(),
        ensures
            final(self).wf(),
            final(self).apps.capacity == old(self).apps.capacity,
            old(self).serving_app is Some ==> *final(self) == *old(self) && dels@.len() == 0,
            old(self).serving_app is None ==> exists|k: int| #![auto]
                scan_post(
                    old(self).apps.records@,
                    final(self).apps.records@,
                    dels@,
                    k,
                    final(self).serving_app,
                ),
    {
        let mut dels: Vec<Delivery> = Vec::new();
        if self.serving_app.is_some() {
            return dels;
        }
        let ghost olds = self.apps.records@;
        let n: usize = self.apps.records.len();
        let mut i: usize = 0;
        let mut found = false;
        while i < n
            invariant_except_break
                !found,
                i <= n,
                self.serving_app is None,
                deliveries_match(olds.take(i as int), dels@),
            invariant
                old(self).wf(),
                n == olds.len(),
                olds == old(self).apps.records@,
                self.apps.records@.len() == olds.len(),
                self.apps.capacity == old(self).apps.capacity,
                forall|j: int| #![auto] i <= j < olds.len() ==> self.apps.records@[j] == olds[j],
                forall|j: int| #![auto]
                    0 <= j < i && eligible(olds[j]) ==> rejected_update(olds[j], self.apps.records@[j]),
                forall|j: int| #![auto]
                    0 <= j < i && !eligible(olds[j]) ==> self.apps.records@[j] == olds[j],
            ensures
                found ==> i < n
                    && scan_post(olds, self.apps.records@, dels@, i as int, self.serving_app),
                !found ==> scan_post(
                    olds,
                    self.apps.records@,
                    dels@,
                    olds.len() as int,
                    self.serving_app,
                ),
            decreases n - i,
        {
            let r = self.apps.records[i];
            proof {
                assert(r == olds[i as int]);
            }
            if r.waiting.is_some() && r.buffer.is_some() {
                let alg = r.waiting.unwrap();
                let buffer = r.buffer.unwrap();
                let status = self.crc_unit.compute(buffer, alg);
                if status == ReturnCode::Success {
                    // The unit is now computing for this client; its record
                    // keeps both the buffer and the pending request until
                    // the result arrives.
                    self.serving_app = Some(r.id);
                    found = true;
                    proof {
                        assert(scan_post(olds, self.apps.records@, dels@, i as int, self.serving_app));
                    }
                    break;
                } else {
                    // The request failed at the hardware: tell the client
                    // (if it can be told), clear its pending state, and
                    // keep scanning.
                    let ghost dels_before = dels@;
                    if let Some(cb) = r.callback {
                        dels.push(Delivery { callback: cb, status: status, value: 0, extra: 0 });
                    }
                    self.apps.records[i] = App {
                        id: r.id,
                        callback: r.callback,
                        buffer: r.buffer,
                        waiting: None,
                    };
                    proof {
                        let t = olds.take(i as int + 1);
                        assert(t.drop_last() =~= olds.take(i as int));
                        assert(t.last() == olds[i as int]);
                        if r.callback is Some {
                            assert(dels@.drop_last() =~= dels_before);
                            assert(reject_delivery_for(olds[i as int], dels@.last()));
                        }
                        assert(deliveries_match(t, dels@));
                    }
                }
            } else {
                proof {
                    let t = olds.take(i as int + 1);
                    assert(t.drop_last() =~= olds.take(i as int));
                    assert(t.last() == olds[i as int]);
                    assert(deliveries_match(t, dels@));
                }
            }
            i = i + 1;
        }
        if !found {
            // Nothing to run: the unit must not stay powered with no
            // outstanding work.
            self.crc_unit.disable();
            proof {
                assert(olds.take(olds.len() as int) =~= olds);
            }
        }
        proof {
            let news = self.apps.records@;
            assert forall|a: int, b: int|
                0 <= a < news.len() && 0 <= b < news.len() && a != b
                implies news[a].id != news[b].id by {
                assert(news[a].id == olds[a].id);
                assert(news[b].id == olds[b].id);
            }
        }
        dels
    }

    /// The buffer-registration entry point (syscall-shaped). Slot `0`
    /// attaches `slice` as the client's shared buffer, overwriting any
    /// previous one and creating the client's record if it is new; any
    /// other slot is not supported. Only the addressed client's record can
    /// change.
    pub fn allow(&mut self, appid: ClientId, allow_num: usize, slice: BufferHandle) -> (r: ReturnCode)
        requires
            old(self).wf(),
        ensures
            final(self).wf(),
            final(self).apps.capacity == old(self).apps.capacity,
            final(self).serving_app == old(self).serving_app,
            final(self).crc_unit == old(self).crc_unit,
            allow_num != 0 ==> r == ReturnCode::NotSupported && *final(self) == *old(self),
            allow_num == 0 ==> {
                let olds = old(self).apps.records@;
                let news = final(self).apps.records@;
                if has_id(olds, appid) {
                    &&& r == ReturnCode::Success
                    &&& exists|i: int| #![auto]
                        0 <= i < olds.len() && olds[i].id == appid && news =~= olds.update(
                            i,
                            (App {
                                id: olds[i].id,
                                callback: olds[i].callback,
                                buffer: Some(slice),
                                waiting: olds[i].waiting,
                            }),
                        )
                } else if olds.len() < old(self).apps.capacity {
                    &&& r == ReturnCode::Success
                    &&& news =~= olds.push(
                        (App {
                            id: appid,
                            callback: None,
                            buffer: Some(slice),
                            waiting: None,
                        }),
                    )
                } else {
                    &&& r == ReturnCode::ResourceExhausted
                    &&& *final(self) == *old(self)
                }
            },
    {
        if allow_num != 0 {
            return ReturnCode::NotSupported;
        }
        let ghost olds = self.apps.records@;
        match self.apps.enter_or_create(appid) {
            Ok(i) => {
                let rec = self.apps.records[i];
                let ghost before = self.apps.records@;
                self.apps.records[i] = App {
                    id: rec.id,
                    callback: rec.callback,
                    buffer: Some(slice),
                    waiting: rec.waiting,
                };
                proof {
                    let news = self.apps.records@;
                    assert forall|a: int, b: int|
                        0 <= a < news.len() && 0 <= b < news.len() && a != b
                        implies news[a].id != news[b].id by {
                        assert(news[a].id == before[a].id);
                        assert(news[b].id == before[b].id);
                    }
                    if !has_id(olds, appid) {
                        assert(news =~= olds.push(
                            (App {
                                id: appid,
                                callback: None,
                                buffer: Some(slice),
                                waiting: None,
                            }),
                        ));
                    }
                }
                ReturnCode::Success
            },
            Err(e) => e.to_return_code(),
        }
    }

    /// The callback-registration entry point (syscall-shaped).
    /// Subscription number `0` attaches `callback` as the client's result
    /// callback, overwriting any previous one and creating the client's
    /// record if it is new; any other number is not supported. Only the
    /// addressed client's record can change.
    pub fn subscribe(
        &mut self,
        appid: ClientId,
        subscribe_num: usize,
        callback: CallbackHandle,
    ) -> (r: ReturnCode)
        requires
            old(self).wf(),
        ensures
            final(self).wf(),
            final(self).apps.capacity == old(self).apps.capacity,
            final(self).serving_app == old(self).serving_app,
            final(self).crc_unit == old(self).crc_unit,
            subscribe_num != 0 ==> r == ReturnCode::NotSupported && *final(self) == *old(self),
            subscribe_num == 0 ==> {
                let olds = old(self).apps.records@;
                let news = final(self).apps.records@;
                if has_id(olds, appid) {
                    &&& r == ReturnCode::Success
                    &&& exists|i: int| #![auto]
                        0 <= i < olds.len() && olds[i].id == appid && news =~= olds.update(
                            i,
                            (App {
                                id: olds[i].id,
                                callback: Some(callback),
                                buffer: olds[i].buffer,
                                waiting: olds[i].waiting,
                            }),
                        )
                } else if olds.len() < old(self).apps.capacity {
                    &&& r == ReturnCode::Success
                    &&& news =~= olds.push(
                        (App {
                            id: appid,
                            callback: Some(callback),
                            buffer: None,
                            waiting: None,
                        }),
                    )
                } else {
                    &&& r == ReturnCode::ResourceExhausted
                    &&& *final(self) == *old(self)
                }
            },
    {
        if subscribe_num != 0 {
            return ReturnCode::NotSupported;
        }
        let ghost olds = self.apps.records@;
        match self.apps.enter_or_create(appid) {
            Ok(i) => {
                let rec = self.apps.records[i];
                let ghost before = self.apps.records@;
                self.apps.records[i] = App {
                    id: rec.id,
                    callback: Some(callback),
                    buffer: rec.buffer,
                    waiting: rec.waiting,
                };
                proof {
                    let news = self.apps.records@;
                    assert forall|a: int, b: int|
                        0 <= a < news.len() && 0 <= b < news.len() && a != b
                        implies news[a].id != news[b].id by {
                        assert(news[a].id == before[a].id);
                        assert(news[b].id == before[b].id);
                    }
                    if !has_id(olds, appid) {
                        assert(news =~= olds.push(
                            (App {
                                id: appid,
                                callback: Some(callback),
                                buffer: None,
                                waiting: None,
                            }),
                        ));
                    }
                }
                ReturnCode::Success
            },
            Err(e) => e.to_return_code(),
        }
    }

    /// The command entry point (syscall-shaped). Command `0` probes for
    /// presence; command `1` reports the hardware's version word; command
    /// `2` submits a computation request with `algorithm` as the selector,
    /// atomically — an error changes nothing — and on acceptance runs the
    /// dispatch scan; every other command is not supported. The returned
    /// deliveries are the callback invocations the scan owes.
    pub fn command(&mut self, command_num: usize, algorithm: usize, appid: ClientId) -> (r: (
        ReturnCode,
        Vec<Delivery>,
    ))
        requires
            old(self).wf(),
        ensures
            final(self).wf(),
            final(self).apps.capacity == old(self).apps.capacity,
            command_num == 0 ==> r.0 == ReturnCode::Success && *final(self) == *old(self)
                && r.1@.len() == 0,
            command_num == 1 ==> r.0 is SuccessWithValue && final(self).apps == old(self).apps
                && final(self).serving_app == old(self).serving_app && r.1@.len() == 0,
            command_num == 2 ==> {
                let outcome = submit_outcome(old(self).apps.records@, appid, algorithm as int);
                &&& r.0 == outcome
                &&& outcome != ReturnCode::Success ==> *final(self) == *old(self) && r.1@.len() == 0
                &&& outcome == ReturnCode::Success ==> exists|mid: Seq<App>, k: int|
                    #![auto]
                    submit_scan_post(
                        old(self).apps.records@,
                        final(self).apps.records@,
                        r.1@,
                        old(self).serving_app,
                        final(self).serving_app,
                        appid,
                        spec_alg_from_user_int(algorithm as int)->0,
                        mid,
                        k,
                    )
            },
            command_num > 2 ==> r.0 == ReturnCode::NotSupported && *final(self) == *old(self)
                && r.1@.len() == 0,
    {
        if command_num == 0 {
            // The driver is present.
            return (ReturnCode::Success, Vec::new());
        }
        if command_num == 1 {
            let v = self.crc_unit.get_version();
            return (ReturnCode::SuccessWithValue { value: v }, Vec::new());
        }
        if command_num != 2 {
            return (ReturnCode::NotSupported, Vec::new());
        }
        let ghost olds = self.apps.records@;
        let oa = alg_from_user_int(algorithm);
        if oa.is_none() {
            return (ReturnCode::InvalidArgument, Vec::new());
        }
        let alg = oa.unwrap();
        let looked = self.apps.lookup(appid);
        if looked.is_err() {
            return (ReturnCode::InvalidArgument, Vec::new());
        }
        let i = match looked {
            Ok(i) => i,
            Err(_) => 0,
        };
        let rec = self.apps.records[i];
        proof {
            lemma_record_of(olds, i as int);
        }
        if rec.waiting.is_some() {
            // One outstanding request per client.
            return (ReturnCode::Busy, Vec::new());
        }
        if !(rec.callback.is_some() && rec.buffer.is_some()) {
            return (ReturnCode::InvalidArgument, Vec::new());
        }
        self.apps.records[i] = App {
            id: rec.id,
            callback: rec.callback,
            buffer: rec.buffer,
            waiting: Some(alg),
        };
        proof {
            let mid = self.apps.records@;
            assert forall|a: int, b: int|
                0 <= a < mid.len() && 0 <= b < mid.len() && a != b
                implies mid[a].id != mid[b].id by {
                assert(mid[a].id == olds[a].id);
                assert(mid[b].id == olds[b].id);
            }
            assert forall|j: int| 0 <= j < olds.len() implies mid[j] == (if olds[j].id == appid {
                (App {
                    id: olds[j].id,
                    callback: olds[j].callback,
                    buffer: olds[j].buffer,
                    waiting: Some(alg),
                })
            } else {
                olds[j]
            }) by {
                if j != i as int && olds[j].id == appid {
                    lemma_id_index_unique(olds, i as int, j);
                }
            }
        }
        let ghost mid = self.apps.records@;
        let ds = self.serve_waiting_apps();
        let res = (ReturnCode::Success, ds);
        proof {
            assert(alg == spec_alg_from_user_int(algorithm as int)->0);
            assert(set_waiting(olds, mid, appid, Some(alg)));
            if old(self).serving_app is None {
                let k = choose|k: int| #![auto]
                    scan_post(mid, self.apps.records@, res.1@, k, self.serving_app);
                assert(scan_post(mid, self.apps.records@, res.1@, k, self.serving_app));
                assert(submit_scan_post(
                    olds,
                    self.apps.records@,
                    res.1@,
                    old(self).serving_app,
                    self.serving_app,
                    appid,
                    spec_alg_from_user_int(algorithm as int)->0,
                    mid,
                    k,
                ));
            } else {
                assert(self.apps.records@ =~= mid);
                assert(submit_scan_post(
                    olds,
                    self.apps.records@,
                    res.1@,
                    old(self).serving_app,
                    self.serving_app,
                    appid,
                    spec_alg_from_user_int(algorithm as int)->0,
                    mid,
                    0,
                ));
            }
            assert(exists|m: Seq<App>, k: int| #![auto]
                submit_scan_post(
                    olds,
                    self.apps.records@,
                    res.1@,
                    old(self).serving_app,
                    self.serving_app,
                    appid,
                    spec_alg_from_user_int(algorithm as int)->0,
                    m,
                    k,
                ));
        }
        res
    }

    /// Routes the hardware's asynchronous result. The client whose request
    /// occupies the unit gets the raw value through its callback (if its
    /// record still exists and has one — a vanished client is absorbed
    /// silently), its pending state is cleared, the unit is freed, and the
    /// dispatch scan runs again for the next eligible request. An orphaned
    /// notification — arriving with the unit idle — changes nothing.
    pub fn receive_result(&mut self, result: u32) -> (dels: Vec<Delivery>)
        requires
            old(self).wf(),
        ensures
            final(self).wf(),
            final(self).apps.capacity == old(self).apps.capacity,
            old(self).serving_app is None ==> *final(self) == *old(self) && dels@.len() == 0,
            old(self).serving_app matches Some(id) ==> exists|mid: Seq<App>, j: int, k: int|
                #![auto]
                {
                    &&& 0 <= j <= dels@.len()
                    &&& set_waiting(old(self).apps.records@, mid, id, None::<CrcAlg>)
                    &&& completion_dels_ok(old(self).apps.records@, id, result, dels@.take(j))
                    &&& scan_post(
                        mid,
                        final(self).apps.records@,
                        dels@.skip(j),
                        k,
                        final(self).serving_app,
                    )
                },
    {
        if self.serving_app.is_none() {
            // Orphaned: the owning client was already cleared by some
            // other path. Discard without touching anything.
            return Vec::new();
        }
        let id = self.serving_app.unwrap();
        let ghost olds = self.apps.records@;
        let mut dels: Vec<Delivery> = Vec::new();
        match self.apps.lookup(id) {
            Ok(i) => {
                let rec = self.apps.records[i];
                if let Some(cb) = rec.callback {
                    dels.push(Delivery {
                        callback: cb,
                        status: ReturnCode::Success,
                        value: result,
                        extra: 0,
                    });
                }
                self.apps.records[i] = App {
                    id: rec.id,
                    callback: rec.callback,
                    buffer: rec.buffer,
                    waiting: None,
                };
                proof {
                    let mid = self.apps.records@;
                    assert forall|a: int, b: int|
                        0 <= a < mid.len() && 0 <= b < mid.len() && a != b
                        implies mid[a].id != mid[b].id by {
                        assert(mid[a].id == olds[a].id);
                        assert(mid[b].id == olds[b].id);
                    }
                    assert forall|j: int| 0 <= j < olds.len() implies mid[j] == (
                    if olds[j].id == id {
                        (App {
                            id: olds[j].id,
                            callback: olds[j].callback,
                            buffer: olds[j].buffer,
                            waiting: None::<CrcAlg>,
                        })
                    } else {
                        olds[j]
                    }) by {
                        if j != i as int && olds[j].id == id {
                            lemma_id_index_unique(olds, i as int, j);
                        }
                    }
                    if rec.callback is Some {
                        assert(completion_dels_ok(olds, id, result, dels@));
                    } else {
                        assert forall|j: int|
                            0 <= j < olds.len() && olds[j].id == id
                            implies !(olds[j].callback is Some) by {
                            lemma_id_index_unique(olds, i as int, j);
                        }
                        assert(completion_dels_ok(olds, id, result, dels@));
                    }
                }
            },
            Err(_) => {
                proof {
                    assert forall|j: int| 0 <= j < olds.len() implies olds[j].id != id by {
                        if olds[j].id == id {
                            assert(has_id(olds, id));
                        }
                    }
                    assert(set_waiting(olds, olds, id, None::<CrcAlg>));
                    assert(completion_dels_ok(olds, id, result, dels@));
                }
            },
        }
        self.serving_app = None;
        let ghost mid = self.apps.records@;
        let ghost jlen = dels@.len() as int;
        let ghost cdels = dels@;
        let mut more = self.serve_waiting_apps();
        let ghost sdels = more@;
        dels.append(&mut more);
        proof {
            assert(dels@.take(jlen) =~= cdels);
            assert(dels@.skip(jlen) =~= sdels);
            let k = choose|k: int| #![auto]
                scan_post(mid, self.apps.records@, sdels, k, self.serving_app);
            assert(scan_post(mid, self.apps.records@, dels@.skip(jlen), k, self.serving_app));
        }
        dels
    }
}

} // verus!
