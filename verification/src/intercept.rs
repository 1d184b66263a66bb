//! Interception of forwarded htlcs: what interceptors are told, and what becomes of their replies.
use crate::channel::{CriticalError, ForwardingError};
use crate::node::ShortChannelID;
use crate::primitives::{PaymentHash, PublicKey};
use crate::text::{decimal, push_decimal, text};
use std::collections::HashMap;
use vstd::prelude::*;

verus! {

/// Custom records that can be attached by an interceptor to intercepted HTLCs.
pub type CustomRecords = HashMap<u64, Vec<u8>>;

/// The contents of custom records.
pub type Records = Map<u64, Seq<u8>>;

/// The contents of custom records.
pub open spec fn records(r: CustomRecords) -> Records {
    r@.map_values(|v: Vec<u8>| v@)
}

/// Refers to an htlc by the channel that it was delivered on and its index there.
#[derive(Debug, Clone, Copy, PartialEq, Eq, Structural)]
pub struct HtlcRef {
    pub channel_id: ShortChannelID,
    pub index: u64,
}

/// The contents of an [`InterceptRequest`].
pub struct RequestView {
    pub forwarding_node: PublicKey,
    pub payment_hash: PaymentHash,
    pub incoming_htlc: HtlcRef,
    pub incoming_custom_records: Records,
    pub outgoing_channel_id: Option<ShortChannelID>,
    pub incoming_amount_msat: int,
    pub outgoing_amount_msat: int,
    pub incoming_expiry_height: int,
    pub outgoing_expiry_height: int,
}

/// Request sent to an external interceptor to provide feedback on the resolution of the HTLC.
#[derive(Debug)]
pub struct InterceptRequest {
    /// The node that is forwarding this htlc.
    pub forwarding_node: PublicKey,
    /// The payment hash for the htlc (note that this is not unique).
    pub payment_hash: PaymentHash,
    /// Unique identifier for the htlc that references the channel this htlc was delivered on.
    pub incoming_htlc: HtlcRef,
    /// Custom records provided by the incoming htlc.
    pub incoming_custom_records: CustomRecords,
    /// The short channel id for the outgoing channel that this htlc should be forwarded over. It
    /// will be None if intercepting node is the receiver of the payment.
    pub outgoing_channel_id: Option<ShortChannelID>,
    /// The amount that was forwarded over the incoming_channel_id.
    pub incoming_amount_msat: u64,
    /// The amount that will be forwarded over to outgoing_channel_id.
    pub outgoing_amount_msat: u64,
    /// The expiry height on the incoming htlc.
    pub incoming_expiry_height: u32,
    /// The expiry height on the outgoing htlc.
    pub outgoing_expiry_height: u32,
}

impl View for InterceptRequest {
    type V = RequestView;

    open spec fn view(&self) -> RequestView {
        RequestView {
            forwarding_node: self.forwarding_node,
            payment_hash: self.payment_hash,
            incoming_htlc: self.incoming_htlc,
            incoming_custom_records: records(self.incoming_custom_records),
            outgoing_channel_id: self.outgoing_channel_id,
            incoming_amount_msat: self.incoming_amount_msat as int,
            outgoing_amount_msat: self.outgoing_amount_msat as int,
            incoming_expiry_height: self.incoming_expiry_height as int,
            outgoing_expiry_height: self.outgoing_expiry_height as int,
        }
    }
}

impl InterceptRequest {
    /// The text of the request.
    pub open spec fn text(&self) -> Seq<char> {
        "htlc forwarded by "@ + self.forwarding_node.text() + " over "@ + self.incoming_htlc.channel_id.text() + ":"@
            + decimal(self.incoming_htlc.index as nat) + " -> "@ + (match self.outgoing_channel_id {
            Some(c) => "-> "@ + c.text(),
            None => "receive"@,
        }) + " forward amounts "@ + decimal(self.incoming_amount_msat as nat) + " "@ + decimal(
            self.outgoing_amount_msat as nat,
        )
    }

    /// The text of the request.
    pub fn to_text(&self) -> (s: String)
        ensures
            s@ == self.text(),
    {
        let mut s = text("htlc forwarded by ");
        s.append(self.forwarding_node.to_text().as_str());
        s.append(" over ");
        s.append(self.incoming_htlc.channel_id.to_text().as_str());
        s.append(":");
        push_decimal(&mut s, self.incoming_htlc.index);
        s.append(" -> ");
        let target = match self.outgoing_channel_id {
            Some(c) => {
                let mut t = text("-> ");
                t.append(c.to_text().as_str());
                t
            },
            None => text("receive"),
        };
        s.append(target.as_str());
        s.append(" forward amounts ");
        push_decimal(&mut s, self.incoming_amount_msat);
        s.append(" ");
        push_decimal(&mut s, self.outgoing_amount_msat);
        assert(s@ =~= self.text());
        s
    }
}

/// Notification sent to an external interceptor notifying that a htlc that was previously intercepted has been
/// resolved.
#[derive(Debug, Clone, Copy)]
pub struct InterceptResolution {
    /// The node that is forwarding this HTLC.
    pub forwarding_node: PublicKey,
    /// Unique identifier for the incoming htlc.
    pub incoming_htlc: HtlcRef,
    /// The short channel id for the outgoing channel that this htlc should be forwarded over, None if notifying the
    /// receiving node.
    pub outgoing_channel_id: Option<ShortChannelID>,
    /// True if the htlc was settled successfully.
    pub success: bool,
}

/// The reply of an interceptor to a request: records to attach to the htlc, an instruction to fail it, or an error that
/// ends the simulation.
pub type InterceptReply = Result<Result<CustomRecords, ForwardingError>, CriticalError>;

/// Whether two sets of records give a key different values.
pub open spec fn conflict(a: Records, b: Records, k: u64) -> bool {
    a.dom().contains(k) && b.dom().contains(k) && a[k] != b[k]
}

/// The lowest key that two sets of records give different values, if there is one.
pub open spec fn first_conflict(a: Records, b: Records) -> Option<u64> {
    if exists|k: u64| conflict(a, b, k) {
        Some(
            choose|k: u64|
                conflict(a, b, k) && forall|j: u64| #[trigger] conflict(a, b, j) ==> k <= j,
        )
    } else {
        None
    }
}

proof fn lemma_first_conflict(a: Records, b: Records, k: u64)
    requires
        conflict(a, b, k),
        forall|j: u64| #[trigger] conflict(a, b, j) ==> k <= j,
    ensures
        first_conflict(a, b) == Some(k),
{
    let c = choose|c: u64| conflict(a, b, c) && forall|j: u64| #[trigger] conflict(a, b, j) ==> c <= j;
    assert(conflict(a, b, c) && forall|j: u64| #[trigger] conflict(a, b, j) ==> c <= j);
    assert(k <= c && c <= k);
}

/// The records of two sets that do not conflict.
pub open spec fn merged(a: Records, b: Records) -> Records {
    a.union_prefer_right(b)
}

/// What the replies of interceptors add up to, in the order in which they came in: the records that they attach and
/// the failure that the last failing interceptor gave. A critical error ends the collection, and so do records that
/// conflict with those attached before.
pub open spec fn collected(replies: Seq<InterceptReply>) -> Result<(Records, Option<ForwardingError>), CriticalError>
    decreases replies.len(),
{
    if replies.len() == 0 {
        Ok((Map::empty(), None))
    } else {
        match collected(replies.drop_last()) {
            Err(e) => Err(e),
            Ok((attached, failure)) => match replies.last() {
                Ok(Ok(r)) => match first_conflict(attached, records(r)) {
                    Some(k) => Err(CriticalError::DuplicateCustomRecord(k)),
                    None => Ok((merged(attached, records(r)), failure)),
                },
                Ok(Err(e)) => Ok((attached, Some(e))),
                Err(e) => Err(e),
            },
        }
    }
}

/// The outcome of an interception: without interceptors the incoming records are passed on, otherwise the records
/// that the interceptors attached, unless one of them failed the htlc.
pub open spec fn intercept_outcome(incoming: Records, replies: Seq<InterceptReply>) -> Result<
    Result<Records, ForwardingError>,
    CriticalError,
> {
    if replies.len() == 0 {
        Ok(Ok(incoming))
    } else {
        match collected(replies) {
            Err(e) => Err(e),
            Ok((_, Some(e))) => Ok(Err(e)),
            Ok((attached, None)) => Ok(Ok(attached)),
        }
    }
}

proof fn lemma_records_insert(m: Map<u64, Vec<u8>>, k: u64, v: Vec<u8>)
    ensures
        m.insert(k, v).map_values(|v: Vec<u8>| v@) == m.map_values(|v: Vec<u8>| v@).insert(k, v@),
{
    assert(m.insert(k, v).map_values(|v: Vec<u8>| v@) =~= m.map_values(|v: Vec<u8>| v@).insert(k, v@));
}

/// Whether two values are the same bytes.
fn same_bytes(a: &Vec<u8>, b: &Vec<u8>) -> (r: bool)
    ensures
        r == (a@ == b@),
{
    if a.len() != b.len() {
        return false;
    }
    let mut i: usize = 0;
    while i < a.len()
        invariant
            i <= a@.len(),
            a@.len() == b@.len(),
            forall|j: int| 0 <= j < i ==> a@[j] == b@[j],
        decreases a@.len() - i,
    {
        if a[i] != b[i] {
            return false;
        }
        i += 1;
    }
    assert(a@ =~= b@);
    true
}

/// Copies custom records.
pub fn copy_records(r: &CustomRecords) -> (c: CustomRecords)
    ensures
        records(c) == records(*r),
{
    r.clone()
}

/// Collects the replies of the interceptors of an htlc as they come in.
#[derive(Debug)]
pub struct InterceptCollector {
    attached: CustomRecords,
    failure: Option<ForwardingError>,
}

impl InterceptCollector {
    /// The records attached so far.
    pub closed spec fn attached(&self) -> Records {
        records(self.attached)
    }

    /// The failure that the last failing interceptor gave.
    pub closed spec fn failure(&self) -> Option<ForwardingError> {
        self.failure
    }

    /// Creates a collector that has seen no replies.
    pub fn new() -> (c: Self)
        ensures
            c.attached() == Records::empty(),
            c.failure() is None,
    {
        let c = InterceptCollector { attached: HashMap::new(), failure: None };
        assert(records(c.attached) =~= Records::empty());
        c
    }

    /// Merges the records of an interceptor that let the htlc pass, failing on the lowest key that has different
    /// values.
    fn merge(&mut self, r: &CustomRecords) -> (res: Result<(), CriticalError>)
        ensures
            final(self).failure == old(self).failure,
            match first_conflict(records(old(self).attached), records(*r)) {
                Some(k) => res == Err::<(), CriticalError>(CriticalError::DuplicateCustomRecord(k)) && records(
                    final(self).attached,
                ) == records(old(self).attached),
                None => res is Ok && records(final(self).attached) == merged(
                    records(old(self).attached),
                    records(*r),
                ),
            },
    {
        broadcast use vstd::std_specs::hash::group_hash_axioms;

        let ghost before = records(self.attached);
        let ghost new = records(*r);
        let mut lowest: Option<u64> = None;
        let ghost all = vstd::std_specs::iter::IteratorSpec::remaining(&r.iter());
        for (k, v) in it: r.iter()
            invariant
                new == records(*r),
                before == records(self.attached),
                it.seq() == all,
                all.len() == r@.dom().len(),
                forall|i: int|
                    0 <= i < all.len() ==> r@.contains_key(*(#[trigger] all[i]).0) && r@[*all[i].0] == *all[i].1,
                forall|k: u64| #[trigger] r@.contains_key(k) ==> all.contains((&k, &r@[k])),
                match lowest {
                    Some(c) => conflict(before, new, c) && forall|i: int|
                        0 <= i < it.index() && conflict(before, new, *(#[trigger] all[i]).0) ==> c <= *all[i].0,
                    None => forall|i: int|
                        0 <= i < it.index() ==> !conflict(before, new, *(#[trigger] all[i]).0),
                },
        {
            let ghost i = it.index() as int;
            assert(all[i] == (k, v));
            match self.attached.get(k) {
                Some(existing) => {
                    if !same_bytes(existing, v) {
                        assert(conflict(before, new, *k));
                        lowest = match lowest {
                            Some(c) => if *k < c {
                                Some(*k)
                            } else {
                                Some(c)
                            },
                            None => Some(*k),
                        };
                    } else {
                        assert(!conflict(before, new, *k));
                    }
                },
                None => {
                    assert(!conflict(before, new, *k));
                },
            }
        }
        if let Some(k) = lowest {
            proof {
                assert forall|j: u64| #[trigger] conflict(before, new, j) implies k <= j by {
                    assert(r@.contains_key(j));
                    assert(all.contains((&j, &r@[j])));
                    let i = choose|i: int| 0 <= i < all.len() && all[i] == (&j, &r@[j]);
                    assert(*all[i].0 == j);
                }
                lemma_first_conflict(before, new, k);
            }
            return Err(CriticalError::DuplicateCustomRecord(k));
        }
        proof {
            assert forall|j: u64| !conflict(before, new, j) by {
                if conflict(before, new, j) {
                    assert(r@.contains_key(j));
                    assert(all.contains((&j, &r@[j])));
                    let i = choose|i: int| 0 <= i < all.len() && all[i] == (&j, &r@[j]);
                    assert(*all[i].0 == j);
                }
            }
        }
        for (k, v) in it: r.iter()
            invariant
                new == records(*r),
                self.failure == old(self).failure,
                it.seq() == all,
                all.len() == r@.dom().len(),
                forall|i: int|
                    0 <= i < all.len() ==> r@.contains_key(*(#[trigger] all[i]).0) && r@[*all[i].0] == *all[i].1,
                forall|k: u64| #[trigger] r@.contains_key(k) ==> all.contains((&k, &r@[k])),
                forall|k: u64|
                    #[trigger] records(self.attached).dom().contains(k) <==> before.dom().contains(k) || exists|i: int|
                        0 <= i < it.index() && *(#[trigger] all[i]).0 == k,
                forall|k: u64|
                    #[trigger] records(self.attached).dom().contains(k) ==> records(self.attached)[k] == (if exists|
                        i: int,
                    |
                        0 <= i < it.index() && *(#[trigger] all[i]).0 == k {
                        new[k]
                    } else {
                        before[k]
                    }),
        {
            let ghost i = it.index() as int;
            assert(all[i] == (k, v));
            let value: Vec<u8> = v.clone();
            proof {
                assert(value@ =~= v@);
                lemma_records_insert(self.attached@, *k, value);
            }
            let ghost prev = records(self.attached);
            self.attached.insert(*k, value);
            proof {
                let next = records(self.attached);
                assert(next == prev.insert(*k, v@));
                assert(new[*k] == v@);
                assert forall|key: u64|
                    #[trigger] next.dom().contains(key) <==> before.dom().contains(key) || exists|j: int|
                        0 <= j < i + 1 && *(#[trigger] all[j]).0 == key by {
                    if next.dom().contains(key) && key != *k {
                        assert(prev.dom().contains(key));
                    }
                    if key == *k {
                        assert(*all[i].0 == key);
                    }
                    if exists|j: int| 0 <= j < i + 1 && *(#[trigger] all[j]).0 == key {
                        let j = choose|j: int| 0 <= j < i + 1 && *(#[trigger] all[j]).0 == key;
                        if j < i {
                            assert(prev.dom().contains(key));
                        }
                    }
                    if before.dom().contains(key) {
                        assert(prev.dom().contains(key));
                    }
                }
                assert forall|key: u64| #[trigger] next.dom().contains(key) implies next[key] == (if exists|j: int|
                    0 <= j < i + 1 && *(#[trigger] all[j]).0 == key {
                    new[key]
                } else {
                    before[key]
                }) by {
                    if key == *k {
                        assert(*all[i].0 == key);
                    } else {
                        assert(prev.dom().contains(key));
                        assert((exists|j: int| 0 <= j < i + 1 && *(#[trigger] all[j]).0 == key) == (exists|j: int|
                            0 <= j < i && *(#[trigger] all[j]).0 == key));
                    }
                }
            }
        }
        proof {
            let now = records(self.attached);
            assert forall|k: u64| now.dom().contains(k) == merged(before, new).dom().contains(k) by {
                if new.dom().contains(k) {
                    assert(r@.contains_key(k));
                    assert(all.contains((&k, &r@[k])));
                    let i = choose|i: int| 0 <= i < all.len() && all[i] == (&k, &r@[k]);
                    assert(*all[i].0 == k);
                }
            }
            assert forall|k: u64| now.dom().contains(k) implies #[trigger] now[k] == merged(before, new)[k] by {
                if new.dom().contains(k) {
                    assert(r@.contains_key(k));
                    assert(all.contains((&k, &r@[k])));
                    let i = choose|i: int| 0 <= i < all.len() && all[i] == (&k, &r@[k]);
                    assert(*all[i].0 == k);
                }
            }
            assert(now =~= merged(before, new));
        }
        Ok(())
    }

    /// Takes the reply of an interceptor. The result says whether the other interceptors should be told to shut down,
    /// which they are once one of them fails the htlc. An error ends the collection.
    pub fn add_reply(&mut self, reply: &InterceptReply) -> (r: Result<bool, CriticalError>)
        ensures
            match reply {
                Ok(Ok(rec)) => match first_conflict(old(self).attached(), records(*rec)) {
                    Some(k) => r == Err::<bool, CriticalError>(CriticalError::DuplicateCustomRecord(k)),
                    None => {
                        &&& r == Ok::<bool, CriticalError>(false)
                        &&& final(self).attached() == merged(old(self).attached(), records(*rec))
                        &&& final(self).failure() == old(self).failure()
                    },
                },
                Ok(Err(e)) => {
                    &&& r == Ok::<bool, CriticalError>(true)
                    &&& final(self).attached() == old(self).attached()
                    &&& final(self).failure() == Some(*e)
                },
                Err(e) => r == Err::<bool, CriticalError>(*e),
            },
    {
        match reply {
            Ok(Ok(r)) => match self.merge(r) {
                Ok(()) => Ok(false),
                Err(e) => Err(e),
            },
            Ok(Err(e)) => {
                self.failure = Some(e.clone());
                Ok(true)
            },
            Err(e) => Err(e.clone()),
        }
    }

    /// The outcome once all interceptors have replied, or the simulation is shutting down.
    pub fn finish(self) -> (r: Result<CustomRecords, ForwardingError>)
        ensures
            match self.failure() {
                Some(e) => r == Err::<CustomRecords, ForwardingError>(e),
                None => r matches Ok(rec) && records(rec) == self.attached(),
            },
    {
        match self.failure {
            Some(e) => Err(e),
            None => Ok(self.attached),
        }
    }
}

/// Handles an intercepted htlc, given the replies of its interceptors in the order in which they came in.
/// If an interceptor failed the htlc, its forwarding error is returned.
/// If an interceptor returned a critical error, it is returned to trigger a simulation shutdown.
/// If all interceptors succeed, their custom records are merged. If two interceptors provide conflicting
/// custom records a `CriticalError::DuplicateCustomRecord` is returned.
pub fn handle_intercepted_htlc(incoming: CustomRecords, replies: &Vec<InterceptReply>) -> (r: InterceptReply)
    ensures
        match intercept_outcome(records(incoming), replies@) {
            Ok(Ok(rec)) => r matches Ok(Ok(out)) && records(out) == rec,
            Ok(Err(e)) => r == Ok::<Result<CustomRecords, ForwardingError>, CriticalError>(Err(e)),
            Err(e) => r == Err::<Result<CustomRecords, ForwardingError>, CriticalError>(e),
        },
{
    if replies.len() == 0 {
        return Ok(Ok(incoming));
    }
    let mut collector = InterceptCollector::new();
    let mut i: usize = 0;
    assert(replies@.subrange(0, 0) =~= Seq::empty());
    while i < replies.len()
        invariant
            i <= replies@.len(),
            collected(replies@.subrange(0, i as int)) == Ok::<(Records, Option<ForwardingError>), CriticalError>(
                (collector.attached(), collector.failure()),
            ),
        decreases replies@.len() - i,
    {
        proof {
            assert(replies@.subrange(0, i as int + 1).drop_last() =~= replies@.subrange(0, i as int));
        }
        if let Err(e) = collector.add_reply(&replies[i]) {
            proof {
                lemma_collected_error(replies@, i as int + 1);
            }
            return Err(e);
        }
        i += 1;
    }
    assert(replies@.subrange(0, i as int) =~= replies@);
    Ok(collector.finish())
}

proof fn lemma_collected_error(replies: Seq<InterceptReply>, n: int)
    requires
        0 <= n <= replies.len(),
        collected(replies.subrange(0, n)) is Err,
    ensures
        collected(replies) == collected(replies.subrange(0, n)),
    decreases replies.len() - n,
{
    if n < replies.len() {
        assert(replies.subrange(0, n + 1).drop_last() =~= replies.subrange(0, n));
        lemma_collected_error(replies, n + 1);
    } else {
        assert(replies.subrange(0, n) =~= replies);
    }
}

/// Whether an interceptor let an htlc pass, attaching a record under a key.
pub open spec fn attaches(reply: InterceptReply, k: u64, value: Seq<u8>) -> bool {
    reply matches Ok(Ok(r)) && r@.dom().contains(k) && r@[k]@ == value
}

/// Whether two replies attach different values under a key.
pub open spec fn disagree(replies: Seq<InterceptReply>, i: int, j: int, k: u64) -> bool {
    exists|a: Seq<u8>, b: Seq<u8>|
        a != b && #[trigger] attaches(replies[i], k, a) && #[trigger] attaches(replies[j], k, b)
}

proof fn lemma_collected(replies: Seq<InterceptReply>)
    ensures
        collected(replies) matches Ok((attached, failure)) ==> {
            &&& forall|i: int| 0 <= i < replies.len() ==> (#[trigger] replies[i]) is Ok
            &&& forall|i: int, k: u64, v: Seq<u8>|
                0 <= i < replies.len() && #[trigger] attaches(replies[i], k, v) ==> attached.dom().contains(k) && attached[k] == v
            &&& forall|k: u64| #[trigger]
                attached.dom().contains(k) ==> exists|i: int|
                    0 <= i < replies.len() && #[trigger] attaches(replies[i], k, attached[k])
            &&& failure is None <==> forall|i: int| 0 <= i < replies.len() ==> (#[trigger] replies[i])->Ok_0 is Ok
            &&& failure matches Some(e) ==> exists|i: int|
                {
                    &&& 0 <= i < replies.len()
                    &&& #[trigger] replies[i] == Ok::<Result<CustomRecords, ForwardingError>, CriticalError>(Err(e))
                    &&& forall|j: int| i < j < replies.len() ==> (#[trigger] replies[j])->Ok_0 is Ok
                }
        },
        collected(replies) matches Err(e) ==> {
            ||| exists|i: int|
                {
                    &&& 0 <= i < replies.len()
                    &&& #[trigger] replies[i] == Err::<Result<CustomRecords, ForwardingError>, CriticalError>(e)
                    &&& forall|j: int| 0 <= j < i ==> (#[trigger] replies[j]) is Ok
                }
            ||| exists|i: int, j: int, k: u64|
                0 <= i < j < replies.len() && e == CriticalError::DuplicateCustomRecord(k) && #[trigger] disagree(replies, i, j, k)
        },
    decreases replies.len(),
{
    if replies.len() > 0 {
        let before = replies.drop_last();
        let n = before.len() as int;
        lemma_collected(before);
        assert forall|i: int| 0 <= i < n implies #[trigger] before[i] == replies[i] by {}
        match collected(before) {
            Err(e) => {
                if exists|i: int, j: int, k: u64|
                    0 <= i < j < before.len() && e == CriticalError::DuplicateCustomRecord(k) && #[trigger] disagree(before, i, j, k) {
                    let (i, j, k) = choose|i: int, j: int, k: u64|
                        0 <= i < j < before.len() && e == CriticalError::DuplicateCustomRecord(k) && #[trigger] disagree(before, i, j, k);
                    assert(disagree(replies, i, j, k));
                } else {
                    let i = choose|i: int|
                        {
                            &&& 0 <= i < before.len()
                            &&& #[trigger] before[i] == Err::<Result<CustomRecords, ForwardingError>, CriticalError>(e)
                            &&& forall|j: int| 0 <= j < i ==> (#[trigger] before[j]) is Ok
                        };
                    assert(replies[i] == before[i]);
                    assert forall|j: int| 0 <= j < i implies (#[trigger] replies[j]) is Ok by {
                        assert(before[j] is Ok);
                    }
                }
            },
            Ok((attached, failure)) => {
                assert forall|i: int| 0 <= i < n implies (#[trigger] replies[i]) is Ok by {
                    assert(before[i] is Ok);
                }
                match replies.last() {
                    Err(e) => {
                        assert(replies[n] == Err::<Result<CustomRecords, ForwardingError>, CriticalError>(e));
                    },
                    Ok(Err(e)) => {
                        assert(replies[n] == Ok::<Result<CustomRecords, ForwardingError>, CriticalError>(Err(e)));
                        assert forall|k: u64| #[trigger] attached.dom().contains(k) implies exists|i: int|
                            0 <= i < replies.len() && #[trigger] attaches(replies[i], k, attached[k]) by {
                            let i = choose|i: int| 0 <= i < before.len() && #[trigger] attaches(before[i], k, attached[k]);
                            assert(attaches(replies[i], k, attached[k]));
                        }
                        assert forall|i: int, k: u64, v: Seq<u8>|
                            0 <= i < replies.len() && #[trigger] attaches(replies[i], k, v) implies attached.dom().contains(k)
                            && attached[k] == v by {
                            assert(attaches(before[i], k, v));
                        }
                    },
                    Ok(Ok(r)) => {
                        let new = records(r);
                        assert forall|k: u64| #[trigger] new.dom().contains(k) implies attaches(replies[n], k, new[k]) by {
                            assert(r@.dom().contains(k));
                        }
                        assert forall|k: u64, v: Seq<u8>| #[trigger] attaches(replies[n], k, v) implies new.dom().contains(k)
                            && new[k] == v by {}
                        match first_conflict(attached, new) {
                            Some(k) => {
                                assert(exists|c: u64| conflict(attached, new, c));
                                lemma_conflict_is_found(attached, new);
                                assert(conflict(attached, new, k));
                                let i = choose|i: int| 0 <= i < before.len() && #[trigger] attaches(before[i], k, attached[k]);
                                assert(attaches(replies[i], k, attached[k]));
                                assert(attaches(replies[n], k, new[k]));
                                assert(disagree(replies, i, n, k));
                            },
                            None => {
                                let all = merged(attached, new);
                                assert forall|k: u64| !conflict(attached, new, k) by {}
                                assert forall|i: int, k: u64, v: Seq<u8>|
                                    0 <= i < replies.len() && #[trigger] attaches(replies[i], k, v) implies all.dom().contains(k)
                                    && all[k] == v by {
                                    if i < n {
                                        assert(attaches(before[i], k, v));
                                        assert(!conflict(attached, new, k));
                                    }
                                }
                                assert forall|k: u64| #[trigger] all.dom().contains(k) implies exists|i: int|
                                    0 <= i < replies.len() && #[trigger] attaches(replies[i], k, all[k]) by {
                                    if new.dom().contains(k) {
                                        assert(attaches(replies[n], k, all[k]));
                                    } else {
                                        let i = choose|i: int|
                                            0 <= i < before.len() && #[trigger] attaches(before[i], k, attached[k]);
                                        assert(attaches(replies[i], k, all[k]));
                                    }
                                }
                                if let Some(e) = failure {
                                    let i = choose|i: int|
                                        {
                                            &&& 0 <= i < before.len()
                                            &&& #[trigger] before[i] == Ok::<
                                                Result<CustomRecords, ForwardingError>,
                                                CriticalError,
                                            >(Err(e))
                                            &&& forall|j: int| i < j < before.len() ==> (#[trigger] before[j])->Ok_0 is Ok
                                        };
                                    assert(replies[i] == before[i]);
                                    assert forall|j: int| i < j < replies.len() implies (#[trigger] replies[j])->Ok_0 is Ok by {
                                        if j < n {
                                            assert(before[j]->Ok_0 is Ok);
                                        }
                                    }
                                } else {
                                    assert forall|i: int| 0 <= i < replies.len() implies (#[trigger] replies[i])->Ok_0 is Ok by {
                                        if i < n {
                                            assert(before[i]->Ok_0 is Ok);
                                        }
                                    }
                                }
                            },
                        }
                    },
                }
            },
        }
    }
}

proof fn lemma_conflict_is_found(a: Records, b: Records)
    requires
        exists|k: u64| conflict(a, b, k),
    ensures
        first_conflict(a, b) matches Some(k) && conflict(a, b, k) && forall|j: u64| #[trigger] conflict(a, b, j) ==> k <= j,
{
    let w = choose|k: u64| conflict(a, b, k);
    lemma_lowest_conflict(a, b, w);
}

proof fn lemma_lowest_conflict(a: Records, b: Records, w: u64)
    requires
        conflict(a, b, w),
    ensures
        exists|k: u64| conflict(a, b, k) && forall|j: u64| #[trigger] conflict(a, b, j) ==> k <= j,
    decreases w,
{
    if exists|j: u64| #[trigger] conflict(a, b, j) && j < w {
        let j = choose|j: u64| #[trigger] conflict(a, b, j) && j < w;
        lemma_lowest_conflict(a, b, j);
    }
}

/// An htlc passes its interceptors if and only if all of them let it pass and no two of them attach different values under a
/// key. It then carries what they attach and nothing else, or what it carried before if there are none.
pub proof fn law_htlc_passes_if_all_let_it_pass(incoming: Records, replies: Seq<InterceptReply>)
    ensures
        replies.len() == 0 ==> intercept_outcome(incoming, replies) == Ok::<Result<Records, ForwardingError>, CriticalError>(
            Ok(incoming),
        ),
        intercept_outcome(incoming, replies) matches Ok(Ok(_)) <==> {
            &&& forall|i: int| 0 <= i < replies.len() ==> (#[trigger] replies[i]) is Ok && replies[i]->Ok_0 is Ok
            &&& forall|i: int, j: int, k: u64| 0 <= i < j < replies.len() ==> !#[trigger] disagree(replies, i, j, k)
        },
        replies.len() > 0 ==> (intercept_outcome(incoming, replies) matches Ok(Ok(carried)) ==> {
            &&& forall|i: int, k: u64, v: Seq<u8>|
                0 <= i < replies.len() && #[trigger] attaches(replies[i], k, v) ==> carried.dom().contains(k) && carried[k] == v
            &&& forall|k: u64| #[trigger]
                carried.dom().contains(k) ==> exists|i: int|
                    0 <= i < replies.len() && #[trigger] attaches(replies[i], k, carried[k])
        }),
{
    lemma_collected(replies);
    if let Ok((attached, failure)) = collected(replies) {
        assert forall|i: int, j: int, k: u64| 0 <= i < j < replies.len() implies !#[trigger] disagree(replies, i, j, k) by {
            if disagree(replies, i, j, k) {
                let (a, b) = choose|a: Seq<u8>, b: Seq<u8>|
                    a != b && #[trigger] attaches(replies[i], k, a) && #[trigger] attaches(replies[j], k, b);
                assert(attached[k] == a && attached[k] == b);
            }
        }
    }
}

/// An htlc fails at its interceptors only with the error of an interceptor that failed it, after which none did, and only if
/// none of them ends the simulation. If one fails it, and neither an interceptor nor a conflict of records ends the
/// simulation, it does fail.
pub proof fn law_htlc_fails_with_the_last_failure(incoming: Records, replies: Seq<InterceptReply>)
    ensures
        intercept_outcome(incoming, replies) matches Ok(Err(e)) ==> {
            &&& forall|i: int| 0 <= i < replies.len() ==> (#[trigger] replies[i]) is Ok
            &&& exists|i: int|
                {
                    &&& 0 <= i < replies.len()
                    &&& #[trigger] replies[i] == Ok::<Result<CustomRecords, ForwardingError>, CriticalError>(Err(e))
                    &&& forall|j: int| i < j < replies.len() ==> (#[trigger] replies[j])->Ok_0 is Ok
                }
        },
        (forall|i: int| 0 <= i < replies.len() ==> (#[trigger] replies[i]) is Ok) && (exists|i: int|
            0 <= i < replies.len() && (#[trigger] replies[i])->Ok_0 is Err) && (forall|i: int, j: int, k: u64|
            0 <= i < j < replies.len() ==> !#[trigger] disagree(replies, i, j, k)) ==> intercept_outcome(incoming, replies)
            matches Ok(Err(_)),
{
    lemma_collected(replies);
}

/// The simulation ends at an interception only with the first critical error of an interceptor, or for a key under which two
/// interceptors attach different values. It does end if an interceptor gives a critical error.
pub proof fn law_critical_reply_ends_the_simulation(incoming: Records, replies: Seq<InterceptReply>)
    ensures
        intercept_outcome(incoming, replies) matches Err(e) ==> {
            ||| exists|i: int|
                {
                    &&& 0 <= i < replies.len()
                    &&& #[trigger] replies[i] == Err::<Result<CustomRecords, ForwardingError>, CriticalError>(e)
                    &&& forall|j: int| 0 <= j < i ==> (#[trigger] replies[j]) is Ok
                }
            ||| exists|i: int, j: int, k: u64|
                0 <= i < j < replies.len() && e == CriticalError::DuplicateCustomRecord(k) && #[trigger] disagree(replies, i, j, k)
        },
        (exists|i: int| 0 <= i < replies.len() && (#[trigger] replies[i]) is Err) ==> intercept_outcome(incoming, replies) is Err,
        (exists|i: int, j: int, k: u64| 0 <= i < j < replies.len() && #[trigger] disagree(replies, i, j, k))
            ==> intercept_outcome(incoming, replies) is Err,
{
    lemma_collected(replies);
    if let Ok((attached, failure)) = collected(replies) {
        assert forall|i: int, j: int, k: u64| 0 <= i < j < replies.len() implies !#[trigger] disagree(replies, i, j, k) by {
            if disagree(replies, i, j, k) {
                let (a, b) = choose|a: Seq<u8>, b: Seq<u8>|
                    a != b && #[trigger] attaches(replies[i], k, a) && #[trigger] attaches(replies[j], k, b);
                assert(attached[k] == a && attached[k] == b);
            }
        }
    }
}

/// Where two sets of records give a key different values, the lowest such key is reported, and nothing is otherwise.
pub proof fn law_lowest_conflict_is_reported(a: Records, b: Records)
    ensures
        first_conflict(a, b) is None <==> forall|k: u64|
            #![trigger a.dom().contains(k)]
            a.dom().contains(k) && b.dom().contains(k) ==> a[k] == b[k],
        first_conflict(a, b) matches Some(k) ==> {
            &&& a.dom().contains(k) && b.dom().contains(k) && a[k] != b[k]
            &&& forall|j: u64|
                #![trigger a.dom().contains(j)]
                a.dom().contains(j) && b.dom().contains(j) && j < k ==> a[j] == b[j]
        },
{
    if exists|k: u64| conflict(a, b, k) {
        lemma_conflict_is_found(a, b);
        let c = first_conflict(a, b)->0;
        assert forall|j: u64|
            #![trigger a.dom().contains(j)]
            a.dom().contains(j) && b.dom().contains(j) && j < c implies a[j] == b[j] by {
            assert(conflict(a, b, j) ==> c <= j);
        }
        assert(a.dom().contains(c));
    } else {
        assert forall|k: u64|
            #![trigger a.dom().contains(k)]
            a.dom().contains(k) && b.dom().contains(k) implies a[k] == b[k] by {
            assert(!conflict(a, b, k));
        }
    }
}

} // verus!
