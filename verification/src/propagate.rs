//! Propagation of payments through the simulated network: htlcs are added hop by hop along a route, and removed hop
//! by hop on the way back.
use crate::channel::{CriticalError, ForwardResult, ForwardingError, Htlc};
use crate::intercept::{
    copy_records, handle_intercepted_htlc, intercept_outcome, records, CustomRecords, HtlcRef, InterceptReply,
    InterceptRequest, InterceptResolution, Records, RequestView,
};
use crate::network::{
    add_outcome, after_add, after_remove, forward_outcome, remove_outcome, ChannelMap, SimChannels,
};
use crate::node::ShortChannelID;
use crate::payment::{PaymentOutcome, PaymentResult};
use crate::primitives::{PaymentHash, PublicKey};
use crate::route::{amount_from, expiry_from, lemma_amounts_decrease, sender_of, Path, RouteHop};
use vstd::prelude::*;

verus! {

/// The outcome of adding the htlcs of a payment: a critical error, or a forwarding error with the index of the last
/// hop that has an htlc to fail back (if any), or neither.
pub type AddResult = Result<Result<(), (Option<usize>, ForwardingError)>, CriticalError>;

/// The htlc that a payment adds at a hop.
pub open spec fn hop_htlc(hops: Seq<RouteHop>, i: int) -> Htlc {
    Htlc { amount_msat: amount_from(hops, i) as u64, cltv_expiry: expiry_from(hops, i) as u32 }
}

/// The channel of a hop.
pub open spec fn hop_channel(hops: Seq<RouteHop>, i: int) -> ShortChannelID {
    ShortChannelID(hops[i].short_channel_id)
}

/// The channel over which the receiver of a hop forwards the payment.
pub open spec fn next_channel(hops: Seq<RouteHop>, i: int) -> Option<ShortChannelID> {
    if i + 1 < hops.len() {
        Some(hop_channel(hops, i + 1))
    } else {
        None
    }
}

/// The last hop that has an htlc of the payment before one is added at a hop.
pub open spec fn previous_hop(i: int) -> Option<usize> {
    if i == 0 {
        None
    } else {
        Some((i - 1) as usize)
    }
}

/// The outcome of adding the htlc of a hop.
pub open spec fn hop_added(channels: ChannelMap, source: PublicKey, hops: Seq<RouteHop>, hash: PaymentHash, i: int)
    -> Result<Result<u64, ForwardingError>, CriticalError> {
    add_outcome(channels, hop_channel(hops, i), sender_of(source, hops, i), hash, hop_htlc(hops, i))
}

/// The channels once the htlc of a hop was added.
pub open spec fn after_hop(channels: ChannelMap, source: PublicKey, hops: Seq<RouteHop>, hash: PaymentHash, i: int)
    -> ChannelMap {
    after_add(channels, hop_channel(hops, i), sender_of(source, hops, i), hash, hop_htlc(hops, i))
}

/// Whether the receiver of a hop forwards the payment, by its policy on the channel of the next hop. The receiver of
/// the last hop accepts it.
pub open spec fn hop_forwarded(channels: ChannelMap, hops: Seq<RouteHop>, i: int) -> ForwardResult {
    match next_channel(hops, i) {
        Some(next) => forward_outcome(
            channels,
            next,
            hops[i].pubkey,
            hops[i].cltv_expiry_delta,
            amount_from(hops, i + 1) as u64,
            hops[i].fee_msat,
        ),
        None => Ok(Ok(())),
    }
}

/// What interceptors are told about the htlc of a hop.
pub open spec fn hop_request(hops: Seq<RouteHop>, hash: PaymentHash, i: int, index: u64, incoming: Records)
    -> RequestView {
    RequestView {
        forwarding_node: hops[i].pubkey,
        payment_hash: hash,
        incoming_htlc: HtlcRef { channel_id: hop_channel(hops, i), index },
        incoming_custom_records: incoming,
        outgoing_channel_id: next_channel(hops, i),
        incoming_amount_msat: amount_from(hops, i) as int,
        outgoing_amount_msat: amount_from(hops, i + 1) as int,
        incoming_expiry_height: expiry_from(hops, i) as int,
        outgoing_expiry_height: expiry_from(hops, i + 1) as int,
    }
}

/// The replies of the interceptors of a network in the course of a payment.
#[derive(Debug)]
pub struct InterceptorReplies {
    /// For each hop, the replies to the interception of its htlc, in the order in which they come in. There are none
    /// where no interceptors are registered.
    pub intercepts: Vec<Vec<InterceptReply>>,
    /// For each hop, the error with which the notification of the resolution of its htlc failed, if it did.
    pub acks: Vec<Option<CriticalError>>,
}

impl InterceptorReplies {
    /// The replies to the interception of the htlc of a hop.
    pub open spec fn intercept(&self, i: int) -> Seq<InterceptReply> {
        if 0 <= i < self.intercepts@.len() {
            self.intercepts@[i]@
        } else {
            Seq::empty()
        }
    }

    /// The error with which the notification about the htlc of a hop failed, if it did.
    pub open spec fn ack(&self, i: int) -> Option<CriticalError> {
        if 0 <= i < self.acks@.len() {
            self.acks@[i]
        } else {
            None
        }
    }

    /// The replies in a network without interceptors.
    pub fn none() -> (r: Self)
        ensures
            forall|i: int| #[trigger] r.intercept(i) == Seq::<InterceptReply>::empty(),
            forall|i: int| #[trigger] r.ack(i) is None,
    {
        InterceptorReplies { intercepts: Vec::new(), acks: Vec::new() }
    }
}

/// What adding the htlcs of a payment leads to.
pub struct AddRun {
    /// The channels afterwards.
    pub channels: ChannelMap,
    /// The outcome.
    pub outcome: AddResult,
    /// What interceptors were asked, in order.
    pub requests: Seq<RequestView>,
}

/// Adds the htlcs of a payment from a hop on. For each hop, the htlc is added to the channel, the receiver checks
/// whether it forwards the htlc, and interceptors are asked about it; the first that fails ends the payment.
pub open spec fn add_run(
    channels: ChannelMap,
    source: PublicKey,
    hops: Seq<RouteHop>,
    hash: PaymentHash,
    replies: InterceptorReplies,
    incoming: Records,
    i: int,
) -> AddRun
    decreases hops.len() - i,
{
    if i < 0 || i >= hops.len() {
        AddRun { channels, outcome: Ok(Ok(())), requests: Seq::empty() }
    } else {
        match hop_added(channels, source, hops, hash, i) {
            Err(e) => AddRun { channels, outcome: Err(e), requests: Seq::empty() },
            Ok(Err(e)) => AddRun { channels, outcome: Ok(Err((previous_hop(i), e))), requests: Seq::empty() },
            Ok(Ok(index)) => {
                let added = after_hop(channels, source, hops, hash, i);
                match hop_forwarded(added, hops, i) {
                    Err(e) => AddRun { channels: added, outcome: Err(e), requests: Seq::empty() },
                    Ok(Err(e)) => AddRun {
                        channels: added,
                        outcome: Ok(Err((Some(i as usize), e))),
                        requests: Seq::empty(),
                    },
                    Ok(Ok(())) => {
                        let request = hop_request(hops, hash, i, index, incoming);
                        match intercept_outcome(incoming, replies.intercept(i)) {
                            Err(e) => AddRun { channels: added, outcome: Err(e), requests: seq![request] },
                            Ok(Err(e)) => AddRun {
                                channels: added,
                                outcome: Ok(Err((Some(i as usize), e))),
                                requests: seq![request],
                            },
                            Ok(Ok(attached)) => {
                                let rest = add_run(added, source, hops, hash, replies, attached, i + 1);
                                AddRun { requests: seq![request] + rest.requests, ..rest }
                            },
                        }
                    },
                }
            },
        }
    }
}

/// What removing the htlcs of a payment leads to.
pub struct RemoveRun {
    /// The channels afterwards.
    pub channels: ChannelMap,
    /// The outcome.
    pub outcome: Result<(), CriticalError>,
    /// What interceptors were notified of, in order.
    pub resolutions: Seq<InterceptResolution>,
}

/// Removes the htlcs of a payment from a hop back to another one, and notifies interceptors of each removal. The node that
/// a hop leads to is told of the channel of the next hop; only the receiver of the payment has none.
pub open spec fn remove_run(
    channels: ChannelMap,
    source: PublicKey,
    hops: Seq<RouteHop>,
    hash: PaymentHash,
    success: bool,
    replies: InterceptorReplies,
    from: int,
    to: int,
) -> RemoveRun
    decreases from - to + 1,
{
    if from < to {
        RemoveRun { channels, outcome: Ok(()), resolutions: Seq::empty() }
    } else {
        let scid = hop_channel(hops, from);
        let sender = sender_of(source, hops, from);
        let removed = after_remove(channels, scid, sender, hash, success);
        match remove_outcome(channels, scid, sender, hash, success) {
            Err(e) => RemoveRun { channels: removed, outcome: Err(e), resolutions: Seq::empty() },
            Ok((_, index)) => {
                let resolution = InterceptResolution {
                    forwarding_node: hops[from].pubkey,
                    incoming_htlc: HtlcRef { channel_id: scid, index },
                    outgoing_channel_id: next_channel(hops, from),
                    success,
                };
                match replies.ack(from) {
                    Some(e) => RemoveRun { channels: removed, outcome: Err(e), resolutions: seq![resolution] },
                    None => {
                        let rest = remove_run(
                            removed,
                            source,
                            hops,
                            hash,
                            success,
                            replies,
                            from - 1,
                            to,
                        );
                        RemoveRun { resolutions: seq![resolution] + rest.resolutions, ..rest }
                    },
                }
            },
        }
    }
}

/// What the propagation of a payment leads to.
pub struct PaymentRun {
    /// The channels afterwards.
    pub channels: ChannelMap,
    /// The result that is reported to the sender of the payment.
    pub result: PaymentResult,
    /// Whether the simulation has to shut down.
    pub shutdown: bool,
    /// What interceptors were asked, in order.
    pub requests: Seq<RequestView>,
    /// What interceptors were notified of, in order.
    pub resolutions: Seq<InterceptResolution>,
}

/// Propagates a payment: adds its htlcs along the route, and then removes those that were added, with success if they
/// were added on the whole route. A critical error leaves them in place and shuts the simulation down.
pub open spec fn payment_run(
    channels: ChannelMap,
    source: PublicKey,
    hops: Seq<RouteHop>,
    hash: PaymentHash,
    replies: InterceptorReplies,
    incoming: Records,
) -> PaymentRun {
    let added = add_run(channels, source, hops, hash, replies, incoming, 0);
    let step = payment_step(added.outcome, hops.len() as int);
    let removed = match step.resolution_idx {
        Some(i) => remove_run(added.channels, source, hops, hash, step.success, replies, i as int, 0),
        None => RemoveRun { channels: added.channels, outcome: Ok(()), resolutions: Seq::empty() },
    };
    PaymentRun {
        channels: removed.channels,
        result: step.result,
        shutdown: step.shutdown || removed.outcome is Err,
        requests: added.requests,
        resolutions: removed.resolutions,
    }
}

/// Whether a number of htlcs can still be given indexes on the channels of a route.
pub open spec fn has_indexes(channels: ChannelMap, hops: Seq<RouteHop>, htlcs: int) -> bool {
    forall|i: int|
        0 <= i < hops.len() && channels.dom().contains((#[trigger] hops[i]).short_channel_id) ==> {
            let c = channels[hops[i].short_channel_id];
            &&& c.node_1.index + htlcs <= u64::MAX
            &&& c.node_2.index + htlcs <= u64::MAX
        }
}

/// Whether the sums that decide on htlcs of up to an amount are in range on the channels of a route, and a number of htlcs
/// can still be given indexes there.
pub open spec fn has_room(channels: ChannelMap, hops: Seq<RouteHop>, amount: int, htlcs: int) -> bool {
    &&& has_indexes(channels, hops, htlcs)
    &&& forall|i: int|
        0 <= i < hops.len() && channels.dom().contains((#[trigger] hops[i]).short_channel_id) ==> {
            let c = channels[hops[i].short_channel_id];
            &&& c.capacity + smaller(amount, c.node_1.policy.max_htlc_size_msat as int) <= u64::MAX
            &&& c.capacity + smaller(amount, c.node_2.policy.max_htlc_size_msat as int) <= u64::MAX
        }
}

/// The smaller of two numbers.
pub open spec fn smaller(a: int, b: int) -> int {
    if a <= b {
        a
    } else {
        b
    }
}

proof fn lemma_in_range(
    channels: ChannelMap,
    hops: Seq<RouteHop>,
    amount: int,
    htlcs: int,
    i: int,
    sender: PublicKey,
    htlc: Htlc,
)
    requires
        0 <= i < hops.len(),
        channels.dom().contains(hop_channel(hops, i).0),
        channels[hop_channel(hops, i).0].wf(),
        has_room(channels, hops, amount, htlcs),
        htlcs >= 1,
        htlc.amount_msat <= amount,
    ensures
        channels[hop_channel(hops, i).0].in_range(sender, htlc),
{
    assert(channels.dom().contains(hops[i].short_channel_id));
}

proof fn lemma_room_after_add(
    channels: ChannelMap,
    hops: Seq<RouteHop>,
    amount: int,
    htlcs: int,
    scid: ShortChannelID,
    sender: PublicKey,
    hash: PaymentHash,
    htlc: Htlc,
)
    requires
        has_room(channels, hops, amount, htlcs),
    ensures
        channels.dom().contains(scid.0) ==> has_room(
            after_add(channels, scid, sender, hash, htlc),
            hops,
            amount,
            htlcs - 1,
        ),
{
}

/// How far the htlcs of a payment have been added along its route.
#[derive(Debug)]
pub struct PaymentProgress {
    /// The node that sends the payment.
    pub source: PublicKey,
    /// The hop whose htlc is added next.
    pub hop: usize,
    /// The node that sends the htlc of that hop.
    pub outgoing_node: PublicKey,
    /// The amount of that htlc.
    pub outgoing_amount: u64,
    /// The expiry of that htlc.
    pub outgoing_cltv: u32,
    /// The custom records that are sent with that htlc.
    pub incoming_custom_records: CustomRecords,
}

impl PaymentProgress {
    /// Whether this is the progress of a payment at a hop of its route.
    pub open spec fn at(&self, hops: Seq<RouteHop>) -> bool {
        &&& self.hop <= hops.len()
        &&& self.outgoing_node == sender_of(self.source, hops, self.hop as int)
        &&& self.outgoing_amount == amount_from(hops, self.hop as int)
        &&& self.outgoing_cltv == expiry_from(hops, self.hop as int)
    }

    /// The progress of a payment before its first htlc is added.
    pub fn start(source: PublicKey, route: &Path, custom_records: CustomRecords) -> (p: Self)
        requires
            route.wf(),
        ensures
            p.at(route.hops@),
            p.source == source,
            p.hop == 0,
            p.incoming_custom_records == custom_records,
    {
        PaymentProgress {
            source,
            hop: 0,
            outgoing_node: source,
            outgoing_amount: route.total_msat(),
            outgoing_cltv: route.total_expiry(),
            incoming_custom_records: custom_records,
        }
    }

    /// Moves on to the next hop, once interceptors let the htlc of the current one pass: the node that the hop leads
    /// to becomes the sender of the next htlc, and the records that were attached are sent with it.
    pub fn advance(&mut self, route: &Path, attached: CustomRecords)
        requires
            old(self).at(route.hops@),
            old(self).hop < route.hops@.len(),
        ensures
            final(self).at(route.hops@),
            final(self).source == old(self).source,
            final(self).hop == old(self).hop + 1,
            final(self).incoming_custom_records == attached,
    {
        let ghost n = route.hops.len();
        assert(self.hop < n);
        let hop = &route.hops[self.hop];
        self.outgoing_node = hop.pubkey;
        self.outgoing_amount = self.outgoing_amount - hop.fee_msat;
        self.outgoing_cltv = self.outgoing_cltv - hop.cltv_expiry_delta;
        self.incoming_custom_records = attached;
        self.hop = self.hop + 1;
    }

    /// Decides what follows the reply of the interceptors to the htlc of the current hop: the payment moves on to the
    /// next hop if they let it pass, and otherwise the addition of htlcs ends with their error.
    pub fn intercepted(&mut self, route: &Path, reply: InterceptReply) -> (end: Option<AddResult>)
        requires
            old(self).at(route.hops@),
            old(self).hop < route.hops@.len(),
        ensures
            final(self).at(route.hops@),
            final(self).source == old(self).source,
            match reply {
                Ok(Ok(attached)) => {
                    &&& end is None
                    &&& final(self).hop == old(self).hop + 1
                    &&& final(self).incoming_custom_records == attached
                },
                Ok(Err(e)) => end == Some::<AddResult>(Ok(Err((Some(old(self).hop), e)))) && *final(self) == *old(self),
                Err(e) => end == Some::<AddResult>(Err(e)) && *final(self) == *old(self),
            },
    {
        match reply {
            Ok(Ok(attached)) => {
                self.advance(route, attached);
                None
            },
            // Interceptors fail the htlc at the current index, because it has already been added as outgoing.
            Ok(Err(e)) => Some(Ok(Err((Some(self.hop), e)))),
            Err(e) => Some(Err(e)),
        }
    }
}

/// Adds the htlc of the current hop of a payment, and checks whether the node that it leads to forwards it. If it does,
/// the result is the request to be sent to interceptors before the payment can move on to the next hop.
pub fn add_hop(channels: &mut SimChannels, route: &Path, hash: PaymentHash, progress: &PaymentProgress) -> (r: Result<
    Result<InterceptRequest, (Option<usize>, ForwardingError)>,
    CriticalError,
>)
    requires
        old(channels).wf(),
        progress.at(route.hops@),
        progress.hop < route.hops@.len(),
        old(channels)@.dom().contains(hop_channel(route.hops@, progress.hop as int).0) ==> old(channels)@[hop_channel(
            route.hops@,
            progress.hop as int,
        ).0].in_range(progress.outgoing_node, hop_htlc(route.hops@, progress.hop as int)),
    ensures
        final(channels).wf(),
        ({
            let hops = route.hops@;
            let i = progress.hop as int;
            match hop_added(old(channels)@, progress.source, hops, hash, i) {
                Err(e) => {
                    &&& final(channels)@ == old(channels)@
                    &&& r == Err::<Result<InterceptRequest, (Option<usize>, ForwardingError)>, CriticalError>(e)
                },
                Ok(Err(e)) => {
                    &&& final(channels)@ == old(channels)@
                    &&& r == Ok::<Result<InterceptRequest, (Option<usize>, ForwardingError)>, CriticalError>(
                        Err((previous_hop(i), e)),
                    )
                },
                Ok(Ok(index)) => {
                    &&& final(channels)@ == after_hop(old(channels)@, progress.source, hops, hash, i)
                    &&& match hop_forwarded(final(channels)@, hops, i) {
                        Err(e) => r == Err::<
                            Result<InterceptRequest, (Option<usize>, ForwardingError)>,
                            CriticalError,
                        >(e),
                        Ok(Err(e)) => r == Ok::<
                            Result<InterceptRequest, (Option<usize>, ForwardingError)>,
                            CriticalError,
                        >(Err((Some(progress.hop), e))),
                        Ok(Ok(())) => {
                            &&& r matches Ok(Ok(request))
                            &&& request@ == hop_request(
                                hops,
                                hash,
                                i,
                                index,
                                records(progress.incoming_custom_records),
                            )
                        },
                    }
                },
            }
        }),
{
    let i: usize = progress.hop;
    let n: usize = route.hops.len();
    let hop = &route.hops[i];
    let scid = ShortChannelID::from(hop.short_channel_id);
    let htlc = Htlc { amount_msat: progress.outgoing_amount, cltv_expiry: progress.outgoing_cltv };
    let index: u64 = match channels.add_htlc(&scid, &progress.outgoing_node, hash, htlc) {
        Ok(Ok(index)) => index,
        // If we couldn't add to this HTLC, we only need to fail back from the preceding hop.
        Ok(Err(e)) => {
            let fail_idx = if i == 0 {
                None
            } else {
                Some(i - 1)
            };
            return Ok(Err((fail_idx, e)));
        },
        Err(e) => {
            return Err(e);
        },
    };
    let outgoing_amount: u64 = progress.outgoing_amount - hop.fee_msat;
    // Once we've added the HTLC on this hop's channel, we want to check whether it has sufficient fee and CLTV delta
    // per the _next_ channel's policy (because fees and CLTV delta in LN are charged on the outgoing link). We check
    // the policy belonging to the node that we just forwarded to, which represents the fee in that direction.
    let mut next_scid: Option<ShortChannelID> = None;
    if i < n - 1 {
        let next = ShortChannelID::from(route.hops[i + 1].short_channel_id);
        next_scid = Some(next);
        match channels.check_htlc_forward(&next, &hop.pubkey, hop.cltv_expiry_delta, outgoing_amount, hop.fee_msat) {
            Ok(Ok(())) => {},
            // If we haven't met forwarding conditions for the next channel's policy, then we fail at the current
            // index, because we've already added the HTLC as outgoing.
            Ok(Err(e)) => {
                return Ok(Err((Some(i), e)));
            },
            Err(e) => {
                return Err(e);
            },
        }
    }
    Ok(
        Ok(
            InterceptRequest {
                forwarding_node: hop.pubkey,
                payment_hash: hash,
                incoming_htlc: HtlcRef { channel_id: scid, index },
                incoming_custom_records: copy_records(&progress.incoming_custom_records),
                outgoing_channel_id: next_scid,
                incoming_amount_msat: progress.outgoing_amount,
                outgoing_amount_msat: outgoing_amount,
                incoming_expiry_height: progress.outgoing_cltv,
                outgoing_expiry_height: progress.outgoing_cltv - hop.cltv_expiry_delta,
            },
        ),
    )
}

/// The contents of a list of requests.
pub open spec fn request_views(requests: Seq<InterceptRequest>) -> Seq<RequestView> {
    requests.map_values(|r: InterceptRequest| r@)
}

/// Adds htlcs to the simulation state along the path provided. If it encounters a critical error,
/// it will be returned in the outer Result to signal that the simulation should shut down. If a
/// forwarding error happens, it will return the index in the path from which to fail back htlcs
/// (if any) and the ForwardingError in the inner Result. We don't return the index during a
/// critical error since we expect to trigger a simulation shutdown after it.
///
/// For each hop in the route, we check both the addition of the HTLC and whether we can forward it. Take an example
/// route A --> B --> C, we will add this in two hops: A --> B then B -->C. For each hop, using A --> B as an example:
/// * Check whether A can add the outgoing HTLC (checks liquidity and in-flight restrictions).
///   * If no, fail the HTLC.
///   * If yes, add outgoing HTLC to A's channel.
/// * Check whether B will accept the forward.
///   * If no, fail the HTLC.
///   * If yes, continue to the next hop.
///
/// If successfully added to A --> B, this check will be repeated for B --> C.
///
/// Note that we don't have any special handling for the receiving node, once we've successfully added a outgoing HTLC
/// for the outgoing channel that is connected to the receiving node we'll return. To add invoice-related handling,
/// we'd need to include some logic that then decides whether to settle/fail the HTLC at the last hop here.
///
/// The requests to interceptors are returned along with the outcome, in order.
pub fn add_htlcs(
    channels: &mut SimChannels,
    source: PublicKey,
    route: &Path,
    hash: PaymentHash,
    replies: &InterceptorReplies,
    custom_records: CustomRecords,
) -> (r: (AddResult, Vec<InterceptRequest>))
    requires
        old(channels).wf(),
        route.wf(),
        has_room(old(channels)@, route.hops@, amount_from(route.hops@, 0) as int, route.hops@.len() as int),
    ensures
        final(channels).wf(),
        ({
            let run = add_run(
                old(channels)@,
                source,
                route.hops@,
                hash,
                *replies,
                records(custom_records),
                0,
            );
            &&& final(channels)@ == run.channels
            &&& r.0 == run.outcome
            &&& request_views(r.1@) == run.requests
        }),
{
    let ghost hops = route.hops@;
    let ghost before = channels@;
    let ghost incoming = records(custom_records);
    let n: usize = route.hops.len();
    let mut requests: Vec<InterceptRequest> = Vec::new();
    let mut progress = PaymentProgress::start(source, route, custom_records);
    let ghost run = add_run(before, source, hops, hash, *replies, incoming, 0);
    assert(request_views(requests@) =~= Seq::empty());
    assert(request_views(requests@) + run.requests =~= run.requests);
    while progress.hop < n
        invariant
            channels.wf(),
            hops == route.hops@,
            n == hops.len(),
            route.wf(),
            progress.at(hops),
            progress.source == source,
            has_room(channels@, hops, amount_from(hops, 0) as int, n - progress.hop),
            before == old(channels)@,
            incoming == records(custom_records),
            run == add_run(before, source, hops, hash, *replies, incoming, 0),
            ({
                let rest = add_run(
                    channels@,
                    source,
                    hops,
                    hash,
                    *replies,
                    records(progress.incoming_custom_records),
                    progress.hop as int,
                );
                &&& run.channels == rest.channels
                &&& run.outcome == rest.outcome
                &&& run.requests == request_views(requests@) + rest.requests
            }),
        decreases n - progress.hop,
    {
        let ghost i = progress.hop as int;
        let ghost current = channels@;
        let ghost carried = records(progress.incoming_custom_records);
        proof {
            lemma_amounts_decrease(hops, 0, i);
            let scid = hop_channel(hops, i);
            if channels@.dom().contains(scid.0) {
                channels.lemma_wf();
                lemma_in_range(
                    channels@,
                    hops,
                    amount_from(hops, 0) as int,
                    n - i,
                    i,
                    progress.outgoing_node,
                    hop_htlc(hops, i),
                );
                lemma_room_after_add(
                    channels@,
                    hops,
                    amount_from(hops, 0) as int,
                    n - i,
                    scid,
                    progress.outgoing_node,
                    hash,
                    hop_htlc(hops, i),
                );
            }
        }
        let request = match add_hop(channels, route, hash, &progress) {
            Ok(Ok(request)) => request,
            Ok(Err(e)) => {
                assert(request_views(requests@) + Seq::empty() =~= request_views(requests@));
                return (Ok(Err(e)), requests);
            },
            Err(e) => {
                assert(request_views(requests@) + Seq::empty() =~= request_views(requests@));
                return (Err(e), requests);
            },
        };
        let ghost asked = request_views(requests@);
        let ghost request_view = request@;
        let incoming_records = copy_records(&request.incoming_custom_records);
        requests.push(request);
        assert(request_views(requests@) =~= asked + seq![request_view]);
        let reply = if progress.hop < replies.intercepts.len() {
            handle_intercepted_htlc(incoming_records, &replies.intercepts[progress.hop])
        } else {
            let none: Vec<InterceptReply> = Vec::new();
            handle_intercepted_htlc(incoming_records, &none)
        };
        if let Some(end) = progress.intercepted(route, reply) {
            return (end, requests);
        }
        proof {
            let carried = records(progress.incoming_custom_records);
            let rest = add_run(channels@, source, hops, hash, *replies, carried, i + 1);
            assert(asked + (seq![request_view] + rest.requests) =~= request_views(requests@) + rest.requests);
        }
    }
    assert(request_views(requests@) + Seq::empty() =~= request_views(requests@));
    (Ok(Ok(())), requests)
}

/// Removes the htlc of a hop of a payment from its channel. The result is the notification to be sent to interceptors.
pub fn remove_hop(
    channels: &mut SimChannels,
    source: &PublicKey,
    route: &Path,
    hash: &PaymentHash,
    success: bool,
    i: usize,
) -> (r: Result<InterceptResolution, CriticalError>)
    requires
        old(channels).wf(),
        i < route.hops@.len(),
    ensures
        final(channels).wf(),
        ({
            let scid = hop_channel(route.hops@, i as int);
            let sender = sender_of(*source, route.hops@, i as int);
            &&& final(channels)@ == after_remove(old(channels)@, scid, sender, *hash, success)
            &&& match remove_outcome(old(channels)@, scid, sender, *hash, success) {
                Err(e) => r == Err::<InterceptResolution, CriticalError>(e),
                Ok((_, index)) => r == Ok::<InterceptResolution, CriticalError>(
                    InterceptResolution {
                        forwarding_node: route.hops@[i as int].pubkey,
                        incoming_htlc: HtlcRef { channel_id: scid, index },
                        outgoing_channel_id: next_channel(route.hops@, i as int),
                        success,
                    },
                ),
            }
        }),
{
    let hop = &route.hops[i];
    // When we add HTLCs, we do so on the state of the node that sent the htlc along the channel so we need to
    // look up our incoming node so that we can remove it when we go backwards. For the first htlc, this is just
    // the sending node, otherwise it's the hop before.
    let incoming_node = if i == 0 {
        *source
    } else {
        route.hops[i - 1].pubkey
    };
    let scid = ShortChannelID::from(hop.short_channel_id);
    // Only the receiving node has no channel to forward over.
    let n: usize = route.hops.len();
    let outgoing_channel_id = if i + 1 < n {
        Some(ShortChannelID::from(route.hops[i + 1].short_channel_id))
    } else {
        None
    };
    match channels.remove_htlc(&scid, &incoming_node, hash, success) {
        Ok((_, index)) => Ok(
            InterceptResolution {
                forwarding_node: hop.pubkey,
                incoming_htlc: HtlcRef { channel_id: scid, index },
                outgoing_channel_id,
                success,
            },
        ),
        Err(e) => Err(e),
    }
}

/// Removes htlcs from the simulation state from the index in the path provided (backwards).
///
/// Taking the example of a payment over A --> B --> C --> D where the payment was rejected by C because it did not
/// have enough liquidity to forward it, we will expect a failure index of 1 because the HTLC was successfully added
/// to A and B's outgoing channels, but not C.
///
/// This function will remove the HTLC one hop at a time, working backwards from the failure index, so in this
/// case B --> C and then B --> A. We lookup the HTLC on the incoming node because it will have tracked it in its
/// outgoing in-flight HTLCs.
///
/// The notifications to interceptors are returned along with the outcome, in order.
pub fn remove_htlcs(
    channels: &mut SimChannels,
    resolution_idx: usize,
    source: &PublicKey,
    route: &Path,
    hash: &PaymentHash,
    success: bool,
    replies: &InterceptorReplies,
) -> (r: (Result<(), CriticalError>, Vec<InterceptResolution>))
    requires
        old(channels).wf(),
        resolution_idx < route.hops@.len(),
    ensures
        final(channels).wf(),
        ({
            let run = remove_run(
                old(channels)@,
                *source,
                route.hops@,
                *hash,
                success,
                *replies,
                resolution_idx as int,
                0,
            );
            &&& final(channels)@ == run.channels
            &&& r.0 == run.outcome
            &&& r.1@ == run.resolutions
        }),
{
    let ghost hops = route.hops@;
    let ghost run = remove_run(channels@, *source, hops, *hash, success, *replies, resolution_idx as int, 0);
    let mut resolutions: Vec<InterceptResolution> = Vec::new();
    let ghost n = route.hops.len();
    assert(resolution_idx < n);
    let mut left: usize = resolution_idx + 1;
    assert(resolutions@ + run.resolutions =~= run.resolutions);
    while left > 0
        invariant
            channels.wf(),
            hops == route.hops@,
            left <= hops.len(),
            run == remove_run(
                old(channels)@,
                *source,
                hops,
                *hash,
                success,
                *replies,
                resolution_idx as int,
                0,
            ),
            ({
                let rest = remove_run(
                    channels@,
                    *source,
                    hops,
                    *hash,
                    success,
                    *replies,
                    left - 1,
                    0,
                );
                &&& run.channels == rest.channels
                &&& run.outcome == rest.outcome
                &&& run.resolutions == resolutions@ + rest.resolutions
            }),
        decreases left,
    {
        let i: usize = left - 1;
        let ghost seen = resolutions@;
        match remove_hop(channels, source, route, hash, success, i) {
            Ok(resolution) => {
                resolutions.push(resolution);
                assert(resolutions@ =~= seen + seq![resolution]);
            },
            Err(e) => {
                assert(resolutions@ + Seq::empty() =~= resolutions@);
                return (Err(e), resolutions);
            },
        }
        if i < replies.acks.len() {
            if let Some(e) = &replies.acks[i] {
                return (Err(e.clone()), resolutions);
            }
        }
        left = i;
        proof {
            let rest = remove_run(channels@, *source, hops, *hash, success, *replies, left - 1, 0);
            assert(seen + (seq![resolutions@.last()] + rest.resolutions) =~= resolutions@ + rest.resolutions);
        }
    }
    assert(resolutions@ + Seq::empty() =~= resolutions@);
    (Ok(()), resolutions)
}

/// What the propagation of a payment reports.
#[derive(Debug)]
pub struct PaymentReport {
    /// The result that is reported to the sender of the payment.
    pub result: PaymentResult,
    /// Whether the simulation has to shut down.
    pub shutdown: bool,
    /// What interceptors were asked, in order.
    pub requests: Vec<InterceptRequest>,
    /// What interceptors were notified of, in order.
    pub resolutions: Vec<InterceptResolution>,
}

/// What follows once htlcs were added along the route of a payment.
#[derive(Debug, Clone, Copy)]
pub struct PaymentStep {
    /// The result that is reported to the sender of the payment.
    pub result: PaymentResult,
    /// The hop from which htlcs are to be removed (backwards), if any were added.
    pub resolution_idx: Option<usize>,
    /// Whether the htlcs that are removed succeeded.
    pub success: bool,
    /// Whether the simulation has to shut down.
    pub shutdown: bool,
}

/// What follows once htlcs were added along a route with a number of hops. If all of them were added, they are removed
/// with success. If some of them were added, they are failed back to the source. A critical error leaves them in place
/// and shuts the simulation down.
pub open spec fn payment_step(added: AddResult, hops: int) -> PaymentStep {
    match added {
        Ok(Ok(())) => PaymentStep {
            result: PaymentResult { htlc_count: 1, payment_outcome: PaymentOutcome::Success },
            resolution_idx: Some((hops - 1) as usize),
            success: true,
            shutdown: false,
        },
        Ok(Err((fail_idx, _))) => PaymentStep {
            result: PaymentResult {
                htlc_count: 0,
                payment_outcome: PaymentOutcome::IndexFailure(
                    match fail_idx {
                        Some(i) => i,
                        None => 0,
                    },
                ),
            },
            resolution_idx: fail_idx,
            success: false,
            shutdown: false,
        },
        Err(_) => PaymentStep {
            result: PaymentResult { htlc_count: 0, payment_outcome: PaymentOutcome::Unknown },
            resolution_idx: None,
            success: false,
            shutdown: true,
        },
    }
}

/// Decides what follows once htlcs were added along the route of a payment.
pub fn resolve_payment(added: &AddResult, route: &Path) -> (step: PaymentStep)
    requires
        route.hops@.len() > 0,
    ensures
        step == payment_step(*added, route.hops@.len() as int),
{
    match added {
        // If we successfully added the htlc, go ahead and remove all the htlcs in the route with successful
        // resolution.
        Ok(Ok(())) => PaymentStep {
            result: PaymentResult { htlc_count: 1, payment_outcome: PaymentOutcome::Success },
            resolution_idx: Some(route.hops.len() - 1),
            success: true,
            shutdown: false,
        },
        // If we partially added HTLCs along the route, we need to fail them back to the source to clean up our partial
        // state. It's possible that we failed with the very first add, and then we don't need to clean anything up.
        Ok(Err((fail_idx, _))) => {
            let index: usize = match fail_idx {
                Some(i) => *i,
                None => 0,
            };
            PaymentStep {
                result: PaymentResult { htlc_count: 0, payment_outcome: PaymentOutcome::IndexFailure(index) },
                resolution_idx: *fail_idx,
                success: false,
                shutdown: false,
            }
        },
        Err(_) => PaymentStep {
            result: PaymentResult { htlc_count: 0, payment_outcome: PaymentOutcome::Unknown },
            resolution_idx: None,
            success: false,
            shutdown: true,
        },
    }
}

/// Propagates the htlcs of a payment through the simulated network along the path provided, and reports the outcome.
/// If a critical error occurs, ie a breakdown of our state machine, the report still holds the payment outcome and
/// says that the simulation should shut down.
pub fn propagate_payment(
    channels: &mut SimChannels,
    source: PublicKey,
    route: &Path,
    hash: PaymentHash,
    replies: &InterceptorReplies,
    custom_records: CustomRecords,
) -> (report: PaymentReport)
    requires
        old(channels).wf(),
        route.wf(),
        has_room(old(channels)@, route.hops@, amount_from(route.hops@, 0) as int, route.hops@.len() as int),
    ensures
        final(channels).wf(),
        ({
            let run = payment_run(
                old(channels)@,
                source,
                route.hops@,
                hash,
                *replies,
                records(custom_records),
            );
            &&& final(channels)@ == run.channels
            &&& report.result == run.result
            &&& report.shutdown == run.shutdown
            &&& request_views(report.requests@) == run.requests
            &&& report.resolutions@ == run.resolutions
        }),
{
    let ghost before = channels@;
    let ghost incoming = records(custom_records);
    let (added, requests) = add_htlcs(channels, source, route, hash, replies, custom_records);
    let ghost n = route.hops.len();
    proof {
        lemma_add_index(before, source, route.hops@, hash, *replies, incoming, 0);
    }
    let step = resolve_payment(&added, route);
    match step.resolution_idx {
        Some(resolution_idx) => {
            let (removed, resolutions) = remove_htlcs(
                channels,
                resolution_idx,
                &source,
                route,
                &hash,
                step.success,
                replies,
            );
            PaymentReport { result: step.result, shutdown: removed.is_err(), requests, resolutions }
        },
        None => PaymentReport { result: step.result, shutdown: step.shutdown, requests, resolutions: Vec::new() },
    }
}

/// A payment that fails from a hop on fails at most at the last hop, and at least at the hop before that hop.
proof fn lemma_add_index(
    channels: ChannelMap,
    source: PublicKey,
    hops: Seq<RouteHop>,
    hash: PaymentHash,
    replies: InterceptorReplies,
    incoming: Records,
    i: int,
)
    requires
        0 <= i <= hops.len() <= usize::MAX,
    ensures
        add_run(channels, source, hops, hash, replies, incoming, i).outcome matches Ok(Err((Some(idx), _))) ==> i - 1
            <= idx < hops.len(),
        add_run(channels, source, hops, hash, replies, incoming, i).outcome matches Ok(Err((None, _))) ==> i == 0,
    decreases hops.len() - i,
{
    if i < hops.len() {
        if let Ok(Ok(_)) = hop_added(channels, source, hops, hash, i) {
            let added = after_hop(channels, source, hops, hash, i);
            if let Ok(Ok(attached)) = intercept_outcome(incoming, replies.intercept(i)) {
                lemma_add_index(added, source, hops, hash, replies, attached, i + 1);
            }
        }
    }
}

} // verus!
