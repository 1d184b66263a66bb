//! What holds of the propagation of any payment: funds are conserved, a failed payment leaves no trace in balances and
//! htlcs in flight, and a successful one moves the amount of each hop to the other side of its channel.
use crate::channel::{
    law_added_htlc_can_be_removed, law_failed_htlc_is_undone, law_forward_is_accepted_for_its_fee, law_funds_are_conserved,
    law_successful_htlc_moves_its_amount, ChannelPolicy, ChannelView, CriticalError, ForwardingError, Htlc,
};
use crate::intercept::{
    disagree, intercept_outcome, law_critical_reply_ends_the_simulation, law_htlc_passes_if_all_let_it_pass, InterceptReply,
    Records,
};
use crate::network::{after_remove, remove_outcome, ChannelMap};
use crate::node::ShortChannelID;
use crate::payment::PaymentOutcome;
use crate::primitives::{PaymentHash, PublicKey};
use crate::propagate::{
    add_run, after_hop, has_indexes, hop_added, hop_channel, hop_forwarded, hop_htlc, next_channel, payment_run, remove_run,
    InterceptorReplies, PaymentProgress,
};
use crate::route::{
    amount_from, expiry_from, law_htlcs_carry_the_fees_of_later_hops, lemma_amounts_decrease, sender_of, RouteHop,
};
use vstd::prelude::*;

verus! {

/// All channels are well formed.
pub open spec fn all_wf(channels: ChannelMap) -> bool {
    forall|k: u64| #[trigger] channels.dom().contains(k) ==> channels[k].wf()
}

/// Two networks have the same channels, with the same balances and htlcs in flight.
pub open spec fn same_funds(a: ChannelMap, b: ChannelMap) -> bool {
    &&& a.dom() == b.dom()
    &&& forall|k: u64| #[trigger] a.dom().contains(k) ==> a[k].same_funds(b[k])
}

/// Two networks have the same channels, with the same capacities and the same sums of balances and htlcs in flight.
pub open spec fn same_totals(a: ChannelMap, b: ChannelMap) -> bool {
    &&& a.dom() == b.dom()
    &&& forall|k: u64| #[trigger]
        a.dom().contains(k) ==> a[k].capacity == b[k].capacity && a[k].total() == b[k].total()
}

/// The network once the amount of a hop was moved to the balance of the node that the hop leads to.
pub open spec fn hop_transferred(channels: ChannelMap, source: PublicKey, hops: Seq<RouteHop>, i: int) -> ChannelMap {
    channels.insert(
        hop_channel(hops, i).0,
        channels[hop_channel(hops, i).0].transferred(sender_of(source, hops, i), amount_from(hops, i) as int),
    )
}

/// The network once the amounts of all hops from a position on were moved.
pub open spec fn transfers(channels: ChannelMap, source: PublicKey, hops: Seq<RouteHop>, i: int) -> ChannelMap
    decreases hops.len() - i,
{
    if i < 0 || i >= hops.len() {
        channels
    } else {
        transfers(hop_transferred(channels, source, hops, i), source, hops, i + 1)
    }
}

proof fn lemma_remove_respects(
    a: ChannelMap,
    b: ChannelMap,
    scid: ShortChannelID,
    sender: PublicKey,
    hash: PaymentHash,
    success: bool,
)
    requires
        same_funds(a, b),
    ensures
        remove_outcome(a, scid, sender, hash, success) == remove_outcome(b, scid, sender, hash, success),
        same_funds(after_remove(a, scid, sender, hash, success), after_remove(b, scid, sender, hash, success)),
{
    if a.dom().contains(scid.0) {
        assert(a[scid.0].same_funds(b[scid.0]));
    }
    let ra = after_remove(a, scid, sender, hash, success);
    let rb = after_remove(b, scid, sender, hash, success);
    assert(ra.dom() =~= rb.dom());
}

/// The removal of the htlcs of a route can be split at any hop.
proof fn lemma_remove_run_split(
    channels: ChannelMap,
    source: PublicKey,
    hops: Seq<RouteHop>,
    hash: PaymentHash,
    success: bool,
    replies: InterceptorReplies,
    from: int,
    mid: int,
    to: int,
)
    requires
        to <= mid + 1,
        mid <= from,
        remove_run(channels, source, hops, hash, success, replies, from, mid + 1).outcome is Ok,
    ensures
        ({
            let first = remove_run(channels, source, hops, hash, success, replies, from, mid + 1);
            let rest = remove_run(first.channels, source, hops, hash, success, replies, mid, to);
            let whole = remove_run(channels, source, hops, hash, success, replies, from, to);
            whole.channels == rest.channels && whole.outcome == rest.outcome
        }),
    decreases from - mid,
{
    if from > mid {
        let scid = hop_channel(hops, from);
        let sender = sender_of(source, hops, from);
        let removed = after_remove(channels, scid, sender, hash, success);
        lemma_remove_run_split(
            removed,
            source,
            hops,
            hash,
            success,
            replies,
            from - 1,
            mid,
            to,
        );
    }
}

/// The removal of the htlc of a single hop.
proof fn lemma_remove_one(
    channels: ChannelMap,
    source: PublicKey,
    hops: Seq<RouteHop>,
    hash: PaymentHash,
    success: bool,
    replies: InterceptorReplies,
    i: int,
)
    requires
        remove_outcome(channels, hop_channel(hops, i), sender_of(source, hops, i), hash, success) is Ok,
        replies.ack(i) is None,
    ensures
        ({
            let run = remove_run(channels, source, hops, hash, success, replies, i, i);
            &&& run.outcome is Ok
            &&& run.channels == after_remove(
                channels,
                hop_channel(hops, i),
                sender_of(source, hops, i),
                hash,
                success,
            )
        }),
{
    reveal_with_fuel(remove_run, 2);
}

/// An htlc that was added at a hop leaves well formed channels with the same sums, from which it can be removed.
proof fn lemma_hop(
    channels: ChannelMap,
    source: PublicKey,
    hops: Seq<RouteHop>,
    hash: PaymentHash,
    i: int,
    left: int,
    success: bool,
)
    requires
        all_wf(channels),
        0 <= i < hops.len(),
        has_indexes(channels, hops, left),
        left >= 1,
        hop_added(channels, source, hops, hash, i) matches Ok(Ok(_)),
    ensures
        ({
            let added = after_hop(channels, source, hops, hash, i);
            let scid = hop_channel(hops, i);
            let sender = sender_of(source, hops, i);
            &&& channels.dom().contains(scid.0)
            &&& all_wf(added)
            &&& same_totals(added, channels)
            &&& has_indexes(added, hops, left - 1)
            &&& added[scid.0].holds(sender, hash)
            &&& added[scid.0].htlc(sender, hash).0 == hop_htlc(hops, i)
            &&& remove_outcome(added, scid, sender, hash, success) is Ok
            &&& same_funds(after_remove(added, scid, sender, hash, false), channels)
        }),
{
    let scid = hop_channel(hops, i);
    let sender = sender_of(source, hops, i);
    let htlc = hop_htlc(hops, i);
    let c = channels[scid.0];
    assert(channels.dom().contains(scid.0));
    assert(c.wf());
    law_funds_are_conserved(c, sender, hash, htlc, success);
    law_added_htlc_can_be_removed(c, sender, hash, htlc, success);
    law_failed_htlc_is_undone(c, sender, hash, htlc);
    let added = after_hop(channels, source, hops, hash, i);
    assert(added.dom() =~= channels.dom());
    let undone = after_remove(added, scid, sender, hash, false);
    assert(undone.dom() =~= channels.dom());
}

/// A payment that fails before an htlc is added at a hop leaves the channels as they are from that hop on.
proof fn lemma_not_added(
    channels: ChannelMap,
    source: PublicKey,
    hops: Seq<RouteHop>,
    hash: PaymentHash,
    replies: InterceptorReplies,
    incoming: Records,
    i: int,
)
    requires
        0 <= i <= hops.len() <= usize::MAX,
    ensures
        ({
            let run = add_run(channels, source, hops, hash, replies, incoming, i);
            &&& run.outcome matches Ok(Err((Some(idx), _))) ==> i - 1 <= idx < hops.len() && (idx == i - 1
                ==> run.channels == channels)
            &&& run.outcome matches Ok(Err((None, _))) ==> i == 0 && run.channels == channels
        }),
    decreases hops.len() - i,
{
    if i < hops.len() {
        if let Ok(Ok(_)) = hop_added(channels, source, hops, hash, i) {
            let added = after_hop(channels, source, hops, hash, i);
            if let Ok(Ok(attached)) = intercept_outcome(incoming, replies.intercept(i)) {
                lemma_not_added(added, source, hops, hash, replies, attached, i + 1);
            }
        }
    }
}

/// Removing the htlcs that a failed payment added from a hop on restores the funds of all channels.
proof fn lemma_failure_is_undone(
    channels: ChannelMap,
    source: PublicKey,
    hops: Seq<RouteHop>,
    hash: PaymentHash,
    replies: InterceptorReplies,
    incoming: Records,
    i: int,
    idx: int,
)
    requires
        0 <= i <= idx < hops.len() <= usize::MAX,
        all_wf(channels),
        has_indexes(channels, hops, hops.len() - i),
        forall|j: int| #[trigger] replies.ack(j) is None,
        add_run(channels, source, hops, hash, replies, incoming, i).outcome matches Ok(Err((Some(f), _))) && f == idx,
    ensures
        ({
            let run = add_run(channels, source, hops, hash, replies, incoming, i);
            let removed = remove_run(run.channels, source, hops, hash, false, replies, idx, i);
            removed.outcome is Ok && same_funds(removed.channels, channels)
        }),
    decreases hops.len() - i,
{
    let run = add_run(channels, source, hops, hash, replies, incoming, i);
    let added = after_hop(channels, source, hops, hash, i);
    let scid = hop_channel(hops, i);
    let sender = sender_of(source, hops, i);
    assert(hop_added(channels, source, hops, hash, i) matches Ok(Ok(_)));
    lemma_hop(channels, source, hops, hash, i, hops.len() - i, false);
    assert(replies.ack(i) is None);
    if let Ok(Ok(())) = hop_forwarded(added, hops, i) {
        if let Ok(Ok(attached)) = intercept_outcome(incoming, replies.intercept(i)) {
            let rest = add_run(added, source, hops, hash, replies, attached, i + 1);
            lemma_not_added(added, source, hops, hash, replies, attached, i + 1);
            if idx == i {
                assert(rest.channels == added);
            } else {
                lemma_failure_is_undone(
                    added,
                    source,
                    hops,
                    hash,
                    replies,
                    attached,
                    i + 1,
                    idx,
                );
                let later = remove_run(run.channels, source, hops, hash, false, replies, idx, i + 1);
                lemma_remove_respects(later.channels, added, scid, sender, hash, false);
                lemma_same_funds_trans(
                    after_remove(later.channels, scid, sender, hash, false),
                    after_remove(added, scid, sender, hash, false),
                    channels,
                );
                lemma_remove_run_split(
                    run.channels,
                    source,
                    hops,
                    hash,
                    false,
                    replies,
                    idx,
                    i,
                    i,
                );
                lemma_remove_one(later.channels, source, hops, hash, false, replies, i);
            }
        }
    }
    if idx == i {
        assert(run.channels == added);
        lemma_remove_one(added, source, hops, hash, false, replies, i);
    }
}

proof fn lemma_same_funds_trans(a: ChannelMap, b: ChannelMap, c: ChannelMap)
    requires
        same_funds(a, b),
        same_funds(b, c),
    ensures
        same_funds(a, c),
{
    assert forall|k: u64| #[trigger] a.dom().contains(k) implies a[k].same_funds(c[k]) by {
        assert(b.dom().contains(k));
    }
}

/// A payment that fails with a forwarding error leaves the balances and the htlcs in flight of all channels as they
/// were, and does not shut the simulation down, unless an interceptor fails to acknowledge the resolution of an htlc.
pub proof fn law_failed_payment_changes_no_funds(
    channels: ChannelMap,
    source: PublicKey,
    hops: Seq<RouteHop>,
    hash: PaymentHash,
    replies: InterceptorReplies,
    incoming: Records,
)
    requires
        0 < hops.len() <= usize::MAX,
        all_wf(channels),
        has_indexes(channels, hops, hops.len() as int),
        forall|j: int| #[trigger] replies.ack(j) is None,
        payment_run(channels, source, hops, hash, replies, incoming).result.payment_outcome is IndexFailure,
    ensures
        same_funds(payment_run(channels, source, hops, hash, replies, incoming).channels, channels),
        !payment_run(channels, source, hops, hash, replies, incoming).shutdown,
{
    let run = add_run(channels, source, hops, hash, replies, incoming, 0);
    lemma_not_added(channels, source, hops, hash, replies, incoming, 0);
    if let Ok(Err((Some(idx), _))) = run.outcome {
        lemma_failure_is_undone(channels, source, hops, hash, replies, incoming, 0, idx as int);
    }
}

/// Failing the htlcs that a payment added from a hop to the end of its route restores the funds of all channels.
proof fn lemma_addition_is_undone(
    channels: ChannelMap,
    source: PublicKey,
    hops: Seq<RouteHop>,
    hash: PaymentHash,
    replies: InterceptorReplies,
    incoming: Records,
    acks: InterceptorReplies,
    i: int,
)
    requires
        0 <= i <= hops.len(),
        all_wf(channels),
        has_indexes(channels, hops, hops.len() - i),
        forall|j: int| #[trigger] acks.ack(j) is None,
        add_run(channels, source, hops, hash, replies, incoming, i).outcome matches Ok(Ok(_)),
    ensures
        ({
            let run = add_run(channels, source, hops, hash, replies, incoming, i);
            let removed = remove_run(run.channels, source, hops, hash, false, acks, hops.len() - 1, i);
            removed.outcome is Ok && same_funds(removed.channels, channels)
        }),
    decreases hops.len() - i,
{
    let run = add_run(channels, source, hops, hash, replies, incoming, i);
    if i < hops.len() {
        let added = after_hop(channels, source, hops, hash, i);
        let scid = hop_channel(hops, i);
        let sender = sender_of(source, hops, i);
        assert(hop_added(channels, source, hops, hash, i) matches Ok(Ok(_)));
        lemma_hop(channels, source, hops, hash, i, hops.len() - i, false);
        assert(acks.ack(i) is None);
        let attached = intercept_outcome(incoming, replies.intercept(i))->Ok_0->Ok_0;
        lemma_addition_is_undone(added, source, hops, hash, replies, attached, acks, i + 1);
        let later = remove_run(run.channels, source, hops, hash, false, acks, hops.len() - 1, i + 1);
        lemma_remove_respects(later.channels, added, scid, sender, hash, false);
        lemma_same_funds_trans(
            after_remove(later.channels, scid, sender, hash, false),
            after_remove(added, scid, sender, hash, false),
            channels,
        );
        lemma_remove_run_split(run.channels, source, hops, hash, false, acks, hops.len() - 1, i, i);
        lemma_remove_one(later.channels, source, hops, hash, false, acks, i);
    }
}

/// A payment whose htlcs were added along its whole route can be failed from its last hop on. That succeeds and gives back
/// the balances and the htlcs in flight of all channels, unless an interceptor fails to acknowledge the resolution of an
/// htlc.
pub proof fn law_failing_an_added_payment_gives_back_all_funds(
    channels: ChannelMap,
    source: PublicKey,
    hops: Seq<RouteHop>,
    hash: PaymentHash,
    replies: InterceptorReplies,
    incoming: Records,
    acks: InterceptorReplies,
)
    requires
        all_wf(channels),
        has_indexes(channels, hops, hops.len() as int),
        forall|j: int| #[trigger] acks.ack(j) is None,
        add_run(channels, source, hops, hash, replies, incoming, 0).outcome == Ok::<
            Result<(), (Option<usize>, ForwardingError)>,
            CriticalError,
        >(Ok(())),
    ensures
        ({
            let added = add_run(channels, source, hops, hash, replies, incoming, 0).channels;
            let removed = remove_run(added, source, hops, hash, false, acks, hops.len() - 1, 0);
            removed.outcome is Ok && same_funds(removed.channels, channels)
        }),
{
    lemma_addition_is_undone(channels, source, hops, hash, replies, incoming, acks, 0);
}

/// Interceptors are notified once for each hop, from the one that a payment is resolved at back to the first one. Each
/// notification names the node and the channel that the hop leads to and over, and the channel of the next hop, which
/// only the receiver of the payment does not have.
pub proof fn law_every_hop_is_notified(
    channels: ChannelMap,
    source: PublicKey,
    hops: Seq<RouteHop>,
    hash: PaymentHash,
    success: bool,
    replies: InterceptorReplies,
    from: int,
)
    requires
        -1 <= from < hops.len(),
        remove_run(channels, source, hops, hash, success, replies, from, 0).outcome is Ok,
    ensures
        ({
            let told = remove_run(channels, source, hops, hash, success, replies, from, 0).resolutions;
            &&& told.len() == from + 1
            &&& forall|j: int|
                0 <= j <= from ==> {
                    let r = #[trigger] told[j];
                    &&& r.forwarding_node == hops[from - j].pubkey
                    &&& r.incoming_htlc.channel_id == hop_channel(hops, from - j)
                    &&& r.outgoing_channel_id == next_channel(hops, from - j)
                    &&& (r.outgoing_channel_id is None <==> from - j == hops.len() - 1)
                    &&& r.success == success
                }
        }),
    decreases from + 1,
{
    if from >= 0 {
        let scid = hop_channel(hops, from);
        let removed = after_remove(channels, scid, sender_of(source, hops, from), hash, success);
        law_every_hop_is_notified(removed, source, hops, hash, success, replies, from - 1);
        let rest = remove_run(removed, source, hops, hash, success, replies, from - 1, 0).resolutions;
        let told = remove_run(channels, source, hops, hash, success, replies, from, 0).resolutions;
        assert forall|j: int| 1 <= j <= from implies #[trigger] told[j] == rest[j - 1] by {}
    }
}

/// A payment that fails names a hop of its route. It names the first one where no htlc was added at all.
pub proof fn law_failure_index_is_a_hop(
    channels: ChannelMap,
    source: PublicKey,
    hops: Seq<RouteHop>,
    hash: PaymentHash,
    replies: InterceptorReplies,
    incoming: Records,
)
    requires
        0 < hops.len() <= usize::MAX,
    ensures
        payment_run(channels, source, hops, hash, replies, incoming).result.payment_outcome
            matches PaymentOutcome::IndexFailure(idx) ==> idx < hops.len(),
        hop_added(channels, source, hops, hash, 0) matches Ok(Err(_)) ==> payment_run(
            channels,
            source,
            hops,
            hash,
            replies,
            incoming,
        ).result.payment_outcome == PaymentOutcome::IndexFailure(0),
{
    lemma_not_added(channels, source, hops, hash, replies, incoming, 0);
}

proof fn lemma_transfer_commutes(
    channels: ChannelMap,
    source: PublicKey,
    hops: Seq<RouteHop>,
    hash: PaymentHash,
    scid: ShortChannelID,
    sender: PublicKey,
    j: int,
)
    requires
        0 <= j,
        remove_outcome(channels, scid, sender, hash, true) is Ok,
    ensures
        remove_outcome(transfers(channels, source, hops, j), scid, sender, hash, true) == remove_outcome(
            channels,
            scid,
            sender,
            hash,
            true,
        ),
        after_remove(transfers(channels, source, hops, j), scid, sender, hash, true) == transfers(
            after_remove(channels, scid, sender, hash, true),
            source,
            hops,
            j,
        ),
    decreases hops.len() - j,
{
    if j < hops.len() {
        let next = hop_transferred(channels, source, hops, j);
        let c = channels[scid.0];
        let removed = after_remove(channels, scid, sender, hash, true);
        assert(next.dom().contains(scid.0));
        assert(remove_outcome(next, scid, sender, hash, true) == remove_outcome(channels, scid, sender, hash, true));
        assert(after_remove(next, scid, sender, hash, true) =~= hop_transferred(removed, source, hops, j));
        lemma_transfer_commutes(next, source, hops, hash, scid, sender, j + 1);
    }
}

proof fn lemma_transfers_respect(a: ChannelMap, b: ChannelMap, source: PublicKey, hops: Seq<RouteHop>, j: int)
    requires
        0 <= j,
        same_funds(a, b),
        forall|k: int| j <= k < hops.len() ==> a.dom().contains((#[trigger] hops[k]).short_channel_id),
    ensures
        same_funds(transfers(a, source, hops, j), transfers(b, source, hops, j)),
    decreases hops.len() - j,
{
    if j < hops.len() {
        let na = hop_transferred(a, source, hops, j);
        let nb = hop_transferred(b, source, hops, j);
        assert(a.dom().contains(hops[j].short_channel_id));
        assert(na.dom() =~= a.dom());
        assert(nb.dom() =~= b.dom());
        assert(same_funds(na, nb)) by {
            assert forall|k: u64| #[trigger] na.dom().contains(k) implies na[k].same_funds(nb[k]) by {
                assert(a[k].same_funds(b[k]));
            }
        }
        lemma_transfers_respect(na, nb, source, hops, j + 1);
    }
}

/// Removing the htlcs that a successful payment added from a hop on moves the amounts of these hops.
proof fn lemma_success_moves_amounts(
    channels: ChannelMap,
    source: PublicKey,
    hops: Seq<RouteHop>,
    hash: PaymentHash,
    replies: InterceptorReplies,
    incoming: Records,
    i: int,
)
    requires
        0 <= i <= hops.len(),
        amount_from(hops, 0) <= u64::MAX,
        all_wf(channels),
        has_indexes(channels, hops, hops.len() - i),
        forall|j: int| #[trigger] replies.ack(j) is None,
        add_run(channels, source, hops, hash, replies, incoming, i).outcome matches Ok(Ok(_)),
    ensures
        ({
            let run = add_run(channels, source, hops, hash, replies, incoming, i);
            let removed = remove_run(run.channels, source, hops, hash, true, replies, hops.len() - 1, i);
            &&& removed.outcome is Ok
            &&& same_funds(removed.channels, transfers(channels, source, hops, i))
            &&& forall|k: int| i <= k < hops.len() ==> channels.dom().contains((#[trigger] hops[k]).short_channel_id)
        }),
    decreases hops.len() - i,
{
    let run = add_run(channels, source, hops, hash, replies, incoming, i);
    if i < hops.len() {
        let added = after_hop(channels, source, hops, hash, i);
        let scid = hop_channel(hops, i);
        let sender = sender_of(source, hops, i);
        let htlc = hop_htlc(hops, i);
        assert(hop_added(channels, source, hops, hash, i) matches Ok(Ok(_)));
        lemma_amounts_decrease(hops, 0, i);
        lemma_hop(channels, source, hops, hash, i, hops.len() - i, true);
        assert(replies.ack(i) is None);
        let attached = intercept_outcome(incoming, replies.intercept(i))->Ok_0->Ok_0;
        let rest = add_run(added, source, hops, hash, replies, attached, i + 1);
        assert(rest.channels == run.channels);
        lemma_success_moves_amounts(added, source, hops, hash, replies, attached, i + 1);
        assert forall|k: int| i <= k < hops.len() implies channels.dom().contains(
            (#[trigger] hops[k]).short_channel_id,
        ) by {
            if k > i {
                assert(added.dom().contains(hops[k].short_channel_id));
            }
        }
        let later = remove_run(run.channels, source, hops, hash, true, replies, hops.len() - 1, i + 1);
        let moved = transfers(added, source, hops, i + 1);
        // The htlc of this hop is removed from a network with the same funds as one where the later amounts moved.
        lemma_remove_respects(later.channels, moved, scid, sender, hash, true);
        lemma_transfer_commutes(added, source, hops, hash, scid, sender, i + 1);
        let removed = after_remove(added, scid, sender, hash, true);
        let target = hop_transferred(channels, source, hops, i);
        assert(same_funds(removed, target)) by {
            law_successful_htlc_moves_its_amount(channels[scid.0], sender, hash, htlc);
            assert(removed.dom() =~= channels.dom());
            assert(target.dom() =~= channels.dom());
            assert forall|k: u64| #[trigger] removed.dom().contains(k) implies removed[k].same_funds(target[k]) by {
                if k == scid.0 {
                    assert(htlc.amount_msat == amount_from(hops, i));
                }
            }
        }
        assert forall|k: int| i + 1 <= k < hops.len() implies removed.dom().contains(
            (#[trigger] hops[k]).short_channel_id,
        ) by {
            assert(added.dom().contains(hops[k].short_channel_id));
        }
        lemma_transfers_respect(removed, target, source, hops, i + 1);
        lemma_same_funds_trans(
            after_remove(later.channels, scid, sender, hash, true),
            after_remove(moved, scid, sender, hash, true),
            transfers(target, source, hops, i + 1),
        );
        lemma_remove_run_split(
            run.channels,
            source,
            hops,
            hash,
            true,
            replies,
            hops.len() - 1,
            i,
            i,
        );
        lemma_remove_one(later.channels, source, hops, hash, true, replies, i);
    }
}

/// A successful payment moves, for each hop of its route, the amount of that hop from the balance of the node that
/// sends it to the balance of the node that the hop leads to, and nothing else: all balances are otherwise as before,
/// and no htlc of the payment is left in flight. It does not shut the simulation down, unless an interceptor fails to
/// acknowledge the resolution of an htlc.
pub proof fn law_successful_payment_moves_amounts(
    channels: ChannelMap,
    source: PublicKey,
    hops: Seq<RouteHop>,
    hash: PaymentHash,
    replies: InterceptorReplies,
    incoming: Records,
)
    requires
        0 < hops.len() <= usize::MAX,
        amount_from(hops, 0) <= u64::MAX,
        all_wf(channels),
        has_indexes(channels, hops, hops.len() as int),
        forall|j: int| #[trigger] replies.ack(j) is None,
        payment_run(channels, source, hops, hash, replies, incoming).result.payment_outcome is Success,
    ensures
        same_funds(
            payment_run(channels, source, hops, hash, replies, incoming).channels,
            transfers(channels, source, hops, 0),
        ),
        !payment_run(channels, source, hops, hash, replies, incoming).shutdown,
{
    let run = add_run(channels, source, hops, hash, replies, incoming, 0);
    assert(run.outcome matches Ok(Ok(())));
    lemma_success_moves_amounts(channels, source, hops, hash, replies, incoming, 0);
}

proof fn lemma_add_keeps_totals(
    channels: ChannelMap,
    source: PublicKey,
    hops: Seq<RouteHop>,
    hash: PaymentHash,
    replies: InterceptorReplies,
    incoming: Records,
    i: int,
)
    requires
        0 <= i <= hops.len(),
        all_wf(channels),
        has_indexes(channels, hops, hops.len() - i),
    ensures
        all_wf(add_run(channels, source, hops, hash, replies, incoming, i).channels),
        same_totals(add_run(channels, source, hops, hash, replies, incoming, i).channels, channels),
    decreases hops.len() - i,
{
    if i < hops.len() {
        if let Ok(Ok(_)) = hop_added(channels, source, hops, hash, i) {
            lemma_hop(channels, source, hops, hash, i, hops.len() - i, false);
            let added = after_hop(channels, source, hops, hash, i);
            if let Ok(Ok(attached)) = intercept_outcome(incoming, replies.intercept(i)) {
                lemma_add_keeps_totals(added, source, hops, hash, replies, attached, i + 1);
            }
        }
    }
}

proof fn lemma_remove_keeps_totals(
    channels: ChannelMap,
    source: PublicKey,
    hops: Seq<RouteHop>,
    hash: PaymentHash,
    success: bool,
    replies: InterceptorReplies,
    from: int,
)
    requires
        all_wf(channels),
    ensures
        all_wf(remove_run(channels, source, hops, hash, success, replies, from, 0).channels),
        same_totals(
            remove_run(channels, source, hops, hash, success, replies, from, 0).channels,
            channels,
        ),
    decreases from + 1,
{
    if from >= 0 {
        let scid = hop_channel(hops, from);
        let sender = sender_of(source, hops, from);
        let removed = after_remove(channels, scid, sender, hash, success);
        if channels.dom().contains(scid.0) && channels[scid.0].holds(sender, hash) {
            law_funds_are_conserved(
                channels[scid.0],
                sender,
                hash,
                Htlc { amount_msat: 0, cltv_expiry: 0 },
                success,
            );
        }
        assert(removed.dom() =~= channels.dom());
        lemma_remove_keeps_totals(removed, source, hops, hash, success, replies, from - 1);
    }
}

/// No payment creates or destroys funds: on each channel the sum of the balances and of what is in flight stays the
/// same, whatever becomes of the payment. So a channel whose funds make up its capacity keeps doing so.
pub proof fn law_payment_conserves_funds(
    channels: ChannelMap,
    source: PublicKey,
    hops: Seq<RouteHop>,
    hash: PaymentHash,
    replies: InterceptorReplies,
    incoming: Records,
)
    requires
        0 < hops.len() <= usize::MAX,
        all_wf(channels),
        has_indexes(channels, hops, hops.len() as int),
    ensures
        all_wf(payment_run(channels, source, hops, hash, replies, incoming).channels),
        same_totals(payment_run(channels, source, hops, hash, replies, incoming).channels, channels),
        forall|k: u64| #[trigger]
            channels.dom().contains(k) && channels[k].sane() ==> payment_run(
                channels,
                source,
                hops,
                hash,
                replies,
                incoming,
            ).channels[k].sane(),
{
    let run = add_run(channels, source, hops, hash, replies, incoming, 0);
    lemma_add_keeps_totals(channels, source, hops, hash, replies, incoming, 0);
    let last = hops.len() - 1;
    lemma_remove_keeps_totals(run.channels, source, hops, hash, true, replies, last);
    if let Ok(Err((Some(idx), _))) = run.outcome {
        lemma_remove_keeps_totals(run.channels, source, hops, hash, false, replies, idx as int);
    }
    let all = payment_run(channels, source, hops, hash, replies, incoming).channels;
    assert forall|k: u64| #[trigger] channels.dom().contains(k) && channels[k].sane() implies all[k].sane() by {
        assert(all.dom().contains(k));
    }
}

/// Whether amounts and expiries are those of the htlcs of a route: each hop adds its fee and its CLTV delta to what the next one
/// has, and there is nothing after the last one.
pub open spec fn are_carried(hops: Seq<RouteHop>, amounts: Seq<nat>, expiries: Seq<nat>) -> bool {
    &&& amounts.len() == hops.len() + 1
    &&& expiries.len() == hops.len() + 1
    &&& amounts[hops.len() as int] == 0
    &&& expiries[hops.len() as int] == 0
    &&& forall|i: int|
        #![trigger hops[i]]
        0 <= i < hops.len() ==> amounts[i] == hops[i].fee_msat + amounts[i + 1] && expiries[i] == hops[i].cltv_expiry_delta
            + expiries[i + 1]
    &&& amounts[0] <= u64::MAX
    &&& expiries[0] <= u32::MAX
}

/// Whether no channel is used by two hops of a route.
pub open spec fn uses_channels_once(hops: Seq<RouteHop>) -> bool {
    forall|i: int, j: int|
        #![trigger hops[i], hops[j]]
        0 <= i < j < hops.len() ==> hops[i].short_channel_id != hops[j].short_channel_id
}

/// Whether a forward offers the CLTV delta of a policy, and a fee of its base fee and its rate in millionths of the amount,
/// rounded down.
pub open spec fn pays_for(policy: ChannelPolicy, cltv_delta: u32, amount: nat, fee: u64) -> bool {
    &&& cltv_delta >= policy.cltv_expiry_delta
    &&& amount * policy.fee_rate_prop <= u64::MAX
    &&& (fee - policy.base_fee + 1) * 1_000_000 > amount * policy.fee_rate_prop
}

/// The policy of a node on a channel.
pub open spec fn policy_on(c: ChannelView, node: PublicKey) -> ChannelPolicy {
    if c.node_1.policy.pubkey == node {
        c.node_1.policy
    } else {
        c.node_2.policy
    }
}

/// What becomes of the htlc of a hop on its channel.
pub open spec fn htlc_outcome(
    channels: ChannelMap,
    source: PublicKey,
    hops: Seq<RouteHop>,
    hash: PaymentHash,
    amounts: Seq<nat>,
    expiries: Seq<nat>,
    i: int,
) -> Result<Result<u64, ForwardingError>, CriticalError> {
    channels[hops[i].short_channel_id].add_outcome(
        if i == 0 {
            source
        } else {
            hops[i - 1].pubkey
        },
        hash,
        Htlc { amount_msat: amounts[i] as u64, cltv_expiry: expiries[i] as u32 },
    )
}

/// Whether the htlc of a hop is added to its channel.
pub open spec fn hop_is_added(
    channels: ChannelMap,
    source: PublicKey,
    hops: Seq<RouteHop>,
    hash: PaymentHash,
    amounts: Seq<nat>,
    expiries: Seq<nat>,
    i: int,
) -> bool {
    &&& channels.dom().contains(hops[i].short_channel_id)
    &&& htlc_outcome(channels, source, hops, hash, amounts, expiries, i) is Ok
    &&& htlc_outcome(channels, source, hops, hash, amounts, expiries, i)->Ok_0 is Ok
}

/// Whether a hop pays the node that it leads to for forwarding over the next channel. The receiver of the payment asks for
/// nothing.
pub open spec fn hop_is_paid_for(channels: ChannelMap, hops: Seq<RouteHop>, amounts: Seq<nat>, i: int) -> bool {
    i + 1 < hops.len() && channels.dom().contains(hops[i + 1].short_channel_id) ==> {
        let next = channels[hops[i + 1].short_channel_id];
        &&& next.node_1.policy.pubkey == hops[i].pubkey || next.node_2.policy.pubkey == hops[i].pubkey
        &&& pays_for(policy_on(next, hops[i].pubkey), hops[i].cltv_expiry_delta, amounts[i + 1], hops[i].fee_msat)
    }
}

/// Whether all interceptors let an htlc pass, with records that do not conflict.
pub open spec fn all_let_pass(replies: Seq<InterceptReply>) -> bool {
    &&& forall|r: int| 0 <= r < replies.len() ==> (#[trigger] replies[r]) is Ok && replies[r]->Ok_0 is Ok
    &&& forall|r: int, q: int, k: u64| 0 <= r < q < replies.len() ==> !#[trigger] disagree(replies, r, q, k)
}

/// Whether a hop of a payment is passed.
pub open spec fn hop_is_passed(
    channels: ChannelMap,
    source: PublicKey,
    hops: Seq<RouteHop>,
    hash: PaymentHash,
    replies: InterceptorReplies,
    amounts: Seq<nat>,
    expiries: Seq<nat>,
    i: int,
) -> bool {
    &&& hop_is_added(channels, source, hops, hash, amounts, expiries, i)
    &&& hop_is_paid_for(channels, hops, amounts, i)
    &&& all_let_pass(replies.intercept(i))
}

proof fn lemma_carried(hops: Seq<RouteHop>, amounts: Seq<nat>, expiries: Seq<nat>, i: int)
    requires
        are_carried(hops, amounts, expiries),
        0 <= i <= hops.len(),
    ensures
        amount_from(hops, i) == amounts[i],
        expiry_from(hops, i) == expiries[i],
        amounts[i] <= u64::MAX,
        expiries[i] <= u32::MAX,
    decreases hops.len() - i,
{
    lemma_amounts_decrease(hops, 0, i);
    if i < hops.len() {
        lemma_carried(hops, amounts, expiries, i + 1);
        assert(amounts[i] == hops[i].fee_msat + amounts[i + 1]);
    }
    if i > 0 {
        lemma_carried_back(hops, amounts, expiries, i);
    }
}

proof fn lemma_carried_back(hops: Seq<RouteHop>, amounts: Seq<nat>, expiries: Seq<nat>, i: int)
    requires
        are_carried(hops, amounts, expiries),
        0 <= i <= hops.len(),
    ensures
        amounts[i] <= amounts[0],
        expiries[i] <= expiries[0],
    decreases i,
{
    if i > 0 {
        lemma_carried_back(hops, amounts, expiries, i - 1);
        assert(amounts[i - 1] == hops[i - 1].fee_msat + amounts[i]);
    }
}

/// Whether a network has the channels of the hops from a position on as another one has them.
spec fn agree_from(a: ChannelMap, b: ChannelMap, hops: Seq<RouteHop>, i: int) -> bool {
    forall|j: int|
        #![trigger hops[j]]
        i <= j < hops.len() ==> {
            let k = hops[j].short_channel_id;
            a.dom().contains(k) == b.dom().contains(k) && (a.dom().contains(k) ==> a[k] == b[k])
        }
}

/// The first hop that is not passed decides on a payment.
proof fn lemma_hop_decides(
    channels: ChannelMap,
    now: ChannelMap,
    source: PublicKey,
    hops: Seq<RouteHop>,
    hash: PaymentHash,
    replies: InterceptorReplies,
    incoming: Records,
    amounts: Seq<nat>,
    expiries: Seq<nat>,
    i: int,
    f: int,
)
    requires
        0 <= i <= f <= hops.len() <= usize::MAX,
        are_carried(hops, amounts, expiries),
        uses_channels_once(hops),
        agree_from(now, channels, hops, i),
        forall|j: int|
            i <= j < f ==> #[trigger] hop_is_passed(channels, source, hops, hash, replies, amounts, expiries, j),
    ensures
        ({
            let end = add_run(now, source, hops, hash, replies, incoming, i).outcome;
            let added = htlc_outcome(channels, source, hops, hash, amounts, expiries, f);
            let next = channels[hops[f + 1].short_channel_id];
            let answers = replies.intercept(f);
            &&& f == hops.len() ==> end is Ok && end->Ok_0 is Ok
            &&& f < hops.len() && !channels.dom().contains(hops[f].short_channel_id) ==> end is Err
            &&& f < hops.len() && channels.dom().contains(hops[f].short_channel_id) && added is Err ==> end is Err
            &&& f < hops.len() && channels.dom().contains(hops[f].short_channel_id) && added is Ok && added->Ok_0 is Err
                ==> (end matches Ok(Err((idx, e))) && e == added->Ok_0->Err_0 && idx == (if f == 0 {
                None
            } else {
                Some((f - 1) as usize)
            }))
            &&& f < hops.len() && hop_is_added(channels, source, hops, hash, amounts, expiries, f) && !hop_is_paid_for(
                channels,
                hops,
                amounts,
                f,
            ) ==> end is Err || (end matches Ok(Err((idx, e))) && idx == Some(f as usize))
            &&& f < hops.len() && hop_is_added(channels, source, hops, hash, amounts, expiries, f) && !hop_is_paid_for(
                channels,
                hops,
                amounts,
                f,
            ) && (next.node_1.policy.pubkey == hops[f].pubkey || next.node_2.policy.pubkey == hops[f].pubkey)
                && amounts[f + 1] * policy_on(next, hops[f].pubkey).fee_rate_prop <= u64::MAX && policy_on(
                next,
                hops[f].pubkey,
            ).base_fee + amounts[f + 1] * policy_on(next, hops[f].pubkey).fee_rate_prop <= u64::MAX ==> end is Ok
            &&& f < hops.len() && hop_is_added(channels, source, hops, hash, amounts, expiries, f) && hop_is_paid_for(
                channels,
                hops,
                amounts,
                f,
            ) && !all_let_pass(answers) ==> end is Err || (end matches Ok(Err((idx, e))) && idx == Some(f as usize))
            &&& f < hops.len() && hop_is_added(channels, source, hops, hash, amounts, expiries, f) && hop_is_paid_for(
                channels,
                hops,
                amounts,
                f,
            ) ==> ((exists|r: int| 0 <= r < answers.len() && (#[trigger] answers[r]) is Err) ==> end is Err)
        }),
    decreases hops.len() - i,
{
    if i < hops.len() {
        let k = hops[i].short_channel_id;
        let sender = sender_of(source, hops, i);
        let htlc = hop_htlc(hops, i);
        lemma_carried(hops, amounts, expiries, i);
        lemma_carried(hops, amounts, expiries, i + 1);
        assert(now.dom().contains(k) == channels.dom().contains(k));
        let after = after_hop(now, source, hops, hash, i);
        if i + 1 < hops.len() {
            let m = hops[i + 1].short_channel_id;
            assert(k != m) by {
                assert(hops[i].short_channel_id != hops[i + 1].short_channel_id);
            }
            assert(now.dom().contains(m) == channels.dom().contains(m));
            if channels.dom().contains(k) {
                assert(after.dom().contains(m) == channels.dom().contains(m));
                assert(channels.dom().contains(m) ==> after[m] == channels[m]);
            }
            let p = policy_on(channels[m], hops[i].pubkey);
            law_forward_is_accepted_for_its_fee(p, hops[i].cltv_expiry_delta, amounts[i + 1] as u64, hops[i].fee_msat);
            assert(amounts[i + 1] * p.fee_rate_prop >= 0) by (nonlinear_arith)
                requires
                    amounts[i + 1] >= 0,
                    p.fee_rate_prop >= 0,
            ;
        }
        law_htlc_passes_if_all_let_it_pass(incoming, replies.intercept(i));
        law_critical_reply_ends_the_simulation(incoming, replies.intercept(i));
        if i < f {
            assert(hop_is_passed(channels, source, hops, hash, replies, amounts, expiries, i));
            let attached = intercept_outcome(incoming, replies.intercept(i))->Ok_0->Ok_0;
            assert(agree_from(after, channels, hops, i + 1)) by {
                assert forall|j: int|
                    #![trigger hops[j]]
                    i + 1 <= j < hops.len() implies {
                    let m = hops[j].short_channel_id;
                    after.dom().contains(m) == channels.dom().contains(m) && (after.dom().contains(m) ==> after[m]
                        == channels[m])
                } by {
                    assert(hops[i].short_channel_id != hops[j].short_channel_id);
                }
            }
            assert(hop_added(now, source, hops, hash, i) == htlc_outcome(channels, source, hops, hash, amounts, expiries, i));
            assert(hop_forwarded(after, hops, i) matches Ok(Ok(())));
            lemma_hop_decides(
                channels,
                after,
                source,
                hops,
                hash,
                replies,
                attached,
                amounts,
                expiries,
                i + 1,
                f,
            );
        } else {
            if channels.dom().contains(k) {
                assert(hop_added(now, source, hops, hash, i) == htlc_outcome(
                    channels,
                    source,
                    hops,
                    hash,
                    amounts,
                    expiries,
                    i,
                ));
            }
        }
    }
}

/// A payment over channels that it uses once succeeds if and only if every hop is passed: the node before the hop can add an htlc
/// of the amount that the later hops and the hop itself carry, the node that the hop leads to is paid for forwarding it over
/// the next channel by its own policy there, and all interceptors let it pass. There is one htlc then, and none otherwise.
pub proof fn law_payment_succeeds_if_every_hop_is_passed(
    channels: ChannelMap,
    source: PublicKey,
    hops: Seq<RouteHop>,
    hash: PaymentHash,
    replies: InterceptorReplies,
    incoming: Records,
    amounts: Seq<nat>,
    expiries: Seq<nat>,
)
    requires
        0 < hops.len() <= usize::MAX,
        are_carried(hops, amounts, expiries),
        uses_channels_once(hops),
    ensures
        ({
            let run = payment_run(channels, source, hops, hash, replies, incoming);
            &&& run.result.payment_outcome is Success <==> forall|i: int|
                0 <= i < hops.len() ==> #[trigger] hop_is_passed(
                    channels,
                    source,
                    hops,
                    hash,
                    replies,
                    amounts,
                    expiries,
                    i,
                )
            &&& run.result.payment_outcome is Success ==> run.result.htlc_count == 1
            &&& !(run.result.payment_outcome is Success) ==> run.result.htlc_count == 0
            &&& run.result.payment_outcome is Success || run.result.payment_outcome is IndexFailure
                || run.result.payment_outcome is Unknown
        }),
{
    let n = hops.len() as int;
    if forall|i: int|
        0 <= i < n ==> #[trigger] hop_is_passed(channels, source, hops, hash, replies, amounts, expiries, i) {
        lemma_hop_decides(channels, channels, source, hops, hash, replies, incoming, amounts, expiries, 0, n);
    } else {
        let w = choose|i: int|
            0 <= i < n && !#[trigger] hop_is_passed(channels, source, hops, hash, replies, amounts, expiries, i);
        let f = lemma_first_not_passed(channels, source, hops, hash, replies, amounts, expiries, w);
        lemma_hop_decides(channels, channels, source, hops, hash, replies, incoming, amounts, expiries, 0, f);
    }
}

proof fn lemma_first_not_passed(
    channels: ChannelMap,
    source: PublicKey,
    hops: Seq<RouteHop>,
    hash: PaymentHash,
    replies: InterceptorReplies,
    amounts: Seq<nat>,
    expiries: Seq<nat>,
    w: int,
) -> (f: int)
    requires
        0 <= w < hops.len(),
        !hop_is_passed(channels, source, hops, hash, replies, amounts, expiries, w),
    ensures
        0 <= f <= w,
        !hop_is_passed(channels, source, hops, hash, replies, amounts, expiries, f),
        forall|j: int| 0 <= j < f ==> #[trigger] hop_is_passed(channels, source, hops, hash, replies, amounts, expiries, j),
    decreases w,
{
    if exists|j: int| 0 <= j < w && !#[trigger] hop_is_passed(channels, source, hops, hash, replies, amounts, expiries, j) {
        let j = choose|j: int|
            0 <= j < w && !#[trigger] hop_is_passed(channels, source, hops, hash, replies, amounts, expiries, j);
        lemma_first_not_passed(channels, source, hops, hash, replies, amounts, expiries, j)
    } else {
        w
    }
}

/// A payment over channels that it uses once fails at the first hop that is not passed. If the htlc of the hop is refused, the
/// payment fails at the hop before, or at the first hop if there is none before. If the hop is not paid for, or an interceptor
/// fails its htlc, the payment fails at the hop. A critical error, such as a channel that does not exist or that of an
/// interceptor, leaves its outcome unknown and shuts the simulation down.
pub proof fn law_payment_fails_at_the_first_hop_that_is_not_passed(
    channels: ChannelMap,
    source: PublicKey,
    hops: Seq<RouteHop>,
    hash: PaymentHash,
    replies: InterceptorReplies,
    incoming: Records,
    amounts: Seq<nat>,
    expiries: Seq<nat>,
    f: int,
)
    requires
        0 <= f < hops.len() <= usize::MAX,
        are_carried(hops, amounts, expiries),
        uses_channels_once(hops),
        forall|j: int| 0 <= j < f ==> #[trigger] hop_is_passed(channels, source, hops, hash, replies, amounts, expiries, j),
        !hop_is_passed(channels, source, hops, hash, replies, amounts, expiries, f),
    ensures
        ({
            let run = payment_run(channels, source, hops, hash, replies, incoming);
            let outcome = run.result.payment_outcome;
            let known = channels.dom().contains(hops[f].short_channel_id);
            let added = htlc_outcome(channels, source, hops, hash, amounts, expiries, f);
            let next = channels[hops[f + 1].short_channel_id];
            let policy = policy_on(next, hops[f].pubkey);
            let answers = replies.intercept(f);
            let is_added = hop_is_added(channels, source, hops, hash, amounts, expiries, f);
            let is_paid_for = hop_is_paid_for(channels, hops, amounts, f);
            &&& outcome == PaymentOutcome::Unknown ==> run.shutdown
            &&& !known || added is Err ==> outcome == PaymentOutcome::Unknown
            &&& known && added is Ok && added->Ok_0 is Err ==> outcome == PaymentOutcome::IndexFailure(
                if f == 0 {
                    0
                } else {
                    (f - 1) as usize
                },
            )
            &&& is_added && !is_paid_for ==> outcome == PaymentOutcome::Unknown || outcome == PaymentOutcome::IndexFailure(
                f as usize,
            )
            &&& is_added && !is_paid_for && (next.node_1.policy.pubkey == hops[f].pubkey || next.node_2.policy.pubkey
                == hops[f].pubkey) && amounts[f + 1] * policy.fee_rate_prop <= u64::MAX && policy.base_fee + amounts[f + 1]
                * policy.fee_rate_prop <= u64::MAX ==> outcome == PaymentOutcome::IndexFailure(f as usize)
            &&& is_added && is_paid_for ==> outcome == PaymentOutcome::Unknown || outcome == PaymentOutcome::IndexFailure(
                f as usize,
            )
            &&& is_added && is_paid_for && (exists|r: int| 0 <= r < answers.len() && (#[trigger] answers[r]) is Err)
                ==> outcome == PaymentOutcome::Unknown
        }),
{
    lemma_hop_decides(channels, channels, source, hops, hash, replies, incoming, amounts, expiries, 0, f);
}

proof fn lemma_transfers_once(
    channels: ChannelMap,
    source: PublicKey,
    hops: Seq<RouteHop>,
    i: int,
)
    requires
        0 <= i <= hops.len(),
        uses_channels_once(hops),
    ensures
        forall|k: u64|
            (forall|j: int| i <= j < hops.len() ==> (#[trigger] hops[j]).short_channel_id != k) ==> #[trigger] transfers(
                channels,
                source,
                hops,
                i,
            )[k] == channels[k],
        forall|j: int|
            #![trigger hops[j]]
            i <= j < hops.len() ==> transfers(channels, source, hops, i)[hops[j].short_channel_id]
                == channels[hops[j].short_channel_id].transferred(sender_of(source, hops, j), amount_from(hops, j) as int),
    decreases hops.len() - i,
{
    if i < hops.len() {
        let next = hop_transferred(channels, source, hops, i);
        lemma_transfers_once(next, source, hops, i + 1);
        let all = transfers(channels, source, hops, i);
        assert(all == transfers(next, source, hops, i + 1));
        assert forall|k: u64|
            (forall|j: int| i <= j < hops.len() ==> (#[trigger] hops[j]).short_channel_id != k) implies #[trigger] all[k]
            == channels[k] by {
            assert(hops[i].short_channel_id != k);
            assert(transfers(next, source, hops, i + 1)[k] == next[k]);
        }
        assert forall|j: int|
            #![trigger hops[j]]
            i <= j < hops.len() implies all[hops[j].short_channel_id] == channels[hops[j].short_channel_id].transferred(
            sender_of(source, hops, j),
            amount_from(hops, j) as int,
        ) by {
            if j == i {
                let k = hops[i].short_channel_id;
                assert forall|l: int| i + 1 <= l < hops.len() implies (#[trigger] hops[l]).short_channel_id != k by {
                    assert(hops[i].short_channel_id != hops[l].short_channel_id);
                }
                assert(transfers(next, source, hops, i + 1)[k] == next[k]);
            } else {
                assert(hops[i].short_channel_id != hops[j].short_channel_id);
            }
        }
    }
}

/// A successful payment over channels that it uses once takes, on the channel of each hop, what the hop carries from the
/// balance of the node before the hop, and adds it to that of the other node. No other balance changes, and what was in flight
/// before is in flight again.
pub proof fn law_successful_payment_pays_every_hop(
    channels: ChannelMap,
    source: PublicKey,
    hops: Seq<RouteHop>,
    hash: PaymentHash,
    replies: InterceptorReplies,
    incoming: Records,
    amounts: Seq<nat>,
    expiries: Seq<nat>,
)
    requires
        0 < hops.len() <= usize::MAX,
        are_carried(hops, amounts, expiries),
        uses_channels_once(hops),
        all_wf(channels),
        has_indexes(channels, hops, hops.len() as int),
        forall|j: int| #[trigger] replies.ack(j) is None,
        payment_run(channels, source, hops, hash, replies, incoming).result.payment_outcome is Success,
    ensures
        ({
            let after = payment_run(channels, source, hops, hash, replies, incoming).channels;
            &&& after.dom() == channels.dom()
            &&& forall|i: int|
                #![trigger hops[i]]
                0 <= i < hops.len() ==> {
                    let c = channels[hops[i].short_channel_id];
                    let d = after[hops[i].short_channel_id];
                    let sender = if i == 0 {
                        source
                    } else {
                        hops[i - 1].pubkey
                    };
                    let sent = if c.node_1.policy.pubkey == sender {
                        amounts[i] as int
                    } else {
                        -amounts[i]
                    };
                    &&& channels.dom().contains(hops[i].short_channel_id)
                    &&& d.node_1.balance == c.node_1.balance - sent
                    &&& d.node_2.balance == c.node_2.balance + sent
                }
            &&& forall|k: u64| #[trigger]
                channels.dom().contains(k) && (forall|i: int|
                    0 <= i < hops.len() ==> (#[trigger] hops[i]).short_channel_id != k) ==> {
                    &&& after[k].node_1.balance == channels[k].node_1.balance
                    &&& after[k].node_2.balance == channels[k].node_2.balance
                }
            &&& forall|k: u64| #[trigger]
                channels.dom().contains(k) ==> {
                    &&& after[k].node_1.in_flight == channels[k].node_1.in_flight
                    &&& after[k].node_2.in_flight == channels[k].node_2.in_flight
                }
        }),
{
    lemma_carried(hops, amounts, expiries, 0);
    law_successful_payment_moves_amounts(channels, source, hops, hash, replies, incoming);
    lemma_transfers_once(channels, source, hops, 0);
    let after = payment_run(channels, source, hops, hash, replies, incoming).channels;
    let moved = transfers(channels, source, hops, 0);
    lemma_success_moves_amounts(channels, source, hops, hash, replies, incoming, 0);
    assert(moved.dom() =~= channels.dom()) by {
        lemma_transfers_keep_channels(channels, source, hops, 0);
    }
    assert forall|i: int| 0 <= i < hops.len() implies amount_from(hops, i) == #[trigger] amounts[i] by {
        lemma_carried(hops, amounts, expiries, i);
    }
    assert forall|i: int|
        #![trigger hops[i]]
        0 <= i < hops.len() implies {
        let c = channels[hops[i].short_channel_id];
        let d = after[hops[i].short_channel_id];
        let sender = if i == 0 {
            source
        } else {
            hops[i - 1].pubkey
        };
        let sent = if c.node_1.policy.pubkey == sender {
            amounts[i] as int
        } else {
            -amounts[i]
        };
        &&& channels.dom().contains(hops[i].short_channel_id)
        &&& d.node_1.balance == c.node_1.balance - sent
        &&& d.node_2.balance == c.node_2.balance + sent
    } by {
        let k = hops[i].short_channel_id;
        assert(channels.dom().contains(k));
        assert(after.dom().contains(k));
        assert(after[k].same_funds(moved[k]));
        assert(amount_from(hops, i) == amounts[i]);
    }
    assert forall|k: u64| #[trigger] channels.dom().contains(k) implies {
        &&& after[k].node_1.in_flight == channels[k].node_1.in_flight
        &&& after[k].node_2.in_flight == channels[k].node_2.in_flight
        &&& (forall|i: int| 0 <= i < hops.len() ==> (#[trigger] hops[i]).short_channel_id != k) ==> after[k].node_1.balance
            == channels[k].node_1.balance && after[k].node_2.balance == channels[k].node_2.balance
    } by {
        assert(after.dom().contains(k));
        assert(after[k].same_funds(moved[k]));
        if forall|i: int| 0 <= i < hops.len() ==> (#[trigger] hops[i]).short_channel_id != k {
            assert(moved[k] == channels[k]);
        } else {
            let i = choose|i: int| 0 <= i < hops.len() && (#[trigger] hops[i]).short_channel_id == k;
            assert(moved[hops[i].short_channel_id] == channels[k].transferred(
                sender_of(source, hops, i),
                amount_from(hops, i) as int,
            ));
        }
    }
}

proof fn lemma_transfers_keep_channels(channels: ChannelMap, source: PublicKey, hops: Seq<RouteHop>, i: int)
    requires
        0 <= i,
        forall|k: int| i <= k < hops.len() ==> channels.dom().contains((#[trigger] hops[k]).short_channel_id),
    ensures
        transfers(channels, source, hops, i).dom() == channels.dom(),
    decreases hops.len() - i,
{
    if i < hops.len() {
        assert(channels.dom().contains(hops[i].short_channel_id));
        let next = hop_transferred(channels, source, hops, i);
        assert(next.dom() =~= channels.dom());
        lemma_transfers_keep_channels(next, source, hops, i + 1);
    }
}

proof fn lemma_requests(
    channels: ChannelMap,
    source: PublicKey,
    hops: Seq<RouteHop>,
    hash: PaymentHash,
    replies: InterceptorReplies,
    incoming: Records,
    i: int,
)
    requires
        0 <= i <= hops.len(),
        add_run(channels, source, hops, hash, replies, incoming, i).outcome matches Ok(Ok(())),
    ensures
        ({
            let asked = add_run(channels, source, hops, hash, replies, incoming, i).requests;
            &&& asked.len() == hops.len() - i
            &&& i < hops.len() ==> asked[0].incoming_custom_records == incoming
            &&& forall|j: int|
                i <= j < hops.len() ==> {
                    let r = #[trigger] asked[j - i];
                    &&& r.forwarding_node == hops[j].pubkey
                    &&& r.payment_hash == hash
                    &&& r.incoming_htlc.channel_id.0 == hops[j].short_channel_id
                    &&& r.outgoing_channel_id == (if j + 1 < hops.len() {
                        Some(ShortChannelID(hops[j + 1].short_channel_id))
                    } else {
                        None
                    })
                    &&& r.incoming_amount_msat == amount_from(hops, j)
                    &&& r.outgoing_amount_msat == amount_from(hops, j + 1)
                    &&& r.incoming_expiry_height == expiry_from(hops, j)
                    &&& r.outgoing_expiry_height == expiry_from(hops, j + 1)
                    &&& j + 1 < hops.len() ==> intercept_outcome(r.incoming_custom_records, replies.intercept(j)) == Ok::<
                        Result<Records, ForwardingError>,
                        CriticalError,
                    >(Ok(asked[j + 1 - i].incoming_custom_records))
                }
        }),
    decreases hops.len() - i,
{
    if i < hops.len() {
        let added = after_hop(channels, source, hops, hash, i);
        let attached = intercept_outcome(incoming, replies.intercept(i))->Ok_0->Ok_0;
        let rest = add_run(added, source, hops, hash, replies, attached, i + 1).requests;
        let asked = add_run(channels, source, hops, hash, replies, incoming, i).requests;
        lemma_requests(added, source, hops, hash, replies, attached, i + 1);
        assert forall|j: int| i < j < hops.len() implies #[trigger] asked[j - i] == rest[j - (i + 1)] by {}
        assert forall|j: int| i <= j < hops.len() implies {
            let r = #[trigger] asked[j - i];
            &&& r.forwarding_node == hops[j].pubkey
            &&& r.payment_hash == hash
            &&& r.incoming_htlc.channel_id.0 == hops[j].short_channel_id
            &&& r.outgoing_channel_id == (if j + 1 < hops.len() {
                Some(ShortChannelID(hops[j + 1].short_channel_id))
            } else {
                None
            })
            &&& r.incoming_amount_msat == amount_from(hops, j)
            &&& r.outgoing_amount_msat == amount_from(hops, j + 1)
            &&& r.incoming_expiry_height == expiry_from(hops, j)
            &&& r.outgoing_expiry_height == expiry_from(hops, j + 1)
            &&& j + 1 < hops.len() ==> intercept_outcome(r.incoming_custom_records, replies.intercept(j)) == Ok::<
                Result<Records, ForwardingError>,
                CriticalError,
            >(Ok(asked[j + 1 - i].incoming_custom_records))
        } by {
            if j == i {
                if i + 1 < hops.len() {
                    assert(asked[i + 1 - i] == rest[0]);
                }
            } else {
                let r = rest[j - (i + 1)];
                assert(asked[j - i] == r);
                if j + 1 < hops.len() {
                    assert(asked[j + 1 - i] == rest[j + 1 - (i + 1)]);
                }
            }
        }
    }
}

/// Interceptors are asked about a successful payment once for each hop, in the order of its hops. Each request names the node and
/// the channel that the hop leads to and over, the channel of the next hop, what the hop carries and what the next one does,
/// and their expiries. The first request has the records that the payment is sent with, and each other those that came of the
/// request before.
pub proof fn law_every_hop_is_intercepted(
    channels: ChannelMap,
    source: PublicKey,
    hops: Seq<RouteHop>,
    hash: PaymentHash,
    replies: InterceptorReplies,
    incoming: Records,
    amounts: Seq<nat>,
    expiries: Seq<nat>,
)
    requires
        0 < hops.len() <= usize::MAX,
        are_carried(hops, amounts, expiries),
        payment_run(channels, source, hops, hash, replies, incoming).result.payment_outcome is Success,
    ensures
        ({
            let asked = payment_run(channels, source, hops, hash, replies, incoming).requests;
            &&& asked.len() == hops.len()
            &&& asked[0].incoming_custom_records == incoming
            &&& forall|j: int|
                0 <= j < hops.len() ==> {
                    let r = #[trigger] asked[j];
                    &&& r.forwarding_node == hops[j].pubkey
                    &&& r.payment_hash == hash
                    &&& r.incoming_htlc.channel_id.0 == hops[j].short_channel_id
                    &&& r.outgoing_channel_id == (if j + 1 < hops.len() {
                        Some(ShortChannelID(hops[j + 1].short_channel_id))
                    } else {
                        None
                    })
                    &&& r.incoming_amount_msat == amounts[j]
                    &&& r.outgoing_amount_msat == amounts[j + 1]
                    &&& r.incoming_expiry_height == expiries[j]
                    &&& r.outgoing_expiry_height == expiries[j + 1]
                    &&& j + 1 < hops.len() ==> intercept_outcome(r.incoming_custom_records, replies.intercept(j)) == Ok::<
                        Result<Records, ForwardingError>,
                        CriticalError,
                    >(Ok(asked[j + 1].incoming_custom_records))
                }
        }),
{
    let run = add_run(channels, source, hops, hash, replies, incoming, 0);
    assert(run.outcome matches Ok(Ok(())));
    lemma_requests(channels, source, hops, hash, replies, incoming, 0);
    let asked = run.requests;
    assert(asked == payment_run(channels, source, hops, hash, replies, incoming).requests);
    assert forall|j: int| 0 <= j < hops.len() implies {
        let r = #[trigger] asked[j];
        &&& r.forwarding_node == hops[j].pubkey
        &&& r.payment_hash == hash
        &&& r.incoming_htlc.channel_id.0 == hops[j].short_channel_id
        &&& r.outgoing_channel_id == (if j + 1 < hops.len() {
            Some(ShortChannelID(hops[j + 1].short_channel_id))
        } else {
            None
        })
        &&& r.incoming_amount_msat == amounts[j]
        &&& r.outgoing_amount_msat == amounts[j + 1]
        &&& r.incoming_expiry_height == expiries[j]
        &&& r.outgoing_expiry_height == expiries[j + 1]
        &&& j + 1 < hops.len() ==> intercept_outcome(r.incoming_custom_records, replies.intercept(j)) == Ok::<
            Result<Records, ForwardingError>,
            CriticalError,
        >(Ok(asked[j + 1].incoming_custom_records))
    } by {
        lemma_carried(hops, amounts, expiries, j);
        lemma_carried(hops, amounts, expiries, j + 1);
        let r = asked[j - 0];
        assert(r.forwarding_node == hops[j].pubkey);
    }
}

/// The replies for a hop are those that are given at its position, and there are none for hops beyond the last that is given.
pub proof fn law_replies_are_those_of_their_hop(replies: InterceptorReplies, i: int)
    requires
        0 <= i,
    ensures
        i < replies.intercepts@.len() ==> replies.intercept(i) == replies.intercepts@[i]@,
        i >= replies.intercepts@.len() ==> replies.intercept(i).len() == 0,
        i < replies.acks@.len() ==> replies.ack(i) == replies.acks@[i],
        i >= replies.acks@.len() ==> replies.ack(i) is None,
{
}

/// The first htlc of a payment is sent by its source, and each other by the node that the hop before leads to. The last htlc carries
/// what the payment delivers, and nothing is sent on from the end of the route.
pub proof fn law_progress_is_that_of_its_hop(progress: PaymentProgress, hops: Seq<RouteHop>)
    requires
        progress.at(hops),
    ensures
        progress.hop <= hops.len(),
        progress.hop == 0 ==> progress.outgoing_node == progress.source,
        progress.hop > 0 ==> progress.outgoing_node == hops[progress.hop - 1].pubkey,
        progress.hop + 1 == hops.len() ==> progress.outgoing_amount == hops.last().fee_msat && progress.outgoing_cltv
            == hops.last().cltv_expiry_delta,
        progress.hop == hops.len() ==> progress.outgoing_amount == 0 && progress.outgoing_cltv == 0,
{
    if progress.hop < hops.len() {
        law_htlcs_carry_the_fees_of_later_hops(progress.source, hops, progress.hop as int);
    }
}

} // verus!
