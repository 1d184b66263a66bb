//! Simulated nodes: sending payments through the simulated network and following up on them.
use crate::intercept::{copy_records, records, CustomRecords};
use crate::keyed::KeyedMap;
use crate::network::{info_views, SimGraph};
use crate::node::{Graph, LightningError, NodeInfo, NodeInfoView, SimulationError};
use crate::payment::{PaymentOutcome, PaymentResult};
use crate::primitives::{sha256, Network, PaymentHash, PublicKey};
use crate::propagate::{
    has_room, payment_run, propagate_payment, request_views, InterceptorReplies, PaymentReport,
};
use crate::route::{amount_from, Path, Route, RouteHop};
use crate::routing::{PathFinder, RoutingGraph};
use crate::text::text;
use vstd::prelude::*;

verus! {

/// A payment that a node has sent, and whose result was not asked for yet.
#[derive(Debug)]
pub struct InFlightPayment {
    /// The path the payment was dispatched on. This is `None` if no payment path was found and the payment was not
    /// dispatched.
    pub path: Option<Path>,
}

/// What follows the registration of a payment.
#[derive(Debug)]
pub enum Dispatch {
    /// The payment is to be dispatched on a path, and the network reports its result.
    OnPath(Path),
    /// The payment is not dispatched, and this is its result.
    Resolved(PaymentResult),
}

/// The result of a payment that no route was found for.
pub open spec fn route_not_found() -> PaymentResult {
    PaymentResult { htlc_count: 0, payment_outcome: PaymentOutcome::RouteNotFound }
}

/// The hops of the path of a route, if one was found.
pub open spec fn routed_hops(route: Result<Route, SimulationError>) -> Option<Seq<RouteHop>> {
    match route {
        Ok(found) => single_path(found),
        Err(_) => None,
    }
}

/// Whether this follows the registration of a payment with the hops of its path, if there is one.
pub open spec fn follows(d: Dispatch, hops: Option<Seq<RouteHop>>) -> bool {
    match hops {
        Some(hops) => d matches Dispatch::OnPath(p) && p.hops@ == hops,
        None => d == Dispatch::Resolved(route_not_found()),
    }
}

/// The contents of payments in flight: the hops of their paths.
pub type InFlightView = Map<PaymentHash, Option<Seq<RouteHop>>>;

/// The hops of a path, if there is one.
pub open spec fn path_hops(path: Option<Path>) -> Option<Seq<RouteHop>> {
    match path {
        Some(p) => Some(p.hops@),
        None => None,
    }
}

/// The contents of payments in flight: the hops of their paths.
pub open spec fn in_flight_view(payments: Map<PaymentHash, InFlightPayment>) -> InFlightView {
    payments.map_values(|p: InFlightPayment| path_hops(p.path))
}

/// Draws the preimage of a payment with `rand::random`. Any preimage can come out.
#[verifier::external_body]
fn random_preimage() -> [u8; 32] {
    rand::random()
}

/// Whether a preimage may be drawn.
pub closed spec fn is_drawn(preimage: [u8; 32]) -> bool {
    call_ensures(random_preimage, (), preimage)
}

/// Draws the preimage of a payment.
pub(crate) fn draw_preimage() -> (preimage: [u8; 32])
    ensures
        is_drawn(preimage),
{
    random_preimage()
}

/// The first path of a route, if it is the only one.
pub open spec fn single_path(route: Route) -> Option<Seq<RouteHop>> {
    if route.paths@.len() == 1 {
        Some(route.paths@[0].hops@)
    } else {
        None
    }
}

/// The error for a route with another number of paths than one.
pub open spec fn is_path_count_error(e: LightningError) -> bool {
    e matches LightningError::SendPaymentError(m) && m@ == "Route must contain exactly one path for this operation."@
}

/// The error for a payment hash that is in use.
pub open spec fn is_hash_exists_error(e: LightningError) -> bool {
    e matches LightningError::SendPaymentError(m) && m@ == "payment hash exists"@
}

/// The result of tracking a payment with the hops of its path, if there is one, given what was reported, or the text of the
/// error.
pub open spec fn tracked_result(hops: Option<Seq<RouteHop>>, reported: PaymentResult) -> Result<
    PaymentResult,
    Seq<char>,
> {
    if hops is None && reported.payment_outcome != PaymentOutcome::RouteNotFound {
        Err("payment outcome was not RouteNotFound, but no path was provided"@)
    } else {
        Ok(reported)
    }
}

/// What becomes of waiting for the result of a payment.
#[derive(Debug)]
pub enum TrackEvent {
    /// The simulation is shutting down.
    Shutdown,
    /// The result can not be received, for a reason.
    Disconnected(String),
    /// The result came in, at a time that may have failed to be read.
    Result(Result<PaymentResult, LightningError>, Result<(), String>),
}

/// What is learned from the result of a payment about the path that it took.
#[derive(Debug)]
pub enum PathFeedback {
    /// The payment succeeded on the path.
    Successful,
    /// The payment failed at a hop of the path.
    Failed(usize),
    /// Nothing.
    Nothing,
}

/// A simulated lightning node. Passes all functionality through to a coordinating simulation network. A read-only
/// graph that is used for pathfinding is provided separately so that each node can handle its own pathfinding.
#[derive(Debug)]
pub struct SimNode {
    info: NodeInfo,
    /// Tracks payments by hash.
    in_flight: KeyedMap<PaymentHash, InFlightPayment>,
}

impl SimNode {
    /// The information about the node.
    pub closed spec fn info(&self) -> NodeInfo {
        self.info
    }

    /// The payments in flight.
    pub closed spec fn in_flight(&self) -> InFlightView {
        in_flight_view(self.in_flight@)
    }

    /// No payment hash is used twice.
    #[verifier::type_invariant]
    spec fn hashes_are_unique(&self) -> bool {
        self.in_flight.wf()
    }

    /// Creates a new simulation node without payments.
    pub fn new(info: NodeInfo) -> (n: Self)
        ensures
            n.info() == info,
            n.in_flight() == InFlightView::empty(),
    {
        let in_flight = KeyedMap::new();
        let n = SimNode { info, in_flight };
        assert(n.in_flight() =~= InFlightView::empty());
        n
    }

    /// The information about the node.
    pub fn get_info(&self) -> (i: &NodeInfo)
        ensures
            *i == self.info(),
    {
        &self.info
    }

    /// The network of the node. Simulated nodes are on regtest.
    pub fn get_network(&self) -> (n: Network)
        ensures
            n == Network::Regtest,
    {
        Network::Regtest
    }

    /// Records a payment.
    fn insert_payment(&mut self, hash: PaymentHash, payment: InFlightPayment)
        ensures
            final(self).info() == old(self).info(),
            final(self).in_flight() == old(self).in_flight().insert(hash, path_hops(payment.path)),
    {
        let mut in_flight = KeyedMap::new();
        proof {
            use_type_invariant(&*self);
        }
        std::mem::swap(&mut in_flight, &mut self.in_flight);
        in_flight.insert(hash, payment);
        self.in_flight = in_flight;
        assert(self.in_flight() =~= old(self).in_flight().insert(hash, path_hops(payment.path)));
    }

    /// Registers a payment that is to be dispatched on a specified route, and gives the path to dispatch it on. The
    /// route must contain only one path, and the hash must not be in use. The hash should be used in track_payment to
    /// track the payment outcome.
    pub fn send_to_route(&mut self, route: &Route, hash: PaymentHash) -> (r: Result<Path, LightningError>)
        ensures
            final(self).info() == old(self).info(),
            if single_path(*route) is None {
                r matches Err(e) && is_path_count_error(e) && final(self).in_flight() == old(self).in_flight()
            } else if old(self).in_flight().dom().contains(hash) {
                r matches Err(e) && is_hash_exists_error(e) && final(self).in_flight() == old(self).in_flight()
            } else {
                &&& r matches Ok(p)
                &&& Some(p.hops@) == single_path(*route)
                &&& final(self).in_flight() == old(self).in_flight().insert(hash, Some(p.hops@))
            },
    {
        proof {
            use_type_invariant(&*self);
        }
        if route.paths.len() != 1 {
            return Err(
                LightningError::SendPaymentError(text("Route must contain exactly one path for this operation.")),
            );
        }
        // Check for payment hash collision, failing the payment if we happen to repeat one.
        if self.in_flight.contains_key(&hash) {
            return Err(LightningError::SendPaymentError(text("payment hash exists")));
        }
        let path = route.paths[0].clone();
        self.insert_payment(hash, InFlightPayment { path: Some(route.paths[0].clone()) });
        Ok(path)
    }

    /// Registers a payment under a hash, given the outcome of the search for its route. The payment is then to be
    /// dispatched on the path of the route. In the case that no route was found for the payment, we still report a
    /// successful payment *api call*, and RouteNotFound is the result of the payment. This mimics the behavior of real
    /// nodes.
    pub fn register_payment(&mut self, hash: PaymentHash, route: Result<Route, SimulationError>) -> (r: Result<
        Dispatch,
        LightningError,
    >)
        ensures
            final(self).info() == old(self).info(),
            if old(self).in_flight().dom().contains(hash) {
                r matches Err(e) && is_hash_exists_error(e) && final(self).in_flight() == old(self).in_flight()
            } else {
                match route {
                    Err(_) => {
                        &&& r matches Ok(d) && follows(d, None)
                        &&& final(self).in_flight() == old(self).in_flight().insert(hash, None)
                    },
                    Ok(found) => match single_path(found) {
                        Some(hops) => {
                            &&& r matches Ok(d) && follows(d, Some(hops))
                            &&& final(self).in_flight() == old(self).in_flight().insert(hash, Some(hops))
                        },
                        None => r matches Err(e) && is_path_count_error(e) && final(self).in_flight() == old(
                            self,
                        ).in_flight(),
                    },
                }
            },
    {
        proof {
            use_type_invariant(&*self);
        }
        if self.in_flight.contains_key(&hash) {
            return Err(LightningError::SendPaymentError(text("payment hash exists")));
        }
        match route {
            Ok(found) => match self.send_to_route(&found, hash) {
                Ok(path) => Ok(Dispatch::OnPath(path)),
                Err(e) => Err(e),
            },
            Err(_) => {
                self.insert_payment(hash, InFlightPayment { path: None });
                Ok(
                    Dispatch::Resolved(
                        PaymentResult { htlc_count: 0, payment_outcome: PaymentOutcome::RouteNotFound },
                    ),
                )
            },
        }
    }

    /// send_payment picks a random preimage for a payment, finds a route for it and registers it to be used for
    /// subsequent track_payment calls. The result is the hash of the payment, and the path to dispatch it on, or the result
    /// of the payment where no route was found.
    pub fn send_payment<P: PathFinder>(
        &mut self,
        dest: PublicKey,
        amount_msat: u64,
        pathfinder: &P,
        pathfinding_graph: &RoutingGraph,
    ) -> (r: Result<(PaymentHash, Dispatch), LightningError>)
        ensures
            final(self).info() == old(self).info(),
            match r {
                Ok((hash, dispatch)) => {
                    &&& exists|preimage: [u8; 32]| is_drawn(preimage) && #[trigger] sha256(preimage@) == hash.0@
                    &&& !old(self).in_flight().dom().contains(hash)
                    &&& exists|route: Result<Route, SimulationError>|
                        {
                            &&& #[trigger] call_ensures(
                                P::find_route,
                                (pathfinder, &old(self).info().pubkey, dest, amount_msat, pathfinding_graph),
                                route,
                            )
                            &&& route matches Ok(found) ==> single_path(found) is Some
                            &&& follows(dispatch, routed_hops(route))
                            &&& final(self).in_flight() == old(self).in_flight().insert(hash, routed_hops(route))
                        }
                },
                Err(e) => {
                    &&& is_hash_exists_error(e) || is_path_count_error(e)
                    &&& is_hash_exists_error(e) ==> exists|preimage: [u8; 32], hash: PaymentHash|
                        is_drawn(preimage) && #[trigger] sha256(preimage@) == hash.0@ && #[trigger] old(
                            self,
                        ).in_flight().dom().contains(hash)
                    &&& is_path_count_error(e) ==> exists|route: Route|
                        single_path(route) is None && #[trigger] call_ensures(
                            P::find_route,
                            (pathfinder, &old(self).info().pubkey, dest, amount_msat, pathfinding_graph),
                            Ok(route),
                        )
                    &&& final(self).in_flight() == old(self).in_flight()
                },
            },
    {
        proof {
            reveal_strlit("payment hash exists");
            reveal_strlit("Route must contain exactly one path for this operation.");
            assert("payment hash exists"@.len() < "Route must contain exactly one path for this operation."@.len());
        }
        let preimage = draw_preimage();
        let hash = PaymentHash::of_preimage(&preimage);
        assert(sha256(preimage@) == hash.0@);
        proof {
            use_type_invariant(&*self);
        }
        // Check for payment hash collision, failing the payment if we happen to repeat one.
        if self.in_flight.contains_key(&hash) {
            assert(self.in_flight().dom().contains(hash));
            return Err(LightningError::SendPaymentError(text("payment hash exists")));
        }
        let route = pathfinder.find_route(&self.info.pubkey, dest, amount_msat, pathfinding_graph);
        let ghost found = route;
        assert(call_ensures(
            P::find_route,
            (pathfinder, &old(self).info().pubkey, dest, amount_msat, pathfinding_graph),
            found,
        ));
        match self.register_payment(hash, route) {
            Ok(dispatch) => Ok((hash, dispatch)),
            Err(e) => Err(e),
        }
    }

    /// Takes a payment whose result is to be waited for. This call will fail if the hash provided was not obtained from
    /// send_payment or passed into send_to_route first, and when a result was already asked for.
    pub fn take_payment(&mut self, hash: &PaymentHash) -> (r: Result<InFlightPayment, LightningError>)
        ensures
            final(self).info() == old(self).info(),
            final(self).in_flight() == old(self).in_flight().remove(*hash),
            if old(self).in_flight().dom().contains(*hash) {
                r matches Ok(p) && path_hops(p.path) == old(self).in_flight()[*hash]
            } else {
                r matches Err(LightningError::TrackPaymentError(m)) && m@ == "payment hash "@ + hash.text()
                    + " not found"@
            },
    {
        let mut in_flight = KeyedMap::new();
        proof {
            use_type_invariant(&*self);
        }
        std::mem::swap(&mut in_flight, &mut self.in_flight);
        let removed = in_flight.remove(hash);
        self.in_flight = in_flight;
        assert(self.in_flight() =~= old(self).in_flight().remove(*hash));
        match removed {
            Some(p) => Ok(p),
            None => {
                let mut m = text("payment hash ");
                m.append(hash.to_text().as_str());
                m.append(" not found");
                Err(LightningError::TrackPaymentError(m))
            },
        }
    }

    /// The result of a payment that was taken, given what became of waiting for it, and what is learned about its path.
    /// A payment without a path can only have failed for want of a route.
    pub fn track_payment(path: &Option<Path>, event: TrackEvent) -> (r: (
        Result<PaymentResult, LightningError>,
        PathFeedback,
    ))
        ensures
            match event {
                TrackEvent::Shutdown => {
                    &&& r.0 matches Err(LightningError::TrackPaymentError(m))
                    &&& m@ == "shutdown during payment tracking"@
                    &&& r.1 is Nothing
                },
                TrackEvent::Disconnected(e) => {
                    &&& r.0 matches Err(LightningError::TrackPaymentError(m))
                    &&& m@ == "channel receive err: "@ + e@
                    &&& r.1 is Nothing
                },
                TrackEvent::Result(Err(e), _) => r.0 == Err::<PaymentResult, LightningError>(e) && r.1 is Nothing,
                TrackEvent::Result(Ok(_), Err(e)) => {
                    &&& r.0 == Err::<PaymentResult, LightningError>(LightningError::SystemTimeConversionError(e))
                    &&& r.1 is Nothing
                },
                TrackEvent::Result(Ok(result), Ok(())) => {
                    &&& match tracked_result(path_hops(*path), result) {
                        Ok(result) => r.0 == Ok::<PaymentResult, LightningError>(result),
                        Err(e) => r.0 matches Err(LightningError::TrackPaymentError(m)) && m@ == e,
                    }
                    &&& r.1 == (match result.payment_outcome {
                        PaymentOutcome::Success if path is Some => PathFeedback::Successful,
                        PaymentOutcome::IndexFailure(i) if path is Some => PathFeedback::Failed(i),
                        _ => PathFeedback::Nothing,
                    })
                },
            },
    {
        let (result, time) = match event {
            TrackEvent::Shutdown => {
                return (
                    Err(LightningError::TrackPaymentError(text("shutdown during payment tracking"))),
                    PathFeedback::Nothing,
                );
            },
            TrackEvent::Disconnected(e) => {
                let mut m = text("channel receive err: ");
                m.append(e.as_str());
                return (Err(LightningError::TrackPaymentError(m)), PathFeedback::Nothing);
            },
            TrackEvent::Result(result, time) => (result, time),
        };
        let result = match result {
            Ok(result) => result,
            Err(e) => {
                return (Err(e), PathFeedback::Nothing);
            },
        };
        if let Err(e) = time {
            return (Err(LightningError::SystemTimeConversionError(e)), PathFeedback::Nothing);
        }
        match path {
            Some(_) => {
                let feedback = match result.payment_outcome {
                    PaymentOutcome::Success => PathFeedback::Successful,
                    PaymentOutcome::IndexFailure(index) => PathFeedback::Failed(index),
                    _ => PathFeedback::Nothing,
                };
                (Ok(result), feedback)
            },
            None => {
                if result.payment_outcome != PaymentOutcome::RouteNotFound {
                    return (
                        Err(
                            LightningError::TrackPaymentError(
                                text("payment outcome was not RouteNotFound, but no path was provided"),
                            ),
                        ),
                        PathFeedback::Nothing,
                    );
                }
                (Ok(result), PathFeedback::Nothing)
            },
        }
    }

    /// Gets information on a specific node.
    pub fn get_node_info(&self, network: &SimGraph, node_id: &PublicKey) -> (r: Result<NodeInfo, LightningError>)
        requires
            network.wf(),
        ensures
            if network.nodes().dom().contains(*node_id) {
                r matches Ok(n) && n@ == network.nodes()[*node_id].info
            } else {
                r matches Err(LightningError::GetNodeInfoError(m)) && m@ == "Node not found"@
            },
    {
        match network.lookup_node(node_id) {
            Ok(n) => Ok(n.0),
            Err(e) => Err(e),
        }
    }

    /// Lists the capacities of the node's channels in msat.
    pub fn list_channels(&self, network: &SimGraph) -> (r: Result<Vec<u64>, LightningError>)
        requires
            network.wf(),
        ensures
            if network.nodes().dom().contains(self.info().pubkey) {
                r matches Ok(c) && c@ == network.nodes()[self.info().pubkey].capacities
            } else {
                r matches Err(LightningError::GetNodeInfoError(m)) && m@ == "Node not found"@
            },
    {
        match network.lookup_node(&self.info.pubkey) {
            Ok(n) => Ok(n.1),
            Err(e) => Err(e),
        }
    }

    /// Get the network graph from the point of view of the node.
    pub fn get_graph(&self, network: &SimGraph) -> (g: Graph)
        requires
            network.wf(),
        ensures
            g.nodes_by_pk.wf(),
            graph_view(g) == nodes_by_key(network.node_list()),
            forall|k: PublicKey| #[trigger] g.nodes_by_pk@.dom().contains(k) ==> g.nodes_by_pk@[k].pubkey == k,
    {
        graph_of(network.list_nodes())
    }
}

/// The contents of a graph.
pub open spec fn graph_view(g: Graph) -> Map<PublicKey, NodeInfoView> {
    g.nodes_by_pk@.map_values(|n: NodeInfo| n@)
}

/// Nodes by their keys. The last node with a key counts.
pub open spec fn nodes_by_key(nodes: Seq<NodeInfoView>) -> Map<PublicKey, NodeInfoView>
    decreases nodes.len(),
{
    if nodes.len() == 0 {
        Map::empty()
    } else {
        nodes_by_key(nodes.drop_last()).insert(nodes.last().pubkey, nodes.last())
    }
}

/// The graph of nodes.
pub fn graph_of(nodes: Vec<NodeInfo>) -> (g: Graph)
    ensures
        g.nodes_by_pk.wf(),
        graph_view(g) == nodes_by_key(info_views(nodes@)),
        forall|k: PublicKey| #[trigger] g.nodes_by_pk@.dom().contains(k) ==> g.nodes_by_pk@[k].pubkey == k,
{
    let ghost list = info_views(nodes@);
    let ghost all = nodes@;
    let mut nodes_by_pk: KeyedMap<PublicKey, NodeInfo> = KeyedMap::new();
    assert(nodes_by_pk@.map_values(|n: NodeInfo| n@) =~= Map::<PublicKey, NodeInfoView>::empty());
    assert(list.subrange(0, 0) =~= Seq::empty());
    for node in it: nodes
        invariant
            it.seq() == all,
            list == info_views(all),
            nodes_by_pk.wf(),
            nodes_by_pk@.map_values(|n: NodeInfo| n@) == nodes_by_key(list.subrange(0, it.index() as int)),
    {
        let ghost before = nodes_by_pk@;
        let ghost info = node@;
        let key = node.pubkey;
        nodes_by_pk.insert(key, node);
        proof {
            let next = list.subrange(0, it.index() as int + 1);
            assert(next.drop_last() =~= list.subrange(0, it.index() as int));
            assert(next.last() == info);
            assert(nodes_by_pk@.map_values(|n: NodeInfo| n@) =~= before.map_values(|n: NodeInfo| n@).insert(
                info.pubkey,
                info,
            ));
        }
    }
    assert(list.subrange(0, list.len() as int) =~= list);
    proof {
        law_graph_has_nodes_under_their_own_keys(list);
        let found = nodes_by_pk@.map_values(|n: NodeInfo| n@);
        assert forall|k: PublicKey| #[trigger] nodes_by_pk@.dom().contains(k) implies nodes_by_pk@[k].pubkey == k by {
            assert(found.dom().contains(k));
        }
    }
    Graph { nodes_by_pk }
}

/// Creates a simulated node for each node of a network, in the order in which they were found.
pub fn ln_node_from_graph(graph: &SimGraph) -> (nodes: Vec<SimNode>)
    requires
        graph.wf(),
    ensures
        nodes@.len() == graph.node_list().len(),
        forall|i: int|
            0 <= i < nodes@.len() ==> (#[trigger] nodes@[i]).info()@ == graph.node_list()[i]
                && nodes@[i].in_flight() == InFlightView::empty(),
{
    let list = graph.list_nodes();
    let ghost infos = info_views(list@);
    let ghost all = list@;
    let mut nodes: Vec<SimNode> = Vec::new();
    for info in it: list
        invariant
            it.seq() == all,
            infos == info_views(all),
            infos == graph.node_list(),
            nodes@.len() == it.index(),
            forall|i: int|
                0 <= i < it.index() ==> (#[trigger] nodes@[i]).info()@ == infos[i] && nodes@[i].in_flight()
                    == InFlightView::empty(),
    {
        assert(infos[it.index() as int] == info@);
        nodes.push(SimNode::new(info));
    }
    nodes
}

impl SimGraph {
    /// dispatch_payment propagates a payment through the simulated network, and reports its result. At present, MPP
    /// payments are not supported: a route that does not have exactly one path is ignored. If custom records are not
    /// provided, the default custom records of the graph will be sent with the payment.
    pub fn dispatch_payment(
        &mut self,
        source: PublicKey,
        route: &Route,
        custom_records: Option<CustomRecords>,
        hash: PaymentHash,
        replies: &InterceptorReplies,
    ) -> (r: Option<PaymentReport>)
        requires
            old(self).wf(),
            route.paths@.len() == 1 ==> route.paths@[0].wf() && has_room(
                old(self).channels@,
                route.paths@[0].hops@,
                amount_from(route.paths@[0].hops@, 0) as int,
                route.paths@[0].hops@.len() as int,
            ),
        ensures
            final(self).wf(),
            final(self).nodes() == old(self).nodes(),
            final(self).default_custom_records == old(self).default_custom_records,
            match single_path(*route) {
                None => r is None && final(self).channels@ == old(self).channels@,
                Some(hops) => {
                    let run = payment_run(
                        old(self).channels@,
                        source,
                        hops,
                        hash,
                        *replies,
                        match custom_records {
                            Some(c) => records(c),
                            None => records(old(self).default_custom_records),
                        },
                    );
                    &&& final(self).channels@ == run.channels
                    &&& r matches Some(report)
                    &&& report.result == run.result
                    &&& report.shutdown == run.shutdown
                    &&& request_views(report.requests@) == run.requests
                    &&& report.resolutions@ == run.resolutions
                },
            },
    {
        // Expect only one path (right now), with the intention to support multiple in future.
        if route.paths.len() != 1 {
            return None;
        }
        let attached = match custom_records {
            Some(c) => c,
            None => copy_records(&self.default_custom_records),
        };
        Some(propagate_payment(&mut self.channels, source, &route.paths[0], hash, replies, attached))
    }
}

/// A payment that no route was found for has the result that is given when it is sent: tracking it with this result gives
/// no htlcs and RouteNotFound. Any other outcome is an error.
pub proof fn law_route_not_found_is_the_result(d: Dispatch, hops: Option<Seq<RouteHop>>)
    requires
        follows(d, hops),
    ensures
        hops is None <==> d == Dispatch::Resolved(
            PaymentResult { htlc_count: 0, payment_outcome: PaymentOutcome::RouteNotFound },
        ),
        d matches Dispatch::Resolved(result) ==> tracked_result(None, result) == Ok::<PaymentResult, Seq<char>>(result),
{
}

/// The hash of a payment that a node has sent can be used to ask for its result exactly once: the first time the
/// payment is found, with the path that it was sent on, and afterwards it is not.
pub proof fn law_payment_is_tracked_once(in_flight: InFlightView, hash: PaymentHash, path: Option<Seq<RouteHop>>)
    requires
        !in_flight.dom().contains(hash),
    ensures
        ({
            let sent = in_flight.insert(hash, path);
            &&& sent.dom().contains(hash) && sent[hash] == path
            &&& sent.remove(hash) == in_flight
            &&& !sent.remove(hash).dom().contains(hash)
        }),
{
    assert(in_flight.insert(hash, path).remove(hash) =~= in_flight);
}

/// The graph of nodes has a node under each key that one of them has, and under no other: the last of the nodes with that key.
pub proof fn law_graph_has_nodes_under_their_own_keys(nodes: Seq<NodeInfoView>)
    ensures
        forall|k: PublicKey| #[trigger]
            nodes_by_key(nodes).dom().contains(k) ==> nodes_by_key(nodes)[k].pubkey == k && exists|i: int|
                {
                    &&& 0 <= i < nodes.len()
                    &&& #[trigger] nodes[i] == nodes_by_key(nodes)[k]
                    &&& forall|j: int| i < j < nodes.len() ==> (#[trigger] nodes[j]).pubkey != k
                },
        forall|i: int| 0 <= i < nodes.len() ==> nodes_by_key(nodes).dom().contains((#[trigger] nodes[i]).pubkey),
    decreases nodes.len(),
{
    if nodes.len() > 0 {
        let before = nodes.drop_last();
        let n = before.len() as int;
        law_graph_has_nodes_under_their_own_keys(before);
        assert forall|i: int| 0 <= i < n implies #[trigger] before[i] == nodes[i] by {}
        assert(nodes[n] == nodes.last());
        assert forall|i: int| 0 <= i < nodes.len() implies nodes_by_key(nodes).dom().contains((#[trigger] nodes[i]).pubkey) by {
            if i < n {
                assert(nodes_by_key(before).dom().contains(before[i].pubkey));
            }
        }
        assert forall|k: PublicKey| #[trigger] nodes_by_key(nodes).dom().contains(k) implies nodes_by_key(nodes)[k].pubkey == k
            && exists|i: int|
            {
                &&& 0 <= i < nodes.len()
                &&& #[trigger] nodes[i] == nodes_by_key(nodes)[k]
                &&& forall|j: int| i < j < nodes.len() ==> (#[trigger] nodes[j]).pubkey != k
            } by {
            if k == nodes.last().pubkey {
                assert(nodes[n] == nodes_by_key(nodes)[k]);
            } else {
                assert(nodes_by_key(before).dom().contains(k));
                let i = choose|i: int|
                    {
                        &&& 0 <= i < before.len()
                        &&& #[trigger] before[i] == nodes_by_key(before)[k]
                        &&& forall|j: int| i < j < before.len() ==> (#[trigger] before[j]).pubkey != k
                    };
                assert(nodes[i] == nodes_by_key(nodes)[k]);
                assert forall|j: int| i < j < nodes.len() implies (#[trigger] nodes[j]).pubkey != k by {
                    if j < n {
                        assert(before[j].pubkey != k);
                    }
                }
            }
        }
    }
}

/// A payment takes the path of the route that was found, if the route has a single one. Without a route it takes none.
pub proof fn law_payment_takes_the_single_path(route: Route, e: SimulationError, d: Dispatch)
    ensures
        single_path(route) is Some <==> route.paths@.len() == 1,
        single_path(route) matches Some(hops) ==> hops == route.paths@[0].hops@,
        routed_hops(Ok(route)) == single_path(route),
        routed_hops(Err(e)) is None,
        route.paths@.len() == 1 ==> (follows(d, routed_hops(Ok(route))) <==> (d matches Dispatch::OnPath(p) && p.hops@
            == route.paths@[0].hops@)),
        follows(d, routed_hops(Err(e))) ==> (d matches Dispatch::Resolved(result) && result.htlc_count == 0
            && result.payment_outcome is RouteNotFound),
{
}

/// The result of a payment is the one that the network reports. Only for a payment that took no path, anything but the want of a
/// route is an error.
pub proof fn law_tracked_result_is_the_reported_one(hops: Option<Seq<RouteHop>>, reported: PaymentResult)
    ensures
        tracked_result(hops, reported) matches Ok(result) ==> result == reported,
        tracked_result(hops, reported) is Err <==> hops is None && !(reported.payment_outcome is RouteNotFound),
{
}

/// A payment is recorded with the hops of its path, and with none if it took no path.
pub proof fn law_payments_are_recorded_with_their_hops(payments: Map<PaymentHash, InFlightPayment>, hash: PaymentHash)
    ensures
        in_flight_view(payments).dom() == payments.dom(),
        payments.dom().contains(hash) ==> match payments[hash].path {
            Some(p) => in_flight_view(payments)[hash] == Some(p.hops@),
            None => in_flight_view(payments)[hash] is None,
        },
{
    assert(in_flight_view(payments).dom() =~= payments.dom());
}

} // verus!
