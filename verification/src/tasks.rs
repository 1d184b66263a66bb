//! The tasks of a simulation: what each of them does next, given what has just happened to it.
use crate::generator::{delay, get_payment_delay, DestinationGenerator, PaymentGenerator};
use crate::keyed::KeyedMap;
use crate::node::{
    DestinationGenerationError, LightningError, NodeInfo, PaymentGenerationError, SimulationError,
};
use crate::payment::{duration_debug, Payment, PaymentOutcome, PaymentResult, Timestamp};
use crate::primitives::{PaymentHash, PublicKey};
use crate::random_activity::{required_capacity, RandomPaymentActivity};
use crate::rng::weight_sum;
use crate::text::{decimal, push_decimal, text};
use vstd::prelude::*;

verus! {

/// SimulationEvent describes the set of actions that the simulator can run on nodes that it has execution permissions
/// on.
#[derive(Debug)]
pub enum SimulationEvent {
    /// Dispatch a payment of the specified amount to the node provided.
    /// Results in `SimulationOutput::SendPaymentSuccess` or `SimulationOutput::SendPaymentFailure`.
    SendPayment(NodeInfo, u64),
}

/// SimulationOutput provides the output of a simulation event.
#[derive(Debug, Clone, Copy)]
pub enum SimulationOutput {
    /// Intermediate output for when simulator has successfully dispatched a payment.
    /// We need to track the result of the payment to report on it.
    SendPaymentSuccess(Payment),
    /// Final output for when simulator has failed to dispatch a payment.
    /// Report this as the final result of simulation event.
    SendPaymentFailure(Payment, PaymentResult),
}

/// What the consumer of the events of a node is waiting for.
#[derive(Debug)]
pub enum ConsumerState {
    /// The next event.
    Waiting,
    /// The node's reply to a request to send a payment.
    Sending(Payment),
    /// The delivery of an output.
    Reporting,
    /// Nothing.
    Stopped,
}

/// What can happen to the consumer of the events of a node.
#[derive(Debug)]
pub enum ConsumerInput {
    /// The simulation is shutting down.
    Shutdown,
    /// There are no more events.
    Closed,
    /// An event came in, at a point in time.
    Event(SimulationEvent, Timestamp),
    /// The node replied to the request to send a payment.
    Sent(Result<PaymentHash, LightningError>),
    /// The output was delivered.
    Reported,
    /// The output, of which the text is given, could not be delivered.
    ReportFailed(String),
}

/// What the consumer of the events of a node does next.
#[derive(Debug)]
pub enum ConsumerAction {
    /// Wait for the next event.
    Receive,
    /// Ask the node to send a payment of an amount to a destination.
    SendPayment(PublicKey, u64),
    /// Deliver an output.
    Report(SimulationOutput),
    /// Stop with a result.
    Stop(Result<(), SimulationError>),
}

/// Whether something can happen to the consumer in a state. A node that was asked to send a payment is waited for
/// even if the simulation is shutting down.
pub open spec fn consumer_accepts(state: ConsumerState, input: ConsumerInput) -> bool {
    match state {
        ConsumerState::Waiting => input is Shutdown || input is Closed || input is Event,
        ConsumerState::Sending(_) => input is Sent,
        ConsumerState::Reporting => input is Shutdown || input is Reported || input is ReportFailed,
        ConsumerState::Stopped => false,
    }
}

/// The output for a payment that a node was asked to send. An error that is permanent ends the simulation.
pub open spec fn send_output(payment: Payment, sent: Result<PaymentHash, LightningError>) -> Result<
    SimulationOutput,
    SimulationError,
> {
    match sent {
        Ok(hash) => Ok(SimulationOutput::SendPaymentSuccess(Payment { hash: Some(hash), ..payment })),
        Err(LightningError::PermanentError(s)) => Err(
            SimulationError::LightningError(LightningError::PermanentError(s)),
        ),
        Err(_) => Ok(
            SimulationOutput::SendPaymentFailure(
                payment,
                PaymentResult { htlc_count: 0, payment_outcome: PaymentOutcome::NotDispatched },
            ),
        ),
    }
}

/// The consumer of the events of a lightning node that we can execute events on. Any output that is generated from an
/// event being executed is delivered to be handled as the result of the event.
#[derive(Debug)]
pub struct EventConsumer {
    /// The node that events are executed on.
    pub node: PublicKey,
    /// What the consumer is waiting for.
    pub state: ConsumerState,
}

impl EventConsumer {
    /// Creates a consumer that waits for an event.
    pub fn new(node: PublicKey) -> (c: Self)
        ensures
            c == (EventConsumer { node, state: ConsumerState::Waiting }),
    {
        EventConsumer { node, state: ConsumerState::Waiting }
    }

    /// The output for a payment that the node was asked to send.
    pub fn output_of(payment: Payment, sent: Result<PaymentHash, LightningError>) -> (r: Result<
        SimulationOutput,
        SimulationError,
    >)
        ensures
            r == send_output(payment, sent),
    {
        match sent {
            // We need to track the payment outcome using the payment hash that we have received.
            Ok(hash) => Ok(
                SimulationOutput::SendPaymentSuccess(
                    Payment {
                        source: payment.source,
                        destination: payment.destination,
                        amount_msat: payment.amount_msat,
                        hash: Some(hash),
                        dispatch_time: payment.dispatch_time,
                    },
                ),
            ),
            Err(e) => match e {
                LightningError::PermanentError(s) => Err(
                    SimulationError::LightningError(LightningError::PermanentError(s)),
                ),
                _ => Ok(SimulationOutput::SendPaymentFailure(payment, PaymentResult::not_dispatched())),
            },
        }
    }

    /// Decides what to do next.
    pub fn consume_events(&mut self, input: ConsumerInput) -> (action: ConsumerAction)
        requires
            consumer_accepts(old(self).state, input),
        ensures
            final(self).node == old(self).node,
            match input {
                ConsumerInput::Shutdown | ConsumerInput::Closed => {
                    &&& action == ConsumerAction::Stop(Ok(()))
                    &&& final(self).state is Stopped
                },
                ConsumerInput::Event(SimulationEvent::SendPayment(dest, amount), now) => {
                    &&& action == ConsumerAction::SendPayment(dest.pubkey, amount)
                    &&& final(self).state == ConsumerState::Sending(
                        Payment {
                            source: old(self).node,
                            destination: dest.pubkey,
                            amount_msat: amount,
                            hash: None,
                            dispatch_time: now,
                        },
                    )
                },
                ConsumerInput::Sent(sent) => match send_output(old(self).state->Sending_0, sent) {
                    Ok(output) => action == ConsumerAction::Report(output) && final(self).state is Reporting,
                    Err(e) => action == ConsumerAction::Stop(Err(e)) && final(self).state is Stopped,
                },
                ConsumerInput::Reported => action is Receive && final(self).state is Waiting,
                ConsumerInput::ReportFailed(output) => {
                    &&& action matches ConsumerAction::Stop(Err(SimulationError::MpscChannelError(m)))
                    &&& m@ == "Error sending simulation output "@ + output@ + "."@
                    &&& final(self).state is Stopped
                },
            },
    {
        match input {
            ConsumerInput::Shutdown => {
                self.state = ConsumerState::Stopped;
                ConsumerAction::Stop(Ok(()))
            },
            ConsumerInput::Closed => {
                self.state = ConsumerState::Stopped;
                ConsumerAction::Stop(Ok(()))
            },
            ConsumerInput::Event(event, now) => match event {
                SimulationEvent::SendPayment(dest, amt_msat) => {
                    self.state = ConsumerState::Sending(
                        Payment {
                            source: self.node,
                            destination: dest.pubkey,
                            amount_msat: amt_msat,
                            hash: None,
                            dispatch_time: now,
                        },
                    );
                    ConsumerAction::SendPayment(dest.pubkey, amt_msat)
                },
            },
            ConsumerInput::Sent(sent) => {
                let mut state = ConsumerState::Stopped;
                std::mem::swap(&mut state, &mut self.state);
                match state {
                    ConsumerState::Sending(payment) => match Self::output_of(payment, sent) {
                        Ok(output) => {
                            self.state = ConsumerState::Reporting;
                            ConsumerAction::Report(output)
                        },
                        Err(e) => ConsumerAction::Stop(Err(e)),
                    },
                    _ => ConsumerAction::Stop(Ok(())),
                }
            },
            ConsumerInput::Reported => {
                self.state = ConsumerState::Waiting;
                ConsumerAction::Receive
            },
            ConsumerInput::ReportFailed(output) => {
                self.state = ConsumerState::Stopped;
                let mut m = text("Error sending simulation output ");
                m.append(output.as_str());
                m.append(".");
                ConsumerAction::Stop(Err(SimulationError::MpscChannelError(m)))
            },
        }
    }
}

/// What the producer of the events of an activity does next.
#[derive(Debug)]
pub enum ProducerAction {
    /// Wait for a number of seconds, and then generate a payment.
    Sleep(u64),
    /// Deliver an event to the consumer of the source node.
    Send(SimulationEvent),
    /// Start over, as the amount that was generated is zero.
    Skip,
    /// Stop with a result.
    Stop(Result<(), SimulationError>),
}

/// What becomes of a payment that was generated: only an amount that is not zero is sent.
pub open spec fn produced(
    destination: Result<(NodeInfo, Option<u64>), DestinationGenerationError>,
    amount: Result<u64, PaymentGenerationError>,
) -> ProducerAction {
    match destination {
        Err(e) => ProducerAction::Stop(Err(SimulationError::DestinationGenerationError(e))),
        Ok((info, _)) => match amount {
            Err(e) => ProducerAction::Stop(Err(SimulationError::PaymentGenerationError(e))),
            Ok(amt) => if amt == 0 {
                ProducerAction::Skip
            } else {
                ProducerAction::Send(SimulationEvent::SendPayment(info, amt))
            },
        },
    }
}

/// The producer of the events of an activity.
#[derive(Debug)]
pub struct EventProducer {
    /// The node that payments are sent from.
    pub source: NodeInfo,
    /// The number of payments that were sent.
    pub current_count: u64,
}

impl EventProducer {
    /// Creates a producer that has not sent payments.
    pub fn new(source: NodeInfo) -> (p: Self)
        ensures
            p.source == source,
            p.current_count == 0,
    {
        EventProducer { source, current_count: 0 }
    }

    /// What comes next, given the number of payments to be made (if it is limited) and the delay before the next one:
    /// the producer stops when the number is met.
    pub open spec fn next_action(&self, count: Option<u64>, wait: Result<u64, SimulationError>) -> ProducerAction {
        if count == Some(self.current_count) {
            ProducerAction::Stop(Ok(()))
        } else {
            match wait {
                Ok(w) => ProducerAction::Sleep(w),
                Err(e) => ProducerAction::Stop(Err(e)),
            }
        }
    }

    /// Decides on the next payment: whether there is one, and when.
    pub fn next<A: PaymentGenerator>(&self, node_generator: &A) -> (action: ProducerAction)
        ensures
            exists|count: Option<u64>, start: Option<u64>, wait: Result<u64, PaymentGenerationError>|
                {
                    &&& call_ensures(A::payment_count, (node_generator,), count)
                    &&& action == self.next_action(count, #[trigger] delay(self.current_count, start, wait))
                    &&& count != Some(self.current_count) && self.current_count == 0 ==> call_ensures(
                        A::payment_start,
                        (node_generator,),
                        start,
                    )
                    &&& count != Some(self.current_count) && (self.current_count != 0 || start is None)
                        ==> call_ensures(A::next_payment_wait, (node_generator,), wait)
                    &&& #[trigger] self.next_action(count, delay(self.current_count, start, wait)) == action
                },
    {
        let count = node_generator.payment_count();
        if let Some(c) = count {
            if c == self.current_count {
                let ghost start: Option<u64> = None;
                let ghost wait: Result<u64, PaymentGenerationError> = Ok(0);
                assert(self.next_action(count, delay(self.current_count, start, wait)) == ProducerAction::Stop(
                    Ok(()),
                ));
                return ProducerAction::Stop(Ok(()));
            }
        }
        let wait = get_payment_delay(self.current_count, node_generator);
        let ghost w = wait;
        let action = match wait {
            Ok(secs) => ProducerAction::Sleep(secs),
            Err(e) => ProducerAction::Stop(Err(e)),
        };
        proof {
            let (start, interval) = choose|start: Option<u64>, interval: Result<u64, PaymentGenerationError>|
                {
                    &&& w == #[trigger] delay(self.current_count, start, interval)
                    &&& self.current_count == 0 ==> call_ensures(A::payment_start, (node_generator,), start)
                    &&& self.current_count != 0 || start is None ==> call_ensures(
                        A::next_payment_wait,
                        (node_generator,),
                        interval,
                    )
                };
            assert(self.next_action(count, delay(self.current_count, start, interval)) == action);
        }
        action
    }

    /// What becomes of a payment that was generated.
    pub fn generated(
        destination: Result<(NodeInfo, Option<u64>), DestinationGenerationError>,
        amount: Result<u64, PaymentGenerationError>,
    ) -> (action: ProducerAction)
        ensures
            action == produced(destination, amount),
    {
        match destination {
            Err(e) => ProducerAction::Stop(Err(SimulationError::DestinationGenerationError(e))),
            Ok((info, _)) => match amount {
                Err(e) => ProducerAction::Stop(Err(SimulationError::PaymentGenerationError(e))),
                Ok(amt) => {
                    if amt == 0 {
                        ProducerAction::Skip
                    } else {
                        ProducerAction::Send(SimulationEvent::SendPayment(info, amt))
                    }
                },
            },
        }
    }

    /// Generates a payment once its time has come: a destination for the source node, and an amount that the capacity of
    /// the destination informs. No amount is generated without a destination.
    pub fn generate<N: DestinationGenerator, A: PaymentGenerator>(
        &self,
        network_generator: &mut N,
        node_generator: &A,
    ) -> (action: ProducerAction)
        ensures
            exists|destination: Result<(NodeInfo, Option<u64>), DestinationGenerationError>, amount: Result<
                u64,
                PaymentGenerationError,
            >|
                {
                    &&& action == #[trigger] produced(destination, amount)
                    &&& old(network_generator).may_choose(
                        final(network_generator),
                        self.source.pubkey,
                        destination,
                    )
                    &&& destination matches Ok((_, capacity)) ==> call_ensures(
                        A::payment_amount,
                        (node_generator, capacity),
                        amount,
                    )
                },
    {
        let destination = network_generator.choose_destination(self.source.pubkey);
        let ghost d = destination;
        match destination {
            Ok((info, capacity)) => {
                let amount = node_generator.payment_amount(capacity);
                let ghost a = amount;
                let action = Self::generated(Ok((info, capacity)), amount);
                assert(action == produced(d, a));
                action
            },
            Err(e) => {
                let ghost a = Ok::<u64, PaymentGenerationError>(0);
                let action = ProducerAction::Stop(Err(SimulationError::DestinationGenerationError(e)));
                assert(action == produced(d, a));
                action
            },
        }
    }

    /// Counts a payment whose event was delivered.
    pub fn sent(&mut self)
        requires
            old(self).current_count < u64::MAX,
        ensures
            final(self).source == old(self).source,
            final(self).current_count == old(self).current_count + 1,
    {
        self.current_count = self.current_count + 1;
    }

    /// The error for an event that could not be delivered.
    pub fn send_error(&self, destination: &NodeInfo, amount: u64) -> (e: SimulationError)
        ensures
            e matches SimulationError::MpscChannelError(m) && m@ == "Stopped activity producer for "@ + decimal(
                amount as nat,
            ) + ": "@ + self.source@.text() + " -> "@ + destination@.text() + "."@,
    {
        let mut m = text("Stopped activity producer for ");
        push_decimal(&mut m, amount);
        m.append(": ");
        m.append(self.source.to_text().as_str());
        m.append(" -> ");
        m.append(destination.to_text().as_str());
        m.append(".");
        SimulationError::MpscChannelError(m)
    }
}

/// A producer of a limited number of payments goes on exactly until it has sent that number: as long as fewer were
/// sent it does not stop of its own accord, and when all were sent it does.
pub proof fn law_producer_meets_its_count(producer: EventProducer, count: u64, wait: u64)
    requires
        producer.current_count <= count,
    ensures
        producer.next_action(Some(count), Ok(wait)) == (if producer.current_count < count {
            ProducerAction::Sleep(wait)
        } else {
            ProducerAction::Stop(Ok(()))
        }),
{
}

/// What becomes of the output of an event.
#[derive(Debug)]
pub enum OutputAction {
    /// Track the payment on its source node.
    Track(Payment),
    /// Report the result of a payment.
    Report(Payment, PaymentResult),
    /// Stop with an error.
    Stop(SimulationError),
}

/// Decides what becomes of the output of an event, given whether we have execution on the source node of its payment:
/// a payment that was dispatched is tracked on that node, and one that was not is reported with its result.
pub fn produce_simulation_results<V>(nodes: &KeyedMap<PublicKey, V>, output: &SimulationOutput) -> (action: OutputAction)
    requires
        nodes.wf(),
    ensures
        match output {
            SimulationOutput::SendPaymentSuccess(payment) => if nodes@.dom().contains(payment.source) {
                action == OutputAction::Track(*payment)
            } else {
                &&& action matches OutputAction::Stop(SimulationError::MissingNodeError(m))
                &&& m@ == "Source node with public key: "@ + payment.source.text() + " unavailable."@
            },
            SimulationOutput::SendPaymentFailure(payment, result) => action == OutputAction::Report(*payment, *result),
        },
{
    match output {
        SimulationOutput::SendPaymentSuccess(payment) => {
            if nodes.contains_key(&payment.source) {
                OutputAction::Track(*payment)
            } else {
                let mut m = text("Source node with public key: ");
                m.append(payment.source.to_text().as_str());
                m.append(" unavailable.");
                OutputAction::Stop(SimulationError::MissingNodeError(m))
            }
        },
        SimulationOutput::SendPaymentFailure(payment, result) => OutputAction::Report(*payment, *result),
    }
}

/// The error for the result of a payment that could not be reported, given the texts of the payment's hash and of its
/// dispatch time.
pub fn report_error(result: &PaymentResult, hash: &str, dispatch_time: &str) -> (e: SimulationError)
    ensures
        e matches SimulationError::MpscChannelError(m) && m@ == "Failed to send payment result: "@ + result.text()
            + " for payment "@ + hash@ + " dispatched at "@ + dispatch_time@ + "."@,
{
    let mut m = text("Failed to send payment result: ");
    m.append(result.to_text().as_str());
    m.append(" for payment ");
    m.append(hash);
    m.append(" dispatched at ");
    m.append(dispatch_time);
    m.append(".");
    SimulationError::MpscChannelError(m)
}

/// The result that is reported for a payment that was tracked, if it could be. A payment without a hash was not
/// dispatched, so that it can not be tracked.
pub fn track_payment_result(payment: &Payment, report: Result<PaymentResult, LightningError>) -> (r: PaymentResult)
    ensures
        r == (match payment.hash {
            None => PaymentResult { htlc_count: 0, payment_outcome: PaymentOutcome::NotDispatched },
            Some(_) => match report {
                Ok(res) => res,
                Err(_) => PaymentResult { htlc_count: 0, payment_outcome: PaymentOutcome::TrackPaymentFailed },
            },
        }),
{
    match payment.hash {
        Some(_) => match report {
            Ok(res) => res,
            Err(_) => PaymentResult::track_payment_failed(),
        },
        // None means that the payment was not dispatched, so we cannot track it.
        None => PaymentResult::not_dispatched(),
    }
}

/// The error for the result of a tracked payment that could not be reported.
pub fn track_error(payment: &Payment, result: &PaymentResult) -> (e: SimulationError)
    requires
        payment.dispatch_time.nanos < 1_000_000_000,
    ensures
        e matches SimulationError::MpscChannelError(m) && m@ == "Failed to send payment result "@ + result.text()
            + " for payment "@ + payment.text(
            duration_debug(payment.dispatch_time.secs, payment.dispatch_time.nanos),
        ) + "."@,
{
    let mut m = text("Failed to send payment result ");
    m.append(result.to_text().as_str());
    m.append(" for payment ");
    m.append(payment.to_text().as_str());
    m.append(".");
    SimulationError::MpscChannelError(m)
}

/// The name of the file that results are written to, which contains the time that the simulation was started.
pub fn results_file_name(start_secs: u64) -> (name: String)
    ensures
        name@ == "simulation_"@ + decimal(start_secs as nat) + ".csv"@,
{
    let mut name = text("simulation_");
    push_decimal(&mut name, start_secs);
    name.append(".csv");
    name
}

/// The capacity of a node in the generation of random activity: half of the sum of its channels, as each channel
/// reports the total balance between counterparties. Only a node with a capacity that suffices for the expected payment
/// amount is eligible.
pub open spec fn active_capacity(channels: Seq<u64>, expected_payment_msat: u64) -> Option<u64> {
    if weight_sum(channels) / 2 < required_capacity(expected_payment_msat) {
        None
    } else {
        Some((weight_sum(channels) / 2) as u64)
    }
}

proof fn lemma_prefix_sum(s: Seq<u64>, i: int)
    requires
        0 <= i <= s.len(),
    ensures
        weight_sum(s.subrange(0, i)) <= weight_sum(s),
    decreases s.len() - i,
{
    if i < s.len() {
        lemma_prefix_sum(s, i + 1);
        assert(s.subrange(0, i + 1).drop_last() =~= s.subrange(0, i));
    } else {
        assert(s.subrange(0, i) =~= s);
    }
}

/// The capacity of a node with the channels provided in the generation of random activity, if it is eligible.
pub fn eligible_capacity(channels: &Vec<u64>, expected_payment_msat: u64) -> (capacity: Option<u64>)
    requires
        weight_sum(channels@) <= u64::MAX,
        required_capacity(expected_payment_msat) <= u64::MAX,
    ensures
        capacity == active_capacity(channels@, expected_payment_msat),
        capacity matches Some(c) ==> 2 * c <= weight_sum(channels@) <= 2 * c + 1,
        capacity is Some <==> weight_sum(channels@) >= 4 * expected_payment_msat,
{
    let mut sum: u64 = 0;
    let mut i: usize = 0;
    assert(channels@.subrange(0, 0) =~= Seq::empty());
    while i < channels.len()
        invariant
            i <= channels@.len(),
            sum == weight_sum(channels@.subrange(0, i as int)),
            weight_sum(channels@) <= u64::MAX,
        decreases channels@.len() - i,
    {
        proof {
            lemma_prefix_sum(channels@, i as int + 1);
            assert(channels@.subrange(0, i as int + 1).drop_last() =~= channels@.subrange(0, i as int));
        }
        sum += channels[i];
        i += 1;
    }
    assert(channels@.subrange(0, i as int) =~= channels@);
    // Don't double count channel capacity because each channel reports the total balance between counter parities.
    let capacity: u64 = sum / 2;
    match RandomPaymentActivity::validate_capacity(capacity, expected_payment_msat) {
        Ok(()) => Some(capacity),
        Err(_) => None,
    }
}

/// Whatever the number of its channels, the capacity that a node takes part with is half of their sum, rounded down. It takes part
/// if and only if that is at least twice the expected payment amount.
pub proof fn law_capacity_is_half_of_all_channels(channels: Seq<u64>, expected_payment_msat: u64)
    requires
        weight_sum(channels) <= u64::MAX,
    ensures
        active_capacity(channels, expected_payment_msat) matches Some(capacity) ==> {
            &&& 2 * capacity <= weight_sum(channels) <= 2 * capacity + 1
            &&& capacity >= 2 * expected_payment_msat
        },
        active_capacity(channels, expected_payment_msat) is None <==> weight_sum(channels) < 4 * expected_payment_msat,
{
}

/// Another channel adds half of its capacity to that of a node that takes part, up to the rounding, and never shuts it out.
pub proof fn law_channels_add_to_the_capacity(channels: Seq<u64>, channel: u64, expected_payment_msat: u64)
    requires
        weight_sum(channels) + channel <= u64::MAX,
    ensures
        active_capacity(channels, expected_payment_msat) matches Some(before) ==> {
            &&& active_capacity(channels.push(channel), expected_payment_msat) matches Some(after)
            &&& 2 * before + channel - 1 <= 2 * after <= 2 * before + channel + 1
        },
{
    assert(channels.push(channel).drop_last() =~= channels);
}

/// A payment that its node sent is reported as sent, with its hash and otherwise as it was asked for. A permanent error of the
/// node ends the simulation. Any other error reports the payment as not dispatched, with no htlcs.
pub proof fn law_payment_is_reported_as_it_was_sent(payment: Payment, sent: Result<PaymentHash, LightningError>)
    ensures
        sent matches Ok(hash) ==> {
            &&& send_output(payment, sent) matches Ok(SimulationOutput::SendPaymentSuccess(p))
            &&& p.hash == Some(hash)
            &&& p.source == payment.source && p.destination == payment.destination
            &&& p.amount_msat == payment.amount_msat && p.dispatch_time == payment.dispatch_time
        },
        sent matches Err(e) ==> if e is PermanentError {
            send_output(payment, sent) == Err::<SimulationOutput, SimulationError>(SimulationError::LightningError(e))
        } else {
            &&& send_output(payment, sent) matches Ok(SimulationOutput::SendPaymentFailure(p, result))
            &&& p == payment
            &&& result.htlc_count == 0
            &&& result.payment_outcome is NotDispatched
        },
{
}

/// A payment that is generated is sent to the destination and with the amount that were generated, if there is an amount at all.
/// Without a destination or without an amount because of an error, the producer stops with the error.
pub proof fn law_generated_payment_is_sent(
    destination: Result<(NodeInfo, Option<u64>), DestinationGenerationError>,
    amount: Result<u64, PaymentGenerationError>,
)
    ensures
        produced(destination, amount) matches ProducerAction::Send(event) <==> destination is Ok && (amount matches Ok(a) && a > 0),
        produced(destination, amount) matches ProducerAction::Send(SimulationEvent::SendPayment(info, amt)) ==> info
            == destination->Ok_0.0 && amt == amount->Ok_0,
        produced(destination, amount) is Skip <==> destination is Ok && (amount matches Ok(a) && a == 0),
        destination matches Err(e) ==> produced(destination, amount) == ProducerAction::Stop(
            Err(SimulationError::DestinationGenerationError(e)),
        ),
        destination is Ok ==> (amount matches Err(e) ==> produced(destination, amount) == ProducerAction::Stop(
            Err(SimulationError::PaymentGenerationError(e)),
        )),
{
}

/// A producer whose number of payments is not limited never stops of its own accord, and one stops with the error if there is no
/// delay before the next payment.
pub proof fn law_unlimited_producer_goes_on(producer: EventProducer, wait: Result<u64, SimulationError>)
    ensures
        wait matches Ok(w) ==> producer.next_action(None, wait) == ProducerAction::Sleep(w),
        wait matches Err(e) ==> producer.next_action(None, wait) == ProducerAction::Stop(Err(e)),
{
}

/// A node that was asked to send a payment is waited for, and nothing else happens before it answers. Its answer comes at no other
/// time. The simulation can shut down at all other times, until the consumer has stopped. Nothing happens after that.
pub proof fn law_consumer_waits_for_the_node_that_sends(state: ConsumerState, input: ConsumerInput)
    ensures
        state is Sending ==> (consumer_accepts(state, input) <==> input is Sent),
        input is Sent ==> (consumer_accepts(state, input) <==> state is Sending),
        input is Shutdown ==> (consumer_accepts(state, input) <==> state is Waiting || state is Reporting),
        input is Event || input is Closed ==> (consumer_accepts(state, input) <==> state is Waiting),
        input is Reported || input is ReportFailed ==> (consumer_accepts(state, input) <==> state is Reporting),
{
}

} // verus!
