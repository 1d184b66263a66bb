//! Payments, their outcomes and statistics about them.
use crate::primitives::{PaymentHash, PublicKey};
use crate::text::{decimal, hex_chars, push_decimal, text};
use vstd::prelude::*;

verus! {

/// Represents all possible outcomes of a lightning network payment attempt.
#[derive(Debug, Clone, Copy, PartialEq, Eq, Structural)]
pub enum PaymentOutcome {
    /// Payment completed successfully, reaching its intended recipient.
    Success,
    /// The recipient rejected the payment.
    RecipientRejected,
    /// The payment was cancelled by the sending user before completion.
    UserAbandoned,
    /// The payment failed after exhausting all retry attempts.
    RetriesExhausted,
    /// The payment expired before it could complete (e.g., HTLC timeout).
    PaymentExpired,
    /// No viable route could be found to the destination node.
    RouteNotFound,
    /// An unexpected error occurred during payment processing.
    UnexpectedError,
    /// The payment failed due to incorrect payment details (e.g., wrong invoice amount).
    IncorrectPaymentDetails,
    /// The sending node has insufficient balance to complete/dispatch the payment.
    InsufficientBalance,
    /// The payment failed for an unknown reason.
    Unknown,
    /// The payment was never dispatched due to an error during initial sending.
    NotDispatched,
    /// The payment was dispatched but its final status could not be determined.
    TrackPaymentFailed,
    /// The payment failed at the provided index in the path.
    IndexFailure(usize),
}

impl PaymentOutcome {
    /// The name of the outcome.
    pub open spec fn text(&self) -> Seq<char> {
        match self {
            PaymentOutcome::Success => "Success"@,
            PaymentOutcome::RecipientRejected => "RecipientRejected"@,
            PaymentOutcome::UserAbandoned => "UserAbandoned"@,
            PaymentOutcome::RetriesExhausted => "RetriesExhausted"@,
            PaymentOutcome::PaymentExpired => "PaymentExpired"@,
            PaymentOutcome::RouteNotFound => "RouteNotFound"@,
            PaymentOutcome::UnexpectedError => "UnexpectedError"@,
            PaymentOutcome::IncorrectPaymentDetails => "IncorrectPaymentDetails"@,
            PaymentOutcome::InsufficientBalance => "InsufficientBalance"@,
            PaymentOutcome::Unknown => "Unknown"@,
            PaymentOutcome::NotDispatched => "NotDispatched"@,
            PaymentOutcome::TrackPaymentFailed => "TrackPaymentFailed"@,
            PaymentOutcome::IndexFailure(i) => "IndexFailure("@ + decimal(*i as nat) + ")"@,
        }
    }

    /// The name of the outcome.
    pub fn to_text(&self) -> (s: String)
        ensures
            s@ == self.text(),
    {
        match self {
            PaymentOutcome::Success => text("Success"),
            PaymentOutcome::RecipientRejected => text("RecipientRejected"),
            PaymentOutcome::UserAbandoned => text("UserAbandoned"),
            PaymentOutcome::RetriesExhausted => text("RetriesExhausted"),
            PaymentOutcome::PaymentExpired => text("PaymentExpired"),
            PaymentOutcome::RouteNotFound => text("RouteNotFound"),
            PaymentOutcome::UnexpectedError => text("UnexpectedError"),
            PaymentOutcome::IncorrectPaymentDetails => text("IncorrectPaymentDetails"),
            PaymentOutcome::InsufficientBalance => text("InsufficientBalance"),
            PaymentOutcome::Unknown => text("Unknown"),
            PaymentOutcome::NotDispatched => text("NotDispatched"),
            PaymentOutcome::TrackPaymentFailed => text("TrackPaymentFailed"),
            PaymentOutcome::IndexFailure(i) => {
                let mut s = text("IndexFailure(");
                push_decimal(&mut s, *i as u64);
                s.append(")");
                s
            },
        }
    }
}

/// Represents the result of a payment attempt.
#[derive(Debug, Clone, Copy, PartialEq, Eq, Structural)]
pub struct PaymentResult {
    /// The number of HTLCs (Hash Time Locked Contracts) used in the payment attempt.
    /// Multiple HTLCs may be used for a single payment when using techniques like multi-part payments or when
    /// retrying failed payment paths.
    pub htlc_count: usize,
    /// The final outcome of the payment attempt, indicating whether it succeeded or failed
    /// (and if failed, the reason for failure).
    pub payment_outcome: PaymentOutcome,
}

impl PaymentResult {
    /// Creates a new PaymentResult indicating that the payment was never dispatched. This is used when there was an
    /// error during the initial payment dispatch attempt (e.g., insufficient balance, invalid destination) with
    /// [`PaymentOutcome::NotDispatched`].
    pub fn not_dispatched() -> (r: Self)
        ensures
            r == (PaymentResult { htlc_count: 0, payment_outcome: PaymentOutcome::NotDispatched }),
    {
        PaymentResult { htlc_count: 0, payment_outcome: PaymentOutcome::NotDispatched }
    }

    /// Creates a new PaymentResult indicating that tracking the payment failed. This is used when the payment was
    /// dispatched but the system was unable to determine its final outcome (e.g. due to connection issues or timeouts)
    /// with [`PaymentOutcome::TrackPaymentFailed`].
    pub fn track_payment_failed() -> (r: Self)
        ensures
            r == (PaymentResult { htlc_count: 0, payment_outcome: PaymentOutcome::TrackPaymentFailed }),
    {
        PaymentResult { htlc_count: 0, payment_outcome: PaymentOutcome::TrackPaymentFailed }
    }

    /// The text of the result.
    pub open spec fn text(&self) -> Seq<char> {
        "Payment outcome: "@ + self.payment_outcome.text() + " with "@ + decimal(self.htlc_count as nat) + " htlcs"@
    }

    /// The text of the result.
    pub fn to_text(&self) -> (s: String)
        ensures
            s@ == self.text(),
    {
        let mut s = text("Payment outcome: ");
        s.append(self.payment_outcome.to_text().as_str());
        s.append(" with ");
        push_decimal(&mut s, self.htlc_count as u64);
        s.append(" htlcs");
        assert(s@ =~= self.text());
        s
    }
}

/// A point in time, as the time since the unix epoch.
#[derive(Debug, Clone, Copy, PartialEq, Eq, Structural)]
pub struct Timestamp {
    pub secs: u64,
    pub nanos: u32,
}

/// The text that std gives a duration of seconds and nanoseconds for debugging.
pub uninterp spec fn duration_debug(secs: u64, nanos: u32) -> Seq<char>;

/// Formats a duration with the `Debug` implementation of `std::time::Duration`. The text depends on the duration alone.
#[verifier::external_body]
pub(crate) fn duration_text(secs: u64, nanos: u32) -> (text: String)
    requires
        nanos < 1_000_000_000,
    ensures
        text@ == duration_debug(secs, nanos),
{
    format!("{:?}", std::time::Duration::new(secs, nanos))
}

/// Describes a payment from a source node to a destination node.
#[derive(Debug, Clone, Copy)]
pub struct Payment {
    /// Pubkey of the source node dispatching the payment.
    pub source: PublicKey,
    /// Pubkey of the destination node receiving the payment.
    pub destination: PublicKey,
    /// Amount of the payment in msat.
    pub amount_msat: u64,
    /// Hash of the payment if it has been successfully dispatched.
    pub hash: Option<PaymentHash>,
    /// Time at which the payment was dispatched.
    pub dispatch_time: Timestamp,
}

impl Payment {
    /// The text of the payment, given the text of its dispatch time.
    pub open spec fn text(&self, dispatch_time: Seq<char>) -> Seq<char> {
        "Payment "@ + (match self.hash {
            Some(h) => h.text(),
            None => Seq::empty(),
        }) + " dispatched at "@ + dispatch_time + " sending "@ + decimal(self.amount_msat as nat) + " msat from "@
            + self.source.text() + " -> "@ + self.destination.text() + "."@
    }

    /// The text of the payment, given the text of its dispatch time.
    pub fn to_text_at(&self, dispatch_time: &str) -> (s: String)
        ensures
            s@ == self.text(dispatch_time@),
    {
        let mut s = text("Payment ");
        if let Some(h) = self.hash {
            s.append(h.to_text().as_str());
        }
        s.append(" dispatched at ");
        s.append(dispatch_time);
        s.append(" sending ");
        push_decimal(&mut s, self.amount_msat);
        s.append(" msat from ");
        s.append(self.source.to_text().as_str());
        s.append(" -> ");
        s.append(self.destination.to_text().as_str());
        s.append(".");
        assert(s@ =~= self.text(dispatch_time@));
        s
    }

    /// The text of the payment.
    pub fn to_text(&self) -> (s: String)
        requires
            self.dispatch_time.nanos < 1_000_000_000,
        ensures
            s@ == self.text(duration_debug(self.dispatch_time.secs, self.dispatch_time.nanos)),
    {
        let at = duration_text(self.dispatch_time.secs, self.dispatch_time.nanos);
        self.to_text_at(at.as_str())
    }
}

/// PaymentResultLogger is an aggregate logger that will report on a summary of the payments that have been reported.
#[derive(Debug, Clone, Copy)]
pub struct PaymentResultLogger {
    pub success_payment: u64,
    pub failed_payment: u64,
    pub total_sent: u64,
}

impl PaymentResultLogger {
    /// Creates a logger that has seen no payments.
    pub fn new() -> (l: Self)
        ensures
            l == (PaymentResultLogger { success_payment: 0, failed_payment: 0, total_sent: 0 }),
    {
        PaymentResultLogger { success_payment: 0, failed_payment: 0, total_sent: 0 }
    }

    /// Counts a payment by its outcome, and its amount whatever the outcome.
    pub fn report_result(&mut self, details: &Payment, result: &PaymentResult)
        requires
            old(self).success_payment + old(self).failed_payment < u64::MAX,
            old(self).total_sent + details.amount_msat <= u64::MAX,
        ensures
            final(self).success_payment == old(self).success_payment + (if result.payment_outcome is Success {
                1int
            } else {
                0
            }),
            final(self).failed_payment == old(self).failed_payment + (if result.payment_outcome is Success {
                0int
            } else {
                1
            }),
            final(self).total_sent == old(self).total_sent + details.amount_msat,
    {
        match result.payment_outcome {
            PaymentOutcome::Success => {
                self.success_payment = self.success_payment + 1;
            },
            _ => {
                self.failed_payment = self.failed_payment + 1;
            },
        }
        self.total_sent = self.total_sent + details.amount_msat;
    }

    /// The number of payments that were reported.
    pub fn total_attempts(&self) -> (n: u64)
        requires
            self.success_payment + self.failed_payment <= u64::MAX,
        ensures
            n == self.success_payment + self.failed_payment,
    {
        self.success_payment + self.failed_payment
    }
}

/// Each outcome is written with its own name, and a failure at a hop with the position of the hop.
pub proof fn law_outcomes_are_written_with_their_names(i: usize)
    ensures
        PaymentOutcome::Success.text() == "Success"@,
        PaymentOutcome::RecipientRejected.text() == "RecipientRejected"@,
        PaymentOutcome::UserAbandoned.text() == "UserAbandoned"@,
        PaymentOutcome::RetriesExhausted.text() == "RetriesExhausted"@,
        PaymentOutcome::PaymentExpired.text() == "PaymentExpired"@,
        PaymentOutcome::RouteNotFound.text() == "RouteNotFound"@,
        PaymentOutcome::UnexpectedError.text() == "UnexpectedError"@,
        PaymentOutcome::IncorrectPaymentDetails.text() == "IncorrectPaymentDetails"@,
        PaymentOutcome::InsufficientBalance.text() == "InsufficientBalance"@,
        PaymentOutcome::Unknown.text() == "Unknown"@,
        PaymentOutcome::NotDispatched.text() == "NotDispatched"@,
        PaymentOutcome::TrackPaymentFailed.text() == "TrackPaymentFailed"@,
        PaymentOutcome::IndexFailure(i).text() == "IndexFailure("@ + decimal(i as nat) + ")"@,
{
}

/// A payment is written with its hash if it has one, the time of its dispatch, its amount, its source and its destination.
pub proof fn law_payment_is_written_with_its_parts(payment: Payment, at: Seq<char>)
    ensures
        ({
            let hash = match payment.hash {
                Some(h) => hex_chars(h.0@),
                None => Seq::empty(),
            };
            payment.text(at) == "Payment "@ + hash + " dispatched at "@ + at + " sending "@ + decimal(
                payment.amount_msat as nat,
            ) + " msat from "@ + hex_chars(payment.source.0@) + " -> "@ + hex_chars(payment.destination.0@) + "."@
        }),
{
}

} // verus!
