//! Consuming the results of payments: the statistics that are kept of them, and the records that are written.
use crate::batched_writer::{BatchedWriter, QueueStep};
use crate::node::SimulationError;
use crate::payment::{Payment, PaymentResult, PaymentResultLogger};
use crate::simulation::WriteResults;
use vstd::prelude::*;

verus! {

/// What to do with the file of results.
#[derive(Debug)]
pub enum ResultsAction {
    /// Nothing is to be done.
    Wait,
    /// What was written is to be flushed to disk.
    Flush,
    /// What was written is to be flushed to disk, and the consumer exits with an error.
    FlushAndFail(SimulationError),
}

/// Consumes the results of payments.
#[derive(Debug)]
pub struct ResultsConsumer {
    /// Statistics about the payments.
    pub logger: PaymentResultLogger,
    /// The batches that are written, if results are written at all.
    pub writer: Option<BatchedWriter>,
}

impl ResultsConsumer {
    /// Starts to consume results, with the statistics so far. Results are written if that is configured, in batches that
    /// must hold a record.
    pub fn new(logger: PaymentResultLogger, write_results: &Option<WriteResults>) -> (r: Result<Self, SimulationError>)
        ensures
            match write_results {
                Some(w) => if w.batch_size == 0 {
                    r == Err::<Self, SimulationError>(SimulationError::FileError)
                } else {
                    &&& r matches Ok(c)
                    &&& c.logger == logger
                    &&& c.writer matches Some(writer)
                    &&& writer.batch_size() == w.batch_size && writer.pending() == 0
                },
                None => r matches Ok(c) && c.logger == logger && c.writer is None,
            },
    {
        match write_results {
            Some(w) => match BatchedWriter::new(w.batch_size) {
                Ok(writer) => Ok(ResultsConsumer { logger, writer: Some(writer) }),
                Err(e) => Err(e),
            },
            None => Ok(ResultsConsumer { logger, writer: None }),
        }
    }

    /// Consumes the result of a payment, given whether its record could be written, or the text of the error. Where
    /// results are not written, that makes no difference.
    pub fn consume_simulation_results(&mut self, details: &Payment, result: &PaymentResult, written: Result<(), String>)
        -> (action: ResultsAction)
        requires
            old(self).logger.success_payment + old(self).logger.failed_payment < u64::MAX,
            old(self).logger.total_sent + details.amount_msat <= u64::MAX,
        ensures
            final(self).logger.total_sent == old(self).logger.total_sent + details.amount_msat,
            if result.payment_outcome is Success {
                &&& final(self).logger.success_payment == old(self).logger.success_payment + 1
                &&& final(self).logger.failed_payment == old(self).logger.failed_payment
            } else {
                &&& final(self).logger.success_payment == old(self).logger.success_payment
                &&& final(self).logger.failed_payment == old(self).logger.failed_payment + 1
            },
            match old(self).writer {
                None => action is Wait && final(self).writer is None,
                Some(before) => {
                    &&& final(self).writer matches Some(after)
                    &&& after.batch_size() == before.batch_size()
                    &&& match written {
                        Err(e) => action == ResultsAction::FlushAndFail(SimulationError::CsvError(e)) && after.pending()
                            == 0,
                        Ok(()) => if before.pending() + 1 == before.batch_size() {
                            action is Flush && after.pending() == 0
                        } else {
                            action is Wait && after.pending() == before.pending() + 1
                        },
                    }
                },
            },
    {
        self.logger.report_result(details, result);
        match self.writer.take() {
            None => ResultsAction::Wait,
            Some(writer) => {
                let mut writer = writer;
                let step = writer.queue(written);
                self.writer = Some(writer);
                match step {
                    QueueStep::Buffered => ResultsAction::Wait,
                    QueueStep::Flush => ResultsAction::Flush,
                    QueueStep::FlushAndFail(e) => ResultsAction::FlushAndFail(e),
                }
            },
        }
    }

    /// Stops to consume results, because the simulation shuts down or there are no more. What was written is flushed.
    pub fn finish(&mut self) -> (action: ResultsAction)
        ensures
            final(self).logger == old(self).logger,
            match old(self).writer {
                None => action is Wait && final(self).writer is None,
                Some(_) => action is Flush && (final(self).writer matches Some(w) && w.pending() == 0),
            },
    {
        match self.writer.take() {
            None => ResultsAction::Wait,
            Some(writer) => {
                let mut writer = writer;
                writer.write(true);
                self.writer = Some(writer);
                ResultsAction::Flush
            },
        }
    }
}

} // verus!
