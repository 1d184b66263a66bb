//! Batching of records that are written to disk.
use crate::node::SimulationError;
use vstd::prelude::*;

verus! {

/// Decides when records that are written in batches are flushed to disk.
#[derive(Debug)]
pub struct BatchedWriter {
    batch_size: u32,
    counter: u32,
}

/// What to do after a record was queued.
#[derive(Debug)]
pub enum QueueStep {
    /// Nothing is to be done.
    Buffered,
    /// The batch is full, and is to be flushed.
    Flush,
    /// The record could not be serialized. What was queued before is to be flushed, and the error to be reported.
    FlushAndFail(SimulationError),
}

impl BatchedWriter {
    /// The number of records in a batch.
    pub closed spec fn batch_size(&self) -> nat {
        self.batch_size as nat
    }

    /// The number of records that were queued since the last flush.
    pub closed spec fn pending(&self) -> nat {
        self.counter as nat
    }

    /// There is always room for a record in the batch.
    #[verifier::type_invariant]
    spec fn has_room(&self) -> bool {
        self.counter < self.batch_size
    }

    /// Creates a new writer of batches. A batch must hold a record.
    pub fn new(batch_size: u32) -> (r: Result<BatchedWriter, SimulationError>)
        ensures
            if batch_size == 0 {
                r == Err::<BatchedWriter, SimulationError>(SimulationError::FileError)
            } else {
                r matches Ok(w) && w.batch_size() == batch_size && w.pending() == 0
            },
    {
        if batch_size == 0 {
            return Err(SimulationError::FileError);
        }
        Ok(BatchedWriter { batch_size, counter: 0 })
    }

    /// Adds an item to the batch to be written, given the outcome of its serialization (or the text of the error). The
    /// batch is flushed to disk if the batch size has been reached.
    pub fn queue(&mut self, serialized: Result<(), String>) -> (step: QueueStep)
        ensures
            final(self).batch_size() == old(self).batch_size(),
            old(self).pending() < old(self).batch_size(),
            match serialized {
                // If there's an error serializing an input, flush and exit with an error.
                Err(e) => {
                    &&& step == QueueStep::FlushAndFail(SimulationError::CsvError(e))
                    &&& final(self).pending() == 0
                },
                Ok(()) => if old(self).pending() + 1 == old(self).batch_size() {
                    step is Flush && final(self).pending() == 0
                } else {
                    step is Buffered && final(self).pending() == old(self).pending() + 1
                },
            },
    {
        proof {
            use_type_invariant(&*self);
        }
        match serialized {
            Err(e) => {
                self.counter = 0;
                QueueStep::FlushAndFail(SimulationError::CsvError(e))
            },
            Ok(()) => {
                let counter: u32 = self.counter + 1;
                if counter == self.batch_size {
                    self.counter = 0;
                    QueueStep::Flush
                } else {
                    self.counter = counter;
                    QueueStep::Buffered
                }
            },
        }
    }

    /// Whether the contents of the batched writer are to be written to disk, between records: only where that is
    /// forced, as a full batch has been flushed.
    pub fn write(&mut self, force: bool) -> (flush: bool)
        ensures
            final(self).batch_size() == old(self).batch_size(),
            flush == force,
            final(self).pending() == (if force {
                0
            } else {
                old(self).pending()
            }),
    {
        proof {
            use_type_invariant(&*self);
        }
        if force {
            self.counter = 0;
        }
        force
    }
}

} // verus!
