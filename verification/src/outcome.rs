use vstd::prelude::*;

use crate::error::Error;

verus! {

/// Outcome of one bounded step of a read query.
///
/// A fresh value is produced by every step; nothing here persists between
/// steps.
#[derive(Debug)]
pub enum ReadStepOutput<I, F> {
    /// The field's buffers were too small for the step to make any progress.
    /// The caller must grow a buffer and retry; no data is lost.
    NotEnoughSpace,
    /// A prefix of the result was produced and more remains; drain the
    /// buffers, then step again.
    Intermediate(I),
    /// The query is exhausted. No further steps are valid afterwards.
    Final(F),
}

impl<I, F> ReadStepOutput<I, F> {
    /// True exactly for a `Final` outcome.
    pub fn is_final(&self) -> (r: bool)
        ensures
            r == (*self is Final),
    {
        match self {
            ReadStepOutput::Final(_) => true,
            _ => false,
        }
    }
}

/// Reclassifies an inner layer's step outcome for one field, given the
/// field's record count `nvalues` and byte count `nbytes` for that step.
///
/// This is the single place where the zero-progress versus protocol-violation
/// distinction is drawn:
/// - an inner `NotEnoughSpace` passes through unchanged;
/// - an inner `Intermediate` with `(0, 0)` counters becomes `NotEnoughSpace`
///   (the field made no progress although the query is not finished);
/// - an inner `Intermediate` with zero records but a nonzero byte count is a
///   protocol violation and fails the step;
/// - any other `Intermediate`, and every `Final`, is augmented with the
///   field's `(nvalues, nbytes)` pair. A `Final` with zero records is valid
///   and is never reclassified.
pub fn classify_step<I, F>(inner: ReadStepOutput<I, F>, nvalues: usize, nbytes: usize) -> (r:
    Result<ReadStepOutput<(usize, usize, I), (usize, usize, F)>, Error>)
    ensures
        inner is NotEnoughSpace ==> (r matches Ok(o) && o is NotEnoughSpace),
        (inner is Intermediate && nvalues == 0 && nbytes == 0) ==> (r matches Ok(o)
            && o is NotEnoughSpace),
        (inner is Intermediate && nvalues == 0 && nbytes > 0) ==> r == Err::<
            ReadStepOutput<(usize, usize, I), (usize, usize, F)>,
            Error,
        >(Error::ProtocolViolation { records: nvalues, bytes: nbytes }),
        inner matches ReadStepOutput::Intermediate(p) ==> nvalues > 0 ==> (r matches Ok(o)
            && o matches ReadStepOutput::Intermediate(q) && q == (nvalues, nbytes, p)),
        inner matches ReadStepOutput::Final(p) ==> (r matches Ok(o)
            && o matches ReadStepOutput::Final(q) && q == (nvalues, nbytes, p)),
{
    match inner {
        ReadStepOutput::NotEnoughSpace => Ok(ReadStepOutput::NotEnoughSpace),
        ReadStepOutput::Intermediate(payload) => {
            if nvalues == 0 && nbytes == 0 {
                Ok(ReadStepOutput::NotEnoughSpace)
            } else if nvalues == 0 {
                Err(Error::ProtocolViolation { records: nvalues, bytes: nbytes })
            } else {
                Ok(ReadStepOutput::Intermediate((nvalues, nbytes, payload)))
            }
        },
        ReadStepOutput::Final(payload) => Ok(ReadStepOutput::Final((nvalues, nbytes, payload))),
    }
}

} // verus!
