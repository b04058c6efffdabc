use vstd::prelude::*;

verus! {

/// One entry of the dispatch queue. `J` is the job type: the pool never looks
/// inside a job, it only hands it to exactly one worker.
#[derive(Debug)]
pub enum Message<J> {
    /// A unit of work for whichever worker receives it.
    NewJob(J),
    /// Tells the worker that receives it to leave its loop.
    Terminate,
}

} // verus!
