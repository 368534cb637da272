//! What runs the stages: the executor takes the wired processors and
//! drives each of them, turn after turn, until it halts.

use crate::consumer::Stage;
use crate::ringbuffer::DataProvider;
use vstd::prelude::*;

verus! {

/// Runs the stages of a pipeline on a store of type `D`.
pub trait EventProcessorExecutor<T, D: DataProvider<T>>: Sized {
    /// What stands for the running stages.
    type Handle: ExecutorHandle;

    /// The stages that the executor was made for, in their order. An
    /// implementation says here what they are.
    open spec fn runnables(&self) -> Seq<Stage<T, D>> {
        arbitrary()
    }

    /// An executor for these stages.
    fn with_runnables(items: Vec<Stage<T, D>>) -> (executor: Self)
        ensures
            executor.runnables() == items@,
    ;

    /// Starts driving every stage on `data_provider`.
    fn spawn(self, data_provider: D) -> Self::Handle;
}

/// Stands for the running stages.
pub trait ExecutorHandle {
    /// Returns when every stage has halted.
    fn join(self);
}

} // verus!
