//! Work that alternates with requests to the provider: each step either asks
//! for one exchange and says how to go on, or is the end.
use vstd::prelude::*;
use crate::wire::{Operation, OperationView};

verus! {

pub enum Step<T, R> {
    /// Send `operation`, then resume `then` with the reply.
    Call { operation: Operation, then: T },
    /// Nothing more is asked; this is the answer.
    Done { result: R },
}

/// What a [`Step`] says.
pub enum StepView<T, R> {
    Call { operation: OperationView, then: T },
    Done { result: R },
}

impl<T: View, R> View for Step<T, R> {
    type V = StepView<T::V, R>;

    open spec fn view(&self) -> StepView<T::V, R> {
        match *self {
            Step::Call { operation, then } => StepView::Call { operation: operation@, then: then@ },
            Step::Done { result } => StepView::Done { result },
        }
    }
}

} // verus!
