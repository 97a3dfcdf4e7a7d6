use vstd::prelude::*;
use std::marker::PhantomData;

verus! {

/// A handler function together with the shape of its parameters, `P`.
pub struct HandlerFn<F, P> {
    function: F,
    params: PhantomData<P>,
}

impl<F, P> HandlerFn<F, P> {
    pub closed spec fn function_view(&self) -> F {
        self.function
    }

    pub fn new(function: F) -> (r: Self)
        ensures
            r.function_view() == function,
    {
        HandlerFn { function, params: PhantomData }
    }

    pub fn function(&self) -> (r: &F)
        ensures
            *r == self.function_view(),
    {
        &self.function
    }
}

} // verus!
