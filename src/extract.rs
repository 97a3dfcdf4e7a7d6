use vstd::prelude::*;
use crate::param::{FromPathParam, FromPathParamError};
use crate::pattern::view_pairs;
use crate::response::{
    empty_response, rejection_code, rejection_status, Rejection, Responder, Response, ResponseView,
};

verus! {

/// The family of an extractor, which fixes whether it needs the request body.
pub trait ExtractClass {
    spec fn takes_body_spec() -> bool;

    fn takes_body() -> (r: bool)
        ensures
            r == Self::takes_body_spec(),
    ;
}

/// Extractors that decode the request body.
pub struct ExtractBody;

impl ExtractClass for ExtractBody {
    open spec fn takes_body_spec() -> bool {
        true
    }

    fn takes_body() -> (r: bool) {
        true
    }
}

/// Extractors that read only the request head: headers, query, path
/// captures, application state.
pub struct ExtractRequest;

impl ExtractClass for ExtractRequest {
    open spec fn takes_body_spec() -> bool {
        false
    }

    fn takes_body() -> (r: bool) {
        false
    }
}

/// Why the path parameters of a handler could not be extracted.
#[derive(Debug, Clone, Copy, PartialEq, Eq, Structural)]
pub enum PathExtractError {
    /// The route captured fewer values than the handler declares.
    ExhaustedPathIterator,
    /// A captured value did not convert to the declared type.
    InvalidParam(FromPathParamError),
}

/// A path parameter that cannot be extracted is a mismatch between a route
/// and its handler: it is answered 500.
impl Responder for PathExtractError {
    open spec fn response_spec(&self) -> ResponseView {
        empty_response(rejection_code(Rejection::PathMismatch))
    }

    fn respond_to(self) -> (r: Response) {
        rejection_status(Rejection::PathMismatch).respond_to()
    }
}

/// The raw captured values, in order.
pub open spec fn param_values(params: Seq<(String, String)>) -> Seq<Seq<char>> {
    view_pairs(params).map_values(|p: (Seq<char>, Seq<char>)| p.1)
}

/// `v` is what the `i`-th value gives for a parameter of type `T`.
pub open spec fn nth_accepts<T: FromPathParam>(values: Seq<Seq<char>>, i: int, v: T) -> bool {
    i < values.len() && T::param_accepts(values[i], v)
}

/// `e` is the error that the `i`-th value gives for a parameter of type `T`.
pub open spec fn nth_rejects<T: FromPathParam>(values: Seq<Seq<char>>, i: int, e: PathExtractError) -> bool {
    if i >= values.len() {
        e == PathExtractError::ExhaustedPathIterator
    } else {
        e matches PathExtractError::InvalidParam(pe) && T::param_rejects(values[i], pe)
    }
}

fn nth_param<T: FromPathParam>(params: &Vec<(String, String)>, i: usize) -> (r: Result<T, PathExtractError>)
    ensures
        match r {
            Ok(v) => nth_accepts::<T>(param_values(params@), i as int, v),
            Err(e) => nth_rejects::<T>(param_values(params@), i as int, e),
        },
{
    if i >= params.len() {
        return Err(PathExtractError::ExhaustedPathIterator);
    }
    assert(param_values(params@)[i as int] == params@[i as int].1@);
    match T::from_path_param(params[i].1.as_str()) {
        Ok(v) => Ok(v),
        Err(e) => Err(PathExtractError::InvalidParam(e)),
    }
}

/// A tuple of path parameters, taken from the captured values left to right.
pub trait PathParams: Sized {
    /// `v` is what the values give.
    spec fn params_accept(values: Seq<Seq<char>>, v: Self) -> bool;

    /// `e` is the first error that the values give, left to right.
    spec fn params_reject(values: Seq<Seq<char>>, e: PathExtractError) -> bool;

    fn from_params(params: &Vec<(String, String)>) -> (r: Result<Self, PathExtractError>)
        ensures
            match r {
                Ok(v) => Self::params_accept(param_values(params@), v),
                Err(e) => Self::params_reject(param_values(params@), e),
            },
    ;
}

impl<T1: FromPathParam> PathParams for (T1,) {
    open spec fn params_accept(values: Seq<Seq<char>>, v: Self) -> bool {
        nth_accepts::<T1>(values, 0, v.0)
    }

    open spec fn params_reject(values: Seq<Seq<char>>, e: PathExtractError) -> bool {
        nth_rejects::<T1>(values, 0, e)
    }

    fn from_params(params: &Vec<(String, String)>) -> (r: Result<Self, PathExtractError>) {
        let a0 = nth_param::<T1>(params, 0)?;
        Ok((a0,))
    }
}

impl<T1: FromPathParam, T2: FromPathParam> PathParams for (T1, T2) {
    open spec fn params_accept(values: Seq<Seq<char>>, v: Self) -> bool {
        nth_accepts::<T1>(values, 0, v.0) && nth_accepts::<T2>(values, 1, v.1)
    }

    open spec fn params_reject(values: Seq<Seq<char>>, e: PathExtractError) -> bool {
        ||| nth_rejects::<T1>(values, 0, e)
        ||| exists|a0: T1| nth_accepts::<T1>(values, 0, a0) && nth_rejects::<T2>(values, 1, e)
    }

    fn from_params(params: &Vec<(String, String)>) -> (r: Result<Self, PathExtractError>) {
        let a0 = nth_param::<T1>(params, 0)?;
        let a1 = nth_param::<T2>(params, 1)?;
        Ok((a0, a1))
    }
}

impl<T1: FromPathParam, T2: FromPathParam, T3: FromPathParam> PathParams for (T1, T2, T3) {
    open spec fn params_accept(values: Seq<Seq<char>>, v: Self) -> bool {
        nth_accepts::<T1>(values, 0, v.0) && nth_accepts::<T2>(values, 1, v.1) && nth_accepts::<T3>(values, 2, v.2)
    }

    open spec fn params_reject(values: Seq<Seq<char>>, e: PathExtractError) -> bool {
        ||| nth_rejects::<T1>(values, 0, e)
        ||| exists|a0: T1| nth_accepts::<T1>(values, 0, a0) && nth_rejects::<T2>(values, 1, e)
        ||| exists|a0: T1, a1: T2| nth_accepts::<T1>(values, 0, a0) && nth_accepts::<T2>(values, 1, a1) && nth_rejects::<T3>(values, 2, e)
    }

    fn from_params(params: &Vec<(String, String)>) -> (r: Result<Self, PathExtractError>) {
        let a0 = nth_param::<T1>(params, 0)?;
        let a1 = nth_param::<T2>(params, 1)?;
        let a2 = nth_param::<T3>(params, 2)?;
        Ok((a0, a1, a2))
    }
}

impl<T1: FromPathParam, T2: FromPathParam, T3: FromPathParam, T4: FromPathParam> PathParams for (T1, T2, T3, T4) {
    open spec fn params_accept(values: Seq<Seq<char>>, v: Self) -> bool {
        nth_accepts::<T1>(values, 0, v.0) && nth_accepts::<T2>(values, 1, v.1) && nth_accepts::<T3>(values, 2, v.2) && nth_accepts::<T4>(values, 3, v.3)
    }

    open spec fn params_reject(values: Seq<Seq<char>>, e: PathExtractError) -> bool {
        ||| nth_rejects::<T1>(values, 0, e)
        ||| exists|a0: T1| nth_accepts::<T1>(values, 0, a0) && nth_rejects::<T2>(values, 1, e)
        ||| exists|a0: T1, a1: T2| nth_accepts::<T1>(values, 0, a0) && nth_accepts::<T2>(values, 1, a1) && nth_rejects::<T3>(values, 2, e)
        ||| exists|a0: T1, a1: T2, a2: T3| nth_accepts::<T1>(values, 0, a0) && nth_accepts::<T2>(values, 1, a1) && nth_accepts::<T3>(values, 2, a2) && nth_rejects::<T4>(values, 3, e)
    }

    fn from_params(params: &Vec<(String, String)>) -> (r: Result<Self, PathExtractError>) {
        let a0 = nth_param::<T1>(params, 0)?;
        let a1 = nth_param::<T2>(params, 1)?;
        let a2 = nth_param::<T3>(params, 2)?;
        let a3 = nth_param::<T4>(params, 3)?;
        Ok((a0, a1, a2, a3))
    }
}

impl<T1: FromPathParam, T2: FromPathParam, T3: FromPathParam, T4: FromPathParam, T5: FromPathParam> PathParams for (T1, T2, T3, T4, T5) {
    open spec fn params_accept(values: Seq<Seq<char>>, v: Self) -> bool {
        nth_accepts::<T1>(values, 0, v.0) && nth_accepts::<T2>(values, 1, v.1) && nth_accepts::<T3>(values, 2, v.2) && nth_accepts::<T4>(values, 3, v.3) && nth_accepts::<T5>(values, 4, v.4)
    }

    open spec fn params_reject(values: Seq<Seq<char>>, e: PathExtractError) -> bool {
        ||| nth_rejects::<T1>(values, 0, e)
        ||| exists|a0: T1| nth_accepts::<T1>(values, 0, a0) && nth_rejects::<T2>(values, 1, e)
        ||| exists|a0: T1, a1: T2| nth_accepts::<T1>(values, 0, a0) && nth_accepts::<T2>(values, 1, a1) && nth_rejects::<T3>(values, 2, e)
        ||| exists|a0: T1, a1: T2, a2: T3| nth_accepts::<T1>(values, 0, a0) && nth_accepts::<T2>(values, 1, a1) && nth_accepts::<T3>(values, 2, a2) && nth_rejects::<T4>(values, 3, e)
        ||| exists|a0: T1, a1: T2, a2: T3, a3: T4| nth_accepts::<T1>(values, 0, a0) && nth_accepts::<T2>(values, 1, a1) && nth_accepts::<T3>(values, 2, a2) && nth_accepts::<T4>(values, 3, a3) && nth_rejects::<T5>(values, 4, e)
    }

    fn from_params(params: &Vec<(String, String)>) -> (r: Result<Self, PathExtractError>) {
        let a0 = nth_param::<T1>(params, 0)?;
        let a1 = nth_param::<T2>(params, 1)?;
        let a2 = nth_param::<T3>(params, 2)?;
        let a3 = nth_param::<T4>(params, 3)?;
        let a4 = nth_param::<T5>(params, 4)?;
        Ok((a0, a1, a2, a3, a4))
    }
}

impl<T1: FromPathParam, T2: FromPathParam, T3: FromPathParam, T4: FromPathParam, T5: FromPathParam, T6: FromPathParam> PathParams for (T1, T2, T3, T4, T5, T6) {
    open spec fn params_accept(values: Seq<Seq<char>>, v: Self) -> bool {
        nth_accepts::<T1>(values, 0, v.0) && nth_accepts::<T2>(values, 1, v.1) && nth_accepts::<T3>(values, 2, v.2) && nth_accepts::<T4>(values, 3, v.3) && nth_accepts::<T5>(values, 4, v.4) && nth_accepts::<T6>(values, 5, v.5)
    }

    open spec fn params_reject(values: Seq<Seq<char>>, e: PathExtractError) -> bool {
        ||| nth_rejects::<T1>(values, 0, e)
        ||| exists|a0: T1| nth_accepts::<T1>(values, 0, a0) && nth_rejects::<T2>(values, 1, e)
        ||| exists|a0: T1, a1: T2| nth_accepts::<T1>(values, 0, a0) && nth_accepts::<T2>(values, 1, a1) && nth_rejects::<T3>(values, 2, e)
        ||| exists|a0: T1, a1: T2, a2: T3| nth_accepts::<T1>(values, 0, a0) && nth_accepts::<T2>(values, 1, a1) && nth_accepts::<T3>(values, 2, a2) && nth_rejects::<T4>(values, 3, e)
        ||| exists|a0: T1, a1: T2, a2: T3, a3: T4| nth_accepts::<T1>(values, 0, a0) && nth_accepts::<T2>(values, 1, a1) && nth_accepts::<T3>(values, 2, a2) && nth_accepts::<T4>(values, 3, a3) && nth_rejects::<T5>(values, 4, e)
        ||| exists|a0: T1, a1: T2, a2: T3, a3: T4, a4: T5| nth_accepts::<T1>(values, 0, a0) && nth_accepts::<T2>(values, 1, a1) && nth_accepts::<T3>(values, 2, a2) && nth_accepts::<T4>(values, 3, a3) && nth_accepts::<T5>(values, 4, a4) && nth_rejects::<T6>(values, 5, e)
    }

    fn from_params(params: &Vec<(String, String)>) -> (r: Result<Self, PathExtractError>) {
        let a0 = nth_param::<T1>(params, 0)?;
        let a1 = nth_param::<T2>(params, 1)?;
        let a2 = nth_param::<T3>(params, 2)?;
        let a3 = nth_param::<T4>(params, 3)?;
        let a4 = nth_param::<T5>(params, 4)?;
        let a5 = nth_param::<T6>(params, 5)?;
        Ok((a0, a1, a2, a3, a4, a5))
    }
}

impl<T1: FromPathParam, T2: FromPathParam, T3: FromPathParam, T4: FromPathParam, T5: FromPathParam, T6: FromPathParam, T7: FromPathParam> PathParams for (T1, T2, T3, T4, T5, T6, T7) {
    open spec fn params_accept(values: Seq<Seq<char>>, v: Self) -> bool {
        nth_accepts::<T1>(values, 0, v.0) && nth_accepts::<T2>(values, 1, v.1) && nth_accepts::<T3>(values, 2, v.2) && nth_accepts::<T4>(values, 3, v.3) && nth_accepts::<T5>(values, 4, v.4) && nth_accepts::<T6>(values, 5, v.5) && nth_accepts::<T7>(values, 6, v.6)
    }

    open spec fn params_reject(values: Seq<Seq<char>>, e: PathExtractError) -> bool {
        ||| nth_rejects::<T1>(values, 0, e)
        ||| exists|a0: T1| nth_accepts::<T1>(values, 0, a0) && nth_rejects::<T2>(values, 1, e)
        ||| exists|a0: T1, a1: T2| nth_accepts::<T1>(values, 0, a0) && nth_accepts::<T2>(values, 1, a1) && nth_rejects::<T3>(values, 2, e)
        ||| exists|a0: T1, a1: T2, a2: T3| nth_accepts::<T1>(values, 0, a0) && nth_accepts::<T2>(values, 1, a1) && nth_accepts::<T3>(values, 2, a2) && nth_rejects::<T4>(values, 3, e)
        ||| exists|a0: T1, a1: T2, a2: T3, a3: T4| nth_accepts::<T1>(values, 0, a0) && nth_accepts::<T2>(values, 1, a1) && nth_accepts::<T3>(values, 2, a2) && nth_accepts::<T4>(values, 3, a3) && nth_rejects::<T5>(values, 4, e)
        ||| exists|a0: T1, a1: T2, a2: T3, a3: T4, a4: T5| nth_accepts::<T1>(values, 0, a0) && nth_accepts::<T2>(values, 1, a1) && nth_accepts::<T3>(values, 2, a2) && nth_accepts::<T4>(values, 3, a3) && nth_accepts::<T5>(values, 4, a4) && nth_rejects::<T6>(values, 5, e)
        ||| exists|a0: T1, a1: T2, a2: T3, a3: T4, a4: T5, a5: T6| nth_accepts::<T1>(values, 0, a0) && nth_accepts::<T2>(values, 1, a1) && nth_accepts::<T3>(values, 2, a2) && nth_accepts::<T4>(values, 3, a3) && nth_accepts::<T5>(values, 4, a4) && nth_accepts::<T6>(values, 5, a5) && nth_rejects::<T7>(values, 6, e)
    }

    fn from_params(params: &Vec<(String, String)>) -> (r: Result<Self, PathExtractError>) {
        let a0 = nth_param::<T1>(params, 0)?;
        let a1 = nth_param::<T2>(params, 1)?;
        let a2 = nth_param::<T3>(params, 2)?;
        let a3 = nth_param::<T4>(params, 3)?;
        let a4 = nth_param::<T5>(params, 4)?;
        let a5 = nth_param::<T6>(params, 5)?;
        let a6 = nth_param::<T7>(params, 6)?;
        Ok((a0, a1, a2, a3, a4, a5, a6))
    }
}

impl<T1: FromPathParam, T2: FromPathParam, T3: FromPathParam, T4: FromPathParam, T5: FromPathParam, T6: FromPathParam, T7: FromPathParam, T8: FromPathParam> PathParams for (T1, T2, T3, T4, T5, T6, T7, T8) {
    open spec fn params_accept(values: Seq<Seq<char>>, v: Self) -> bool {
        nth_accepts::<T1>(values, 0, v.0) && nth_accepts::<T2>(values, 1, v.1) && nth_accepts::<T3>(values, 2, v.2) && nth_accepts::<T4>(values, 3, v.3) && nth_accepts::<T5>(values, 4, v.4) && nth_accepts::<T6>(values, 5, v.5) && nth_accepts::<T7>(values, 6, v.6) && nth_accepts::<T8>(values, 7, v.7)
    }

    open spec fn params_reject(values: Seq<Seq<char>>, e: PathExtractError) -> bool {
        ||| nth_rejects::<T1>(values, 0, e)
        ||| exists|a0: T1| nth_accepts::<T1>(values, 0, a0) && nth_rejects::<T2>(values, 1, e)
        ||| exists|a0: T1, a1: T2| nth_accepts::<T1>(values, 0, a0) && nth_accepts::<T2>(values, 1, a1) && nth_rejects::<T3>(values, 2, e)
        ||| exists|a0: T1, a1: T2, a2: T3| nth_accepts::<T1>(values, 0, a0) && nth_accepts::<T2>(values, 1, a1) && nth_accepts::<T3>(values, 2, a2) && nth_rejects::<T4>(values, 3, e)
        ||| exists|a0: T1, a1: T2, a2: T3, a3: T4| nth_accepts::<T1>(values, 0, a0) && nth_accepts::<T2>(values, 1, a1) && nth_accepts::<T3>(values, 2, a2) && nth_accepts::<T4>(values, 3, a3) && nth_rejects::<T5>(values, 4, e)
        ||| exists|a0: T1, a1: T2, a2: T3, a3: T4, a4: T5| nth_accepts::<T1>(values, 0, a0) && nth_accepts::<T2>(values, 1, a1) && nth_accepts::<T3>(values, 2, a2) && nth_accepts::<T4>(values, 3, a3) && nth_accepts::<T5>(values, 4, a4) && nth_rejects::<T6>(values, 5, e)
        ||| exists|a0: T1, a1: T2, a2: T3, a3: T4, a4: T5, a5: T6| nth_accepts::<T1>(values, 0, a0) && nth_accepts::<T2>(values, 1, a1) && nth_accepts::<T3>(values, 2, a2) && nth_accepts::<T4>(values, 3, a3) && nth_accepts::<T5>(values, 4, a4) && nth_accepts::<T6>(values, 5, a5) && nth_rejects::<T7>(values, 6, e)
        ||| exists|a0: T1, a1: T2, a2: T3, a3: T4, a4: T5, a5: T6, a6: T7| nth_accepts::<T1>(values, 0, a0) && nth_accepts::<T2>(values, 1, a1) && nth_accepts::<T3>(values, 2, a2) && nth_accepts::<T4>(values, 3, a3) && nth_accepts::<T5>(values, 4, a4) && nth_accepts::<T6>(values, 5, a5) && nth_accepts::<T7>(values, 6, a6) && nth_rejects::<T8>(values, 7, e)
    }

    fn from_params(params: &Vec<(String, String)>) -> (r: Result<Self, PathExtractError>) {
        let a0 = nth_param::<T1>(params, 0)?;
        let a1 = nth_param::<T2>(params, 1)?;
        let a2 = nth_param::<T3>(params, 2)?;
        let a3 = nth_param::<T4>(params, 3)?;
        let a4 = nth_param::<T5>(params, 4)?;
        let a5 = nth_param::<T6>(params, 5)?;
        let a6 = nth_param::<T7>(params, 6)?;
        let a7 = nth_param::<T8>(params, 7)?;
        Ok((a0, a1, a2, a3, a4, a5, a6, a7))
    }
}

impl<T1: FromPathParam, T2: FromPathParam, T3: FromPathParam, T4: FromPathParam, T5: FromPathParam, T6: FromPathParam, T7: FromPathParam, T8: FromPathParam, T9: FromPathParam> PathParams for (T1, T2, T3, T4, T5, T6, T7, T8, T9) {
    open spec fn params_accept(values: Seq<Seq<char>>, v: Self) -> bool {
        nth_accepts::<T1>(values, 0, v.0) && nth_accepts::<T2>(values, 1, v.1) && nth_accepts::<T3>(values, 2, v.2) && nth_accepts::<T4>(values, 3, v.3) && nth_accepts::<T5>(values, 4, v.4) && nth_accepts::<T6>(values, 5, v.5) && nth_accepts::<T7>(values, 6, v.6) && nth_accepts::<T8>(values, 7, v.7) && nth_accepts::<T9>(values, 8, v.8)
    }

    open spec fn params_reject(values: Seq<Seq<char>>, e: PathExtractError) -> bool {
        ||| nth_rejects::<T1>(values, 0, e)
        ||| exists|a0: T1| nth_accepts::<T1>(values, 0, a0) && nth_rejects::<T2>(values, 1, e)
        ||| exists|a0: T1, a1: T2| nth_accepts::<T1>(values, 0, a0) && nth_accepts::<T2>(values, 1, a1) && nth_rejects::<T3>(values, 2, e)
        ||| exists|a0: T1, a1: T2, a2: T3| nth_accepts::<T1>(values, 0, a0) && nth_accepts::<T2>(values, 1, a1) && nth_accepts::<T3>(values, 2, a2) && nth_rejects::<T4>(values, 3, e)
        ||| exists|a0: T1, a1: T2, a2: T3, a3: T4| nth_accepts::<T1>(values, 0, a0) && nth_accepts::<T2>(values, 1, a1) && nth_accepts::<T3>(values, 2, a2) && nth_accepts::<T4>(values, 3, a3) && nth_rejects::<T5>(values, 4, e)
        ||| exists|a0: T1, a1: T2, a2: T3, a3: T4, a4: T5| nth_accepts::<T1>(values, 0, a0) && nth_accepts::<T2>(values, 1, a1) && nth_accepts::<T3>(values, 2, a2) && nth_accepts::<T4>(values, 3, a3) && nth_accepts::<T5>(values, 4, a4) && nth_rejects::<T6>(values, 5, e)
        ||| exists|a0: T1, a1: T2, a2: T3, a3: T4, a4: T5, a5: T6| nth_accepts::<T1>(values, 0, a0) && nth_accepts::<T2>(values, 1, a1) && nth_accepts::<T3>(values, 2, a2) && nth_accepts::<T4>(values, 3, a3) && nth_accepts::<T5>(values, 4, a4) && nth_accepts::<T6>(values, 5, a5) && nth_rejects::<T7>(values, 6, e)
        ||| exists|a0: T1, a1: T2, a2: T3, a3: T4, a4: T5, a5: T6, a6: T7| nth_accepts::<T1>(values, 0, a0) && nth_accepts::<T2>(values, 1, a1) && nth_accepts::<T3>(values, 2, a2) && nth_accepts::<T4>(values, 3, a3) && nth_accepts::<T5>(values, 4, a4) && nth_accepts::<T6>(values, 5, a5) && nth_accepts::<T7>(values, 6, a6) && nth_rejects::<T8>(values, 7, e)
        ||| exists|a0: T1, a1: T2, a2: T3, a3: T4, a4: T5, a5: T6, a6: T7, a7: T8| nth_accepts::<T1>(values, 0, a0) && nth_accepts::<T2>(values, 1, a1) && nth_accepts::<T3>(values, 2, a2) && nth_accepts::<T4>(values, 3, a3) && nth_accepts::<T5>(values, 4, a4) && nth_accepts::<T6>(values, 5, a5) && nth_accepts::<T7>(values, 6, a6) && nth_accepts::<T8>(values, 7, a7) && nth_rejects::<T9>(values, 8, e)
    }

    fn from_params(params: &Vec<(String, String)>) -> (r: Result<Self, PathExtractError>) {
        let a0 = nth_param::<T1>(params, 0)?;
        let a1 = nth_param::<T2>(params, 1)?;
        let a2 = nth_param::<T3>(params, 2)?;
        let a3 = nth_param::<T4>(params, 3)?;
        let a4 = nth_param::<T5>(params, 4)?;
        let a5 = nth_param::<T6>(params, 5)?;
        let a6 = nth_param::<T7>(params, 6)?;
        let a7 = nth_param::<T8>(params, 7)?;
        let a8 = nth_param::<T9>(params, 8)?;
        Ok((a0, a1, a2, a3, a4, a5, a6, a7, a8))
    }
}

impl<T1: FromPathParam, T2: FromPathParam, T3: FromPathParam, T4: FromPathParam, T5: FromPathParam, T6: FromPathParam, T7: FromPathParam, T8: FromPathParam, T9: FromPathParam, T10: FromPathParam> PathParams for (T1, T2, T3, T4, T5, T6, T7, T8, T9, T10) {
    open spec fn params_accept(values: Seq<Seq<char>>, v: Self) -> bool {
        nth_accepts::<T1>(values, 0, v.0) && nth_accepts::<T2>(values, 1, v.1) && nth_accepts::<T3>(values, 2, v.2) && nth_accepts::<T4>(values, 3, v.3) && nth_accepts::<T5>(values, 4, v.4) && nth_accepts::<T6>(values, 5, v.5) && nth_accepts::<T7>(values, 6, v.6) && nth_accepts::<T8>(values, 7, v.7) && nth_accepts::<T9>(values, 8, v.8) && nth_accepts::<T10>(values, 9, v.9)
    }

    open spec fn params_reject(values: Seq<Seq<char>>, e: PathExtractError) -> bool {
        ||| nth_rejects::<T1>(values, 0, e)
        ||| exists|a0: T1| nth_accepts::<T1>(values, 0, a0) && nth_rejects::<T2>(values, 1, e)
        ||| exists|a0: T1, a1: T2| nth_accepts::<T1>(values, 0, a0) && nth_accepts::<T2>(values, 1, a1) && nth_rejects::<T3>(values, 2, e)
        ||| exists|a0: T1, a1: T2, a2: T3| nth_accepts::<T1>(values, 0, a0) && nth_accepts::<T2>(values, 1, a1) && nth_accepts::<T3>(values, 2, a2) && nth_rejects::<T4>(values, 3, e)
        ||| exists|a0: T1, a1: T2, a2: T3, a3: T4| nth_accepts::<T1>(values, 0, a0) && nth_accepts::<T2>(values, 1, a1) && nth_accepts::<T3>(values, 2, a2) && nth_accepts::<T4>(values, 3, a3) && nth_rejects::<T5>(values, 4, e)
        ||| exists|a0: T1, a1: T2, a2: T3, a3: T4, a4: T5| nth_accepts::<T1>(values, 0, a0) && nth_accepts::<T2>(values, 1, a1) && nth_accepts::<T3>(values, 2, a2) && nth_accepts::<T4>(values, 3, a3) && nth_accepts::<T5>(values, 4, a4) && nth_rejects::<T6>(values, 5, e)
        ||| exists|a0: T1, a1: T2, a2: T3, a3: T4, a4: T5, a5: T6| nth_accepts::<T1>(values, 0, a0) && nth_accepts::<T2>(values, 1, a1) && nth_accepts::<T3>(values, 2, a2) && nth_accepts::<T4>(values, 3, a3) && nth_accepts::<T5>(values, 4, a4) && nth_accepts::<T6>(values, 5, a5) && nth_rejects::<T7>(values, 6, e)
        ||| exists|a0: T1, a1: T2, a2: T3, a3: T4, a4: T5, a5: T6, a6: T7| nth_accepts::<T1>(values, 0, a0) && nth_accepts::<T2>(values, 1, a1) && nth_accepts::<T3>(values, 2, a2) && nth_accepts::<T4>(values, 3, a3) && nth_accepts::<T5>(values, 4, a4) && nth_accepts::<T6>(values, 5, a5) && nth_accepts::<T7>(values, 6, a6) && nth_rejects::<T8>(values, 7, e)
        ||| exists|a0: T1, a1: T2, a2: T3, a3: T4, a4: T5, a5: T6, a6: T7, a7: T8| nth_accepts::<T1>(values, 0, a0) && nth_accepts::<T2>(values, 1, a1) && nth_accepts::<T3>(values, 2, a2) && nth_accepts::<T4>(values, 3, a3) && nth_accepts::<T5>(values, 4, a4) && nth_accepts::<T6>(values, 5, a5) && nth_accepts::<T7>(values, 6, a6) && nth_accepts::<T8>(values, 7, a7) && nth_rejects::<T9>(values, 8, e)
        ||| exists|a0: T1, a1: T2, a2: T3, a3: T4, a4: T5, a5: T6, a6: T7, a7: T8, a8: T9| nth_accepts::<T1>(values, 0, a0) && nth_accepts::<T2>(values, 1, a1) && nth_accepts::<T3>(values, 2, a2) && nth_accepts::<T4>(values, 3, a3) && nth_accepts::<T5>(values, 4, a4) && nth_accepts::<T6>(values, 5, a5) && nth_accepts::<T7>(values, 6, a6) && nth_accepts::<T8>(values, 7, a7) && nth_accepts::<T9>(values, 8, a8) && nth_rejects::<T10>(values, 9, e)
    }

    fn from_params(params: &Vec<(String, String)>) -> (r: Result<Self, PathExtractError>) {
        let a0 = nth_param::<T1>(params, 0)?;
        let a1 = nth_param::<T2>(params, 1)?;
        let a2 = nth_param::<T3>(params, 2)?;
        let a3 = nth_param::<T4>(params, 3)?;
        let a4 = nth_param::<T5>(params, 4)?;
        let a5 = nth_param::<T6>(params, 5)?;
        let a6 = nth_param::<T7>(params, 6)?;
        let a7 = nth_param::<T8>(params, 7)?;
        let a8 = nth_param::<T9>(params, 8)?;
        let a9 = nth_param::<T10>(params, 9)?;
        Ok((a0, a1, a2, a3, a4, a5, a6, a7, a8, a9))
    }
}

/// Path parameters of a handler, converted from the route's captures.
pub struct Path<T>(pub T);

impl<T: PathParams> Path<T> {
    /// Converts the captured (name, value) pairs, left to right.
    pub fn from_params(params: &Vec<(String, String)>) -> (r: Result<Path<T>, PathExtractError>)
        ensures
            match r {
                Ok(p) => T::params_accept(param_values(params@), p.0),
                Err(e) => T::params_reject(param_values(params@), e),
            },
    {
        match T::from_params(params) {
            Ok(t) => Ok(Path(t)),
            Err(e) => Err(e),
        }
    }
}

/// A JSON body, decoded into `T`, or a value to answer as JSON.
pub struct Json<T>(pub T);

impl<T> Json<T> {
    pub fn into_inner(self) -> (r: T)
        ensures
            r == self.0,
    {
        self.0
    }
}

/// A url-encoded form body, decoded into `T`, or a value to answer as a form.
pub struct Form<T>(T);

impl<T> Form<T> {
    pub fn new(form: T) -> (r: Self)
        ensures
            r.inner() == form,
    {
        Form(form)
    }

    pub closed spec fn inner(&self) -> T {
        self.0
    }

    pub fn into_inner(self) -> (r: T)
        ensures
            r == self.inner(),
    {
        self.0
    }
}

/// The query string of a request, decoded into `T`.
pub struct Query<T>(T);

impl<T> Query<T> {
    pub fn new(query: T) -> (r: Self)
        ensures
            r.inner() == query,
    {
        Query(query)
    }

    pub closed spec fn inner(&self) -> T {
        self.0
    }

    pub fn into_inner(self) -> (r: T)
        ensures
            r == self.inner(),
    {
        self.0
    }
}

} // verus!
