use vstd::prelude::*;
use std::collections::HashMap;
use crate::response::{
    empty_response, rejection_code, rejection_status, Rejection, Responder, Response, ResponseView,
};

verus! {

broadcast use vstd::std_specs::hash::group_hash_axioms;

/// Shared values of the application, one per type tag. Registering a tag
/// again replaces its value.
pub struct StateStore<V> {
    map: HashMap<u64, V>,
}

impl<V> View for StateStore<V> {
    type V = Map<u64, V>;

    closed spec fn view(&self) -> Map<u64, V> {
        self.map@
    }
}

impl<V> StateStore<V> {
    pub fn new() -> (r: Self)
        ensures
            r@ == Map::<u64, V>::empty(),
    {
        StateStore { map: HashMap::new() }
    }

    /// Registers `value` under `tag`; a value already there is replaced.
    pub fn insert(&mut self, tag: u64, value: V)
        ensures
            final(self)@ == old(self)@.insert(tag, value),
    {
        self.map.insert(tag, value);
    }

    /// The value registered under `tag`.
    pub fn get(&self, tag: u64) -> (r: Option<&V>)
        ensures
            match r {
                Some(v) => self@.contains_key(tag) && self@[tag] == *v,
                None => !self@.contains_key(tag),
            },
    {
        self.map.get(&tag)
    }

    /// The value registered under `tag`, or the error that a handler asking
    /// for an unregistered state gets.
    pub fn lookup(&self, tag: u64) -> (r: Result<&V, MissingState>)
        ensures
            match r {
                Ok(v) => self@.contains_key(tag) && self@[tag] == *v,
                Err(e) => !self@.contains_key(tag) && e.tag == tag,
            },
    {
        match self.map.get(&tag) {
            Some(v) => Ok(v),
            None => Err(MissingState { tag }),
        }
    }
}

/// No state was registered under the tag that a handler asked for.
#[derive(Debug, Clone, Copy, PartialEq, Eq, Structural)]
pub struct MissingState {
    pub tag: u64,
}

/// A missing state is a configuration defect: it is answered 500.
impl Responder for MissingState {
    open spec fn response_spec(&self) -> ResponseView {
        empty_response(rejection_code(Rejection::MissingState))
    }

    fn respond_to(self) -> (r: Response) {
        rejection_status(Rejection::MissingState).respond_to()
    }
}

/// A handler parameter that receives a registered application state.
pub struct State<T>(T);

impl<T> State<T> {
    pub fn new(value: T) -> (r: Self)
        ensures
            r.value() == value,
    {
        State(value)
    }

    pub closed spec fn value(&self) -> T {
        self.0
    }

    pub fn inner(&self) -> (r: &T)
        ensures
            *r == self.value(),
    {
        &self.0
    }
}

} // verus!
