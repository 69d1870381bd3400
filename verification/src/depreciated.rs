//! An earlier shape of the plugin interface: instead of a store to call into,
//! a plugin is handed a pair of functions.

use vstd::prelude::*;

verus! {

/// The two functions through which a plugin reads and writes values by key.
/// Whoever holds a manager can do exactly what the two functions allow.
#[derive(Debug, Clone)]
pub struct Manager<G, S> {
    get_value: G,
    set_value: S,
}

impl<G: Fn(String) -> Option<String>, S: Fn(String, String)> Manager<G, S> {
    /// The function that reads.
    pub closed spec fn getter(&self) -> G {
        self.get_value
    }

    /// The function that writes.
    pub closed spec fn setter(&self) -> S {
        self.set_value
    }

    /// A manager that reads with `get_value` and writes with `set_value`.
    pub fn new(get_value: G, set_value: S) -> (manager: Self)
        ensures
            manager.getter() == get_value,
            manager.setter() == set_value,
    {
        Manager { get_value, set_value }
    }

    /// Reads the value of `key`: what the reading function answers.
    pub fn get_value(&self, key: String) -> (value: Option<String>)
        requires
            call_requires(self.getter(), (key,)),
        ensures
            call_ensures(self.getter(), (key,), value),
    {
        (self.get_value)(key)
    }

    /// Writes `val` as the value of `key`: one call of the writing function.
    pub fn set_value(&self, key: String, val: String)
        requires
            call_requires(self.setter(), (key, val)),
        ensures
            call_ensures(self.setter(), (key, val), ()),
    {
        (self.set_value)(key, val)
    }
}

} // verus!
