//! The two opaque locators that callers hold: the token that proves who a
//! plugin is, and the handle that addresses a stored value.

use vstd::prelude::*;

verus! {

/// Proof of a plugin's registered identity; required to create or write a
/// value.  Two tokens are the same token exactly when their texts agree.
#[derive(Debug)]
pub struct AccessToken {
    token: String,
}

impl View for AccessToken {
    type V = Seq<char>;

    closed spec fn view(&self) -> Seq<char> {
        self.token@
    }
}

impl AccessToken {
    /// Wraps `token` as an access token.
    pub fn new(token: String) -> (t: AccessToken)
        ensures
            t@ == token@,
    {
        AccessToken { token }
    }

    /// Whether both tokens name the same registration.
    pub fn matches(&self, other: &AccessToken) -> (same: bool)
        ensures
            same == (self@ == other@),
    {
        self.token == other.token
    }
}

impl Clone for AccessToken {
    fn clone(&self) -> (t: AccessToken)
        ensures
            t@ == self@,
    {
        AccessToken { token: self.token.clone() }
    }
}

impl PartialEq for AccessToken {
    fn eq(&self, other: &AccessToken) -> (same: bool) {
        self.token == other.token
    }
}

impl vstd::std_specs::cmp::PartialEqSpecImpl for AccessToken {
    open spec fn obeys_eq_spec() -> bool {
        true
    }

    open spec fn eq_spec(&self, other: &AccessToken) -> bool {
        self@ == other@
    }
}

/// Locator of a stored value: the index of its slot and the fingerprint of
/// the name the slot was created under.
#[derive(Debug, Clone, Copy, PartialEq, Eq, Structural)]
pub struct DataHandle {
    pub index: usize,
    pub name_hash: u64,
}

} // verus!
