//! The credential pair a session is opened with. It is supplied by a
//! collaborator outside this library (a prompt or a secret store) and
//! passed through unchanged.
use vstd::prelude::*;

verus! {

/// An account's name and password.
#[derive(Debug, Clone)]
pub struct User {
    name: String,
    password: String,
}

impl User {
    /// The account name.
    pub closed spec fn spec_name(&self) -> Seq<char> {
        self.name@
    }

    /// The password.
    pub closed spec fn spec_password(&self) -> Seq<char> {
        self.password@
    }

    /// Bundles a name and a password.
    pub fn new(name: String, password: String) -> (r: User)
        ensures
            r.spec_name() == name@,
            r.spec_password() == password@,
    {
        User { name, password }
    }

    /// The account name.
    pub fn name(&self) -> (r: &str)
        ensures
            r@ == self.spec_name(),
    {
        self.name.as_str()
    }

    /// The password.
    pub fn password(&self) -> (r: &str)
        ensures
            r@ == self.spec_password(),
    {
        self.password.as_str()
    }
}

} // verus!
