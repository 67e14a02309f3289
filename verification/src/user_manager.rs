//! The credential record the user store works with. The store itself
//! talks to the operating system's keyring and lives outside the
//! verified library; this is the value it reads and writes.
use vstd::prelude::*;

verus! {

/// A stored account: its name and password.
#[derive(Debug, Clone, PartialEq, Eq)]
pub struct User {
    name: String,
    password: String,
}

impl User {
    /// The account name.
    pub closed spec fn spec_name(&self) -> Seq<char> {
        self.name@
    }

    /// The password.
    pub closed spec fn spec_password(&self) -> Seq<char> {
        self.password@
    }

    /// Bundles a name and a password.
    pub fn new(name: String, password: String) -> (r: User)
        ensures
            r.spec_name() == name@,
            r.spec_password() == password@,
    {
        User { name, password }
    }

    /// The account name.
    pub fn name(&self) -> (r: &str)
        ensures
            r@ == self.spec_name(),
    {
        self.name.as_str()
    }

    /// The password.
    pub fn password(&self) -> (r: &str)
        ensures
            r@ == self.spec_password(),
    {
        self.password.as_str()
    }
}

} // verus!
