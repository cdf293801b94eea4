use vstd::prelude::*;

verus! {

/// The credentials of an account on an outside site.
#[derive(Clone, Debug)]
pub struct ScrapeAccount {
    pub username: String,
    pub password: String,
}

impl ScrapeAccount {
    pub fn new(user: String, pass: String) -> (r: ScrapeAccount)
        ensures
            r.username == user,
            r.password == pass,
    {
        ScrapeAccount { username: user, password: pass }
    }
}

} // verus!
