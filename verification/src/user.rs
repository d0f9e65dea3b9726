//! The per-connection record kept by the user directory.

use vstd::prelude::*;

verus! {

/// One connection's application state: the session it is bound into, if
/// any, and the display name a nickname event set.
#[derive(Clone)]
pub struct User {
    pub game: Option<u128>,
    pub username: String,
}

impl User {
    /// A fresh record: no session, empty display name.
    pub fn new() -> (u: User)
        ensures
            u.game is None,
            u.username@ == Seq::<char>::empty(),
    {
        User { game: None, username: String::new() }
    }
}

} // verus!
