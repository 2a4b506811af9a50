//! The request context: who is logged in.

use vstd::prelude::*;

verus! {

/// The logged-in user of a request.
#[derive(Clone, Debug)]
pub struct Ctx {
    user_id: String,
    username: String,
}

impl View for Ctx {
    /// The user id and the user name.
    type V = (Seq<char>, Seq<char>);

    closed spec fn view(&self) -> (Seq<char>, Seq<char>) {
        (self.user_id@, self.username@)
    }
}

impl Ctx {
    /// The context of the user with this id and name.
    pub fn new(user_id: String, username: String) -> (c: Self)
        ensures
            c@ == (user_id@, username@),
    {
        Self { user_id, username }
    }

    /// The user's id.
    pub fn user_id(&self) -> (r: &str)
        ensures
            r@ == self@.0,
    {
        self.user_id.as_str()
    }

    /// The user's name.
    pub fn username(&self) -> (r: &str)
        ensures
            r@ == self@.1,
    {
        self.username.as_str()
    }
}

} // verus!
