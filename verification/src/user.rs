//! The account row held by the persistence port.

use vstd::prelude::*;

verus! {

/// One registered account: its name, the one-way hash of its password, and
/// the session token of its single live session, if any.
///
/// `session_id` is `None` when the account is logged out; it is set by a
/// fresh login and cleared again by logout.
#[derive(Debug)]
pub struct User {
    pub username: String,
    pub pwhash: String,
    pub session_id: Option<String>,
}

impl Clone for User {
    /// A clone carries the same account name, hash and token.
    fn clone(&self) -> (r: Self)
        ensures
            r.deep_view() == self.deep_view(),
    {
        let session_id: Option<String> = match &self.session_id {
            Some(s) => Some(s.clone()),
            None => None,
        };
        let r = User {
            username: self.username.clone(),
            pwhash: self.pwhash.clone(),
            session_id,
        };
        proof {
            assert(r.deep_view() == self.deep_view());
        }
        r
    }
}

/// The mathematical value of a [`User`] row.
pub struct UserV {
    pub username: Seq<char>,
    pub pwhash: Seq<char>,
    pub session_id: Option<Seq<char>>,
}

impl DeepView for User {
    type V = UserV;

    open spec fn deep_view(&self) -> UserV {
        UserV {
            username: self.username@,
            pwhash: self.pwhash@,
            session_id: self.session_id.deep_view(),
        }
    }
}

} // verus!
