use vstd::prelude::*;

verus! {

/// Identity of an end user: an immutable string compared by content.
#[derive(Debug, PartialEq, Eq, Hash)]
pub struct UserId {
    name: String,
}

impl View for UserId {
    type V = Seq<char>;

    closed spec fn view(&self) -> Seq<char> {
        self.name@
    }
}

impl Clone for UserId {
    fn clone(&self) -> (copy: Self)
        ensures
            copy == *self,
    {
        UserId { name: self.name.clone() }
    }
}

impl UserId {
    /// Wraps the name that a credential check or a pre-authentication record produced.
    pub fn new(name: String) -> (user: UserId)
        ensures
            user@ == name@,
    {
        UserId { name }
    }

    /// The user's name.
    pub fn as_str(&self) -> (name: &str)
        ensures
            name@ == self@,
    {
        self.name.as_str()
    }

    /// Gives the name back, consuming the identity.
    pub fn into_string(self) -> (name: String)
        ensures
            name@ == self@,
    {
        self.name
    }
}

} // verus!
