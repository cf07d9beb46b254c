use vstd::prelude::*;

verus! {

/// Restricts a protected resource to its owning user; the query layer
/// checks it against the session's logged-in identity before resolving.
pub struct OwnerGuard {
    pub user_id: u128,
}

impl OwnerGuard {
    pub fn new(user_id: u128) -> (g: OwnerGuard)
        ensures
            g.user_id == user_id,
    {
        OwnerGuard { user_id }
    }

    /// Whether the given logged-in identity is the owner this guard
    /// protects; an anonymous session is never the owner.
    pub fn permits(&self, current_user: Option<u128>) -> (r: bool)
        ensures
            r <==> current_user == Some(self.user_id),
    {
        match current_user {
            Some(u) => u == self.user_id,
            None => false,
        }
    }
}

} // verus!
