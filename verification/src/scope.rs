//! The boundary under which an entry or an asset is visible.

use vstd::prelude::*;

verus! {

/// Public, or private to the account with the given id.
#[derive(Clone, Copy, Debug, PartialEq, Eq, Structural)]
pub enum Scope {
    Public,
    Owner(i32),
}

impl Scope {
    /// What `viewer` may see: everything public, and what is private to
    /// the viewer's own account. Nobody is `None`.
    pub open spec fn spec_visible_to(self, viewer: Option<i32>) -> bool {
        match self {
            Scope::Public => true,
            Scope::Owner(id) => viewer == Some(id),
        }
    }

    #[verifier::when_used_as_spec(spec_visible_to)]
    pub fn visible_to(self, viewer: Option<i32>) -> (seen: bool)
        ensures
            seen == self.spec_visible_to(viewer),
    {
        match self {
            Scope::Public => true,
            Scope::Owner(id) => match viewer {
                Some(v) => v == id,
                None => false,
            },
        }
    }
}

} // verus!
