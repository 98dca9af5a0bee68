use vstd::prelude::*;

verus! {

/// A subscription of a user to an author.
#[derive(Clone, Copy, Debug, PartialEq, Eq, Structural)]
pub struct Model {
    /// Id of the user.
    pub user_id: i64,
    /// Internal id of the author.
    pub author_id: i64,
}

} // verus!
