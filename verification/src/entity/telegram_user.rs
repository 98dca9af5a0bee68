use vstd::prelude::*;

verus! {

/// Power level of an ordinary user.
pub const POWER_USER: i32 = 0;

/// Power level from which a user may add authors.
pub const POWER_MOD: i32 = 50;

/// Power level of an administrator.
pub const POWER_ADMIN: i32 = 100;

/// A user of the chat platform.
#[derive(Clone, Copy, Debug, PartialEq, Eq, Structural)]
pub struct Model {
    /// Id of the user on the chat platform.
    pub id: i64,
    /// Channel that the user's posts go to.
    pub channel: Option<i64>,
    /// Power level.
    pub power_level: i32,
    /// Highest internal post id that the user has seen in the feed.
    pub last_feed_id: i64,
}

} // verus!
