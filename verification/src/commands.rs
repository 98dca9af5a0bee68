//! Linking a channel to a user: reading the channel's name and checking the
//! user's rights in it.

use crate::entity::telegram_user;
use crate::text::{chars_of, parse_i64_chars, parse_i64_spec};
use vstd::prelude::*;

verus! {

/// Why a channel was not linked.
#[derive(Clone, Copy, Debug, PartialEq, Eq, Structural)]
pub enum LinkChannelError {
    NotFound,
    InvalidFormat,
    BotNotAdmin,
    UserNoPermissions,
}

impl LinkChannelError {
    /// The status code that goes with the error.
    pub open spec fn code_spec(self) -> u16 {
        match self {
            LinkChannelError::NotFound => 404,
            LinkChannelError::InvalidFormat => 400,
            LinkChannelError::BotNotAdmin => 401,
            LinkChannelError::UserNoPermissions => 403,
        }
    }

    /// The status code that goes with the error.
    pub fn code(&self) -> (code: u16)
        ensures
            code == self.code_spec(),
    {
        match self {
            LinkChannelError::NotFound => 404,
            LinkChannelError::InvalidFormat => 400,
            LinkChannelError::BotNotAdmin => 401,
            LinkChannelError::UserNoPermissions => 403,
        }
    }

    /// The sentence that tells the user what went wrong.
    pub fn message(&self) -> (text: String)
        ensures
            text@ == match *self {
                LinkChannelError::NotFound => "Channel not found"@,
                LinkChannelError::InvalidFormat => "Channel ID has invalid format"@,
                LinkChannelError::BotNotAdmin => "Bot is not chat administrator"@,
                LinkChannelError::UserNoPermissions =>
                    "You need to be a chat owner or channel administrator to do that"@,
            },
    {
        match self {
            LinkChannelError::NotFound => String::from_str("Channel not found"),
            LinkChannelError::InvalidFormat => String::from_str("Channel ID has invalid format"),
            LinkChannelError::BotNotAdmin => String::from_str("Bot is not chat administrator"),
            LinkChannelError::UserNoPermissions => String::from_str(
                "You need to be a chat owner or channel administrator to do that",
            ),
        }
    }
}

/// How a user names a channel.
#[derive(Clone, Copy, Debug, PartialEq, Eq, Structural)]
pub enum ChannelRef {
    /// By its id.
    Id(i64),
    /// By its public name, which begins with `@` and is still to be looked up.
    Name,
}

/// What a channel's name means: a decimal number is the id itself; else a
/// text that begins with `@` is a public name; all else is refused.
pub open spec fn channel_ref_of(text: Seq<char>) -> Result<ChannelRef, LinkChannelError> {
    match parse_i64_spec(text) {
        Some(id) => Ok(ChannelRef::Id(id)),
        None => if text.len() > 0 && text[0] == '@' {
            Ok(ChannelRef::Name)
        } else {
            Err(LinkChannelError::InvalidFormat)
        },
    }
}

/// Reads a channel's name.
pub fn channel_ref(channel_id: &str) -> (out: Result<ChannelRef, LinkChannelError>)
    ensures
        out == channel_ref_of(channel_id@),
{
    let chars = chars_of(channel_id);
    match parse_i64_chars(&chars) {
        Some(id) => Ok(ChannelRef::Id(id)),
        None => if chars.len() > 0 && chars[0] == '@' {
            Ok(ChannelRef::Name)
        } else {
            Err(LinkChannelError::InvalidFormat)
        },
    }
}

/// An administrator of a channel, as far as linking looks at one.
#[derive(Clone, Copy, Debug, PartialEq, Eq, Structural)]
pub struct Administrator {
    /// Id of the user on the chat platform.
    pub user_id: u64,
    /// Whether the user may post in the channel.
    pub can_post_messages: bool,
}

/// The id under which the chat platform knows the user.
pub open spec fn platform_user_id(user_id: i64) -> int {
    if user_id < 0 {
        user_id + 0x1_0000_0000_0000_0000
    } else {
        user_id as int
    }
}

/// Whether the user is among the administrators and may post.
pub open spec fn may_link(user_id: i64, admins: Seq<Administrator>) -> bool {
    exists|i: int|
        0 <= i < admins.len() && (#[trigger] admins[i]).user_id == platform_user_id(user_id)
            && admins[i].can_post_messages
}

/// Checks the user's rights in a channel, given its administrators.
pub fn check_rights(user_id: i64, admins: &Vec<Administrator>) -> (out: Result<
    (),
    LinkChannelError,
>)
    ensures
        may_link(user_id, admins@) ==> out is Ok,
        !may_link(user_id, admins@) ==> out == Err::<(), LinkChannelError>(
            LinkChannelError::UserNoPermissions,
        ),
{
    let wanted: u64 = if user_id < 0 {
        (user_id as i128 + 0x1_0000_0000_0000_0000) as u64
    } else {
        user_id as u64
    };
    let mut i: usize = 0;
    while i < admins.len()
        invariant
            i <= admins.len(),
            wanted == platform_user_id(user_id),
            forall|j: int|
                0 <= j < i ==> !((#[trigger] admins[j]).user_id == wanted
                    && admins[j].can_post_messages),
        decreases admins.len() - i,
    {
        if admins[i].user_id == wanted && admins[i].can_post_messages {
            return Ok(());
        }
        i += 1;
    }
    Err(LinkChannelError::UserNoPermissions)
}

/// The user's row once the channel is linked: a known user keeps power and
/// feed position, a new one starts with none.
pub fn linked_user(known: Option<telegram_user::Model>, user_id: i64, chat_id: i64) -> (user:
    telegram_user::Model)
    ensures
        user.id == user_id,
        user.channel == Some(chat_id),
        user.power_level == match known {
            Some(u) => u.power_level,
            None => 0,
        },
        user.last_feed_id == match known {
            Some(u) => u.last_feed_id,
            None => 0,
        },
{
    match known {
        Some(u) => telegram_user::Model {
            id: user_id,
            channel: Some(chat_id),
            power_level: u.power_level,
            last_feed_id: u.last_feed_id,
        },
        None => telegram_user::Model {
            id: user_id,
            channel: Some(chat_id),
            power_level: 0,
            last_feed_id: 0,
        },
    }
}

/// Why a user's request to purge a channel's administrators is refused
/// before the chat platform is asked.
#[derive(Clone, Copy, Debug, PartialEq, Eq, Structural)]
pub enum PurgeError {
    /// The user has no linked channel.
    NoLinkedChannel,
}

/// The channel whose administrators a user may ask to purge: the one linked
/// to the user.
pub fn purge_target(user: &Option<telegram_user::Model>) -> (out: Result<i64, PurgeError>)
    ensures
        out == match *user {
            Some(u) => match u.channel {
                Some(c) => Ok::<i64, PurgeError>(c),
                None => Err::<i64, PurgeError>(PurgeError::NoLinkedChannel),
            },
            None => Err::<i64, PurgeError>(PurgeError::NoLinkedChannel),
        },
{
    match user {
        Some(u) => match u.channel {
            Some(c) => Ok(c),
            None => Err(PurgeError::NoLinkedChannel),
        },
        None => Err(PurgeError::NoLinkedChannel),
    }
}

/// Whether a purge of the channel by its owner takes the link from the user.
pub open spec fn is_purged(user: telegram_user::Model, chat_id: i64, owner_id: i64) -> bool {
    user.channel == Some(chat_id) && user.id != owner_id
}

/// How many of the users lose their link in a purge.
pub open spec fn purged_count(users: Seq<telegram_user::Model>, chat_id: i64, owner_id: i64)
    -> nat
    decreases users.len(),
{
    if users.len() == 0 {
        0
    } else if is_purged(users.last(), chat_id, owner_id) {
        purged_count(users.drop_last(), chat_id, owner_id) + 1
    } else {
        purged_count(users.drop_last(), chat_id, owner_id)
    }
}

/// Takes the link to the channel from every user but its owner, and counts
/// the users it was taken from. Nothing else of any user changes.
pub fn purge_administrators(users: &mut Vec<telegram_user::Model>, chat_id: i64, owner_id: i64)
    -> (purged: usize)
    ensures
        final(users).len() == old(users).len(),
        forall|i: int|
            0 <= i < old(users).len() ==> (#[trigger] final(users)[i]) == if is_purged(
                old(users)[i],
                chat_id,
                owner_id,
            ) {
                telegram_user::Model {
                    id: old(users)[i].id,
                    channel: None,
                    power_level: old(users)[i].power_level,
                    last_feed_id: old(users)[i].last_feed_id,
                }
            } else {
                old(users)[i]
            },
        purged == purged_count(old(users)@, chat_id, owner_id),
{
    let mut purged: usize = 0;
    let mut i: usize = 0;
    while i < users.len()
        invariant
            i <= users.len(),
            users.len() == old(users).len(),
            purged <= i,
            purged == purged_count(old(users)@.take(i as int), chat_id, owner_id),
            forall|j: int| i <= j < users.len() ==> users[j] == old(users)[j],
            forall|j: int|
                0 <= j < i ==> (#[trigger] users[j]) == if is_purged(
                    old(users)[j],
                    chat_id,
                    owner_id,
                ) {
                    telegram_user::Model {
                        id: old(users)[j].id,
                        channel: None,
                        power_level: old(users)[j].power_level,
                        last_feed_id: old(users)[j].last_feed_id,
                    }
                } else {
                    old(users)[j]
                },
        decreases users.len() - i,
    {
        assert(old(users)@.take(i + 1).drop_last() == old(users)@.take(i as int));
        assert(old(users)@.take(i + 1).last() == old(users)[i as int]);
        let user = users[i];
        let linked = match user.channel {
            Some(c) => c == chat_id,
            None => false,
        };
        if linked && user.id != owner_id {
            users.set(
                i,
                telegram_user::Model {
                    id: user.id,
                    channel: None,
                    power_level: user.power_level,
                    last_feed_id: user.last_feed_id,
                },
            );
            purged += 1;
        }
        i += 1;
    }
    assert(old(users)@.take(old(users).len() as int) == old(users)@);
    purged
}

} // verus!
