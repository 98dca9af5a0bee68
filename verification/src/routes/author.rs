//! Adding an author: who may, and by which key an author is looked up.

use crate::entity::author;
use crate::entity::telegram_user;
use crate::entity::telegram_user::POWER_MOD;
use crate::text::{parse_i64, parse_i64_spec, same_text};
use vstd::prelude::*;

verus! {

/// The key by which a request names an author.
#[derive(Clone, Copy, Debug, PartialEq, Eq, Structural)]
pub enum AuthorKey {
    /// The author's platform id.
    PlatformId(i64),
    /// The author's internal id.
    InternalId(i64),
    /// The author's handle: the text of the request itself.
    Username,
}

/// How the text of a request names an author: a positive number is a
/// platform id, a negative one the negated internal id, all else a handle.
pub open spec fn author_key_of(text: Seq<char>) -> AuthorKey {
    match parse_i64_spec(text) {
        Some(n) => if n > 0 {
            AuthorKey::PlatformId(n)
        } else if n < 0 && n > i64::MIN {
            AuthorKey::InternalId((-n) as i64)
        } else {
            AuthorKey::Username
        },
        None => AuthorKey::Username,
    }
}

/// Reads the key by which a request names an author.
pub fn author_key(text: &str) -> (key: AuthorKey)
    ensures
        key == author_key_of(text@),
{
    match parse_i64(text) {
        Some(n) => if n > 0 {
            AuthorKey::PlatformId(n)
        } else if n < 0 && n > i64::MIN {
            AuthorKey::InternalId(-n)
        } else {
            AuthorKey::Username
        },
        None => AuthorKey::Username,
    }
}

/// Whether a user may add authors: a known user with the power of a
/// moderator or more.
pub fn may_add_authors(user: &Option<telegram_user::Model>) -> (allowed: bool)
    ensures
        allowed == (user matches Some(u) && u.power_level >= POWER_MOD),
{
    match user {
        Some(u) => u.power_level >= POWER_MOD,
        None => false,
    }
}

/// How a number in the address of a request names an author: from zero up it
/// is a platform id, below zero the negated internal id.
pub open spec fn author_key_of_id(id: i64) -> AuthorKey {
    if id >= 0 {
        AuthorKey::PlatformId(id)
    } else if id > i64::MIN {
        AuthorKey::InternalId((-id) as i64)
    } else {
        AuthorKey::Username
    }
}

/// Reads the key that a number in the address of a request stands for.
pub fn author_key_from_id(id: i64) -> (key: AuthorKey)
    ensures
        key == author_key_of_id(id),
{
    if id >= 0 {
        AuthorKey::PlatformId(id)
    } else if id > i64::MIN {
        AuthorKey::InternalId(-id)
    } else {
        AuthorKey::Username
    }
}

/// Why an author was not added.
#[derive(Clone, Copy, Debug, PartialEq, Eq, Structural)]
pub enum AddAuthorError {
    /// The platform id is not a positive number.
    InvalidId,
    /// The user lacks the power to add authors.
    Forbidden,
}

/// Decides whether the user may add the author with the platform id `id`,
/// and gives the id to ask the feed source for. The id is looked at first.
pub fn check_add_author(id: i64, user: &Option<telegram_user::Model>) -> (out: Result<
    u64,
    AddAuthorError,
>)
    ensures
        out == if id <= 0 {
            Err::<u64, AddAuthorError>(AddAuthorError::InvalidId)
        } else if !(user matches Some(u) && u.power_level >= POWER_MOD) {
            Err::<u64, AddAuthorError>(AddAuthorError::Forbidden)
        } else {
            Ok::<u64, AddAuthorError>(id as u64)
        },
{
    if id <= 0 {
        Err(AddAuthorError::InvalidId)
    } else if !may_add_authors(user) {
        Err(AddAuthorError::Forbidden)
    } else {
        Ok(id as u64)
    }
}

/// Whether the key names this author; a handle is named by the text of the
/// request.
pub open spec fn names_author(row: author::Row, key: AuthorKey, text: Seq<char>) -> bool {
    match key {
        AuthorKey::PlatformId(n) => row.platform_id == n,
        AuthorKey::InternalId(n) => row.id == n,
        AuthorKey::Username => row.username == text,
    }
}

/// The first place among the authors that the key names.
pub open spec fn author_named(rows: Seq<author::Row>, key: AuthorKey, text: Seq<char>) -> Option<
    int,
>
    decreases rows.len(),
{
    if rows.len() == 0 {
        None
    } else {
        match author_named(rows.drop_last(), key, text) {
            Some(k) => Some(k),
            None => if names_author(rows.last(), key, text) {
                Some(rows.len() - 1)
            } else {
                None
            },
        }
    }
}

/// Looks an author up by the key of a request.
pub fn lookup_author(authors: &Vec<author::Model>, key: AuthorKey, text: &str) -> (found: Option<
    usize,
>)
    ensures
        found matches Some(k) ==> k < authors.len() && author_named(
            author::rows(authors@),
            key,
            text@,
        ) == Some(k as int),
        found is None ==> author_named(author::rows(authors@), key, text@) is None,
{
    let mut found: Option<usize> = None;
    let mut i: usize = 0;
    let ghost all = author::rows(authors@);
    while i < authors.len()
        invariant
            i <= authors.len(),
            all == author::rows(authors@),
            found matches Some(k) ==> k < i && author_named(all.take(i as int), key, text@)
                == Some(k as int),
            found is None ==> author_named(all.take(i as int), key, text@) is None,
        decreases authors.len() - i,
    {
        assert(all.take(i + 1).drop_last() == all.take(i as int));
        assert(all.take(i + 1).last() == authors[i as int]@);
        if found.is_none() {
            let named = match key {
                AuthorKey::PlatformId(n) => authors[i].platform_id == n,
                AuthorKey::InternalId(n) => authors[i].id == n,
                AuthorKey::Username => same_text(authors[i].username.as_str(), text),
            };
            if named {
                found = Some(i);
            }
        }
        i += 1;
    }
    assert(all.take(authors.len() as int) == all);
    found
}

} // verus!
