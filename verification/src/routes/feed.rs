//! Scheduling: from a stored post and the attachments to leave out, to a
//! queue entry.

use crate::entity::author;
use crate::entity::follow;
use crate::entity::post_media;
use crate::entity::telegram_user;
use crate::routes::author::{author_key, author_key_of, author_named, lookup_author};
use crate::entity::scheduled_post;
use crate::store::{distinct_media, has_id, Store};
use crate::text::{ids_text, join_ids};
use vstd::prelude::*;

verus! {

/// How many attachments a caller may exclude at most.
pub const MAX_EXCLUDED_MEDIA: usize = 8;

/// Why a post was not scheduled.
#[derive(Clone, Copy, Debug, PartialEq, Eq, Structural)]
pub enum ScheduleError {
    /// More attachments were excluded than the limit allows.
    TooManyExcluded,
    /// No post with this id is stored.
    PostNotFound,
    /// No id is left for the queue entry.
    Exhausted,
}

/// The ids of the attachments of the post `post_id` that are not excluded,
/// in the order of the table.
pub open spec fn chosen_media(media: Seq<post_media::Row>, post_id: i64, exclude: Seq<i64>) -> Seq<
    i64,
>
    decreases media.len(),
{
    if media.len() == 0 {
        Seq::empty()
    } else if media.last().post_id == post_id && !exclude.contains(media.last().id) {
        chosen_media(media.drop_last(), post_id, exclude).push(media.last().id)
    } else {
        chosen_media(media.drop_last(), post_id, exclude)
    }
}

/// Every chosen id is the id of an attachment of the post, and none is
/// excluded.
pub proof fn lemma_chosen_media_belong(media: Seq<post_media::Row>, post_id: i64, exclude: Seq<i64>)
    ensures
        forall|i: int|
            0 <= i < chosen_media(media, post_id, exclude).len() ==> {
                let id = #[trigger] chosen_media(media, post_id, exclude)[i];
                &&& !exclude.contains(id)
                &&& exists|k: int|
                    0 <= k < media.len() && (#[trigger] media[k]).id == id && media[k].post_id
                        == post_id
            },
    decreases media.len(),
{
    if media.len() > 0 {
        let head = media.drop_last();
        lemma_chosen_media_belong(head, post_id, exclude);
        let chosen = chosen_media(media, post_id, exclude);
        assert forall|i: int| 0 <= i < chosen.len() implies {
            let id = #[trigger] chosen[i];
            &&& !exclude.contains(id)
            &&& exists|k: int|
                0 <= k < media.len() && (#[trigger] media[k]).id == id && media[k].post_id
                    == post_id
        } by {
            let id = chosen[i];
            if i < chosen_media(head, post_id, exclude).len() {
                assert(id == chosen_media(head, post_id, exclude)[i]);
                let k = choose|k: int|
                    0 <= k < head.len() && (#[trigger] head[k]).id == id && head[k].post_id
                        == post_id;
                assert(media[k] == head[k]);
            } else {
                assert(media[media.len() - 1].id == id);
            }
        }
    }
}

/// Among attachments with distinct ids, no id is chosen twice.
pub proof fn lemma_chosen_media_distinct(
    media: Seq<post_media::Row>,
    post_id: i64,
    exclude: Seq<i64>,
)
    requires
        distinct_media(media),
    ensures
        chosen_media(media, post_id, exclude).no_duplicates(),
    decreases media.len(),
{
    if media.len() > 0 {
        let head = media.drop_last();
        assert forall|i: int, j: int| 0 <= i < j < head.len() implies (#[trigger] head[i]).id != (
        #[trigger] head[j]).id by {
            assert(head[i] == media[i]);
            assert(head[j] == media[j]);
        }
        lemma_chosen_media_distinct(head, post_id, exclude);
        lemma_chosen_media_belong(head, post_id, exclude);
        let before = chosen_media(head, post_id, exclude);
        let chosen = chosen_media(media, post_id, exclude);
        assert forall|i: int, j: int| 0 <= i < chosen.len() && 0 <= j < chosen.len() && i
            != j implies chosen[i] != chosen[j] by {
            if i < before.len() && j < before.len() {
                assert(chosen[i] == before[i]);
                assert(chosen[j] == before[j]);
            } else {
                let low = if i < j {
                    i
                } else {
                    j
                };
                let id = before[low];
                let k = choose|k: int|
                    0 <= k < head.len() && (#[trigger] head[k]).id == id && head[k].post_id
                        == post_id;
                assert(media[k] == head[k]);
                assert(chosen[low] == before[low]);
                assert(media[k].id != media[media.len() - 1].id);
            }
        }
    }
}

/// Collects the ids of a post's attachments, without the excluded ones.
pub fn media_ids_for(media: &Vec<post_media::Model>, post_id: i64, exclude: &Vec<i64>) -> (ids:
    Vec<i64>)
    ensures
        ids@ == chosen_media(post_media::rows(media@), post_id, exclude@),
{
    let mut ids: Vec<i64> = Vec::new();
    let mut i: usize = 0;
    let ghost all = post_media::rows(media@);
    while i < media.len()
        invariant
            i <= media.len(),
            all == post_media::rows(media@),
            ids@ == chosen_media(all.take(i as int), post_id, exclude@),
        decreases media.len() - i,
    {
        assert(all.take(i + 1).drop_last() == all.take(i as int));
        assert(all.take(i + 1).last() == media[i as int]@);
        if media[i].post_id == post_id && !has_id(exclude, media[i].id) {
            ids.push(media[i].id);
        }
        i += 1;
    }
    assert(all.take(media.len() as int) == all);
    ids
}

/// The queue entry for a post: the chosen attachments as a list of ids, the
/// caller's text or else the post's own, and the post's source as it is now.
pub open spec fn entry_for(
    store: Store,
    id: i64,
    user_id: i64,
    place: int,
    post_text: Option<String>,
    exclude: Seq<i64>,
) -> scheduled_post::Row {
    let post = store.posts[place];
    scheduled_post::Row {
        id,
        user_id,
        media_ids: ids_text(chosen_media(post_media::rows(store.media@), post.id, exclude)),
        post_text: match post_text {
            Some(t) => t@,
            None => post.text@,
        },
        post_source: post.source_text@,
        post_source_url: post.source_url@,
    }
}

/// Queues the stored post `post_id` for the user: with the post's
/// attachments but the excluded ones, each id once, and with `post_text` or
/// else the post's own text. More exclusions than the limit are refused
/// before anything else is looked at.
#[verifier::loop_isolation(false)]
pub fn create_scheduled_post(
    store: &mut Store,
    user_id: i64,
    post_id: i64,
    post_text: Option<String>,
    exclude_media: &Vec<i64>,
) -> (out: Result<i64, ScheduleError>)
    requires
        old(store).wf(),
    ensures
        final(store).wf(),
        final(store).authors == old(store).authors,
        final(store).posts == old(store).posts,
        final(store).media == old(store).media,
        final(store).follows == old(store).follows,
        final(store).author_seq == old(store).author_seq,
        final(store).post_seq == old(store).post_seq,
        final(store).media_seq == old(store).media_seq,
        match out {
            Ok(id) => {
                &&& exclude_media.len() <= MAX_EXCLUDED_MEDIA
                &&& chosen_media(
                    post_media::rows(old(store).media@),
                    post_id,
                    exclude_media@,
                ).no_duplicates()
                &&& id == old(store).scheduled_seq + 1
                &&& final(store).scheduled_seq == id
                &&& exists|place: int|
                    0 <= place < old(store).posts.len() && (#[trigger] old(store).posts[place]).id
                        == post_id && scheduled_post::rows(final(store).scheduled@)
                        == scheduled_post::rows(old(store).scheduled@).push(
                        entry_for(*old(store), id, user_id, place, post_text, exclude_media@),
                    )
            },
            Err(ScheduleError::TooManyExcluded) => exclude_media.len() > MAX_EXCLUDED_MEDIA && *final(store) == *old(
                store,
            ),
            Err(ScheduleError::PostNotFound) => exclude_media.len() <= MAX_EXCLUDED_MEDIA && !old(store).holds_post(
                post_id,
            ) && *final(store) == *old(store),
            Err(ScheduleError::Exhausted) => exclude_media.len() <= MAX_EXCLUDED_MEDIA && old(store).holds_post(
                post_id,
            ) && old(store).scheduled_seq == i64::MAX && *final(store) == *old(store),
        },
{
    if exclude_media.len() > MAX_EXCLUDED_MEDIA {
        return Err(ScheduleError::TooManyExcluded);
    }
    let mut found: Option<usize> = None;
    let mut i: usize = 0;
    while i < store.posts.len()
        invariant
            i <= store.posts.len(),
            *store == *old(store),
            found matches Some(k) ==> k < i && store.posts[k as int].id == post_id,
            found is None ==> forall|j: int| 0 <= j < i ==> (#[trigger] store.posts[j]).id
                != post_id,
        decreases store.posts.len() - i,
    {
        if found.is_none() && store.posts[i].id == post_id {
            found = Some(i);
        }
        i += 1;
    }
    let place = match found {
        Some(k) => k,
        None => {
            return Err(ScheduleError::PostNotFound);
        },
    };
    if store.scheduled_seq == i64::MAX {
        return Err(ScheduleError::Exhausted);
    }
    let id = store.scheduled_seq + 1;
    let ids = media_ids_for(&store.media, post_id, exclude_media);
    let text = match &post_text {
        Some(t) => t.clone(),
        None => store.posts[place].text.clone(),
    };
    let row = scheduled_post::Model {
        id,
        user_id,
        media_ids: join_ids(&ids),
        post_text: text,
        post_source: store.posts[place].source_text.clone(),
        post_source_url: store.posts[place].source_url.clone(),
    };
    store.scheduled.push(row);
    store.scheduled_seq = id;
    proof {
        lemma_chosen_media_distinct(post_media::rows(old(store).media@), post_id, exclude_media@);
        assert(scheduled_post::rows(store.scheduled@) =~= scheduled_post::rows(
            old(store).scheduled@,
        ).push(entry_for(*old(store), id, user_id, place as int, post_text, exclude_media@)));
        assert forall|a: int| 0 <= a < store.scheduled.len() implies (
        #[trigger] store.scheduled[a]).id <= store.scheduled_seq by {
            if a < old(store).scheduled.len() {
                assert(store.scheduled[a] == old(store).scheduled[a]);
            }
        }
    }
    Ok(id)
}

/// Why a change to a user's subscriptions was refused.
#[derive(Clone, Copy, Debug, PartialEq, Eq, Structural)]
pub enum FeedError {
    /// No author goes by the name given.
    AuthorNotFound,
    /// The user follows the author already.
    InvalidOperation,
}

impl FeedError {
    /// The status code that goes with the error.
    pub fn code(&self) -> (code: u16)
        ensures
            code == match *self {
                FeedError::AuthorNotFound => 404u16,
                FeedError::InvalidOperation => 400u16,
            },
    {
        match self {
            FeedError::AuthorNotFound => 404,
            FeedError::InvalidOperation => 400,
        }
    }

    /// The sentence that tells the user what went wrong.
    pub fn message(&self) -> (text: String)
        ensures
            text@ == match *self {
                FeedError::AuthorNotFound => "Author does not exists"@,
                FeedError::InvalidOperation => "Invalid operation"@,
            },
    {
        match self {
            FeedError::AuthorNotFound => String::from_str("Author does not exists"),
            FeedError::InvalidOperation => String::from_str("Invalid operation"),
        }
    }
}

/// The subscription that a request speaks of: the user's to the author that
/// the text names, or nothing where it names none.
pub open spec fn edge_named(store: Store, user_id: i64, text: Seq<char>) -> Option<follow::Model> {
    match author_named(author::rows(store.authors@), author_key_of(text), text) {
        Some(k) => Some(follow::Model { user_id, author_id: store.authors[k].id }),
        None => None,
    }
}

/// Finds the subscription that a request speaks of.
fn named_edge(store: &Store, user_id: i64, author: &str) -> (edge: Option<follow::Model>)
    ensures
        edge == edge_named(*store, user_id, author@),
{
    let key = author_key(author);
    match lookup_author(&store.authors, key, author) {
        Some(k) => Some(follow::Model { user_id, author_id: store.authors[k].id }),
        None => None,
    }
}

/// Subscribes the user to the author that `author` names: by platform id,
/// by negated internal id, or by handle. An unknown author is refused, and so
/// is a subscription that exists already; the tables then stay as they were.
#[verifier::loop_isolation(false)]
pub fn subscribe(store: &mut Store, user_id: i64, author: &str) -> (out: Result<(), FeedError>)
    requires
        old(store).wf(),
    ensures
        final(store).wf(),
        match edge_named(*old(store), user_id, author@) {
            None => out == Err::<(), FeedError>(FeedError::AuthorNotFound) && *final(store)
                == *old(store),
            Some(edge) => if old(store).follows@.contains(edge) {
                out == Err::<(), FeedError>(FeedError::InvalidOperation) && *final(store) == *old(
                    store,
                )
            } else {
                out == Ok::<(), FeedError>(()) && *final(store) == (Store {
                    follows: final(store).follows,
                    ..*old(store)
                }) && final(store).follows@ == old(store).follows@.push(edge)
            },
        },
{
    let edge = match named_edge(store, user_id, author) {
        Some(e) => e,
        None => {
            return Err(FeedError::AuthorNotFound);
        },
    };
    let mut i: usize = 0;
    while i < store.follows.len()
        invariant
            i <= store.follows.len(),
            *store == *old(store),
            forall|j: int| 0 <= j < i ==> store.follows[j] != edge,
        decreases store.follows.len() - i,
    {
        if store.follows[i].user_id == edge.user_id && store.follows[i].author_id
            == edge.author_id {
            return Err(FeedError::InvalidOperation);
        }
        i += 1;
    }
    assert(!store.follows@.contains(edge));
    store.follows.push(edge);
    assert(store.follows@.no_duplicates()) by {
        let all = store.follows@;
        let before = old(store).follows@;
        assert forall|a: int, b: int| 0 <= a < all.len() && 0 <= b < all.len() && a
            != b implies all[a] != all[b] by {
            if a < before.len() && b < before.len() {
                assert(all[a] == before[a]);
                assert(all[b] == before[b]);
            } else if a < before.len() {
                assert(all[a] == before[a]);
            } else {
                assert(all[b] == before[b]);
            }
        }
    }
    Ok(())
}

/// The subscriptions without `edge`, in their order.
pub open spec fn without_edge(follows: Seq<follow::Model>, edge: follow::Model) -> Seq<
    follow::Model,
>
    decreases follows.len(),
{
    if follows.len() == 0 {
        Seq::empty()
    } else if follows.last() == edge {
        without_edge(follows.drop_last(), edge)
    } else {
        without_edge(follows.drop_last(), edge).push(follows.last())
    }
}

/// Ends the user's subscription to the author that `author` names. An
/// unknown author is refused; a subscription that does not exist is ended
/// all the same.
#[verifier::loop_isolation(false)]
pub fn unsubscribe(store: &mut Store, user_id: i64, author: &str) -> (out: Result<(), FeedError>)
    requires
        old(store).wf(),
    ensures
        final(store).wf(),
        match edge_named(*old(store), user_id, author@) {
            None => out == Err::<(), FeedError>(FeedError::AuthorNotFound) && *final(store)
                == *old(store),
            Some(edge) => out == Ok::<(), FeedError>(()) && *final(store) == (Store {
                follows: final(store).follows,
                ..*old(store)
            }) && final(store).follows@ == without_edge(old(store).follows@, edge)
                && !final(store).follows@.contains(edge),
        },
{
    let edge = match named_edge(store, user_id, author) {
        Some(e) => e,
        None => {
            return Err(FeedError::AuthorNotFound);
        },
    };
    let mut kept: Vec<follow::Model> = Vec::new();
    let mut i: usize = 0;
    while i < store.follows.len()
        invariant
            i <= store.follows.len(),
            *store == *old(store),
            kept@ == without_edge(store.follows@.take(i as int), edge),
            forall|j: int| 0 <= j < kept.len() ==> kept[j] != edge,
            forall|j: int|
                0 <= j < kept.len() ==> exists|k: int|
                    0 <= k < i && store.follows[k] == #[trigger] kept[j],
            forall|a: int, b: int| 0 <= a < b < kept.len() ==> kept[a] != kept[b],
        decreases store.follows.len() - i,
    {
        assert(store.follows@.take(i + 1).drop_last() == store.follows@.take(i as int));
        assert(store.follows@.take(i + 1).last() == store.follows[i as int]);
        let row = store.follows[i];
        if !(row.user_id == edge.user_id && row.author_id == edge.author_id) {
            assert forall|a: int| 0 <= a < kept.len() implies kept[a] != row by {
                let k = choose|k: int| 0 <= k < i && store.follows[k] == kept[a];
                assert(store.follows@[k] != store.follows@[i as int]);
            }
            kept.push(row);
        }
        i += 1;
    }
    assert(store.follows@.take(store.follows.len() as int) == store.follows@);
    assert(kept@.no_duplicates()) by {
        assert forall|a: int, b: int| 0 <= a < kept@.len() && 0 <= b < kept@.len() && a
            != b implies kept@[a] != kept@[b] by {
            if a < b {
                assert(kept[a] != kept[b]);
            } else {
                assert(kept[b] != kept[a]);
            }
        }
    }
    assert(!kept@.contains(edge));
    store.follows = kept;
    Ok(())
}

/// The user's row once the feed was read up to the post `id`: the position
/// moves up to `id` and never down; a user not yet known starts at none.
pub fn read_under(known: Option<telegram_user::Model>, user_id: i64, id: i64) -> (user:
    telegram_user::Model)
    ensures
        user.id == user_id,
        user.channel == match known {
            Some(u) => u.channel,
            None => None,
        },
        user.power_level == match known {
            Some(u) => u.power_level,
            None => 0,
        },
        user.last_feed_id == match known {
            Some(u) => if id > u.last_feed_id {
                id
            } else {
                u.last_feed_id
            },
            None => if id > 0 {
                id
            } else {
                0
            },
        },
        known matches Some(u) ==> user.last_feed_id >= u.last_feed_id,
{
    let (channel, power_level, position) = match known {
        Some(u) => (u.channel, u.power_level, u.last_feed_id),
        None => (None, 0, 0),
    };
    telegram_user::Model {
        id: user_id,
        channel,
        power_level,
        last_feed_id: if id > position {
            id
        } else {
            position
        },
    }
}

} // verus!
